//! Settings: the language of keywords, where logs go and how much is logged,
//! and where the settings file lies.
use vstd::prelude::*;
use crate::text::push_str;

verus! {

#[derive(Debug, Clone, Copy, PartialEq, Eq, Structural)]
pub enum LoggingLevel {
    Error,
    Warn,
    Info,
    Debug,
    Trace,
}

#[derive(Debug, Clone)]
pub struct Logging {
    pub level: LoggingLevel,
    pub folder: String,
    pub stdout: bool,
}

#[derive(Debug, Clone)]
pub struct Config {
    pub lang: String,
    pub logging: Logging,
    pub path_config: String,
}

#[verifier::external_type_specification]
#[verifier::external_body]
pub struct ExPathBuf(std::path::PathBuf);

/// Relies on `PathBuf::from`: the path with the given text.
#[verifier::external_body]
fn path_from(s: &String) -> std::path::PathBuf {
    std::path::PathBuf::from(s)
}

/// The text `s` with each character in lower case, as Unicode defines it.
pub uninterp spec fn lowercase(s: Seq<char>) -> Seq<char>;

/// Relies on `str::to_lowercase`: Unicode lower case of each character.
#[verifier::external_body]
fn to_lowercase(s: &str) -> (r: String)
    ensures
        r@ == lowercase(s@),
{
    s.to_lowercase()
}

pub open spec fn level_name(l: LoggingLevel) -> Seq<char> {
    match l {
        LoggingLevel::Error => "error"@,
        LoggingLevel::Warn => "warn"@,
        LoggingLevel::Info => "info"@,
        LoggingLevel::Debug => "debug"@,
        LoggingLevel::Trace => "trace"@,
    }
}

/// The level whose name is `s`.
pub open spec fn level_named(s: Seq<char>) -> Option<LoggingLevel> {
    if s == "error"@ {
        Some(LoggingLevel::Error)
    } else if s == "warn"@ {
        Some(LoggingLevel::Warn)
    } else if s == "info"@ {
        Some(LoggingLevel::Info)
    } else if s == "debug"@ {
        Some(LoggingLevel::Debug)
    } else if s == "trace"@ {
        Some(LoggingLevel::Trace)
    } else {
        None
    }
}

/// The path of the settings file under the home directory.
pub open spec fn config_path_text() -> Seq<char> {
    ".config/usqlrepl/config.toml"@
}

/// Where logs go under the home directory.
pub open spec fn log_folder_suffix() -> Seq<char> {
    "/.local/share/usqlrepl/logs"@
}

/// The language of keywords when none is set.
pub fn default_lang() -> (r: String)
    ensures
        r@ == "EN"@,
{
    "EN".to_owned()
}

/// The settings file's path when none is set.
pub fn default_config_path() -> (r: String)
    ensures
        r@ == config_path_text(),
{
    ".config/usqlrepl/config.toml".to_owned()
}

impl LoggingLevel {
    /// The level's name, in lower case.
    pub fn name(&self) -> (r: String)
        ensures
            r@ == level_name(*self),
    {
        match self {
            LoggingLevel::Error => "error".to_owned(),
            LoggingLevel::Warn => "warn".to_owned(),
            LoggingLevel::Info => "info".to_owned(),
            LoggingLevel::Debug => "debug".to_owned(),
            LoggingLevel::Trace => "trace".to_owned(),
        }
    }

    /// The level named `s`, in any case.
    pub fn from_name(s: &str) -> (r: Option<LoggingLevel>)
        ensures
            r == level_named(lowercase(s@)),
    {
        let lower = to_lowercase(s);
        if lower == "error".to_owned() {
            Some(LoggingLevel::Error)
        } else if lower == "warn".to_owned() {
            Some(LoggingLevel::Warn)
        } else if lower == "info".to_owned() {
            Some(LoggingLevel::Info)
        } else if lower == "debug".to_owned() {
            Some(LoggingLevel::Debug)
        } else if lower == "trace".to_owned() {
            Some(LoggingLevel::Trace)
        } else {
            None
        }
    }
}

impl Logging {
    /// Logging at level info, to the console too, into the usual folder
    /// under the home directory `home`.
    pub fn with_home(home: &str) -> (r: Logging)
        ensures
            r.level == LoggingLevel::Info,
            r.folder@ == home@ + log_folder_suffix(),
            r.stdout,
    {
        let mut folder = home.to_owned();
        push_str(&mut folder, "/.local/share/usqlrepl/logs");
        Logging { level: LoggingLevel::Info, folder, stdout: true }
    }

    /// The folder that logs go to.
    pub fn get_folder(&self) -> (r: Option<std::path::PathBuf>)
        ensures
            r is Some,
    {
        Some(path_from(&self.folder))
    }

    /// A one-line description of the settings.
    pub fn describe(&self) -> (r: String)
        ensures
            r@ == "Logging(level="@ + level_name(self.level) + ", folder=\""@ + self.folder@ + "\", stdout="@ + (if self.stdout {
                "true"@
            } else {
                "false"@
            }) + ")"@,
    {
        let mut r = "Logging(level=".to_owned();
        push_str(&mut r, self.level.name().as_str());
        push_str(&mut r, ", folder=\"");
        push_str(&mut r, self.folder.as_str());
        push_str(&mut r, "\", stdout=");
        push_str(&mut r, if self.stdout { "true" } else { "false" });
        push_str(&mut r, ")");
        r
    }
}

impl Config {
    /// The settings used where no settings file can be read, for the home
    /// directory `home`.
    pub fn with_home(home: &str) -> (r: Config)
        ensures
            r.lang@ == "EN"@,
            r.logging.level == LoggingLevel::Info,
            r.logging.folder@ == home@ + log_folder_suffix(),
            r.logging.stdout,
            r.path_config@ == config_path_text(),
    {
        Config { lang: default_lang(), logging: Logging::with_home(home), path_config: default_config_path() }
    }
}

} // verus!
