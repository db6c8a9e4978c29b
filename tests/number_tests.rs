use usqlrepl::configuration::{default_config_path, default_lang, Config, Logging, LoggingLevel};
use usqlrepl::number::Num;

#[test]
fn decimal_text() {
    assert_eq!(Num::integer(14).to_text(), "14");
    assert_eq!(Num { num: -1, den: 2 }.to_text(), "-0.5");
    assert_eq!(Num { num: 1, den: 3 }.to_text(), "0.3333333333333333");
    assert_eq!(Num { num: 314, den: 100 }.to_text(), "3.14");
    assert_eq!(Num::integer(0).to_text(), "0");
}

#[test]
fn literal_parsing() {
    assert_eq!(Num::parse("10"), Some(Num::integer(10)));
    assert_eq!(Num::parse("3.14"), Some(Num { num: 314, den: 100 }));
    assert_eq!(Num::parse("1."), None);
    assert_eq!(Num::parse("1a"), None);
    assert_eq!(Num::parse(""), None);
    assert_eq!(Num::parse("999999999999999999"), Some(Num::integer(999_999_999_999_999_999)));
    assert_eq!(Num::parse("9999999999999999999"), None);
}

#[test]
fn arithmetic() {
    let a = Num::integer(7);
    let b = Num::integer(2);
    assert!(a.div(&b).unwrap().same_value(&Num { num: 7, den: 2 }));
    assert_eq!(a.div(&Num::integer(0)), None);
    assert_eq!(Num::integer(i64::MAX).add(&Num::integer(1)), None);
    assert!(a.sub(&b).unwrap().same_value(&Num::integer(5)));
    assert!(a.mul(&b).unwrap().same_value(&Num::integer(14)));
    assert!(Num { num: 2, den: 4 }.same_value(&Num { num: 1, den: 2 }));
}

#[test]
fn settings() {
    assert_eq!(default_lang(), "EN");
    assert_eq!(default_config_path(), ".config/usqlrepl/config.toml");
    let c = Config::with_home("/home/u");
    assert_eq!(c.logging.folder, "/home/u/.local/share/usqlrepl/logs");
    assert_eq!(c.logging.level, LoggingLevel::Info);
    assert_eq!(
        c.logging.describe(),
        "Logging(level=info, folder=\"/home/u/.local/share/usqlrepl/logs\", stdout=true)"
    );
    assert_eq!(c.logging.get_folder(), Some(std::path::PathBuf::from("/home/u/.local/share/usqlrepl/logs")));
    let l = Logging { level: LoggingLevel::Trace, folder: "x".to_string(), stdout: false };
    assert_eq!(l.level.name(), "trace");
}

#[test]
fn level_names_in_any_case() {
    assert_eq!(LoggingLevel::from_name("INFO"), Some(LoggingLevel::Info));
    assert_eq!(LoggingLevel::from_name("Warn"), Some(LoggingLevel::Warn));
    assert_eq!(LoggingLevel::from_name("loud"), None);
}
