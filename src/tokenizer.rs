//! Lexical stage: cutting source text into lexemes, and classifying each
//! lexeme as a token, from the lexeme catalog's record where there is one and
//! by its first character where there is none.
use vstd::prelude::*;
use crate::number::is_digit;
use crate::std_ids;
use crate::text::{chars_of, is_letter, is_whitespace, letter, push_char, push_str, white_space};

verus! {

#[derive(Debug)]
pub struct Token {
    /// The text as written (a string literal with its quotes).
    pub value: String,
    /// The category label.
    pub token_type: String,
    /// The standard id that the grammar switches on.
    pub std_token_id: u32,
    /// The canonical lexeme.
    pub lexem: String,
}

/// What the lexeme catalog holds of one spelling: the standard entry that it
/// resolves to.
#[derive(Debug)]
pub struct CatalogRecord {
    pub std_id: u32,
    pub canonical_name: String,
    pub category: String,
}

#[derive(Clone, Copy, Debug, PartialEq, Eq, Structural)]
pub enum LexemeKind {
    /// A run of ordinary characters, or one separator: looked up in the catalog.
    Word,
    /// A string literal closed by the quote character it opened with.
    Quoted(char),
    /// A string literal that the end of the input cut off.
    Unterminated,
}

/// A lexeme cut from source text. For a string literal, `text` holds what
/// stands between the quotes.
#[derive(Debug)]
pub struct Lexeme {
    pub kind: LexemeKind,
    pub text: String,
}

impl View for Lexeme {
    type V = (LexemeKind, Seq<char>);

    open spec fn view(&self) -> (LexemeKind, Seq<char>) {
        (self.kind, self.text@)
    }
}

pub open spec fn spec_is_separator(c: char) -> bool {
    c == '.' || c == '(' || c == ')' || c == '{' || c == '}' || c == '[' || c == ']' || c == ','
        || c == ';' || c == ':' || c == '+' || c == '-' || c == '*' || c == '/' || c == '=' || c == '<'
        || c == '>' || c == '!' || c == '\'' || c == '"'
}

/// Whether `c` ends a word and stands alone as a lexeme of its own.
pub fn is_separator(c: char) -> (r: bool)
    ensures
        r == spec_is_separator(c),
{
    c == '.' || c == '(' || c == ')' || c == '{' || c == '}' || c == '[' || c == ']' || c == ','
        || c == ';' || c == ':' || c == '+' || c == '-' || c == '*' || c == '/' || c == '=' || c == '<'
        || c == '>' || c == '!' || c == '\'' || c == '"'
}

/// First index at or after `i` that holds `c`, or the length.
pub open spec fn find_from(s: Seq<char>, i: int, c: char) -> int
    decreases s.len() - i,
{
    if i >= s.len() {
        s.len() as int
    } else if s[i] == c {
        i
    } else {
        find_from(s, i + 1, c)
    }
}

/// End of the word that starts at `i`: the first index at or after `i` that
/// holds a separator or white space, or the length.
pub open spec fn word_end(s: Seq<char>, i: int) -> int
    decreases s.len() - i,
{
    if i >= s.len() {
        s.len() as int
    } else if spec_is_separator(s[i]) || white_space(s[i]) {
        i
    } else {
        word_end(s, i + 1)
    }
}

/// The lexemes of `s` from index `i` on.
pub open spec fn scan_from(s: Seq<char>, i: int) -> Seq<(LexemeKind, Seq<char>)>
    decreases s.len() - i,
    via scan_from_decreases
{
    if i < 0 || i >= s.len() {
        seq![]
    } else {
        let c = s[i];
        if white_space(c) {
            scan_from(s, i + 1)
        } else if c == '/' && i + 1 < s.len() && s[i + 1] == '/' {
            scan_from(s, find_from(s, i, '\n'))
        } else if c == '\'' || c == '"' {
            let j = find_from(s, i + 1, c);
            if j < s.len() {
                seq![(LexemeKind::Quoted(c), s.subrange(i + 1, j))] + scan_from(s, j + 1)
            } else {
                seq![(LexemeKind::Unterminated, s.subrange(i + 1, s.len() as int))]
            }
        } else if !spec_is_separator(c) {
            let j = word_end(s, i);
            seq![(LexemeKind::Word, s.subrange(i, j))] + scan_from(s, j)
        } else {
            seq![(LexemeKind::Word, seq![c])] + scan_from(s, i + 1)
        }
    }
}

#[via_fn]
proof fn scan_from_decreases(s: Seq<char>, i: int) {
    if 0 <= i < s.len() {
        lemma_find_from(s, i, '\n');
        lemma_find_from(s, i + 1, s[i]);
        lemma_find_from(s, i + 1, '\n');
        lemma_word_end(s, i + 1);
    }
}

proof fn lemma_find_from(s: Seq<char>, i: int, c: char)
    requires
        0 <= i <= s.len(),
    ensures
        i <= find_from(s, i, c) <= s.len(),
        find_from(s, i, c) < s.len() ==> s[find_from(s, i, c)] == c,
    decreases s.len() - i,
{
    if i < s.len() && s[i] != c {
        lemma_find_from(s, i + 1, c);
    }
}

proof fn lemma_word_end(s: Seq<char>, i: int)
    requires
        0 <= i <= s.len(),
    ensures
        i <= word_end(s, i) <= s.len(),
    decreases s.len() - i,
{
    if i < s.len() && !(spec_is_separator(s[i]) || white_space(s[i])) {
        lemma_word_end(s, i + 1);
    }
}

/// A word holds neither a separator nor white space: every separator that
/// is not part of a comment or a string literal stands as a lexeme by itself.
pub proof fn lemma_word_has_no_separator(s: Seq<char>, i: int, k: int)
    requires
        0 <= i <= k < word_end(s, i),
    ensures
        !spec_is_separator(s[k]),
        !white_space(s[k]),
    decreases s.len() - i,
{
    if i < k {
        lemma_word_has_no_separator(s, i + 1, k);
    }
}

/// Index of the first `c` at or after `i` in `cs`, or its length.
fn find_char(cs: &Vec<char>, i: usize, c: char) -> (r: usize)
    requires
        i <= cs@.len(),
    ensures
        r == find_from(cs@, i as int, c),
{
    let mut j = i;
    while j < cs.len() && cs[j] != c
        invariant
            i <= j <= cs@.len(),
            find_from(cs@, i as int, c) == find_from(cs@, j as int, c),
        decreases cs@.len() - j,
    {
        j = j + 1;
    }
    j
}

/// Cuts source text into lexemes: white space is skipped, `//` starts a
/// comment that runs to the end of the line, a quote starts a string literal
/// that runs to the same quote, a separator stands alone, and any other run of
/// characters up to a separator or white space is one word.
pub fn scan(source: &str) -> (r: Vec<Lexeme>)
    ensures
        r@.map_values(|l: Lexeme| l@) == scan_from(source@, 0),
{
    let cs = chars_of(source);
    let len = cs.len();
    let mut out: Vec<Lexeme> = Vec::new();
    let mut i: usize = 0;
    while i < len
        invariant
            len == cs@.len(),
            cs@ == source@,
            i <= len,
            scan_from(cs@, 0) == out@.map_values(|l: Lexeme| l@) + scan_from(cs@, i as int),
        decreases len - i,
    {
        let ghost before = out@.map_values(|l: Lexeme| l@);
        let c = cs[i];
        if is_whitespace(c) {
            i = i + 1;
        } else if c == '/' && i + 1 < len && cs[i + 1] == '/' {
            let j = find_char(&cs, i, '\n');
            proof { lemma_find_from(cs@, i + 1, '\n'); }
            i = j;
        } else if c == '\'' || c == '"' {
            let j = find_char(&cs, i + 1, c);
            proof { lemma_find_from(cs@, i + 1, c); }
            let mut t = String::new();
            let mut k = i + 1;
            while k < j
                invariant
                    i + 1 <= k <= j <= len,
                    len == cs@.len(),
                    t@ == cs@.subrange(i + 1, k as int),
                decreases j - k,
            {
                push_char(&mut t, cs[k]);
                assert(t@ =~= cs@.subrange(i + 1, k + 1));
                k = k + 1;
            }
            if j < len {
                out.push(Lexeme { kind: LexemeKind::Quoted(c), text: t });
                assert(out@.map_values(|l: Lexeme| l@) =~= before + seq![(LexemeKind::Quoted(c), cs@.subrange(i + 1, j as int))]);
                i = j + 1;
            } else {
                out.push(Lexeme { kind: LexemeKind::Unterminated, text: t });
                assert(out@.map_values(|l: Lexeme| l@) =~= before + seq![(LexemeKind::Unterminated, cs@.subrange(i + 1, len as int))]);
                assert(scan_from(cs@, len as int) =~= Seq::<(LexemeKind, Seq<char>)>::empty());
                i = len;
            }
        } else if !is_separator(c) {
            let mut t = String::new();
            let mut k = i;
            while k < len && !is_separator(cs[k]) && !is_whitespace(cs[k])
                invariant
                    i <= k <= len,
                    len == cs@.len(),
                    word_end(cs@, i as int) == word_end(cs@, k as int),
                    t@ == cs@.subrange(i as int, k as int),
                decreases len - k,
            {
                push_char(&mut t, cs[k]);
                assert(t@ =~= cs@.subrange(i as int, k + 1));
                k = k + 1;
            }
            proof { lemma_word_end(cs@, i + 1); }
            out.push(Lexeme { kind: LexemeKind::Word, text: t });
            assert(out@.map_values(|l: Lexeme| l@) =~= before + seq![(LexemeKind::Word, cs@.subrange(i as int, k as int))]);
            i = k;
        } else {
            let mut t = String::new();
            push_char(&mut t, c);
            out.push(Lexeme { kind: LexemeKind::Word, text: t });
            assert(out@.map_values(|l: Lexeme| l@) =~= before + seq![(LexemeKind::Word, seq![c])]);
            assert(t@ =~= seq![c]);
            i = i + 1;
        }
    }
    out
}

/// Category label and id of a lexeme that the catalog does not know: a run
/// that starts with a digit is a number literal (a float where it holds a
/// point), one that starts with a letter or `_` is an identifier, anything
/// else an unknown symbol.
pub open spec fn guess(lexeme: Seq<char>) -> (Seq<char>, u32) {
    if lexeme.len() > 0 && is_digit(lexeme[0]) {
        if lexeme.contains('.') {
            (LITERAL_LABEL@, std_ids::FLOAT_LITERAL)
        } else {
            (LITERAL_LABEL@, std_ids::INT_LITERAL)
        }
    } else if lexeme.len() > 0 && (letter(lexeme[0]) || lexeme[0] == '_') {
        (IDENTIFIER_LABEL@, std_ids::IDENTIFIER)
    } else {
        (UNKNOWN_LABEL@, std_ids::UNKNOWN_SYMBOL)
    }
}

pub const LITERAL_LABEL: &'static str = "Literal";
pub const IDENTIFIER_LABEL: &'static str = "Identifier";
pub const UNKNOWN_LABEL: &'static str = "Unknown";
pub const ERROR_LABEL: &'static str = "Error";

/// Heuristic classification of a lexeme (see `guess`).
pub fn guess_type_and_id(lexeme: &str) -> (r: (String, u32))
    ensures
        (r.0@, r.1) == guess(lexeme@),
{
    let cs = chars_of(lexeme);
    let mut found_point = false;
    let mut i: usize = 0;
    while i < cs.len()
        invariant
            i <= cs@.len(),
            found_point == cs@.take(i as int).contains('.'),
        decreases cs@.len() - i,
    {
        if cs[i] == '.' {
            found_point = true;
        }
        proof {
            let t = cs@.take(i + 1);
            let u = cs@.take(i as int);
            assert(t =~= u.push(cs[i as int]));
            if cs[i as int] == '.' {
                assert(t[i as int] == '.');
            } else if t.contains('.') {
                let k = choose|k: int| 0 <= k < t.len() && t[k] == '.';
                assert(u[k] == '.');
            }
            if u.contains('.') {
                let k = choose|k: int| 0 <= k < u.len() && u[k] == '.';
                assert(t[k] == '.');
            }
        }
        i = i + 1;
    }
    assert(cs@.take(cs@.len() as int) =~= cs@);
    if cs.len() > 0 && '0' <= cs[0] && cs[0] <= '9' {
        if found_point {
            (LITERAL_LABEL.to_owned(), std_ids::FLOAT_LITERAL)
        } else {
            (LITERAL_LABEL.to_owned(), std_ids::INT_LITERAL)
        }
    } else if cs.len() > 0 && (is_letter(cs[0]) || cs[0] == '_') {
        (IDENTIFIER_LABEL.to_owned(), std_ids::IDENTIFIER)
    } else {
        (UNKNOWN_LABEL.to_owned(), std_ids::UNKNOWN_SYMBOL)
    }
}

impl Token {
    /// The token of a word: from the catalog's record where there is one,
    /// else by `guess`.
    pub fn from_word(word: &str, record: Option<&CatalogRecord>) -> (r: Token)
        ensures
            r.value@ == word@,
            record matches Some(rec) ==> r.token_type@ == rec.category@ && r.std_token_id == rec.std_id
                && r.lexem@ == rec.canonical_name@,
            record is None ==> (r.token_type@, r.std_token_id) == guess(word@) && r.lexem@ == word@,
    {
        match record {
            Some(rec) => Token {
                value: word.to_owned(),
                token_type: rec.category.clone(),
                std_token_id: rec.std_id,
                lexem: rec.canonical_name.clone(),
            },
            None => {
                let (token_type, id) = guess_type_and_id(word);
                Token { value: word.to_owned(), token_type, std_token_id: id, lexem: word.to_owned() }
            },
        }
    }

    /// The token of a lexeme. A word takes the catalog's record, if any; a
    /// string literal is one whatever the catalog holds; an unterminated
    /// string is an error token.
    pub fn from_lexeme(lexeme: &Lexeme, record: Option<&CatalogRecord>) -> (r: Token)
        ensures
            lexeme.kind == LexemeKind::Word ==> r.value@ == lexeme.text@ && (match record {
                Some(rec) => r.token_type@ == rec.category@ && r.std_token_id == rec.std_id
                    && r.lexem@ == rec.canonical_name@,
                None => (r.token_type@, r.std_token_id) == guess(lexeme.text@) && r.lexem@ == lexeme.text@,
            }),
            lexeme.kind matches LexemeKind::Quoted(q) ==> r.value@ == seq![q] + lexeme.text@ + seq![q]
                && r.token_type@ == LITERAL_LABEL@ && r.std_token_id == std_ids::STRING_LITERAL
                && r.lexem@ == lexeme.text@,
            lexeme.kind == LexemeKind::Unterminated ==> r.value@ == lexeme.text@
                && r.token_type@ == ERROR_LABEL@ && r.std_token_id == std_ids::ERROR
                && r.lexem@ == lexeme.text@,
    {
        match lexeme.kind {
            LexemeKind::Word => Token::from_word(lexeme.text.as_str(), record),
            LexemeKind::Quoted(q) => {
                let mut value = String::new();
                push_char(&mut value, q);
                push_str(&mut value, lexeme.text.as_str());
                push_char(&mut value, q);
                assert(value@ =~= seq![q] + lexeme.text@ + seq![q]);
                Token {
                    value,
                    token_type: LITERAL_LABEL.to_owned(),
                    std_token_id: std_ids::STRING_LITERAL,
                    lexem: lexeme.text.clone(),
                }
            },
            LexemeKind::Unterminated => Token {
                value: lexeme.text.clone(),
                token_type: ERROR_LABEL.to_owned(),
                std_token_id: std_ids::ERROR,
                lexem: lexeme.text.clone(),
            },
        }
    }
}

} // verus!
