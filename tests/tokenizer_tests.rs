use usqlrepl::std_ids;
use usqlrepl::tokenizer::{guess_type_and_id, is_separator, scan, CatalogRecord, LexemeKind, Token};

#[test]
fn scan_cuts_words_separators_strings_and_comments() {
    let lex = scan("let x=\"a b\" // note\nprint(x)");
    let got: Vec<(LexemeKind, String)> = lex.into_iter().map(|l| (l.kind, l.text)).collect();
    assert_eq!(
        got,
        vec![
            (LexemeKind::Word, "let".to_string()),
            (LexemeKind::Word, "x".to_string()),
            (LexemeKind::Word, "=".to_string()),
            (LexemeKind::Quoted('"'), "a b".to_string()),
            (LexemeKind::Word, "print".to_string()),
            (LexemeKind::Word, "(".to_string()),
            (LexemeKind::Word, "x".to_string()),
            (LexemeKind::Word, ")".to_string()),
        ]
    );
}

#[test]
fn scan_slash_alone_is_a_word() {
    let lex = scan("6 / 3");
    assert_eq!(lex.len(), 3);
    assert_eq!(lex[1].text, "/");
}

#[test]
fn unterminated_string_is_an_error_token() {
    let lex = scan("'abc");
    assert_eq!(lex.len(), 1);
    assert_eq!(lex[0].kind, LexemeKind::Unterminated);
    let t = Token::from_lexeme(&lex[0], None);
    assert_eq!(t.std_token_id, std_ids::ERROR);
    assert_eq!(t.token_type, "Error");
    assert_eq!(t.value, "abc");
}

#[test]
fn string_token_keeps_its_quotes() {
    let lex = scan("'hi there'");
    let t = Token::from_lexeme(&lex[0], None);
    assert_eq!(t.value, "'hi there'");
    assert_eq!(t.lexem, "hi there");
    assert_eq!(t.std_token_id, std_ids::STRING_LITERAL);
}

#[test]
fn catalog_record_decides_the_token() {
    let rec = CatalogRecord { std_id: std_ids::LET, canonical_name: "let".to_string(), category: "Keyword".to_string() };
    let t = Token::from_word("змінна", Some(&rec));
    assert_eq!(t.std_token_id, std_ids::LET);
    assert_eq!(t.lexem, "let");
    assert_eq!(t.value, "змінна");
    assert_eq!(t.token_type, "Keyword");
}

#[test]
fn unknown_lexemes_by_first_character() {
    assert_eq!(guess_type_and_id("123"), ("Literal".to_string(), std_ids::INT_LITERAL));
    assert_eq!(guess_type_and_id("1.5"), ("Literal".to_string(), std_ids::FLOAT_LITERAL));
    assert_eq!(guess_type_and_id("abc"), ("Identifier".to_string(), std_ids::IDENTIFIER));
    assert_eq!(guess_type_and_id("Дані"), ("Identifier".to_string(), std_ids::IDENTIFIER));
    assert_eq!(guess_type_and_id("_x"), ("Identifier".to_string(), std_ids::IDENTIFIER));
    assert_eq!(guess_type_and_id("$"), ("Unknown".to_string(), std_ids::UNKNOWN_SYMBOL));
    let t = Token::from_word("42", None);
    assert_eq!(t.std_token_id, std_ids::INT_LITERAL);
    assert_eq!(t.lexem, "42");
}

#[test]
fn separators() {
    assert!(is_separator('('));
    assert!(is_separator('"'));
    assert!(is_separator('/'));
    assert!(is_separator('<'));
    assert!(is_separator('>'));
    assert!(is_separator('!'));
    assert!(!is_separator('a'));
}

#[test]
fn unicode_whitespace_separates_words() {
    let lex = scan("a\u{2003}b");
    assert_eq!(lex.len(), 2);
}

#[test]
fn operators_stand_alone_inside_words() {
    let texts: Vec<String> = scan("a/b 10/2 x<y!").into_iter().map(|l| l.text).collect();
    assert_eq!(texts, vec!["a", "/", "b", "10", "/", "2", "x", "<", "y", "!"]);
}

#[test]
fn comment_still_starts_with_two_slashes() {
    let texts: Vec<String> = scan("a // b / c\nd").into_iter().map(|l| l.text).collect();
    assert_eq!(texts, vec!["a", "d"]);
}
