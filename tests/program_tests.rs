use usqlrepl::interpreter::{Interpreter, RuntimeValue, FUEL};
use usqlrepl::number::Num;
use usqlrepl::parser::AstParser;
use usqlrepl::semantics::Diagnostic;
use usqlrepl::std_ids;
use usqlrepl::tokenizer::{scan, CatalogRecord, LexemeKind, Token};

fn record(id: u32, name: &str, category: &str) -> Option<CatalogRecord> {
    Some(CatalogRecord { std_id: id, canonical_name: name.to_string(), category: category.to_string() })
}

/// A small catalog with one spelling per standard lexeme.
fn lookup(word: &str) -> Option<CatalogRecord> {
    match word {
        "let" => record(std_ids::LET, "let", "Keyword"),
        "fn" => record(std_ids::FUNCTION, "function", "Keyword"),
        "struct" => record(std_ids::STRUCT, "struct", "Keyword"),
        "if" => record(std_ids::IF, "if", "Keyword"),
        "else" => record(std_ids::ELSE, "else", "Keyword"),
        "while" => record(std_ids::WHILE, "while", "Keyword"),
        "return" => record(std_ids::RETURN, "return", "Keyword"),
        "int" => record(std_ids::INT_TYPE, "int", "Type"),
        "print" => record(std_ids::PRINT, "print", "Native"),
        "input" => record(std_ids::INPUT, "input", "Native"),
        "len" => record(std_ids::LEN, "len", "Native"),
        "(" => record(std_ids::L_PAREN, "(", "Delimiter"),
        ")" => record(std_ids::R_PAREN, ")", "Delimiter"),
        "{" => record(std_ids::L_BRACE, "{", "Delimiter"),
        "}" => record(std_ids::R_BRACE, "}", "Delimiter"),
        "," => record(std_ids::COMMA, ",", "Delimiter"),
        ":" => record(std_ids::COLON, ":", "Delimiter"),
        "." => record(std_ids::DOT, ".", "Delimiter"),
        "=" => record(std_ids::ASSIGN, "=", "Operator"),
        "+" => record(std_ids::PLUS, "+", "Operator"),
        "-" => record(std_ids::MINUS, "-", "Operator"),
        "*" => record(std_ids::MULTIPLY, "*", "Operator"),
        "/" => record(std_ids::DIVIDE, "/", "Operator"),
        "<" => record(std_ids::LESS, "<", "Operator"),
        _ => None,
    }
}

fn tokens(src: &str) -> Vec<Token> {
    scan(src)
        .iter()
        .map(|l| {
            let rec = if l.kind == LexemeKind::Word { lookup(&l.text) } else { None };
            Token::from_lexeme(l, rec.as_ref())
        })
        .collect()
}

fn run_with_input(src: &str, input: Vec<String>) -> (String, Vec<Diagnostic>) {
    let stmts = AstParser::new(tokens(src)).parse().unwrap();
    let mut interp = Interpreter::with_input(input);
    assert!(interp.interpret(&stmts));
    (interp.output.clone(), interp.diagnostics.clone())
}

fn run(src: &str) -> (String, Vec<Diagnostic>) {
    run_with_input(src, vec![])
}

#[test]
fn precedence_two_plus_three_times_four() {
    let stmts = AstParser::new(tokens("2 + 3 * 4")).parse().unwrap();
    let mut interp = Interpreter::new();
    let e = match &stmts[0] {
        usqlrepl::ast::Stmt::Expression(e) => e,
        _ => panic!("expected an expression"),
    };
    match interp.evaluate(e, FUEL) {
        Some(RuntimeValue::Number(n)) => assert_eq!(n, Num::integer(14)),
        _ => panic!("expected a number"),
    }
    assert_eq!(run("print(2 + 3 * 4)").0, "14\n");
}

#[test]
fn struct_round_trip() {
    let (out, diags) = run("struct S { a: int } let s = S(1) print(s.a)");
    assert_eq!(out, "1\n");
    assert!(diags.is_empty());
}

#[test]
fn undefined_function_gives_null_and_goes_on() {
    let (out, diags) = run("print(foo(1)) print(5)");
    assert_eq!(out, "null\n5\n");
    assert_eq!(diags, vec![Diagnostic::UndefinedFunction]);
}

#[test]
fn while_with_false_condition_runs_no_round() {
    let (out, _) = run("let x = 0 while x { print(1) } print(2)");
    assert_eq!(out, "2\n");
}

#[test]
fn return_inside_while_ends_the_function() {
    let (out, _) = run("fn f() { while 1 { return 7 } print(99) } print(f())");
    assert_eq!(out, "7\n");
}

#[test]
fn print_struct_instance() {
    let (out, _) = run("struct Foo { } let f = Foo() print(f)");
    assert_eq!(out, "[Instance of Foo]\n");
}

#[test]
fn len_of_string_and_of_number() {
    let (out, diags) = run("print(len('hello'))");
    assert_eq!(out, "5\n");
    assert!(diags.is_empty());
    let (out, diags) = run("print(len(3))");
    assert_eq!(out, "0\n");
    assert_eq!(diags, vec![Diagnostic::LenNotString]);
}

#[test]
fn len_counts_characters_not_bytes() {
    assert_eq!(run("print(len('ціле'))").0, "4\n");
}

#[test]
fn parameter_scope_does_not_leak() {
    let stmts = AstParser::new(tokens("fn g(int y) { let z = 1 } g(2)")).parse().unwrap();
    let mut interp = Interpreter::new();
    assert!(interp.interpret(&stmts));
    assert!(interp.env.get(&"y".to_string()).is_none());
    assert!(interp.env.get(&"z".to_string()).is_none());
    assert!(interp.env.get(&"g".to_string()).is_some());
    let (out, diags) = run("fn g(int y) { let z = 1 } g(2) print(y)");
    assert_eq!(out, "null\n");
    assert_eq!(diags, vec![Diagnostic::UndefinedVariable]);
}

#[test]
fn arity_mismatch_gives_null() {
    let (out, diags) = run("fn g(int y) { return y } print(g())");
    assert_eq!(out, "null\n");
    assert_eq!(diags, vec![Diagnostic::ArityMismatch]);
    let (out, diags) = run("struct P { a: int } print(P(1, 2))");
    assert_eq!(out, "null\n");
    assert_eq!(diags, vec![Diagnostic::ConstructorArity]);
}

#[test]
fn member_access_errors() {
    let (out, diags) = run("struct P { a: int } let p = P(1) print(p.b) let n = 3 print(n.a)");
    assert_eq!(out, "null\nnull\n");
    assert_eq!(diags, vec![Diagnostic::FieldNotFound, Diagnostic::NotAStruct]);
}

#[test]
fn arithmetic_and_strings() {
    assert_eq!(run("print(7 / 2, 1 - 3, 1 / 3)").0, "3.5 -2 0.3333333333333333\n");
    assert_eq!(run("print('ab' + 'cd')").0, "abcd\n");
    let (out, diags) = run("print('a' - 'b', 1 + 'b')");
    assert_eq!(out, "null null\n");
    assert_eq!(diags, vec![Diagnostic::InvalidOperands, Diagnostic::InvalidOperands]);
    let (out, diags) = run("print(1 / 0)");
    assert_eq!(out, "null\n");
    assert_eq!(diags, vec![Diagnostic::NumericError]);
}

#[test]
fn comparisons_and_if() {
    assert_eq!(run("if 1 < 2 { print('yes') } else { print('no') }").0, "yes\n");
    assert_eq!(run("if 2 < 1 { print('yes') } else { print('no') }").0, "no\n");
}

#[test]
fn print_of_every_kind() {
    let (out, _) = run("fn h() { } print(h, h(), undefined_name)");
    assert_eq!(out, "[Function h] void null\n");
}

#[test]
fn input_writes_prompt_and_reads_a_line() {
    let (out, _) = run_with_input("let n = input('name? ') print(n) print(input())", vec!["Bob".to_string()]);
    assert_eq!(out, "name? Bob\n\n");
}

#[test]
fn block_scope_ends_with_block() {
    let (out, diags) = run("if 1 { let inner = 1 } print(inner)");
    assert_eq!(out, "null\n");
    assert_eq!(diags, vec![Diagnostic::UndefinedVariable]);
}

#[test]
fn top_level_return_is_dropped() {
    assert_eq!(run("return 1 print(2)").0, "2\n");
}

#[test]
fn recursion_through_the_caller_scope() {
    let (out, _) = run("fn down(int n) { if n { print(n) down(n - 1) } } down(3)");
    assert_eq!(out, "3\n2\n1\n");
}

#[test]
fn fuel_runs_out_on_endless_loop() {
    let stmts = AstParser::new(tokens("while 1 { }")).parse().unwrap();
    let mut interp = Interpreter::new();
    let s = &stmts[0];
    assert!(interp.execute(s, 50).is_none());
}

#[test]
fn len_with_wrong_arity_is_zero() {
    let (out, diags) = run("print(len())");
    assert_eq!(out, "0\n");
    assert_eq!(diags, vec![Diagnostic::LenArity]);
}

#[test]
fn empty_program_does_nothing() {
    let (out, diags) = run("");
    assert_eq!(out, "");
    assert!(diags.is_empty());
}

#[test]
fn later_binding_shadows_earlier() {
    assert_eq!(run("let x = 1 let x = 2 print(x)").0, "2\n");
}

#[test]
fn redeclared_struct_takes_last_fields() {
    let (out, diags) = run("struct P { a: int } struct P { a: int, b: int } let p = P(1, 2) print(p.b)");
    assert_eq!(out, "2\n");
    assert!(diags.is_empty());
}

#[test]
fn function_sees_caller_scope() {
    assert_eq!(run("fn show() { print(v) } let v = 9 show()").0, "9\n");
}

#[test]
fn division_without_spaces() {
    assert_eq!(run("let x = 10 print(10/2, x/4)").0, "5 2.5\n");
}

#[test]
fn input_past_the_lines_so_far_waits() {
    let stmts = AstParser::new(tokens("print('a') let n = input('? ') print(n)")).parse().unwrap();
    let mut first = Interpreter::with_lines(vec![], false);
    assert!(!first.interpret(&stmts));
    assert!(first.awaiting_input);
    assert_eq!(first.output, "a\n? ");
    let mut second = Interpreter::with_lines(vec!["yes".to_string()], false);
    assert!(second.interpret(&stmts));
    assert!(!second.awaiting_input);
    assert_eq!(second.output, "a\n? yes\n");
}

#[test]
fn call_of_undefined_function_directly() {
    let name = "nope".to_string();
    let args: Vec<usqlrepl::ast::Expr> = vec![];
    let mut interp = Interpreter::new();
    let r = interp.call_function(std_ids::IDENTIFIER, &name, &args, FUEL);
    assert!(matches!(r, Some(RuntimeValue::Null)));
    assert_eq!(interp.diagnostics, vec![Diagnostic::UndefinedFunction]);
    assert!(interp.env.values.is_empty());
}
