use usqlrepl::ast::{DataType, Expr, Stmt};
use usqlrepl::number::Num;
use usqlrepl::parser::{AstParser, ParseError};
use usqlrepl::std_ids;
use usqlrepl::tokenizer::Token;

fn t(value: &str, id: u32) -> Token {
    Token {
        value: value.to_string(),
        token_type: "TestType".to_string(),
        std_token_id: id,
        lexem: value.to_string(),
    }
}

const ID_VAR: u32 = std_ids::LET;
const ID_FUNC: u32 = std_ids::FUNCTION;
const ID_STRUCT: u32 = std_ids::STRUCT;
const ID_NAME: u32 = std_ids::IDENTIFIER;
const ID_INT: u32 = std_ids::INT_TYPE;
const ID_EQ: u32 = std_ids::ASSIGN;
const ID_L_BRACE: u32 = std_ids::L_BRACE;
const ID_R_BRACE: u32 = std_ids::R_BRACE;
const ID_L_PAREN: u32 = std_ids::L_PAREN;
const ID_R_PAREN: u32 = std_ids::R_PAREN;
const ID_COLON: u32 = std_ids::COLON;
const ID_NUM: u32 = std_ids::INT_LITERAL;

#[test]
fn test_var_declaration() {
    let tokens = vec![t("let", ID_VAR), t("x", ID_NAME), t("=", ID_EQ), t("10", ID_NUM)];

    let mut parser = AstParser::new(tokens);
    let result = parser.parse().unwrap();

    assert_eq!(result.len(), 1);

    if let Stmt::VariableDeclaration { name, value } = &result[0] {
        assert_eq!(name, "x");
        if let Expr::Number(val) = value {
            assert_eq!(*val, Num::integer(10));
        } else {
            panic!("Expected Number value");
        }
    } else {
        panic!("Expected VariableDeclaration");
    }
}

#[test]
fn test_struct_declaration() {
    let tokens = vec![
        t("struct", ID_STRUCT),
        t("User", ID_NAME),
        t("{", ID_L_BRACE),
        t("id", ID_NAME),
        t(":", ID_COLON),
        t("int", ID_INT),
        t("}", ID_R_BRACE),
    ];

    let mut parser = AstParser::new(tokens);
    let result = parser.parse().unwrap();

    assert_eq!(result.len(), 1);

    if let Stmt::StructDeclaration { name, fields } = &result[0] {
        assert_eq!(name, "User");
        assert_eq!(fields.len(), 1);
        assert_eq!(fields[0].0, "id");
        assert_eq!(fields[0].1, DataType::Int);
    } else {
        panic!("Expected StructDeclaration");
    }
}

#[test]
fn test_function_declaration() {
    let tokens = vec![
        t("fn", ID_FUNC),
        t("main", ID_NAME),
        t("(", ID_L_PAREN),
        t("float", std_ids::FLOAT_TYPE),
        t("arg", ID_NAME),
        t(")", ID_R_PAREN),
        t("{", ID_L_BRACE),
        t("}", ID_R_BRACE),
    ];

    let mut parser = AstParser::new(tokens);
    let result = parser.parse().unwrap();

    if let Stmt::FunctionDeclaration { name, params, body } = &result[0] {
        assert_eq!(name, "main");
        assert_eq!(params.len(), 1);
        assert_eq!(params[0].0, "arg");
        assert_eq!(params[0].1, DataType::Float);
        assert!(body.is_empty());
    } else {
        panic!("Expected FunctionDeclaration");
    }
}

#[test]
fn test_complex_integration() {
    let tokens = vec![
        t("структура", ID_STRUCT),
        t("Test", ID_NAME),
        t("{", ID_L_BRACE),
        t("user_id", ID_NAME),
        t(":", ID_COLON),
        t("ціле", ID_INT),
        t("}", ID_R_BRACE),
        t("функція", ID_FUNC),
        t("Func", ID_NAME),
        t("(", ID_L_PAREN),
        t("Test", ID_NAME),
        t("Дані", ID_NAME),
        t(")", ID_R_PAREN),
        t("{", ID_L_BRACE),
        t("змінна", ID_VAR),
        t("myVariable", ID_NAME),
        t("=", ID_EQ),
        t("Дані", ID_NAME),
        t("}", ID_R_BRACE),
    ];

    let mut parser = AstParser::new(tokens);
    let statements = parser.parse().unwrap();

    assert_eq!(statements.len(), 2);

    match &statements[0] {
        Stmt::StructDeclaration { name, fields } => {
            assert_eq!(name, "Test");
            assert_eq!(fields[0].0, "user_id");
            assert_eq!(fields[0].1, DataType::Int);
        }
        _ => panic!("Перший Statement має бути структурою"),
    }

    match &statements[1] {
        Stmt::FunctionDeclaration { name, params, body } => {
            assert_eq!(name, "Func");

            assert_eq!(params.len(), 1);
            assert_eq!(params[0].0, "Дані");
            match &params[0].1 {
                DataType::Custom(custom) => assert_eq!(custom, "Test"),
                _ => panic!("Параметр має бути Custom типу"),
            }

            assert_eq!(body.len(), 1);
            match &body[0] {
                Stmt::VariableDeclaration { name, value } => {
                    assert_eq!(name, "myVariable");
                    match value {
                        Expr::Identifier(val_name) => assert_eq!(val_name, "Дані"),
                        _ => panic!("Значення змінної має бути ідентифікатором"),
                    }
                }
                _ => panic!("Тіло функції має містити оголошення змінної"),
            }
        }
        _ => panic!("Другий Statement має бути функцією"),
    }
}

#[test]
fn var_without_initializer_is_zero() {
    let mut parser = AstParser::new(vec![t("let", ID_VAR), t("x", ID_NAME)]);
    let result = parser.parse().unwrap();
    match &result[0] {
        Stmt::VariableDeclaration { value: Expr::Number(n), .. } => assert_eq!(*n, Num::integer(0)),
        _ => panic!("expected a declaration"),
    }
}

#[test]
fn missing_token_reports_expected_and_found() {
    let mut parser = AstParser::new(vec![t("let", ID_VAR), t("5", ID_NUM)]);
    match parser.parse() {
        Err(ParseError::Expected { expected, found, lexeme }) => {
            assert_eq!(expected, std_ids::IDENTIFIER);
            assert_eq!(found, std_ids::INT_LITERAL);
            assert_eq!(lexeme, "5");
        }
        other => panic!("unexpected result {:?}", other),
    }
}

#[test]
fn unclosed_block_reports_end_of_input() {
    let mut parser = AstParser::new(vec![t("fn", ID_FUNC), t("f", ID_NAME), t("(", ID_L_PAREN), t(")", ID_R_PAREN), t("{", ID_L_BRACE)]);
    assert!(matches!(parser.parse(), Err(ParseError::EndOfInput)));
}

#[test]
fn token_no_production_starts_with() {
    let mut parser = AstParser::new(vec![t("}", ID_R_BRACE)]);
    match parser.parse() {
        Err(ParseError::Unexpected { found, lexeme }) => {
            assert_eq!(found, std_ids::R_BRACE);
            assert_eq!(lexeme, "}");
        }
        other => panic!("unexpected result {:?}", other),
    }
}

#[test]
fn multiplication_binds_tighter_than_addition() {
    let tokens = vec![
        t("2", ID_NUM),
        t("+", std_ids::PLUS),
        t("3", ID_NUM),
        t("*", std_ids::MULTIPLY),
        t("4", ID_NUM),
    ];
    let mut parser = AstParser::new(tokens);
    let result = parser.parse().unwrap();
    match &result[0] {
        Stmt::Expression(Expr::BinaryOp { left, op, right }) => {
            assert_eq!(*op, usqlrepl::ast::BinOp::Add);
            assert_eq!(**left, Expr::Number(Num::integer(2)));
            match &**right {
                Expr::BinaryOp { op, .. } => assert_eq!(*op, usqlrepl::ast::BinOp::Mul),
                _ => panic!("expected a product on the right"),
            }
        }
        _ => panic!("expected a sum"),
    }
}

#[test]
fn float_literal_is_exact() {
    let mut parser = AstParser::new(vec![t("3.14", std_ids::FLOAT_LITERAL)]);
    let result = parser.parse().unwrap();
    match &result[0] {
        Stmt::Expression(Expr::Number(n)) => assert_eq!(*n, Num { num: 314, den: 100 }),
        _ => panic!("expected a number"),
    }
}

#[test]
fn unreadable_number_is_an_error() {
    let mut parser = AstParser::new(vec![t("12345678901234567890", ID_NUM)]);
    match parser.parse() {
        Err(ParseError::InvalidNumber { lexeme }) => assert_eq!(lexeme, "12345678901234567890"),
        other => panic!("unexpected result {:?}", other),
    }
}
