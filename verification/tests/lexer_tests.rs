use heidic::error::LexicalError;
use heidic::lexer::{Lexer, Token};

fn lex(source: &str) -> Result<Vec<Token>, LexicalError> {
    Lexer::new(source).tokenize()
}

#[test]
fn empty_source_has_no_tokens() {
    assert_eq!(lex(""), Ok(vec![]));
    assert_eq!(lex("  \t\r\n "), Ok(vec![]));
}

#[test]
fn keywords_are_not_identifiers() {
    assert_eq!(
        lex("fn let if else while loop return"),
        Ok(vec![
            Token::Fn,
            Token::Let,
            Token::If,
            Token::Else,
            Token::While,
            Token::Loop,
            Token::Return
        ])
    );
    assert_eq!(
        lex("struct component system mesh_soa component_soa shader include extern type query"),
        Ok(vec![
            Token::Struct,
            Token::Component,
            Token::System,
            Token::MeshSOA,
            Token::ComponentSOA,
            Token::Shader,
            Token::Include,
            Token::Extern,
            Token::Type,
            Token::Query
        ])
    );
}

#[test]
fn a_word_that_continues_a_keyword_is_an_identifier() {
    assert_eq!(lex("fnx"), Ok(vec![Token::Ident("fnx".to_string())]));
    assert_eq!(lex("i32x"), Ok(vec![Token::Ident("i32x".to_string())]));
    assert_eq!(lex("_let"), Ok(vec![Token::Ident("_let".to_string())]));
    assert_eq!(lex("Vec5"), Ok(vec![Token::Ident("Vec5".to_string())]));
}

#[test]
fn type_keywords() {
    assert_eq!(
        lex("i32 i64 f32 f64 bool string void VkDevice GLFWwindow Vec3 Mat4 Camera FrameArena"),
        Ok(vec![
            Token::I32,
            Token::I64,
            Token::F32,
            Token::F64,
            Token::Bool,
            Token::String,
            Token::Void,
            Token::VkDevice,
            Token::GLFWwindow,
            Token::Vec3,
            Token::Mat4,
            Token::Camera,
            Token::FrameArena
        ])
    );
}

#[test]
fn integer_literals() {
    assert_eq!(lex("0"), Ok(vec![Token::Int(0)]));
    assert_eq!(lex("42"), Ok(vec![Token::Int(42)]));
    assert_eq!(lex("007"), Ok(vec![Token::Int(7)]));
    assert_eq!(lex("9223372036854775807"), Ok(vec![Token::Int(i64::MAX)]));
    assert_eq!(lex("-9223372036854775808"), Ok(vec![Token::Int(i64::MIN)]));
}

#[test]
fn an_integer_beyond_64_bits_is_an_error_at_its_start() {
    assert_eq!(lex("9223372036854775808"), Err(LexicalError { position: 0 }));
    assert_eq!(lex("x = 99999999999999999999;"), Err(LexicalError { position: 4 }));
    assert_eq!(lex("-9223372036854775809"), Err(LexicalError { position: 0 }));
}

#[test]
fn a_minus_before_a_digit_belongs_to_the_number() {
    assert_eq!(lex("-5"), Ok(vec![Token::Int(-5)]));
    assert_eq!(
        lex("a-5"),
        Ok(vec![Token::Ident("a".to_string()), Token::Int(-5)])
    );
    assert_eq!(
        lex("a - 5"),
        Ok(vec![Token::Ident("a".to_string()), Token::Minus, Token::Int(5)])
    );
    assert_eq!(
        lex("a-b"),
        Ok(vec![
            Token::Ident("a".to_string()),
            Token::Minus,
            Token::Ident("b".to_string())
        ])
    );
}

#[test]
fn float_literals_keep_their_digits() {
    assert_eq!(lex("0.0"), Ok(vec![Token::Float("0.0".to_string())]));
    assert_eq!(lex("-1.50"), Ok(vec![Token::Float("-1.50".to_string())]));
    assert_eq!(
        lex("3.14 2"),
        Ok(vec![Token::Float("3.14".to_string()), Token::Int(2)])
    );
}

#[test]
fn a_point_without_a_digit_after_it_is_a_token_of_its_own() {
    assert_eq!(
        lex("64.MiB"),
        Ok(vec![Token::Int(64), Token::Dot, Token::Ident("MiB".to_string())])
    );
    assert_eq!(lex("1."), Ok(vec![Token::Int(1), Token::Dot]));
    assert_eq!(
        lex("1.5.x"),
        Ok(vec![
            Token::Float("1.5".to_string()),
            Token::Dot,
            Token::Ident("x".to_string())
        ])
    );
}

#[test]
fn string_literals_hold_what_is_between_the_quotes() {
    assert_eq!(lex("\"\""), Ok(vec![Token::StringLit(String::new())]));
    assert_eq!(
        lex("\"hello world\""),
        Ok(vec![Token::StringLit("hello world".to_string())])
    );
    assert_eq!(
        lex("\"a\\n\" b"),
        Ok(vec![
            Token::StringLit("a\\n".to_string()),
            Token::Ident("b".to_string())
        ])
    );
    assert_eq!(
        lex("\"grüß\""),
        Ok(vec![Token::StringLit("grüß".to_string())])
    );
}

#[test]
fn a_string_without_its_closing_quote_is_an_error_at_the_opening_one() {
    assert_eq!(lex("x \"abc"), Err(LexicalError { position: 2 }));
}

#[test]
fn comments_run_to_the_end_of_the_line() {
    assert_eq!(
        lex("a // b c\n d"),
        Ok(vec![Token::Ident("a".to_string()), Token::Ident("d".to_string())])
    );
    assert_eq!(lex("// only a comment"), Ok(vec![]));
    assert_eq!(
        lex("a / b"),
        Ok(vec![
            Token::Ident("a".to_string()),
            Token::Slash,
            Token::Ident("b".to_string())
        ])
    );
}

#[test]
fn the_longer_operator_wins() {
    assert_eq!(
        lex("== = != ! <= < >= >"),
        Ok(vec![
            Token::EqEq,
            Token::Eq,
            Token::Ne,
            Token::Bang,
            Token::Le,
            Token::Lt,
            Token::Ge,
            Token::Gt
        ])
    );
    assert_eq!(
        lex("|> || | && @"),
        Ok(vec![Token::PipeOp, Token::OrOr, Token::Pipe, Token::AndAnd, Token::At])
    );
    assert_eq!(lex("| >"), Ok(vec![Token::Pipe, Token::Gt]));
    assert_eq!(lex("==="), Ok(vec![Token::EqEq, Token::Eq]));
}

#[test]
fn delimiters_and_arithmetic() {
    assert_eq!(
        lex("(){}[],:;.+-*/%"),
        Ok(vec![
            Token::LParen,
            Token::RParen,
            Token::LBrace,
            Token::RBrace,
            Token::LBracket,
            Token::RBracket,
            Token::Comma,
            Token::Colon,
            Token::Semicolon,
            Token::Dot,
            Token::Plus,
            Token::Minus,
            Token::Star,
            Token::Slash,
            Token::Percent
        ])
    );
}

#[test]
fn an_unknown_character_is_an_error_at_its_byte_offset() {
    assert_eq!(lex("$"), Err(LexicalError { position: 0 }));
    assert_eq!(lex("let x = #;"), Err(LexicalError { position: 8 }));
    assert_eq!(lex("a & b"), Err(LexicalError { position: 2 }));
    // "ü" takes two bytes and "€" three: the offset counts bytes, not characters.
    assert_eq!(lex("\"ü€\" $"), Err(LexicalError { position: 8 }));
    assert_eq!(lex("// 😀\n$"), Err(LexicalError { position: 8 }));
    assert_eq!(lex("é"), Err(LexicalError { position: 0 }));
}

#[test]
fn tokenizing_twice_gives_the_same_tokens() {
    let mut lexer = Lexer::new("fn main(): void { print(1); }");
    let first = lexer.tokenize();
    let second = lexer.tokenize();
    assert_eq!(first, second);
    assert_eq!(first.unwrap().len(), 13);
}
