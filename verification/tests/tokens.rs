use micro::Lexeme;
use micro::Lexer;

#[test]
fn scans_every_single_character_symbol() {
    let mut lexer = Lexer::new("= + - * / : . ( ) { }");
    assert_eq!(lexer.next(), Lexeme::Assign(0));
    assert_eq!(lexer.next(), Lexeme::Plus(2));
    assert_eq!(lexer.next(), Lexeme::Minus(4));
    assert_eq!(lexer.next(), Lexeme::Asterisk(6));
    assert_eq!(lexer.next(), Lexeme::Slash(8));
    assert_eq!(lexer.next(), Lexeme::Colon(10));
    assert_eq!(lexer.next(), Lexeme::Dot(12));
    assert_eq!(lexer.next(), Lexeme::LParen(14));
    assert_eq!(lexer.next(), Lexeme::RParen(16));
    assert_eq!(lexer.next(), Lexeme::LBrace(18));
    assert_eq!(lexer.next(), Lexeme::RBrace(20));
    assert_eq!(lexer.next(), Lexeme::EndOfFile(21));
}

#[test]
fn joins_comparison_pairs() {
    let mut lexer = Lexer::new("<= >= !=");
    assert_eq!(lexer.next(), Lexeme::LE(0));
    assert_eq!(lexer.next(), Lexeme::GE(3));
    assert_eq!(lexer.next(), Lexeme::NE(6));
    assert_eq!(lexer.next(), Lexeme::EndOfFile(8));
}

#[test]
fn leaves_lone_comparison_heads_single() {
    let mut lexer = Lexer::new("< > !");
    assert_eq!(lexer.next(), Lexeme::LT(0));
    assert_eq!(lexer.next(), Lexeme::GT(2));
    assert_eq!(lexer.next(), Lexeme::Bang(4));
    assert_eq!(lexer.next(), Lexeme::EndOfFile(5));
}

#[test]
fn joins_pairs_only_when_adjacent() {
    let mut lexer = Lexer::new("< = a<=b");
    assert_eq!(lexer.next(), Lexeme::LT(0));
    assert_eq!(lexer.next(), Lexeme::Assign(2));
    assert_eq!(lexer.next(), Lexeme::Identifier(4, "a".to_string()));
    assert_eq!(lexer.next(), Lexeme::LE(5));
    assert_eq!(lexer.next(), Lexeme::Identifier(7, "b".to_string()));
    assert_eq!(lexer.next(), Lexeme::EndOfFile(8));
}

#[test]
fn scans_boolean_literals() {
    let mut lexer = Lexer::new("true false truth");
    assert_eq!(lexer.next(), Lexeme::Boolean(0, true));
    assert_eq!(lexer.next(), Lexeme::Boolean(5, false));
    assert_eq!(lexer.next(), Lexeme::Identifier(11, "truth".to_string()));
    assert_eq!(lexer.next(), Lexeme::EndOfFile(16));
}

#[test]
fn scans_underscore_identifiers() {
    let mut lexer = Lexer::new("_x snake_case");
    assert_eq!(lexer.next(), Lexeme::Identifier(0, "_x".to_string()));
    assert_eq!(lexer.next(), Lexeme::Identifier(3, "snake_case".to_string()));
    assert_eq!(lexer.next(), Lexeme::EndOfFile(13));
}

#[test]
fn keeps_leading_zeros_in_the_run_but_not_the_value() {
    let mut lexer = Lexer::new("007");
    assert_eq!(lexer.next(), Lexeme::Integer(0, 7));
    assert_eq!(lexer.next(), Lexeme::EndOfFile(3));
}

#[test]
fn largest_integer_still_fits() {
    let mut lexer = Lexer::new("2147483647");
    assert_eq!(lexer.next(), Lexeme::Integer(0, 2147483647));
    assert_eq!(lexer.next(), Lexeme::EndOfFile(10));
}

#[test]
fn integer_overflow_is_illegal_not_fatal() {
    let mut lexer = Lexer::new("2147483648");
    assert_eq!(lexer.next(), Lexeme::Illegal(0));
    assert_eq!(lexer.next(), Lexeme::EndOfFile(10));
}

#[test]
fn huge_digit_run_is_consumed_whole() {
    let mut lexer = Lexer::new("999999999999999999999999 7");
    assert_eq!(lexer.next(), Lexeme::Illegal(0));
    assert_eq!(lexer.next(), Lexeme::Integer(25, 7));
    assert_eq!(lexer.next(), Lexeme::EndOfFile(26));
}

#[test]
fn scanning_resumes_after_an_illegal_character() {
    let mut lexer = Lexer::new("x?y");
    assert_eq!(lexer.next(), Lexeme::Identifier(0, "x".to_string()));
    assert_eq!(lexer.next(), Lexeme::Illegal(1));
    assert_eq!(lexer.next(), Lexeme::Identifier(2, "y".to_string()));
    assert_eq!(lexer.next(), Lexeme::EndOfFile(3));
}

#[test]
fn skips_every_kind_of_whitespace() {
    let mut lexer = Lexer::new("\t\r\n x");
    assert_eq!(lexer.next(), Lexeme::Identifier(4, "x".to_string()));
    assert_eq!(lexer.next(), Lexeme::EndOfFile(5));
}

#[test]
fn positions_count_characters_not_bytes() {
    let mut lexer = Lexer::new("\u{e9}=");
    assert_eq!(lexer.next(), Lexeme::Illegal(0));
    assert_eq!(lexer.next(), Lexeme::Assign(1));
    assert_eq!(lexer.next(), Lexeme::EndOfFile(2));
}

#[test]
fn non_ascii_letters_end_an_identifier_run() {
    let mut lexer = Lexer::new("ab\u{e9}c");
    assert_eq!(lexer.next(), Lexeme::Identifier(0, "ab".to_string()));
    assert_eq!(lexer.next(), Lexeme::Illegal(2));
    assert_eq!(lexer.next(), Lexeme::Identifier(3, "c".to_string()));
    assert_eq!(lexer.next(), Lexeme::EndOfFile(4));
}
