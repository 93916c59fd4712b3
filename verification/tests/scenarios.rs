use micro::Lexeme;
use micro::Lexer;

#[test]
fn scans_let_binding() {
    let mut lexer = Lexer::new("let x = 10");
    assert_eq!(lexer.next(), Lexeme::Let(0));
    assert_eq!(lexer.next(), Lexeme::Identifier(4, "x".to_string()));
    assert_eq!(lexer.next(), Lexeme::Assign(6));
    assert_eq!(lexer.next(), Lexeme::Integer(8, 10));
    assert_eq!(lexer.next(), Lexeme::EndOfFile(10));
}

#[test]
fn scans_double_equals_as_two_assigns() {
    let mut lexer = Lexer::new("==");
    assert_eq!(lexer.next(), Lexeme::Assign(0));
    assert_eq!(lexer.next(), Lexeme::Assign(1));
    assert_eq!(lexer.next(), Lexeme::EndOfFile(2));
}

#[test]
fn scans_question_mark_as_illegal() {
    let mut lexer = Lexer::new("?");
    assert_eq!(lexer.next(), Lexeme::Illegal(0));
    assert_eq!(lexer.next(), Lexeme::EndOfFile(1));
}

#[test]
fn empty_input_gives_end_of_file_forever() {
    let mut lexer = Lexer::new("");
    assert_eq!(lexer.next(), Lexeme::EndOfFile(0));
    assert_eq!(lexer.next(), Lexeme::EndOfFile(0));
    assert_eq!(lexer.next(), Lexeme::EndOfFile(0));
}

#[test]
fn scans_identifier_then_integer() {
    let mut lexer = Lexer::new("foo 123");
    assert_eq!(lexer.next(), Lexeme::Identifier(0, "foo".to_string()));
    assert_eq!(lexer.next(), Lexeme::Integer(4, 123));
    assert_eq!(lexer.next(), Lexeme::EndOfFile(7));
}

#[test]
fn same_input_gives_same_stream_twice() {
    let text = "let answer = 42 + x";
    let mut first = Lexer::new(text);
    let mut second = Lexer::new(text);
    for _ in 0..8 {
        assert_eq!(first.next(), second.next());
    }
}

#[test]
fn end_of_file_repeats_after_tokens() {
    let mut lexer = Lexer::new("x");
    assert_eq!(lexer.next(), Lexeme::Identifier(0, "x".to_string()));
    assert_eq!(lexer.next(), Lexeme::EndOfFile(1));
    assert_eq!(lexer.next(), Lexeme::EndOfFile(1));
    assert_eq!(lexer.next(), Lexeme::EndOfFile(1));
}

#[test]
fn never_splits_a_digit_run() {
    let mut lexer = Lexer::new("123");
    assert_eq!(lexer.next(), Lexeme::Integer(0, 123));
    assert_eq!(lexer.next(), Lexeme::EndOfFile(3));
}

#[test]
fn keyword_wins_over_identifier() {
    let mut lexer = Lexer::new("let");
    assert_eq!(lexer.next(), Lexeme::Let(0));
    assert_eq!(lexer.next(), Lexeme::EndOfFile(3));
}

#[test]
fn longer_identifier_is_not_a_keyword() {
    let mut lexer = Lexer::new("letter");
    assert_eq!(lexer.next(), Lexeme::Identifier(0, "letter".to_string()));
    assert_eq!(lexer.next(), Lexeme::EndOfFile(6));
}

#[test]
fn positions_slice_back_to_source_text() {
    let text = "    let x = 10";
    let mut lexer = Lexer::new(text);
    assert_eq!(lexer.next(), Lexeme::Let(4));
    assert_eq!(&text[4..7], "let");
    assert_eq!(lexer.next(), Lexeme::Identifier(8, "x".to_string()));
    assert_eq!(&text[8..9], "x");
    assert_eq!(lexer.next(), Lexeme::Assign(10));
    assert_eq!(&text[10..11], "=");
    assert_eq!(lexer.next(), Lexeme::Integer(12, 10));
    assert_eq!(&text[12..14], "10");
    assert_eq!(lexer.next(), Lexeme::EndOfFile(14));
}

#[test]
fn positions_never_decrease() {
    let mut lexer = Lexer::new("let a = 1 + 2 * b");
    let mut previous: usize = 0;
    loop {
        let lexeme = lexer.next();
        let position = match lexeme {
            Lexeme::Let(p) => p,
            Lexeme::Identifier(p, _) => p,
            Lexeme::Assign(p) => p,
            Lexeme::Integer(p, _) => p,
            Lexeme::Plus(p) => p,
            Lexeme::Asterisk(p) => p,
            Lexeme::EndOfFile(p) => p,
            other => panic!("unexpected lexeme {:?}", other),
        };
        assert!(position >= previous);
        previous = position;
        if matches!(lexeme, Lexeme::EndOfFile(_)) {
            break;
        }
    }
}
