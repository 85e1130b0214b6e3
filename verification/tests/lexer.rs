use kennedy::error::{CompileError, Span};
use kennedy::lexer::lex;
use kennedy::lexer::tokens::{Token, TokenType};
use kennedy::text::{append_int, append_nat, append_repeated, append_usize, digit_of, to_chars};

fn kinds(source: &str) -> Vec<TokenType> {
    lex(source.to_string()).unwrap().into_iter().map(|t| t.token_type).collect()
}

fn ident(name: &str) -> TokenType {
    TokenType::Ident(name.to_string())
}

#[test]
fn test_lexer() {
    let source = r#"let a = 1 + 2 * 3; a += 1;"#;
    let tokens = lex(source.to_string()).unwrap();
    println!("{:#?}", tokens);
    let expected = vec![
        Token::new(TokenType::Let, Span { start: 0, end: 3 }),
        Token::new(ident("a"), Span { start: 4, end: 5 }),
        Token::new(TokenType::Equal, Span { start: 6, end: 7 }),
        Token::new(TokenType::IntegerLiteral(1), Span { start: 8, end: 9 }),
        Token::new(TokenType::Plus, Span { start: 10, end: 11 }),
        Token::new(TokenType::IntegerLiteral(2), Span { start: 12, end: 13 }),
        Token::new(TokenType::Star, Span { start: 14, end: 15 }),
        Token::new(TokenType::IntegerLiteral(3), Span { start: 16, end: 17 }),
        Token::new(TokenType::Semicolon, Span { start: 17, end: 18 }),
        Token::new(ident("a"), Span { start: 19, end: 20 }),
        Token::new(TokenType::PlusEqual, Span { start: 21, end: 23 }),
        Token::new(TokenType::IntegerLiteral(1), Span { start: 24, end: 25 }),
        Token::new(TokenType::Semicolon, Span { start: 25, end: 26 }),
        Token::new(TokenType::Eof, Span { start: 26, end: 26 }),
    ];
    assert_eq!(tokens, expected);
}

#[test]
fn lex_empty_source_is_only_the_end_mark() {
    let tokens = lex(String::new()).unwrap();
    assert_eq!(tokens, vec![Token::new(TokenType::Eof, Span { start: 0, end: 0 })]);
}

#[test]
fn lex_end_mark_lies_at_the_end_of_the_source() {
    let tokens = lex("x  \n".to_string()).unwrap();
    assert_eq!(tokens.last().unwrap(), &Token::new(TokenType::Eof, Span { start: 4, end: 4 }));
}

#[test]
fn lex_punctuation() {
    assert_eq!(
        kinds("( ) { } , . ; :"),
        vec![
            TokenType::LeftParen,
            TokenType::RightParen,
            TokenType::LeftBrace,
            TokenType::RightBrace,
            TokenType::Comma,
            TokenType::Dot,
            TokenType::Semicolon,
            TokenType::Colon,
            TokenType::Eof,
        ]
    );
}

#[test]
fn lex_operators_take_the_longest_match() {
    assert_eq!(
        kinds("! != = == < <= > >= + ++ += - -- -= * ** *= / /="),
        vec![
            TokenType::Bang,
            TokenType::BangEqual,
            TokenType::Equal,
            TokenType::EqualEqual,
            TokenType::Less,
            TokenType::LessEqual,
            TokenType::Greater,
            TokenType::GreaterEqual,
            TokenType::Plus,
            TokenType::PlusPlus,
            TokenType::PlusEqual,
            TokenType::Minus,
            TokenType::MinusMinus,
            TokenType::MinusEqual,
            TokenType::Star,
            TokenType::StarStar,
            TokenType::StarEqual,
            TokenType::Slash,
            TokenType::SlashEqual,
            TokenType::Eof,
        ]
    );
    assert_eq!(kinds("a+++b"), vec![ident("a"), TokenType::PlusPlus, TokenType::Plus, ident("b"), TokenType::Eof]);
    assert_eq!(kinds("==="), vec![TokenType::EqualEqual, TokenType::Equal, TokenType::Eof]);
}

#[test]
fn lex_keywords_and_types() {
    assert_eq!(
        kinds("func let if else while return true false for do until or and not int float bool string null void"),
        vec![
            TokenType::Function,
            TokenType::Let,
            TokenType::If,
            TokenType::Else,
            TokenType::While,
            TokenType::Return,
            TokenType::True,
            TokenType::False,
            TokenType::For,
            TokenType::Do,
            TokenType::Until,
            TokenType::Or,
            TokenType::And,
            TokenType::Not,
            TokenType::Int,
            TokenType::Float,
            TokenType::Bool,
            TokenType::String,
            TokenType::Null,
            TokenType::Void,
            TokenType::Eof,
        ]
    );
}

#[test]
fn lex_identifiers() {
    assert_eq!(kinds("_a1 If iff"), vec![ident("_a1"), ident("If"), ident("iff"), TokenType::Eof]);
    // A letter of any script continues an identifier.
    assert_eq!(kinds("na\u{ef}ve"), vec![ident("na\u{ef}ve"), TokenType::Eof]);
}

#[test]
fn lex_identifier_cannot_begin_with_a_letter_outside_ascii() {
    match lex("\u{e9}t".to_string()) {
        Err(CompileError::SyntaxError(message, span)) => {
            assert_eq!(message, "Unexpected character: \u{e9}");
            assert_eq!(span, Span { start: 0, end: 1 });
        }
        other => panic!("unexpected result: {:?}", other),
    }
}

#[test]
fn lex_numbers() {
    assert_eq!(
        kinds("0 42 9223372036854775807 1.5 7. 0.25"),
        vec![
            TokenType::IntegerLiteral(0),
            TokenType::IntegerLiteral(42),
            TokenType::IntegerLiteral(i64::MAX),
            TokenType::FloatLiteral("1.5".to_string()),
            TokenType::FloatLiteral("7.".to_string()),
            TokenType::FloatLiteral("0.25".to_string()),
            TokenType::Eof,
        ]
    );
    assert_eq!(kinds("007"), vec![TokenType::IntegerLiteral(7), TokenType::Eof]);
}

#[test]
fn lex_float_text_reads_as_the_number_written() {
    for (source, value) in [("1.5", 1.5f64), ("7.", 7.0), ("0.25", 0.25), ("10.0", 10.0)] {
        match &kinds(source)[0] {
            TokenType::FloatLiteral(text) => assert_eq!(text.parse::<f64>().unwrap(), value),
            other => panic!("unexpected token: {:?}", other),
        }
    }
}

#[test]
fn lex_integer_out_of_range_is_an_error() {
    match lex("x = 9223372036854775808;".to_string()) {
        Err(CompileError::SyntaxError(message, span)) => {
            assert_eq!(message, "Integer literal out of range");
            assert_eq!(span, Span { start: 4, end: 23 });
        }
        other => panic!("unexpected result: {:?}", other),
    }
}

#[test]
fn lex_strings() {
    let tokens = lex("\"hi there\" \"\"".to_string()).unwrap();
    assert_eq!(
        tokens,
        vec![
            Token::new(TokenType::StringLiteral("hi there".to_string()), Span { start: 0, end: 10 }),
            Token::new(TokenType::StringLiteral(String::new()), Span { start: 11, end: 13 }),
            Token::new(TokenType::Eof, Span { start: 13, end: 13 }),
        ]
    );
}

#[test]
fn lex_unclosed_string_runs_to_the_end() {
    let tokens = lex("\"abc".to_string()).unwrap();
    assert_eq!(
        tokens,
        vec![
            Token::new(TokenType::StringLiteral("abc".to_string()), Span { start: 0, end: 4 }),
            Token::new(TokenType::Eof, Span { start: 4, end: 4 }),
        ]
    );
}

#[test]
fn lex_comments_are_dropped() {
    assert_eq!(kinds("1 // one\n2"), vec![TokenType::IntegerLiteral(1), TokenType::IntegerLiteral(2), TokenType::Eof]);
    assert_eq!(kinds("1 /* a * b / c */ 2"), vec![TokenType::IntegerLiteral(1), TokenType::IntegerLiteral(2), TokenType::Eof]);
    assert_eq!(kinds("1 /* never closed"), vec![TokenType::IntegerLiteral(1), TokenType::Eof]);
    assert_eq!(kinds("// only a comment"), vec![TokenType::Eof]);
    assert_eq!(kinds("/*/ 1 */ 2"), vec![TokenType::IntegerLiteral(2), TokenType::Eof]);
}

#[test]
fn lex_spans_after_a_comment_count_its_characters() {
    let tokens = lex("/* c */ x".to_string()).unwrap();
    assert_eq!(tokens[0], Token::new(ident("x"), Span { start: 8, end: 9 }));
}

#[test]
fn lex_spans_count_characters_not_bytes() {
    let tokens = lex("\"\u{e9}\u{e9}\" x".to_string()).unwrap();
    assert_eq!(tokens[0].span, Span { start: 0, end: 4 });
    assert_eq!(tokens[1], Token::new(ident("x"), Span { start: 5, end: 6 }));
}

#[test]
fn lex_unexpected_character() {
    match lex("let a = 1 # 2".to_string()) {
        Err(CompileError::SyntaxError(message, span)) => {
            assert_eq!(message, "Unexpected character: #");
            assert_eq!(span, Span { start: 10, end: 11 });
        }
        other => panic!("unexpected result: {:?}", other),
    }
}

#[test]
fn lex_first_error_wins() {
    match lex("@ 99999999999999999999".to_string()) {
        Err(CompileError::SyntaxError(message, span)) => {
            assert_eq!(message, "Unexpected character: @");
            assert_eq!(span, Span { start: 0, end: 1 });
        }
        other => panic!("unexpected result: {:?}", other),
    }
}

#[test]
fn token_type_to_string_is_the_lexeme() {
    assert_eq!(TokenType::LeftBrace.to_string(), "{");
    assert_eq!(TokenType::SlashSlash.to_string(), "//");
    assert_eq!(TokenType::Function.to_string(), "func");
    assert_eq!(TokenType::Eof.to_string(), "EOF");
    assert_eq!(ident("abc").to_string(), "abc");
    assert_eq!(TokenType::StringLiteral("a b".to_string()).to_string(), "\"a b\"");
    assert_eq!(TokenType::FloatLiteral("1.5".to_string()).to_string(), "1.5");
    assert_eq!(TokenType::IntegerLiteral(0).to_string(), "0");
    assert_eq!(TokenType::IntegerLiteral(1234567890).to_string(), "1234567890");
    assert_eq!(TokenType::IntegerLiteral(-17).to_string(), "-17");
    assert_eq!(TokenType::IntegerLiteral(i64::MIN).to_string(), "-9223372036854775808");
    assert_eq!(TokenType::IntegerLiteral(i64::MAX).to_string(), "9223372036854775807");
}

#[test]
fn token_to_string_shows_lexeme_and_span() {
    let token = Token::new(TokenType::PlusEqual, Span { start: 21, end: 23 });
    assert_eq!(token.to_string(), "+= Span { start: 21, end: 23 }");
}

#[test]
fn token_type_same_as_compares_payloads() {
    assert!(ident("a").same_as(&ident("a")));
    assert!(!ident("a").same_as(&ident("b")));
    assert!(!ident("a").same_as(&TokenType::StringLiteral("a".to_string())));
    assert!(TokenType::IntegerLiteral(3).same_as(&TokenType::IntegerLiteral(3)));
    assert!(!TokenType::IntegerLiteral(3).same_as(&TokenType::IntegerLiteral(4)));
    assert!(TokenType::Plus.same_as(&TokenType::Plus));
    assert!(!TokenType::Plus.same_as(&TokenType::PlusPlus));
}

#[test]
fn digit_of_tells_digits_from_other_characters() {
    assert_eq!(digit_of('0'), Some(0));
    assert_eq!(digit_of('7'), Some(7));
    assert_eq!(digit_of('9'), Some(9));
    assert_eq!(digit_of('a'), None);
    assert_eq!(digit_of('/'), None);
    assert_eq!(digit_of(':'), None);
    assert_eq!(digit_of('\u{663}'), None);
}

#[test]
fn to_chars_gives_the_characters_in_order() {
    assert_eq!(to_chars("a\u{e9}b"), vec!['a', '\u{e9}', 'b']);
    assert_eq!(to_chars(""), Vec::<char>::new());
}

#[test]
fn numerals() {
    let mut s = String::from("n=");
    append_nat(&mut s, 0);
    append_nat(&mut s, 340282366920938463463374607431768211455);
    append_usize(&mut s, 42);
    append_int(&mut s, -5);
    append_repeated(&mut s, '*', 3);
    append_repeated(&mut s, '-', 0);
    assert_eq!(s, "n=034028236692093846346337460743176821145542-5***");
}

#[test]
fn lex_identifier_ends_at_a_blank_or_a_mark_of_punctuation() {
    assert_eq!(kinds("ab cd"), vec![ident("ab"), ident("cd"), TokenType::Eof]);
    assert_eq!(
        kinds("a(b1)"),
        vec![ident("a"), TokenType::LeftParen, ident("b1"), TokenType::RightParen, TokenType::Eof]
    );
    assert_eq!(kinds("x_1;"), vec![ident("x_1"), TokenType::Semicolon, TokenType::Eof]);
    assert_eq!(kinds("a\tb\nc"), vec![ident("a"), ident("b"), ident("c"), TokenType::Eof]);
}

#[test]
fn lex_identifier_continues_with_a_digit_of_another_script() {
    // U+0663 is a digit of Arabic script, U+2460 a circled digit one.
    assert_eq!(kinds("a\u{663}\u{2460}"), vec![ident("a\u{663}\u{2460}"), TokenType::Eof]);
}

#[test]
fn lex_identifier_ends_at_a_symbol_outside_ascii() {
    match lex("ab\u{20ac}".to_string()) {
        Err(CompileError::SyntaxError(message, span)) => {
            assert_eq!(message, "Unexpected character: \u{20ac}");
            assert_eq!(span, Span { start: 2, end: 3 });
        }
        other => panic!("unexpected result: {:?}", other),
    }
}
