use rox::error::Error;
use rox::scanner::{is_digit_byte, is_word_byte, is_word_start_byte, Scanner, TokenKind};

fn kinds(source: &str) -> Vec<TokenKind> {
    let mut scanner = Scanner::new(source);
    let mut out = Vec::new();
    loop {
        let token = scanner.scan_token().expect("a token");
        let kind = token.kind;
        out.push(kind);
        if kind == TokenKind::Eof {
            return out;
        }
    }
}

fn single(source: &str) -> (TokenKind, String, u32) {
    let mut scanner = Scanner::new(source);
    let token = scanner.scan_token().expect("a token");
    let first = (token.kind, String::from_utf8_lossy(token.str).into_owned(), token.line);
    let next = scanner.scan_token().expect("the end of input");
    assert_eq!(next.kind, TokenKind::Eof);
    assert_eq!(next.str.len(), 0);
    first
}

fn lexical_failure(source: &str) -> String {
    let mut scanner = Scanner::new(source);
    match scanner.scan_token() {
        Err(Error::CompileError(message)) => message,
        Err(Error::RuntimeError(message)) => panic!("runtime error: {}", message),
        Ok(token) => panic!("token {:?}", token.kind),
    }
}

#[test]
fn number_literals_scan_verbatim() {
    for text in ["0", "9", "7", "42", "123.45", "0.5", "1234567890.0987654321", "99"] {
        assert_eq!(single(text), (TokenKind::Number, text.to_string(), 1));
    }
}

#[test]
fn trailing_point_is_not_part_of_a_number() {
    let mut scanner = Scanner::new("12.");
    let number = scanner.scan_token().unwrap();
    assert_eq!(number.kind, TokenKind::Number);
    assert_eq!(number.str, "12".as_bytes());
    let point = scanner.scan_token().unwrap();
    assert_eq!(point.kind, TokenKind::Dot);
    assert_eq!(point.str, ".".as_bytes());
    assert_eq!(scanner.scan_token().unwrap().kind, TokenKind::Eof);
}

#[test]
fn number_then_point_then_word() {
    assert_eq!(
        kinds("1.x 2.5.6"),
        vec![
            TokenKind::Number,
            TokenKind::Dot,
            TokenKind::Identifier,
            TokenKind::Number,
            TokenKind::Dot,
            TokenKind::Number,
            TokenKind::Eof
        ]
    );
}

#[test]
fn blanks_and_comments_yield_only_eof() {
    for text in ["", " ", "\t\r\n", "// a comment", "// a\n// b\n", "  // x // y\n\t// z", "//"] {
        let mut scanner = Scanner::new(text);
        let token = scanner.scan_token().unwrap();
        assert_eq!(token.kind, TokenKind::Eof);
        assert_eq!(token.str.len(), 0);
    }
}

#[test]
fn eof_repeats_at_the_end() {
    let mut scanner = Scanner::new("x\n");
    assert_eq!(scanner.scan_token().unwrap().kind, TokenKind::Identifier);
    for _ in 0..3 {
        let token = scanner.scan_token().unwrap();
        assert_eq!(token.kind, TokenKind::Eof);
        assert_eq!(token.line, 2);
    }
}

#[test]
fn keywords_scan_as_their_kind() {
    let table = [
        ("and", TokenKind::And),
        ("class", TokenKind::Class),
        ("else", TokenKind::Else),
        ("false", TokenKind::False),
        ("for", TokenKind::For),
        ("fun", TokenKind::Fun),
        ("if", TokenKind::If),
        ("nil", TokenKind::Nil),
        ("or", TokenKind::Or),
        ("print", TokenKind::Print),
        ("return", TokenKind::Return),
        ("super", TokenKind::Super),
        ("this", TokenKind::This),
        ("true", TokenKind::True),
        ("var", TokenKind::Var),
        ("while", TokenKind::While),
    ];
    for (text, kind) in table {
        assert_eq!(single(text), (kind, text.to_string(), 1));
        for extra in ["s", "_", "0", "Z"] {
            let longer = format!("{}{}", text, extra);
            assert_eq!(single(&longer), (TokenKind::Identifier, longer.clone(), 1));
        }
        let shorter = &text[..text.len() - 1];
        assert_eq!(single(shorter), (TokenKind::Identifier, shorter.to_string(), 1));
    }
}

#[test]
fn near_keywords_are_identifiers() {
    let words = [
        "forever", "whiles", "true1", "if_", "f", "t", "fa", "tr", "thin", "And", "z", "Z", "_",
        "a1_b", "zebra", "classes", "returned", "nilnil",
    ];
    for text in words {
        assert_eq!(single(text), (TokenKind::Identifier, text.to_string(), 1));
    }
}

#[test]
fn unterminated_string_is_a_lexical_failure() {
    assert_eq!(lexical_failure("\"abc"), "Unterminated string.");
    assert_eq!(lexical_failure("\""), "Unterminated string.");
    assert_eq!(lexical_failure("  \"a\nb"), "Unterminated string.");
}

#[test]
fn scanning_ends_at_the_end_after_an_unterminated_string() {
    let mut scanner = Scanner::new("\"abc");
    assert!(scanner.scan_token().is_err());
    assert_eq!(scanner.scan_token().unwrap().kind, TokenKind::Eof);
}

#[test]
fn unknown_byte_is_a_lexical_failure() {
    assert_eq!(lexical_failure("@"), "Unexpected character");
    assert_eq!(lexical_failure("  #x"), "Unexpected character");
    assert_eq!(lexical_failure("\0"), "Unexpected character");
    assert_eq!(lexical_failure("é"), "Unexpected character");
}

#[test]
fn scanning_goes_on_after_an_unknown_byte() {
    let mut scanner = Scanner::new("@x");
    assert!(scanner.scan_token().is_err());
    let token = scanner.scan_token().unwrap();
    assert_eq!(token.kind, TokenKind::Identifier);
    assert_eq!(token.str, "x".as_bytes());
}

#[test]
fn string_literal_keeps_its_quotes() {
    assert_eq!(single("\"abc\""), (TokenKind::String, "\"abc\"".to_string(), 1));
    assert_eq!(single("\"\""), (TokenKind::String, "\"\"".to_string(), 1));
}

#[test]
fn string_over_lines_starts_on_its_first_line() {
    let mut scanner = Scanner::new("\n\"a\nb\n\" x");
    let text = scanner.scan_token().unwrap();
    assert_eq!(text.kind, TokenKind::String);
    assert_eq!(text.str, "\"a\nb\n\"".as_bytes());
    assert_eq!(text.line, 2);
    let word = scanner.scan_token().unwrap();
    assert_eq!(word.kind, TokenKind::Identifier);
    assert_eq!(word.line, 4);
}

#[test]
fn punctuation_scans_byte_by_byte() {
    assert_eq!(
        kinds("(){};,.-+/*"),
        vec![
            TokenKind::LeftParen,
            TokenKind::RightParen,
            TokenKind::LeftBrace,
            TokenKind::RightBrace,
            TokenKind::Semicolon,
            TokenKind::Comma,
            TokenKind::Dot,
            TokenKind::Minus,
            TokenKind::Plus,
            TokenKind::Slash,
            TokenKind::Star,
            TokenKind::Eof
        ]
    );
}

#[test]
fn operators_look_one_byte_ahead() {
    assert_eq!(
        kinds("! != = == < <= > >= =!"),
        vec![
            TokenKind::Bang,
            TokenKind::BangEqual,
            TokenKind::Equal,
            TokenKind::EqualEqual,
            TokenKind::Less,
            TokenKind::LessEqual,
            TokenKind::Greater,
            TokenKind::GreaterEqual,
            TokenKind::Equal,
            TokenKind::Bang,
            TokenKind::Eof
        ]
    );
    assert_eq!(single("!="), (TokenKind::BangEqual, "!=".to_string(), 1));
    assert_eq!(single(">"), (TokenKind::Greater, ">".to_string(), 1));
}

#[test]
fn lines_are_counted_from_one() {
    let mut scanner = Scanner::new("a // c\n\n  b / c\r\n// d\ne");
    let expected = [
        (TokenKind::Identifier, "a", 1),
        (TokenKind::Identifier, "b", 3),
        (TokenKind::Slash, "/", 3),
        (TokenKind::Identifier, "c", 3),
        (TokenKind::Identifier, "e", 5),
        (TokenKind::Eof, "", 5),
    ];
    for (kind, text, line) in expected {
        let token = scanner.scan_token().unwrap();
        assert_eq!(token.kind, kind);
        assert_eq!(token.str, text.as_bytes());
        assert_eq!(token.line, line);
    }
}

#[test]
fn get_slice_returns_the_bytes_between() {
    let scanner = Scanner::new("hello world");
    assert_eq!(scanner.get_slice(0, 5), "hello".as_bytes());
    assert_eq!(scanner.get_slice(6, 11), "world".as_bytes());
    assert_eq!(scanner.get_slice(3, 3), "".as_bytes());
}

#[test]
fn word_bytes_are_letters_digits_and_underscore() {
    for b in 0..=255u8 {
        let c = b as char;
        assert_eq!(is_word_byte(b), c.is_alphabetic() || c.is_digit(10) || c == '_', "byte {}", b);
        assert_eq!(is_digit_byte(b), c.is_ascii_digit(), "byte {}", b);
        assert_eq!(is_word_start_byte(b), c.is_ascii_alphabetic() || c == '_', "byte {}", b);
    }
}

#[test]
fn kind_names_are_the_variant_names() {
    assert_eq!(TokenKind::LeftParen.name(), "LeftParen");
    assert_eq!(TokenKind::GreaterEqual.name(), "GreaterEqual");
    assert_eq!(TokenKind::String.name(), "String");
    assert_eq!(TokenKind::While.name(), "While");
    assert_eq!(TokenKind::Eof.name(), "Eof");
}
