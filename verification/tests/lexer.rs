use kurai::lexer::try_tokenize;
use kurai::token::Token;
use kurai::types::Type;

fn id(s: &str) -> Token {
    Token::Id(s.to_string())
}

#[test]
fn tokenize_let_statement() {
    let tokens = Token::tokenize("let x = 5;");
    assert_eq!(tokens, vec![Token::Let, id("x"), Token::Equal, Token::Number(5), Token::Semicolon]);
}

#[test]
fn tokenize_keywords_and_types() {
    let tokens = Token::tokenize("fn if else for in loop while break return use as true false i32 bool void");
    assert_eq!(
        tokens,
        vec![
            Token::Function,
            Token::If,
            Token::Else,
            Token::For,
            Token::In,
            Token::Loop,
            Token::While,
            Token::Break,
            Token::Return,
            Token::Import,
            Token::As,
            Token::Bool(true),
            Token::Bool(false),
            Token::Type(Type::I32),
            Token::Type(Type::Bool),
            Token::Type(Type::Void),
        ]
    );
}

#[test]
fn tokenize_identifier_with_digits_and_underscores() {
    let tokens = Token::tokenize("_count2 letter fnx");
    assert_eq!(tokens, vec![id("_count2"), id("letter"), id("fnx")]);
}

#[test]
fn tokenize_comparisons() {
    let tokens = Token::tokenize("a <= b == c != d >= e < f > g = !h");
    assert_eq!(
        tokens,
        vec![
            id("a"),
            Token::LessEqual,
            id("b"),
            Token::EqualEqual,
            id("c"),
            Token::BangEqual,
            id("d"),
            Token::GreaterEqual,
            id("e"),
            Token::Less,
            id("f"),
            Token::Greater,
            id("g"),
            Token::Equal,
            Token::Bang,
            id("h"),
        ]
    );
}

#[test]
fn tokenize_skips_comments_to_end_of_line() {
    let tokens = Token::tokenize("let // a comment ; x\ny / z");
    assert_eq!(tokens, vec![Token::Let, id("y"), Token::Slash, id("z")]);
}

#[test]
fn tokenize_string_literal() {
    let tokens = Token::tokenize("printf(\"hi there\");");
    assert_eq!(
        tokens,
        vec![
            id("printf"),
            Token::OpenParenthese,
            Token::StringLiteral("hi there".to_string()),
            Token::CloseParenthese,
            Token::Semicolon,
        ]
    );
}

#[test]
fn tokenize_unterminated_string_runs_to_end() {
    let tokens = Token::tokenize("\"open");
    assert_eq!(tokens, vec![Token::StringLiteral("open".to_string())]);
}

#[test]
fn tokenize_numbers_floats_and_ranges() {
    let tokens = Token::tokenize("0..4 3.14 7.x");
    assert_eq!(
        tokens,
        vec![
            Token::Number(0),
            Token::Range,
            Token::Number(4),
            Token::Float("3.14".to_string()),
            Token::Number(7),
            Token::Dot,
            id("x"),
        ]
    );
}

#[test]
fn tokenize_punctuation() {
    let tokens = Token::tokenize("#[test] {a: b, c} + - * '");
    assert_eq!(
        tokens,
        vec![
            Token::Hash,
            Token::OpenSquareBracket,
            id("test"),
            Token::CloseSquareBracket,
            Token::OpenBracket,
            id("a"),
            Token::Colon,
            id("b"),
            Token::Comma,
            id("c"),
            Token::CloseBracket,
            Token::Plus,
            Token::Dash,
            Token::Star,
            Token::Quote,
        ]
    );
}

#[test]
fn tokenize_largest_integer() {
    let tokens = Token::tokenize("9223372036854775807");
    assert_eq!(tokens, vec![Token::Number(i64::MAX)]);
}

#[test]
fn try_tokenize_stops_on_unknown_character() {
    assert_eq!(try_tokenize("let x = 5 @"), None);
}

#[test]
fn try_tokenize_stops_on_integer_overflow() {
    assert_eq!(try_tokenize("9223372036854775808"), None);
}

#[test]
fn try_tokenize_stops_on_two_points() {
    assert_eq!(try_tokenize("1.2.3"), None);
}

#[test]
fn try_tokenize_empty_text() {
    assert_eq!(try_tokenize("   \n\t"), Some(vec![]));
}

#[test]
fn type_from_str_names() {
    assert_eq!(Type::from_str("i16"), Some(Type::I16));
    assert_eq!(Type::from_str("i64"), Some(Type::I64));
    assert_eq!(Type::from_str("f128"), Some(Type::F128));
    assert_eq!(Type::from_str("str"), Some(Type::Str));
    assert_eq!(Type::from_str("var"), Some(Type::Var));
    assert_eq!(Type::from_str("void"), Some(Type::Void));
    assert_eq!(Type::from_str("i8"), None);
    assert_eq!(Type::from_str("int"), None);
}

#[test]
fn whitespace_is_skipped_between_tokens() {
    assert_eq!(Token::tokenize("a \t\n b"), Token::tokenize("a b"));
    assert_eq!(Token::tokenize("  let"), vec![Token::Let]);
}

#[test]
fn type_keywords_read_back_alone() {
    let cases = [
        ("i8", Type::I8),
        ("i16", Type::I16),
        ("i32", Type::I32),
        ("i64", Type::I64),
        ("i128", Type::I128),
        ("f32", Type::F32),
        ("f64", Type::F64),
        ("f128", Type::F128),
        ("bool", Type::Bool),
        ("void", Type::Void),
    ];
    for (text, t) in cases {
        assert_eq!(Token::tokenize(text), vec![Token::Type(t)]);
    }
}

#[test]
fn tokenizing_two_texts_with_a_space_between() {
    let a = "let s = \"a b\"; // note\nx";
    let b = "= 4.5;";
    let mut both = try_tokenize(a).unwrap();
    both.extend(try_tokenize(b).unwrap());
    assert_eq!(try_tokenize(&format!("{} {}", a, b)), Some(both));
}
