use rslox::scanner::Scanner;
use rslox::token::{check_keyword, Token, TokenInfo};

/// The number token whose text is the shortest way to write `value`.
fn number(value: f64) -> Token {
    Token::Number(value.to_string())
}

fn test_string_is_token(test_string: &str, token: Token) {
    let mut scanner = Scanner::init(test_string);
    let token_info = scanner.scan_token();

    if token_info.token != token {
        println!("didnt match: {:?} and {:?}", token_info, token);
    }
    assert!(token_info.token == token);
}

fn scan_all(test_string: &str) -> Vec<TokenInfo> {
    let mut found: Vec<TokenInfo> = vec![];
    let mut scanner = Scanner::init(test_string);
    loop {
        let token_info = scanner.scan_token();
        let done = token_info.token == Token::EOF;
        found.push(token_info);
        if done {
            break;
        }
    }
    found
}

fn test_tokens(test_string: &str, tokens: Vec<Token>) {
    let found_tokens: Vec<Token> = scan_all(test_string).into_iter().map(|info| info.token).collect();
    if found_tokens != tokens {
        println!("didnt match: {:?} and {:?}", found_tokens, tokens);
    }
    assert!(found_tokens == tokens)
}

#[test]
fn test_multiple_booleans() {
    let test_string = "true false";
    let mut scanner = Scanner::init(test_string);
    assert!(scanner.scan_token().token == Token::True);
    assert!(scanner.scan_token().token == Token::False);
}

#[test]
fn test_keywords() {
    test_string_is_token("and", Token::And);
    test_string_is_token("class", Token::Class);
    test_string_is_token("else", Token::Else);
    test_string_is_token("false", Token::False);
    test_string_is_token("for", Token::For);
    test_string_is_token("fun", Token::Fun);
    test_string_is_token("if", Token::If);
    test_string_is_token("nil", Token::Nil);
    test_string_is_token("or", Token::Or);
    test_string_is_token("print", Token::Print);
    test_string_is_token("return", Token::Return);
    test_string_is_token("super", Token::Super);
    test_string_is_token("this", Token::This);
    test_string_is_token("true", Token::True);
    test_string_is_token("var", Token::Var);
    test_string_is_token("while", Token::While);
}

#[test]
fn simple_identifier() {
    test_string_is_token("foobar", Token::Identifier(String::from("foobar")));
}

#[test]
fn simple_string() {
    test_string_is_token("\"test\"", Token::String(String::from("test")));
}

#[test]
fn basic_numbers() {
    test_string_is_token("0", number(0.0));
    test_string_is_token("1", number(1.0));
    test_string_is_token("2", number(2.0));
    test_string_is_token("3", number(3.0));
    test_string_is_token("4", number(4.0));
    test_string_is_token("5", number(5.0));
    test_string_is_token("6", number(6.0));
    test_string_is_token("7", number(7.0));
    test_string_is_token("8", number(8.0));
    test_string_is_token("9", number(9.0));
}

#[test]
fn punctuation() {
    test_string_is_token("(", Token::LeftParen);
    test_string_is_token(")", Token::RightParen);
    test_string_is_token("{", Token::LeftBrace);
    test_string_is_token("}", Token::RightBrace);
    test_string_is_token(",", Token::Comma);
    test_string_is_token(".", Token::Dot);
    test_string_is_token("-", Token::Minus);
    test_string_is_token("+", Token::Plus);
    test_string_is_token(";", Token::Semicolon);
    test_string_is_token("/", Token::Slash);
    test_string_is_token("*", Token::Star);
    test_string_is_token("!", Token::Bang);
    test_string_is_token("!=", Token::BangEqual);
    test_string_is_token("=", Token::Equal);
    test_string_is_token("==", Token::EqualEqual);
    test_string_is_token(">", Token::Greater);
    test_string_is_token(">=", Token::GreaterEqual);
    test_string_is_token("<", Token::Less);
    test_string_is_token("<=", Token::LessEqual);
}

#[test]
fn test_whitespace() {
    test_string_is_token("  /    \t", Token::Slash);

    test_tokens(
        "\t    / +   \n/",
        vec![Token::Slash, Token::Plus, Token::Slash, Token::EOF],
    )
}

#[test]
fn test_random_mixes() {
    test_tokens(
        "1 + 2;",
        vec![
            number(1.0),
            Token::Plus,
            number(2.0),
            Token::Semicolon,
            Token::EOF,
        ],
    );

    test_tokens(
        "1 + \"just a string\";",
        vec![
            number(1.0),
            Token::Plus,
            Token::String(String::from("just a string")),
            Token::Semicolon,
            Token::EOF,
        ],
    );
}

#[test]
fn test_comment() {
    test_tokens(
        "1 + 2; // add those numbers!",
        vec![
            number(1.0),
            Token::Plus,
            number(2.0),
            Token::Semicolon,
            Token::Comment(String::from(" add those numbers!")),
            Token::EOF,
        ],
    );
}

#[test]
fn test_comment_with_newline() {
    test_tokens(
        "1 + 2; // add those numbers!\nfoo",
        vec![
            number(1.0),
            Token::Plus,
            number(2.0),
            Token::Semicolon,
            Token::Comment(String::from(" add those numbers!")),
            Token::Identifier(String::from("foo")),
            Token::EOF,
        ],
    );
}

#[test]
fn unterminated_string_is_an_error_token() {
    test_tokens("\"abc", vec![Token::Error, Token::EOF]);
}

#[test]
fn unknown_character_is_an_error_token() {
    test_tokens("1 @ 2", vec![number(1.0), Token::Error, number(2.0), Token::EOF]);
}

#[test]
fn number_keeps_its_text() {
    test_tokens(
        "12.50 7. .5",
        vec![
            Token::Number(String::from("12.50")),
            Token::Number(String::from("7.")),
            Token::Dot,
            Token::Number(String::from("5")),
            Token::EOF,
        ],
    );
}

#[test]
fn identifier_may_hold_digits_and_letters_of_any_script() {
    test_tokens(
        "x1 été classy",
        vec![
            Token::Identifier(String::from("x1")),
            Token::Identifier(String::from("été")),
            Token::Identifier(String::from("classy")),
            Token::EOF,
        ],
    );
}

#[test]
fn lines_are_counted_from_zero() {
    let lines: Vec<i32> = scan_all("1\n+\r\n\n2").iter().map(|info| info.line).collect();
    assert_eq!(lines, vec![0, 1, 3, 3]);
}

#[test]
fn string_is_on_the_line_where_it_starts() {
    let found = scan_all("\"a\nb\" c");
    assert_eq!(found[0].token, Token::String(String::from("a\nb")));
    assert_eq!(found[0].line, 0);
    assert_eq!(found[1].token, Token::Identifier(String::from("c")));
    assert_eq!(found[1].line, 1);
}

#[test]
fn end_of_input_is_given_again_when_asked_again() {
    let mut scanner = Scanner::init("  ");
    assert!(scanner.scan_token().token == Token::EOF);
    assert!(scanner.scan_token().token == Token::EOF);
}

#[test]
fn rescanning_gives_the_same_tokens() {
    let source = "(1 + 2) * 3 // done\n\"s\" != x";
    let first: Vec<(Token, i32)> = scan_all(source).into_iter().map(|i| (i.token, i.line)).collect();
    let second: Vec<(Token, i32)> = scan_all(source).into_iter().map(|i| (i.token, i.line)).collect();
    assert_eq!(first, second);
    assert_eq!(first.len(), 12);
}

#[test]
fn debug_scan_drains_the_scanner() {
    let mut scanner = Scanner::init("1 + 2;\n// note");
    let found: Vec<(Token, i32)> = scanner.debug_scan().into_iter().map(|i| (i.token, i.line)).collect();
    assert_eq!(
        found,
        vec![
            (number(1.0), 0),
            (Token::Plus, 0),
            (number(2.0), 0),
            (Token::Semicolon, 0),
            (Token::Comment(String::from(" note")), 1),
            (Token::EOF, 1),
        ]
    );
}

#[test]
fn check_keyword_knows_the_keywords_only() {
    assert_eq!(check_keyword("while"), Some(Token::While));
    assert_eq!(check_keyword("if"), Some(Token::If));
    assert_eq!(check_keyword("While"), None);
    assert_eq!(check_keyword("whil"), None);
    assert_eq!(check_keyword(""), None);
}

#[test]
fn line_count_of_an_ordinary_source_fits() {
    assert!(Scanner::line_count_fits(""));
    assert!(Scanner::line_count_fits("1 +\n2\n\n"));
}
