use rslox::chunk::OpCode;
use rslox::compiler::{
    compile, error_at, error_message_for, precedence_for_op, Parser, Precedence,
};
use rslox::scanner::Scanner;
use rslox::token::{Token, TokenInfo, TokenKind};
use rslox::value::Value;

fn at(token: Token, line: i32) -> TokenInfo {
    TokenInfo { token, line }
}

fn kind_of(info: &Option<TokenInfo>) -> Option<TokenKind> {
    info.as_ref().map(|info| info.token.kind())
}

#[test]
fn precedence_levels_are_in_order() {
    let scale = [
        Precedence::PrecNone,
        Precedence::PrecAssignment,
        Precedence::PrecOr,
        Precedence::PrecAnd,
        Precedence::PrecEquality,
        Precedence::PrecComparison,
        Precedence::PrecTerm,
        Precedence::PrecFactor,
        Precedence::PrecUnary,
        Precedence::PrecCall,
        Precedence::PrecPrimary,
    ];
    for (place, level) in scale.iter().enumerate() {
        assert_eq!(level.rank() as usize, place);
        if place + 1 < scale.len() {
            assert_eq!(level.next(), scale[place + 1]);
        }
    }
    assert_eq!(Precedence::PrecPrimary.next(), Precedence::PrecPrimary);
}

#[test]
fn operators_have_their_precedence() {
    assert_eq!(precedence_for_op(&Token::Plus), Precedence::PrecTerm);
    assert_eq!(precedence_for_op(&Token::Minus), Precedence::PrecTerm);
    assert_eq!(precedence_for_op(&Token::Star), Precedence::PrecFactor);
    assert_eq!(precedence_for_op(&Token::Slash), Precedence::PrecFactor);
    assert_eq!(precedence_for_op(&Token::LeftParen), Precedence::PrecNone);
    assert_eq!(precedence_for_op(&Token::EOF), Precedence::PrecNone);
    assert_eq!(precedence_for_op(&Token::Number(String::from("1"))), Precedence::PrecNone);
}

#[test]
fn error_location_depends_on_the_token() {
    assert_eq!(error_message_for(&at(Token::EOF, 1)), " at end");
    assert_eq!(error_message_for(&at(Token::Identifier(String::from("foo")), 1)), " at 'foo'");
    assert_eq!(error_message_for(&at(Token::String(String::from("a b")), 1)), " at 'a b'");
    assert_eq!(error_message_for(&at(Token::Number(String::from("1.5")), 1)), " at '1.5'");
    assert_eq!(error_message_for(&at(Token::Plus, 1)), "");
    assert_eq!(error_message_for(&at(Token::Error, 1)), "");
}

#[test]
fn error_carries_line_location_and_message() {
    let diagnostic = error_at(&at(Token::Identifier(String::from("x")), 12), "Expect expression.");
    assert_eq!(diagnostic.line, 12);
    assert_eq!(diagnostic.location, " at 'x'");
    assert_eq!(diagnostic.message, "Expect expression.");
}

#[test]
fn new_parser_has_seen_nothing() {
    let parser = Parser::init(Scanner::init("1 + 2"));
    assert!(parser.current.is_none());
    assert!(parser.previous.is_none());
    assert!(!parser.had_error);
    assert!(!parser.panicking);
    assert!(parser.chunk.code.is_empty());
    assert!(parser.errors.is_empty());
}

#[test]
fn advance_shifts_the_lookahead() {
    let mut parser = Parser::init(Scanner::init("1 + 2"));
    parser.advance();
    assert_eq!(kind_of(&parser.previous), None);
    assert_eq!(kind_of(&parser.current), Some(TokenKind::Number));
    parser.advance();
    assert_eq!(kind_of(&parser.previous), Some(TokenKind::Number));
    assert_eq!(kind_of(&parser.current), Some(TokenKind::Plus));
    parser.advance();
    parser.advance();
    assert_eq!(kind_of(&parser.previous), Some(TokenKind::Number));
    assert_eq!(kind_of(&parser.current), Some(TokenKind::EOF));
    parser.advance();
    assert_eq!(kind_of(&parser.previous), Some(TokenKind::EOF));
    assert_eq!(kind_of(&parser.current), Some(TokenKind::EOF));
    assert!(!parser.had_error);
}

#[test]
fn advance_passes_over_comments_and_error_tokens() {
    let mut parser = Parser::init(Scanner::init("// first\n @ # 7"));
    parser.advance();
    assert_eq!(parser.current.as_ref().map(|info| info.token.clone()), Some(Token::Number(String::from("7"))));
    assert_eq!(parser.current.as_ref().map(|info| info.line), Some(1));
    assert!(parser.had_error);
    assert!(parser.panicking);
    assert_eq!(parser.errors.len(), 1);
    assert_eq!(parser.errors[0].line, 1);
    assert_eq!(parser.errors[0].message, "Invalid token.");
}

#[test]
fn consume_moves_on_only_over_the_expected_kind() {
    let mut parser = Parser::init(Scanner::init(") x"));
    parser.advance();
    parser.consume(TokenKind::RightParen, "Expect ')'.");
    assert!(!parser.had_error);
    assert_eq!(kind_of(&parser.current), Some(TokenKind::Identifier));
    parser.consume(TokenKind::RightParen, "Expect ')'.");
    assert!(parser.had_error);
    assert_eq!(kind_of(&parser.current), Some(TokenKind::Identifier));
    assert_eq!(parser.errors.len(), 1);
    assert_eq!(parser.errors[0].location, " at 'x'");
    assert_eq!(parser.errors[0].message, "Expect ')'.");
    parser.consume(TokenKind::Plus, "Expect '+'.");
    assert_eq!(parser.errors.len(), 1);
}

#[test]
fn consume_before_any_token_sets_the_flags_only() {
    let mut parser = Parser::init(Scanner::init("1"));
    parser.consume(TokenKind::Number, "Expect number.");
    assert!(parser.had_error);
    assert!(parser.panicking);
    assert!(parser.errors.is_empty());
    assert!(parser.current.is_none());
}

#[test]
fn failed_compilation_still_ends_in_return() {
    let (chunk, ok) = compile("1 + ");
    assert!(!ok);
    assert_eq!(chunk.code, vec![OpCode::OpConstant(0), OpCode::OpAdd, OpCode::OpReturn]);
    assert_eq!(chunk.constants, vec![Value::Literal(String::from("1"))]);
    assert_eq!(chunk.current_line, None);
}

#[test]
fn only_the_first_error_is_recorded() {
    let parser = Parser::compile("(+ * ) ) 1 2");
    assert!(parser.had_error);
    assert_eq!(parser.errors.len(), 1);
    assert_eq!(parser.errors[0].location, "");
    assert_eq!(parser.errors[0].message, "Expect expression.");
}

#[test]
fn compile_keeps_the_source_of_the_parser() {
    let parser = Parser::compile("3 * (4 + 5)");
    assert!(!parser.had_error);
    assert_eq!(parser.scanner.pos, 11);
    assert_eq!(
        parser.chunk.code,
        vec![
            OpCode::OpConstant(0),
            OpCode::OpConstant(1),
            OpCode::OpConstant(2),
            OpCode::OpAdd,
            OpCode::OpMultiply,
            OpCode::OpReturn,
        ]
    );
}
