use crate::chunk::{
    depth_from, effect, lemma_clean_with_return, lemma_depth_push, runs_clean, Chunk, OpCode,
};
use crate::scanner::{scan, Scanner};
use crate::token::{Lexeme, LexemeAt, Token, TokenInfo, TokenKind};
use crate::value::{views, Number, Value};
use vstd::prelude::*;

verus! {

/// How tightly an operator binds, from loosest to tightest.
#[derive(Debug, Clone, Copy, PartialEq, Eq)]
pub enum Precedence {
    PrecNone,
    PrecAssignment,  // =
    PrecOr,  // or
    PrecAnd,  // and
    PrecEquality,  // == !=
    PrecComparison,  // < > <= >=
    PrecTerm,  // + -
    PrecFactor,  // * /
    PrecUnary,  // ! -
    PrecCall,  // . ()
    PrecPrimary,
}

impl Precedence {
    /// The place of the level on the scale, 0 for the loosest.
    pub open spec fn level(self) -> int {
        match self {
            Precedence::PrecNone => 0,
            Precedence::PrecAssignment => 1,
            Precedence::PrecOr => 2,
            Precedence::PrecAnd => 3,
            Precedence::PrecEquality => 4,
            Precedence::PrecComparison => 5,
            Precedence::PrecTerm => 6,
            Precedence::PrecFactor => 7,
            Precedence::PrecUnary => 8,
            Precedence::PrecCall => 9,
            Precedence::PrecPrimary => 10,
        }
    }

    /// The level one step tighter; the tightest stays as it is.
    pub open spec fn above(self) -> Precedence {
        match self {
            Precedence::PrecNone => Precedence::PrecAssignment,
            Precedence::PrecAssignment => Precedence::PrecOr,
            Precedence::PrecOr => Precedence::PrecAnd,
            Precedence::PrecAnd => Precedence::PrecEquality,
            Precedence::PrecEquality => Precedence::PrecComparison,
            Precedence::PrecComparison => Precedence::PrecTerm,
            Precedence::PrecTerm => Precedence::PrecFactor,
            Precedence::PrecFactor => Precedence::PrecUnary,
            Precedence::PrecUnary => Precedence::PrecCall,
            Precedence::PrecCall => Precedence::PrecPrimary,
            Precedence::PrecPrimary => Precedence::PrecPrimary,
        }
    }

    /// The place of the level on the scale.
    pub fn rank(&self) -> (rank: u8)
        ensures
            rank == self.level(),
    {
        match self {
            Precedence::PrecNone => 0,
            Precedence::PrecAssignment => 1,
            Precedence::PrecOr => 2,
            Precedence::PrecAnd => 3,
            Precedence::PrecEquality => 4,
            Precedence::PrecComparison => 5,
            Precedence::PrecTerm => 6,
            Precedence::PrecFactor => 7,
            Precedence::PrecUnary => 8,
            Precedence::PrecCall => 9,
            Precedence::PrecPrimary => 10,
        }
    }

    /// The level one step tighter.
    pub fn next(&self) -> (higher: Precedence)
        ensures
            higher == self.above(),
    {
        match self {
            Precedence::PrecNone => Precedence::PrecAssignment,
            Precedence::PrecAssignment => Precedence::PrecOr,
            Precedence::PrecOr => Precedence::PrecAnd,
            Precedence::PrecAnd => Precedence::PrecEquality,
            Precedence::PrecEquality => Precedence::PrecComparison,
            Precedence::PrecComparison => Precedence::PrecTerm,
            Precedence::PrecTerm => Precedence::PrecFactor,
            Precedence::PrecFactor => Precedence::PrecUnary,
            Precedence::PrecUnary => Precedence::PrecCall,
            Precedence::PrecCall => Precedence::PrecPrimary,
            Precedence::PrecPrimary => Precedence::PrecPrimary,
        }
    }
}

/// What a token does at the start of an expression.
#[derive(Debug, Clone, Copy, PartialEq, Eq)]
pub enum Prefix {
    /// A number literal: its value becomes a constant.
    Number,
    /// An opening parenthesis: a whole expression follows, then `)`.
    Grouping,
    /// A minus sign: the operand follows and is negated.
    Unary,
}

/// The precedence with which a token of kind `kind` joins two operands.
pub open spec fn precedence_of(kind: TokenKind) -> Precedence {
    match kind {
        TokenKind::Minus => Precedence::PrecTerm,
        TokenKind::Plus => Precedence::PrecTerm,
        TokenKind::Slash => Precedence::PrecFactor,
        TokenKind::Star => Precedence::PrecFactor,
        _ => Precedence::PrecNone,
    }
}

/// The rule by which a token of kind `kind` starts an expression, if it can.
pub open spec fn prefix_of(kind: TokenKind) -> Option<Prefix> {
    match kind {
        TokenKind::Number => Some(Prefix::Number),
        TokenKind::LeftParen => Some(Prefix::Grouping),
        TokenKind::Minus => Some(Prefix::Unary),
        _ => None,
    }
}

/// The instruction that a token of kind `kind` emits between two operands,
/// if it is a binary operator.
pub open spec fn operator_of(kind: TokenKind) -> Option<OpCode> {
    match kind {
        TokenKind::Plus => Some(OpCode::OpAdd),
        TokenKind::Minus => Some(OpCode::OpSubtract),
        TokenKind::Star => Some(OpCode::OpMultiply),
        TokenKind::Slash => Some(OpCode::OpDivide),
        _ => None,
    }
}

/// The precedence with which `op` joins two operands.
pub fn precedence_for_op(op: &Token) -> (precedence: Precedence)
    ensures
        precedence == precedence_of(op.kind()),
{
    match op {
        Token::Minus => Precedence::PrecTerm,
        Token::Plus => Precedence::PrecTerm,
        Token::Slash => Precedence::PrecFactor,
        Token::Star => Precedence::PrecFactor,
        _ => Precedence::PrecNone,
    }
}

/// The rule by which `token` starts an expression, if it can.
fn prefix_rule(token: &Token) -> (rule: Option<Prefix>)
    ensures
        rule == prefix_of(token.kind()),
{
    match token {
        Token::Number(_) => Some(Prefix::Number),
        Token::LeftParen => Some(Prefix::Grouping),
        Token::Minus => Some(Prefix::Unary),
        _ => None,
    }
}

/// The instruction that `token` emits between two operands, if it is a
/// binary operator.
fn infix_rule(token: &Token) -> (rule: Option<OpCode>)
    ensures
        rule == operator_of(token.kind()),
{
    match token {
        Token::Plus => Some(OpCode::OpAdd),
        Token::Minus => Some(OpCode::OpSubtract),
        Token::Star => Some(OpCode::OpMultiply),
        Token::Slash => Some(OpCode::OpDivide),
        _ => None,
    }
}

/// One recorded compile error.
#[derive(Debug, Clone, PartialEq, Eq)]
pub struct Diagnostic {
    /// The line of the token at which the error was found.
    pub line: i32,
    /// Where on the line: empty, ` at end`, or ` at '<text>'`.
    pub location: String,
    /// What was wrong.
    pub message: String,
}

/// A recorded compile error as contracts speak of it.
pub struct Report {
    pub line: int,
    pub location: Seq<char>,
    pub message: Seq<char>,
}

impl View for Diagnostic {
    type V = Report;

    open spec fn view(&self) -> Report {
        Report { line: self.line as int, location: self.location@, message: self.message@ }
    }
}

/// The recorded errors, each by its view.
pub open spec fn reports(errors: Seq<Diagnostic>) -> Seq<Report> {
    Seq::new(errors.len(), |i: int| errors[i]@)
}

/// Where an error at `token` is said to be: at the end for the end of
/// input, at the token's text for a name, a string or a number, and nowhere
/// in particular for any other token.
pub open spec fn location(token: Lexeme) -> Seq<char> {
    match token.kind {
        TokenKind::EOF => " at end"@,
        TokenKind::Identifier => " at '"@ + token.text + "'"@,
        TokenKind::String => " at '"@ + token.text + "'"@,
        TokenKind::Number => " at '"@ + token.text + "'"@,
        _ => ""@,
    }
}

/// The text of `text` between single quotes, after ` at `.
fn quoted(text: &String) -> (place: String)
    ensures
        place@ == " at '"@ + text@ + "'"@,
{
    let mut place = String::from_str(" at '");
    place.append(text.as_str());
    place.append("'");
    place
}

/// Where an error at `token_info` is said to be.
pub fn error_message_for(token_info: &TokenInfo) -> (place: String)
    ensures
        place@ == location(token_info.token@),
{
    match &token_info.token {
        Token::EOF => String::from_str(" at end"),
        Token::Identifier(identifier) => quoted(identifier),
        Token::String(string) => quoted(string),
        Token::Number(number) => quoted(number),
        _ => String::from_str(""),
    }
}

/// The error `message` found at `token_info`.
pub fn error_at(token_info: &TokenInfo, message: &str) -> (diagnostic: Diagnostic)
    ensures
        diagnostic@ == (Report {
            line: token_info.line as int,
            location: location(token_info.token@),
            message: message@,
        }),
{
    Diagnostic {
        line: token_info.line,
        location: error_message_for(token_info),
        message: String::from_str(message),
    }
}

/// The state of a compilation as contracts speak of it.
pub struct State {
    /// How many characters of the source have been scanned.
    pub pos: int,
    /// How many line breaks have been counted.
    pub line: int,
    /// The token being looked at, with its line.
    pub current: Option<LexemeAt>,
    /// The token consumed last, with its line.
    pub previous: Option<LexemeAt>,
    pub had_error: bool,
    pub panicking: bool,
    /// The instructions emitted so far.
    pub code: Seq<OpCode>,
    /// The source line of each of them.
    pub lines: Seq<i32>,
    /// The constant pool.
    pub constants: Seq<Number>,
    /// The errors recorded so far.
    pub errors: Seq<Report>,
}

/// A token with its line, as contracts speak of it.
pub open spec fn seen(info: Option<TokenInfo>) -> Option<LexemeAt> {
    match info {
        Some(info) => Some(info@),
        None => None,
    }
}

/// Whether the token looked at is of kind `kind`.
pub open spec fn looking_at(st: State, kind: TokenKind) -> bool {
    st.current is Some && st.current->0.token.kind == kind
}

/// How much is left to parse: the characters not yet scanned, and one more
/// while the token looked at is not the end of input.
pub open spec fn left(src: Seq<char>, st: State) -> int {
    src.len() - st.pos + if st.current is Some && st.current->0.token.kind != TokenKind::EOF {
        1int
    } else {
        0int
    }
}

/// Records an error found at `token`. While the parser is panicking the
/// error is swallowed. Otherwise both flags are set and, if there is a
/// token to report it at, the error joins the list.
pub open spec fn record(st: State, token: Option<LexemeAt>, message: Seq<char>) -> State {
    if st.panicking {
        st
    } else {
        State {
            had_error: true,
            panicking: true,
            errors: match token {
                Some(token) => st.errors.push(
                    Report { line: token.line, location: location(token.token), message },
                ),
                None => st.errors,
            },
            ..st
        }
    }
}

/// Scans on from where the scanner stands to the first token that is
/// neither an error nor a comment, which becomes the token looked at. Each
/// error token on the way is recorded; comments are dropped.
pub open spec fn next_significant(src: Seq<char>, st: State) -> State
    decreases src.len() - st.pos,
{
    let step = scan(src, st.pos, st.line);
    let moved = State { pos: step.pos, line: step.next_line, ..st };
    let skipped = step.token.kind == TokenKind::Error || step.token.kind == TokenKind::Comment;
    if skipped && st.pos < step.pos <= src.len() {
        if step.token.kind == TokenKind::Error {
            next_significant(src, record(moved, Some(LexemeAt { token: step.token, line: step.line }), "Invalid token."@))
        } else {
            next_significant(src, moved)
        }
    } else {
        State { current: Some(LexemeAt { token: step.token, line: step.line }), ..moved }
    }
}

/// Moves on by one token: the token looked at becomes the previous one,
/// and the next significant token is looked at. At the end of input the
/// scanner is not asked again.
pub open spec fn advance(src: Seq<char>, st: State) -> State {
    if looking_at(st, TokenKind::EOF) {
        State { previous: st.current, ..st }
    } else {
        next_significant(src, State { previous: st.current, current: None, ..st })
    }
}

/// Moves on if the token looked at is of kind `kind`; otherwise records
/// `message` at that token and stays.
pub open spec fn consume(src: Seq<char>, st: State, kind: TokenKind, message: Seq<char>) -> State {
    if looking_at(st, kind) {
        advance(src, st)
    } else {
        record(st, st.current, message)
    }
}

/// Appends `op`, on the line of the token consumed last. Without such a
/// token nothing is emitted.
pub open spec fn emit(st: State, op: OpCode) -> State {
    match st.previous {
        Some(previous) => State {
            code: st.code.push(op),
            lines: st.lines.push(previous.line as i32),
            ..st
        },
        None => st,
    }
}

/// Appends `value` to the pool and emits the instruction that loads it.
pub open spec fn emit_constant(st: State, value: Number) -> State {
    emit(
        State { constants: st.constants.push(value), ..st },
        OpCode::OpConstant(st.constants.len() as usize),
    )
}

/// `to` has strictly less left to parse than `from`.
pub open spec fn shrinks(src: Seq<char>, from: State, to: State) -> bool {
    0 <= left(src, to) < left(src, from)
}

/// `to` has no more left to parse than `from`.
pub open spec fn holds_back(src: Seq<char>, from: State, to: State) -> bool {
    0 <= left(src, to) <= left(src, from)
}

/// Parses one expression whose operators all bind at least as tightly as
/// `precedence`.
///
/// The parser moves on by one token, which must be able to start an
/// expression: a number emits its constant, `(` parses a whole expression
/// and asks for `)`, `-` parses an operand at unary precedence and emits the
/// negation. Any other token is the error "Expect expression.", recorded at
/// that token. After that, operators are taken in while they bind tightly
/// enough.
pub open spec fn parse_precedence(src: Seq<char>, st: State, precedence: Precedence) -> State
    decreases left(src, st),
{
    let st1 = advance(src, st);
    let rule = match st1.previous {
        Some(previous) => prefix_of(previous.token.kind),
        None => None,
    };
    match rule {
        None => record(st1, st1.previous, "Expect expression."@),
        Some(rule) => if shrinks(src, st, st1) {
            let st2 = match rule {
                Prefix::Number => emit_constant(st1, Number::Literal(st1.previous->0.token.text)),
                Prefix::Grouping => consume(
                    src,
                    parse_precedence(src, st1, Precedence::PrecAssignment),
                    TokenKind::RightParen,
                    "Expect ')' after expression."@,
                ),
                Prefix::Unary => emit(
                    parse_precedence(src, st1, Precedence::PrecUnary),
                    OpCode::OpNegate,
                ),
            };
            if holds_back(src, st1, st2) {
                parse_infix(src, st2, precedence)
            } else {
                st2
            }
        } else {
            st1
        },
    }
}

/// Takes in binary operators while the token looked at is one that binds
/// at least as tightly as `precedence`: the parser moves past the operator,
/// parses the right operand one level above the operator's own, which makes
/// the operator group to the left, and emits the operator's instruction.
pub open spec fn parse_infix(src: Seq<char>, st: State, precedence: Precedence) -> State
    decreases left(src, st),
{
    let operator = match st.current {
        Some(current) => operator_of(current.token.kind),
        None => None,
    };
    match operator {
        Some(op) if precedence.level() <= precedence_of(st.current->0.token.kind).level() => {
            let st1 = advance(src, st);
            if shrinks(src, st, st1) {
                let st2 = emit(
                    parse_precedence(src, st1, precedence_of(st.current->0.token.kind).above()),
                    op,
                );
                if holds_back(src, st1, st2) {
                    parse_infix(src, st2, precedence)
                } else {
                    st2
                }
            } else {
                st1
            }
        },
        _ => st,
    }
}

/// Both the token looked at and the token consumed last are there.
pub open spec fn ready(st: State) -> bool {
    st.current is Some && st.previous is Some
}

/// Where the instructions `before` run on an empty stack without missing
/// an operand, so do the instructions `after`, and they leave `gain`
/// values more.
pub open spec fn lifts(before: Seq<OpCode>, after: Seq<OpCode>, gain: int) -> bool {
    depth_from(before, 0, 0) is Some && depth_from(before, 0, 0)->0 >= 0 ==> depth_from(
        after,
        0,
        0,
    ) == Some(depth_from(before, 0, 0)->0 + gain)
}

/// The state in which a compilation begins: nothing scanned, nothing
/// emitted.
pub open spec fn start() -> State {
    State {
        pos: 0,
        line: 0,
        current: None,
        previous: None,
        had_error: false,
        panicking: false,
        code: Seq::empty(),
        lines: Seq::empty(),
        constants: Seq::empty(),
        errors: Seq::empty(),
    }
}

/// The state in which the compilation of `src` ends: the first token is
/// looked at, one expression is parsed, the end of input is asked for, and
/// `OpReturn` is emitted.
pub open spec fn compiled(src: Seq<char>) -> State {
    emit(
        consume(
            src,
            parse_precedence(src, advance(src, start()), Precedence::PrecAssignment),
            TokenKind::EOF,
            "Expect end of expression."@,
        ),
        OpCode::OpReturn,
    )
}

/// The state of a compilation: one token of lookahead over a scanner, the
/// error flags, and the chunk being built.
pub struct Parser {
    pub current: Option<TokenInfo>,
    pub previous: Option<TokenInfo>,
    pub scanner: Scanner,
    pub had_error: bool,
    pub panicking: bool,
    pub chunk: Chunk,
    /// The errors recorded so far, in the order in which they were found.
    pub errors: Vec<Diagnostic>,
}

impl View for Parser {
    type V = State;

    open spec fn view(&self) -> State {
        State {
            pos: self.scanner.pos as int,
            line: self.scanner.line as int,
            current: seen(self.current),
            previous: seen(self.previous),
            had_error: self.had_error,
            panicking: self.panicking,
            code: self.chunk.code@,
            lines: self.chunk.line_numbers(self.chunk.code@.len() as int),
            constants: views(self.chunk.constants@),
            errors: reports(self.errors@),
        }
    }
}

impl Parser {
    /// The scanner can go on, the chunk's line table accounts for every
    /// instruction, and every constant that an instruction loads is in the
    /// pool. A parser that panics has seen an error and has recorded at
    /// most one; one that does not panic has recorded none.
    pub open spec fn well_formed(&self) -> bool {
        &&& self.scanner.well_formed()
        &&& self.chunk.well_formed()
        &&& self.chunk.constants_in_range()
        &&& self.panicking ==> self.had_error
        &&& self.errors@.len() <= if self.panicking {
            1nat
        } else {
            0nat
        }
    }

    /// The source text that is being compiled.
    pub open spec fn source(&self) -> Seq<char> {
        self.scanner.chars@
    }

    /// How much is left to parse.
    pub open spec fn remaining(&self) -> int {
        left(self.source(), self@)
    }

    /// A parser over `scanner` that has not looked at any token yet, with an
    /// empty chunk.
    pub fn init(scanner: Scanner) -> (parser: Parser)
        requires
            scanner.well_formed(),
        ensures
            parser.scanner == scanner,
            parser.well_formed(),
            parser@ == (State {
                pos: scanner.pos as int,
                line: scanner.line as int,
                ..start()
            }),
    {
        let parser = Parser {
            current: None,
            previous: None,
            had_error: false,
            panicking: false,
            scanner,
            chunk: Chunk::init(),
            errors: Vec::new(),
        };
        proof {
            assert(parser@.constants =~= Seq::<Number>::empty());
            assert(parser@.errors =~= Seq::<Report>::empty());
            assert(parser@.lines =~= Seq::<i32>::empty());
        }
        parser
    }

    /// Moves on by one token: the token looked at becomes the previous one
    /// and the next token that is neither an error nor a comment is looked
    /// at. Error tokens on the way are recorded.
    pub fn advance(&mut self)
        requires
            old(self).well_formed(),
        ensures
            final(self).well_formed(),
            final(self).source() == old(self).source(),
            final(self)@ == advance(old(self).source(), old(self)@),
            final(self).chunk == old(self).chunk,
            final(self)@.previous == old(self)@.current,
            final(self).current is Some,
            old(self).panicking ==> final(self).panicking,
            holds_back(final(self).source(), old(self)@, final(self)@),
            old(self)@.current is Some && !looking_at(old(self)@, TokenKind::EOF) ==> shrinks(
                final(self).source(),
                old(self)@,
                final(self)@,
            ),
    {
        if let Some(TokenInfo { token: Token::EOF, line }) = &self.current {
            self.previous = Some(TokenInfo { token: Token::EOF, line: *line });
            return ;
        }
        self.previous = self.current.take();
        let ghost src = self.source();
        let ghost shifted = self@;
        loop
            invariant_except_break
                next_significant(src, self@) == next_significant(src, shifted),
                self.current is None,
            invariant
                self.well_formed(),
                self.source() == src,
                self.chunk == old(self).chunk,
                self.previous == old(self).current,
                shifted.pos <= self.scanner.pos,
                old(self).panicking ==> self.panicking,
            ensures
                self@ == next_significant(src, shifted),
                self.current is Some,
                !looking_at(self@, TokenKind::EOF) ==> shifted.pos < self.scanner.pos,
            decreases self.scanner.chars@.len() - self.scanner.pos,
        {
            let token_info = self.scanner.scan_token();
            let kind = token_info.token.kind();
            if kind == TokenKind::Error {
                let diagnostic = error_at(&token_info, "Invalid token.");
                self.record(Some(diagnostic));
            } else if kind != TokenKind::Comment {
                self.current = Some(token_info);
                break ;
            }
        }
    }

    /// Moves on if the token looked at is of kind `token_type`; otherwise
    /// records `message` at that token and stays where it is.
    pub fn consume(&mut self, token_type: TokenKind, message: &str)
        requires
            old(self).well_formed(),
        ensures
            final(self).well_formed(),
            final(self).source() == old(self).source(),
            final(self)@ == consume(old(self).source(), old(self)@, token_type, message@),
            final(self).chunk == old(self).chunk,
            old(self).panicking ==> final(self).panicking,
            ready(old(self)@) ==> ready(final(self)@),
            holds_back(final(self).source(), old(self)@, final(self)@),
    {
        let matched = match &self.current {
            Some(info) => info.token.kind() == token_type,
            None => false,
        };
        if matched {
            self.advance();
        } else {
            let diagnostic = match &self.current {
                Some(info) => Some(error_at(info, message)),
                None => None,
            };
            self.record(diagnostic);
        }
    }

    /// Records an error, unless the parser is panicking already.
    fn record(&mut self, diagnostic: Option<Diagnostic>)
        ensures
            final(self).current == old(self).current,
            final(self).previous == old(self).previous,
            final(self).scanner == old(self).scanner,
            final(self).chunk == old(self).chunk,
            old(self).panicking ==> *final(self) == *old(self),
            final(self).panicking ==> final(self).had_error || old(self).panicking,
            final(self).errors@.len() <= old(self).errors@.len() + if old(self).panicking {
                0nat
            } else {
                1nat
            },
            !old(self).panicking ==> {
                &&& final(self).had_error
                &&& final(self).panicking
                &&& reports(final(self).errors@) == match diagnostic {
                    Some(diagnostic) => reports(old(self).errors@).push(diagnostic@),
                    None => reports(old(self).errors@),
                }
            },
    {
        if !self.panicking {
            self.had_error();
            if let Some(diagnostic) = diagnostic {
                self.errors.push(diagnostic);
                assert(reports(self.errors@) =~= reports(old(self).errors@).push(diagnostic@));
            }
        }
    }

    /// Sets the error flag for good and starts panicking.
    fn had_error(&mut self)
        ensures
            *final(self) == (Parser { had_error: true, panicking: true, ..*old(self) }),
    {
        self.had_error = true;
        self.panicking = true;
    }

    /// Appends `op_code` to the chunk, on the line of the token consumed
    /// last. Without such a token nothing is emitted.
    fn emit_byte(&mut self, op_code: OpCode)
        requires
            old(self).well_formed(),
            op_code matches OpCode::OpConstant(index) ==> index < old(self).chunk.constants@.len(),
        ensures
            final(self).well_formed(),
            final(self).source() == old(self).source(),
            final(self)@ == emit(old(self)@, op_code),
            final(self).chunk.constants@ == old(self).chunk.constants@,
            old(self).previous is Some ==> depth_from(final(self).chunk.code@, 0, 0)
                == match depth_from(old(self).chunk.code@, 0, 0) {
                Some(reached) => effect(op_code, reached),
                None => None,
            },
    {
        let line = match &self.previous {
            Some(prev) => Some(prev.line),
            None => None,
        };
        if let Some(line) = line {
            proof {
                lemma_depth_push(self.chunk.code@, 0, 0, op_code);
            }
            self.chunk.write(op_code, line);
            assert(self.chunk.constants_in_range()) by {
                assert forall|i: int| 0 <= i < self.chunk.code@.len() implies match #[trigger] self.chunk.code@[i] {
                    OpCode::OpConstant(index) => index < self.chunk.constants@.len(),
                    _ => true,
                } by {
                    if i < old(self).chunk.code@.len() {
                        assert(self.chunk.code@[i] == old(self).chunk.code@[i]);
                    }
                }
            }
        }
    }

    /// Emits the trailing `OpReturn` and closes the line table.
    fn end_compilation(&mut self)
        requires
            old(self).well_formed(),
        ensures
            final(self).well_formed(),
            final(self).source() == old(self).source(),
            final(self)@ == emit(old(self)@, OpCode::OpReturn),
            final(self).chunk.current_line is None,
            old(self).previous is Some && depth_from(old(self).chunk.code@, 0, 0) is Some
                ==> runs_clean(final(self).chunk.code@, 0, 0),
    {
        proof {
            if depth_from(self.chunk.code@, 0, 0) is Some {
                lemma_clean_with_return(self.chunk.code@, 0, 0);
            }
        }
        self.emit_return();
        self.chunk.end_line_parsing();
    }

    /// Emits `OpReturn`.
    fn emit_return(&mut self)
        requires
            old(self).well_formed(),
        ensures
            final(self).well_formed(),
            final(self).source() == old(self).source(),
            final(self)@ == emit(old(self)@, OpCode::OpReturn),
    {
        self.emit_byte(OpCode::OpReturn);
    }

    /// Appends `value` to the pool and emits the instruction that loads it.
    fn emit_constant(&mut self, value: Value)
        requires
            old(self).well_formed(),
        ensures
            final(self).well_formed(),
            final(self).source() == old(self).source(),
            final(self)@ == emit_constant(old(self)@, value@),
            old(self).previous is Some ==> lifts(
                old(self).chunk.code@,
                final(self).chunk.code@,
                1,
            ),
    {
        let index = self.chunk.add_constant(value);
        proof {
            assert(views(self.chunk.constants@) =~= views(old(self).chunk.constants@).push(value@));
            assert(self.chunk.constants_in_range()) by {
                assert forall|i: int| 0 <= i < self.chunk.code@.len() implies match #[trigger] self.chunk.code@[i] {
                    OpCode::OpConstant(index) => index < self.chunk.constants@.len(),
                    _ => true,
                } by {
                    assert(self.chunk.code@[i] == old(self).chunk.code@[i]);
                }
            }
        }
        self.emit_byte(OpCode::OpConstant(index));
    }

    /// Parses one expression of any precedence.
    fn expression(&mut self)
        requires
            old(self).well_formed(),
        ensures
            final(self).well_formed(),
            final(self).source() == old(self).source(),
            final(self)@ == parse_precedence(
                old(self).source(),
                old(self)@,
                Precedence::PrecAssignment,
            ),
            holds_back(final(self).source(), old(self)@, final(self)@),
            old(self).panicking ==> final(self).panicking,
            !final(self).panicking ==> ready(final(self)@) && lifts(
                old(self).chunk.code@,
                final(self).chunk.code@,
                1,
            ),
        decreases old(self).remaining(), 1int,
    {
        self.parse_precedence(Precedence::PrecAssignment);
    }

    /// The number just consumed becomes a constant.
    fn number(&mut self)
        requires
            old(self).well_formed(),
            old(self).previous is Some,
            old(self)@.previous->0.token.kind == TokenKind::Number,
        ensures
            final(self).well_formed(),
            final(self).source() == old(self).source(),
            final(self)@ == emit_constant(
                old(self)@,
                Number::Literal(old(self)@.previous->0.token.text),
            ),
            holds_back(final(self).source(), old(self)@, final(self)@),
            final(self).panicking == old(self).panicking,
            ready(old(self)@) ==> ready(final(self)@),
            lifts(old(self).chunk.code@, final(self).chunk.code@, 1),
    {
        let text = match &self.previous {
            Some(TokenInfo { token: Token::Number(text), .. }) => text.clone(),
            _ => String::new(),
        };
        self.emit_constant(Value::Literal(text));
    }

    /// An expression in parentheses; the opening one has been consumed.
    fn grouping(&mut self)
        requires
            old(self).well_formed(),
        ensures
            final(self).well_formed(),
            final(self).source() == old(self).source(),
            final(self)@ == consume(
                old(self).source(),
                parse_precedence(old(self).source(), old(self)@, Precedence::PrecAssignment),
                TokenKind::RightParen,
                "Expect ')' after expression."@,
            ),
            holds_back(final(self).source(), old(self)@, final(self)@),
            old(self).panicking ==> final(self).panicking,
            !final(self).panicking ==> ready(final(self)@) && lifts(
                old(self).chunk.code@,
                final(self).chunk.code@,
                1,
            ),
        decreases old(self).remaining(), 2int,
    {
        self.expression();
        self.consume(TokenKind::RightParen, "Expect ')' after expression.");
    }

    /// A negation; the minus sign has been consumed.
    fn unary(&mut self)
        requires
            old(self).well_formed(),
        ensures
            final(self).well_formed(),
            final(self).source() == old(self).source(),
            final(self)@ == emit(
                parse_precedence(old(self).source(), old(self)@, Precedence::PrecUnary),
                OpCode::OpNegate,
            ),
            holds_back(final(self).source(), old(self)@, final(self)@),
            old(self).panicking ==> final(self).panicking,
            !final(self).panicking ==> ready(final(self)@) && lifts(
                old(self).chunk.code@,
                final(self).chunk.code@,
                1,
            ),
        decreases old(self).remaining(), 2int,
    {
        self.parse_precedence(Precedence::PrecUnary);
        self.emit_byte(OpCode::OpNegate);
    }

    /// The right operand of the binary operator just consumed, and the
    /// operator's instruction after it.
    fn binary(&mut self)
        requires
            old(self).well_formed(),
            old(self).previous is Some,
            operator_of(old(self)@.previous->0.token.kind) is Some,
        ensures
            final(self).well_formed(),
            final(self).source() == old(self).source(),
            final(self)@ == emit(
                parse_precedence(
                    old(self).source(),
                    old(self)@,
                    precedence_of(old(self)@.previous->0.token.kind).above(),
                ),
                operator_of(old(self)@.previous->0.token.kind)->0,
            ),
            holds_back(final(self).source(), old(self)@, final(self)@),
            old(self).panicking ==> final(self).panicking,
            !final(self).panicking ==> ready(final(self)@),
            !final(self).panicking && depth_from(old(self).chunk.code@, 0, 0) is Some
                && depth_from(old(self).chunk.code@, 0, 0)->0 >= 1 ==> depth_from(
                final(self).chunk.code@,
                0,
                0,
            ) == depth_from(old(self).chunk.code@, 0, 0),
        decreases old(self).remaining(), 2int,
    {
        let rule = match &self.previous {
            Some(info) => Some((infix_rule(&info.token), precedence_for_op(&info.token))),
            None => None,
        };
        if let Some((Some(op), precedence)) = rule {
            self.parse_precedence(precedence.next());
            self.emit_byte(op);
        }
    }

    /// Parses one expression whose operators all bind at least as tightly
    /// as `precedence`.
    fn parse_precedence(&mut self, precedence: Precedence)
        requires
            old(self).well_formed(),
        ensures
            final(self).well_formed(),
            final(self).source() == old(self).source(),
            final(self)@ == parse_precedence(old(self).source(), old(self)@, precedence),
            holds_back(final(self).source(), old(self)@, final(self)@),
            old(self).panicking ==> final(self).panicking,
            !final(self).panicking ==> ready(final(self)@) && lifts(
                old(self).chunk.code@,
                final(self).chunk.code@,
                1,
            ),
        decreases old(self).remaining(), 0int,
    {
        let ghost src = self.source();
        self.advance();
        let ghost st1 = self@;
        let rule = match &self.previous {
            Some(info) => prefix_rule(&info.token),
            None => None,
        };
        match rule {
            None => {
                let diagnostic = match &self.previous {
                    Some(info) => Some(error_at(info, "Expect expression.")),
                    None => None,
                };
                self.record(diagnostic);
                return ;
            },
            Some(Prefix::Number) => {
                self.number();
            },
            Some(Prefix::Grouping) => {
                self.grouping();
            },
            Some(Prefix::Unary) => {
                self.unary();
            },
        }
        let ghost st2 = self@;
        loop
            invariant_except_break
                parse_infix(src, self@, precedence) == parse_infix(src, st2, precedence),
            invariant
                self.well_formed(),
                self.source() == src,
                holds_back(src, st1, self@),
                shrinks(src, old(self)@, st1),
                src == old(self).source(),
                old(self).panicking ==> self.panicking,
                !self.panicking ==> ready(self@) && lifts(
                    old(self).chunk.code@,
                    self.chunk.code@,
                    1,
                ),
            ensures
                self@ == parse_infix(src, st2, precedence),
                self.well_formed(),
                self.source() == src,
                holds_back(src, st1, self@),
                old(self).panicking ==> self.panicking,
                !self.panicking ==> ready(self@) && lifts(
                    old(self).chunk.code@,
                    self.chunk.code@,
                    1,
                ),
            decreases self.remaining(),
        {
            let proceed = match &self.current {
                Some(info) => match infix_rule(&info.token) {
                    Some(_) => precedence.rank() <= precedence_for_op(&info.token).rank(),
                    None => false,
                },
                None => false,
            };
            if !proceed {
                break ;
            }
            self.advance();
            self.binary();
        }
    }

    /// Compiles `source` and returns the parser as it stands at the end,
    /// with the chunk, the error flag and the recorded errors.
    pub fn compile(source: &str) -> (parser: Parser)
        requires
            crate::scanner::newlines(source@, 0, source@.len() as int) <= i32::MAX,
        ensures
            parser.well_formed(),
            parser.chunk.current_line is None,
            parser.source() == source@,
            parser@ == compiled(source@),
            !parser.had_error ==> runs_clean(parser.chunk.code@, 0, 0),
            parser.errors@.len() <= 1,
    {
        let scanner = Scanner::init(source);
        let mut parser = Parser::init(scanner);
        parser.advance();
        parser.expression();
        parser.consume(TokenKind::EOF, "Expect end of expression.");
        parser.end_compilation();
        parser
    }
}

/// Compiles `source` into a chunk. The flag says whether the source was a
/// well-formed expression; a chunk that comes with `false` is for
/// inspection only and is not to be run.
pub fn compile(source: &str) -> (result: (Chunk, bool))
    requires
        crate::scanner::newlines(source@, 0, source@.len() as int) <= i32::MAX,
    ensures
        ({
            let (chunk, ok) = result;
            &&& ok == !compiled(source@).had_error
            &&& chunk.code@ == compiled(source@).code
            &&& views(chunk.constants@) == compiled(source@).constants
            &&& chunk.line_numbers(chunk.code@.len() as int) == compiled(source@).lines
            &&& chunk.current_line is None
            &&& chunk.well_formed()
            &&& chunk.constants_in_range()
            &&& ok ==> runs_clean(chunk.code@, 0, 0)
        }),
{
    let parser = Parser::compile(source);
    (parser.chunk, !parser.had_error)
}

} // verus!
