use crate::token::{
    check_keyword, keyword, plain, Lexeme, LexemeAt, Token, TokenInfo, TokenKind,
};
use vstd::prelude::*;

verus! {

/// The kinds of character that the scanner consumes in runs.
pub enum CharClass {
    /// Blanks, tabs, carriage returns and line breaks.
    Space,
    /// The decimal digits.
    Digit,
    /// What may stand in a name: letters and decimal digits.
    Word,
    /// What may stand inside a string literal: anything but the quote.
    StringBody,
    /// What may stand inside a line comment: anything but the line break.
    CommentBody,
}

/// Whether `c` is alphabetic, as `char::is_alphabetic` decides it.
pub uninterp spec fn alphabetic(c: char) -> bool;

/// Whether `c` is one of the decimal digits `0` to `9`.
pub open spec fn is_digit(c: char) -> bool {
    '0' <= c && c <= '9'
}

/// Whether `c` belongs to `class`.
pub open spec fn belongs(class: CharClass, c: char) -> bool {
    match class {
        CharClass::Space => c == ' ' || c == '\r' || c == '\t' || c == '\n',
        CharClass::Digit => is_digit(c),
        CharClass::Word => alphabetic(c) || is_digit(c),
        CharClass::StringBody => c != '"',
        CharClass::CommentBody => c != '\n',
    }
}

/// The end of the longest run of characters of `class` that starts at
/// `from`: the position of the first character at or after `from` that is
/// not of the class, or the end of the text.
pub open spec fn run_end(s: Seq<char>, from: int, class: CharClass) -> int
    decreases s.len() - from,
{
    if 0 <= from < s.len() && belongs(class, s[from]) {
        run_end(s, from + 1, class)
    } else {
        from
    }
}

/// How many line breaks stand in `s` from position `from` up to, and not
/// including, position `to`.
pub open spec fn newlines(s: Seq<char>, from: int, to: int) -> int
    decreases to - from,
{
    if from < 0 || to <= from || to > s.len() {
        0
    } else {
        newlines(s, from, to - 1) + if s[to - 1] == '\n' {
            1int
        } else {
            0int
        }
    }
}

/// One step of scanning: the token found, the line it is on, and where the
/// scanner stands after it.
pub struct Scan {
    pub token: Lexeme,
    /// The line on which the token starts.
    pub line: int,
    /// The position just past the token.
    pub pos: int,
    /// The line count at that position.
    pub next_line: int,
}

/// A name or a keyword that starts at `p`.
pub open spec fn scan_word(s: Seq<char>, p: int, line: int) -> Scan {
    let end = run_end(s, p, CharClass::Word);
    let text = s.subrange(p, end);
    let token = match keyword(text) {
        Some(kind) => plain(kind),
        None => Lexeme { kind: TokenKind::Identifier, text },
    };
    Scan { token, line, pos: end, next_line: line }
}

/// A number that starts at `p`: digits, then a dot if one follows, then
/// digits again.
pub open spec fn scan_number(s: Seq<char>, p: int, line: int) -> Scan {
    let whole = run_end(s, p, CharClass::Digit);
    let dot = if whole < s.len() && s[whole] == '.' {
        whole + 1
    } else {
        whole
    };
    let end = run_end(s, dot, CharClass::Digit);
    Scan {
        token: Lexeme { kind: TokenKind::Number, text: s.subrange(p, end) },
        line,
        pos: end,
        next_line: line,
    }
}

/// A string literal whose opening quote stands at `p`. Without a closing
/// quote the rest of the text is consumed and the token is an error.
pub open spec fn scan_string(s: Seq<char>, p: int, line: int) -> Scan {
    let end = run_end(s, p + 1, CharClass::StringBody);
    let next_line = line + newlines(s, p + 1, end);
    if end >= s.len() {
        Scan { token: plain(TokenKind::Error), line, pos: end, next_line }
    } else {
        Scan {
            token: Lexeme { kind: TokenKind::String, text: s.subrange(p + 1, end) },
            line,
            pos: end + 1,
            next_line,
        }
    }
}

/// A token of one character at `p`, or of two if `=` follows.
pub open spec fn scan_pair(
    s: Seq<char>,
    p: int,
    line: int,
    single: TokenKind,
    double: TokenKind,
) -> Scan {
    if p + 1 < s.len() && s[p + 1] == '=' {
        Scan { token: plain(double), line, pos: p + 2, next_line: line }
    } else {
        Scan { token: plain(single), line, pos: p + 1, next_line: line }
    }
}

/// A slash at `p`: a line comment up to the next line break if a second
/// slash follows, else the division sign.
pub open spec fn scan_slash(s: Seq<char>, p: int, line: int) -> Scan {
    if p + 1 < s.len() && s[p + 1] == '/' {
        let end = run_end(s, p + 2, CharClass::CommentBody);
        Scan {
            token: Lexeme { kind: TokenKind::Comment, text: s.subrange(p + 2, end) },
            line,
            pos: end,
            next_line: line,
        }
    } else {
        Scan { token: plain(TokenKind::Slash), line, pos: p + 1, next_line: line }
    }
}

/// The kind of the token that the single character `c` makes, if it makes
/// one by itself.
pub open spec fn punctuation(c: char) -> Option<TokenKind> {
    if c == '(' {
        Some(TokenKind::LeftParen)
    } else if c == ')' {
        Some(TokenKind::RightParen)
    } else if c == '{' {
        Some(TokenKind::LeftBrace)
    } else if c == '}' {
        Some(TokenKind::RightBrace)
    } else if c == ';' {
        Some(TokenKind::Semicolon)
    } else if c == ',' {
        Some(TokenKind::Comma)
    } else if c == '.' {
        Some(TokenKind::Dot)
    } else if c == '-' {
        Some(TokenKind::Minus)
    } else if c == '+' {
        Some(TokenKind::Plus)
    } else if c == '*' {
        Some(TokenKind::Star)
    } else {
        None
    }
}

/// A token that starts at `p` with a character that is neither a letter nor
/// a digit.
pub open spec fn scan_symbol(s: Seq<char>, p: int, line: int) -> Scan {
    let c = s[p];
    if punctuation(c) is Some {
        Scan { token: plain(punctuation(c)->0), line, pos: p + 1, next_line: line }
    } else if c == '/' {
        scan_slash(s, p, line)
    } else if c == '!' {
        scan_pair(s, p, line, TokenKind::Bang, TokenKind::BangEqual)
    } else if c == '=' {
        scan_pair(s, p, line, TokenKind::Equal, TokenKind::EqualEqual)
    } else if c == '<' {
        scan_pair(s, p, line, TokenKind::Less, TokenKind::LessEqual)
    } else if c == '>' {
        scan_pair(s, p, line, TokenKind::Greater, TokenKind::GreaterEqual)
    } else if c == '"' {
        scan_string(s, p, line)
    } else {
        Scan { token: plain(TokenKind::Error), line, pos: p + 1, next_line: line }
    }
}

/// The next token of `s` for a scanner that stands at `pos` and has counted
/// `line` line breaks: white space is passed over, counting its line breaks,
/// and the token is read from the first character after it.
pub open spec fn scan(s: Seq<char>, pos: int, line: int) -> Scan {
    let p = run_end(s, pos, CharClass::Space);
    let l = line + newlines(s, pos, p);
    if p >= s.len() {
        Scan { token: plain(TokenKind::EOF), line: l, pos: p, next_line: l }
    } else if alphabetic(s[p]) {
        scan_word(s, p, l)
    } else if is_digit(s[p]) {
        scan_number(s, p, l)
    } else {
        scan_symbol(s, p, l)
    }
}

/// The tokens that scanning `s` from `pos` yields, each with its line, up
/// to and including the first end-of-input token.
pub open spec fn tokens(s: Seq<char>, pos: int, line: int) -> Seq<LexemeAt>
    decreases s.len() - pos,
{
    let step = scan(s, pos, line);
    if step.token.kind == TokenKind::EOF || !(pos < step.pos <= s.len()) {
        seq![LexemeAt { token: step.token, line: step.line }]
    } else {
        seq![LexemeAt { token: step.token, line: step.line }] + tokens(s, step.pos, step.next_line)
    }
}

/// A run ends at or after its start and within the text.
pub proof fn lemma_run_end_bounds(s: Seq<char>, from: int, class: CharClass)
    requires
        0 <= from <= s.len(),
    ensures
        from <= run_end(s, from, class) <= s.len(),
        run_end(s, from, class) < s.len() ==> !belongs(class, s[run_end(s, from, class)]),
    decreases s.len() - from,
{
    if from < s.len() && belongs(class, s[from]) {
        lemma_run_end_bounds(s, from + 1, class);
    }
}

/// Line breaks are counted piece by piece.
pub proof fn lemma_newlines_split(s: Seq<char>, from: int, mid: int, to: int)
    requires
        0 <= from <= mid <= to <= s.len(),
    ensures
        newlines(s, from, to) == newlines(s, from, mid) + newlines(s, mid, to),
        newlines(s, from, mid) >= 0,
        newlines(s, mid, to) >= 0,
    decreases to - from,
{
    if mid < to {
        lemma_newlines_split(s, from, mid, to - 1);
    } else if from < mid {
        lemma_newlines_split(s, from, mid - 1, mid - 1);
    }
}

/// Every token but the end of input consumes at least one character, and no
/// token reaches past the end of the text.
pub proof fn lemma_scan_progress(s: Seq<char>, pos: int, line: int)
    requires
        0 <= pos <= s.len(),
    ensures
        pos <= scan(s, pos, line).pos <= s.len(),
        scan(s, pos, line).token.kind != TokenKind::EOF ==> pos < scan(s, pos, line).pos,
        scan(s, pos, line).token.kind == TokenKind::EOF ==> scan(s, pos, line).pos == s.len(),
{
    let p = run_end(s, pos, CharClass::Space);
    lemma_run_end_bounds(s, pos, CharClass::Space);
    if p < s.len() {
        lemma_run_end_bounds(s, p, CharClass::Word);
        lemma_run_end_bounds(s, p, CharClass::Digit);
        let whole = run_end(s, p, CharClass::Digit);
        let dot = if whole < s.len() && s[whole] == '.' {
            whole + 1
        } else {
            whole
        };
        lemma_run_end_bounds(s, dot, CharClass::Digit);
        lemma_run_end_bounds(s, p + 1, CharClass::StringBody);
        if p + 1 < s.len() {
            lemma_run_end_bounds(s, p + 2, CharClass::CommentBody);
        }
    }
}

/// Scanning ends exactly once: the tokens from any place in a text are
/// finitely many, the last of them is the end of input, and none before it
/// is.
pub proof fn lemma_tokens_end_once(s: Seq<char>, pos: int, line: int)
    requires
        0 <= pos <= s.len(),
    ensures
        tokens(s, pos, line).len() >= 1,
        tokens(s, pos, line).last().token.kind == TokenKind::EOF,
        forall|i: int|
            0 <= i < tokens(s, pos, line).len() - 1 ==> (#[trigger] tokens(
                s,
                pos,
                line,
            )[i]).token.kind != TokenKind::EOF,
    decreases s.len() - pos,
{
    let step = scan(s, pos, line);
    lemma_scan_progress(s, pos, line);
    if step.token.kind != TokenKind::EOF {
        lemma_tokens_end_once(s, step.pos, step.next_line);
        let first = seq![LexemeAt { token: step.token, line: step.line }];
        let rest = tokens(s, step.pos, step.next_line);
        assert(tokens(s, pos, line) == first + rest);
        assert forall|i: int| 0 <= i < tokens(s, pos, line).len() - 1 implies (#[trigger] tokens(
            s,
            pos,
            line,
        )[i]).token.kind != TokenKind::EOF by {
            if i > 0 {
                assert(tokens(s, pos, line)[i] == rest[i - 1]);
            }
        }
    }
}

/// A cursor over the characters of a source text.
pub struct Scanner {
    /// The source, one character per element.
    pub chars: Vec<char>,
    /// How many characters have been consumed.
    pub pos: usize,
    /// How many line breaks have been counted.
    pub line: i32,
}

/// `char::is_alphabetic`: whether `c` has the Unicode property Alphabetic.
/// The property is a table of the Unicode standard; the contract gives the
/// answer a name and claims only that it depends on `c` alone.
#[verifier::external_body]
fn is_alphabetic(c: char) -> (yes: bool)
    ensures
        yes == alphabetic(c),
{
    c.is_alphabetic()
}

/// Whether `c` is a decimal digit.
fn is_ascii_digit(c: char) -> (yes: bool)
    ensures
        yes == is_digit(c),
{
    '0' <= c && c <= '9'
}

/// Whether `c` may stand in a name.
fn is_word_char(c: char) -> (yes: bool)
    ensures
        yes == belongs(CharClass::Word, c),
{
    is_alphabetic(c) || is_ascii_digit(c)
}

impl Scanner {
    /// The cursor lies within the text, and counting the line breaks that
    /// are still ahead will not overflow the line counter.
    pub open spec fn well_formed(&self) -> bool {
        &&& self.pos <= self.chars@.len()
        &&& self.line + newlines(self.chars@, self.pos as int, self.chars@.len() as int)
            <= i32::MAX
    }

    /// What the next call of `scan_token` finds.
    pub open spec fn next(&self) -> Scan {
        scan(self.chars@, self.pos as int, self.line as int)
    }

    /// The tokens, each with its line, that are still to come, up to and
    /// including the end of input.
    pub open spec fn remaining(&self) -> Seq<LexemeAt> {
        tokens(self.chars@, self.pos as int, self.line as int)
    }

    /// Whether `source` has few enough line breaks for the line counter,
    /// which is what a scanner needs to start on it.
    pub fn line_count_fits(source: &str) -> (fits: bool)
        ensures
            fits == (newlines(source@, 0, source@.len() as int) <= i32::MAX),
    {
        let limit: u64 = 0x8000_0000;
        let mut count: u64 = 0;
        for c in it: source.chars()
            invariant
                it.seq() == source@,
                limit == 0x8000_0000,
                count <= limit,
                count == if newlines(source@, 0, it.index() as int) < limit {
                    newlines(source@, 0, it.index() as int)
                } else {
                    limit as int
                },
        {
            proof {
                lemma_newlines_split(source@, 0, it.index() as int, it.index() + 1);
                assert(newlines(source@, it.index() as int, it.index() as int) == 0);
            }
            if c == '\n' && count < limit {
                count += 1;
            }
        }
        count < limit
    }

    /// A scanner at the start of `source`, on line 0.
    pub fn init(source: &str) -> (scanner: Scanner)
        requires
            newlines(source@, 0, source@.len() as int) <= i32::MAX,
        ensures
            scanner.chars@ == source@,
            scanner.pos == 0,
            scanner.line == 0,
            scanner.well_formed(),
    {
        let mut chars: Vec<char> = Vec::new();
        for c in it: source.chars()
            invariant
                it.seq() == source@,
                chars@ == it.seq().subrange(0, it.index() as int),
        {
            chars.push(c);
        }
        Scanner { chars, pos: 0, line: 0 }
    }

    /// Scans the next token. At the end of the text this is the
    /// end-of-input token, however often it is asked for.
    pub fn scan_token(&mut self) -> (info: TokenInfo)
        requires
            old(self).well_formed(),
        ensures
            final(self).chars@ == old(self).chars@,
            info.token@ == old(self).next().token,
            info.line == old(self).next().line,
            final(self).pos == old(self).next().pos,
            final(self).line == old(self).next().next_line,
            final(self).well_formed(),
            old(self).pos <= final(self).pos,
            info.token.kind() != TokenKind::EOF ==> old(self).pos < final(self).pos,
    {
        proof {
            lemma_scan_progress(self.chars@, self.pos as int, self.line as int);
        }
        self.skip_whitespace();

        if self.is_at_end() {
            return self.create_token(Token::EOF);
        }
        if self.peek_satisfies(is_alphabetic) {
            return self.identifier();
        }
        if self.peek_satisfies(is_ascii_digit) {
            return self.number();
        }
        let c = self.chars[self.pos];
        match c {
            '(' => {
                self.advance();
                self.create_token(Token::LeftParen)
            },
            ')' => {
                self.advance();
                self.create_token(Token::RightParen)
            },
            '{' => {
                self.advance();
                self.create_token(Token::LeftBrace)
            },
            '}' => {
                self.advance();
                self.create_token(Token::RightBrace)
            },
            ';' => {
                self.advance();
                self.create_token(Token::Semicolon)
            },
            ',' => {
                self.advance();
                self.create_token(Token::Comma)
            },
            '.' => {
                self.advance();
                self.create_token(Token::Dot)
            },
            '-' => {
                self.advance();
                self.create_token(Token::Minus)
            },
            '+' => {
                self.advance();
                self.create_token(Token::Plus)
            },
            '*' => {
                self.advance();
                self.create_token(Token::Star)
            },
            '/' => {
                self.advance();
                if self.peek_eq('/') {
                    // a second slash starts a comment
                    self.advance();
                    self.comment()
                } else {
                    self.create_token(Token::Slash)
                }
            },
            '!' => {
                self.advance();
                let has_double_equal = self.matches('=');
                self.create_token(
                    if has_double_equal {
                        Token::BangEqual
                    } else {
                        Token::Bang
                    },
                )
            },
            '=' => {
                self.advance();
                let has_double_equal = self.matches('=');
                self.create_token(
                    if has_double_equal {
                        Token::EqualEqual
                    } else {
                        Token::Equal
                    },
                )
            },
            '<' => {
                self.advance();
                let has_double_equal = self.matches('=');
                self.create_token(
                    if has_double_equal {
                        Token::LessEqual
                    } else {
                        Token::Less
                    },
                )
            },
            '>' => {
                self.advance();
                let has_double_equal = self.matches('=');
                self.create_token(
                    if has_double_equal {
                        Token::GreaterEqual
                    } else {
                        Token::Greater
                    },
                )
            },
            '"' => {
                self.advance();
                self.string()
            },
            _ => {
                self.advance();
                self.create_token(Token::Error)
            },
        }
    }

    /// Scans every token that is still to come, up to and including the end
    /// of input, and returns them in order.
    pub fn debug_scan(&mut self) -> (found: Vec<TokenInfo>)
        requires
            old(self).well_formed(),
        ensures
            final(self).chars@ == old(self).chars@,
            final(self).pos == final(self).chars@.len(),
            final(self).well_formed(),
            found@.len() == old(self).remaining().len(),
            forall|i: int| 0 <= i < found@.len() ==> (#[trigger] found@[i])@ == old(self).remaining()[i],
    {
        let mut found: Vec<TokenInfo> = Vec::new();
        loop
            invariant_except_break
                old(self).remaining() =~= Seq::new(
                    found@.len(),
                    |i: int| found@[i]@,
                ) + self.remaining(),
            invariant
                self.chars@ == old(self).chars@,
                self.well_formed(),
            ensures
                self.chars@ == old(self).chars@,
                self.pos == self.chars@.len(),
                self.well_formed(),
                old(self).remaining() =~= Seq::new(
                    found@.len(),
                    |i: int| found@[i]@,
                ),
            decreases self.chars@.len() - self.pos,
        {
            let ghost before = Seq::new(
                found@.len(),
                |i: int| found@[i]@,
            );
            let ghost rest = self.remaining();
            let token_info = self.scan_token();
            let done = token_info.token.kind() == TokenKind::EOF;
            let ghost entry = token_info@;
            found.push(token_info);
            proof {
                let after = Seq::new(
                    found@.len(),
                    |i: int| found@[i]@,
                );
                assert(after =~= before.push(entry));
                if done {
                    assert(rest =~= seq![entry]);
                } else {
                    assert(rest =~= seq![entry] + self.remaining());
                }
            }
            if done {
                break;
            }
        }
        found
    }

    /// Provides one character of consume-if-matching lookahead.
    fn matches(&mut self, c: char) -> (matched: bool)
        requires
            old(self).well_formed(),
        ensures
            final(self).chars@ == old(self).chars@,
            final(self).line == old(self).line,
            matched == (old(self).pos < old(self).chars@.len() && old(self).chars@[old(
                self,
            ).pos as int] == c),
            final(self).pos == if matched {
                old(self).pos + 1
            } else {
                old(self).pos as int
            },
            final(self).well_formed(),
    {
        if let Some(t) = self.peek() {
            if t == c {
                self.advance();
                return true;
            }
        }
        false
    }

    /// Consumes one character, if one is left.
    fn advance(&mut self)
        requires
            old(self).well_formed(),
        ensures
            final(self).chars@ == old(self).chars@,
            final(self).line == old(self).line,
            final(self).pos == if old(self).pos < old(self).chars@.len() {
                old(self).pos + 1
            } else {
                old(self).pos as int
            },
            final(self).well_formed(),
    {
        if self.pos < self.chars.len() {
            proof {
                lemma_newlines_split(
                    self.chars@,
                    self.pos as int,
                    self.pos + 1,
                    self.chars@.len() as int,
                );
            }
            self.pos += 1;
        }
    }

    /// One character of lookahead.
    fn peek(&self) -> (c: Option<char>)
        ensures
            c == if self.pos < self.chars@.len() {
                Some(self.chars@[self.pos as int])
            } else {
                None
            },
    {
        if self.pos < self.chars.len() {
            Some(self.chars[self.pos])
        } else {
            None
        }
    }

    /// Whether the next character is `c`.
    fn peek_eq(&self, c: char) -> (same: bool)
        ensures
            same == (self.pos < self.chars@.len() && self.chars@[self.pos as int] == c),
    {
        match self.peek() {
            Some(p) => p == c,
            None => false,
        }
    }

    /// Whether the next character passes a supplied predicate, without
    /// taking it out.
    fn peek_satisfies(&self, test: impl Fn(char) -> bool) -> (passed: bool)
        requires
            forall|c: char| call_requires(test, (c,)),
        ensures
            self.pos < self.chars@.len() ==> call_ensures(
                test,
                (self.chars@[self.pos as int],),
                passed,
            ),
            self.pos >= self.chars@.len() ==> !passed,
    {
        match self.peek() {
            Some(c) => test(c),
            None => false,
        }
    }

    /// Passes over white space, counting the line breaks in it.
    fn skip_whitespace(&mut self)
        requires
            old(self).well_formed(),
        ensures
            final(self).chars@ == old(self).chars@,
            final(self).pos == run_end(old(self).chars@, old(self).pos as int, CharClass::Space),
            final(self).line == old(self).line + newlines(
                old(self).chars@,
                old(self).pos as int,
                final(self).pos as int,
            ),
            final(self).well_formed(),
    {
        loop
            invariant
                self.chars@ == old(self).chars@,
                old(self).pos <= self.pos,
                self.well_formed(),
                self.line == old(self).line + newlines(
                    self.chars@,
                    old(self).pos as int,
                    self.pos as int,
                ),
                run_end(self.chars@, self.pos as int, CharClass::Space) == run_end(
                    self.chars@,
                    old(self).pos as int,
                    CharClass::Space,
                ),
            ensures
                self.chars@ == old(self).chars@,
                self.well_formed(),
                self.line == old(self).line + newlines(
                    self.chars@,
                    old(self).pos as int,
                    self.pos as int,
                ),
                self.pos == run_end(self.chars@, old(self).pos as int, CharClass::Space),
            decreases self.chars@.len() - self.pos,
        {
            match self.peek() {
                Some(c) => {
                    if c == ' ' || c == '\r' || c == '\t' {
                        self.advance();
                    } else if c == '\n' {
                        proof {
                            lemma_newlines_split(
                                self.chars@,
                                self.pos as int,
                                self.pos + 1,
                                self.chars@.len() as int,
                            );
                            assert(newlines(self.chars@, self.pos as int, self.pos as int) == 0);
                            assert(newlines(self.chars@, self.pos as int, self.pos + 1) == 1);
                        }
                        self.advance();
                        self.line += 1;
                    } else {
                        break;
                    }
                },
                None => {
                    break;
                },
            }
        }
    }

    /// Scans a name or a keyword. The cursor stands at its first character.
    fn identifier(&mut self) -> (info: TokenInfo)
        requires
            old(self).well_formed(),
        ensures
            final(self).chars@ == old(self).chars@,
            final(self).line == old(self).line,
            final(self).pos == scan_word(
                old(self).chars@,
                old(self).pos as int,
                old(self).line as int,
            ).pos,
            info.token@ == scan_word(
                old(self).chars@,
                old(self).pos as int,
                old(self).line as int,
            ).token,
            info.line == old(self).line,
            final(self).well_formed(),
    {
        let mut parsed_identifier = String::new();
        self.take_run(&mut parsed_identifier, CharClass::Word);
        match check_keyword(parsed_identifier.as_str()) {
            Some(word) => self.create_token(word),
            None => self.create_token(Token::Identifier(parsed_identifier)),
        }
    }

    /// Scans a number: digits, a dot if one follows, and digits again. The
    /// cursor stands at the first digit.
    fn number(&mut self) -> (info: TokenInfo)
        requires
            old(self).well_formed(),
        ensures
            final(self).chars@ == old(self).chars@,
            final(self).line == old(self).line,
            final(self).pos == scan_number(
                old(self).chars@,
                old(self).pos as int,
                old(self).line as int,
            ).pos,
            info.token@ == scan_number(
                old(self).chars@,
                old(self).pos as int,
                old(self).line as int,
            ).token,
            info.line == old(self).line,
            final(self).well_formed(),
    {
        let mut digits = String::new();
        self.take_run(&mut digits, CharClass::Digit);
        if self.peek_eq('.') {
            digits.push('.');
            self.advance();
        }
        self.take_run(&mut digits, CharClass::Digit);
        assert(digits@ =~= self.chars@.subrange(old(self).pos as int, self.pos as int));
        self.create_token(Token::Number(digits))
    }

    /// Consumes the longest run of characters of `class` at the cursor and
    /// appends them to `text`; line breaks among them are counted.
    fn take_run(&mut self, text: &mut String, class: CharClass)
        requires
            old(self).well_formed(),
        ensures
            final(self).chars@ == old(self).chars@,
            final(self).pos == run_end(old(self).chars@, old(self).pos as int, class),
            old(self).pos <= final(self).pos <= final(self).chars@.len(),
            final(text)@ == old(text)@ + old(self).chars@.subrange(
                old(self).pos as int,
                final(self).pos as int,
            ),
            final(self).line == old(self).line + if class is StringBody {
                newlines(old(self).chars@, old(self).pos as int, final(self).pos as int)
            } else {
                0
            },
            final(self).well_formed(),
    {
        let counting = matches!(class, CharClass::StringBody);
        loop
            invariant
                self.chars@ == old(self).chars@,
                old(self).pos <= self.pos,
                self.well_formed(),
                counting == (class is StringBody),
                self.line == old(self).line + if class is StringBody {
                    newlines(self.chars@, old(self).pos as int, self.pos as int)
                } else {
                    0
                },
                text@ == old(text)@ + self.chars@.subrange(old(self).pos as int, self.pos as int),
                run_end(self.chars@, self.pos as int, class) == run_end(
                    self.chars@,
                    old(self).pos as int,
                    class,
                ),
            ensures
                self.chars@ == old(self).chars@,
                old(self).pos <= self.pos,
                self.well_formed(),
                self.line == old(self).line + if class is StringBody {
                    newlines(self.chars@, old(self).pos as int, self.pos as int)
                } else {
                    0
                },
                text@ == old(text)@ + self.chars@.subrange(old(self).pos as int, self.pos as int),
                self.pos == run_end(self.chars@, old(self).pos as int, class),
            decreases self.chars@.len() - self.pos,
        {
            match self.peek() {
                Some(c) => {
                    let inside = match class {
                        CharClass::Space => c == ' ' || c == '\r' || c == '\t' || c == '\n',
                        CharClass::Digit => is_ascii_digit(c),
                        CharClass::Word => is_word_char(c),
                        CharClass::StringBody => c != '"',
                        CharClass::CommentBody => c != '\n',
                    };
                    if !inside {
                        break;
                    }
                    proof {
                        lemma_newlines_split(
                            self.chars@,
                            self.pos as int,
                            self.pos + 1,
                            self.chars@.len() as int,
                        );
                        assert(newlines(self.chars@, self.pos as int, self.pos as int) == 0);
                        assert(newlines(self.chars@, self.pos as int, self.pos + 1) == if c
                            == '\n' {
                            1int
                        } else {
                            0int
                        });
                        assert(self.chars@.subrange(old(self).pos as int, self.pos + 1)
                            =~= self.chars@.subrange(old(self).pos as int, self.pos as int).push(
                            c,
                        ));
                    }
                    text.push(c);
                    self.advance();
                    if counting && c == '\n' {
                        self.line += 1;
                    }
                },
                None => {
                    break;
                },
            }
        }
    }

    /// Scans a string literal. The cursor stands just past the opening
    /// quote, and no line break has been counted since the token began.
    fn string(&mut self) -> (info: TokenInfo)
        requires
            old(self).well_formed(),
            old(self).pos >= 1,
        ensures
            final(self).chars@ == old(self).chars@,
            final(self).line == scan_string(
                old(self).chars@,
                old(self).pos - 1,
                old(self).line as int,
            ).next_line,
            final(self).pos == scan_string(
                old(self).chars@,
                old(self).pos - 1,
                old(self).line as int,
            ).pos,
            info.token@ == scan_string(
                old(self).chars@,
                old(self).pos - 1,
                old(self).line as int,
            ).token,
            info.line == old(self).line,
            final(self).well_formed(),
    {
        let line = self.line;
        let mut parsed_string = String::new();
        self.take_run(&mut parsed_string, CharClass::StringBody);
        if self.is_at_end() {
            return TokenInfo { token: Token::Error, line };
        }
        self.advance();
        TokenInfo { token: Token::String(parsed_string), line }
    }

    /// Scans a line comment. The cursor stands just past the two slashes.
    fn comment(&mut self) -> (info: TokenInfo)
        requires
            old(self).well_formed(),
        ensures
            final(self).chars@ == old(self).chars@,
            final(self).line == old(self).line,
            final(self).pos == run_end(
                old(self).chars@,
                old(self).pos as int,
                CharClass::CommentBody,
            ),
            old(self).pos <= final(self).pos,
            info.token@ == (Lexeme {
                kind: TokenKind::Comment,
                text: old(self).chars@.subrange(old(self).pos as int, final(self).pos as int),
            }),
            info.line == old(self).line,
            final(self).well_formed(),
    {
        let mut comment_string = String::new();
        self.take_run(&mut comment_string, CharClass::CommentBody);
        self.create_token(Token::Comment(comment_string))
    }

    /// Whether every character has been consumed.
    fn is_at_end(&self) -> (at_end: bool)
        ensures
            at_end == (self.pos >= self.chars@.len()),
    {
        self.peek().is_none()
    }

    /// The token, marked with the line that the scanner is on.
    fn create_token(&self, token: Token) -> (info: TokenInfo)
        ensures
            info.token == token,
            info.line == self.line,
    {
        TokenInfo { token, line: self.line }
    }
}

/// Two scanners that stand at the same place of the same text, with the
/// same line count, yield the same tokens on the same lines: scanning a
/// text again from the start gives the same sequence again.
pub proof fn lemma_rescanning_yields_same_tokens(first: Scanner, second: Scanner)
    requires
        first.chars@ == second.chars@,
        first.pos == second.pos,
        first.line == second.line,
    ensures
        first.next() == second.next(),
        first.remaining() == second.remaining(),
{
}

} // verus!
