//! The scanner: source text to tokens.
//!
//! What the scanner produces is stated by `tokens_of` and `errors_of`, two
//! functions of the source's characters. Both walk the source with `lex`, which
//! says where the lexeme at a position ends and what it is.

use vstd::prelude::*;
use vstd::std_specs::iter::IteratorSpec;
use crate::token::{Token, TokenType};
use crate::value::Value;

verus! {

/// `String::push` appends one character to the end of the string.
pub assume_specification[ std::string::String::push ](text: &mut std::string::String, c: char)
    ensures
        final(text)@ == old(text)@.push(c),
;

pub open spec fn digit(c: char) -> bool {
    '0' <= c && c <= '9'
}

pub open spec fn alpha(c: char) -> bool {
    ('a' <= c && c <= 'z') || ('A' <= c && c <= 'Z') || c == '_'
}

pub open spec fn alphanumeric(c: char) -> bool {
    alpha(c) || digit(c)
}

/// A decimal digit.
pub fn is_digit(c: char) -> (yes: bool)
    ensures
        yes == digit(c),
{
    c >= '0' && c <= '9'
}

/// A letter of the Latin alphabet or an underscore.
pub fn is_alpha(c: char) -> (yes: bool)
    ensures
        yes == alpha(c),
{
    (c >= 'a' && c <= 'z') || (c >= 'A' && c <= 'Z') || c == '_'
}

/// A character that may continue an identifier.
pub fn is_alphanumeric(c: char) -> (yes: bool)
    ensures
        yes == alphanumeric(c),
{
    is_alpha(c) || is_digit(c)
}

/// The reserved words and their token kinds.
pub open spec fn keyword_of(word: Seq<char>) -> Option<TokenType> {
    if word == "and"@ {
        Some(TokenType::And)
    } else if word == "class"@ {
        Some(TokenType::Class)
    } else if word == "else"@ {
        Some(TokenType::Else)
    } else if word == "false"@ {
        Some(TokenType::False)
    } else if word == "for"@ {
        Some(TokenType::For)
    } else if word == "fun"@ {
        Some(TokenType::Fun)
    } else if word == "if"@ {
        Some(TokenType::If)
    } else if word == "nil"@ {
        Some(TokenType::Nil)
    } else if word == "or"@ {
        Some(TokenType::Or)
    } else if word == "print"@ {
        Some(TokenType::Print)
    } else if word == "return"@ {
        Some(TokenType::Return)
    } else if word == "super"@ {
        Some(TokenType::Super)
    } else if word == "this"@ {
        Some(TokenType::This)
    } else if word == "true"@ {
        Some(TokenType::True)
    } else if word == "var"@ {
        Some(TokenType::Var)
    } else if word == "while"@ {
        Some(TokenType::While)
    } else {
        None
    }
}

/// The token kind of a reserved word, `None` for any other text.
pub fn keyword(word: &String) -> (kind: Option<TokenType>)
    ensures
        kind == keyword_of(word@),
{
    let text = word.as_str();
    if is_word(text, "and") {
        Some(TokenType::And)
    } else if is_word(text, "class") {
        Some(TokenType::Class)
    } else if is_word(text, "else") {
        Some(TokenType::Else)
    } else if is_word(text, "false") {
        Some(TokenType::False)
    } else if is_word(text, "for") {
        Some(TokenType::For)
    } else if is_word(text, "fun") {
        Some(TokenType::Fun)
    } else if is_word(text, "if") {
        Some(TokenType::If)
    } else if is_word(text, "nil") {
        Some(TokenType::Nil)
    } else if is_word(text, "or") {
        Some(TokenType::Or)
    } else if is_word(text, "print") {
        Some(TokenType::Print)
    } else if is_word(text, "return") {
        Some(TokenType::Return)
    } else if is_word(text, "super") {
        Some(TokenType::Super)
    } else if is_word(text, "this") {
        Some(TokenType::This)
    } else if is_word(text, "true") {
        Some(TokenType::True)
    } else if is_word(text, "var") {
        Some(TokenType::Var)
    } else if is_word(text, "while") {
        Some(TokenType::While)
    } else {
        None
    }
}

/// Whether two strings hold the same characters.
pub fn is_word(text: &str, word: &str) -> (same: bool)
    ensures
        same == (text@ == word@),
{
    let mut left = text.chars();
    let mut right = word.chars();
    let ghost mut seen: Seq<char> = Seq::empty();
    let count = text.unicode_len();
    if count != word.unicode_len() {
        return false;
    }
    let mut i: usize = 0;
    while i < count
        invariant
            left.obeys_prophetic_iter_laws(),
            right.obeys_prophetic_iter_laws(),
            seen + left.remaining() == text@,
            seen + right.remaining() == word@,
            seen.len() == i,
            count == text@.len(),
            count == word@.len(),
        decreases count - i,
    {
        let ghost left_before = left.remaining();
        let ghost right_before = right.remaining();
        let a = left.next();
        let b = right.next();
        match (a, b) {
            (Some(x), Some(y)) => {
                if x != y {
                    assert(text@[i as int] == x);
                    assert(word@[i as int] == y);
                    return false;
                }
                proof {
                    assert(left_before == seq![x] + left.remaining());
                    assert(right_before == seq![y] + right.remaining());
                    assert(seen.push(x) + left.remaining() =~= text@);
                    assert(seen.push(x) + right.remaining() =~= word@);
                    seen = seen.push(x);
                }
            },
            _ => {
                assert((seen + left_before).len() == count);
                assert((seen + right_before).len() == count);
            },
        }
        i += 1;
    }
    assert(text@ =~= word@) by {
        assert((seen + left.remaining()).len() == count);
        assert((seen + right.remaining()).len() == count);
        assert(seen + left.remaining() =~= seen);
        assert(seen + right.remaining() =~= seen);
    }
    true
}

/// The characters of a string, in order.
pub fn characters(text: &str) -> (chars: Vec<char>)
    ensures
        chars@ == text@,
{
    let mut it = text.chars();
    let mut chars: Vec<char> = Vec::new();
    let count = text.unicode_len();
    while chars.len() < count
        invariant
            it.obeys_prophetic_iter_laws(),
            chars@ + it.remaining() == text@,
            count == text@.len(),
        decreases count - chars.len(),
    {
        let ghost before = it.remaining();
        match it.next() {
            Some(c) => {
                chars.push(c);
                assert(chars@ + it.remaining() =~= text@) by {
                    assert(before == seq![c] + it.remaining());
                }
            },
            None => {
                assert(chars@ + before =~= chars@);
            },
        }
    }
    assert(chars@ =~= text@) by {
        assert((chars@ + it.remaining()).len() == count);
    }
    chars
}

/// The string made of `chars[from..to]`.
pub fn text_of(chars: &Vec<char>, from: usize, to: usize) -> (text: String)
    requires
        from <= to <= chars@.len(),
    ensures
        text@ == chars@.subrange(from as int, to as int),
{
    let mut text = String::new();
    let mut i: usize = from;
    while i < to
        invariant
            from <= i <= to <= chars@.len(),
            text@ == chars@.subrange(from as int, i as int),
        decreases to - i,
    {
        text.push(chars[i]);
        assert(chars@.subrange(from as int, i + 1) =~= chars@.subrange(from as int, i as int).push(
            chars@[i as int],
        ));
        i += 1;
    }
    text
}

/// A stretch of characters that is consumed as a whole.
#[derive(Clone, Copy, Debug, PartialEq, Eq, Structural)]
pub enum Run {
    /// The digits of a number.
    Digits,
    /// The letters, digits and underscores of an identifier.
    Word,
    /// A comment, up to the end of its line.
    Comment,
    /// The inside of a string literal, up to the closing quote.
    Text,
}

/// Whether `c` belongs to a run of the given kind.
pub open spec fn continues(run: Run, c: char) -> bool {
    match run {
        Run::Digits => digit(c),
        Run::Word => alphanumeric(c),
        Run::Comment => c != '\n',
        Run::Text => c != '"',
    }
}

/// The first position at or behind `pos` whose character ends the run; the
/// end of the source if there is none.
pub open spec fn run_end(src: Seq<char>, pos: int, run: Run) -> int
    decreases src.len() - pos,
{
    if 0 <= pos < src.len() && continues(run, src[pos]) {
        run_end(src, pos + 1, run)
    } else {
        pos
    }
}

pub proof fn lemma_run_end_bounds(src: Seq<char>, pos: int, run: Run)
    requires
        0 <= pos <= src.len(),
    ensures
        pos <= run_end(src, pos, run) <= src.len(),
    decreases src.len() - pos,
{
    if pos < src.len() && continues(run, src[pos]) {
        lemma_run_end_bounds(src, pos + 1, run);
    }
}

/// The number of line breaks in `src[from..to]`.
pub open spec fn newlines(src: Seq<char>, from: int, to: int) -> nat
    decreases to - from,
{
    if to <= from || to > src.len() {
        0
    } else {
        newlines(src, from, to - 1) + if src[to - 1] == '\n' {
            1nat
        } else {
            0nat
        }
    }
}

/// A line number that stops counting at the largest `u64`.
pub open spec fn line_after(line: u64, breaks: nat) -> u64 {
    if line + breaks > u64::MAX {
        u64::MAX
    } else {
        (line + breaks) as u64
    }
}

/// What a lexeme turns out to be.
pub enum Lexeme {
    Token(TokenType),
    /// White space or a comment.
    Blank,
    /// A string literal without its closing quote.
    Unterminated,
    /// A character that starts no lexeme.
    Unexpected,
}

/// The lexeme at one position: what it is, where it ends, and the line count
/// behind it.
pub struct Lexed {
    pub lexeme: Lexeme,
    pub end: int,
    pub line: u64,
}

/// One of two token kinds, by whether `second` follows at `pos`.
pub open spec fn pair(src: Seq<char>, pos: int, line: u64, second: char, double: TokenType, single: TokenType) -> Lexed {
    if pos + 1 < src.len() && src[pos + 1] == second {
        Lexed { lexeme: Lexeme::Token(double), end: pos + 2, line }
    } else {
        Lexed { lexeme: Lexeme::Token(single), end: pos + 1, line }
    }
}

pub open spec fn single(pos: int, line: u64, kind: TokenType) -> Lexed {
    Lexed { lexeme: Lexeme::Token(kind), end: pos + 1, line }
}

/// Where a number that starts at `pos` ends: its digits, and a fraction if a
/// dot and at least one digit follow.
pub open spec fn number_end(src: Seq<char>, pos: int) -> int {
    let whole = run_end(src, pos + 1, Run::Digits);
    if whole + 1 < src.len() && src[whole] == '.' && digit(src[whole + 1]) {
        run_end(src, whole + 2, Run::Digits)
    } else {
        whole
    }
}

/// The lexeme that starts at `pos`, with `line` the line count before it.
pub open spec fn lex(src: Seq<char>, pos: int, line: u64) -> Lexed
    recommends
        0 <= pos < src.len(),
{
    let c = src[pos];
    if c == '(' {
        single(pos, line, TokenType::LeftParen)
    } else if c == ')' {
        single(pos, line, TokenType::RightParen)
    } else if c == '{' {
        single(pos, line, TokenType::LeftBrace)
    } else if c == '}' {
        single(pos, line, TokenType::RightBrace)
    } else if c == ',' {
        single(pos, line, TokenType::Comma)
    } else if c == '.' {
        single(pos, line, TokenType::Dot)
    } else if c == '-' {
        single(pos, line, TokenType::Minus)
    } else if c == '+' {
        single(pos, line, TokenType::Plus)
    } else if c == ';' {
        single(pos, line, TokenType::Semicolon)
    } else if c == '*' {
        single(pos, line, TokenType::Star)
    } else if c == '!' {
        pair(src, pos, line, '=', TokenType::BangEqual, TokenType::Bang)
    } else if c == '=' {
        pair(src, pos, line, '=', TokenType::EqualEqual, TokenType::Equal)
    } else if c == '<' {
        pair(src, pos, line, '=', TokenType::LessEqual, TokenType::Less)
    } else if c == '>' {
        pair(src, pos, line, '=', TokenType::GreaterEqual, TokenType::Greater)
    } else if c == '/' {
        if pos + 1 < src.len() && src[pos + 1] == '/' {
            Lexed { lexeme: Lexeme::Blank, end: run_end(src, pos + 2, Run::Comment), line }
        } else {
            single(pos, line, TokenType::Slash)
        }
    } else if c == ' ' || c == '\r' || c == '\t' {
        Lexed { lexeme: Lexeme::Blank, end: pos + 1, line }
    } else if c == '\n' {
        Lexed { lexeme: Lexeme::Blank, end: pos + 1, line: line_after(line, 1) }
    } else if c == '"' {
        let quote = run_end(src, pos + 1, Run::Text);
        let line = line_after(line, newlines(src, pos + 1, quote));
        if quote < src.len() {
            Lexed { lexeme: Lexeme::Token(TokenType::String), end: quote + 1, line }
        } else {
            Lexed { lexeme: Lexeme::Unterminated, end: quote, line }
        }
    } else if digit(c) {
        Lexed { lexeme: Lexeme::Token(TokenType::Number), end: number_end(src, pos), line }
    } else if alpha(c) {
        let end = run_end(src, pos + 1, Run::Word);
        let kind = match keyword_of(src.subrange(pos, end)) {
            Some(kind) => kind,
            None => TokenType::Identifier,
        };
        Lexed { lexeme: Lexeme::Token(kind), end, line }
    } else {
        Lexed { lexeme: Lexeme::Unexpected, end: pos + 1, line }
    }
}

/// Every lexeme is at least one character long and ends inside the source.
pub proof fn lemma_lex_advances(src: Seq<char>, pos: int, line: u64)
    requires
        0 <= pos < src.len(),
    ensures
        pos < lex(src, pos, line).end <= src.len(),
{
    lemma_run_end_bounds(src, pos + 1, Run::Digits);
    lemma_run_end_bounds(src, pos + 1, Run::Word);
    lemma_run_end_bounds(src, pos + 1, Run::Text);
    if pos + 2 <= src.len() {
        lemma_run_end_bounds(src, pos + 2, Run::Comment);
    }
    let whole = run_end(src, pos + 1, Run::Digits);
    if whole + 2 <= src.len() {
        lemma_run_end_bounds(src, whole + 2, Run::Digits);
    }
}

/// A token as the source determines it: its kind, the span of its lexeme and
/// its line.
pub struct Spot {
    pub kind: TokenType,
    pub start: int,
    pub end: int,
    pub line: u64,
}

/// The tokens from `pos` on, the closing `EOF` included.
pub open spec fn tokens_from(src: Seq<char>, pos: int, line: u64) -> Seq<Spot>
    decreases src.len() - pos,
{
    if 0 <= pos < src.len() {
        let lexed = lex(src, pos, line);
        if lexed.end <= pos || lexed.end > src.len() {
            Seq::empty()
        } else {
            let rest = tokens_from(src, lexed.end, lexed.line);
            match lexed.lexeme {
                Lexeme::Token(kind) => seq![Spot { kind, start: pos, end: lexed.end, line: lexed.line }] + rest,
                _ => rest,
            }
        }
    } else {
        seq![Spot { kind: TokenType::EOF, start: pos, end: pos, line }]
    }
}

/// The message of a scan error.
pub open spec fn scan_message(lexeme: Lexeme) -> Seq<char> {
    match lexeme {
        Lexeme::Unterminated => "Unterminated string."@,
        _ => "unexpected character."@,
    }
}

/// The scan errors from `pos` on, each with its line and message.
pub open spec fn errors_from(src: Seq<char>, pos: int, line: u64) -> Seq<(u64, Seq<char>)>
    decreases src.len() - pos,
{
    if 0 <= pos < src.len() {
        let lexed = lex(src, pos, line);
        if lexed.end <= pos || lexed.end > src.len() {
            Seq::empty()
        } else {
            let rest = errors_from(src, lexed.end, lexed.line);
            match lexed.lexeme {
                Lexeme::Unterminated | Lexeme::Unexpected => seq![(lexed.line, scan_message(lexed.lexeme))] + rest,
                _ => rest,
            }
        }
    } else {
        Seq::empty()
    }
}

/// All tokens of a source text.
pub open spec fn tokens_of(src: Seq<char>) -> Seq<Spot> {
    tokens_from(src, 0, 1)
}

/// All scan errors of a source text.
pub open spec fn errors_of(src: Seq<char>) -> Seq<(u64, Seq<char>)> {
    errors_from(src, 0, 1)
}

/// The literal that a token of the given kind and lexeme carries, where the
/// source alone decides it.
pub open spec fn literal_fits(literal: Value, kind: TokenType, lexeme: Seq<char>) -> bool {
    match kind {
        TokenType::String => literal matches Value::String(text) && text@ == lexeme.subrange(
            1,
            lexeme.len() - 1,
        ),
        TokenType::Number => literal is Number,
        TokenType::True => literal == Value::Bool(true),
        TokenType::False => literal == Value::Bool(false),
        _ => literal == Value::Nil,
    }
}

/// Whether `token` is the token that `spot` describes. The value of a number
/// literal is whatever `number` makes of the lexeme.
pub open spec fn token_fits<F: Fn(&String) -> u64>(token: Token, spot: Spot, src: Seq<char>, number: &F) -> bool {
    &&& token.token_type == spot.kind
    &&& token.lexeme@ == src.subrange(spot.start, spot.end)
    &&& token.line == spot.line
    &&& literal_fits(token.literal, spot.kind, token.lexeme@)
    &&& token.literal matches Value::Number(bits) ==> number.ensures((&token.lexeme,), bits)
}

/// The last token is `EOF`, and it is the only one.
pub proof fn lemma_tokens_end_with_eof(src: Seq<char>, pos: int, line: u64)
    requires
        0 <= pos <= src.len(),
    ensures
        tokens_from(src, pos, line).len() >= 1,
        tokens_from(src, pos, line).last().kind == TokenType::EOF,
        tokens_from(src, pos, line).last().start == src.len(),
        forall|i: int|
            0 <= i < tokens_from(src, pos, line).len() - 1 ==> (#[trigger] tokens_from(
                src,
                pos,
                line,
            )[i]).kind != TokenType::EOF,
    decreases src.len() - pos,
{
    if pos < src.len() {
        let lexed = lex(src, pos, line);
        lemma_lex_advances(src, pos, line);
        lemma_tokens_end_with_eof(src, lexed.end, lexed.line);
        let rest = tokens_from(src, lexed.end, lexed.line);
        match lexed.lexeme {
            Lexeme::Token(kind) => {
                let first = Spot { kind, start: pos, end: lexed.end, line: lexed.line };
                let all = seq![first] + rest;
                assert(all.last() == rest.last());
                assert(kind != TokenType::EOF);
                assert forall|i: int| 0 <= i < all.len() - 1 implies (#[trigger] all[i]).kind
                    != TokenType::EOF by {
                    if i > 0 {
                        assert(all[i] == rest[i - 1]);
                    }
                }
            },
            _ => {},
        }
    }
}

/// What scanning one lexeme gave.
pub enum Scanned {
    Token(Token),
    Blank,
    Failed(u64, String),
}

/// A cursor over the characters of a source text.
pub struct Scanner {
    pub source: Vec<char>,
    /// Where the current lexeme starts.
    pub start: usize,
    /// The next unread position.
    pub current: usize,
    /// The 1-based line of the next unread position.
    pub line: u64,
}

impl Scanner {
    /// A scanner at the start of `source`.
    pub fn new(source: String) -> (scanner: Self)
        ensures
            scanner.source@ == source@,
            scanner.start == 0,
            scanner.current == 0,
            scanner.line == 1,
    {
        Scanner { source: characters(source.as_str()), start: 0, current: 0, line: 1 }
    }

    /// Scans the whole source from its start. Returns the tokens, closed by
    /// `EOF`, and the scan errors; an error costs no token that follows it.
    /// `number` turns the lexeme of a number literal into the number's bits.
    pub fn scan_tokens<F: Fn(&String) -> u64>(&mut self, number: &F) -> (scanned: (
        Vec<Token>,
        Vec<(u64, String)>,
    ))
        requires
            forall|lexeme: &String| number.requires((lexeme,)),
        ensures
            final(self).source@ == old(self).source@,
            final(self).current == old(self).source@.len(),
            scanned.0@.len() == tokens_of(old(self).source@).len(),
            forall|i: int|
                0 <= i < scanned.0@.len() ==> token_fits(
                    #[trigger] scanned.0@[i],
                    tokens_of(old(self).source@)[i],
                    old(self).source@,
                    number,
                ),
            scanned.0@.len() >= 1,
            scanned.0@.last().token_type == TokenType::EOF,
            scanned.1@.len() == errors_of(old(self).source@).len(),
            forall|i: int|
                0 <= i < scanned.1@.len() ==> {
                    &&& (#[trigger] scanned.1@[i]).0 == errors_of(old(self).source@)[i].0
                    &&& scanned.1@[i].1@ == errors_of(old(self).source@)[i].1
                },
    {
        let mut tokens: Vec<Token> = Vec::new();
        let mut errors: Vec<(u64, String)> = Vec::new();
        self.start = 0;
        self.current = 0;
        self.line = 1;
        let ghost src = self.source@;
        let ghost all = tokens_of(src);
        let ghost all_errors = errors_of(src);
        while !self.is_at_end()
            invariant
                self.source@ == src,
                self.current <= src.len(),
                all == tokens_of(src),
                all_errors == errors_of(src),
                forall|lexeme: &String| number.requires((lexeme,)),
                tokens@.len() + tokens_from(src, self.current as int, self.line).len() == all.len(),
                forall|i: int|
                    0 <= i < tokens@.len() ==> token_fits(#[trigger] tokens@[i], all[i], src, number),
                forall|i: int|
                    0 <= i < tokens_from(src, self.current as int, self.line).len()
                        ==> #[trigger] tokens_from(src, self.current as int, self.line)[i] == all[
                        tokens@.len() + i],
                errors@.len() + errors_from(src, self.current as int, self.line).len()
                    == all_errors.len(),
                forall|i: int|
                    0 <= i < errors@.len() ==> (#[trigger] errors@[i]).0 == all_errors[i].0
                        && errors@[i].1@ == all_errors[i].1,
                forall|i: int|
                    0 <= i < errors_from(src, self.current as int, self.line).len()
                        ==> #[trigger] errors_from(src, self.current as int, self.line)[i]
                        == all_errors[errors@.len() + i],
            decreases src.len() - self.current,
        {
            self.start = self.current;
            let ghost pos = self.current as int;
            let ghost line = self.line;
            let ghost lexed = lex(src, pos, line);
            let ghost rest = tokens_from(src, lexed.end, lexed.line);
            let ghost rest_errors = errors_from(src, lexed.end, lexed.line);
            proof {
                lemma_lex_advances(src, pos, line);
            }
            match self.scan_token(number) {
                Scanned::Token(token) => {
                    proof {
                        let spot = Spot {
                            kind: lexed.lexeme->Token_0,
                            start: pos,
                            end: lexed.end,
                            line: lexed.line,
                        };
                        assert(tokens_from(src, pos, line) == seq![spot] + rest);
                        assert(tokens_from(src, pos, line)[0] == spot);
                        assert forall|i: int| 0 <= i < rest.len() implies #[trigger] rest[i]
                            == all[tokens@.len() + 1 + i] by {
                            assert(tokens_from(src, pos, line)[i + 1] == rest[i]);
                        }
                    }
                    tokens.push(token);
                },
                Scanned::Blank => {},
                Scanned::Failed(at, message) => {
                    proof {
                        let entry = (lexed.line, scan_message(lexed.lexeme));
                        assert(errors_from(src, pos, line) == seq![entry] + rest_errors);
                        assert(errors_from(src, pos, line)[0] == entry);
                        assert forall|i: int| 0 <= i < rest_errors.len() implies #[trigger] rest_errors[i]
                            == all_errors[errors@.len() + 1 + i] by {
                            assert(errors_from(src, pos, line)[i + 1] == rest_errors[i]);
                        }
                    }
                    errors.push((at, message));
                },
            }
        }
        proof {
            lemma_tokens_end_with_eof(src, 0, 1);
            let tail = tokens_from(src, self.current as int, self.line);
            assert(tail.len() == 1);
            assert(tail[0] == all[tokens@.len() as int]);
        }
        self.start = self.current;
        let end = Token {
            token_type: TokenType::EOF,
            lexeme: text_of(&self.source, self.current, self.current),
            literal: Value::Nil,
            line: self.line,
        };
        tokens.push(end);
        (tokens, errors)
    }

    /// Scans the lexeme at the cursor and moves the cursor behind it.
    fn scan_token<F: Fn(&String) -> u64>(&mut self, number: &F) -> (scanned: Scanned)
        requires
            old(self).current < old(self).source@.len(),
            old(self).start == old(self).current,
            forall|lexeme: &String| number.requires((lexeme,)),
        ensures
            final(self).source@ == old(self).source@,
            final(self).start == old(self).start,
            final(self).current == lex(
                old(self).source@,
                old(self).current as int,
                old(self).line,
            ).end,
            final(self).line == lex(old(self).source@, old(self).current as int, old(self).line).line,
            match lex(old(self).source@, old(self).current as int, old(self).line).lexeme {
                Lexeme::Token(kind) => scanned matches Scanned::Token(token) && token_fits(
                    token,
                    Spot {
                        kind,
                        start: old(self).current as int,
                        end: final(self).current as int,
                        line: final(self).line,
                    },
                    old(self).source@,
                    number,
                ),
                Lexeme::Blank => scanned is Blank,
                lexeme => scanned matches Scanned::Failed(line, message) && line == final(self).line
                    && message@ == scan_message(lexeme),
            },
    {
        proof {
            lemma_lex_advances(self.source@, self.current as int, self.line);
        }
        let c = self.advance();
        if c == '(' {
            self.add_token(TokenType::LeftParen, number)
        } else if c == ')' {
            self.add_token(TokenType::RightParen, number)
        } else if c == '{' {
            self.add_token(TokenType::LeftBrace, number)
        } else if c == '}' {
            self.add_token(TokenType::RightBrace, number)
        } else if c == ',' {
            self.add_token(TokenType::Comma, number)
        } else if c == '.' {
            self.add_token(TokenType::Dot, number)
        } else if c == '-' {
            self.add_token(TokenType::Minus, number)
        } else if c == '+' {
            self.add_token(TokenType::Plus, number)
        } else if c == ';' {
            self.add_token(TokenType::Semicolon, number)
        } else if c == '*' {
            self.add_token(TokenType::Star, number)
        } else if c == '!' {
            let kind = if self.match_char('=') {
                TokenType::BangEqual
            } else {
                TokenType::Bang
            };
            self.add_token(kind, number)
        } else if c == '=' {
            let kind = if self.match_char('=') {
                TokenType::EqualEqual
            } else {
                TokenType::Equal
            };
            self.add_token(kind, number)
        } else if c == '<' {
            let kind = if self.match_char('=') {
                TokenType::LessEqual
            } else {
                TokenType::Less
            };
            self.add_token(kind, number)
        } else if c == '>' {
            let kind = if self.match_char('=') {
                TokenType::GreaterEqual
            } else {
                TokenType::Greater
            };
            self.add_token(kind, number)
        } else if c == '/' {
            if self.match_char('/') {
                self.run(Run::Comment);
                Scanned::Blank
            } else {
                self.add_token(TokenType::Slash, number)
            }
        } else if c == ' ' || c == '\r' || c == '\t' {
            Scanned::Blank
        } else if c == '\n' {
            if self.line < u64::MAX {
                self.line = self.line + 1;
            }
            Scanned::Blank
        } else if c == '"' {
            self.string(number)
        } else if is_digit(c) {
            self.number(number)
        } else if is_alpha(c) {
            self.identifier(number)
        } else {
            Scanned::Failed(self.line, "unexpected character.".to_owned())
        }
    }

    /// Consumes a string literal behind its opening quote.
    fn string<F: Fn(&String) -> u64>(&mut self, number: &F) -> (scanned: Scanned)
        requires
            old(self).start < old(self).source@.len(),
            old(self).current == old(self).start + 1,
            old(self).source@[old(self).start as int] == '"',
            forall|lexeme: &String| number.requires((lexeme,)),
        ensures
            final(self).source@ == old(self).source@,
            final(self).start == old(self).start,
            final(self).current == lex(old(self).source@, old(self).start as int, old(self).line).end,
            final(self).line == lex(old(self).source@, old(self).start as int, old(self).line).line,
            final(self).current <= old(self).source@.len(),
            match lex(old(self).source@, old(self).start as int, old(self).line).lexeme {
                Lexeme::Token(kind) => scanned matches Scanned::Token(token) && token_fits(
                    token,
                    Spot {
                        kind,
                        start: old(self).start as int,
                        end: final(self).current as int,
                        line: final(self).line,
                    },
                    old(self).source@,
                    number,
                ),
                Lexeme::Blank => scanned is Blank,
                lexeme => scanned matches Scanned::Failed(line, message) && line == final(self).line
                    && message@ == scan_message(lexeme),
            },
    {
        let ghost src = self.source@;
        let ghost first = self.current as int;
        let ghost line = self.line;
        proof {
            lemma_run_end_bounds(src, first, Run::Text);
        }
        while self.current < self.source.len() && self.source[self.current] != '"'
            invariant
                self.source@ == src,
                self.start == old(self).start,
                first <= self.current <= src.len(),
                run_end(src, self.current as int, Run::Text) == run_end(src, first, Run::Text),
                self.line == line_after(line, newlines(src, first, self.current as int)),
            decreases src.len() - self.current,
        {
            if self.source[self.current] == '\n' && self.line < u64::MAX {
                self.line = self.line + 1;
            }
            self.current = self.current + 1;
        }
        if self.is_at_end() {
            return Scanned::Failed(self.line, "Unterminated string.".to_owned());
        }
        self.current = self.current + 1;
        let lexeme = text_of(&self.source, self.start, self.current);
        let value = text_of(&self.source, self.start + 1, self.current - 1);
        assert(value@ =~= lexeme@.subrange(1, lexeme@.len() - 1));
        Scanned::Token(
            Token { token_type: TokenType::String, lexeme, literal: Value::String(value), line: self.line },
        )
    }

    /// Consumes a number literal behind its first digit.
    fn number<F: Fn(&String) -> u64>(&mut self, number: &F) -> (scanned: Scanned)
        requires
            old(self).start < old(self).source@.len(),
            old(self).current == old(self).start + 1,
            forall|lexeme: &String| number.requires((lexeme,)),
        ensures
            final(self).source@ == old(self).source@,
            final(self).start == old(self).start,
            final(self).line == old(self).line,
            final(self).current == number_end(old(self).source@, old(self).start as int),
            final(self).current <= old(self).source@.len(),
            scanned matches Scanned::Token(token) && token_fits(
                token,
                Spot {
                    kind: TokenType::Number,
                    start: old(self).start as int,
                    end: final(self).current as int,
                    line: final(self).line,
                },
                old(self).source@,
                number,
            ),
    {
        self.run(Run::Digits);
        if self.peek() == '.' && is_digit(self.peek_next()) {
            assert(self.source@.len() == self.source.len());
            self.current = self.current + 2;
            self.run(Run::Digits);
        }
        let lexeme = text_of(&self.source, self.start, self.current);
        let bits = number(&lexeme);
        Scanned::Token(
            Token { token_type: TokenType::Number, lexeme, literal: Value::Number(bits), line: self.line },
        )
    }

    /// Consumes an identifier or reserved word behind its first character.
    fn identifier<F: Fn(&String) -> u64>(&mut self, number: &F) -> (scanned: Scanned)
        requires
            old(self).start < old(self).source@.len(),
            old(self).current == old(self).start + 1,
        ensures
            final(self).source@ == old(self).source@,
            final(self).start == old(self).start,
            final(self).line == old(self).line,
            final(self).current == run_end(old(self).source@, old(self).start + 1, Run::Word),
            final(self).current <= old(self).source@.len(),
            scanned matches Scanned::Token(token) && token_fits(
                token,
                Spot {
                    kind: match keyword_of(
                        old(self).source@.subrange(old(self).start as int, final(self).current as int),
                    ) {
                        Some(kind) => kind,
                        None => TokenType::Identifier,
                    },
                    start: old(self).start as int,
                    end: final(self).current as int,
                    line: final(self).line,
                },
                old(self).source@,
                number,
            ),
    {
        self.run(Run::Word);
        let lexeme = text_of(&self.source, self.start, self.current);
        let kind = match keyword(&lexeme) {
            Some(kind) => kind,
            None => TokenType::Identifier,
        };
        let literal = match kind {
            TokenType::True => Value::Bool(true),
            TokenType::False => Value::Bool(false),
            _ => Value::Nil,
        };
        Scanned::Token(Token { token_type: kind, lexeme, literal, line: self.line })
    }

    /// Moves the cursor to the end of the run that starts at it.
    fn run(&mut self, run: Run)
        requires
            old(self).current <= old(self).source@.len(),
        ensures
            final(self).source@ == old(self).source@,
            final(self).start == old(self).start,
            final(self).line == old(self).line,
            final(self).current == run_end(old(self).source@, old(self).current as int, run),
            old(self).current <= final(self).current <= old(self).source@.len(),
    {
        let ghost src = self.source@;
        let ghost first = self.current as int;
        while self.current < self.source.len() && Self::belongs(run, self.source[self.current])
            invariant
                self.source@ == src,
                self.start == old(self).start,
                self.line == old(self).line,
                first <= self.current <= src.len(),
                run_end(src, self.current as int, run) == run_end(src, first, run),
            decreases src.len() - self.current,
        {
            self.current = self.current + 1;
        }
    }

    fn belongs(run: Run, c: char) -> (yes: bool)
        ensures
            yes == continues(run, c),
    {
        match run {
            Run::Digits => is_digit(c),
            Run::Word => is_alphanumeric(c),
            Run::Comment => c != '\n',
            Run::Text => c != '"',
        }
    }

    /// Reads the character at the cursor and steps over it.
    fn advance(&mut self) -> (c: char)
        requires
            old(self).current < old(self).source@.len(),
        ensures
            c == old(self).source@[old(self).current as int],
            final(self).current == old(self).current + 1,
            final(self).source@ == old(self).source@,
            final(self).start == old(self).start,
            final(self).line == old(self).line,
    {
        let c = self.source[self.current];
        assert(self.source@.len() == self.source.len());
        self.current = self.current + 1;
        c
    }

    /// A token of a kind that carries no literal, for the lexeme from `start`
    /// to the cursor.
    fn add_token<F: Fn(&String) -> u64>(&self, token_type: TokenType, number: &F) -> (scanned: Scanned)
        requires
            self.start <= self.current <= self.source@.len(),
            token_type != TokenType::String,
            token_type != TokenType::Number,
            token_type != TokenType::True,
            token_type != TokenType::False,
        ensures
            scanned matches Scanned::Token(token) && token_fits(
                token,
                Spot {
                    kind: token_type,
                    start: self.start as int,
                    end: self.current as int,
                    line: self.line,
                },
                self.source@,
                number,
            ),
    {
        Scanned::Token(self.add_token_final(token_type, Value::Nil))
    }

    /// A token for the lexeme from `start` to the cursor.
    fn add_token_final(&self, token_type: TokenType, literal: Value) -> (token: Token)
        requires
            self.start <= self.current <= self.source@.len(),
        ensures
            token.token_type == token_type,
            token.lexeme@ == self.source@.subrange(self.start as int, self.current as int),
            token.literal == literal,
            token.line == self.line,
    {
        Token {
            token_type,
            lexeme: text_of(&self.source, self.start, self.current),
            literal,
            line: self.line,
        }
    }

    /// Steps over the character at the cursor if it is `expected`.
    fn match_char(&mut self, expected: char) -> (matched: bool)
        requires
            old(self).current <= old(self).source@.len(),
        ensures
            matched == (old(self).current < old(self).source@.len() && old(self).source@[old(
                self,
            ).current as int] == expected),
            final(self).current == if matched {
                old(self).current + 1
            } else {
                old(self).current as int
            },
            final(self).source@ == old(self).source@,
            final(self).start == old(self).start,
            final(self).line == old(self).line,
    {
        if self.is_at_end() {
            return false;
        }
        if self.source[self.current] != expected {
            return false;
        }
        self.current = self.current + 1;
        true
    }

    fn is_at_end(&self) -> (at_end: bool)
        ensures
            at_end == (self.current >= self.source.len()),
    {
        self.current >= self.source.len()
    }

    /// The character at the cursor, NUL at the end of the source.
    fn peek(&self) -> (c: char)
        ensures
            c == if self.current < self.source@.len() {
                self.source@[self.current as int]
            } else {
                '\0'
            },
    {
        if self.is_at_end() {
            return '\0';
        }
        self.source[self.current]
    }

    /// The character behind the cursor's, NUL at the end of the source.
    fn peek_next(&self) -> (c: char)
        ensures
            c == if self.current + 1 < self.source@.len() {
                self.source@[self.current + 1]
            } else {
                '\0'
            },
    {
        if self.current >= self.source.len() || self.current + 1 >= self.source.len() {
            return '\0';
        }
        self.source[self.current + 1]
    }
}

} // verus!
