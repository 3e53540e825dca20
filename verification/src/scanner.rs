//! Lexical scanning: one forward pass over the source characters that
//! produces the token sequence, terminated by an end-of-stream token, or
//! the first lexical error. The whole scan is specified by `scan_from`,
//! which walks the source one lexeme at a time.
use vstd::prelude::*;
use vstd::string::*;

use crate::messages::error;
use crate::messages::report_text;
use crate::rational::Rational;

verus! {

/// The kind of one lexical unit. `Number` carries the literal's exact
/// rational value, `StringLiteral` the text between the quotes.
#[derive(Debug, PartialEq)]
pub enum TokenType {
    LeftParen,
    RightParen,
    LeftBrace,
    RightBrace,
    Comma,
    Dot,
    Minus,
    Plus,
    Semicolon,
    Slash,
    Star,
    Bang,
    BangEqual,
    Equal,
    EqualEqual,
    Greater,
    GreaterEqual,
    Less,
    LessEqual,
    Identifier,
    StringLiteral { literal: String },
    Number { value: Rational },
    And,
    Class,
    Else,
    False,
    Fun,
    If,
    For,
    Nil,
    Or,
    Print,
    Return,
    Super,
    This,
    True,
    Var,
    While,
    Eof,
}

/// Mathematical model of a token kind.
pub enum TokenTypeS {
    LeftParen,
    RightParen,
    LeftBrace,
    RightBrace,
    Comma,
    Dot,
    Minus,
    Plus,
    Semicolon,
    Slash,
    Star,
    Bang,
    BangEqual,
    Equal,
    EqualEqual,
    Greater,
    GreaterEqual,
    Less,
    LessEqual,
    Identifier,
    StringLiteral { literal: Seq<char> },
    Number { num: int, den: int },
    And,
    Class,
    Else,
    False,
    Fun,
    If,
    For,
    Nil,
    Or,
    Print,
    Return,
    Super,
    This,
    True,
    Var,
    While,
    Eof,
}

impl View for TokenType {
    type V = TokenTypeS;

    open spec fn view(&self) -> TokenTypeS {
        match self {
            TokenType::LeftParen => TokenTypeS::LeftParen,
            TokenType::RightParen => TokenTypeS::RightParen,
            TokenType::LeftBrace => TokenTypeS::LeftBrace,
            TokenType::RightBrace => TokenTypeS::RightBrace,
            TokenType::Comma => TokenTypeS::Comma,
            TokenType::Dot => TokenTypeS::Dot,
            TokenType::Minus => TokenTypeS::Minus,
            TokenType::Plus => TokenTypeS::Plus,
            TokenType::Semicolon => TokenTypeS::Semicolon,
            TokenType::Slash => TokenTypeS::Slash,
            TokenType::Star => TokenTypeS::Star,
            TokenType::Bang => TokenTypeS::Bang,
            TokenType::BangEqual => TokenTypeS::BangEqual,
            TokenType::Equal => TokenTypeS::Equal,
            TokenType::EqualEqual => TokenTypeS::EqualEqual,
            TokenType::Greater => TokenTypeS::Greater,
            TokenType::GreaterEqual => TokenTypeS::GreaterEqual,
            TokenType::Less => TokenTypeS::Less,
            TokenType::LessEqual => TokenTypeS::LessEqual,
            TokenType::Identifier => TokenTypeS::Identifier,
            TokenType::StringLiteral { literal } => TokenTypeS::StringLiteral { literal: literal@ },
            TokenType::Number { value } => TokenTypeS::Number {
                num: value.num as int,
                den: value.den as int,
            },
            TokenType::And => TokenTypeS::And,
            TokenType::Class => TokenTypeS::Class,
            TokenType::Else => TokenTypeS::Else,
            TokenType::False => TokenTypeS::False,
            TokenType::Fun => TokenTypeS::Fun,
            TokenType::If => TokenTypeS::If,
            TokenType::For => TokenTypeS::For,
            TokenType::Nil => TokenTypeS::Nil,
            TokenType::Or => TokenTypeS::Or,
            TokenType::Print => TokenTypeS::Print,
            TokenType::Return => TokenTypeS::Return,
            TokenType::Super => TokenTypeS::Super,
            TokenType::This => TokenTypeS::This,
            TokenType::True => TokenTypeS::True,
            TokenType::Var => TokenTypeS::Var,
            TokenType::While => TokenTypeS::While,
            TokenType::Eof => TokenTypeS::Eof,
        }
    }
}

impl Clone for TokenType {
    /// Clones the kind, literal text and value included.
    fn clone(&self) -> (r: TokenType)
        ensures
            r@ == self@,
    {
        match self {
            TokenType::LeftParen => TokenType::LeftParen,
            TokenType::RightParen => TokenType::RightParen,
            TokenType::LeftBrace => TokenType::LeftBrace,
            TokenType::RightBrace => TokenType::RightBrace,
            TokenType::Comma => TokenType::Comma,
            TokenType::Dot => TokenType::Dot,
            TokenType::Minus => TokenType::Minus,
            TokenType::Plus => TokenType::Plus,
            TokenType::Semicolon => TokenType::Semicolon,
            TokenType::Slash => TokenType::Slash,
            TokenType::Star => TokenType::Star,
            TokenType::Bang => TokenType::Bang,
            TokenType::BangEqual => TokenType::BangEqual,
            TokenType::Equal => TokenType::Equal,
            TokenType::EqualEqual => TokenType::EqualEqual,
            TokenType::Greater => TokenType::Greater,
            TokenType::GreaterEqual => TokenType::GreaterEqual,
            TokenType::Less => TokenType::Less,
            TokenType::LessEqual => TokenType::LessEqual,
            TokenType::Identifier => TokenType::Identifier,
            TokenType::StringLiteral { literal } => TokenType::StringLiteral {
                literal: literal.clone(),
            },
            TokenType::Number { value } => TokenType::Number { value: *value },
            TokenType::And => TokenType::And,
            TokenType::Class => TokenType::Class,
            TokenType::Else => TokenType::Else,
            TokenType::False => TokenType::False,
            TokenType::Fun => TokenType::Fun,
            TokenType::If => TokenType::If,
            TokenType::For => TokenType::For,
            TokenType::Nil => TokenType::Nil,
            TokenType::Or => TokenType::Or,
            TokenType::Print => TokenType::Print,
            TokenType::Return => TokenType::Return,
            TokenType::Super => TokenType::Super,
            TokenType::This => TokenType::This,
            TokenType::True => TokenType::True,
            TokenType::Var => TokenType::Var,
            TokenType::While => TokenType::While,
            TokenType::Eof => TokenType::Eof,
        }
    }
}

/// One lexical unit: its kind, the exact source substring it was scanned
/// from, and the 1-based line it ends on.
#[derive(Debug, PartialEq)]
pub struct Token {
    pub token_type: TokenType,
    pub lexeme: String,
    pub line: usize,
}

/// Mathematical model of a token.
pub struct TokenS {
    pub kind: TokenTypeS,
    pub lexeme: Seq<char>,
    pub line: int,
}

impl View for Token {
    type V = TokenS;

    open spec fn view(&self) -> TokenS {
        TokenS { kind: self.token_type@, lexeme: self.lexeme@, line: self.line as int }
    }
}

impl Clone for Token {
    /// Clones the token, field for field.
    fn clone(&self) -> (r: Token)
        ensures
            r@ == self@,
    {
        Token {
            token_type: self.token_type.clone(),
            lexeme: self.lexeme.clone(),
            line: self.line,
        }
    }
}

impl Token {
    /// Builds a token from its kind, lexeme text and line.
    pub fn new(token_type: TokenType, lexeme: &str, line: usize) -> (t: Token)
        ensures
            t@ == (TokenS { kind: token_type@, lexeme: lexeme@, line: line as int }),
    {
        Token { token_type, lexeme: lexeme.to_owned(), line }
    }
}

/// The views of a token sequence.
pub open spec fn token_views(ts: Seq<Token>) -> Seq<TokenS> {
    ts.map_values(|t: Token| t@)
}

/// What a scan can fail with: a character no rule recognizes, a string
/// literal the input ends inside of, or a number literal whose exact
/// value does not fit a token's numeric fields. The third is this
/// library's deliberate addition to the first two: the numeric model is
/// exact rather than floating point, so a literal beyond its range is
/// rejected where it stands in the source instead of silently losing
/// precision or failing later at evaluation.
#[derive(Debug, Clone, Copy, PartialEq, Eq, Structural)]
pub enum ScanErrorKind {
    UnexpectedCharacter,
    UnterminatedString,
    NumberOutOfRange,
}

/// A fatal lexical error and the 1-based line it was found on.
#[derive(Debug, Clone, Copy, PartialEq, Eq, Structural)]
pub struct ScanError {
    pub kind: ScanErrorKind,
    pub line: usize,
}

/// Mathematical model of a lexical error.
pub struct ScanErrS {
    pub kind: ScanErrorKind,
    pub line: int,
}

impl View for ScanError {
    type V = ScanErrS;

    open spec fn view(&self) -> ScanErrS {
        ScanErrS { kind: self.kind, line: self.line as int }
    }
}

/// The message text of each lexical error.
pub open spec fn scan_error_kind_text(k: ScanErrorKind) -> Seq<char> {
    match k {
        ScanErrorKind::UnexpectedCharacter => "Unexpected character."@,
        ScanErrorKind::UnterminatedString => "Unterminated string."@,
        ScanErrorKind::NumberOutOfRange => "Number literal out of range."@,
    }
}

impl ScanError {
    /// The diagnostic line `[line <N>] Error : <message>`,
    /// newline-terminated.
    pub fn display_string(&self) -> (s: String)
        ensures
            s@ == report_text(self.line as int, ""@, scan_error_kind_text(self.kind)) + "\n"@,
    {
        let mut s = match self.kind {
            ScanErrorKind::UnexpectedCharacter => error(self.line, "Unexpected character."),
            ScanErrorKind::UnterminatedString => error(self.line, "Unterminated string."),
            ScanErrorKind::NumberOutOfRange => error(self.line, "Number literal out of range."),
        };
        s.append("\n");
        s
    }
}

/// Decimal digit, by code point.
pub open spec fn is_digit_c(c: char) -> bool {
    48 <= c as u32 && c as u32 <= 57
}

/// Letter or underscore, by code point.
pub open spec fn is_alpha_c(c: char) -> bool {
    (97 <= c as u32 && c as u32 <= 122) || (65 <= c as u32 && c as u32 <= 90) || c == '_'
}

/// Letter, underscore or digit.
pub open spec fn is_alnum_c(c: char) -> bool {
    is_alpha_c(c) || is_digit_c(c)
}

/// Space, carriage return or tab: skipped without effect.
pub open spec fn is_blank(c: char) -> bool {
    c == ' ' || c == '\r' || c == '\t'
}

/// The numeric value of a digit character.
pub open spec fn digit_val(c: char) -> int {
    c as u32 - 48
}

/// First position at or after `pos` whose character is not a digit.
pub open spec fn digits_end(src: Seq<char>, pos: int) -> int
    decreases src.len() - pos, when 0 <= pos <= src.len()
{
    if pos >= src.len() {
        pos
    } else if is_digit_c(src[pos]) {
        digits_end(src, pos + 1)
    } else {
        pos
    }
}

/// First position at or after `pos` whose character is not alphanumeric.
pub open spec fn alnum_end(src: Seq<char>, pos: int) -> int
    decreases src.len() - pos, when 0 <= pos <= src.len()
{
    if pos >= src.len() {
        pos
    } else if is_alnum_c(src[pos]) {
        alnum_end(src, pos + 1)
    } else {
        pos
    }
}

/// First position at or after `pos` holding a double quote, or the end.
pub open spec fn quote_end(src: Seq<char>, pos: int) -> int
    decreases src.len() - pos, when 0 <= pos <= src.len()
{
    if pos >= src.len() {
        pos
    } else if src[pos] == '"' {
        pos
    } else {
        quote_end(src, pos + 1)
    }
}

/// First position at or after `pos` holding a newline, or the end.
pub open spec fn line_end(src: Seq<char>, pos: int) -> int
    decreases src.len() - pos, when 0 <= pos <= src.len()
{
    if pos >= src.len() {
        pos
    } else if src[pos] == '\n' {
        pos
    } else {
        line_end(src, pos + 1)
    }
}

/// How many newline characters `src` holds in `[a, b)`.
pub open spec fn newlines_in(src: Seq<char>, a: int, b: int) -> int
    decreases b - a, when a <= b
{
    if a >= b {
        0
    } else {
        newlines_in(src, a, b - 1) + if src[b - 1] == '\n' {
            1int
        } else {
            0int
        }
    }
}

/// The value of the decimal digits of `src` in `[a, b)`.
pub open spec fn digits_val(src: Seq<char>, a: int, b: int) -> int
    decreases b - a, when a <= b
{
    if a >= b {
        0
    } else {
        digits_val(src, a, b - 1) * 10 + digit_val(src[b - 1])
    }
}

/// Ten to the power `k`.
pub open spec fn pow10(k: int) -> int
    decreases k, when k >= 0
{
    if k <= 0 {
        1
    } else {
        10 * pow10(k - 1)
    }
}

/// The token kind of an identifier's text: one of the fixed keywords, or
/// a plain identifier.
pub open spec fn keyword_or_identifier(s: Seq<char>) -> TokenTypeS {
    if s == "and"@ {
        TokenTypeS::And
    } else if s == "class"@ {
        TokenTypeS::Class
    } else if s == "else"@ {
        TokenTypeS::Else
    } else if s == "false"@ {
        TokenTypeS::False
    } else if s == "for"@ {
        TokenTypeS::For
    } else if s == "fun"@ {
        TokenTypeS::Fun
    } else if s == "if"@ {
        TokenTypeS::If
    } else if s == "nil"@ {
        TokenTypeS::Nil
    } else if s == "or"@ {
        TokenTypeS::Or
    } else if s == "print"@ {
        TokenTypeS::Print
    } else if s == "return"@ {
        TokenTypeS::Return
    } else if s == "super"@ {
        TokenTypeS::Super
    } else if s == "this"@ {
        TokenTypeS::This
    } else if s == "true"@ {
        TokenTypeS::True
    } else if s == "var"@ {
        TokenTypeS::Var
    } else if s == "while"@ {
        TokenTypeS::While
    } else {
        TokenTypeS::Identifier
    }
}

/// What one step of the scanner does, starting at a lexeme boundary:
/// emit a token, skip text, or fail.
pub enum ScanStep {
    Emit { t: TokenS, next: int, line: int },
    Skip { next: int, line: int },
    Fail { kind: ScanErrorKind, line: int },
}

/// A token whose lexeme is `src[start..next]`.
pub open spec fn tok(kind: TokenTypeS, src: Seq<char>, start: int, next: int, line: int) -> TokenS {
    TokenS { kind, lexeme: src.subrange(start, next), line }
}

/// A one-character token step.
pub open spec fn single_step(kind: TokenTypeS, src: Seq<char>, start: int, line: int) -> ScanStep {
    ScanStep::Emit { t: tok(kind, src, start, start + 1, line), next: start + 1, line }
}

/// A one-or-two character operator step: the two-character kind when a
/// `=` follows, the one-character kind otherwise.
pub open spec fn two_char_step(
    src: Seq<char>,
    start: int,
    line: int,
    two: TokenTypeS,
    one: TokenTypeS,
) -> ScanStep {
    if start + 1 < src.len() && src[start + 1] == '=' {
        ScanStep::Emit { t: tok(two, src, start, start + 2, line), next: start + 2, line }
    } else {
        single_step(one, src, start, line)
    }
}

/// The string-literal step: scan to the closing quote, counting embedded
/// newlines; reaching the end first is the unterminated-string error.
pub open spec fn string_step(src: Seq<char>, start: int, line: int) -> ScanStep {
    let e = quote_end(src, start + 1);
    let l2 = line + newlines_in(src, start + 1, e);
    if e >= src.len() {
        ScanStep::Fail { kind: ScanErrorKind::UnterminatedString, line: l2 }
    } else {
        ScanStep::Emit {
            t: TokenS {
                kind: TokenTypeS::StringLiteral { literal: src.subrange(start + 1, e) },
                lexeme: src.subrange(start, e + 1),
                line: l2,
            },
            next: e + 1,
            line: l2,
        }
    }
}

/// The number-literal step: a digit run, a fractional part only when a
/// digit follows the dot, and the exact rational value of the digits. A
/// value whose numerator or denominator does not fit the token's fields
/// is the number-out-of-range error: the exact numeric model has no
/// rounding to fall back on, so the bound is enforced here, at the
/// literal itself.
pub open spec fn number_step(src: Seq<char>, start: int, line: int) -> ScanStep {
    let e1 = digits_end(src, start);
    let has_frac = e1 + 1 < src.len() && src[e1] == '.' && is_digit_c(src[e1 + 1]);
    let e = if has_frac {
        digits_end(src, e1 + 1)
    } else {
        e1
    };
    let k = if has_frac {
        e - (e1 + 1)
    } else {
        0
    };
    let nv = if has_frac {
        digits_val(src, start, e1) * pow10(k) + digits_val(src, e1 + 1, e)
    } else {
        digits_val(src, start, e1)
    };
    let dv = pow10(k);
    if nv > i64::MAX || dv > u64::MAX {
        ScanStep::Fail { kind: ScanErrorKind::NumberOutOfRange, line }
    } else {
        ScanStep::Emit {
            t: tok(TokenTypeS::Number { num: nv, den: dv }, src, start, e, line),
            next: e,
            line,
        }
    }
}

/// The identifier step: an alphanumeric run, classified by the keyword
/// table.
pub open spec fn ident_step(src: Seq<char>, start: int, line: int) -> ScanStep {
    let e = alnum_end(src, start);
    ScanStep::Emit {
        t: tok(keyword_or_identifier(src.subrange(start, e)), src, start, e, line),
        next: e,
        line,
    }
}

/// One scanner step at position `start` on line `line` (meaningful for
/// `0 <= start < src.len()`).
pub open spec fn scan_step(src: Seq<char>, start: int, line: int) -> ScanStep {
    let c = src[start];
    if c == '(' {
        single_step(TokenTypeS::LeftParen, src, start, line)
    } else if c == ')' {
        single_step(TokenTypeS::RightParen, src, start, line)
    } else if c == '{' {
        single_step(TokenTypeS::LeftBrace, src, start, line)
    } else if c == '}' {
        single_step(TokenTypeS::RightBrace, src, start, line)
    } else if c == ',' {
        single_step(TokenTypeS::Comma, src, start, line)
    } else if c == '.' {
        single_step(TokenTypeS::Dot, src, start, line)
    } else if c == '-' {
        single_step(TokenTypeS::Minus, src, start, line)
    } else if c == '+' {
        single_step(TokenTypeS::Plus, src, start, line)
    } else if c == ';' {
        single_step(TokenTypeS::Semicolon, src, start, line)
    } else if c == '*' {
        single_step(TokenTypeS::Star, src, start, line)
    } else if c == '!' {
        two_char_step(src, start, line, TokenTypeS::BangEqual, TokenTypeS::Bang)
    } else if c == '=' {
        two_char_step(src, start, line, TokenTypeS::EqualEqual, TokenTypeS::Equal)
    } else if c == '<' {
        two_char_step(src, start, line, TokenTypeS::LessEqual, TokenTypeS::Less)
    } else if c == '>' {
        two_char_step(src, start, line, TokenTypeS::GreaterEqual, TokenTypeS::Greater)
    } else if c == '/' {
        if start + 1 < src.len() && src[start + 1] == '/' {
            ScanStep::Skip { next: line_end(src, start + 2), line }
        } else {
            single_step(TokenTypeS::Slash, src, start, line)
        }
    } else if is_blank(c) {
        ScanStep::Skip { next: start + 1, line }
    } else if c == '\n' {
        ScanStep::Skip { next: start + 1, line: line + 1 }
    } else if c == '"' {
        string_step(src, start, line)
    } else if is_digit_c(c) {
        number_step(src, start, line)
    } else if is_alpha_c(c) {
        ident_step(src, start, line)
    } else {
        ScanStep::Fail { kind: ScanErrorKind::UnexpectedCharacter, line }
    }
}

/// The whole scan from position `pos` on line `line`: the remaining
/// tokens, ended by the end-of-stream token, or the first lexical error.
pub open spec fn scan_from(src: Seq<char>, pos: int, line: int) -> Result<Seq<TokenS>, ScanErrS>
    decreases src.len() - pos, when 0 <= pos <= src.len()
{
    if pos >= src.len() {
        Ok(seq![TokenS { kind: TokenTypeS::Eof, lexeme: Seq::empty(), line }])
    } else {
        match scan_step(src, pos, line) {
            ScanStep::Emit { t, next, line: l2 } => if pos < next <= src.len() {
                match scan_from(src, next, l2) {
                    Ok(rest) => Ok(seq![t] + rest),
                    Err(e) => Err(e),
                }
            } else {
                Err(ScanErrS { kind: ScanErrorKind::UnexpectedCharacter, line })
            },
            ScanStep::Skip { next, line: l2 } => if pos < next <= src.len() {
                scan_from(src, next, l2)
            } else {
                Err(ScanErrS { kind: ScanErrorKind::UnexpectedCharacter, line })
            },
            ScanStep::Fail { kind, line: l2 } => Err(ScanErrS { kind, line: l2 }),
        }
    }
}

/// The character at `pos`, or the null character at or past the end.
pub open spec fn peek_at(src: Seq<char>, pos: int) -> char {
    if 0 <= pos < src.len() {
        src[pos]
    } else {
        '\0'
    }
}

pub proof fn lemma_digits_end_bounds(src: Seq<char>, pos: int)
    requires
        0 <= pos <= src.len(),
    ensures
        pos <= digits_end(src, pos) <= src.len(),
    decreases src.len() - pos,
{
    if pos < src.len() && is_digit_c(src[pos]) {
        lemma_digits_end_bounds(src, pos + 1);
    }
}

pub proof fn lemma_alnum_end_bounds(src: Seq<char>, pos: int)
    requires
        0 <= pos <= src.len(),
    ensures
        pos <= alnum_end(src, pos) <= src.len(),
    decreases src.len() - pos,
{
    if pos < src.len() && is_alnum_c(src[pos]) {
        lemma_alnum_end_bounds(src, pos + 1);
    }
}

pub proof fn lemma_quote_end_bounds(src: Seq<char>, pos: int)
    requires
        0 <= pos <= src.len(),
    ensures
        pos <= quote_end(src, pos) <= src.len(),
    decreases src.len() - pos,
{
    if pos < src.len() && src[pos] != '"' {
        lemma_quote_end_bounds(src, pos + 1);
    }
}

pub proof fn lemma_line_end_bounds(src: Seq<char>, pos: int)
    requires
        0 <= pos <= src.len(),
    ensures
        pos <= line_end(src, pos) <= src.len(),
    decreases src.len() - pos,
{
    if pos < src.len() && src[pos] != '\n' {
        lemma_line_end_bounds(src, pos + 1);
    }
}

pub proof fn lemma_newlines_bounds(src: Seq<char>, a: int, b: int)
    requires
        a <= b,
    ensures
        0 <= newlines_in(src, a, b) <= b - a,
    decreases b - a,
{
    if a < b {
        lemma_newlines_bounds(src, a, b - 1);
    }
}

pub proof fn lemma_digits_val_nonneg(src: Seq<char>, a: int, b: int)
    requires
        a <= b,
        forall|i: int| a <= i < b ==> is_digit_c(#[trigger] src[i]),
    ensures
        digits_val(src, a, b) >= 0,
    decreases b - a,
{
    if a < b {
        lemma_digits_val_nonneg(src, a, b - 1);
    }
}

pub proof fn lemma_digits_val_mono(src: Seq<char>, a: int, b: int, c: int)
    requires
        a <= b <= c,
        forall|i: int| a <= i < c ==> is_digit_c(#[trigger] src[i]),
    ensures
        digits_val(src, a, b) <= digits_val(src, a, c),
    decreases c - b,
{
    if b < c {
        lemma_digits_val_mono(src, a, b, c - 1);
        lemma_digits_val_nonneg(src, a, c - 1);
    }
}

pub proof fn lemma_pow10_pos(k: int)
    requires
        k >= 0,
    ensures
        pow10(k) >= 1,
    decreases k,
{
    if k > 0 {
        lemma_pow10_pos(k - 1);
    }
}

pub proof fn lemma_pow10_mono(j: int, k: int)
    requires
        0 <= j <= k,
    ensures
        pow10(j) <= pow10(k),
    decreases k - j,
{
    if j < k {
        lemma_pow10_mono(j, k - 1);
        lemma_pow10_pos(k - 1);
    }
}

/// The value of `ip` digits followed by the digits of `src` in `[f, f+j)`,
/// read as one digit string.
pub open spec fn scaled_val(ip: int, src: Seq<char>, f: int, j: int) -> int {
    ip * pow10(j) + digits_val(src, f, f + j)
}

pub proof fn lemma_scaled_val_step(ip: int, src: Seq<char>, f: int, j: int)
    requires
        0 <= j,
        f + j < src.len(),
        0 <= f,
    ensures
        scaled_val(ip, src, f, j + 1) == scaled_val(ip, src, f, j) * 10 + digit_val(src[f + j]),
{
    assert(pow10(j + 1) == 10 * pow10(j));
    assert(ip * (10 * pow10(j)) == (ip * pow10(j)) * 10) by (nonlinear_arith);
    assert(digits_val(src, f, f + j + 1) == digits_val(src, f, f + j) * 10 + digit_val(src[f + j]));
}

pub proof fn lemma_scaled_val_nonneg(ip: int, src: Seq<char>, f: int, j: int)
    requires
        0 <= ip,
        0 <= j,
        0 <= f,
        f + j <= src.len(),
        forall|i: int| f <= i < f + j ==> is_digit_c(#[trigger] src[i]),
    ensures
        scaled_val(ip, src, f, j) >= 0,
{
    lemma_pow10_pos(j);
    assert(ip * pow10(j) >= 0) by (nonlinear_arith)
        requires
            ip >= 0,
            pow10(j) >= 1,
    ;
    lemma_digits_val_nonneg(src, f, f + j);
}

pub proof fn lemma_scaled_val_mono(ip: int, src: Seq<char>, f: int, j: int, k: int)
    requires
        0 <= ip,
        0 <= j <= k,
        0 <= f,
        f + k <= src.len(),
        forall|i: int| f <= i < f + k ==> is_digit_c(#[trigger] src[i]),
    ensures
        scaled_val(ip, src, f, j) <= scaled_val(ip, src, f, k),
    decreases k - j,
{
    if j < k {
        lemma_scaled_val_mono(ip, src, f, j, k - 1);
        lemma_scaled_val_nonneg(ip, src, f, k - 1);
        lemma_scaled_val_step(ip, src, f, k - 1);
        assert(digit_val(src[f + k - 1]) >= 0);
    }
}

/// Every step of the scanner consumes at least one character, stays within
/// the source, and moves the line counter forward by at most the characters
/// it consumed.
pub proof fn lemma_scan_step_progress(src: Seq<char>, pos: int, line: int)
    requires
        0 <= pos < src.len(),
    ensures
        match scan_step(src, pos, line) {
            ScanStep::Emit { t, next, line: l2 } => pos < next <= src.len() && line <= l2 <= line
                + (next - pos),
            ScanStep::Skip { next, line: l2 } => pos < next <= src.len() && line <= l2 <= line + (
            next - pos),
            ScanStep::Fail { kind, line: l2 } => line <= l2 <= line + (src.len() - pos),
        },
{
    let c = src[pos];
    if c == '/' && pos + 1 < src.len() && src[pos + 1] == '/' {
        lemma_line_end_bounds(src, pos + 2);
    } else if c == '"' {
        lemma_quote_end_bounds(src, pos + 1);
        let e = quote_end(src, pos + 1);
        lemma_newlines_bounds(src, pos + 1, e);
    } else if is_digit_c(c) {
        lemma_digits_end_bounds(src, pos + 1);
        assert(digits_end(src, pos) == digits_end(src, pos + 1));
        let e1 = digits_end(src, pos);
        if e1 + 1 < src.len() && src[e1] == '.' && is_digit_c(src[e1 + 1]) {
            lemma_digits_end_bounds(src, e1 + 1);
        }
    } else if c == '(' || c == ')' || c == '{' || c == '}' || c == ',' || c == '.' || c == '-' || c
        == '+' || c == ';' || c == '*' || c == '!' || c == '=' || c == '<' || c == '>' || c == '/'
        || is_blank(c) || c == '\n' {
    } else if is_alpha_c(c) {
        lemma_alnum_end_bounds(src, pos + 1);
        assert(alnum_end(src, pos) == alnum_end(src, pos + 1));
    }
}

pub proof fn lemma_token_views_push(ts: Seq<Token>, t: Token)
    ensures
        token_views(ts.push(t)) == token_views(ts).push(t@),
{
    assert(token_views(ts.push(t)) =~= token_views(ts).push(t@));
}

/// The single forward pass over the source: two cursors delimit the
/// current lexeme, the first fatal error makes the whole scan fail.
pub struct Scanner<'a> {
    pub source: &'a str,
    pub n_chars: usize,
    pub tokens: Vec<Token>,
    pub start: usize,
    pub current: usize,
    pub line: usize,
    pub has_error: bool,
    pub failure: Option<ScanError>,
}

impl<'a> Scanner<'a> {
    /// Cursors within bounds, the line counter 1-based and bounded by the
    /// characters consumed, and the sticky error flag tied to a recorded
    /// error.
    pub open spec fn wf(self) -> bool {
        &&& self.n_chars == self.source@.len()
        &&& self.source@.len() < usize::MAX
        &&& self.current <= self.n_chars
        &&& self.start <= self.current
        &&& 1 <= self.line
        &&& self.line <= 1 + self.current
        &&& (self.has_error <==> self.failure is Some)
    }

    /// A scanner that has not consumed anything yet.
    pub open spec fn ready(self) -> bool {
        &&& self.wf()
        &&& self.tokens@ == Seq::<Token>::empty()
        &&& self.current == 0
        &&& self.start == 0
        &&& self.line == 1
        &&& !self.has_error
    }

    /// What one scanner step left behind, relative to `scan_step`.
    pub open spec fn step_applied(pre: Scanner<'a>, post: Scanner<'a>, step: ScanStep) -> bool {
        match step {
            ScanStep::Emit { t, next, line } => {
                &&& !post.has_error
                &&& post.failure == pre.failure
                &&& token_views(post.tokens@) == token_views(pre.tokens@).push(t)
                &&& post.current as int == next
                &&& post.line as int == line
            },
            ScanStep::Skip { next, line } => {
                &&& !post.has_error
                &&& post.failure == pre.failure
                &&& token_views(post.tokens@) == token_views(pre.tokens@)
                &&& post.current as int == next
                &&& post.line as int == line
            },
            ScanStep::Fail { kind, line } => {
                &&& post.has_error
                &&& post.failure matches Some(f) && f@ == (ScanErrS { kind, line })
                &&& token_views(post.tokens@) == token_views(pre.tokens@)
            },
        }
    }

    /// Builds a scanner over `source`.
    pub fn new(source: &'a str) -> (s: Scanner<'a>)
        requires
            source@.len() < usize::MAX,
        ensures
            s.ready(),
            s.source@ == source@,
    {
        let n = source.unicode_len();
        Scanner {
            source,
            n_chars: n,
            tokens: Vec::new(),
            start: 0,
            current: 0,
            line: 1,
            has_error: false,
            failure: None,
        }
    }

    fn is_digit(c: char) -> (r: bool)
        ensures
            r == is_digit_c(c),
    {
        let u = c as u32;
        48 <= u && u <= 57
    }

    fn is_alpha(c: char) -> (r: bool)
        ensures
            r == is_alpha_c(c),
    {
        let u = c as u32;
        (97 <= u && u <= 122) || (65 <= u && u <= 90) || c == '_'
    }

    fn is_alpha_numeric(c: char) -> (r: bool)
        ensures
            r == is_alnum_c(c),
    {
        Self::is_alpha(c) || Self::is_digit(c)
    }

    fn is_at_end(&self) -> (r: bool)
        requires
            self.wf(),
        ensures
            r == (self.current >= self.source@.len()),
    {
        self.current >= self.n_chars
    }

    fn peek(&self) -> (c: char)
        requires
            self.wf(),
        ensures
            c == peek_at(self.source@, self.current as int),
    {
        if self.current >= self.n_chars {
            '\0'
        } else {
            self.source.get_char(self.current)
        }
    }

    fn peek_next(&self) -> (c: char)
        requires
            self.wf(),
        ensures
            c == peek_at(self.source@, self.current + 1),
    {
        if self.current + 1 >= self.n_chars {
            '\0'
        } else {
            self.source.get_char(self.current + 1)
        }
    }

    fn advance(&mut self) -> (c: char)
        requires
            old(self).wf(),
            old(self).current < old(self).source@.len(),
        ensures
            final(self).wf(),
            c == old(self).source@[old(self).current as int],
            final(self).current == old(self).current + 1,
            final(self).source == old(self).source,
            final(self).n_chars == old(self).n_chars,
            final(self).tokens == old(self).tokens,
            final(self).start == old(self).start,
            final(self).line == old(self).line,
            final(self).has_error == old(self).has_error,
            final(self).failure == old(self).failure,
    {
        let c = self.source.get_char(self.current);
        self.current = self.current + 1;
        c
    }

    fn matching(&mut self, expected: char) -> (r: bool)
        requires
            old(self).wf(),
        ensures
            final(self).wf(),
            r == (old(self).current < old(self).source@.len() && old(self).source@[old(
                self,
            ).current as int] == expected),
            final(self).current == if r {
                old(self).current + 1
            } else {
                old(self).current as int
            },
            final(self).source == old(self).source,
            final(self).n_chars == old(self).n_chars,
            final(self).tokens == old(self).tokens,
            final(self).start == old(self).start,
            final(self).line == old(self).line,
            final(self).has_error == old(self).has_error,
            final(self).failure == old(self).failure,
    {
        if self.current >= self.n_chars {
            return false;
        }
        if self.source.get_char(self.current) != expected {
            return false;
        }
        self.current = self.current + 1;
        true
    }

    fn add_token(&mut self, token_type: TokenType)
        requires
            old(self).wf(),
        ensures
            final(self).wf(),
            token_views(final(self).tokens@) == token_views(old(self).tokens@).push(
                TokenS {
                    kind: token_type@,
                    lexeme: old(self).source@.subrange(
                        old(self).start as int,
                        old(self).current as int,
                    ),
                    line: old(self).line as int,
                },
            ),
            final(self).source == old(self).source,
            final(self).n_chars == old(self).n_chars,
            final(self).start == old(self).start,
            final(self).current == old(self).current,
            final(self).line == old(self).line,
            final(self).has_error == old(self).has_error,
            final(self).failure == old(self).failure,
    {
        let text = self.source.substring_char(self.start, self.current);
        let t = Token::new(token_type, text, self.line);
        proof {
            lemma_token_views_push(self.tokens@, t);
        }
        self.tokens.push(t);
    }

    /// Parses the decimal digits of `s` in `[a, b)`; `None` exactly when
    /// their value exceeds `i64::MAX`.
    fn parse_digits(s: &str, a: usize, b: usize) -> (r: Option<u64>)
        requires
            a <= b <= s@.len(),
            forall|i: int| a <= i < b ==> is_digit_c(#[trigger] s@[i]),
        ensures
            match r {
                Some(v) => v as int == digits_val(s@, a as int, b as int) && v <= i64::MAX,
                None => digits_val(s@, a as int, b as int) > i64::MAX,
            },
    {
        let mut acc: u64 = 0;
        let mut i: usize = a;
        while i < b
            invariant
                a <= i <= b <= s@.len(),
                acc as int == digits_val(s@, a as int, i as int),
                acc <= i64::MAX,
                forall|j: int| a <= j < b ==> is_digit_c(#[trigger] s@[j]),
            decreases b - i,
        {
            let c = s.get_char(i);
            let d: u64 = (c as u32 as u64) - 48;
            let t: u128 = (acc as u128) * 10 + (d as u128);
            if t > i64::MAX as u128 {
                proof {
                    lemma_digits_val_mono(s@, a as int, i + 1, b as int);
                }
                return None;
            }
            acc = t as u64;
            i = i + 1;
        }
        Some(acc)
    }

    /// Parses the digits of `s` in `[f, e)` as the fractional part behind
    /// the integer part `ip`: returns the combined numerator and the
    /// denominator `10^(e-f)`; `None` exactly when either overflows.
    fn parse_scaled(s: &str, ip: u64, f: usize, e: usize) -> (r: Option<(u64, u64)>)
        requires
            f <= e <= s@.len(),
            ip <= i64::MAX,
            forall|i: int| f <= i < e ==> is_digit_c(#[trigger] s@[i]),
        ensures
            ({
                let k = e - f;
                let nv = scaled_val(ip as int, s@, f as int, k);
                let dv = pow10(k);
                match r {
                    Some(p) => p.0 as int == nv && p.0 <= i64::MAX && p.1 as int == dv,
                    None => nv > i64::MAX || dv > u64::MAX,
                }
            }),
    {
        let mut num: u64 = ip;
        let mut den: u64 = 1;
        let mut i: usize = f;
        proof {
            assert(scaled_val(ip as int, s@, f as int, 0) == ip * 1 + 0);
        }
        while i < e
            invariant
                f <= i <= e <= s@.len(),
                ip <= i64::MAX,
                num as int == scaled_val(ip as int, s@, f as int, i - f),
                num <= i64::MAX,
                den as int == pow10(i - f),
                forall|j: int| f <= j < e ==> is_digit_c(#[trigger] s@[j]),
            decreases e - i,
        {
            let c = s.get_char(i);
            let d: u64 = (c as u32 as u64) - 48;
            let tn: u128 = (num as u128) * 10 + (d as u128);
            let td: u128 = (den as u128) * 10;
            proof {
                lemma_scaled_val_step(ip as int, s@, f as int, i - f);
            }
            if tn > i64::MAX as u128 || td > u64::MAX as u128 {
                proof {
                    lemma_scaled_val_mono(ip as int, s@, f as int, i + 1 - f, e - f);
                    lemma_pow10_mono(i + 1 - f, e - f);
                    lemma_pow10_pos(i - f);
                }
                return None;
            }
            num = tn as u64;
            den = td as u64;
            i = i + 1;
        }
        Some((num, den))
    }

    /// Looks an identifier's text up in the fixed keyword table.
    fn keyword_token(text: &str) -> (t: TokenType)
        ensures
            t@ == keyword_or_identifier(text@),
    {
        let o = text.to_owned();
        if o == String::from_str("and") {
            TokenType::And
        } else if o == String::from_str("class") {
            TokenType::Class
        } else if o == String::from_str("else") {
            TokenType::Else
        } else if o == String::from_str("false") {
            TokenType::False
        } else if o == String::from_str("for") {
            TokenType::For
        } else if o == String::from_str("fun") {
            TokenType::Fun
        } else if o == String::from_str("if") {
            TokenType::If
        } else if o == String::from_str("nil") {
            TokenType::Nil
        } else if o == String::from_str("or") {
            TokenType::Or
        } else if o == String::from_str("print") {
            TokenType::Print
        } else if o == String::from_str("return") {
            TokenType::Return
        } else if o == String::from_str("super") {
            TokenType::Super
        } else if o == String::from_str("this") {
            TokenType::This
        } else if o == String::from_str("true") {
            TokenType::True
        } else if o == String::from_str("var") {
            TokenType::Var
        } else if o == String::from_str("while") {
            TokenType::While
        } else {
            TokenType::Identifier
        }
    }

    fn fail(&mut self, kind: ScanErrorKind)
        requires
            old(self).wf(),
        ensures
            final(self).wf(),
            final(self).has_error,
            final(self).failure matches Some(f) && f@ == (ScanErrS {
                kind,
                line: old(self).line as int,
            }),
            token_views(final(self).tokens@) == token_views(old(self).tokens@),
            final(self).source == old(self).source,
            final(self).n_chars == old(self).n_chars,
            final(self).start == old(self).start,
            final(self).current == old(self).current,
            final(self).line == old(self).line,
    {
        self.has_error = true;
        self.failure = Some(ScanError { kind, line: self.line });
    }

    /// Scans a string literal; the opening quote is already consumed.
    fn string(&mut self)
        requires
            old(self).wf(),
            !old(self).has_error,
            old(self).current == old(self).start + 1,
            old(self).start < old(self).source@.len(),
            old(self).source@[old(self).start as int] == '"',
            old(self).line <= 1 + old(self).start,
        ensures
            final(self).wf(),
            Self::step_applied(
                *old(self),
                *final(self),
                string_step(old(self).source@, old(self).start as int, old(self).line as int),
            ),
            final(self).source == old(self).source,
            final(self).n_chars == old(self).n_chars,
            final(self).start == old(self).start,
            final(self).current >= old(self).current,
    {
        let ghost src = self.source@;
        let ghost start0 = self.start as int;
        let ghost line0 = self.line as int;
        let ghost pre = *self;
        while self.peek() != '"' && !self.is_at_end()
            invariant
                self.wf(),
                self.source == pre.source,
                self.n_chars == pre.n_chars,
                self.tokens == pre.tokens,
                self.start == pre.start,
                self.has_error == pre.has_error,
                self.failure == pre.failure,
                !self.has_error,
                src == self.source@,
                start0 == self.start as int,
                0 <= start0 < src.len(),
                src[start0] == '"',
                start0 + 1 <= self.current <= src.len(),
                quote_end(src, start0 + 1) == quote_end(src, self.current as int),
                self.line as int == line0 + newlines_in(src, start0 + 1, self.current as int),
                line0 <= 1 + start0,
            decreases src.len() - self.current,
        {
            proof {
                lemma_newlines_bounds(src, start0 + 1, self.current as int);
            }
            if self.peek() == '\n' {
                self.line = self.line + 1;
            }
            self.advance();
        }
        proof {
            lemma_newlines_bounds(src, start0 + 1, self.current as int);
        }
        if self.is_at_end() {
            self.fail(ScanErrorKind::UnterminatedString);
            return ;
        }
        self.advance();
        let value = self.source.substring_char(self.start + 1, self.current - 1);
        self.add_token(TokenType::StringLiteral { literal: value.to_owned() });
    }

    /// Scans a number literal; the first digit is already consumed.
    fn number(&mut self)
        requires
            old(self).wf(),
            !old(self).has_error,
            old(self).current == old(self).start + 1,
            old(self).start < old(self).source@.len(),
            is_digit_c(old(self).source@[old(self).start as int]),
        ensures
            final(self).wf(),
            Self::step_applied(
                *old(self),
                *final(self),
                number_step(old(self).source@, old(self).start as int, old(self).line as int),
            ),
            final(self).source == old(self).source,
            final(self).n_chars == old(self).n_chars,
            final(self).start == old(self).start,
            final(self).line == old(self).line,
            final(self).current >= old(self).current,
    {
        let ghost src = self.source@;
        let ghost start0 = self.start as int;
        let ghost pre = *self;
        while Self::is_digit(self.peek())
            invariant
                self.wf(),
                self.source == pre.source,
                self.n_chars == pre.n_chars,
                self.tokens == pre.tokens,
                self.start == pre.start,
                self.line == pre.line,
                self.has_error == pre.has_error,
                self.failure == pre.failure,
                src == self.source@,
                start0 == self.start as int,
                0 <= start0 < src.len(),
                is_digit_c(src[start0]),
                start0 + 1 <= self.current <= src.len(),
                digits_end(src, start0) == digits_end(src, self.current as int),
            decreases src.len() - self.current,
        {
            self.advance();
        }
        let int_end = self.current;
        proof {
            assert(digits_end(src, start0) == int_end);
            lemma_digits_end_digits(src, start0);
            lemma_digits_end_bounds(src, start0);
        }
        if self.peek() == '.' && Self::is_digit(self.peek_next()) {
            self.advance();
            let frac_start = self.current;
            while Self::is_digit(self.peek())
                invariant
                    self.wf(),
                    self.source == pre.source,
                    self.n_chars == pre.n_chars,
                    self.tokens == pre.tokens,
                    self.start == pre.start,
                    self.line == pre.line,
                    self.has_error == pre.has_error,
                    self.failure == pre.failure,
                    src == self.source@,
                    start0 == self.start as int,
                    0 <= start0 <= int_end as int,
                    frac_start == int_end + 1,
                    int_end + 1 <= self.current <= src.len(),
                    digits_end(src, frac_start as int) == digits_end(src, self.current as int),
                decreases src.len() - self.current,
            {
                self.advance();
            }
            let end = self.current;
            proof {
                assert(digits_end(src, frac_start as int) == end);
                lemma_digits_end_digits(src, frac_start as int);
            }
            match Self::parse_digits(self.source, self.start, int_end) {
                None => {
                    proof {
                        let k = end - frac_start;
                        let ipv = digits_val(src, start0, int_end as int);
                        lemma_pow10_pos(k as int);
                        lemma_digits_val_nonneg(src, frac_start as int, end as int);
                        assert(ipv * pow10(k as int) >= ipv) by (nonlinear_arith)
                            requires
                                ipv > 0,
                                pow10(k as int) >= 1,
                        ;
                    }
                    self.fail(ScanErrorKind::NumberOutOfRange);
                },
                Some(ip) => {
                    match Self::parse_scaled(self.source, ip, frac_start, end) {
                        None => {
                            self.fail(ScanErrorKind::NumberOutOfRange);
                        },
                        Some(nd) => {
                            let value = Rational { num: nd.0 as i64, den: nd.1 };
                            proof {
                                lemma_pow10_pos((end - frac_start) as int);
                            }
                            self.add_token(TokenType::Number { value });
                        },
                    }
                },
            }
        } else {
            match Self::parse_digits(self.source, self.start, int_end) {
                None => {
                    self.fail(ScanErrorKind::NumberOutOfRange);
                },
                Some(ip) => {
                    self.add_token(
                        TokenType::Number { value: Rational { num: ip as i64, den: 1 } },
                    );
                },
            }
        }
    }

    /// Scans an identifier or keyword; the first character is already
    /// consumed.
    fn identifier(&mut self)
        requires
            old(self).wf(),
            !old(self).has_error,
            old(self).current == old(self).start + 1,
            old(self).start < old(self).source@.len(),
            is_alpha_c(old(self).source@[old(self).start as int]),
        ensures
            final(self).wf(),
            Self::step_applied(
                *old(self),
                *final(self),
                ident_step(old(self).source@, old(self).start as int, old(self).line as int),
            ),
            final(self).source == old(self).source,
            final(self).n_chars == old(self).n_chars,
            final(self).start == old(self).start,
            final(self).line == old(self).line,
            final(self).current >= old(self).current,
    {
        let ghost src = self.source@;
        let ghost start0 = self.start as int;
        let ghost pre = *self;
        while Self::is_alpha_numeric(self.peek())
            invariant
                self.wf(),
                self.source == pre.source,
                self.n_chars == pre.n_chars,
                self.tokens == pre.tokens,
                self.start == pre.start,
                self.line == pre.line,
                self.has_error == pre.has_error,
                self.failure == pre.failure,
                src == self.source@,
                start0 == self.start as int,
                0 <= start0 < src.len(),
                is_alpha_c(src[start0]),
                start0 + 1 <= self.current <= src.len(),
                alnum_end(src, start0) == alnum_end(src, self.current as int),
            decreases src.len() - self.current,
        {
            self.advance();
        }
        proof {
            assert(alnum_end(src, start0) == self.current as int);
        }
        let text = self.source.substring_char(self.start, self.current);
        let tt = Self::keyword_token(text);
        self.add_token(tt);
    }

    /// One scanner step: classifies the character at the cursor and emits
    /// the token, skips the text, or records the error that `scan_step`
    /// prescribes.
    fn scan_token(&mut self)
        requires
            old(self).wf(),
            !old(self).has_error,
            old(self).current < old(self).source@.len(),
            old(self).start == old(self).current,
        ensures
            final(self).wf(),
            Self::step_applied(
                *old(self),
                *final(self),
                scan_step(old(self).source@, old(self).current as int, old(self).line as int),
            ),
            final(self).source == old(self).source,
            final(self).n_chars == old(self).n_chars,
            final(self).start == old(self).start,
            final(self).current > old(self).current,
    {
        let ghost src = self.source@;
        let ghost start0 = self.start as int;
        let ghost pre = *self;
        let c = self.advance();
        match c {
            '(' => self.add_token(TokenType::LeftParen),
            ')' => self.add_token(TokenType::RightParen),
            '{' => self.add_token(TokenType::LeftBrace),
            '}' => self.add_token(TokenType::RightBrace),
            ',' => self.add_token(TokenType::Comma),
            '.' => self.add_token(TokenType::Dot),
            '-' => self.add_token(TokenType::Minus),
            '+' => self.add_token(TokenType::Plus),
            ';' => self.add_token(TokenType::Semicolon),
            '*' => self.add_token(TokenType::Star),
            '!' => {
                if self.matching('=') {
                    self.add_token(TokenType::BangEqual)
                } else {
                    self.add_token(TokenType::Bang)
                }
            },
            '=' => {
                if self.matching('=') {
                    self.add_token(TokenType::EqualEqual)
                } else {
                    self.add_token(TokenType::Equal)
                }
            },
            '<' => {
                if self.matching('=') {
                    self.add_token(TokenType::LessEqual)
                } else {
                    self.add_token(TokenType::Less)
                }
            },
            '>' => {
                if self.matching('=') {
                    self.add_token(TokenType::GreaterEqual)
                } else {
                    self.add_token(TokenType::Greater)
                }
            },
            '/' => {
                if self.matching('/') {
                    while self.peek() != '\n' && !self.is_at_end()
                        invariant
                            self.wf(),
                            self.source == pre.source,
                            self.n_chars == pre.n_chars,
                            self.tokens == pre.tokens,
                            self.start == pre.start,
                            self.line == pre.line,
                            self.has_error == pre.has_error,
                            self.failure == pre.failure,
                            src == self.source@,
                            start0 == self.start as int,
                            0 <= start0,
                            start0 + 2 <= self.current <= src.len(),
                            line_end(src, start0 + 2) == line_end(src, self.current as int),
                        decreases src.len() - self.current,
                    {
                        self.advance();
                    }
                } else {
                    self.add_token(TokenType::Slash)
                }
            },
            ' ' | '\r' | '\t' => {},
            '\n' => {
                self.line = self.line + 1;
            },
            '"' => self.string(),
            _ => {
                if Self::is_digit(c) {
                    self.number();
                } else if Self::is_alpha(c) {
                    self.identifier();
                } else {
                    self.fail(ScanErrorKind::UnexpectedCharacter);
                }
            },
        }
    }

    /// Runs the scanner over the whole source: the token sequence that
    /// `scan_from` prescribes, ended by the end-of-stream token, or the
    /// first lexical error — an unexpected character, an unterminated
    /// string, or a number literal out of the exact model's range (see
    /// `ScanErrorKind`).
    pub fn scan_tokens(self) -> (r: Result<Vec<Token>, ScanError>)
        requires
            self.ready(),
        ensures
            match r {
                Ok(ts) => scan_from(self.source@, 0, 1) == Ok::<Seq<TokenS>, ScanErrS>(
                    token_views(ts@),
                ),
                Err(e) => scan_from(self.source@, 0, 1) == Err::<Seq<TokenS>, ScanErrS>(e@),
            },
    {
        let mut sc = self;
        let ghost src = sc.source@;
        while !sc.is_at_end() && !sc.has_error
            invariant
                sc.wf(),
                sc.source@ == src,
                !sc.has_error ==> (match scan_from(src, sc.current as int, sc.line as int) {
                    Ok(rest) => scan_from(src, 0, 1) == Ok::<Seq<TokenS>, ScanErrS>(
                        token_views(sc.tokens@) + rest,
                    ),
                    Err(e) => scan_from(src, 0, 1) == Err::<Seq<TokenS>, ScanErrS>(e),
                }),
                sc.has_error ==> (sc.failure matches Some(f) && scan_from(src, 0, 1) == Err::<
                    Seq<TokenS>,
                    ScanErrS,
                >(f@)),
            decreases src.len() - sc.current,
        {
            sc.start = sc.current;
            let ghost pos0 = sc.current as int;
            let ghost line0 = sc.line as int;
            let ghost toks0 = token_views(sc.tokens@);
            proof {
                lemma_scan_step_progress(src, pos0, line0);
            }
            sc.scan_token();
            proof {
                match scan_step(src, pos0, line0) {
                    ScanStep::Emit { t, next, line: l2 } => {
                        match scan_from(src, next, l2) {
                            Ok(rest2) => {
                                assert(scan_from(src, pos0, line0) == Ok::<Seq<TokenS>, ScanErrS>(
                                    seq![t] + rest2,
                                ));
                                assert(toks0 + (seq![t] + rest2) =~= toks0.push(t) + rest2);
                            },
                            Err(e2) => {
                                assert(scan_from(src, pos0, line0) == Err::<Seq<TokenS>, ScanErrS>(
                                    e2,
                                ));
                            },
                        }
                    },
                    ScanStep::Skip { next, line: l2 } => {
                        assert(scan_from(src, pos0, line0) == scan_from(src, next, l2));
                    },
                    ScanStep::Fail { kind, line: l2 } => {
                        assert(scan_from(src, pos0, line0) == Err::<Seq<TokenS>, ScanErrS>(
                            ScanErrS { kind, line: l2 },
                        ));
                    },
                }
            }
        }
        if sc.has_error {
            let f = sc.failure.unwrap();
            return Err(f);
        }
        proof {
            assert(scan_from(src, sc.current as int, sc.line as int) == Ok::<
                Seq<TokenS>,
                ScanErrS,
            >(
                seq![
                    TokenS {
                        kind: TokenTypeS::Eof,
                        lexeme: Seq::empty(),
                        line: sc.line as int,
                    },
                ],
            ));
        }
        let ghost toks0 = token_views(sc.tokens@);
        let eof = Token::new(TokenType::Eof, "", sc.line);
        proof {
            reveal_strlit("");
            assert(""@ =~= Seq::<char>::empty());
            lemma_token_views_push(sc.tokens@, eof);
        }
        sc.tokens.push(eof);
        proof {
            assert(token_views(sc.tokens@) =~= toks0 + seq![
                TokenS { kind: TokenTypeS::Eof, lexeme: Seq::empty(), line: sc.line as int },
            ]);
        }
        Ok(sc.tokens)
    }
}

/// The unconditional one-character punctuation: characters whose token is
/// always exactly one character long.
pub open spec fn is_single_punct(c: char) -> bool {
    c == '(' || c == ')' || c == '{' || c == '}' || c == ',' || c == '.' || c == '-' || c == '+'
        || c == ';' || c == '*'
}

/// Whitespace between tokens: blanks and newlines.
pub open spec fn is_separator(c: char) -> bool {
    is_blank(c) || c == '\n'
}

/// `is_single_punct` as a value, so that every statement of the
/// round-trip law speaks of one and the same predicate.
pub open spec fn punct_pred() -> spec_fn(char) -> bool {
    |c: char| is_single_punct(c)
}

/// The lexemes of a token sequence, in order.
pub open spec fn lexemes_of(ts: Seq<TokenS>) -> Seq<Seq<char>> {
    ts.map_values(|t: TokenS| t.lexeme)
}

/// Round trip of the scan over single-character punctuation: on a source
/// holding only one-character punctuation tokens separated by whitespace,
/// the scan succeeds, every token before the closing end-of-stream token
/// has a one-character lexeme, and those lexemes, concatenated in order,
/// are exactly the punctuation characters of the source in order: each
/// token's lexeme equals the one-character substring it was scanned from.
pub proof fn lemma_single_char_round_trip(src: Seq<char>, pos: int, line: int)
    requires
        0 <= pos <= src.len(),
        forall|i: int|
            0 <= i < src.len() ==> is_single_punct(#[trigger] src[i]) || is_separator(src[i]),
    ensures
        scan_from(src, pos, line) is Ok,
        ({
            let toks = scan_from(src, pos, line)->Ok_0;
            &&& toks.len() >= 1
            &&& toks.last().kind is Eof
            &&& forall|k: int| 0 <= k < toks.len() - 1 ==> (#[trigger] toks[k].lexeme).len() == 1
            &&& lexemes_of(toks.drop_last()).flatten() == src.subrange(
                pos,
                src.len() as int,
            ).filter(punct_pred())
        }),
    decreases src.len() - pos,
{
    reveal_with_fuel(Seq::<_>::filter, 3);
    if pos >= src.len() {
        let toks = scan_from(src, pos, line)->Ok_0;
        assert(toks.drop_last() =~= Seq::<TokenS>::empty());
        assert(lexemes_of(toks.drop_last()) =~= Seq::<Seq<char>>::empty());
        assert(lexemes_of(toks.drop_last()).flatten() =~= Seq::<char>::empty());
        assert(src.subrange(pos, src.len() as int) =~= Seq::<char>::empty());
    } else {
        let c = src[pos];
        let tail = src.subrange(pos + 1, src.len() as int);
        assert(src.subrange(pos, src.len() as int) =~= seq![c] + tail);
        Seq::<char>::filter_distributes_over_add(seq![c], tail, punct_pred());
        assert(seq![c].drop_last() =~= Seq::<char>::empty());
        lemma_single_char_round_trip(src, pos + 1, if c == '\n' {
            line + 1
        } else {
            line
        });
        let rest = scan_from(src, pos + 1, if c == '\n' {
            line + 1
        } else {
            line
        })->Ok_0;
        if is_single_punct(c) {
            assert(seq![c].filter(punct_pred()) =~= seq![c]);
            let t = scan_step(src, pos, line)->Emit_t;
            assert(t.lexeme =~= seq![c]);
            assert(scan_from(src, pos, line) == Ok::<Seq<TokenS>, ScanErrS>(seq![t] + rest));
            let toks = seq![t] + rest;
            assert(toks.last() == rest.last());
            assert forall|k: int| 0 <= k < toks.len() - 1 implies (#[trigger] toks[k].lexeme).len()
                == 1 by {
                if k > 0 {
                    assert(toks[k] == rest[k - 1]);
                }
            }
            assert(toks.drop_last() =~= seq![t] + rest.drop_last());
            let m = lexemes_of(rest.drop_last());
            assert(lexemes_of(toks.drop_last()) =~= seq![t.lexeme] + m);
            assert((seq![t.lexeme] + m).drop_first() =~= m);
            assert(lexemes_of(toks.drop_last()).flatten() == t.lexeme + m.flatten());
            assert(t.lexeme + m.flatten() =~= seq![c].filter(punct_pred()) + tail.filter(
                punct_pred(),
            ));
        } else {
            assert(seq![c].filter(punct_pred()) =~= Seq::<char>::empty());
            assert(scan_from(src, pos, line) == Ok::<Seq<TokenS>, ScanErrS>(rest));
            assert(lexemes_of(rest.drop_last()).flatten() =~= seq![c].filter(punct_pred())
                + tail.filter(punct_pred()));
        }
    }
}

pub proof fn lemma_digits_end_digits(src: Seq<char>, pos: int)
    requires
        0 <= pos <= src.len(),
    ensures
        forall|i: int| pos <= i < digits_end(src, pos) ==> is_digit_c(#[trigger] src[i]),
    decreases src.len() - pos,
{
    if pos < src.len() && is_digit_c(src[pos]) {
        lemma_digits_end_digits(src, pos + 1);
        lemma_digits_end_bounds(src, pos + 1);
    }
}

} // verus!
