//! Recursive-descent parsing over the token sequence: a precedence
//! ladder, each left-associative level folding `Binary` nodes while its
//! operator set matches, unary by right recursion, and parenthesized
//! groups checked for their closing parenthesis. The whole parse is
//! specified by `p_expression` and the level functions beside it.
use vstd::prelude::*;
use vstd::string::*;

use crate::ast::ExprS;
use crate::ast::Expression;
use crate::messages::report;
use crate::messages::report_text;
use crate::scanner::token_views;
use crate::scanner::Token;
use crate::scanner::TokenS;
use crate::scanner::TokenType;
use crate::scanner::TokenTypeS;

verus! {

/// A parse error: its message, the offending lexeme, and the 1-based
/// line it was found on (line 0 when the token sequence simply ended).
#[derive(Debug, PartialEq)]
pub struct ParserError {
    pub message: String,
    pub line: usize,
    pub lexeme: String,
}

/// Mathematical model of a parse error.
pub struct ParseErrS {
    pub message: Seq<char>,
    pub line: int,
    pub lexeme: Seq<char>,
}

impl View for ParserError {
    type V = ParseErrS;

    open spec fn view(&self) -> ParseErrS {
        ParseErrS { message: self.message@, line: self.line as int, lexeme: self.lexeme@ }
    }
}

impl ParserError {
    /// The diagnostic line `[line <N>] Error <lexeme>: <message>`,
    /// newline-terminated.
    pub fn display_string(&self) -> (s: String)
        ensures
            s@ == report_text(self.line as int, self.lexeme@, self.message@) + "\n"@,
    {
        let mut s = report(self.line, self.lexeme.as_str(), self.message.as_str());
        s.append("\n");
        s
    }
}

/// What one parsing level returns: the tree or error, and where the
/// cursor stands afterwards.
pub struct ParseOut {
    pub result: Result<ExprS, ParseErrS>,
    pub next: int,
}

/// An expression: the lowest-precedence level.
pub open spec fn p_expression(ts: Seq<TokenS>, pos: int) -> ParseOut
    decreases ts.len() - pos, 6int, when 0 <= pos <= ts.len()
{
    p_equality(ts, pos)
}

/// The equality level: a comparison, then a left fold over `!=` / `==`.
pub open spec fn p_equality(ts: Seq<TokenS>, pos: int) -> ParseOut
    decreases ts.len() - pos, 5int, when 0 <= pos <= ts.len()
{
    let h = p_comparison(ts, pos);
    match h.result {
        Ok(e) => if pos < h.next <= ts.len() {
            p_equality_tail(ts, h.next, e)
        } else {
            h
        },
        Err(_) => h,
    }
}

/// Whether `k` is an equality operator.
pub open spec fn is_equality_op_s(k: TokenTypeS) -> bool {
    k is BangEqual || k is EqualEqual
}

/// The left fold of the equality level over an already parsed left side.
pub open spec fn p_equality_tail(ts: Seq<TokenS>, pos: int, acc: ExprS) -> ParseOut
    decreases ts.len() - pos, 5int, when 0 <= pos <= ts.len()
{
    if pos < ts.len() && is_equality_op_s(ts[pos].kind) {
        let h = p_comparison(ts, pos + 1);
        match h.result {
            Ok(rhs) => {
                let acc2 = ExprS::Binary {
                    l_expr: Box::new(acc),
                    operator: ts[pos],
                    r_expr: Box::new(rhs),
                };
                if pos + 1 < h.next <= ts.len() {
                    p_equality_tail(ts, h.next, acc2)
                } else {
                    ParseOut { result: Ok(acc2), next: h.next }
                }
            },
            Err(e) => ParseOut { result: Err(e), next: h.next },
        }
    } else {
        ParseOut { result: Ok(acc), next: pos }
    }
}

/// Whether `k` is a comparison operator.
pub open spec fn is_comparison_op_s(k: TokenTypeS) -> bool {
    k is Greater || k is GreaterEqual || k is Less || k is LessEqual
}

/// The comparison level: a term, then a left fold over `> >= < <=`.
pub open spec fn p_comparison(ts: Seq<TokenS>, pos: int) -> ParseOut
    decreases ts.len() - pos, 4int, when 0 <= pos <= ts.len()
{
    let h = p_term(ts, pos);
    match h.result {
        Ok(e) => if pos < h.next <= ts.len() {
            p_comparison_tail(ts, h.next, e)
        } else {
            h
        },
        Err(_) => h,
    }
}

/// The left fold of the comparison level.
pub open spec fn p_comparison_tail(ts: Seq<TokenS>, pos: int, acc: ExprS) -> ParseOut
    decreases ts.len() - pos, 4int, when 0 <= pos <= ts.len()
{
    if pos < ts.len() && is_comparison_op_s(ts[pos].kind) {
        let h = p_term(ts, pos + 1);
        match h.result {
            Ok(rhs) => {
                let acc2 = ExprS::Binary {
                    l_expr: Box::new(acc),
                    operator: ts[pos],
                    r_expr: Box::new(rhs),
                };
                if pos + 1 < h.next <= ts.len() {
                    p_comparison_tail(ts, h.next, acc2)
                } else {
                    ParseOut { result: Ok(acc2), next: h.next }
                }
            },
            Err(e) => ParseOut { result: Err(e), next: h.next },
        }
    } else {
        ParseOut { result: Ok(acc), next: pos }
    }
}

/// Whether `k` is a term operator.
pub open spec fn is_term_op_s(k: TokenTypeS) -> bool {
    k is Plus || k is Minus
}

/// The term level: a factor, then a left fold over `+` / `-`.
pub open spec fn p_term(ts: Seq<TokenS>, pos: int) -> ParseOut
    decreases ts.len() - pos, 3int, when 0 <= pos <= ts.len()
{
    let h = p_factor(ts, pos);
    match h.result {
        Ok(e) => if pos < h.next <= ts.len() {
            p_term_tail(ts, h.next, e)
        } else {
            h
        },
        Err(_) => h,
    }
}

/// The left fold of the term level.
pub open spec fn p_term_tail(ts: Seq<TokenS>, pos: int, acc: ExprS) -> ParseOut
    decreases ts.len() - pos, 3int, when 0 <= pos <= ts.len()
{
    if pos < ts.len() && is_term_op_s(ts[pos].kind) {
        let h = p_factor(ts, pos + 1);
        match h.result {
            Ok(rhs) => {
                let acc2 = ExprS::Binary {
                    l_expr: Box::new(acc),
                    operator: ts[pos],
                    r_expr: Box::new(rhs),
                };
                if pos + 1 < h.next <= ts.len() {
                    p_term_tail(ts, h.next, acc2)
                } else {
                    ParseOut { result: Ok(acc2), next: h.next }
                }
            },
            Err(e) => ParseOut { result: Err(e), next: h.next },
        }
    } else {
        ParseOut { result: Ok(acc), next: pos }
    }
}

/// Whether `k` is a factor operator.
pub open spec fn is_factor_op_s(k: TokenTypeS) -> bool {
    k is Slash || k is Star
}

/// The factor level: a unary, then a left fold over `/` / `*`.
pub open spec fn p_factor(ts: Seq<TokenS>, pos: int) -> ParseOut
    decreases ts.len() - pos, 2int, when 0 <= pos <= ts.len()
{
    let h = p_unary(ts, pos);
    match h.result {
        Ok(e) => if pos < h.next <= ts.len() {
            p_factor_tail(ts, h.next, e)
        } else {
            h
        },
        Err(_) => h,
    }
}

/// The left fold of the factor level.
pub open spec fn p_factor_tail(ts: Seq<TokenS>, pos: int, acc: ExprS) -> ParseOut
    decreases ts.len() - pos, 2int, when 0 <= pos <= ts.len()
{
    if pos < ts.len() && is_factor_op_s(ts[pos].kind) {
        let h = p_unary(ts, pos + 1);
        match h.result {
            Ok(rhs) => {
                let acc2 = ExprS::Binary {
                    l_expr: Box::new(acc),
                    operator: ts[pos],
                    r_expr: Box::new(rhs),
                };
                if pos + 1 < h.next <= ts.len() {
                    p_factor_tail(ts, h.next, acc2)
                } else {
                    ParseOut { result: Ok(acc2), next: h.next }
                }
            },
            Err(e) => ParseOut { result: Err(e), next: h.next },
        }
    } else {
        ParseOut { result: Ok(acc), next: pos }
    }
}

/// Whether `k` is a unary operator.
pub open spec fn is_unary_op_s(k: TokenTypeS) -> bool {
    k is Bang || k is Minus
}

/// The unary level: right-recursive prefix `!` / `-`, else a primary.
pub open spec fn p_unary(ts: Seq<TokenS>, pos: int) -> ParseOut
    decreases ts.len() - pos, 1int, when 0 <= pos <= ts.len()
{
    if pos < ts.len() && is_unary_op_s(ts[pos].kind) {
        let h = p_unary(ts, pos + 1);
        match h.result {
            Ok(r) => ParseOut {
                result: Ok(ExprS::Unary { operator: ts[pos], r_expr: Box::new(r) }),
                next: h.next,
            },
            Err(e) => ParseOut { result: Err(e), next: h.next },
        }
    } else {
        p_primary(ts, pos)
    }
}

/// Whether `k` can stand as a literal in a primary.
pub open spec fn is_literal_kind_s(k: TokenTypeS) -> bool {
    k is False || k is True || k is Nil || k is Number || k is StringLiteral
}

/// The primary level: a literal, or a parenthesized expression whose
/// closing parenthesis is required; anything else is a parse error.
pub open spec fn p_primary(ts: Seq<TokenS>, pos: int) -> ParseOut
    decreases ts.len() - pos, 0int, when 0 <= pos <= ts.len()
{
    if pos >= ts.len() {
        ParseOut {
            result: Err(
                ParseErrS {
                    message: "expected expression"@,
                    line: 0,
                    lexeme: Seq::empty(),
                },
            ),
            next: pos,
        }
    } else {
        let t = ts[pos];
        if is_literal_kind_s(t.kind) {
            ParseOut { result: Ok(ExprS::Literal { token: t }), next: pos + 1 }
        } else if t.kind is LeftParen {
            let h = p_expression(ts, pos + 1);
            match h.result {
                Ok(inner) => if 0 <= h.next < ts.len() {
                    if ts[h.next].kind is RightParen {
                        ParseOut {
                            result: Ok(ExprS::Grouping { expr: Box::new(inner) }),
                            next: h.next + 1,
                        }
                    } else {
                        ParseOut {
                            result: Err(
                                ParseErrS {
                                    message: "expect ')' after expression"@,
                                    line: ts[h.next].line,
                                    lexeme: ts[h.next].lexeme,
                                },
                            ),
                            next: h.next,
                        }
                    }
                } else {
                    ParseOut {
                        result: Err(
                            ParseErrS {
                                message: "expect ')' after expression"@,
                                line: 0,
                                lexeme: Seq::empty(),
                            },
                        ),
                        next: h.next,
                    }
                },
                Err(e) => ParseOut { result: Err(e), next: h.next },
            }
        } else {
            ParseOut {
                result: Err(
                    ParseErrS { message: "unrecognized primary"@, line: t.line, lexeme: t.lexeme },
                ),
                next: pos,
            }
        }
    }
}

/// Whether `k` starts a statement, for synchronization.
pub open spec fn is_sync_boundary_kw(k: TokenTypeS) -> bool {
    ||| k is Class
    ||| k is Fun
    ||| k is Var
    ||| k is For
    ||| k is If
    ||| k is While
    ||| k is Print
    ||| k is Return
}

/// Where synchronization stops, walking from `pos`: at the end-of-stream
/// token, just past a semicolon, or at a statement-starting keyword.
pub open spec fn sync_from(ts: Seq<TokenS>, pos: int) -> int
    decreases ts.len() - pos, when 1 <= pos <= ts.len()
{
    if pos >= ts.len() || ts[pos].kind is Eof {
        pos
    } else if ts[pos - 1].kind is Semicolon {
        pos
    } else if is_sync_boundary_kw(ts[pos].kind) {
        pos
    } else {
        sync_from(ts, pos + 1)
    }
}

/// The parser: the token sequence and one monotone cursor into it.
pub struct Parser<'a> {
    pub tokens: &'a Vec<Token>,
    pub current: usize,
}

impl<'a> Parser<'a> {
    /// The cursor never leaves the sequence.
    pub open spec fn wf(self) -> bool {
        self.current <= self.tokens@.len()
    }

    /// How a parsing level relates its result and final cursor to the
    /// prescription `out` of the matching level function.
    pub open spec fn steps_to(
        pre: Parser<'a>,
        post: Parser<'a>,
        r: Result<Expression, ParserError>,
        out: ParseOut,
    ) -> bool {
        &&& post.tokens == pre.tokens
        &&& post.current as int == out.next
        &&& match (r, out.result) {
            (Ok(e), Ok(es)) => e@ == es,
            (Err(p), Err(ps)) => p@ == ps,
            _ => false,
        }
        &&& (r is Ok ==> post.current > pre.current)
    }

    /// Builds a parser at the start of the token sequence.
    pub fn new(tokens: &'a Vec<Token>) -> (p: Parser<'a>)
        ensures
            p.wf(),
            p.tokens == tokens,
            p.current == 0,
    {
        Parser { tokens, current: 0 }
    }

    fn is_equality_op(t: &TokenType) -> (r: bool)
        ensures
            r == is_equality_op_s(t@),
    {
        match t {
            TokenType::BangEqual | TokenType::EqualEqual => true,
            _ => false,
        }
    }

    fn is_comparison_op(t: &TokenType) -> (r: bool)
        ensures
            r == is_comparison_op_s(t@),
    {
        match t {
            TokenType::Greater | TokenType::GreaterEqual | TokenType::Less
                | TokenType::LessEqual => true,
            _ => false,
        }
    }

    fn is_term_op(t: &TokenType) -> (r: bool)
        ensures
            r == is_term_op_s(t@),
    {
        match t {
            TokenType::Plus | TokenType::Minus => true,
            _ => false,
        }
    }

    fn is_factor_op(t: &TokenType) -> (r: bool)
        ensures
            r == is_factor_op_s(t@),
    {
        match t {
            TokenType::Slash | TokenType::Star => true,
            _ => false,
        }
    }

    fn is_unary_op(t: &TokenType) -> (r: bool)
        ensures
            r == is_unary_op_s(t@),
    {
        match t {
            TokenType::Bang | TokenType::Minus => true,
            _ => false,
        }
    }

    /// Parses one whole expression from the cursor.
    pub fn parse(&mut self) -> (r: Result<Expression, ParserError>)
        requires
            old(self).wf(),
        ensures
            final(self).wf(),
            Self::steps_to(
                *old(self),
                *final(self),
                r,
                p_expression(token_views(old(self).tokens@), old(self).current as int),
            ),
        decreases old(self).tokens@.len() - old(self).current, 7int,
    {
        self.expression()
    }

    fn expression(&mut self) -> (r: Result<Expression, ParserError>)
        requires
            old(self).wf(),
        ensures
            final(self).wf(),
            Self::steps_to(
                *old(self),
                *final(self),
                r,
                p_expression(token_views(old(self).tokens@), old(self).current as int),
            ),
        decreases old(self).tokens@.len() - old(self).current, 6int,
    {
        self.equality()
    }

    #[verifier::rlimit(60)]
    fn equality(&mut self) -> (r: Result<Expression, ParserError>)
        requires
            old(self).wf(),
        ensures
            final(self).wf(),
            Self::steps_to(
                *old(self),
                *final(self),
                r,
                p_equality(token_views(old(self).tokens@), old(self).current as int),
            ),
        decreases old(self).tokens@.len() - old(self).current, 5int,
    {
        let ghost ts = token_views(self.tokens@);
        let ghost pos0 = self.current as int;
        let mut expr = match self.comparison() {
            Ok(e) => e,
            Err(er) => {
                return Err(er);
            },
        };
        while self.current < self.tokens.len() && Self::is_equality_op(
            &self.tokens[self.current].token_type,
        )
            invariant
                self.wf(),
                self.tokens == old(self).tokens,
                ts == token_views(self.tokens@),
                pos0 == old(self).current as int,
                0 <= pos0 < self.current <= ts.len(),
                p_equality(ts, pos0) == p_equality_tail(ts, self.current as int, expr@),
            decreases ts.len() - self.current,
        {
            let op = self.tokens[self.current].clone();
            self.current = self.current + 1;
            let rhs = match self.comparison() {
                Ok(e) => e,
                Err(er) => {
                    return Err(er);
                },
            };
            expr = Expression::Binary {
                l_expr: Box::new(expr),
                operator: op,
                r_expr: Box::new(rhs),
            };
        }
        Ok(expr)
    }

    #[verifier::rlimit(60)]
    fn comparison(&mut self) -> (r: Result<Expression, ParserError>)
        requires
            old(self).wf(),
        ensures
            final(self).wf(),
            Self::steps_to(
                *old(self),
                *final(self),
                r,
                p_comparison(token_views(old(self).tokens@), old(self).current as int),
            ),
        decreases old(self).tokens@.len() - old(self).current, 4int,
    {
        let ghost ts = token_views(self.tokens@);
        let ghost pos0 = self.current as int;
        let mut expr = match self.term() {
            Ok(e) => e,
            Err(er) => {
                return Err(er);
            },
        };
        while self.current < self.tokens.len() && Self::is_comparison_op(
            &self.tokens[self.current].token_type,
        )
            invariant
                self.wf(),
                self.tokens == old(self).tokens,
                ts == token_views(self.tokens@),
                pos0 == old(self).current as int,
                0 <= pos0 < self.current <= ts.len(),
                p_comparison(ts, pos0) == p_comparison_tail(ts, self.current as int, expr@),
            decreases ts.len() - self.current,
        {
            let op = self.tokens[self.current].clone();
            self.current = self.current + 1;
            let rhs = match self.term() {
                Ok(e) => e,
                Err(er) => {
                    return Err(er);
                },
            };
            expr = Expression::Binary {
                l_expr: Box::new(expr),
                operator: op,
                r_expr: Box::new(rhs),
            };
        }
        Ok(expr)
    }

    #[verifier::rlimit(60)]
    fn term(&mut self) -> (r: Result<Expression, ParserError>)
        requires
            old(self).wf(),
        ensures
            final(self).wf(),
            Self::steps_to(
                *old(self),
                *final(self),
                r,
                p_term(token_views(old(self).tokens@), old(self).current as int),
            ),
        decreases old(self).tokens@.len() - old(self).current, 3int,
    {
        let ghost ts = token_views(self.tokens@);
        let ghost pos0 = self.current as int;
        let mut expr = match self.factor() {
            Ok(e) => e,
            Err(er) => {
                return Err(er);
            },
        };
        while self.current < self.tokens.len() && Self::is_term_op(
            &self.tokens[self.current].token_type,
        )
            invariant
                self.wf(),
                self.tokens == old(self).tokens,
                ts == token_views(self.tokens@),
                pos0 == old(self).current as int,
                0 <= pos0 < self.current <= ts.len(),
                p_term(ts, pos0) == p_term_tail(ts, self.current as int, expr@),
            decreases ts.len() - self.current,
        {
            let op = self.tokens[self.current].clone();
            self.current = self.current + 1;
            let rhs = match self.factor() {
                Ok(e) => e,
                Err(er) => {
                    return Err(er);
                },
            };
            expr = Expression::Binary {
                l_expr: Box::new(expr),
                operator: op,
                r_expr: Box::new(rhs),
            };
        }
        Ok(expr)
    }

    #[verifier::rlimit(60)]
    fn factor(&mut self) -> (r: Result<Expression, ParserError>)
        requires
            old(self).wf(),
        ensures
            final(self).wf(),
            Self::steps_to(
                *old(self),
                *final(self),
                r,
                p_factor(token_views(old(self).tokens@), old(self).current as int),
            ),
        decreases old(self).tokens@.len() - old(self).current, 2int,
    {
        let ghost ts = token_views(self.tokens@);
        let ghost pos0 = self.current as int;
        let mut expr = match self.unary() {
            Ok(e) => e,
            Err(er) => {
                return Err(er);
            },
        };
        while self.current < self.tokens.len() && Self::is_factor_op(
            &self.tokens[self.current].token_type,
        )
            invariant
                self.wf(),
                self.tokens == old(self).tokens,
                ts == token_views(self.tokens@),
                pos0 == old(self).current as int,
                0 <= pos0 < self.current <= ts.len(),
                p_factor(ts, pos0) == p_factor_tail(ts, self.current as int, expr@),
            decreases ts.len() - self.current,
        {
            let op = self.tokens[self.current].clone();
            self.current = self.current + 1;
            let rhs = match self.unary() {
                Ok(e) => e,
                Err(er) => {
                    return Err(er);
                },
            };
            expr = Expression::Binary {
                l_expr: Box::new(expr),
                operator: op,
                r_expr: Box::new(rhs),
            };
        }
        Ok(expr)
    }

    fn unary(&mut self) -> (r: Result<Expression, ParserError>)
        requires
            old(self).wf(),
        ensures
            final(self).wf(),
            Self::steps_to(
                *old(self),
                *final(self),
                r,
                p_unary(token_views(old(self).tokens@), old(self).current as int),
            ),
        decreases old(self).tokens@.len() - old(self).current, 1int,
    {
        if self.current < self.tokens.len() && Self::is_unary_op(
            &self.tokens[self.current].token_type,
        ) {
            let op = self.tokens[self.current].clone();
            self.current = self.current + 1;
            match self.unary() {
                Ok(rhs) => Ok(Expression::Unary { operator: op, r_expr: Box::new(rhs) }),
                Err(er) => Err(er),
            }
        } else {
            self.primary()
        }
    }

    fn primary(&mut self) -> (r: Result<Expression, ParserError>)
        requires
            old(self).wf(),
        ensures
            final(self).wf(),
            Self::steps_to(
                *old(self),
                *final(self),
                r,
                p_primary(token_views(old(self).tokens@), old(self).current as int),
            ),
        decreases old(self).tokens@.len() - old(self).current, 0int,
    {
        if self.current >= self.tokens.len() {
            return Err(
                ParserError {
                    message: String::from_str("expected expression"),
                    line: 0,
                    lexeme: String::new(),
                },
            );
        }
        let t = self.tokens[self.current].clone();
        match &t.token_type {
            TokenType::False | TokenType::True | TokenType::Nil | TokenType::Number { .. }
                | TokenType::StringLiteral { .. } => {
                self.current = self.current + 1;
                Ok(Expression::Literal { token: t })
            },
            TokenType::LeftParen => {
                self.current = self.current + 1;
                let inner = match self.expression() {
                    Ok(e) => e,
                    Err(er) => {
                        return Err(er);
                    },
                };
                if self.current < self.tokens.len() {
                    let close = &self.tokens[self.current];
                    match &close.token_type {
                        TokenType::RightParen => {
                            self.current = self.current + 1;
                            Ok(Expression::Grouping { expr: Box::new(inner) })
                        },
                        _ => Err(
                            ParserError {
                                message: String::from_str("expect ')' after expression"),
                                line: close.line,
                                lexeme: close.lexeme.clone(),
                            },
                        ),
                    }
                } else {
                    Err(
                        ParserError {
                            message: String::from_str("expect ')' after expression"),
                            line: 0,
                            lexeme: String::new(),
                        },
                    )
                }
            },
            _ => Err(
                ParserError {
                    message: String::from_str("unrecognized primary"),
                    line: t.line,
                    lexeme: t.lexeme.clone(),
                },
            ),
        }
    }

    /// Whether two token kinds are equal, payloads included.
    #[verifier::rlimit(100)]
    fn token_type_eq(a: &TokenType, b: &TokenType) -> (r: bool)
        ensures
            r == (a@ == b@),
    {
        match (a, b) {
            (TokenType::LeftParen, TokenType::LeftParen) => true,
            (TokenType::RightParen, TokenType::RightParen) => true,
            (TokenType::LeftBrace, TokenType::LeftBrace) => true,
            (TokenType::RightBrace, TokenType::RightBrace) => true,
            (TokenType::Comma, TokenType::Comma) => true,
            (TokenType::Dot, TokenType::Dot) => true,
            (TokenType::Minus, TokenType::Minus) => true,
            (TokenType::Plus, TokenType::Plus) => true,
            (TokenType::Semicolon, TokenType::Semicolon) => true,
            (TokenType::Slash, TokenType::Slash) => true,
            (TokenType::Star, TokenType::Star) => true,
            (TokenType::Bang, TokenType::Bang) => true,
            (TokenType::BangEqual, TokenType::BangEqual) => true,
            (TokenType::Equal, TokenType::Equal) => true,
            (TokenType::EqualEqual, TokenType::EqualEqual) => true,
            (TokenType::Greater, TokenType::Greater) => true,
            (TokenType::GreaterEqual, TokenType::GreaterEqual) => true,
            (TokenType::Less, TokenType::Less) => true,
            (TokenType::LessEqual, TokenType::LessEqual) => true,
            (TokenType::Identifier, TokenType::Identifier) => true,
            (
                TokenType::StringLiteral { literal: x },
                TokenType::StringLiteral { literal: y },
            ) => x.eq(y),
            (TokenType::Number { value: x }, TokenType::Number { value: y }) => *x == *y,
            (TokenType::And, TokenType::And) => true,
            (TokenType::Class, TokenType::Class) => true,
            (TokenType::Else, TokenType::Else) => true,
            (TokenType::False, TokenType::False) => true,
            (TokenType::Fun, TokenType::Fun) => true,
            (TokenType::If, TokenType::If) => true,
            (TokenType::For, TokenType::For) => true,
            (TokenType::Nil, TokenType::Nil) => true,
            (TokenType::Or, TokenType::Or) => true,
            (TokenType::Print, TokenType::Print) => true,
            (TokenType::Return, TokenType::Return) => true,
            (TokenType::Super, TokenType::Super) => true,
            (TokenType::This, TokenType::This) => true,
            (TokenType::True, TokenType::True) => true,
            (TokenType::Var, TokenType::Var) => true,
            (TokenType::While, TokenType::While) => true,
            (TokenType::Eof, TokenType::Eof) => true,
            _ => false,
        }
    }

    /// The token at the cursor, or nothing past the sequence.
    pub fn peek(&self) -> (r: Option<&'a Token>)
        requires
            self.wf(),
        ensures
            match r {
                Some(t) => self.current < self.tokens@.len() && t@ == token_views(self.tokens@)[self.current as int],
                None => self.current >= self.tokens@.len(),
            },
    {
        let toks = self.tokens;
        if self.current < toks.len() {
            Some(&toks[self.current])
        } else {
            None
        }
    }

    /// The token just consumed, or nothing past the sequence.
    pub fn previous(&self) -> (r: Option<&'a Token>)
        requires
            self.wf(),
            self.current >= 1,
        ensures
            match r {
                Some(t) => self.current - 1 < self.tokens@.len() && t@ == token_views(
                    self.tokens@,
                )[self.current - 1],
                None => self.current - 1 >= self.tokens@.len(),
            },
    {
        let toks = self.tokens;
        let i = self.current - 1;
        if i < toks.len() {
            Some(&toks[i])
        } else {
            None
        }
    }

    /// Whether the cursor stands on the end-of-stream token.
    pub fn is_at_end(&self) -> (r: bool)
        requires
            self.wf(),
        ensures
            r == (self.current < self.tokens@.len() && token_views(self.tokens@)[self.current as int].kind is Eof),
    {
        match self.peek() {
            Some(t) => matches!(&t.token_type, TokenType::Eof),
            None => false,
        }
    }

    /// Whether the cursor stands on a real token of kind `t`.
    pub fn check(&self, t: &TokenType) -> (r: bool)
        requires
            self.wf(),
        ensures
            r == (self.current < self.tokens@.len() && !(token_views(self.tokens@)[self.current as int].kind is Eof) && token_views(self.tokens@)[self.current as int].kind == t@),
    {
        if self.is_at_end() {
            return false;
        }
        match self.peek() {
            Some(tok) => Self::token_type_eq(&tok.token_type, t),
            None => false,
        }
    }

    /// Consumes the token at the cursor, unless it is the end-of-stream
    /// token, and returns the token just consumed.
    pub fn advance(&mut self) -> (r: Option<&'a Token>)
        requires
            old(self).wf(),
            old(self).current >= 1 || (old(self).current < old(self).tokens@.len() && !(
            token_views(old(self).tokens@)[old(self).current as int].kind is Eof)),
        ensures
            final(self).wf(),
            final(self).tokens == old(self).tokens,
            final(self).current as int == if old(self).current < old(self).tokens@.len() && !(
                token_views(old(self).tokens@)[old(self).current as int].kind is Eof
            ) {
                old(self).current + 1
            } else {
                old(self).current as int
            },
            match r {
                Some(t) => final(self).current - 1 < old(self).tokens@.len() && t@ == token_views(
                    old(self).tokens@,
                )[final(self).current - 1],
                None => final(self).current - 1 >= old(self).tokens@.len(),
            },
    {
        if !self.is_at_end() {
            if self.current < self.tokens.len() {
                self.current = self.current + 1;
            }
        }
        self.previous()
    }

    /// Skips tokens to the next statement boundary: past a semicolon, to
    /// a statement-starting keyword, or to the end-of-stream token. An
    /// extension point for a statement grammar; nothing calls it while
    /// only expressions are parsed.
    pub fn synchronize(&mut self)
        requires
            old(self).wf(),
            old(self).tokens@.len() >= 1,
            token_views(old(self).tokens@)[old(self).tokens@.len() - 1].kind is Eof,
        ensures
            final(self).wf(),
            final(self).tokens == old(self).tokens,
            ({
                let ts = token_views(old(self).tokens@);
                let p0 = old(self).current as int;
                let p1 = if p0 < ts.len() && !(ts[p0].kind is Eof) {
                    p0 + 1
                } else {
                    p0
                };
                final(self).current as int == if 1 <= p1 <= ts.len() {
                    sync_from(ts, p1)
                } else {
                    p1
                }
            }),
    {
        let ghost ts = token_views(self.tokens@);
        if self.current < self.tokens.len() {
            if !matches!(&self.tokens[self.current].token_type, TokenType::Eof) {
                self.current = self.current + 1;
            }
        }
        let ghost p1 = self.current as int;
        if self.current == 0 {
            return ;
        }
        while self.current < self.tokens.len() && !matches!(
            &self.tokens[self.current].token_type,
            TokenType::Eof,
        )
            invariant
                self.wf(),
                self.tokens == old(self).tokens,
                ts == token_views(self.tokens@),
                ts.len() >= 1,
                ts[ts.len() - 1].kind is Eof,
                1 <= p1 <= self.current <= ts.len(),
                p1 == ({
                    let p0 = old(self).current as int;
                    if p0 < ts.len() && !(ts[p0].kind is Eof) {
                        p0 + 1
                    } else {
                        p0
                    }
                }),
                sync_from(ts, p1) == sync_from(ts, self.current as int),
            decreases ts.len() - self.current,
        {
            if matches!(&self.tokens[self.current - 1].token_type, TokenType::Semicolon) {
                proof {
                    assert(sync_from(ts, self.current as int) == self.current as int);
                }
                return ;
            }
            if matches!(
                &self.tokens[self.current].token_type,
                TokenType::Class | TokenType::Fun | TokenType::Var | TokenType::For
                    | TokenType::If | TokenType::While | TokenType::Print | TokenType::Return,
            ) {
                proof {
                    assert(sync_from(ts, self.current as int) == self.current as int);
                }
                return ;
            }
            self.current = self.current + 1;
        }
    }
}

} // verus!
