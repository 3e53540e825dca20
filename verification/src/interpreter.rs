//! Tree-walking evaluation: an expression tree evaluates to one runtime
//! value under a fixed, environment-free semantics, or to the first
//! runtime error. Numbers are exact rationals; the whole evaluation is
//! specified by `eval_expr`.
use vstd::prelude::*;
use vstd::string::*;

use crate::ast::ExprS;
use crate::ast::Expression;
use crate::ast::Visitor;
use crate::messages::dec_digits;
use crate::messages::decimal_string;
use crate::messages::int_decimal;
use crate::rational::gcd_nat;
use crate::rational::gcd_u64;
use crate::rational::lemma_gcd_divides;
use crate::rational::lemma_gcd_pos;
use crate::rational::rat_fits;
use crate::rational::Rational;
use crate::scanner::TokenS;
use crate::scanner::TokenType;
use crate::scanner::TokenTypeS;

verus! {

/// A runtime value: number, text, boolean or nil.
#[derive(Debug, PartialEq)]
pub enum Types {
    Number(Rational),
    ReturnString(String),
    Boolean(bool),
    Nil,
}

/// Mathematical model of a runtime value; a number by its exact
/// numerator and denominator.
pub enum ValueS {
    Number { num: int, den: int },
    ReturnString(Seq<char>),
    Boolean(bool),
    Nil,
}

impl View for Types {
    type V = ValueS;

    open spec fn view(&self) -> ValueS {
        match self {
            Types::Number(q) => ValueS::Number { num: q.num as int, den: q.den as int },
            Types::ReturnString(s) => ValueS::ReturnString(s@),
            Types::Boolean(b) => ValueS::Boolean(*b),
            Types::Nil => ValueS::Nil,
        }
    }
}

impl Types {
    /// A numeric value carries a well-formed rational.
    pub open spec fn wf(self) -> bool {
        match self {
            Types::Number(q) => q.wf(),
            _ => true,
        }
    }

    /// The display form: a number as its reduced fraction, `<num>` when
    /// integral and `<num>/<den>` otherwise; text as itself,
    /// `true`/`false`, `nil`.
    pub fn display_string(&self) -> (s: String)
        requires
            self.wf(),
        ensures
            s@ == value_text(self@),
    {
        match self {
            Types::Number(q) => {
                let mag: u64 = if q.num < 0 {
                    (-(q.num as i128)) as u64
                } else {
                    q.num as u64
                };
                proof {
                    lemma_gcd_pos(mag as int, q.den as int);
                }
                let g = gcd_u64(mag, q.den);
                let rn = mag / g;
                let rd = q.den / g;
                let mut s = if q.num < 0 && rn > 0 {
                    let mut t = String::from_str("-");
                    t.append(decimal_string(rn).as_str());
                    t
                } else {
                    decimal_string(rn)
                };
                if rd != 1 {
                    s.append("/");
                    s.append(decimal_string(rd).as_str());
                }
                s
            },
            Types::ReturnString(s) => s.clone(),
            Types::Boolean(b) => if *b {
                String::from_str("true")
            } else {
                String::from_str("false")
            },
            Types::Nil => String::from_str("nil"),
        }
    }
}

/// The display text of a numeric value: the fraction reduced by the
/// greatest common divisor of its magnitude and denominator, shown as
/// `<num>` when the reduced denominator is one and `<num>/<den>`
/// otherwise.
pub open spec fn num_text(num: int, den: int) -> Seq<char>
    recommends
        1 <= den,
{
    let m = if num < 0 {
        -num
    } else {
        num
    };
    let g = gcd_nat(m, den);
    let rn = if num < 0 {
        -(m / g)
    } else {
        m / g
    };
    let rd = den / g;
    if rd == 1 {
        int_decimal(rn)
    } else {
        int_decimal(rn) + "/"@ + dec_digits(rd)
    }
}

/// The reduced fraction that `num_text` shows is value-faithful: it
/// represents exactly the rational `num / den`, and its denominator is
/// positive.
pub proof fn lemma_num_text_faithful(num: int, den: int)
    requires
        1 <= den,
    ensures
        ({
            let m = if num < 0 {
                -num
            } else {
                num
            };
            let g = gcd_nat(m, den);
            let rn = if num < 0 {
                -(m / g)
            } else {
                m / g
            };
            let rd = den / g;
            &&& 1 <= rd
            &&& rn * den == num * rd
        }),
{
    let m = if num < 0 {
        -num
    } else {
        num
    };
    lemma_gcd_pos(m, den);
    lemma_gcd_divides(m, den);
    let g = gcd_nat(m, den);
    vstd::arithmetic::div_mod::lemma_fundamental_div_mod(m, g);
    vstd::arithmetic::div_mod::lemma_fundamental_div_mod(den, g);
    let mq = m / g;
    let dq = den / g;
    assert(m == g * mq);
    assert(den == g * dq);
    assert(1 <= dq) by (nonlinear_arith)
        requires
            den == g * dq,
            1 <= g,
            1 <= den,
    ;
    assert(mq * den == m * dq) by (nonlinear_arith)
        requires
            m == g * mq,
            den == g * dq,
    ;
    if num < 0 {
        assert((-mq) * den == num * dq) by (nonlinear_arith)
            requires
                mq * den == m * dq,
                num == -m,
        ;
    }
}

/// The display text of a value.
pub open spec fn value_text(v: ValueS) -> Seq<char> {
    match v {
        ValueS::Number { num, den } => num_text(num, den),
        ValueS::ReturnString(s) => s,
        ValueS::Boolean(b) => if b {
            "true"@
        } else {
            "false"@
        },
        ValueS::Nil => "nil"@,
    }
}

/// What evaluation can fail with.
#[derive(Debug, Clone, Copy, PartialEq, Eq, Structural)]
pub enum RuntimeError {
    UnrecognizedLiteral,
    UnrecognizedUnary,
    UnrecognizedBinaryNumbers,
    UnrecognizedBinary,
    NumericOverflow,
    DivisionByZero,
}

impl RuntimeError {
    /// The error's message text.
    pub fn message(&self) -> (s: String)
        ensures
            s@ == runtime_error_text(*self),
    {
        match self {
            RuntimeError::UnrecognizedLiteral => String::from_str("Unrecognized literal"),
            RuntimeError::UnrecognizedUnary => String::from_str("Unrecognized unary"),
            RuntimeError::UnrecognizedBinaryNumbers => String::from_str(
                "Unrecognized binary operation to two numbers",
            ),
            RuntimeError::UnrecognizedBinary => String::from_str("Unrecognized binary"),
            RuntimeError::NumericOverflow => String::from_str("numeric result out of range"),
            RuntimeError::DivisionByZero => String::from_str("division by zero"),
        }
    }
}

/// The message text of each runtime error.
pub open spec fn runtime_error_text(e: RuntimeError) -> Seq<char> {
    match e {
        RuntimeError::UnrecognizedLiteral => "Unrecognized literal"@,
        RuntimeError::UnrecognizedUnary => "Unrecognized unary"@,
        RuntimeError::UnrecognizedBinaryNumbers => "Unrecognized binary operation to two numbers"@,
        RuntimeError::UnrecognizedBinary => "Unrecognized binary"@,
        RuntimeError::NumericOverflow => "numeric result out of range"@,
        RuntimeError::DivisionByZero => "division by zero"@,
    }
}

/// Truthiness: exactly `false` and `nil` are falsy; every other value,
/// zero and the empty string included, is truthy.
pub open spec fn truthy(v: ValueS) -> bool {
    match v {
        ValueS::Boolean(b) => b,
        ValueS::Nil => false,
        _ => true,
    }
}

/// A numeric result when it fits the value's fields, the overflow error
/// otherwise.
pub open spec fn fit_num(n: int, d: int) -> Result<ValueS, RuntimeError> {
    if rat_fits(n, d) {
        Ok(ValueS::Number { num: n, den: d })
    } else {
        Err(RuntimeError::NumericOverflow)
    }
}

/// What a literal token evaluates to.
pub open spec fn eval_literal(k: TokenTypeS) -> Result<ValueS, RuntimeError> {
    match k {
        TokenTypeS::Number { num, den } => if den >= 1 {
            Ok(ValueS::Number { num, den })
        } else {
            Err(RuntimeError::UnrecognizedLiteral)
        },
        TokenTypeS::StringLiteral { literal } => Ok(ValueS::ReturnString(literal)),
        TokenTypeS::True => Ok(ValueS::Boolean(true)),
        TokenTypeS::False => Ok(ValueS::Boolean(false)),
        TokenTypeS::Nil => Ok(ValueS::Nil),
        _ => Err(RuntimeError::UnrecognizedLiteral),
    }
}

/// What a unary operator does to its operand's value: `-` negates a
/// number, `!` negates truthiness; anything else is a type error.
pub open spec fn eval_unary(op: TokenTypeS, v: ValueS) -> Result<ValueS, RuntimeError> {
    match op {
        TokenTypeS::Minus => match v {
            ValueS::Number { num, den } => if num == i64::MIN {
                Err(RuntimeError::NumericOverflow)
            } else {
                Ok(ValueS::Number { num: -num, den })
            },
            _ => Err(RuntimeError::UnrecognizedUnary),
        },
        TokenTypeS::Bang => Ok(ValueS::Boolean(!truthy(v))),
        _ => Err(RuntimeError::UnrecognizedUnary),
    }
}

/// What a binary operator does to its operands' values: exact rational
/// arithmetic and comparison on numbers, `+` concatenates text, `==` and
/// `!=` compare like types; every other combination is a type error.
pub open spec fn eval_binary(op: TokenTypeS, a: ValueS, b: ValueS) -> Result<
    ValueS,
    RuntimeError,
> {
    match (a, b) {
        (ValueS::Number { num: an, den: ad }, ValueS::Number { num: bn, den: bd }) => match op {
            TokenTypeS::Plus => fit_num(an * bd + bn * ad, ad * bd),
            TokenTypeS::Minus => fit_num(an * bd - bn * ad, ad * bd),
            TokenTypeS::Star => fit_num(an * bn, ad * bd),
            TokenTypeS::Slash => if bn == 0 {
                Err(RuntimeError::DivisionByZero)
            } else if bn >= 0 {
                fit_num(an * bd, ad * bn)
            } else {
                fit_num(-(an * bd), ad * -bn)
            },
            TokenTypeS::Greater => Ok(ValueS::Boolean(an * bd > bn * ad)),
            TokenTypeS::GreaterEqual => Ok(ValueS::Boolean(an * bd >= bn * ad)),
            TokenTypeS::Less => Ok(ValueS::Boolean(an * bd < bn * ad)),
            TokenTypeS::LessEqual => Ok(ValueS::Boolean(an * bd <= bn * ad)),
            TokenTypeS::EqualEqual => Ok(ValueS::Boolean(an * bd == bn * ad)),
            TokenTypeS::BangEqual => Ok(ValueS::Boolean(an * bd != bn * ad)),
            _ => Err(RuntimeError::UnrecognizedBinaryNumbers),
        },
        (ValueS::ReturnString(x), ValueS::ReturnString(y)) => if op is Plus {
            Ok(ValueS::ReturnString(x + y))
        } else {
            Err(RuntimeError::UnrecognizedBinary)
        },
        (ValueS::Nil, ValueS::Nil) => if op is EqualEqual {
            Ok(ValueS::Boolean(true))
        } else if op is BangEqual {
            Ok(ValueS::Boolean(false))
        } else {
            Err(RuntimeError::UnrecognizedBinary)
        },
        (ValueS::Boolean(x), ValueS::Boolean(y)) => if op is EqualEqual {
            Ok(ValueS::Boolean(x == y))
        } else if op is BangEqual {
            Ok(ValueS::Boolean(x != y))
        } else {
            Err(RuntimeError::UnrecognizedBinary)
        },
        _ => Err(RuntimeError::UnrecognizedBinary),
    }
}

/// The whole evaluation: literals to their values, groupings
/// transparently, operands strictly left to right, the first error
/// aborting the tree.
pub open spec fn eval_expr(e: ExprS) -> Result<ValueS, RuntimeError>
    decreases e,
{
    match e {
        ExprS::Literal { token } => eval_literal(token.kind),
        ExprS::Grouping { expr } => eval_expr(*expr),
        ExprS::Unary { operator, r_expr } => match eval_expr(*r_expr) {
            Ok(v) => eval_unary(operator.kind, v),
            Err(er) => Err(er),
        },
        ExprS::Binary { l_expr, operator, r_expr } => match eval_expr(*l_expr) {
            Ok(a) => match eval_expr(*r_expr) {
                Ok(b) => eval_binary(operator.kind, a, b),
                Err(er) => Err(er),
            },
            Err(er) => Err(er),
        },
    }
}

/// The view of an evaluation result.
pub open spec fn eval_result_view(r: Result<Types, RuntimeError>) -> Result<ValueS, RuntimeError> {
    match r {
        Ok(v) => Ok(v@),
        Err(er) => Err(er),
    }
}

/// The evaluator: stateless, a pure function of the tree.
pub struct Interpreter;

impl Interpreter {
    fn is_truthy(v: &Types) -> (r: bool)
        ensures
            r == truthy(v@),
    {
        match v {
            Types::Boolean(b) => *b,
            Types::Nil => false,
            _ => true,
        }
    }

    fn apply_binary(op: &TokenType, a: Types, b: Types) -> (r: Result<Types, RuntimeError>)
        requires
            a.wf(),
            b.wf(),
        ensures
            eval_result_view(r) == eval_binary(op@, a@, b@),
            r matches Ok(v) ==> v.wf(),
    {
        match (a, b) {
            (Types::Number(x), Types::Number(y)) => match op {
                TokenType::Plus => match x.add(&y) {
                    Some(q) => Ok(Types::Number(q)),
                    None => Err(RuntimeError::NumericOverflow),
                },
                TokenType::Minus => match x.sub(&y) {
                    Some(q) => Ok(Types::Number(q)),
                    None => Err(RuntimeError::NumericOverflow),
                },
                TokenType::Star => match x.mul(&y) {
                    Some(q) => Ok(Types::Number(q)),
                    None => Err(RuntimeError::NumericOverflow),
                },
                TokenType::Slash => {
                    if y.num == 0 {
                        Err(RuntimeError::DivisionByZero)
                    } else {
                        match x.div(&y) {
                            Some(q) => Ok(Types::Number(q)),
                            None => Err(RuntimeError::NumericOverflow),
                        }
                    }
                },
                TokenType::Greater => Ok(Types::Boolean(y.lt(&x))),
                TokenType::GreaterEqual => Ok(Types::Boolean(y.le(&x))),
                TokenType::Less => Ok(Types::Boolean(x.lt(&y))),
                TokenType::LessEqual => Ok(Types::Boolean(x.le(&y))),
                TokenType::EqualEqual => Ok(Types::Boolean(x.eq_value(&y))),
                TokenType::BangEqual => Ok(Types::Boolean(!x.eq_value(&y))),
                _ => Err(RuntimeError::UnrecognizedBinaryNumbers),
            },
            (Types::ReturnString(x), Types::ReturnString(y)) => match op {
                TokenType::Plus => Ok(Types::ReturnString(x.concat(y.as_str()))),
                _ => Err(RuntimeError::UnrecognizedBinary),
            },
            (Types::Nil, Types::Nil) => match op {
                TokenType::EqualEqual => Ok(Types::Boolean(true)),
                TokenType::BangEqual => Ok(Types::Boolean(false)),
                _ => Err(RuntimeError::UnrecognizedBinary),
            },
            (Types::Boolean(x), Types::Boolean(y)) => match op {
                TokenType::EqualEqual => Ok(Types::Boolean(x == y)),
                TokenType::BangEqual => Ok(Types::Boolean(x != y)),
                _ => Err(RuntimeError::UnrecognizedBinary),
            },
            _ => Err(RuntimeError::UnrecognizedBinary),
        }
    }

    /// Evaluates a tree to its value or its first runtime error, exactly
    /// as `eval_expr` says.
    pub fn evaluate(&self, e: &Expression) -> (r: Result<Types, RuntimeError>)
        ensures
            eval_result_view(r) == eval_expr(e@),
            r matches Ok(v) ==> v.wf(),
        decreases e,
    {
        match e {
            Expression::Literal { token } => match &token.token_type {
                TokenType::Number { value } => {
                    if value.den >= 1 {
                        Ok(Types::Number(*value))
                    } else {
                        Err(RuntimeError::UnrecognizedLiteral)
                    }
                },
                TokenType::StringLiteral { literal } => Ok(Types::ReturnString(literal.clone())),
                TokenType::True => Ok(Types::Boolean(true)),
                TokenType::False => Ok(Types::Boolean(false)),
                TokenType::Nil => Ok(Types::Nil),
                _ => Err(RuntimeError::UnrecognizedLiteral),
            },
            Expression::Grouping { expr } => self.evaluate(&**expr),
            Expression::Unary { operator, r_expr } => {
                let right = match self.evaluate(&**r_expr) {
                    Ok(v) => v,
                    Err(er) => {
                        return Err(er);
                    },
                };
                match &operator.token_type {
                    TokenType::Minus => match right {
                        Types::Number(n) => match n.neg() {
                            Some(q) => Ok(Types::Number(q)),
                            None => Err(RuntimeError::NumericOverflow),
                        },
                        _ => Err(RuntimeError::UnrecognizedUnary),
                    },
                    TokenType::Bang => Ok(Types::Boolean(!Self::is_truthy(&right))),
                    _ => Err(RuntimeError::UnrecognizedUnary),
                }
            },
            Expression::Binary { l_expr, operator, r_expr } => {
                let left = match self.evaluate(&**l_expr) {
                    Ok(v) => v,
                    Err(er) => {
                        return Err(er);
                    },
                };
                let right = match self.evaluate(&**r_expr) {
                    Ok(v) => v,
                    Err(er) => {
                        return Err(er);
                    },
                };
                Self::apply_binary(&operator.token_type, left, right)
            },
        }
    }

    /// Evaluates a tree and returns its value's display form; the error
    /// is handed to the caller to report.
    pub fn interpret(&self, e: &Expression) -> (r: Result<String, RuntimeError>)
        ensures
            match (r, eval_expr(e@)) {
                (Ok(s), Ok(v)) => s@ == value_text(v),
                (Err(a), Err(b)) => a == b,
                _ => false,
            },
    {
        match self.evaluate(e) {
            Ok(v) => Ok(v.display_string()),
            Err(er) => Err(er),
        }
    }
}

impl Visitor for Interpreter {
    type E = Result<Types, RuntimeError>;

    fn visit_expresssion(&self, expr: &Expression) -> (r: Self::E)
        ensures
            eval_result_view(r) == eval_expr(expr@),
    {
        self.evaluate(expr)
    }
}

/// Arithmetic on two numeric literals is exact rational arithmetic on
/// the parsed values: the result carries the unreduced exact numerator
/// and denominator whenever they fit the value's fields, and reports
/// overflow otherwise. Division by zero is reported as its own error,
/// not a quiet infinity: the numeric model is exact, not floating point.
pub proof fn lemma_binary_arithmetic(
    lt: TokenS,
    opt: TokenS,
    rt: TokenS,
    an: int,
    ad: int,
    bn: int,
    bd: int,
)
    requires
        lt.kind == (TokenTypeS::Number { num: an, den: ad }),
        rt.kind == (TokenTypeS::Number { num: bn, den: bd }),
        1 <= ad,
        1 <= bd,
    ensures
        ({
            let e = ExprS::Binary {
                l_expr: Box::new(ExprS::Literal { token: lt }),
                operator: opt,
                r_expr: Box::new(ExprS::Literal { token: rt }),
            };
            &&& (opt.kind is Plus ==> eval_expr(e) == fit_num(an * bd + bn * ad, ad * bd))
            &&& (opt.kind is Minus ==> eval_expr(e) == fit_num(an * bd - bn * ad, ad * bd))
            &&& (opt.kind is Star ==> eval_expr(e) == fit_num(an * bn, ad * bd))
            &&& (opt.kind is Slash && bn == 0 ==> eval_expr(e) == Err::<ValueS, RuntimeError>(
                RuntimeError::DivisionByZero,
            ))
            &&& (opt.kind is Slash && bn > 0 ==> eval_expr(e) == fit_num(an * bd, ad * bn))
            &&& (opt.kind is Slash && bn < 0 ==> eval_expr(e) == fit_num(-(an * bd), ad * -bn))
        }),
{
    let le = ExprS::Literal { token: lt };
    let re = ExprS::Literal { token: rt };
    let e = ExprS::Binary { l_expr: Box::new(le), operator: opt, r_expr: Box::new(re) };
    assert(eval_expr(le) == eval_literal(lt.kind));
    assert(eval_expr(re) == eval_literal(rt.kind));
    assert(eval_expr(e) == eval_binary(
        opt.kind,
        ValueS::Number { num: an, den: ad },
        ValueS::Number { num: bn, den: bd },
    ));
}

/// Negating a numeric value twice gives the value back (for any
/// numerator but the one whose negation does not fit).
pub proof fn lemma_double_negation(e: ExprS, m1: TokenS, m2: TokenS, n: int, d: int)
    requires
        m1.kind is Minus,
        m2.kind is Minus,
        eval_expr(e) == Ok::<ValueS, RuntimeError>(ValueS::Number { num: n, den: d }),
        i64::MIN < n <= i64::MAX,
    ensures
        eval_expr(
            ExprS::Unary {
                operator: m2,
                r_expr: Box::new(ExprS::Unary { operator: m1, r_expr: Box::new(e) }),
            },
        ) == eval_expr(e),
{
    let inner = ExprS::Unary { operator: m1, r_expr: Box::new(e) };
    let outer = ExprS::Unary { operator: m2, r_expr: Box::new(inner) };
    assert(eval_expr(inner) == eval_unary(m1.kind, ValueS::Number { num: n, den: d }));
    assert(eval_expr(outer) == eval_unary(m2.kind, ValueS::Number { num: -n, den: d }));
}

/// Applying `!` twice yields the operand's truthiness as a boolean.
pub proof fn lemma_double_bang(e: ExprS, b1: TokenS, b2: TokenS, v: ValueS)
    requires
        b1.kind is Bang,
        b2.kind is Bang,
        eval_expr(e) == Ok::<ValueS, RuntimeError>(v),
    ensures
        eval_expr(
            ExprS::Unary {
                operator: b2,
                r_expr: Box::new(ExprS::Unary { operator: b1, r_expr: Box::new(e) }),
            },
        ) == Ok::<ValueS, RuntimeError>(ValueS::Boolean(truthy(v))),
{
    let inner = ExprS::Unary { operator: b1, r_expr: Box::new(e) };
    let outer = ExprS::Unary { operator: b2, r_expr: Box::new(inner) };
    assert(eval_expr(inner) == eval_unary(b1.kind, v));
    assert(eval_expr(outer) == eval_unary(b2.kind, ValueS::Boolean(!truthy(v))));
}

/// `!` returns the negated truthiness of any value, and exactly `false`
/// and `nil` are falsy: zero and the empty string are truthy.
pub proof fn lemma_truthiness(e: ExprS, b: TokenS, v: ValueS)
    requires
        b.kind is Bang,
        eval_expr(e) == Ok::<ValueS, RuntimeError>(v),
    ensures
        eval_expr(ExprS::Unary { operator: b, r_expr: Box::new(e) }) == Ok::<
            ValueS,
            RuntimeError,
        >(ValueS::Boolean(!truthy(v))),
        truthy(v) <==> !(v is Nil || v == ValueS::Boolean(false)),
{
}

/// `+` between a text value and a numeric value, in either order, is a
/// type error; only two texts concatenate.
pub proof fn lemma_mixed_concat_error(
    l: ExprS,
    r: ExprS,
    opt: TokenS,
    s: Seq<char>,
    n: int,
    d: int,
)
    requires
        opt.kind is Plus,
        eval_expr(l) == Ok::<ValueS, RuntimeError>(ValueS::ReturnString(s)),
        eval_expr(r) == Ok::<ValueS, RuntimeError>(ValueS::Number { num: n, den: d }),
    ensures
        eval_expr(ExprS::Binary { l_expr: Box::new(l), operator: opt, r_expr: Box::new(r) })
            == Err::<ValueS, RuntimeError>(RuntimeError::UnrecognizedBinary),
        eval_expr(ExprS::Binary { l_expr: Box::new(r), operator: opt, r_expr: Box::new(l) })
            == Err::<ValueS, RuntimeError>(RuntimeError::UnrecognizedBinary),
{
}

/// Whether two values have the same type tag.
pub open spec fn same_value_type(a: ValueS, b: ValueS) -> bool {
    ||| (a is Number && b is Number)
    ||| (a is ReturnString && b is ReturnString)
    ||| (a is Boolean && b is Boolean)
    ||| (a is Nil && b is Nil)
}

/// Equality between values of different types is a type error, never a
/// quiet `false`.
pub proof fn lemma_mixed_equality_error(l: ExprS, r: ExprS, opt: TokenS, a: ValueS, b: ValueS)
    requires
        opt.kind is EqualEqual || opt.kind is BangEqual,
        eval_expr(l) == Ok::<ValueS, RuntimeError>(a),
        eval_expr(r) == Ok::<ValueS, RuntimeError>(b),
        !same_value_type(a, b),
    ensures
        eval_expr(ExprS::Binary { l_expr: Box::new(l), operator: opt, r_expr: Box::new(r) })
            is Err,
{
}

} // verus!
