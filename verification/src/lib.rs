//! Front end of a small expression language: a scanner that turns source
//! text into tokens, a recursive-descent parser that builds an expression
//! tree, and a tree-walking evaluator over a small set of runtime values.
//! Numbers are exact rationals; every stage reports its first error with
//! the source line it arose on.
pub mod ast;
pub mod interpreter;
pub mod messages;
pub mod parser;
pub mod rational;
pub mod scanner;

use vstd::prelude::*;

verus! {

/// The error of one pipeline run: the scanner's, the parser's, or the
/// evaluator's.
#[derive(Debug, PartialEq)]
pub enum LoxError {
    Scan(scanner::ScanError),
    Parse(parser::ParserError),
    Runtime(interpreter::RuntimeError),
}

impl LoxError {
    /// The newline-terminated diagnostic of the failing stage. Scanner
    /// and parser errors carry a source line and use the
    /// `[line <N>] Error <where>: <message>` format; a runtime error
    /// carries no source position, so its diagnostic is the bare message.
    pub fn display_string(&self) -> (s: String)
        ensures
            match self {
                LoxError::Scan(e) => s@ == messages::report_text(
                    e.line as int,
                    ""@,
                    scanner::scan_error_kind_text(e.kind),
                ) + "\n"@,
                LoxError::Parse(e) => s@ == messages::report_text(
                    e.line as int,
                    e.lexeme@,
                    e.message@,
                ) + "\n"@,
                LoxError::Runtime(e) => s@ == interpreter::runtime_error_text(*e) + "\n"@,
            },
    {
        match self {
            LoxError::Scan(e) => e.display_string(),
            LoxError::Parse(e) => e.display_string(),
            LoxError::Runtime(e) => {
                let mut s = e.message();
                s.append("\n");
                s
            },
        }
    }
}

/// Scans, parses and evaluates one source unit and returns the evaluated
/// value's display form, or reports the first error of the failing stage.
pub fn run(source: &str) -> (r: Result<String, LoxError>)
    requires
        source@.len() < usize::MAX,
    ensures
        ({
            let scanned = scanner::scan_from(source@, 0, 1);
            match r {
                Ok(s) => scanned matches Ok(ts) && (parser::p_expression(ts, 0).result matches Ok(e)
                    && (interpreter::eval_expr(e) matches Ok(v) && s@ == interpreter::value_text(
                    v,
                ))),
                Err(LoxError::Scan(se)) => scanned == Err::<
                    Seq<scanner::TokenS>,
                    scanner::ScanErrS,
                >(se@),
                Err(LoxError::Parse(pe)) => scanned matches Ok(ts) && (parser::p_expression(
                    ts,
                    0,
                ).result matches Err(ps) && pe@ == ps),
                Err(LoxError::Runtime(re)) => scanned matches Ok(ts) && (parser::p_expression(
                    ts,
                    0,
                ).result matches Ok(e) && interpreter::eval_expr(e) == Err::<
                    interpreter::ValueS,
                    interpreter::RuntimeError,
                >(re)),
            }
        }),
{
    let sc = scanner::Scanner::new(source);
    let tokens = match sc.scan_tokens() {
        Ok(ts) => ts,
        Err(e) => {
            return Err(LoxError::Scan(e));
        },
    };
    let mut p = parser::Parser::new(&tokens);
    let expr = match p.parse() {
        Ok(e) => e,
        Err(e) => {
            return Err(LoxError::Parse(e));
        },
    };
    let interp = interpreter::Interpreter;
    match interp.interpret(&expr) {
        Ok(s) => Ok(s),
        Err(e) => Err(LoxError::Runtime(e)),
    }
}

} // verus!
