use vstd::prelude::*;

use crate::tokens::{Token, TokenEnum};

verus! {

/// Why a source text was rejected. Each variant carries the token at which the
/// problem was found.
#[derive(Debug)]
pub enum ParseError {
    /// `found` is not the token required here; `expected` names the required token
    /// when there is a single one.
    UnexpectedToken { found: Token, expected: Option<TokenEnum> },
    /// `found` is none of the tokens in `candidates`.
    UnexpectedTokenOneOf { found: Token, candidates: Vec<TokenEnum> },
    /// A user-defined type name that was never defined.
    NoSuchType(Token),
    ExpectedFunctionName(Token),
    ExpectedLParen(Token),
    ExpectedLCurly(Token),
    ExpectedRCurly(Token),
    /// `extern` not followed by `fun`.
    ExpectedFunctionKeyword(Token),
    /// A dereferencing `*` not followed by a variable name.
    ExpectedVariableName(Token),
    /// A variable at the start of a statement followed by neither `(` nor an assignment.
    ExpectedCallOrAssignment(Token),
    /// `include` not followed by a file path.
    ExpectedFilePath(Token),
    FunctionInsideFunction(Token),
    BreakOutsideLoop(Token),
    ContinueOutsideLoop(Token),
    ElseWithoutIf(Token),
    ElifWithoutIf(Token),
    IncludeNotAtTopLevel(Token),
    UnknownKeyword(Token),
    /// A comment token where a statement should start. Reading a program never
    /// finishes on such input, so no function returns this error: the functions
    /// that read programs require inputs that do not lead here.
    CommentAtStatementStart(Token),
    /// A statement form this parser does not handle (conditionals, loops, returns,
    /// memory allocation, structs, type definitions, includes, calls and
    /// assignments); the token is the one that starts it.
    Unsupported(Token),
}

} // verus!
