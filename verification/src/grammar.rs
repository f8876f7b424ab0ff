use vstd::prelude::*;

use crate::ast::{ASTNode, FunctionView, Jump, JumpType, Node};
use crate::keywords::{
    BREAK, CONST_VAR_DEFINE, CONTINUE, ELIF_STATEMENT, ELSE_STATEMENT, EXTERN, FUNCTION_DEFINE,
    IF_STATEMENT, INCLUDE, LOOP, MEM, RETURN, STRUCT, TYPE_DEF, VAR_DEFINE,
};
use crate::error::ParseError;
use crate::lexer::token_at;
use crate::parser::{Generic, UserDefinedType};
use crate::tokens::{Bracket, Number, Operations, Token, TokenEnum};
use crate::types::VarType;
use crate::variable::Variable;

verus! {

/// The whole state of a parser: the token stream with its position, and the
/// bookkeeping the statements read and update.
pub struct ParserState {
    pub tokens: Seq<Token>,
    pub pos: int,
    pub file_name: String,
    pub bracket_stack: Seq<Token>,
    pub functions: Seq<FunctionView>,
    pub loop_depth: usize,
    pub function_depth: usize,
    pub if_else_depth: usize,
    pub num_loops: usize,
    pub current_loop: i32,
    pub num_strings: usize,
    pub num_floats: usize,
    pub times_dereferenced: usize,
    pub current_function: Option<String>,
    pub user_types: Seq<UserDefinedType>,
    pub parsing_memory_allocation: bool,
    pub parsing_variable_assignment: Generic<String>,
}

impl ParserState {
    /// The next token.
    pub open spec fn peek(self) -> Token {
        token_at(self.tokens, self.pos)
    }

    /// The `n`-th token from the current position (the next one is the first).
    pub open spec fn peek_nth(self, n: int) -> Token {
        token_at(self.tokens, self.pos + n - 1)
    }

    /// The state after the next token is read.
    pub open spec fn advance(self) -> ParserState {
        if 0 <= self.pos < self.tokens.len() {
            ParserState { pos: self.pos + 1, ..self }
        } else {
            self
        }
    }

    /// The position is within the tokens (at most at their end).
    pub open spec fn in_range(self) -> bool {
        0 <= self.pos <= self.tokens.len()
    }

    /// Number of tokens not yet read.
    pub open spec fn remaining(self) -> nat {
        if 0 <= self.pos <= self.tokens.len() {
            (self.tokens.len() - self.pos) as nat
        } else {
            0
        }
    }

    /// `other` differs from this state at most in the position in the token stream.
    pub open spec fn same_except_pos(self, other: ParserState) -> bool {
        other == ParserState { pos: other.pos, ..self }
    }

    /// Both states are at the same nesting of function bodies, loops and conditionals.
    pub open spec fn same_nesting(self, other: ParserState) -> bool {
        &&& self.function_depth == other.function_depth
        &&& self.loop_depth == other.loop_depth
        &&& self.if_else_depth == other.if_else_depth
    }

    /// Room left to nest function bodies: the depth counter cannot overflow while
    /// the remaining tokens are read.
    pub open spec fn depth_room(self) -> bool {
        self.function_depth + self.remaining() < usize::MAX
    }

}

/// Reads the next token and checks it against `expected`.
pub open spec fn validate_consume(s: ParserState, expected: TokenEnum) -> (ParserState, Result<Token, ParseError>) {
    let t = s.peek();
    if t.token.same(expected) {
        (s.advance(), Ok(t))
    } else {
        (s.advance(), Err(ParseError::UnexpectedToken { found: t, expected: Some(expected) }))
    }
}

/// The first token kind of `list` that is the same as `t`.
pub open spec fn first_same(list: Seq<TokenEnum>, t: TokenEnum) -> Option<TokenEnum>
    decreases list.len(),
{
    if list.len() == 0 {
        None
    } else if list[0].same(t) {
        Some(list[0])
    } else {
        first_same(list.drop_first(), t)
    }
}

/// `[N]` after a type makes it an array of `N` elements of `base`; without it the
/// type stays `actual`.
pub open spec fn array_type(s: ParserState, actual: VarType, base: VarType) -> (ParserState, Result<VarType, ParseError>) {
    if s.peek().token matches TokenEnum::Bracket(Bracket::LSquare) {
        let s1 = s.advance();
        let t = s1.peek();
        match t.token {
            TokenEnum::Number(Number::Integer(n)) => {
                let (s3, r) = validate_consume(s1.advance(), TokenEnum::Bracket(Bracket::RSquare));
                match r {
                    Ok(_) => (s3, Ok(VarType::Array(Box::new(base), n as usize))),
                    Err(e) => (s3, Err(e)),
                }
            },
            _ => (s1, Err(ParseError::UnexpectedToken { found: t, expected: Some(TokenEnum::Number(Number::Integer(0))) })),
        }
    } else {
        (s, Ok(actual))
    }
}

/// The type registered under `name`, the first one when there are several.
pub open spec fn find_type(types: Seq<UserDefinedType>, name: Seq<char>) -> Option<VarType>
    decreases types.len(),
{
    if types.len() == 0 {
        None
    } else if types[0].name@ == name {
        Some(types[0].type_)
    } else {
        find_type(types.drop_first(), name)
    }
}

/// A variable read from a declaration: not dereferenced, no address taken.
pub open spec fn declared_variable(token: Token, var_type: VarType, var_name: String) -> Variable {
    Variable {
        token: Box::new(token),
        var_name,
        var_type,
        result_type: var_type,
        dereference: false,
        store_address: false,
        times_dereferenced: 0,
        offset: 0,
    }
}

/// `VAR_NAME: VAR_TYPE` or `VAR_NAME: VAR_TYPE[N]`, where the type is a built-in type
/// or the name of a user-defined type.
pub open spec fn variable(s: ParserState) -> (ParserState, Result<Variable, ParseError>) {
    let t1 = s.peek();
    let s1 = s.advance();
    match t1.token {
        TokenEnum::Variable(var_name) => {
            let t2 = s1.peek();
            let s2 = s1.advance();
            match t2.token {
                TokenEnum::Colon => {
                    let t3 = s2.peek();
                    match t3.token {
                        TokenEnum::Type(vt) => {
                            let (s4, r) = array_type(s2.advance(), vt, vt);
                            match r {
                                Ok(at) => (s4, Ok(declared_variable(t3, at, var_name))),
                                Err(e) => (s4, Err(e)),
                            }
                        },
                        TokenEnum::Variable(user_type) => match find_type(s2.user_types, user_type@) {
                            None => (s2, Err(ParseError::NoSuchType(t3))),
                            Some(vt) => {
                                let (s4, r) = array_type(s2.advance(), vt, vt);
                                match r {
                                    Ok(at) => (s4, Ok(declared_variable(t3, at, var_name))),
                                    Err(e) => (s4, Err(e)),
                                }
                            },
                        },
                        _ => (s2, Err(ParseError::UnexpectedToken { found: t3, expected: None })),
                    }
                },
                _ => (s2, Err(ParseError::UnexpectedToken { found: t2, expected: Some(TokenEnum::Colon) })),
            }
        },
        _ => (s1, Err(ParseError::UnexpectedToken { found: t1, expected: Some(TokenEnum::Colon) })),
    }
}

/// Index of the first entry of `functions` from index `i` on that is named `name`.
pub open spec fn function_index_from(functions: Seq<FunctionView>, name: Seq<char>, i: int) -> Option<int>
    decreases functions.len() - i,
{
    if i < 0 || i >= functions.len() {
        None
    } else if functions[i].function_name@ == name {
        Some(i)
    } else {
        function_index_from(functions, name, i + 1)
    }
}

/// Index of the entry of `functions` named `name`.
pub open spec fn function_index(functions: Seq<FunctionView>, name: Seq<char>) -> Option<int> {
    function_index_from(functions, name, 0)
}

/// The table of functions with `def` entered: it replaces the entry with the same
/// name, or is added at the end when there is none.
pub open spec fn register(functions: Seq<FunctionView>, def: FunctionView) -> Seq<FunctionView> {
    match function_index(functions, def.function_name@) {
        Some(i) => functions.update(i, def),
        None => functions.push(def),
    }
}

/// No two entries of the table have the same name.
pub open spec fn unique_names(functions: Seq<FunctionView>) -> bool {
    forall|i: int, j: int|
        0 <= i < j < functions.len() ==> #[trigger] functions[i].function_name@ != #[trigger] functions[j].function_name@
}

/// A list result by its mathematical form.
pub open spec fn seq_result<T>(r: Result<Vec<T>, ParseError>) -> Result<Seq<T>, ParseError> {
    match r {
        Ok(v) => Ok(v@),
        Err(e) => Err(e),
    }
}

/// The reading finishes: it does not run into a comment where a statement should start.
pub open spec fn finishes(r: Result<Node, ParseError>) -> bool {
    !(r matches Err(ParseError::CommentAtStatementStart(_)))
}

/// A syntax-tree result by its mathematical form.
pub open spec fn node_result(r: Result<ASTNode, ParseError>) -> Result<Node, ParseError> {
    match r {
        Ok(n) => Ok(n@),
        Err(e) => Err(e),
    }
}

/// OPERAND -> NUMBER | STRING | VAR_NAME | LPAREN EXPRESSION RPAREN
pub open spec fn operand(s: ParserState) -> (ParserState, Result<Node, ParseError>)
    decreases s.remaining(), 0nat,
{
    let t = s.peek();
    match t.token {
        TokenEnum::Number(_) => (s.advance(), Ok(Node::Factor(t))),
        TokenEnum::StringLiteral(_) => (s.advance(), Ok(Node::Factor(t))),
        TokenEnum::Variable(_) => (s.advance(), Ok(Node::Factor(t))),
        TokenEnum::Bracket(Bracket::LParen) => {
            let (s2, r) = expression(s.advance());
            match r {
                Err(e) => (s2, Err(e)),
                Ok(n) => {
                    let (s3, r3) = validate_consume(s2, TokenEnum::Bracket(Bracket::RParen));
                    match r3 {
                        Ok(_) => (s3, Ok(n)),
                        Err(e) => (s3, Err(e)),
                    }
                },
            }
        },
        _ => (s, Err(ParseError::UnexpectedToken { found: t, expected: None })),
    }
}

/// `*`, `/` and `%` bind tighter than `+` and `-`.
pub open spec fn is_multiplicative(op: Operations) -> bool {
    op == Operations::Multiply || op == Operations::Divide || op == Operations::Modulo
}

/// TERM -> OPERAND ((* | / | %) OPERAND)*, the operators grouped from the left.
pub open spec fn term(s: ParserState) -> (ParserState, Result<Node, ParseError>)
    decreases s.remaining(), 2nat,
{
    let (s1, r) = operand(s);
    match r {
        Err(e) => (s1, Err(e)),
        Ok(n) => if s1.remaining() < s.remaining() {
            term_tail(s1, n)
        } else {
            (s1, Ok(n))
        },
    }
}

/// The `((* | / | %) OPERAND)*` part of a term whose operands so far form `acc`.
pub open spec fn term_tail(s: ParserState, acc: Node) -> (ParserState, Result<Node, ParseError>)
    decreases s.remaining(), 1nat,
{
    let t = s.peek();
    match t.token {
        TokenEnum::Op(op) => if is_multiplicative(op) {
            let (s2, r) = operand(s.advance());
            match r {
                Err(e) => (s2, Err(e)),
                Ok(n) => {
                    let combined = Node::BinaryOp(Box::new(acc), op, Box::new(n));
                    if s2.remaining() < s.remaining() {
                        term_tail(s2, combined)
                    } else {
                        (s2, Ok(combined))
                    }
                },
            }
        } else {
            (s, Ok(acc))
        },
        _ => (s, Ok(acc)),
    }
}

/// EXPRESSION -> TERM ((+ | -) TERM)*, the operators grouped from the left.
pub open spec fn expression(s: ParserState) -> (ParserState, Result<Node, ParseError>)
    decreases s.remaining(), 4nat,
{
    let (s1, r) = term(s);
    match r {
        Err(e) => (s1, Err(e)),
        Ok(n) => if s1.remaining() < s.remaining() {
            expression_tail(s1, n)
        } else {
            (s1, Ok(n))
        },
    }
}

/// The `((+ | -) TERM)*` part of an expression whose terms so far form `acc`.
pub open spec fn expression_tail(s: ParserState, acc: Node) -> (ParserState, Result<Node, ParseError>)
    decreases s.remaining(), 3nat,
{
    let t = s.peek();
    match t.token {
        TokenEnum::Op(op) => if !is_multiplicative(op) {
            let (s2, r) = term(s.advance());
            match r {
                Err(e) => (s2, Err(e)),
                Ok(n) => {
                    let combined = Node::BinaryOp(Box::new(acc), op, Box::new(n));
                    if s2.remaining() < s.remaining() {
                        expression_tail(s2, combined)
                    } else {
                        (s2, Ok(combined))
                    }
                },
            }
        } else {
            (s, Ok(acc))
        },
        _ => (s, Ok(acc)),
    }
}

/// VARIABLE_DECLARATION -> def VAR_NAME: VAR_TYPE (= EXPRESSION)? (after `def`).
/// Without `=` the declaration has no value and the next token is left unread.
pub open spec fn declaration(s: ParserState) -> (ParserState, Result<Node, ParseError>) {
    let (s1, r1) = variable(s);
    match r1 {
        Err(e) => (s1, Err(e)),
        Ok(left) => if s1.peek().token is Equals {
            let s2 = s1.advance();
            let t = s2.peek();
            if t.token matches TokenEnum::Bracket(Bracket::LCurly) {
                (s2, Err(ParseError::Unsupported(t)))
            } else {
                let (s3, r3) = expression(s2);
                match r3 {
                    Err(e) => (s3, Err(e)),
                    Ok(right) => (s3, Ok(Node::Declaration(left, Some(Box::new(right))))),
                }
            }
        } else {
            (s1, Ok(Node::Declaration(left, None)))
        },
    }
}

/// (VAR_NAME : VAR_TYPE (,)*)* RPAREN, after `(`; `acc` holds the parameters read so far.
pub open spec fn parameter_list(s: ParserState, acc: Seq<Variable>) -> (ParserState, Result<Seq<Variable>, ParseError>)
    decreases s.remaining(),
{
    let t = s.peek();
    match t.token {
        TokenEnum::Bracket(Bracket::RParen) => (s.advance(), Ok(acc)),
        TokenEnum::Bracket(_) => (s, Err(ParseError::UnexpectedToken { found: t, expected: None })),
        TokenEnum::Comma => parameter_list(s.advance(), acc),
        _ => {
            let (s1, r) = variable(s);
            match r {
                Err(e) => (s1, Err(e)),
                Ok(v) => if s1.remaining() < s.remaining() {
                    parameter_list(s1, acc.push(v))
                } else {
                    (s1, Ok(acc.push(v)))
                },
            }
        },
    }
}

/// The state after the `*` tokens at the current position.
pub open spec fn skip_stars(s: ParserState) -> ParserState
    decreases s.remaining(),
{
    if s.peek().token matches TokenEnum::Op(Operations::Multiply) {
        skip_stars(s.advance())
    } else {
        s
    }
}

/// FUNCTION_DEF -> fun VAR_NAME LPAREN (VAR_NAME : VAR_TYPE (,*))* RPAREN LCURLY STATEMENT[] RCURLY
/// (after `fun`). The body is parsed one function level deeper, with the function
/// as the one being parsed; the definition is entered in the table of functions,
/// in place of an earlier one with the same name.
pub open spec fn function_definition(s: ParserState) -> (ParserState, Result<Node, ParseError>)
    decreases s.remaining(), 0nat,
{
    let t1 = s.peek();
    let s1 = s.advance();
    match t1.token {
        TokenEnum::Variable(name) => {
            let t2 = s1.peek();
            let s2 = s1.advance();
            if !(t2.token matches TokenEnum::Bracket(Bracket::LParen)) {
                (s2, Err(ParseError::ExpectedLParen(t2)))
            } else {
                let (s3, rp) = parameter_list(s2, Seq::empty());
                match rp {
                    Err(e) => (s3, Err(e)),
                    Ok(params) => {
                        let t4 = s3.peek();
                        let s4 = s3.advance();
                        if !(t4.token matches TokenEnum::Bracket(Bracket::LCurly)) {
                            (s4, Err(ParseError::ExpectedLCurly(t4)))
                        } else {
                            let s5 = ParserState {
                                function_depth: (s4.function_depth + 1) as usize,
                                current_function: Some(name),
                                ..s4
                            };
                            if s5.remaining() < s.remaining() {
                                let (s6, rb) = program(s5);
                                let s7 = ParserState {
                                    function_depth: (s6.function_depth - 1) as usize,
                                    current_function: None,
                                    ..s6
                                };
                                match rb {
                                    Err(e) => (s7, Err(e)),
                                    Ok(block) => {
                                        let t8 = s7.peek();
                                        let s8 = s7.advance();
                                        if !(t8.token matches TokenEnum::Bracket(Bracket::RCurly)) {
                                            (s8, Err(ParseError::ExpectedRCurly(t8)))
                                        } else {
                                            let def = FunctionView {
                                                function_name: name,
                                                parameters: params,
                                                block: Box::new(block),
                                            };
                                            (
                                                ParserState { functions: register(s8.functions, def), ..s8 },
                                                Ok(Node::Function(def)),
                                            )
                                        }
                                    },
                                }
                            } else {
                                (s4, Err(ParseError::ExpectedLCurly(t4)))
                            }
                        }
                    },
                }
            }
        },
        _ => (s1, Err(ParseError::ExpectedFunctionName(t1))),
    }
}

/// Whether the parser is inside a function body, a loop or a conditional.
pub open spec fn nested(s: ParserState) -> bool {
    s.function_depth > 0 || s.loop_depth > 0 || s.if_else_depth > 0
}

/// PROGRAM -> STATEMENT*: statements up to the end of the input, or up to a closing
/// curly bracket when nested; semicolons between statements are skipped. A comment
/// where a statement should start is read forever (it is never consumed), marked
/// by `CommentAtStatementStart`.
pub open spec fn program(s: ParserState) -> (ParserState, Result<Node, ParseError>)
    decreases s.remaining(), 2nat,
{
    program_loop(s, Seq::empty())
}

/// The rest of a program whose statements so far are `stmts`.
pub open spec fn program_loop(s: ParserState, stmts: Seq<Node>) -> (ParserState, Result<Node, ParseError>)
    decreases s.remaining(), 1nat,
{
    let t = s.peek();
    match t.token {
        TokenEnum::EOF => (s, Ok(Node::Program(stmts))),
        TokenEnum::SemiColon => program_loop(s.advance(), stmts),
        TokenEnum::Comment => (s, Err(ParseError::CommentAtStatementStart(t))),
        _ => if (t.token matches TokenEnum::Bracket(Bracket::RCurly)) && nested(s) {
            (s, Ok(Node::Program(stmts)))
        } else {
            let (s2, r) = statement(s);
            match r {
                Err(e) => (s2, Err(e)),
                Ok(n) => if s2.remaining() < s.remaining() {
                    program_loop(s2, stmts.push(n))
                } else {
                    (s2, Ok(Node::Program(stmts.push(n))))
                },
            }
        },
    }
}

/// A `break` or `continue` in the current loop, refused outside of a loop.
pub open spec fn jump(s: ParserState, t: Token, jump_type: JumpType) -> (ParserState, Result<Node, ParseError>) {
    if s.loop_depth == 0 || s.current_loop == -1 {
        (s, Err(if jump_type == JumpType::Break {
            ParseError::BreakOutsideLoop(t)
        } else {
            ParseError::ContinueOutsideLoop(t)
        }))
    } else {
        (s, Ok(Node::Jump(Jump { jump_type, loop_number: s.current_loop as usize, token: t })))
    }
}

/// The statement that starts with keyword token `t` (already read, `s` is after it).
pub open spec fn keyword_statement(s: ParserState, t: Token, kw: Seq<char>) -> (ParserState, Result<Node, ParseError>)
    decreases s.remaining(), 1nat,
{
    if kw == VAR_DEFINE@ {
        declaration(s)
    } else if kw == TYPE_DEF@ {
        (s, Err(ParseError::Unsupported(t)))
    } else if kw == CONST_VAR_DEFINE@ {
        declaration(s)
    } else if kw == IF_STATEMENT@ || kw == LOOP@ {
        (s, Err(ParseError::Unsupported(t)))
    } else if kw == FUNCTION_DEFINE@ {
        if s.function_depth != 0 {
            (s, Err(ParseError::FunctionInsideFunction(t)))
        } else {
            function_definition(s)
        }
    } else if kw == EXTERN@ {
        let t2 = s.peek();
        if t2.token matches TokenEnum::Keyword(k) && k@ == FUNCTION_DEFINE@ {
            function_definition(s.advance())
        } else {
            (s.advance(), Err(ParseError::ExpectedFunctionKeyword(t2)))
        }
    } else if kw == BREAK@ {
        jump(s, t, JumpType::Break)
    } else if kw == CONTINUE@ {
        jump(s, t, JumpType::Continue)
    } else if kw == RETURN@ || kw == MEM@ || kw == STRUCT@ {
        (s, Err(ParseError::Unsupported(t)))
    } else if kw == INCLUDE@ {
        if s.loop_depth != 0 || s.function_depth != 0 {
            (s, Err(ParseError::IncludeNotAtTopLevel(t)))
        } else if s.peek().token is StringLiteral {
            (s.advance(), Err(ParseError::Unsupported(t)))
        } else {
            (s, Err(ParseError::ExpectedFilePath(s.peek())))
        }
    } else if kw == ELSE_STATEMENT@ {
        (s, Err(ParseError::ElseWithoutIf(t)))
    } else if kw == ELIF_STATEMENT@ {
        (s, Err(ParseError::ElifWithoutIf(t)))
    } else {
        (s, Err(ParseError::UnknownKeyword(t)))
    }
}

/// STATEMENT -> VARIABLE_DECLARATION | FUNCTION_DEF | JUMP | EXPRESSION | ...
pub open spec fn statement(s: ParserState) -> (ParserState, Result<Node, ParseError>)
    decreases s.remaining(), 0nat,
{
    let t = s.peek();
    match t.token {
        TokenEnum::Keyword(kw) => keyword_statement(s.advance(), t, kw@),
        TokenEnum::Number(_) => expression(s),
        TokenEnum::Bracket(Bracket::LParen) => expression(s),
        TokenEnum::Variable(_) => {
            let nth = s.peek_nth(2);
            match nth.token {
                TokenEnum::Bracket(Bracket::LParen) => (s, Err(ParseError::Unsupported(t))),
                TokenEnum::Bracket(Bracket::LSquare) => (s, Err(ParseError::Unsupported(t))),
                TokenEnum::Bracket(_) => (s, Err(ParseError::UnexpectedToken { found: t, expected: None })),
                TokenEnum::Equals => (s, Err(ParseError::Unsupported(t))),
                TokenEnum::MinusEquals => (s, Err(ParseError::Unsupported(t))),
                TokenEnum::PlusEquals => (s, Err(ParseError::Unsupported(t))),
                TokenEnum::Dot => (s, Err(ParseError::Unsupported(t))),
                _ => (s, Err(ParseError::ExpectedCallOrAssignment(nth))),
            }
        },
        TokenEnum::Op(Operations::Multiply) => {
            let s1 = skip_stars(s);
            let t2 = s1.peek();
            if t2.token is Variable {
                (s1.advance(), Err(ParseError::Unsupported(t)))
            } else {
                (s1.advance(), Err(ParseError::ExpectedVariableName(t2)))
            }
        },
        _ => (s, Err(ParseError::UnexpectedToken { found: t, expected: None })),
    }
}

} // verus!
