use vstd::prelude::*;

use std::rc::Rc;

use crate::ast::{nodes_view, ASTNode, FunctionDefinition, FunctionView, Jump, JumpType, Node, Program};
use crate::error::ParseError;
use crate::grammar::{
    finishes, first_same, nested, node_result, unique_names, program, program_loop, skip_stars, statement, validate_consume, ParserState,
};
use crate::keywords::{
    text_is, BREAK, CONST_VAR_DEFINE, CONTINUE, ELIF_STATEMENT, ELSE_STATEMENT, EXTERN, FUNCTION_DEFINE,
    IF_STATEMENT, INCLUDE, LOOP, MEM, RETURN, STRUCT, TYPE_DEF, VAR_DEFINE,
};
use crate::lexer::Lexer;
use crate::tokens::{Bracket, Operations, Token, TokenEnum};
use crate::types::VarType;

verus! {

/// A type introduced by the program, under its name.
#[derive(Debug)]
pub struct UserDefinedType {
    pub name: String,
    pub type_: VarType,
}

/// A flag with a value attached.
#[derive(Debug)]
pub struct Generic<T> {
    pub status: bool,
    pub value: T,
}

/// A recursive-descent parser over the tokens of one file.
pub struct Parser {
    pub lexer: Lexer,
    pub bracket_stack: Vec<Token>,
    /// Functions in the order their names were first defined, one entry per name:
    /// a later definition with the same name takes the place of the earlier one.
    pub functions: Vec<Rc<FunctionDefinition>>,
    /// how deeply nested are we inside loops
    pub inside_loop_depth: usize,
    /// how deeply nested are we inside function bodies
    pub inside_function_depth: usize,
    /// how deeply nested are we inside conditionals
    pub inside_if_else_depth: usize,
    pub num_loops: usize,
    pub inside_current_loop_number: i32,
    pub num_strings: usize,
    pub num_floats: usize,
    pub times_dereferenced: usize,
    pub current_function_being_parsed: Option<String>,
    pub user_defined_types: Vec<UserDefinedType>,
    pub parsing_memory_allocation: bool,
    /// value = variable name
    pub parsing_variable_assignment: Generic<String>,
}

impl View for Parser {
    type V = ParserState;

    open spec fn view(&self) -> ParserState {
        ParserState {
            tokens: self.lexer.tokens(),
            pos: self.lexer.pos(),
            file_name: self.lexer.source_name(),
            bracket_stack: self.bracket_stack@,
            functions: Seq::new(self.functions.len() as nat, |i: int| self.functions@[i]@),
            loop_depth: self.inside_loop_depth,
            function_depth: self.inside_function_depth,
            if_else_depth: self.inside_if_else_depth,
            num_loops: self.num_loops,
            current_loop: self.inside_current_loop_number,
            num_strings: self.num_strings,
            num_floats: self.num_floats,
            times_dereferenced: self.times_dereferenced,
            current_function: self.current_function_being_parsed,
            user_types: self.user_defined_types@,
            parsing_memory_allocation: self.parsing_memory_allocation,
            parsing_variable_assignment: self.parsing_variable_assignment,
        }
    }
}

impl Parser {
    pub fn new(file: Vec<Token>, file_name: String) -> (res: Self)
        ensures
            res@.tokens == file@,
            res@.pos == 0,
            res@.file_name == file_name,
            res@.bracket_stack == Seq::<Token>::empty(),
            res@.functions == Seq::<FunctionView>::empty(),
            unique_names(res@.functions),
            res@.loop_depth == 0,
            res@.function_depth == 0,
            res@.if_else_depth == 0,
            res@.num_loops == 0,
            res@.current_loop == -1,
            res@.num_strings == 0,
            res@.num_floats == 0,
            res@.times_dereferenced == 0,
            res@.current_function is None,
            res@.user_types == Seq::<UserDefinedType>::empty(),
            !res@.parsing_memory_allocation,
            !res@.parsing_variable_assignment.status,
            res@.parsing_variable_assignment.value@ == Seq::<char>::empty(),
    {
        let lexer = Lexer::new(file, file_name);
        let res = Self {
            lexer,
            bracket_stack: Vec::new(),
            functions: Vec::new(),
            inside_loop_depth: 0,
            inside_function_depth: 0,
            inside_if_else_depth: 0,
            num_loops: 0,
            inside_current_loop_number: -1,
            num_strings: 0,
            num_floats: 0,
            times_dereferenced: 0,
            current_function_being_parsed: None,
            user_defined_types: Vec::new(),
            parsing_memory_allocation: false,
            parsing_variable_assignment: Generic { status: false, value: String::new() },
        };
        assert(res@.functions =~= Seq::<FunctionView>::empty());
        res
    }

    /// The next token, without consuming it.
    pub fn peek_next_token(&self) -> (res: Token)
        ensures
            res == self@.peek(),
            self@.in_range(),
    {
        self.lexer.peek_next_token()
    }

    /// The `n`-th token from the current position.
    pub fn peek_nth_token(&self, n: usize) -> (res: Token)
        requires
            n >= 1,
        ensures
            res == self@.peek_nth(n as int),
            self@.in_range(),
    {
        self.lexer.peek_nth_token(n)
    }

    /// Returns the next token and moves past it.
    pub fn consume_token(&mut self) -> (res: Token)
        ensures
            res == old(self)@.peek(),
            final(self)@ == old(self)@.advance(),
            old(self)@.in_range(),
            final(self)@.in_range(),
    {
        let t = self.lexer.consume_token();
        assert(self@.functions =~= old(self)@.functions);
        t
    }

    /// Consumes the next token and returns it when it is `token_expected`.
    /// A mismatch does not stop the program: it is returned as an
    /// `UnexpectedToken` error naming the token found and the one expected.
    pub fn validate_and_consume_token(&mut self, token_expected: TokenEnum) -> (res: Result<Token, ParseError>)
        ensures
            final(self)@ == validate_consume(old(self)@, token_expected).0,
            res == validate_consume(old(self)@, token_expected).1,
            final(self)@ == old(self)@.advance(),
            res is Ok <==> old(self)@.peek().token.same(token_expected),
            res matches Ok(t) ==> t == old(self)@.peek(),
            old(self)@.in_range(),
            final(self)@.in_range(),
    {
        let token = self.consume_token();
        if token.token != token_expected {
            return Err(ParseError::UnexpectedToken { found: token, expected: Some(token_expected) });
        }
        Ok(token)
    }

    /// Consumes the next token and returns the first of `tokens_expected` that it
    /// equals. When none does (always when the list is empty) the program is not
    /// stopped: an `UnexpectedTokenOneOf` error names the token found and the list.
    pub fn validate_any_token(&mut self, tokens_expected: Vec<TokenEnum>) -> (res: Result<TokenEnum, ParseError>)
        ensures
            final(self)@ == old(self)@.advance(),
            old(self)@.in_range(),
            final(self)@.in_range(),
            res is Ok <==> exists|i: int|
                0 <= i < tokens_expected@.len() && #[trigger] tokens_expected@[i].same(old(self)@.peek().token),
            res matches Ok(k) ==> tokens_expected@.contains(k) && k.same(old(self)@.peek().token),
            res == (match first_same(tokens_expected@, old(self)@.peek().token) {
                Some(t) => Ok(t),
                None => Err(ParseError::UnexpectedTokenOneOf { found: old(self)@.peek(), candidates: tokens_expected }),
            }),
    {
        let token = self.consume_token();
        proof {
            crate::laws::lemma_first_same(tokens_expected@, token.token);
        }
        let mut i: usize = 0;
        assert(tokens_expected@.skip(0) =~= tokens_expected@);
        while i < tokens_expected.len()
            invariant
                self@ == old(self)@.advance(),
                token == old(self)@.peek(),
                old(self)@.in_range(),
                self@.in_range(),
                0 <= i <= tokens_expected@.len(),
                first_same(tokens_expected@, token.token) == first_same(tokens_expected@.skip(i as int), token.token),
            decreases tokens_expected@.len() - i,
        {
            assert(tokens_expected@.skip(i as int).drop_first() =~= tokens_expected@.skip(i + 1));
            if tokens_expected[i] == token.token {
                return Ok(tokens_expected[i].clone());
            }
            i = i + 1;
        }
        assert(tokens_expected@.skip(i as int) =~= Seq::<TokenEnum>::empty());
        Err(ParseError::UnexpectedTokenOneOf { found: token, candidates: tokens_expected })
    }

    /// Reads the `*` tokens at the current position.
    fn skip_dereferences(&mut self)
        ensures
            final(self)@ == skip_stars(old(self)@),
            old(self)@.same_except_pos(final(self)@),
            final(self)@.remaining() <= old(self)@.remaining(),
    {
        loop
            invariant
                skip_stars(self@) == skip_stars(old(self)@),
                old(self)@.same_except_pos(self@),
                self@.remaining() <= old(self)@.remaining(),
            ensures
                self@ == skip_stars(old(self)@),
                old(self)@.same_except_pos(self@),
                self@.remaining() <= old(self)@.remaining(),
            decreases self@.remaining(),
        {
            let t = self.peek_next_token();
            if let TokenEnum::Op(Operations::Multiply) = t.token {
                self.consume_token();
            } else {
                break;
            }
        }
    }

    /// A `break` or `continue` in the innermost loop.
    fn parse_jump(&self, jump_type: JumpType, token: Token) -> (res: Result<ASTNode, ParseError>)
        ensures
            node_result(res) == crate::grammar::jump(self@, token, jump_type).1,
    {
        if self.inside_loop_depth == 0 || self.inside_current_loop_number == -1 {
            match jump_type {
                JumpType::Break => Err(ParseError::BreakOutsideLoop(token)),
                JumpType::Continue => Err(ParseError::ContinueOutsideLoop(token)),
            }
        } else {
            Ok(ASTNode::Jump(Jump { jump_type, loop_number: self.inside_current_loop_number as usize, token }))
        }
    }

    /// STATEMENT -> VARIABLE_DECLARATION | FUNCTION_DEF | JUMP | EXPRESSION | ...
    pub fn parse_statements(&mut self) -> (res: Result<ASTNode, ParseError>)
        requires
            old(self)@.depth_room(),
            !(old(self)@.peek().token is EOF),
            finishes(statement(old(self)@).1),
        ensures
            final(self)@ == statement(old(self)@).0,
            node_result(res) == statement(old(self)@).1,
            final(self)@.tokens == old(self)@.tokens,
            final(self)@.remaining() <= old(self)@.remaining(),
            res is Ok ==> final(self)@.remaining() < old(self)@.remaining(),
            final(self)@.same_nesting(old(self)@),
            unique_names(old(self)@.functions) ==> unique_names(final(self)@.functions),
        decreases old(self)@.remaining(), 0nat,
    {
        let current_token = self.peek_next_token();
        match &current_token.token {
            TokenEnum::Keyword(keyword) => {
                self.consume_token();
                if text_is(keyword, VAR_DEFINE) {
                    self.parse_declaration_statement()
                } else if text_is(keyword, TYPE_DEF) {
                    Err(ParseError::Unsupported(current_token.clone()))
                } else if text_is(keyword, CONST_VAR_DEFINE) {
                    self.parse_declaration_statement()
                } else if text_is(keyword, IF_STATEMENT) || text_is(keyword, LOOP) {
                    Err(ParseError::Unsupported(current_token.clone()))
                } else if text_is(keyword, FUNCTION_DEFINE) {
                    if self.inside_function_depth != 0 {
                        // don't allow function in function definitions
                        Err(ParseError::FunctionInsideFunction(current_token.clone()))
                    } else {
                        self.parse_function_definition()
                    }
                } else if text_is(keyword, EXTERN) {
                    // parse_function_definition expects 'fun' to be already consumed
                    let fun_token = self.consume_token();
                    let is_fun = match &fun_token.token {
                        TokenEnum::Keyword(k) => text_is(k, FUNCTION_DEFINE),
                        _ => false,
                    };
                    if is_fun {
                        self.parse_function_definition()
                    } else {
                        Err(ParseError::ExpectedFunctionKeyword(fun_token))
                    }
                } else if text_is(keyword, BREAK) {
                    self.parse_jump(JumpType::Break, current_token.clone())
                } else if text_is(keyword, CONTINUE) {
                    self.parse_jump(JumpType::Continue, current_token.clone())
                } else if text_is(keyword, RETURN) || text_is(keyword, MEM) || text_is(keyword, STRUCT) {
                    Err(ParseError::Unsupported(current_token.clone()))
                } else if text_is(keyword, INCLUDE) {
                    if self.inside_loop_depth != 0 || self.inside_function_depth != 0 {
                        Err(ParseError::IncludeNotAtTopLevel(current_token.clone()))
                    } else {
                        let included_file_tok = self.peek_next_token();
                        if let TokenEnum::StringLiteral(_) = included_file_tok.token {
                            self.consume_token();
                            // reading another file is not done by this parser
                            Err(ParseError::Unsupported(current_token.clone()))
                        } else {
                            Err(ParseError::ExpectedFilePath(included_file_tok))
                        }
                    }
                } else if text_is(keyword, ELSE_STATEMENT) {
                    Err(ParseError::ElseWithoutIf(current_token.clone()))
                } else if text_is(keyword, ELIF_STATEMENT) {
                    Err(ParseError::ElifWithoutIf(current_token.clone()))
                } else {
                    Err(ParseError::UnknownKeyword(current_token.clone()))
                }
            },
            TokenEnum::Number(_) | TokenEnum::Bracket(Bracket::LParen) => self.parse_logical_expression(),
            TokenEnum::Variable(_) => {
                // 2nd token here as we haven't consumed the `var` token
                let nth_token = self.peek_nth_token(2);
                match &nth_token.token {
                    TokenEnum::Bracket(Bracket::LParen) | TokenEnum::Bracket(Bracket::LSquare) => {
                        // function invocation or array index assignment
                        Err(ParseError::Unsupported(current_token.clone()))
                    },
                    TokenEnum::Bracket(_) => {
                        Err(ParseError::UnexpectedToken { found: current_token.clone(), expected: None })
                    },
                    TokenEnum::Equals | TokenEnum::MinusEquals | TokenEnum::PlusEquals | TokenEnum::Dot => {
                        // variable assignment
                        Err(ParseError::Unsupported(current_token.clone()))
                    },
                    _ => Err(ParseError::ExpectedCallOrAssignment(nth_token.clone())),
                }
            },
            // could be something like *a = 23
            TokenEnum::Op(Operations::Multiply) => {
                self.skip_dereferences();
                let token = self.consume_token();
                if let TokenEnum::Variable(_) = token.token {
                    Err(ParseError::Unsupported(current_token.clone()))
                } else {
                    Err(ParseError::ExpectedVariableName(token))
                }
            },
            _ => Err(ParseError::UnexpectedToken { found: current_token.clone(), expected: None }),
        }
    }

    /// PROGRAM -> STATEMENT*, up to the end of the input or, when nested, up to a
    /// closing curly bracket (which is left for the caller); semicolons between
    /// statements are skipped. On a comment where a statement should start the
    /// reading would never finish, so such input is excluded.
    pub fn parse_program(&mut self) -> (res: Result<ASTNode, ParseError>)
        requires
            old(self)@.depth_room(),
            finishes(program(old(self)@).1),
        ensures
            final(self)@ == program(old(self)@).0,
            node_result(res) == program(old(self)@).1,
            final(self)@.tokens == old(self)@.tokens,
            final(self)@.remaining() <= old(self)@.remaining(),
            final(self)@.same_nesting(old(self)@),
            unique_names(old(self)@.functions) ==> unique_names(final(self)@.functions),
            // a program outside any body is read up to the end of the input
            res is Ok && !nested(old(self)@) ==> final(self)@.peek().token is EOF,
            // a nested program stops at the end of the input or at a closing curly bracket
            res is Ok && nested(old(self)@) ==> (final(self)@.peek().token is EOF || final(self)@.peek().token
                matches TokenEnum::Bracket(Bracket::RCurly)),
        decreases old(self)@.remaining(), 2nat,
    {
        let mut statements: Vec<ASTNode> = Vec::new();
        assert(nodes_view(statements@) =~= Seq::<Node>::empty());
        loop
            invariant
                program_loop(self@, nodes_view(statements@)) == program(old(self)@),
                finishes(program(old(self)@).1),
                self@.tokens == old(self)@.tokens,
                self@.remaining() <= old(self)@.remaining(),
                self@.same_nesting(old(self)@),
                unique_names(old(self)@.functions) ==> unique_names(self@.functions),
                self@.depth_room(),
            decreases self@.remaining(),
        {
            let current_token = self.peek_next_token();
            let stop = match &current_token.token {
                TokenEnum::EOF => true,
                // never reached: the reading would not finish here
                TokenEnum::Comment => true,
                TokenEnum::Bracket(Bracket::RCurly) => {
                    self.inside_function_depth > 0 || self.inside_loop_depth > 0 || self.inside_if_else_depth > 0
                },
                _ => false,
            };
            if stop {
                let res = ASTNode::Program(Program { statements });
                assert(res@ matches Node::Program(q) && q =~= nodes_view(statements@));
                return Ok(res);
            }
            let skip = match &current_token.token {
                TokenEnum::SemiColon => true,
                _ => false,
            };
            if skip {
                self.consume_token();
            } else {
                let node = match self.parse_statements() {
                    Ok(n) => n,
                    Err(e) => return Err(e),
                };
                let ghost before = nodes_view(statements@);
                statements.push(node);
                assert(nodes_view(statements@) =~= before.push(node@));
            }
        }
    }
}

} // verus!
