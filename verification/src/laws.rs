use vstd::prelude::*;

use crate::ast::{FunctionView, Jump, JumpType, Node};
use crate::keywords::{
    BREAK, CONST_VAR_DEFINE, CONTINUE, EXTERN, FUNCTION_DEFINE, IF_STATEMENT, LOOP, TYPE_DEF, VAR_DEFINE,
};
use crate::parser::UserDefinedType;
use crate::grammar::{
        declaration, expression, expression_tail, finishes, function_definition, is_multiplicative, keyword_statement,
    operand, skip_stars, term, term_tail,
    array_type, first_same, function_index, function_index_from, nested, parameter_list, program, program_loop,
    register, statement, unique_names, validate_consume, variable, ParserState,
};
use crate::lexer::token_at;
use crate::error::ParseError;
use crate::tokens::{Bracket, Number, Token, TokenEnum};
use crate::types::VarType;
use crate::variable::Variable;

verus! {

/// Token equality is an equivalence: every token equals itself, equality is
/// symmetric, and two tokens equal to a third are equal to each other.
pub proof fn lemma_same_is_equivalence(a: TokenEnum, b: TokenEnum, c: TokenEnum)
    ensures
        a.same(a),
        a.same(b) ==> b.same(a),
        a.same(b) && b.same(c) ==> a.same(c),
{
}

/// The token chosen from a list of candidates is in the list and equals the token
/// read, and no earlier candidate equals it; one is chosen exactly when some
/// candidate equals the token read.
pub proof fn lemma_first_same(list: Seq<TokenEnum>, t: TokenEnum)
    ensures
        first_same(list, t) is Some <==> exists|i: int| 0 <= i < list.len() && #[trigger] list[i].same(t),
        first_same(list, t) matches Some(k) ==> exists|i: int|
            0 <= i < list.len() && list[i] == k && k.same(t) && forall|j: int| 0 <= j < i ==> !(#[trigger] list[j].same(t)),
    decreases list.len(),
{
    if list.len() > 0 {
        let rest = list.drop_first();
        lemma_first_same(rest, t);
        if list[0].same(t) {
            assert(list[0].same(t));
        } else {
            if first_same(rest, t) is Some {
                let i = choose|i: int| 0 <= i < rest.len() && #[trigger] rest[i].same(t);
                assert(list[i + 1].same(t));
                let k = first_same(rest, t)->0;
                let i2 = choose|i2: int|
                    0 <= i2 < rest.len() && rest[i2] == k && k.same(t) && forall|j: int|
                        0 <= j < i2 ==> !(#[trigger] rest[j].same(t));
                assert forall|j: int| 0 <= j < i2 + 1 implies !(#[trigger] list[j].same(t)) by {
                    if j > 0 {
                        assert(list[j] == rest[j - 1]);
                    }
                }
                assert(list[i2 + 1] == k);
            } else {
                assert forall|i: int| 0 <= i < list.len() implies !(#[trigger] list[i].same(t)) by {
                    if i > 0 {
                        assert(list[i] == rest[i - 1]);
                    }
                }
            }
        }
    }
}

/// The search for a function name finds the first entry from `i` on with that
/// name, and finds none exactly when no entry from `i` on has it.
pub proof fn lemma_function_index_from(functions: Seq<FunctionView>, name: Seq<char>, i: int)
    requires
        0 <= i,
    ensures
        function_index_from(functions, name, i) matches Some(k) ==> {
            &&& i <= k < functions.len()
            &&& functions[k].function_name@ == name
            &&& forall|j: int| i <= j < k ==> (#[trigger] functions[j]).function_name@ != name
        },
        function_index_from(functions, name, i) is None ==> forall|j: int|
            i <= j < functions.len() ==> (#[trigger] functions[j]).function_name@ != name,
    decreases functions.len() - i,
{
    if i < functions.len() && functions[i].function_name@ != name {
        lemma_function_index_from(functions, name, i + 1);
    }
}

/// Entering a definition in the table of functions: afterwards the search for its
/// name finds it; every other name is found where it was before, with the same
/// entry; the table grows by one exactly when the name was absent; and a table
/// with one entry per name keeps one entry per name.
pub proof fn lemma_register(functions: Seq<FunctionView>, def: FunctionView)
    ensures
        function_index(register(functions, def), def.function_name@) matches Some(k) && register(functions, def)[k]
            == def,
        forall|name: Seq<char>|
            name != def.function_name@ ==> #[trigger] function_index(register(functions, def), name)
                == function_index(functions, name),
        forall|k: int|
            0 <= k < functions.len() && functions[k].function_name@ != def.function_name@ ==> #[trigger] register(
                functions,
                def,
            )[k] == functions[k],
        register(functions, def).len() == functions.len() + (if function_index(functions, def.function_name@) is None {
            1int
        } else {
            0int
        }),
        unique_names(functions) ==> unique_names(register(functions, def)),
{
    let n = def.function_name@;
    let r = register(functions, def);
    lemma_function_index_from(functions, n, 0);
    lemma_function_index_from(r, n, 0);
    assert forall|name: Seq<char>| name != n implies #[trigger] function_index(r, name) == function_index(
        functions,
        name,
    ) by {
        lemma_function_index_from(functions, name, 0);
        lemma_function_index_from(r, name, 0);
        match function_index(functions, name) {
            Some(k) => {
                assert(r[k] == functions[k]);
                match function_index(r, name) {
                    Some(k2) => {
                        if k2 < k {
                            assert(r[k2] == functions[k2]);
                        } else if k2 > k {
                            assert(r[k].function_name@ == name);
                        }
                    },
                    None => {
                        assert(r[k].function_name@ == name);
                    },
                }
            },
            None => {
                match function_index(r, name) {
                    Some(k2) => {
                        if k2 < functions.len() {
                            assert(r[k2] == functions[k2]);
                        }
                    },
                    None => {},
                }
            },
        }
    }
    match function_index(functions, n) {
        Some(i) => {
            match function_index(r, n) {
                Some(k) => {
                    if k < i {
                        assert(r[k] == functions[k]);
                    } else if k > i {
                        assert(r[i].function_name@ == n);
                    }
                },
                None => {
                    assert(r[i].function_name@ == n);
                },
            }
        },
        None => {
            match function_index(r, n) {
                Some(k) => {
                    if k < functions.len() {
                        assert(r[k] == functions[k]);
                    }
                },
                None => {
                    assert(r[functions.len() as int].function_name@ == n);
                },
            }
        },
    }
    if unique_names(functions) {
        assert forall|i: int, j: int| 0 <= i < j < r.len() implies #[trigger] r[i].function_name@
            != #[trigger] r[j].function_name@ by {
            match function_index(functions, n) {
                Some(x) => {
                    if i != x && j != x {
                        assert(r[i] == functions[i] && r[j] == functions[j]);
                    } else if i == x {
                        assert(r[j] == functions[j]);
                        assert(functions[i].function_name@ != functions[j].function_name@);
                    } else {
                        assert(r[i] == functions[i]);
                        assert(functions[i].function_name@ != functions[j].function_name@);
                    }
                },
                None => {
                    if j < functions.len() {
                        assert(r[i] == functions[i] && r[j] == functions[j]);
                    } else {
                        assert(r[i] == functions[i]);
                    }
                },
            }
        }
    }
}

/// Whether the next token starts a statement of a program (rather than ending the
/// program or being skipped).
pub open spec fn starts_statement(s: ParserState) -> bool {
    let t = s.peek().token;
    !(t is EOF || t is SemiColon || t is Comment || ((t matches TokenEnum::Bracket(Bracket::RCurly)) && nested(s)))
}

/// Reading a program after statements `stmts` ends where reading it from scratch
/// ends, with `stmts` in front of the statements found.
pub proof fn lemma_program_loop_accumulates(s: ParserState, stmts: Seq<Node>)
    ensures
        program_loop(s, stmts).0 == program_loop(s, Seq::empty()).0,
        program_loop(s, Seq::empty()).1 is Ok ==> program_loop(s, Seq::empty()).1 matches Ok(Node::Program(_)),
        program_loop(s, Seq::empty()).1 matches Ok(Node::Program(q)) ==> program_loop(s, stmts).1 == Ok::<
            Node,
            crate::error::ParseError,
        >(Node::Program(stmts + q)),
        program_loop(s, Seq::empty()).1 is Err ==> program_loop(s, stmts).1 == program_loop(s, Seq::empty()).1,
    decreases s.remaining(),
{
    let empty = Seq::<Node>::empty();
    let t = s.peek();
    match t.token {
        TokenEnum::EOF => {
            assert(stmts + empty =~= stmts);
        },
        TokenEnum::SemiColon => {
            lemma_program_loop_accumulates(s.advance(), stmts);
        },
        TokenEnum::Comment => {},
        _ => {
            if (t.token matches TokenEnum::Bracket(Bracket::RCurly)) && nested(s) {
                assert(stmts + empty =~= stmts);
            } else {
                let (s2, r) = statement(s);
                if let Ok(n) = r {
                    if s2.remaining() < s.remaining() {
                        lemma_program_loop_accumulates(s2, stmts.push(n));
                        lemma_program_loop_accumulates(s2, empty.push(n));
                        if let Ok(Node::Program(q)) = program_loop(s2, empty).1 {
                            assert(stmts.push(n) + q =~= stmts + (empty.push(n) + q));
                        }
                    } else {
                        assert(stmts.push(n) =~= stmts + empty.push(n));
                    }
                }
            }
        },
    }
}

/// A program is read one statement at a time, in source order: when the next
/// token starts a statement, the program is that statement followed by the
/// statements of the rest, and a failing statement fails the program;
/// semicolons between statements add no statement, and a comment where a
/// statement should start is where reading never finishes.
pub proof fn lemma_program_order(s: ParserState)
    ensures
        s.peek().token is SemiColon ==> program(s) == program(s.advance()),
        s.peek().token is Comment ==> program(s) == (s, Err::<Node, crate::error::ParseError>(
            crate::error::ParseError::CommentAtStatementStart(s.peek()),
        )),
        starts_statement(s) && statement(s).1 is Err ==> program(s) == statement(s),
        starts_statement(s) && statement(s).0.remaining() < s.remaining() ==> (statement(s).1 matches Ok(n) ==> {
            &&& program(s).0 == program(statement(s).0).0
            &&& program(statement(s).0).1 matches Ok(Node::Program(q)) ==> program(s).1 == Ok::<
                Node,
                crate::error::ParseError,
            >(Node::Program(seq![n] + q))
            &&& program(statement(s).0).1 is Err ==> program(s).1 == program(statement(s).0).1
        }),
{
    let empty = Seq::<Node>::empty();
    if starts_statement(s) && statement(s).0.remaining() < s.remaining() {
        if let Ok(n) = statement(s).1 {
            lemma_program_loop_accumulates(statement(s).0, empty.push(n));
            assert(empty.push(n) =~= seq![n]);
        }
    }
}

/// Two states that agree on everything but the tokens already read.
pub open spec fn same_rest(a: ParserState, b: ParserState) -> bool {
    &&& 0 <= a.pos <= a.tokens.len()
    &&& 0 <= b.pos <= b.tokens.len()
    &&& a.tokens.skip(a.pos) == b.tokens.skip(b.pos)
    &&& a == ParserState { tokens: a.tokens, pos: a.pos, ..b }
}

proof fn lemma_same_rest_step(a: ParserState, b: ParserState)
    requires
        same_rest(a, b),
    ensures
        a.peek() == b.peek(),
        a.remaining() == b.remaining(),
        same_rest(a.advance(), b.advance()),
{
    assert(a.tokens.skip(a.pos).len() == b.tokens.skip(b.pos).len());
    if a.pos < a.tokens.len() {
        assert(a.tokens[a.pos] == a.tokens.skip(a.pos)[0]);
        assert(b.tokens[b.pos] == b.tokens.skip(b.pos)[0]);
        assert(a.tokens.skip(a.pos + 1) =~= a.tokens.skip(a.pos).drop_first());
        assert(b.tokens.skip(b.pos + 1) =~= b.tokens.skip(b.pos).drop_first());
    }
}

proof fn lemma_validate_same_rest(a: ParserState, b: ParserState, expected: TokenEnum)
    requires
        same_rest(a, b),
    ensures
        validate_consume(a, expected).1 == validate_consume(b, expected).1,
        same_rest(validate_consume(a, expected).0, validate_consume(b, expected).0),
{
    lemma_same_rest_step(a, b);
}

proof fn lemma_array_type_same_rest(a: ParserState, b: ParserState, actual: VarType, base: VarType)
    requires
        same_rest(a, b),
    ensures
        array_type(a, actual, base).1 == array_type(b, actual, base).1,
        same_rest(array_type(a, actual, base).0, array_type(b, actual, base).0),
{
    lemma_same_rest_step(a, b);
    lemma_same_rest_step(a.advance(), b.advance());
    lemma_validate_same_rest(a.advance().advance(), b.advance().advance(), TokenEnum::Bracket(Bracket::RSquare));
}

proof fn lemma_variable_same_rest(a: ParserState, b: ParserState)
    requires
        same_rest(a, b),
    ensures
        variable(a).1 == variable(b).1,
        same_rest(variable(a).0, variable(b).0),
{
    lemma_same_rest_step(a, b);
    let (a1, b1) = (a.advance(), b.advance());
    lemma_same_rest_step(a1, b1);
    let (a2, b2) = (a1.advance(), b1.advance());
    lemma_same_rest_step(a2, b2);
    let (a3, b3) = (a2.advance(), b2.advance());
    if let TokenEnum::Type(vt) = a2.peek().token {
        lemma_array_type_same_rest(a3, b3, vt, vt);
    }
    if let TokenEnum::Variable(n) = a2.peek().token {
        if let Some(vt) = crate::grammar::find_type(a2.user_types, n@) {
            lemma_array_type_same_rest(a3, b3, vt, vt);
        }
    }
}

proof fn lemma_parameter_list_same_rest(a: ParserState, b: ParserState, acc: Seq<Variable>)
    requires
        same_rest(a, b),
    ensures
        parameter_list(a, acc).1 == parameter_list(b, acc).1,
    decreases a.remaining(),
{
    lemma_same_rest_step(a, b);
    let t = a.peek();
    match t.token {
        TokenEnum::Bracket(_) => {},
        TokenEnum::Comma => {
            lemma_parameter_list_same_rest(a.advance(), b.advance(), acc);
        },
        _ => {
            lemma_variable_same_rest(a, b);
            let (a1, r) = variable(a);
            let (b1, _) = variable(b);
            lemma_same_rest_step(a1, b1);
            if let Ok(v) = r {
                if a1.remaining() < a.remaining() {
                    lemma_parameter_list_same_rest(a1, b1, acc.push(v));
                }
            }
        },
    }
}

/// The state `s` with the token at index `k` taken out of the stream.
pub open spec fn without_token(s: ParserState, k: int) -> ParserState {
    ParserState { tokens: s.tokens.remove(k), ..s }
}

/// Reading a parameter list from `s` comes to a parameter boundary at index `k`:
/// past commas and complete parameters, without meeting a bracket.
pub open spec fn reaches_boundary(s: ParserState, k: int) -> bool
    decreases k - s.pos,
{
    if s.pos < 0 || s.pos > k || s.pos > s.tokens.len() {
        false
    } else if s.pos == k {
        true
    } else {
        match s.peek().token {
            TokenEnum::Bracket(_) => false,
            TokenEnum::Comma => s.pos < s.tokens.len() && reaches_boundary(s.advance(), k),
            _ => {
                let (s1, r) = variable(s);
                r is Ok && s.pos < s1.pos <= k && reaches_boundary(s1, k)
            },
        }
    }
}

/// `b` is `a` with the token at index `k`, not yet read, taken out.
pub open spec fn shifted(a: ParserState, b: ParserState, k: int) -> bool {
    &&& 0 <= a.pos <= k < a.tokens.len()
    &&& b == without_token(a, k)
}

proof fn lemma_shift_step(a: ParserState, b: ParserState, k: int)
    requires
        shifted(a, b, k),
    ensures
        b.remaining() + 1 == a.remaining(),
        a.pos < k ==> a.peek() == b.peek() && shifted(a.advance(), b.advance(), k),
        a.pos == k ==> b.peek() == token_at(a.tokens, k + 1),
{
    if a.pos < k {
        assert(b.tokens[b.pos] == a.tokens[a.pos]);
    } else {
        if k + 1 < a.tokens.len() {
            assert(b.tokens[k] == a.tokens[k + 1]);
        }
    }
}

proof fn lemma_variable_frame(s: ParserState)
    ensures
        s.same_except_pos(variable(s).0),
        s.in_range() ==> variable(s).0.in_range(),
{
}

proof fn lemma_variable_shifted(a: ParserState, b: ParserState, k: int)
    requires
        shifted(a, b, k),
        a.pos < k,
        variable(a).1 is Ok,
        variable(a).0.pos <= k,
        !(token_at(a.tokens, k + 1).token matches TokenEnum::Bracket(Bracket::LSquare)),
    ensures
        variable(a).1 == variable(b).1,
        shifted(variable(a).0, variable(b).0, k),
{
    lemma_shift_step(a, b, k);
    let (a1, b1) = (a.advance(), b.advance());
    lemma_shift_step(a1, b1, k);
    if a1.pos < k {
        let (a2, b2) = (a1.advance(), b1.advance());
        lemma_shift_step(a2, b2, k);
        if a2.pos < k {
            let (a3, b3) = (a2.advance(), b2.advance());
            lemma_shift_step(a3, b3, k);
            if a3.pos < k {
                let (a4, b4) = (a3.advance(), b3.advance());
                lemma_shift_step(a4, b4, k);
                if a4.pos < k {
                    let (a5, b5) = (a4.advance(), b4.advance());
                    lemma_shift_step(a5, b5, k);
                }
            }
        }
    }
}

/// Commas at parameter boundaries are skipped and never counted: taking out of
/// the stream a comma that reading the parameter list comes to at a boundary
/// leaves the parameters read unchanged, unless a `[` follows that comma (it
/// would then be read as the array size of the parameter before).
pub proof fn lemma_parameters_without_comma(s: ParserState, acc: Seq<Variable>, k: int)
    requires
        0 <= s.pos <= k < s.tokens.len(),
        s.tokens[k].token is Comma,
        reaches_boundary(s, k),
        !(token_at(s.tokens, k + 1).token matches TokenEnum::Bracket(Bracket::LSquare)),
    ensures
        parameter_list(s, acc).1 == parameter_list(without_token(s, k), acc).1,
    decreases k - s.pos,
{
    let b = without_token(s, k);
    if s.pos == k {
        assert(s.advance().tokens.skip(k + 1) =~= b.tokens.skip(k));
        lemma_parameter_list_same_rest(s.advance(), b, acc);
    } else {
        lemma_shift_step(s, b, k);
        match s.peek().token {
            TokenEnum::Bracket(_) => {},
            TokenEnum::Comma => {
                lemma_parameters_without_comma(s.advance(), acc, k);
            },
            _ => {
                let (s1, r) = variable(s);
                lemma_variable_frame(s);
                lemma_variable_shifted(s, b, k);
                let (b1, _) = variable(b);
                lemma_shift_step(s1, b1, k);
                if let Ok(v) = r {
                    lemma_parameters_without_comma(s1, acc.push(v), k);
                }
            },
        }
    }
}

/// The result is not the mark of a reading that never finishes.
pub open spec fn not_endless<T>(r: Result<T, ParseError>) -> bool {
    !(r matches Err(ParseError::CommentAtStatementStart(_)))
}

/// The token stream holds no comment tokens.
pub open spec fn no_comment_tokens(tokens: Seq<Token>) -> bool {
    forall|i: int| 0 <= i < tokens.len() ==> !(#[trigger] tokens[i].token is Comment)
}

proof fn lemma_operand_finishes(s: ParserState)
    ensures
        not_endless(operand(s).1) && operand(s).0.tokens == s.tokens,
    decreases s.remaining(), 0nat,
{
    if s.peek().token matches TokenEnum::Bracket(Bracket::LParen) {
        lemma_expression_finishes(s.advance());
    }
}

proof fn lemma_term_tail_finishes(s: ParserState, acc: Node)
    ensures
        not_endless(term_tail(s, acc).1) && term_tail(s, acc).0.tokens == s.tokens,
    decreases s.remaining(), 1nat,
{
    if let TokenEnum::Op(op) = s.peek().token {
        if is_multiplicative(op) {
            lemma_operand_finishes(s.advance());
            let (s3, r3) = operand(s.advance());
            if let Ok(n) = r3 {
                if s3.remaining() < s.remaining() {
                    lemma_term_tail_finishes(s3, Node::BinaryOp(Box::new(acc), op, Box::new(n)));
                }
            }
        }
    }
}

proof fn lemma_term_finishes(s: ParserState)
    ensures
        not_endless(term(s).1) && term(s).0.tokens == s.tokens,
    decreases s.remaining(), 2nat,
{
    lemma_operand_finishes(s);
    let (s1, r1) = operand(s);
    if let Ok(n) = r1 {
        if s1.remaining() < s.remaining() {
            lemma_term_tail_finishes(s1, n);
        }
    }
}

proof fn lemma_expression_tail_finishes(s: ParserState, acc: Node)
    ensures
        not_endless(expression_tail(s, acc).1) && expression_tail(s, acc).0.tokens == s.tokens,
    decreases s.remaining(), 3nat,
{
    if let TokenEnum::Op(op) = s.peek().token {
        if !is_multiplicative(op) {
            lemma_term_finishes(s.advance());
            let (s3, r3) = term(s.advance());
            if let Ok(n) = r3 {
                if s3.remaining() < s.remaining() {
                    lemma_expression_tail_finishes(s3, Node::BinaryOp(Box::new(acc), op, Box::new(n)));
                }
            }
        }
    }
}

proof fn lemma_expression_finishes(s: ParserState)
    ensures
        not_endless(expression(s).1) && expression(s).0.tokens == s.tokens,
    decreases s.remaining(), 4nat,
{
    lemma_term_finishes(s);
    let (s1, r1) = term(s);
    if let Ok(n) = r1 {
        if s1.remaining() < s.remaining() {
            lemma_expression_tail_finishes(s1, n);
        }
    }
}

proof fn lemma_skip_stars_frame(s: ParserState)
    ensures
        skip_stars(s).tokens == s.tokens,
    decreases s.remaining(),
{
    if s.peek().token matches TokenEnum::Op(crate::tokens::Operations::Multiply) {
        lemma_skip_stars_frame(s.advance());
    }
}

proof fn lemma_parameter_list_finishes(s: ParserState, acc: Seq<Variable>)
    ensures
        not_endless(parameter_list(s, acc).1) && parameter_list(s, acc).0.tokens == s.tokens,
    decreases s.remaining(),
{
    match s.peek().token {
        TokenEnum::Bracket(_) => {},
        TokenEnum::Comma => {
            lemma_parameter_list_finishes(s.advance(), acc);
        },
        _ => {
            lemma_variable_frame(s);
            let (s1, r) = variable(s);
            if let Ok(v) = r {
                if s1.remaining() < s.remaining() {
                    lemma_parameter_list_finishes(s1, acc.push(v));
                }
            }
        },
    }
}

proof fn lemma_declaration_finishes(s: ParserState)
    ensures
        not_endless(declaration(s).1) && declaration(s).0.tokens == s.tokens,
{
    lemma_variable_frame(s);
    let s1 = variable(s).0;
    lemma_expression_finishes(s1.advance());
}

proof fn lemma_function_definition_finishes(s: ParserState)
    requires
        no_comment_tokens(s.tokens),
    ensures
        finishes(function_definition(s).1) && function_definition(s).0.tokens == s.tokens,
    decreases s.remaining(), 0nat,
{
    let s2 = s.advance().advance();
    lemma_parameter_list_finishes(s2, Seq::empty());
    let (s3, rp) = parameter_list(s2, Seq::empty());
    let s4 = s3.advance();
    if let TokenEnum::Variable(name) = s.peek().token {
        let s5 = ParserState { function_depth: (s4.function_depth + 1) as usize, current_function: Some(name), ..s4 };
        if s5.remaining() < s.remaining() {
            lemma_program_loop_finishes(s5, Seq::empty());
        }
    }
}

#[verifier::rlimit(60)]
proof fn lemma_keyword_statement_finishes(s: ParserState, t: Token, kw: Seq<char>)
    requires
        no_comment_tokens(s.tokens),
    ensures
        finishes(keyword_statement(s, t, kw).1) && keyword_statement(s, t, kw).0.tokens == s.tokens,
    decreases s.remaining(), 1nat,
{
    lemma_declaration_finishes(s);
    lemma_function_definition_finishes(s);
    if 0 <= s.pos < s.tokens.len() {
        lemma_function_definition_finishes(s.advance());
    }
}

proof fn lemma_statement_finishes(s: ParserState)
    requires
        no_comment_tokens(s.tokens),
    ensures
        finishes(statement(s).1) && statement(s).0.tokens == s.tokens,
    decreases s.remaining(), 0nat,
{
    lemma_expression_finishes(s);
    lemma_skip_stars_frame(s);
    if let TokenEnum::Keyword(kw) = s.peek().token {
        lemma_keyword_statement_finishes(s.advance(), s.peek(), kw@);
    }
}

proof fn lemma_program_loop_finishes(s: ParserState, stmts: Seq<Node>)
    requires
        no_comment_tokens(s.tokens),
    ensures
        finishes(program_loop(s, stmts).1) && program_loop(s, stmts).0.tokens == s.tokens,
    decreases s.remaining(), 1nat,
{
    if 0 <= s.pos < s.tokens.len() {
        assert(!(s.tokens[s.pos].token is Comment));
    }
    match s.peek().token {
        TokenEnum::SemiColon => {
            lemma_program_loop_finishes(s.advance(), stmts);
        },
        _ => {
            lemma_statement_finishes(s);
            let (s2, r) = statement(s);
            if let Ok(n) = r {
                if s2.remaining() < s.remaining() {
                    lemma_program_loop_finishes(s2, stmts.push(n));
                }
            }
        },
    }
}

/// A token stream without comment tokens never leads to a comment where a
/// statement should start: reading a program, a statement or a function
/// definition from it always finishes.
pub proof fn lemma_no_comments_finishes(s: ParserState)
    requires
        no_comment_tokens(s.tokens),
    ensures
        finishes(program(s).1),
        finishes(statement(s).1),
        finishes(function_definition(s).1),
{
    lemma_program_loop_finishes(s, Seq::empty());
    lemma_statement_finishes(s);
    lemma_function_definition_finishes(s);
}

/// `break` and `continue` inside a loop both refer to the current loop: the
/// statement read is a jump of that kind carrying the current loop's number,
/// whatever the loop depth, and only the keyword is read.
pub proof fn lemma_jump_targets_current_loop(s: ParserState, kw: String)
    requires
        s.peek().token == TokenEnum::Keyword(kw),
        kw@ == BREAK@ || kw@ == CONTINUE@,
        s.loop_depth > 0,
        s.current_loop >= 0,
    ensures
        statement(s) == (s.advance(), Ok::<Node, ParseError>(Node::Jump(Jump {
            jump_type: if kw@ == BREAK@ { JumpType::Break } else { JumpType::Continue },
            loop_number: s.current_loop as usize,
            token: s.peek(),
        }))),
{
    reveal_strlit("def");
    reveal_strlit("const");
    reveal_strlit("type");
    reveal_strlit("fun");
    reveal_strlit("extern");
    reveal_strlit("if");
    reveal_strlit("loop");
    reveal_strlit("break");
    reveal_strlit("continue");
    assert(VAR_DEFINE@ =~= seq!['d', 'e', 'f']);
    assert(TYPE_DEF@ =~= seq!['t', 'y', 'p', 'e']);
    assert(CONST_VAR_DEFINE@ =~= seq!['c', 'o', 'n', 's', 't']);
    assert(IF_STATEMENT@ =~= seq!['i', 'f']);
    assert(LOOP@ =~= seq!['l', 'o', 'o', 'p']);
    assert(FUNCTION_DEFINE@ =~= seq!['f', 'u', 'n']);
    assert(EXTERN@ =~= seq!['e', 'x', 't', 'e', 'r', 'n']);
    assert(BREAK@ =~= seq!['b', 'r', 'e', 'a', 'k']);
    assert(CONTINUE@ =~= seq!['c', 'o', 'n', 't', 'i', 'n', 'u', 'e']);
    assert(BREAK@[0] != CONST_VAR_DEFINE@[0]);
    assert(kw@ != VAR_DEFINE@);
    assert(kw@ != TYPE_DEF@);
    assert(kw@ != CONST_VAR_DEFINE@);
    assert(kw@ != IF_STATEMENT@ && kw@ != LOOP@);
    assert(kw@ != FUNCTION_DEFINE@);
    assert(kw@ != EXTERN@);
    assert(statement(s) == keyword_statement(s.advance(), s.peek(), kw@));
}

/// `types` registers `t` as a name of `base`: `t` is the built-in type `base`, or
/// a name whose first registered entry has type `base`.
pub open spec fn names_type(types: Seq<UserDefinedType>, t: TokenEnum, base: VarType) -> bool {
    ||| t == TokenEnum::Type(base)
    ||| (t matches TokenEnum::Variable(name) && exists|i: int|
        0 <= i < types.len() && types[i].name@ == name@ && types[i].type_ == base && forall|j: int|
            0 <= j < i ==> (#[trigger] types[j]).name@ != name@)
}

proof fn lemma_find_type(types: Seq<UserDefinedType>, name: Seq<char>, i: int, base: VarType)
    requires
        0 <= i < types.len(),
        types[i].name@ == name,
        types[i].type_ == base,
        forall|j: int| 0 <= j < i ==> (#[trigger] types[j]).name@ != name,
    ensures
        crate::grammar::find_type(types, name) == Some(base),
    decreases i,
{
    if i > 0 {
        let rest = types.drop_first();
        assert forall|j: int| 0 <= j < i - 1 implies (#[trigger] rest[j]).name@ != name by {
            assert(rest[j] == types[j + 1]);
        }
        assert(types[0].name@ != name);
        lemma_find_type(rest, name, i - 1, base);
    }
}

/// The variable read from `NAME : T` is named `NAME`, has the type `T` names
/// (built-in or registered), takes the type token as its token, and exactly
/// three tokens are read when no `[` follows.
pub proof fn lemma_variable_plain(s: ParserState, base: VarType)
    requires
        0 <= s.pos,
        s.pos + 3 <= s.tokens.len(),
        s.tokens[s.pos].token is Variable,
        s.tokens[s.pos + 1].token is Colon,
        names_type(s.user_types, s.tokens[s.pos + 2].token, base),
        !(token_at(s.tokens, s.pos + 3).token matches TokenEnum::Bracket(Bracket::LSquare)),
    ensures
        variable(s).0 == (ParserState { pos: s.pos + 3, ..s }),
        variable(s).1 == Ok::<Variable, ParseError>(
            Variable {
                token: Box::new(s.tokens[s.pos + 2]),
                var_name: s.tokens[s.pos].token->Variable_0,
                var_type: base,
                result_type: base,
                dereference: false,
                store_address: false,
                times_dereferenced: 0,
                offset: 0,
            },
        ),
{
    if let TokenEnum::Variable(name) = s.tokens[s.pos + 2].token {
        let i = choose|i: int|
            0 <= i < s.user_types.len() && s.user_types[i].name@ == name@ && s.user_types[i].type_ == base
                && forall|j: int| 0 <= j < i ==> (#[trigger] s.user_types[j]).name@ != name@;
        lemma_find_type(s.user_types, name@, i, base);
    }
}

/// `NAME : T [ N ]` reads a variable named `NAME` whose type is an array of `N`
/// elements of the type `T` names, built-in or registered alike, and reads all
/// six tokens.
pub proof fn lemma_variable_array(s: ParserState, base: VarType, n: i64)
    requires
        0 <= s.pos,
        s.pos + 6 <= s.tokens.len(),
        s.tokens[s.pos].token is Variable,
        s.tokens[s.pos + 1].token is Colon,
        names_type(s.user_types, s.tokens[s.pos + 2].token, base),
        s.tokens[s.pos + 3].token == TokenEnum::Bracket(Bracket::LSquare),
        s.tokens[s.pos + 4].token == TokenEnum::Number(Number::Integer(n)),
        s.tokens[s.pos + 5].token == TokenEnum::Bracket(Bracket::RSquare),
    ensures
        variable(s).0 == (ParserState { pos: s.pos + 6, ..s }),
        variable(s).1 == Ok::<Variable, ParseError>(
            Variable {
                token: Box::new(s.tokens[s.pos + 2]),
                var_name: s.tokens[s.pos].token->Variable_0,
                var_type: VarType::Array(Box::new(base), n as usize),
                result_type: VarType::Array(Box::new(base), n as usize),
                dereference: false,
                store_address: false,
                times_dereferenced: 0,
                offset: 0,
            },
        ),
{
    if let TokenEnum::Variable(name) = s.tokens[s.pos + 2].token {
        let i = choose|i: int|
            0 <= i < s.user_types.len() && s.user_types[i].name@ == name@ && s.user_types[i].type_ == base
                && forall|j: int| 0 <= j < i ==> (#[trigger] s.user_types[j]).name@ != name@;
        lemma_find_type(s.user_types, name@, i, base);
    }
}

/// A declaration is its variable followed, after `=`, by the expression read from
/// the tokens after `=` as its value (whatever that expression is); without `=`
/// it has no value and nothing more is read.
pub proof fn lemma_declaration_value(s: ParserState)
    ensures
        variable(s).1 matches Ok(v) ==> {
            let s1 = variable(s).0;
            &&& !(s1.peek().token is Equals) ==> declaration(s) == (s1, Ok::<Node, ParseError>(
                Node::Declaration(v, None),
            ))
            &&& (s1.peek().token is Equals && !(s1.advance().peek().token matches TokenEnum::Bracket(
                Bracket::LCurly,
            ))) ==> (expression(s1.advance()).1 matches Ok(e) ==> declaration(s) == (
                expression(s1.advance()).0,
                Ok::<Node, ParseError>(Node::Declaration(v, Some(Box::new(e)))),
            ))
        },
{
}

/// Parentheses group: `( E )`, where reading an expression from after `(` gives
/// `E` and stops at `)`, is read as an operand equal to `E`, whatever operators
/// `E` holds; both parentheses are read.
pub proof fn lemma_parenthesised_operand(s: ParserState)
    requires
        s.peek().token == TokenEnum::Bracket(Bracket::LParen),
        expression(s.advance()).1 is Ok,
        expression(s.advance()).0.peek().token == TokenEnum::Bracket(Bracket::RParen),
    ensures
        operand(s) == (expression(s.advance()).0.advance(), expression(s.advance()).1),
{
}

/// A parameter list keeps every parameter read, in order: the parameters read
/// before a point are followed by those read after it; at `)` the list read so
/// far is the result; a parameter that reads is the first of the rest.
pub proof fn lemma_parameters_kept_in_order(s: ParserState, acc: Seq<Variable>)
    ensures
        s.peek().token == TokenEnum::Bracket(Bracket::RParen) ==> parameter_list(s, acc) == (
            s.advance(),
            Ok::<Seq<Variable>, ParseError>(acc),
        ),
        parameter_list(s, acc).0 == parameter_list(s, Seq::empty()).0,
        parameter_list(s, Seq::empty()).1 matches Ok(qs) ==> parameter_list(s, acc).1 == Ok::<
            Seq<Variable>,
            ParseError,
        >(acc + qs),
        parameter_list(s, Seq::empty()).1 is Err ==> parameter_list(s, acc).1 == parameter_list(s, Seq::empty()).1,
        (!(s.peek().token is Bracket) && !(s.peek().token is Comma) && variable(s).1 is Ok
            && variable(s).0.remaining() < s.remaining()) ==> (parameter_list(variable(s).0, Seq::empty()).1 matches Ok(
            qs,
        ) ==> parameter_list(s, Seq::empty()).1 == Ok::<Seq<Variable>, ParseError>(
            seq![variable(s).1->Ok_0] + qs,
        )),
    decreases s.remaining(),
{
    let empty = Seq::<Variable>::empty();
    match s.peek().token {
        TokenEnum::Bracket(_) => {
            assert(acc + empty =~= acc);
        },
        TokenEnum::Comma => {
            lemma_parameters_kept_in_order(s.advance(), acc);
        },
        _ => {
            let (s1, r) = variable(s);
            if let Ok(v) = r {
                if s1.remaining() < s.remaining() {
                    lemma_parameters_kept_in_order(s1, acc.push(v));
                    lemma_parameters_kept_in_order(s1, empty.push(v));
                    if let Ok(qs) = parameter_list(s1, empty).1 {
                        assert(acc.push(v) + qs =~= acc + (empty.push(v) + qs));
                        assert(empty.push(v) + qs =~= seq![v] + qs);
                    }
                } else {
                    assert(acc.push(v) =~= acc + empty.push(v));
                }
            }
        },
    }
}

/// Number literals, string literals and variable names are operands on their own:
/// the operand read is that token, and only it is read.
pub open spec fn is_factor(t: TokenEnum) -> bool {
    t is Number || t is StringLiteral || t is Variable
}

/// An operand token is read as itself.
pub proof fn lemma_factor_operand(s: ParserState)
    requires
        is_factor(s.peek().token),
    ensures
        operand(s) == (s.advance(), Ok::<Node, ParseError>(Node::Factor(s.peek()))),
{
}

/// `X o1 Y o2 Z` with operand tokens X, Y, Z: `*`, `/`, `%` bind tighter than `+`
/// and `-`, and operators of one level group from the left; all five tokens are
/// read.
pub proof fn lemma_operator_precedence(s: ParserState, o1: crate::tokens::Operations, o2: crate::tokens::Operations)
    requires
        0 <= s.pos,
        s.pos + 5 <= s.tokens.len(),
        is_factor(s.tokens[s.pos].token),
        s.tokens[s.pos + 1].token == TokenEnum::Op(o1),
        is_factor(s.tokens[s.pos + 2].token),
        s.tokens[s.pos + 3].token == TokenEnum::Op(o2),
        is_factor(s.tokens[s.pos + 4].token),
        !(token_at(s.tokens, s.pos + 5).token is Op),
    ensures
        expression(s).0 == (ParserState { pos: s.pos + 5, ..s }),
        expression(s).1 == Ok::<Node, ParseError>(
            if is_multiplicative(o2) && !is_multiplicative(o1) {
                Node::BinaryOp(
                    Box::new(Node::Factor(s.tokens[s.pos])),
                    o1,
                    Box::new(Node::BinaryOp(
                        Box::new(Node::Factor(s.tokens[s.pos + 2])),
                        o2,
                        Box::new(Node::Factor(s.tokens[s.pos + 4])),
                    )),
                )
            } else {
                Node::BinaryOp(
                    Box::new(Node::BinaryOp(
                        Box::new(Node::Factor(s.tokens[s.pos])),
                        o1,
                        Box::new(Node::Factor(s.tokens[s.pos + 2])),
                    )),
                    o2,
                    Box::new(Node::Factor(s.tokens[s.pos + 4])),
                )
            },
        ),
{
    let s1 = s.advance();
    let s2 = s1.advance();
    let s3 = s2.advance();
    let s4 = s3.advance();
    let s5 = s4.advance();
    let f0 = Node::Factor(s.tokens[s.pos]);
    let f2 = Node::Factor(s.tokens[s.pos + 2]);
    let f4 = Node::Factor(s.tokens[s.pos + 4]);
    assert(s5 == ParserState { pos: s.pos + 5, ..s });
    assert(operand(s) == (s1, Ok::<Node, ParseError>(f0)));
    assert(operand(s2) == (s3, Ok::<Node, ParseError>(f2)));
    assert(operand(s4) == (s5, Ok::<Node, ParseError>(f4)));
    assert(forall|x: Node| #[trigger] term_tail(s5, x) == (s5, Ok::<Node, ParseError>(x)));
    assert(forall|x: Node| #[trigger] expression_tail(s5, x) == (s5, Ok::<Node, ParseError>(x)));
    assert(term(s4) == term_tail(s5, f4));
    assert(term(s4) == (s5, Ok::<Node, ParseError>(f4)));
    assert(term(s) == term_tail(s1, f0));
    assert(term(s2) == term_tail(s3, f2));
    if is_multiplicative(o1) {
        let b01 = Node::BinaryOp(Box::new(f0), o1, Box::new(f2));
        assert(term_tail(s1, f0) == term_tail(s3, b01));
        if is_multiplicative(o2) {
            let b = Node::BinaryOp(Box::new(b01), o2, Box::new(f4));
            assert(term_tail(s3, b01) == term_tail(s5, b));
            assert(expression(s) == expression_tail(s5, b));
        } else {
            assert(term_tail(s3, b01) == (s3, Ok::<Node, ParseError>(b01)));
            assert(expression(s) == expression_tail(s3, b01));
            let b = Node::BinaryOp(Box::new(b01), o2, Box::new(f4));
            assert(expression_tail(s3, b01) == expression_tail(s5, b));
        }
    } else {
        assert(term_tail(s1, f0) == (s1, Ok::<Node, ParseError>(f0)));
        assert(expression(s) == expression_tail(s1, f0));
        if is_multiplicative(o2) {
            let b24 = Node::BinaryOp(Box::new(f2), o2, Box::new(f4));
            assert(term_tail(s3, f2) == term_tail(s5, b24));
            assert(term(s2) == (s5, Ok::<Node, ParseError>(b24)));
            let b = Node::BinaryOp(Box::new(f0), o1, Box::new(b24));
            assert(expression_tail(s1, f0) == expression_tail(s5, b));
        } else {
            assert(term_tail(s3, f2) == (s3, Ok::<Node, ParseError>(f2)));
            let b01 = Node::BinaryOp(Box::new(f0), o1, Box::new(f2));
            assert(expression_tail(s1, f0) == expression_tail(s3, b01));
            let b = Node::BinaryOp(Box::new(b01), o2, Box::new(f4));
            assert(expression_tail(s3, b01) == expression_tail(s5, b));
        }
    }
}

/// What a statement is, by its first token: `def` and `const` start a
/// declaration; `fun` starts a function definition at top level and is refused
/// inside a function body; a number or `(` starts an expression statement.
pub proof fn lemma_statement_kinds(s: ParserState, kw: String)
    ensures
        s.peek().token == TokenEnum::Keyword(kw) && (kw@ == VAR_DEFINE@ || kw@ == CONST_VAR_DEFINE@) ==> statement(s)
            == declaration(s.advance()),
        s.peek().token == TokenEnum::Keyword(kw) && kw@ == FUNCTION_DEFINE@ && s.function_depth == 0 ==> statement(s)
            == function_definition(s.advance()),
        s.peek().token == TokenEnum::Keyword(kw) && kw@ == FUNCTION_DEFINE@ && s.function_depth != 0 ==> statement(s)
            == (s.advance(), Err::<Node, ParseError>(ParseError::FunctionInsideFunction(s.peek()))),
        (s.peek().token is Number || s.peek().token == TokenEnum::Bracket(Bracket::LParen)) ==> statement(s)
            == expression(s),
{
    reveal_strlit("def");
    reveal_strlit("const");
    reveal_strlit("type");
    reveal_strlit("fun");
    reveal_strlit("if");
    reveal_strlit("loop");
    assert(VAR_DEFINE@ =~= seq!['d', 'e', 'f']);
    assert(TYPE_DEF@ =~= seq!['t', 'y', 'p', 'e']);
    assert(CONST_VAR_DEFINE@ =~= seq!['c', 'o', 'n', 's', 't']);
    assert(IF_STATEMENT@ =~= seq!['i', 'f']);
    assert(LOOP@ =~= seq!['l', 'o', 'o', 'p']);
    assert(FUNCTION_DEFINE@ =~= seq!['f', 'u', 'n']);
    if s.peek().token == TokenEnum::Keyword(kw) {
        assert(statement(s) == keyword_statement(s.advance(), s.peek(), kw@));
        if kw@ == CONST_VAR_DEFINE@ {
            assert(kw@ != VAR_DEFINE@);
            assert(kw@ != TYPE_DEF@);
        }
        if kw@ == FUNCTION_DEFINE@ {
            assert(kw@ != VAR_DEFINE@);
            assert(kw@[0] != TYPE_DEF@[0]);
            assert(kw@ != CONST_VAR_DEFINE@);
            assert(kw@ != IF_STATEMENT@ && kw@ != LOOP@);
        }
    }
}

/// The state at which the body of a function definition read from `s` starts:
/// after `NAME (`, the parameters and `{`, one function level deeper, with the
/// function named `name` current.
pub open spec fn body_start(s: ParserState, name: String) -> ParserState {
    let s4 = parameter_list(s.advance().advance(), Seq::empty()).0.advance();
    ParserState { function_depth: (s4.function_depth + 1) as usize, current_function: Some(name), ..s4 }
}

/// A function definition `NAME ( PARAMETERS ) { BODY }` is the definition named
/// `NAME` with the parameters read from the list and the body read as a program
/// one function level deeper with `NAME` current; afterwards the nesting is back
/// where it was, no function is current, and the table of functions holds the
/// definition under its name.
pub proof fn lemma_function_definition_parts(s: ParserState, name: String, params: Seq<Variable>, block: Node)
    requires
        s.peek().token == TokenEnum::Variable(name),
        s.advance().peek().token == TokenEnum::Bracket(Bracket::LParen),
        parameter_list(s.advance().advance(), Seq::empty()).1 == Ok::<Seq<Variable>, ParseError>(params),
        parameter_list(s.advance().advance(), Seq::empty()).0.peek().token == TokenEnum::Bracket(Bracket::LCurly),
        body_start(s, name).remaining() < s.remaining(),
        program(body_start(s, name)).1 == Ok::<Node, ParseError>(block),
        program(body_start(s, name)).0.peek().token == TokenEnum::Bracket(Bracket::RCurly),
        program(body_start(s, name)).0.function_depth == body_start(s, name).function_depth,
        s.function_depth < usize::MAX,
    ensures
        function_definition(s).1 == Ok::<Node, ParseError>(
            Node::Function(FunctionView { function_name: name, parameters: params, block: Box::new(block) }),
        ),
        function_definition(s).0.function_depth == s.function_depth,
        function_definition(s).0.current_function is None,
        function_index(function_definition(s).0.functions, name@) matches Some(k) && function_definition(s).0.functions[k]
            == (FunctionView { function_name: name, parameters: params, block: Box::new(block) }),
{
    let s6 = program(body_start(s, name)).0;
    let s7 = ParserState { function_depth: (s6.function_depth - 1) as usize, current_function: None, ..s6 };
    let def = FunctionView { function_name: name, parameters: params, block: Box::new(block) };
    lemma_register(s7.advance().functions, def);
    lemma_parameter_list_frame(s.advance().advance(), Seq::empty());
}

proof fn lemma_parameter_list_frame(s: ParserState, acc: Seq<Variable>)
    ensures
        s.same_except_pos(parameter_list(s, acc).0),
    decreases s.remaining(),
{
    match s.peek().token {
        TokenEnum::Bracket(_) => {},
        TokenEnum::Comma => {
            lemma_parameter_list_frame(s.advance(), acc);
        },
        _ => {
            lemma_variable_frame(s);
            let (s1, r) = variable(s);
            if let Ok(v) = r {
                if s1.remaining() < s.remaining() {
                    lemma_parameter_list_frame(s1, acc.push(v));
                }
            }
        },
    }
}

} // verus!
