use lang_parser::ast::{ASTNode, JumpType};
use lang_parser::error::ParseError;
use lang_parser::lexer::Lexer;
use lang_parser::parser::{Parser, UserDefinedType};
use lang_parser::tokens::{Bracket, Number, Operations, Token, TokenEnum, VariableEnum};
use lang_parser::types::VarType;
use lang_parser::variable::Variable;

fn tok(t: TokenEnum) -> Token {
    Token { token: t, line_number: 1, col_number: 1 }
}

fn kw(s: &str) -> Token {
    tok(TokenEnum::Keyword(s.to_string()))
}

fn var(s: &str) -> Token {
    tok(TokenEnum::Variable(s.to_string()))
}

fn num(n: i64) -> Token {
    tok(TokenEnum::Number(Number::Integer(n)))
}

fn ty(t: VarType) -> Token {
    tok(TokenEnum::Type(t))
}

fn br(b: Bracket) -> Token {
    tok(TokenEnum::Bracket(b))
}

fn parser(tokens: Vec<Token>) -> Parser {
    Parser::new(tokens, "main.lang".to_string())
}

fn is_var_type(t: &VarType, expected: &VarType) -> bool {
    t == expected
}

#[test]
fn variable_new_copies_type_into_result_type() {
    let v = Variable::new(Box::new(var("x")), VarType::Int, "x".to_string(), true, false, 2);
    assert_eq!(v.var_name, "x");
    assert!(is_var_type(&v.var_type, &VarType::Int));
    assert!(is_var_type(&v.result_type, &VarType::Int));
    assert!(v.dereference);
    assert!(!v.store_address);
    assert_eq!(v.times_dereferenced, 2);
    assert_eq!(v.offset, 0);
    assert!(matches!(&v.get_token().token, TokenEnum::Variable(n) if n == "x"));
}

#[test]
fn variable_sizes() {
    let mk = |t: VarType| Variable::new(Box::new(var("v")), t, "v".to_string(), false, false, 0);
    assert_eq!(mk(VarType::Int).size(), 8);
    assert_eq!(mk(VarType::Str).size(), 16);
    assert_eq!(mk(VarType::Ptr(Box::new(VarType::Int))).size(), 8);
}

#[test]
fn variable_zero_values() {
    let mk = |t: VarType| Variable::new(Box::new(var("v")), t, "v".to_string(), false, false, 0);
    assert!(matches!(mk(VarType::Int).get_var_enum_from_type(), VariableEnum::Number(Number::Integer(0))));
    assert!(matches!(mk(VarType::Str).get_var_enum_from_type(), VariableEnum::String(s) if s.is_empty()));
}

#[test]
fn token_equality_compares_kind_and_payload() {
    assert!(TokenEnum::Keyword("def".to_string()) == TokenEnum::Keyword("def".to_string()));
    assert!(TokenEnum::Keyword("def".to_string()) != TokenEnum::Variable("def".to_string()));
    assert!(TokenEnum::Number(Number::Integer(4)) != TokenEnum::Number(Number::Integer(0)));
    assert!(TokenEnum::Type(VarType::Ptr(Box::new(VarType::Int))) == TokenEnum::Type(VarType::Ptr(Box::new(VarType::Int))));
    assert!(TokenEnum::Type(VarType::Ptr(Box::new(VarType::Int))) != TokenEnum::Type(VarType::Ptr(Box::new(VarType::Str))));
    // equality is symmetric
    let a = TokenEnum::StringLiteral("s".to_string());
    let b = TokenEnum::StringLiteral("s".to_string());
    assert!(a == b && b == a);
}

#[test]
fn var_type_clone_is_equal() {
    let t = VarType::Array(Box::new(VarType::Ptr(Box::new(VarType::Str))), 3);
    assert!(t.clone() == t);
    assert!(VarType::Array(Box::new(VarType::Int), 3) != VarType::Array(Box::new(VarType::Int), 4));
}

#[test]
fn lexer_returns_eof_past_the_end() {
    let mut lexer = Lexer::new(vec![var("a")], "f".to_string());
    assert!(matches!(lexer.peek_nth_token(2).token, TokenEnum::EOF));
    assert!(matches!(lexer.consume_token().token, TokenEnum::Variable(_)));
    assert!(matches!(lexer.consume_token().token, TokenEnum::EOF));
    assert!(matches!(lexer.peek_next_token().token, TokenEnum::EOF));
    assert_eq!(lexer.file_name(), "f");
}

#[test]
fn new_parser_starts_at_top_level() {
    let p = parser(vec![]);
    assert_eq!(p.inside_loop_depth, 0);
    assert_eq!(p.inside_function_depth, 0);
    assert_eq!(p.inside_if_else_depth, 0);
    assert_eq!(p.inside_current_loop_number, -1);
    assert!(p.functions.is_empty());
    assert!(p.current_function_being_parsed.is_none());
    assert!(!p.parsing_variable_assignment.status);
    assert_eq!(p.parsing_variable_assignment.value, "");
}

#[test]
fn validate_and_consume_token_accepts_expected() {
    let mut p = parser(vec![tok(TokenEnum::Colon), var("x")]);
    let t = p.validate_and_consume_token(TokenEnum::Colon).unwrap();
    assert!(matches!(t.token, TokenEnum::Colon));
    assert!(matches!(p.peek_next_token().token, TokenEnum::Variable(_)));
}

#[test]
fn validate_and_consume_token_rejects_other_and_consumes() {
    let mut p = parser(vec![var("x"), tok(TokenEnum::Colon)]);
    let e = p.validate_and_consume_token(TokenEnum::Colon).unwrap_err();
    assert!(matches!(e, ParseError::UnexpectedToken { found: Token { token: TokenEnum::Variable(_), .. }, expected: Some(TokenEnum::Colon) }));
    assert!(matches!(p.peek_next_token().token, TokenEnum::Colon));
}

#[test]
fn validate_any_token_returns_first_match() {
    let mut p = parser(vec![tok(TokenEnum::Comma)]);
    let r = p.validate_any_token(vec![TokenEnum::Colon, TokenEnum::Comma, TokenEnum::Comma]).unwrap();
    assert!(matches!(r, TokenEnum::Comma));
    assert!(matches!(p.peek_next_token().token, TokenEnum::EOF));
}

#[test]
fn validate_any_token_rejects_unlisted() {
    let mut p = parser(vec![tok(TokenEnum::Dot)]);
    let e = p.validate_any_token(vec![TokenEnum::Colon, TokenEnum::Comma]).unwrap_err();
    match e {
        ParseError::UnexpectedTokenOneOf { found, candidates } => {
            assert!(matches!(found.token, TokenEnum::Dot));
            assert_eq!(candidates.len(), 2);
        },
        other => panic!("unexpected {:?}", other),
    }
}

#[test]
fn parse_variable_builtin_type() {
    let mut p = parser(vec![var("x"), tok(TokenEnum::Colon), ty(VarType::Int)]);
    let v = p.parse_variable().unwrap();
    assert_eq!(v.var_name, "x");
    assert!(is_var_type(&v.var_type, &VarType::Int));
    assert!(matches!(v.token.token, TokenEnum::Type(VarType::Int)));
    assert!(matches!(p.peek_next_token().token, TokenEnum::EOF));
}

#[test]
fn parse_variable_array_type() {
    let mut p = parser(vec![
        var("xs"),
        tok(TokenEnum::Colon),
        ty(VarType::Int),
        br(Bracket::LSquare),
        num(4),
        br(Bracket::RSquare),
    ]);
    let v = p.parse_variable().unwrap();
    assert!(is_var_type(&v.var_type, &VarType::Array(Box::new(VarType::Int), 4)));
    assert!(is_var_type(&v.result_type, &VarType::Array(Box::new(VarType::Int), 4)));
}

#[test]
fn parse_variable_array_needs_size() {
    let mut p = parser(vec![var("xs"), tok(TokenEnum::Colon), ty(VarType::Int), br(Bracket::LSquare), var("n")]);
    let e = p.parse_variable().unwrap_err();
    assert!(matches!(e, ParseError::UnexpectedToken { expected: Some(TokenEnum::Number(Number::Integer(0))), .. }));
}

#[test]
fn parse_variable_array_needs_closing_bracket() {
    let mut p = parser(vec![var("xs"), tok(TokenEnum::Colon), ty(VarType::Int), br(Bracket::LSquare), num(2), tok(TokenEnum::Comma)]);
    let e = p.parse_variable().unwrap_err();
    assert!(matches!(e, ParseError::UnexpectedToken { expected: Some(TokenEnum::Bracket(Bracket::RSquare)), .. }));
}

#[test]
fn parse_variable_user_defined_type() {
    let mut p = parser(vec![var("p"), tok(TokenEnum::Colon), var("Point")]);
    p.user_defined_types.push(UserDefinedType { name: "Other".to_string(), type_: VarType::Str });
    p.user_defined_types.push(UserDefinedType { name: "Point".to_string(), type_: VarType::Int });
    let v = p.parse_variable().unwrap();
    assert_eq!(v.var_name, "p");
    assert!(is_var_type(&v.var_type, &VarType::Int));
    assert!(is_var_type(&v.result_type, &VarType::Int));
    assert_eq!(v.offset, 0);
    assert!(matches!(p.peek_next_token().token, TokenEnum::EOF));
}

#[test]
fn parse_variable_unknown_user_type() {
    let mut p = parser(vec![var("p"), tok(TokenEnum::Colon), var("Point")]);
    let e = p.parse_variable().unwrap_err();
    assert!(matches!(e, ParseError::NoSuchType(Token { token: TokenEnum::Variable(n), .. }) if n == "Point"));
}

#[test]
fn parse_variable_requires_name_colon_type() {
    let mut p = parser(vec![num(1)]);
    assert!(matches!(p.parse_variable().unwrap_err(), ParseError::UnexpectedToken { expected: Some(TokenEnum::Colon), .. }));
    let mut p = parser(vec![var("x"), ty(VarType::Int)]);
    assert!(matches!(p.parse_variable().unwrap_err(), ParseError::UnexpectedToken { expected: Some(TokenEnum::Colon), .. }));
    let mut p = parser(vec![var("x"), tok(TokenEnum::Colon), num(3)]);
    assert!(matches!(p.parse_variable().unwrap_err(), ParseError::UnexpectedToken { expected: None, .. }));
}

#[test]
fn parse_declaration_with_expression() {
    // (def) x: int = 5 + (3 * y)
    let mut p = parser(vec![
        var("x"),
        tok(TokenEnum::Colon),
        ty(VarType::Int),
        tok(TokenEnum::Equals),
        num(5),
        tok(TokenEnum::Op(Operations::Plus)),
        br(Bracket::LParen),
        num(3),
        tok(TokenEnum::Op(Operations::Multiply)),
        var("y"),
        br(Bracket::RParen),
    ]);
    let node = p.parse_declaration_statement().unwrap();
    match node {
        ASTNode::DeclarationStatement(d) => {
            assert_eq!(d.left.var_name, "x");
            match *d.right.unwrap() {
                ASTNode::BinaryOp(l, Operations::Plus, r) => {
                    assert!(matches!(*l, ASTNode::Factor(Token { token: TokenEnum::Number(Number::Integer(5)), .. })));
                    assert!(matches!(*r, ASTNode::BinaryOp(_, Operations::Multiply, _)));
                },
                other => panic!("unexpected {:?}", other),
            }
        },
        other => panic!("unexpected {:?}", other),
    }
    assert!(matches!(p.peek_next_token().token, TokenEnum::EOF));
}

#[test]
fn expression_groups_operators_from_the_left() {
    // 1 - 2 - 3 is (1 - 2) - 3
    let mut p = parser(vec![
        num(1),
        tok(TokenEnum::Op(Operations::Minus)),
        num(2),
        tok(TokenEnum::Op(Operations::Minus)),
        num(3),
    ]);
    match p.parse_logical_expression().unwrap() {
        ASTNode::BinaryOp(l, Operations::Minus, r) => {
            assert!(matches!(*l, ASTNode::BinaryOp(_, Operations::Minus, _)));
            assert!(matches!(*r, ASTNode::Factor(Token { token: TokenEnum::Number(Number::Integer(3)), .. })));
        },
        other => panic!("unexpected {:?}", other),
    }
}

#[test]
fn multiplication_binds_tighter_than_addition() {
    // 1 + 2 * 3 is 1 + (2 * 3); 6 / 2 - 1 is (6 / 2) - 1
    let mut p = parser(vec![
        num(1),
        tok(TokenEnum::Op(Operations::Plus)),
        num(2),
        tok(TokenEnum::Op(Operations::Multiply)),
        num(3),
    ]);
    match p.parse_logical_expression().unwrap() {
        ASTNode::BinaryOp(l, Operations::Plus, r) => {
            assert!(matches!(*l, ASTNode::Factor(Token { token: TokenEnum::Number(Number::Integer(1)), .. })));
            assert!(matches!(*r, ASTNode::BinaryOp(_, Operations::Multiply, _)));
        },
        other => panic!("unexpected {:?}", other),
    }
    let mut p = parser(vec![
        num(6),
        tok(TokenEnum::Op(Operations::Divide)),
        num(2),
        tok(TokenEnum::Op(Operations::Minus)),
        num(1),
    ]);
    match p.parse_logical_expression().unwrap() {
        ASTNode::BinaryOp(l, Operations::Minus, r) => {
            assert!(matches!(*l, ASTNode::BinaryOp(_, Operations::Divide, _)));
            assert!(matches!(*r, ASTNode::Factor(_)));
        },
        other => panic!("unexpected {:?}", other),
    }
}

#[test]
fn expression_needs_closing_paren() {
    let mut p = parser(vec![br(Bracket::LParen), num(1)]);
    let e = p.parse_logical_expression().unwrap_err();
    assert!(matches!(e, ParseError::UnexpectedToken { found: Token { token: TokenEnum::EOF, .. }, expected: Some(TokenEnum::Bracket(Bracket::RParen)) }));
}

#[test]
fn declaration_of_struct_literal_is_unsupported() {
    let mut p = parser(vec![var("x"), tok(TokenEnum::Colon), ty(VarType::Int), tok(TokenEnum::Equals), br(Bracket::LCurly)]);
    assert!(matches!(p.parse_declaration_statement().unwrap_err(), ParseError::Unsupported(_)));
}

#[test]
fn declaration_without_value() {
    let mut p = parser(vec![var("x"), tok(TokenEnum::Colon), ty(VarType::Int), tok(TokenEnum::SemiColon)]);
    match p.parse_declaration_statement().unwrap() {
        ASTNode::DeclarationStatement(d) => {
            assert_eq!(d.left.var_name, "x");
            assert!(d.right.is_none());
        },
        other => panic!("unexpected {:?}", other),
    }
    assert!(matches!(p.peek_next_token().token, TokenEnum::SemiColon));
}

fn function_tokens() -> Vec<Token> {
    // def a: int = 1; fun f(x: int, s: str) { def b: int = x } def c: int = 2
    vec![
        kw("def"),
        var("a"),
        tok(TokenEnum::Colon),
        ty(VarType::Int),
        tok(TokenEnum::Equals),
        num(1),
        tok(TokenEnum::SemiColon),
        kw("fun"),
        var("f"),
        br(Bracket::LParen),
        var("x"),
        tok(TokenEnum::Colon),
        ty(VarType::Int),
        tok(TokenEnum::Comma),
        var("s"),
        tok(TokenEnum::Colon),
        ty(VarType::Str),
        br(Bracket::RParen),
        br(Bracket::LCurly),
        kw("def"),
        var("b"),
        tok(TokenEnum::Colon),
        ty(VarType::Int),
        tok(TokenEnum::Equals),
        var("x"),
        br(Bracket::RCurly),
        kw("def"),
        var("c"),
        tok(TokenEnum::Colon),
        ty(VarType::Int),
        tok(TokenEnum::Equals),
        num(2),
    ]
}

#[test]
fn parse_program_with_function() {
    let mut p = parser(function_tokens());
    let program = p.parse_program().unwrap();
    let statements = match program {
        ASTNode::Program(prog) => prog.statements,
        other => panic!("unexpected {:?}", other),
    };
    assert_eq!(statements.len(), 3);
    match &statements[1] {
        ASTNode::FunctionDefinition(f) => {
            assert_eq!(f.function_name, "f");
            assert_eq!(f.parameters.len(), 2);
            assert_eq!(f.parameters[0].var_name, "x");
            assert_eq!(f.parameters[1].var_name, "s");
            assert!(matches!(&*f.block, ASTNode::Program(b) if b.statements.len() == 1));
        },
        other => panic!("unexpected {:?}", other),
    }
    // the function is registered, and the parser is back at top level
    assert_eq!(p.functions.len(), 1);
    assert_eq!(p.functions[0].function_name, "f");
    assert_eq!(p.inside_function_depth, 0);
    assert!(p.current_function_being_parsed.is_none());
    // a top-level program is read to the end of the input
    assert!(matches!(p.peek_next_token().token, TokenEnum::EOF));
}

#[test]
fn parse_function_definition_registers_the_returned_definition() {
    // (fun) g() { }
    let mut p = parser(vec![var("g"), br(Bracket::LParen), br(Bracket::RParen), br(Bracket::LCurly), br(Bracket::RCurly)]);
    let node = p.parse_function_definition().unwrap();
    match node {
        ASTNode::FunctionDefinition(f) => {
            assert_eq!(f.function_name, "g");
            assert!(f.parameters.is_empty());
            assert!(std::rc::Rc::ptr_eq(&f, p.functions.last().unwrap()));
        },
        other => panic!("unexpected {:?}", other),
    }
}

#[test]
fn parse_function_definition_errors() {
    let mut p = parser(vec![num(1)]);
    assert!(matches!(p.parse_function_definition().unwrap_err(), ParseError::ExpectedFunctionName(_)));
    let mut p = parser(vec![var("g"), br(Bracket::LCurly)]);
    assert!(matches!(p.parse_function_definition().unwrap_err(), ParseError::ExpectedLParen(_)));
    let mut p = parser(vec![var("g"), br(Bracket::LParen), br(Bracket::RParen), kw("def")]);
    assert!(matches!(p.parse_function_definition().unwrap_err(), ParseError::ExpectedLCurly(_)));
    let mut p = parser(vec![var("g"), br(Bracket::LParen), br(Bracket::RParen), br(Bracket::LCurly)]);
    assert!(matches!(
        p.parse_function_definition().unwrap_err(),
        ParseError::ExpectedRCurly(Token { token: TokenEnum::EOF, .. })
    ));
    let mut p = parser(vec![var("g"), br(Bracket::LParen), br(Bracket::LSquare)]);
    assert!(matches!(p.parse_function_definition().unwrap_err(), ParseError::UnexpectedToken { expected: None, .. }));
}

fn empty_function(name: &str) -> Vec<Token> {
    vec![kw("fun"), var(name), br(Bracket::LParen), br(Bracket::RParen), br(Bracket::LCurly), br(Bracket::RCurly)]
}

#[test]
fn redefinition_replaces_table_entry() {
    let mut tokens = empty_function("f");
    tokens.extend(empty_function("g"));
    tokens.extend(vec![kw("fun"), var("f"), br(Bracket::LParen), var("a"), tok(TokenEnum::Colon), ty(VarType::Int), br(Bracket::RParen), br(Bracket::LCurly), br(Bracket::RCurly)]);
    let mut p = parser(tokens);
    let statements = match p.parse_program().unwrap() {
        ASTNode::Program(prog) => prog.statements,
        other => panic!("unexpected {:?}", other),
    };
    assert_eq!(statements.len(), 3);
    // one entry per name: the second `f` took the place of the first
    assert_eq!(p.functions.len(), 2);
    assert_eq!(p.functions[0].function_name, "f");
    assert_eq!(p.functions[0].parameters.len(), 1);
    assert_eq!(p.functions[1].function_name, "g");
    match &statements[2] {
        ASTNode::FunctionDefinition(f) => assert!(std::rc::Rc::ptr_eq(f, &p.functions[0])),
        other => panic!("unexpected {:?}", other),
    }
}

#[test]
fn failed_body_restores_depth() {
    let mut p = parser(vec![kw("fun"), var("f"), br(Bracket::LParen), br(Bracket::RParen), br(Bracket::LCurly), kw("else")]);
    assert!(matches!(p.parse_program().unwrap_err(), ParseError::ElseWithoutIf(_)));
    assert_eq!(p.inside_function_depth, 0);
    assert!(p.current_function_being_parsed.is_none());
    assert!(p.functions.is_empty());
}

#[test]
fn comment_inside_a_statement_is_an_unexpected_token() {
    let mut p = parser(vec![kw("def"), var("x"), tok(TokenEnum::Colon), ty(VarType::Int), tok(TokenEnum::Equals), tok(TokenEnum::Comment)]);
    assert!(matches!(
        p.parse_program().unwrap_err(),
        ParseError::UnexpectedToken { found: Token { token: TokenEnum::Comment, .. }, expected: None }
    ));
}

#[test]
fn commas_in_parameter_lists_are_skipped() {
    // fun f(a: int b: int,, ) {}
    let mut p = parser(vec![
        var("f"),
        br(Bracket::LParen),
        var("a"),
        tok(TokenEnum::Colon),
        ty(VarType::Int),
        var("b"),
        tok(TokenEnum::Colon),
        ty(VarType::Int),
        tok(TokenEnum::Comma),
        tok(TokenEnum::Comma),
        br(Bracket::RParen),
        br(Bracket::LCurly),
        br(Bracket::RCurly),
    ]);
    match p.parse_function_definition().unwrap() {
        ASTNode::FunctionDefinition(f) => {
            assert_eq!(f.parameters.len(), 2);
            assert_eq!(f.parameters[1].var_name, "b");
        },
        other => panic!("unexpected {:?}", other),
    }
}

#[test]
fn function_inside_function_is_refused() {
    let mut p = parser(vec![
        kw("fun"),
        var("f"),
        br(Bracket::LParen),
        br(Bracket::RParen),
        br(Bracket::LCurly),
        kw("fun"),
        var("g"),
    ]);
    assert!(matches!(p.parse_program().unwrap_err(), ParseError::FunctionInsideFunction(_)));
}

#[test]
fn extern_function() {
    let mut p = parser(vec![kw("extern"), kw("fun"), var("h"), br(Bracket::LParen), br(Bracket::RParen), br(Bracket::LCurly), br(Bracket::RCurly)]);
    let node = p.parse_statements().unwrap();
    assert!(matches!(node, ASTNode::FunctionDefinition(f) if f.function_name == "h"));
    let mut p = parser(vec![kw("extern"), var("h")]);
    assert!(matches!(p.parse_statements().unwrap_err(), ParseError::ExpectedFunctionKeyword(_)));
}

#[test]
fn break_and_continue_need_a_loop() {
    let mut p = parser(vec![kw("break")]);
    assert!(matches!(p.parse_statements().unwrap_err(), ParseError::BreakOutsideLoop(_)));
    let mut p = parser(vec![kw("continue")]);
    assert!(matches!(p.parse_statements().unwrap_err(), ParseError::ContinueOutsideLoop(_)));
}

#[test]
fn break_and_continue_in_a_loop() {
    let mut p = parser(vec![kw("break"), kw("continue")]);
    p.inside_loop_depth = 1;
    p.inside_current_loop_number = 3;
    match p.parse_statements().unwrap() {
        ASTNode::Jump(j) => {
            assert_eq!(j.jump_type, JumpType::Break);
            assert_eq!(j.loop_number, 3);
        },
        other => panic!("unexpected {:?}", other),
    }
    match p.parse_statements().unwrap() {
        ASTNode::Jump(j) => assert_eq!(j.jump_type, JumpType::Continue),
        other => panic!("unexpected {:?}", other),
    }
}

#[test]
fn keyword_errors() {
    let mut p = parser(vec![kw("else")]);
    assert!(matches!(p.parse_statements().unwrap_err(), ParseError::ElseWithoutIf(_)));
    let mut p = parser(vec![kw("elif")]);
    assert!(matches!(p.parse_statements().unwrap_err(), ParseError::ElifWithoutIf(_)));
    let mut p = parser(vec![kw("while")]);
    assert!(matches!(p.parse_statements().unwrap_err(), ParseError::UnknownKeyword(_)));
    let mut p = parser(vec![kw("if")]);
    assert!(matches!(p.parse_statements().unwrap_err(), ParseError::Unsupported(_)));
}

#[test]
fn include_checks() {
    let mut p = parser(vec![kw("include"), tok(TokenEnum::StringLiteral("./lib.lang".to_string()))]);
    assert!(matches!(p.parse_statements().unwrap_err(), ParseError::Unsupported(_)));
    let mut p = parser(vec![kw("include"), num(1)]);
    assert!(matches!(p.parse_statements().unwrap_err(), ParseError::ExpectedFilePath(_)));
    let mut p = parser(vec![kw("include"), tok(TokenEnum::StringLiteral("a".to_string()))]);
    p.inside_function_depth = 1;
    assert!(matches!(p.parse_statements().unwrap_err(), ParseError::IncludeNotAtTopLevel(_)));
}

#[test]
fn statements_starting_with_a_variable() {
    let mut p = parser(vec![var("x"), tok(TokenEnum::Equals), num(1)]);
    assert!(matches!(p.parse_statements().unwrap_err(), ParseError::Unsupported(_)));
    let mut p = parser(vec![var("x"), var("y")]);
    assert!(matches!(
        p.parse_statements().unwrap_err(),
        ParseError::ExpectedCallOrAssignment(Token { token: TokenEnum::Variable(_), .. })
    ));
    let mut p = parser(vec![var("x"), br(Bracket::RCurly)]);
    assert!(matches!(p.parse_statements().unwrap_err(), ParseError::UnexpectedToken { expected: None, .. }));
}

#[test]
fn dereferencing_statements() {
    let mut p = parser(vec![
        tok(TokenEnum::Op(Operations::Multiply)),
        tok(TokenEnum::Op(Operations::Multiply)),
        var("x"),
        tok(TokenEnum::Equals),
    ]);
    assert!(matches!(p.parse_statements().unwrap_err(), ParseError::Unsupported(_)));
    assert!(matches!(p.peek_next_token().token, TokenEnum::Equals));
    let mut p = parser(vec![tok(TokenEnum::Op(Operations::Multiply)), num(5)]);
    assert!(matches!(p.parse_statements().unwrap_err(), ParseError::ExpectedVariableName(_)));
    let mut p = parser(vec![tok(TokenEnum::Op(Operations::Plus)), num(5)]);
    assert!(matches!(p.parse_statements().unwrap_err(), ParseError::UnexpectedToken { expected: None, .. }));
}

#[test]
fn expression_statement() {
    let mut p = parser(vec![num(1), tok(TokenEnum::Op(Operations::Divide)), num(2), tok(TokenEnum::SemiColon)]);
    assert!(matches!(p.parse_statements().unwrap(), ASTNode::BinaryOp(_, Operations::Divide, _)));
}

#[test]
fn closing_bracket_at_top_level_is_refused() {
    let mut p = parser(vec![br(Bracket::RCurly)]);
    assert!(matches!(
        p.parse_program().unwrap_err(),
        ParseError::UnexpectedToken { found: Token { token: TokenEnum::Bracket(Bracket::RCurly), .. }, expected: None }
    ));
}

#[test]
fn nested_program_stops_at_closing_bracket() {
    let mut p = parser(vec![kw("def"), var("a"), tok(TokenEnum::Colon), ty(VarType::Int), tok(TokenEnum::Equals), num(1), br(Bracket::RCurly), num(9)]);
    p.inside_function_depth = 1;
    match p.parse_program().unwrap() {
        ASTNode::Program(prog) => assert_eq!(prog.statements.len(), 1),
        other => panic!("unexpected {:?}", other),
    }
    assert!(matches!(p.peek_next_token().token, TokenEnum::Bracket(Bracket::RCurly)));
    assert_eq!(p.inside_function_depth, 1);
}

#[test]
fn empty_program() {
    let mut p = parser(vec![tok(TokenEnum::SemiColon), tok(TokenEnum::SemiColon)]);
    match p.parse_program().unwrap() {
        ASTNode::Program(prog) => assert!(prog.statements.is_empty()),
        other => panic!("unexpected {:?}", other),
    }
}

#[test]
fn const_declaration() {
    let mut p = parser(vec![kw("const"), var("k"), tok(TokenEnum::Colon), ty(VarType::Str), tok(TokenEnum::Equals), tok(TokenEnum::StringLiteral("hi".to_string()))]);
    assert!(matches!(p.parse_statements().unwrap(), ASTNode::DeclarationStatement(d) if d.left.var_name == "k"));
}

#[test]
fn comma_before_array_bracket_is_not_skipped() {
    // (a: int, [3]) fails at the bracket, while (a: int [3]) declares an array
    let mut with_comma = parser(vec![
        var("f"),
        br(Bracket::LParen),
        var("a"),
        tok(TokenEnum::Colon),
        ty(VarType::Int),
        tok(TokenEnum::Comma),
        br(Bracket::LSquare),
        num(3),
        br(Bracket::RSquare),
        br(Bracket::RParen),
        br(Bracket::LCurly),
        br(Bracket::RCurly),
    ]);
    assert!(matches!(with_comma.parse_function_definition().unwrap_err(), ParseError::UnexpectedToken { expected: None, .. }));
    let mut without_comma = parser(vec![
        var("f"),
        br(Bracket::LParen),
        var("a"),
        tok(TokenEnum::Colon),
        ty(VarType::Int),
        br(Bracket::LSquare),
        num(3),
        br(Bracket::RSquare),
        br(Bracket::RParen),
        br(Bracket::LCurly),
        br(Bracket::RCurly),
    ]);
    match without_comma.parse_function_definition().unwrap() {
        ASTNode::FunctionDefinition(f) => {
            assert!(is_var_type(&f.parameters[0].var_type, &VarType::Array(Box::new(VarType::Int), 3)));
        },
        other => panic!("unexpected {:?}", other),
    }
}
