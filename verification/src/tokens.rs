use vstd::prelude::*;

use crate::types::VarType;

verus! {

/// A numeric literal.
#[derive(PartialEq, Eq, Structural, Clone, Copy, Debug)]
pub enum Number {
    Integer(i64),
}

#[derive(PartialEq, Eq, Structural, Clone, Copy, Debug)]
pub enum Bracket {
    LParen,
    RParen,
    LCurly,
    RCurly,
    LSquare,
    RSquare,
}

/// Arithmetic operators.
#[derive(PartialEq, Eq, Structural, Clone, Copy, Debug)]
pub enum Operations {
    Plus,
    Minus,
    Multiply,
    Divide,
    Modulo,
}

/// The kind and payload of a token.
#[derive(Debug)]
pub enum TokenEnum {
    Number(Number),
    Op(Operations),
    Bracket(Bracket),
    Keyword(String),
    Type(VarType),
    Variable(String),
    StringLiteral(String),
    Equals,
    PlusEquals,
    MinusEquals,
    Colon,
    Comma,
    Dot,
    SemiColon,
    Comment,
    EOF,
}

impl TokenEnum {
    /// Two token kinds are the same when their variants agree and their payloads are
    /// equal; text payloads are compared by their characters.
    pub open spec fn same(self, other: TokenEnum) -> bool {
        match (self, other) {
            (TokenEnum::Number(a), TokenEnum::Number(b)) => a == b,
            (TokenEnum::Op(a), TokenEnum::Op(b)) => a == b,
            (TokenEnum::Bracket(a), TokenEnum::Bracket(b)) => a == b,
            (TokenEnum::Keyword(a), TokenEnum::Keyword(b)) => a@ == b@,
            (TokenEnum::Type(a), TokenEnum::Type(b)) => a == b,
            (TokenEnum::Variable(a), TokenEnum::Variable(b)) => a@ == b@,
            (TokenEnum::StringLiteral(a), TokenEnum::StringLiteral(b)) => a@ == b@,
            (TokenEnum::Equals, TokenEnum::Equals) => true,
            (TokenEnum::PlusEquals, TokenEnum::PlusEquals) => true,
            (TokenEnum::MinusEquals, TokenEnum::MinusEquals) => true,
            (TokenEnum::Colon, TokenEnum::Colon) => true,
            (TokenEnum::Comma, TokenEnum::Comma) => true,
            (TokenEnum::Dot, TokenEnum::Dot) => true,
            (TokenEnum::SemiColon, TokenEnum::SemiColon) => true,
            (TokenEnum::Comment, TokenEnum::Comment) => true,
            (TokenEnum::EOF, TokenEnum::EOF) => true,
            _ => false,
        }
    }
}

impl Clone for TokenEnum {
    fn clone(&self) -> (res: Self)
        ensures
            res == *self,
    {
        match self {
            TokenEnum::Number(n) => TokenEnum::Number(*n),
            TokenEnum::Op(o) => TokenEnum::Op(*o),
            TokenEnum::Bracket(b) => TokenEnum::Bracket(*b),
            TokenEnum::Keyword(s) => TokenEnum::Keyword(s.clone()),
            TokenEnum::Type(t) => TokenEnum::Type(t.clone()),
            TokenEnum::Variable(s) => TokenEnum::Variable(s.clone()),
            TokenEnum::StringLiteral(s) => TokenEnum::StringLiteral(s.clone()),
            TokenEnum::Equals => TokenEnum::Equals,
            TokenEnum::PlusEquals => TokenEnum::PlusEquals,
            TokenEnum::MinusEquals => TokenEnum::MinusEquals,
            TokenEnum::Colon => TokenEnum::Colon,
            TokenEnum::Comma => TokenEnum::Comma,
            TokenEnum::Dot => TokenEnum::Dot,
            TokenEnum::SemiColon => TokenEnum::SemiColon,
            TokenEnum::Comment => TokenEnum::Comment,
            TokenEnum::EOF => TokenEnum::EOF,
        }
    }
}

impl PartialEq for TokenEnum {
    fn eq(&self, other: &Self) -> (res: bool) {
        match (self, other) {
            (TokenEnum::Number(a), TokenEnum::Number(b)) => *a == *b,
            (TokenEnum::Op(a), TokenEnum::Op(b)) => *a == *b,
            (TokenEnum::Bracket(a), TokenEnum::Bracket(b)) => *a == *b,
            (TokenEnum::Keyword(a), TokenEnum::Keyword(b)) => *a == *b,
            (TokenEnum::Type(a), TokenEnum::Type(b)) => a.eq(b),
            (TokenEnum::Variable(a), TokenEnum::Variable(b)) => *a == *b,
            (TokenEnum::StringLiteral(a), TokenEnum::StringLiteral(b)) => *a == *b,
            (TokenEnum::Equals, TokenEnum::Equals) => true,
            (TokenEnum::PlusEquals, TokenEnum::PlusEquals) => true,
            (TokenEnum::MinusEquals, TokenEnum::MinusEquals) => true,
            (TokenEnum::Colon, TokenEnum::Colon) => true,
            (TokenEnum::Comma, TokenEnum::Comma) => true,
            (TokenEnum::Dot, TokenEnum::Dot) => true,
            (TokenEnum::SemiColon, TokenEnum::SemiColon) => true,
            (TokenEnum::Comment, TokenEnum::Comment) => true,
            (TokenEnum::EOF, TokenEnum::EOF) => true,
            _ => false,
        }
    }
}

impl vstd::std_specs::cmp::PartialEqSpecImpl for TokenEnum {
    open spec fn obeys_eq_spec() -> bool {
        true
    }

    open spec fn eq_spec(&self, other: &Self) -> bool {
        self.same(*other)
    }
}

/// A token together with where it was found in the source.
#[derive(Debug)]
pub struct Token {
    pub token: TokenEnum,
    pub line_number: usize,
    pub col_number: usize,
}

impl Clone for Token {
    fn clone(&self) -> (res: Self)
        ensures
            res == *self,
    {
        Token { token: self.token.clone(), line_number: self.line_number, col_number: self.col_number }
    }
}

} // verus!

verus! {

/// A runtime value held by a variable.
#[derive(Debug)]
pub enum VariableEnum {
    Number(Number),
    String(String),
}

} // verus!
