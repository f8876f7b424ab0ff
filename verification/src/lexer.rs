use vstd::prelude::*;

use crate::tokens::{Token, TokenEnum};

verus! {

/// The token returned once the stream is exhausted.
pub open spec fn eof_token() -> Token {
    Token { token: TokenEnum::EOF, line_number: 0, col_number: 0 }
}

/// The token at index `i` of `tokens`, or the end-of-file token past the end.
pub open spec fn token_at(tokens: Seq<Token>, i: int) -> Token {
    if 0 <= i < tokens.len() {
        tokens[i]
    } else {
        eof_token()
    }
}

/// A cursor over the tokens of one source file.
pub struct Lexer {
    file_name: String,
    tokens: Vec<Token>,
    pos: usize,
}

impl Lexer {
    /// The position never passes the end of the tokens.
    #[verifier::type_invariant]
    spec fn position_in_range(self) -> bool {
        self.pos <= self.tokens.len()
    }

    /// All tokens of the file.
    pub closed spec fn tokens(&self) -> Seq<Token> {
        self.tokens@
    }

    /// Name of the file the tokens come from.
    pub closed spec fn source_name(&self) -> String {
        self.file_name
    }

    /// Index of the next token to be read.
    pub closed spec fn pos(&self) -> int {
        self.pos as int
    }

    pub fn new(tokens: Vec<Token>, file_name: String) -> (res: Self)
        ensures
            res.tokens() == tokens@,
            res.pos() == 0,
            res.source_name() == file_name,
    {
        Lexer { file_name, tokens, pos: 0 }
    }

    pub fn file_name(&self) -> (res: &String)
        ensures
            *res == self.source_name(),
    {
        &self.file_name
    }

    fn eof() -> (res: Token)
        ensures
            res == eof_token(),
    {
        Token { token: TokenEnum::EOF, line_number: 0, col_number: 0 }
    }

    /// The next token, without consuming it.
    pub fn peek_next_token(&self) -> (res: Token)
        ensures
            res == token_at(self.tokens(), self.pos()),
            0 <= self.pos() <= self.tokens().len(),
    {
        proof {
            use_type_invariant(self);
        }
        if self.pos < self.tokens.len() {
            self.tokens[self.pos].clone()
        } else {
            Self::eof()
        }
    }

    /// The `n`-th token from the current position (the next one is the first).
    pub fn peek_nth_token(&self, n: usize) -> (res: Token)
        requires
            n >= 1,
        ensures
            res == token_at(self.tokens(), self.pos() + n - 1),
            0 <= self.pos() <= self.tokens().len(),
    {
        proof {
            use_type_invariant(self);
        }
        if n - 1 < self.tokens.len() && self.pos < self.tokens.len() - (n - 1) {
            self.tokens[self.pos + (n - 1)].clone()
        } else {
            Self::eof()
        }
    }

    /// Returns the next token and moves past it; at the end of the stream the
    /// end-of-file token is returned and the position stays.
    pub fn consume_token(&mut self) -> (res: Token)
        ensures
            res == token_at(old(self).tokens(), old(self).pos()),
            final(self).tokens() == old(self).tokens(),
            final(self).source_name() == old(self).source_name(),
            final(self).pos() == (if 0 <= old(self).pos() < old(self).tokens().len() {
                old(self).pos() + 1
            } else {
                old(self).pos()
            }),
            0 <= old(self).pos() <= old(self).tokens().len(),
            0 <= final(self).pos() <= final(self).tokens().len(),
    {
        proof {
            use_type_invariant(&*self);
        }
        if self.pos < self.tokens.len() {
            let t = self.tokens[self.pos].clone();
            self.pos = self.pos + 1;
            t
        } else {
            Self::eof()
        }
    }
}

} // verus!
