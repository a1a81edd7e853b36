//! Tokens of the surface syntax: kind, spelling, and the character position
//! where the spelling starts.

use vstd::prelude::*;
use vstd::string::*;

verus! {

#[derive(Copy, Clone, Debug, Eq, PartialEq, Structural)]
pub enum TokenKind {
    EOF,
    Unknown,
    Integer,
    Identifier,
    LParen,
    RParen,
    Plus,
    Minus,
    LSquare,
    RSquare,
    Program,
    Read,
    Let,
}

#[derive(Debug, Clone, Eq, PartialEq)]
pub struct Token {
    pub kind: TokenKind,
    pub spelling: String,
    pub location: usize,
}

#[verifier::ext_equal]
pub struct TokenShape {
    pub kind: TokenKind,
    pub spelling: Seq<char>,
    pub location: nat,
}

impl View for Token {
    type V = TokenShape;

    open spec fn view(&self) -> TokenShape {
        TokenShape { kind: self.kind, spelling: self.spelling@, location: self.location as nat }
    }
}

impl DeepView for Token {
    type V = TokenShape;

    open spec fn deep_view(&self) -> TokenShape {
        self.view()
    }
}

impl Token {
    pub fn token_kind(&self) -> (kind: TokenKind)
        ensures
            kind == self.kind,
    {
        self.kind
    }

    pub fn spelling(&self) -> (spelling: &str)
        ensures
            spelling@ == self.spelling@,
    {
        self.spelling.as_str()
    }

    pub fn start_location(&self) -> (location: usize)
        ensures
            location == self.location,
    {
        self.location
    }

    /// The spelling's length in characters.
    pub fn len(&self) -> (length: usize)
        ensures
            length == self.spelling@.len(),
    {
        self.spelling.as_str().unicode_len()
    }

    /// The character position just past the spelling.
    pub fn end_location(&self) -> (location: usize)
        requires
            self.location + self.spelling@.len() <= usize::MAX,
        ensures
            location == self.location + self.spelling@.len(),
    {
        self.location + self.spelling.as_str().unicode_len()
    }
}

} // verus!
