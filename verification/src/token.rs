//! Grammar tokens: the input alphabet of the specification parser.

use vstd::prelude::*;

verus! {

/// A delimiter kind: brackets scope lists, braces scope records,
/// parentheses scope tuples.
#[derive(Clone, Copy, Debug, PartialEq, Eq, Structural)]
pub enum Delim {
    Bracket,
    Brace,
    Paren,
}

/// One token of a shader specification.
#[derive(Clone, Debug, PartialEq, Eq)]
pub enum Token {
    /// An identifier, e.g. a record key or a type name.
    Ident(String),
    /// A string literal, without its quotes.
    Str(String),
    /// An unsigned integer literal.
    Int(u64),
    Colon,
    Comma,
    Open(Delim),
    Close(Delim),
}

/// The mathematical value of a token.
pub enum TokenV {
    Ident(Seq<char>),
    Str(Seq<char>),
    Int(u64),
    Colon,
    Comma,
    Open(Delim),
    Close(Delim),
}

impl View for Token {
    type V = TokenV;

    open spec fn view(&self) -> TokenV {
        match self {
            Token::Ident(s) => TokenV::Ident(s@),
            Token::Str(s) => TokenV::Str(s@),
            Token::Int(n) => TokenV::Int(*n),
            Token::Colon => TokenV::Colon,
            Token::Comma => TokenV::Comma,
            Token::Open(d) => TokenV::Open(*d),
            Token::Close(d) => TokenV::Close(*d),
        }
    }
}

/// The sequence of token values held by a token vector.
pub open spec fn tok_seq(toks: &Vec<Token>) -> Seq<TokenV> {
    toks@.map_values(|t: Token| t@)
}

/// Decides whether an owned string holds exactly the given text.
pub fn str_is(a: &String, b: &str) -> (r: bool)
    ensures
        r == (a@ == b@),
{
    *a == b.to_owned()
}

/// Copies an owned string; the copy holds the same characters.
pub fn copy_string(s: &String) -> (r: String)
    ensures
        r@ == s@,
{
    s.clone()
}

} // verus!
