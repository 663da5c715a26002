//! The closed token vocabulary.

use vstd::prelude::*;
use vstd::slice::slice_to_vec;

use crate::ast::ident::{Ident, IdentV};
use crate::ast::literal::NumLit;
use crate::chars::{chars_eq, chars_of, i32_chars, spec_int_chars};

verus! {

/// A token: keywords, punctuation, operators, payload-bearing identifiers
/// and numeric literals, and the end-of-input marker.
#[derive(Debug)]
pub enum Token {
    // Keywords
    KwFn,
    KwMod,
    KwLet,
    KwReturn,
    // Constructs
    Ident(Ident),
    NumLit(NumLit),
    // Delimiters
    Comma,
    Colon,
    ColonColon,
    Semi,
    LParen,
    RParen,
    LBracket,
    RBracket,
    LBrace,
    RBrace,
    // Symbols
    Equal,
    Star,
    Plus,
    RArrow,
    // Other
    EOF,
}

/// The view of a `Token`.
#[verifier::ext_equal]
pub ghost enum TokenV {
    KwFn,
    KwMod,
    KwLet,
    KwReturn,
    Ident(IdentV),
    NumLit(NumLit),
    Comma,
    Colon,
    ColonColon,
    Semi,
    LParen,
    RParen,
    LBracket,
    RBracket,
    LBrace,
    RBrace,
    Equal,
    Star,
    Plus,
    RArrow,
    EOF,
}

impl View for Token {
    type V = TokenV;

    open spec fn view(&self) -> TokenV {
        match self {
            Token::KwFn => TokenV::KwFn,
            Token::KwMod => TokenV::KwMod,
            Token::KwLet => TokenV::KwLet,
            Token::KwReturn => TokenV::KwReturn,
            Token::Ident(id) => TokenV::Ident(id@),
            Token::NumLit(n) => TokenV::NumLit(*n),
            Token::Comma => TokenV::Comma,
            Token::Colon => TokenV::Colon,
            Token::ColonColon => TokenV::ColonColon,
            Token::Semi => TokenV::Semi,
            Token::LParen => TokenV::LParen,
            Token::RParen => TokenV::RParen,
            Token::LBracket => TokenV::LBracket,
            Token::RBracket => TokenV::RBracket,
            Token::LBrace => TokenV::LBrace,
            Token::RBrace => TokenV::RBrace,
            Token::Equal => TokenV::Equal,
            Token::Star => TokenV::Star,
            Token::Plus => TokenV::Plus,
            Token::RArrow => TokenV::RArrow,
            Token::EOF => TokenV::EOF,
        }
    }
}

/// The rendering of a token in diagnostics.
pub open spec fn spec_token_chars(t: TokenV) -> Seq<char> {
    match t {
        TokenV::KwFn => "fn"@,
        TokenV::KwMod => "mod"@,
        TokenV::KwLet => "let"@,
        TokenV::KwReturn => "return"@,
        TokenV::Ident(id) => id.raw,
        TokenV::NumLit(n) => spec_int_chars(n.value as int),
        TokenV::Comma => ","@,
        TokenV::Colon => ":"@,
        TokenV::ColonColon => "::"@,
        TokenV::Semi => ";"@,
        TokenV::LParen => "("@,
        TokenV::RParen => ")"@,
        TokenV::LBracket => "["@,
        TokenV::RBracket => "]"@,
        TokenV::LBrace => "{"@,
        TokenV::RBrace => "}"@,
        TokenV::Equal => "="@,
        TokenV::Star => "*"@,
        TokenV::Plus => "+"@,
        TokenV::RArrow => "->"@,
        TokenV::EOF => "EOF"@,
    }
}

impl Token {
    /// Renders the token as it appears in diagnostics.
    pub fn to_chars(&self) -> (r: Vec<char>)
        ensures
            r@ == spec_token_chars(self@),
    {
        match self {
            Token::KwFn => chars_of("fn"),
            Token::KwMod => chars_of("mod"),
            Token::KwLet => chars_of("let"),
            Token::KwReturn => chars_of("return"),
            Token::Ident(id) => slice_to_vec(id.raw.as_slice()),
            Token::NumLit(n) => i32_chars(n.value),
            Token::Comma => chars_of(","),
            Token::Colon => chars_of(":"),
            Token::ColonColon => chars_of("::"),
            Token::Semi => chars_of(";"),
            Token::LParen => chars_of("("),
            Token::RParen => chars_of(")"),
            Token::LBracket => chars_of("["),
            Token::RBracket => chars_of("]"),
            Token::LBrace => chars_of("{"),
            Token::RBrace => chars_of("}"),
            Token::Equal => chars_of("="),
            Token::Star => chars_of("*"),
            Token::Plus => chars_of("+"),
            Token::RArrow => chars_of("->"),
            Token::EOF => chars_of("EOF"),
        }
    }
}

impl PartialEq for Token {
    fn eq(&self, other: &Token) -> (r: bool) {
        match (self, other) {
            (Token::KwFn, Token::KwFn) => true,
            (Token::KwMod, Token::KwMod) => true,
            (Token::KwLet, Token::KwLet) => true,
            (Token::KwReturn, Token::KwReturn) => true,
            (Token::Ident(a), Token::Ident(b)) => chars_eq(a.raw.as_slice(), b.raw.as_slice())
                && a.span == b.span,
            (Token::NumLit(a), Token::NumLit(b)) => a == b,
            (Token::Comma, Token::Comma) => true,
            (Token::Colon, Token::Colon) => true,
            (Token::ColonColon, Token::ColonColon) => true,
            (Token::Semi, Token::Semi) => true,
            (Token::LParen, Token::LParen) => true,
            (Token::RParen, Token::RParen) => true,
            (Token::LBracket, Token::LBracket) => true,
            (Token::RBracket, Token::RBracket) => true,
            (Token::LBrace, Token::LBrace) => true,
            (Token::RBrace, Token::RBrace) => true,
            (Token::Equal, Token::Equal) => true,
            (Token::Star, Token::Star) => true,
            (Token::Plus, Token::Plus) => true,
            (Token::RArrow, Token::RArrow) => true,
            (Token::EOF, Token::EOF) => true,
            _ => false,
        }
    }
}

impl vstd::std_specs::cmp::PartialEqSpecImpl for Token {
    open spec fn obeys_eq_spec() -> bool {
        true
    }

    open spec fn eq_spec(&self, other: &Token) -> bool {
        self@ == other@
    }
}

impl Clone for Token {
    fn clone(&self) -> (r: Self)
        ensures
            r@ == self@,
    {
        match self {
            Token::KwFn => Token::KwFn,
            Token::KwMod => Token::KwMod,
            Token::KwLet => Token::KwLet,
            Token::KwReturn => Token::KwReturn,
            Token::Ident(id) => Token::Ident(id.clone()),
            Token::NumLit(n) => Token::NumLit(*n),
            Token::Comma => Token::Comma,
            Token::Colon => Token::Colon,
            Token::ColonColon => Token::ColonColon,
            Token::Semi => Token::Semi,
            Token::LParen => Token::LParen,
            Token::RParen => Token::RParen,
            Token::LBracket => Token::LBracket,
            Token::RBracket => Token::RBracket,
            Token::LBrace => Token::LBrace,
            Token::RBrace => Token::RBrace,
            Token::Equal => Token::Equal,
            Token::Star => Token::Star,
            Token::Plus => Token::Plus,
            Token::RArrow => Token::RArrow,
            Token::EOF => Token::EOF,
        }
    }
}

} // verus!
