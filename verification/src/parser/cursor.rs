//! Reading single tokens.

use crate::ast::views;
use crate::error::{SyntaxError, SyntaxErrorKind};
use crate::lexer::{clone_token, spec_kind, SpecToken, Token};
use crate::parser::grammar::{at, spec_error, spec_expect, spec_expect_ident, SpecParse};
use vstd::prelude::*;

verus! {

/// The model of what was read, or of the error.
pub open spec fn parsed<T: View>(r: Result<(T, usize), SyntaxError>) -> SpecParse<T::V> {
    match r {
        Ok((value, next)) => Ok((value@, next as int)),
        Err(e) => Err(e@),
    }
}

/// Whether what was read ends after `pos`, within the tokens.
pub open spec fn advances<T>(r: Result<(T, usize), SyntaxError>, pos: usize, len: usize) -> bool {
    match r {
        Ok((_, next)) => pos < next <= len,
        Err(_) => true,
    }
}

/// Whether a token holds nothing but its kind.
pub open spec fn is_plain(t: SpecToken) -> bool {
    !(t is Int) && !(t is Float) && !(t is StringLit) && !(t is Ident)
}

/// Two tokens of one kind that hold nothing but their kind are the same.
pub proof fn lemma_plain_tokens(a: SpecToken, b: SpecToken)
    requires
        is_plain(b),
        spec_kind(a) == spec_kind(b),
    ensures
        a == b,
{
}

/// The error of kind `kind` at a position.
pub fn error_at(kind: SyntaxErrorKind, tokens: &Vec<Token>, pos: usize) -> (r: SyntaxError)
    ensures
        r@ == spec_error(kind@, views(tokens@), pos as int),
{
    let found = if pos < tokens.len() {
        Some(clone_token(&tokens[pos]))
    } else {
        None
    };
    SyntaxError { kind, position: pos, found }
}

/// Whether `token` stands at `pos`.
pub fn is_at(tokens: &Vec<Token>, pos: usize, token: &Token) -> (r: bool)
    requires
        is_plain(token@),
    ensures
        r == (at(views(tokens@), pos as int) == Some(token@)),
{
    if pos < tokens.len() {
        proof {
            if spec_kind(tokens[pos as int]@) == spec_kind(token@) {
                lemma_plain_tokens(tokens[pos as int]@, token@);
            }
        }
        tokens[pos].kind() == token.kind()
    } else {
        false
    }
}

/// The position after `token`, which must stand at `pos`.
pub fn expect(tokens: &Vec<Token>, pos: usize, token: Token) -> (r: Result<usize, SyntaxError>)
    requires
        is_plain(token@),
    ensures
        (match r {
            Ok(next) => Ok(next as int),
            Err(e) => Err(e@),
        }) == spec_expect(views(tokens@), pos as int, token@),
        r matches Ok(next) ==> next == pos + 1 && next <= tokens.len(),
{
    if is_at(tokens, pos, &token) {
        assert(views(tokens@).len() == tokens.len());
        Ok(pos + 1)
    } else {
        Err(error_at(SyntaxErrorKind::ExpectedToken(token), tokens, pos))
    }
}

/// The identifier that must stand at `pos`.
pub fn expect_ident(tokens: &Vec<Token>, pos: usize) -> (r: Result<(String, usize), SyntaxError>)
    ensures
        parsed(r) == spec_expect_ident(views(tokens@), pos as int),
        r matches Ok((_, next)) ==> next == pos + 1 && next <= tokens.len(),
{
    if pos < tokens.len() {
        match &tokens[pos] {
            Token::Ident(name) => Ok((name.clone(), pos + 1)),
            _ => Err(error_at(SyntaxErrorKind::ExpectedIdentifier, tokens, pos)),
        }
    } else {
        Err(error_at(SyntaxErrorKind::ExpectedIdentifier, tokens, pos))
    }
}

} // verus!
