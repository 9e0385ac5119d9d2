//! Reading statements and blocks.

use crate::ast::{stmts_view, views, Expression, SpecStatement, Statement, Type};
use crate::error::{SyntaxError};
use crate::lexer::{SpecToken, Token};
use crate::parser::cursor::{advances, expect, expect_ident, is_at, parsed};
use crate::parser::expressions::parse_expression;
use crate::parser::grammar::{
    at, spec_parse_block, spec_parse_condition, spec_parse_statement, spec_statements, SpecParse,
};
use crate::parser::types::parse_type;
use vstd::prelude::*;

verus! {

/// The model of a list of statements that was read, or of the error.
pub open spec fn parsed_stmts(r: Result<(Vec<Statement>, usize), SyntaxError>) -> SpecParse<
    Seq<SpecStatement>,
> {
    match r {
        Ok((stmts, next)) => Ok((stmts_view(stmts), next as int)),
        Err(e) => Err(e@),
    }
}

/// A condition: an expression, or an expression in parentheses where a
/// parenthesis comes first.
pub(crate) fn parse_condition(tokens: &Vec<Token>, pos: usize) -> (r: Result<
    (Expression, usize),
    SyntaxError,
>)
    requires
        pos <= tokens.len(),
    ensures
        parsed(r) == spec_parse_condition(views(tokens@), pos as int),
        advances(r, pos, tokens.len()),
{
    if is_at(tokens, pos, &Token::LParen) {
        assert(views(tokens@).len() == tokens.len());
        match parse_expression(tokens, pos + 1) {
            Err(e) => Err(e),
            Ok((condition, p)) => match expect(tokens, p, Token::RParen) {
                Err(e) => Err(e),
                Ok(end) => Ok((condition, end)),
            },
        }
    } else {
        parse_expression(tokens, pos)
    }
}

/// A `let` statement, whose keyword stands at `pos`.
fn parse_let(tokens: &Vec<Token>, pos: usize) -> (r: Result<(Statement, usize), SyntaxError>)
    requires
        pos < tokens.len(),
        tokens[pos as int]@ == SpecToken::Let,
    ensures
        parsed(r) == spec_parse_statement(views(tokens@), pos as int),
        advances(r, pos, tokens.len()),
{
    let ghost ts = views(tokens@);
    assert(ts[pos as int] == tokens[pos as int]@);
    assert(ts.len() == tokens.len());
    let (name, after_name) = match expect_ident(tokens, pos + 1) {
        Err(e) => {
            return Err(e);
        },
        Ok(read) => read,
    };
    let (ty, after_type): (Option<Type>, usize) = if is_at(tokens, after_name, &Token::Colon) {
        match parse_type(tokens, after_name + 1) {
            Err(e) => {
                return Err(e);
            },
            Ok((ty, p)) => (Some(ty), p),
        }
    } else {
        (None, after_name)
    };
    let after_eq = match expect(tokens, after_type, Token::Eq) {
        Err(e) => {
            return Err(e);
        },
        Ok(p) => p,
    };
    let (value, after_value) = match parse_expression(tokens, after_eq) {
        Err(e) => {
            return Err(e);
        },
        Ok(read) => read,
    };
    match expect(tokens, after_value, Token::Semicolon) {
        Err(e) => Err(e),
        Ok(end) => Ok((Statement::Let { name, ty, value }, end)),
    }
}

/// A statement that begins with an expression: an assignment or the
/// expression itself.
fn parse_simple(tokens: &Vec<Token>, pos: usize) -> (r: Result<(Statement, usize), SyntaxError>)
    requires
        pos <= tokens.len(),
        !(at(views(tokens@), pos as int) matches Some(t) && (t == SpecToken::Let || t
            == SpecToken::If || t == SpecToken::While || t == SpecToken::Loop || t
            == SpecToken::Return)),
    ensures
        parsed(r) == spec_parse_statement(views(tokens@), pos as int),
        advances(r, pos, tokens.len()),
{
    let ghost ts = views(tokens@);
    assert(ts.len() == tokens.len());
    let (first, p) = match parse_expression(tokens, pos) {
        Err(e) => {
            return Err(e);
        },
        Ok(read) => read,
    };
    if is_at(tokens, p, &Token::Eq) {
        let (value, after_value) = match parse_expression(tokens, p + 1) {
            Err(e) => {
                return Err(e);
            },
            Ok(read) => read,
        };
        match expect(tokens, after_value, Token::Semicolon) {
            Err(e) => Err(e),
            Ok(end) => Ok((Statement::Assign { target: first, value }, end)),
        }
    } else {
        match expect(tokens, p, Token::Semicolon) {
            Err(e) => Err(e),
            Ok(end) => Ok((Statement::Expression(first), end)),
        }
    }
}

/// A `return` statement, whose keyword stands at `pos`.
fn parse_return(tokens: &Vec<Token>, pos: usize) -> (r: Result<(Statement, usize), SyntaxError>)
    requires
        pos < tokens.len(),
        tokens[pos as int]@ == SpecToken::Return,
    ensures
        parsed(r) == spec_parse_statement(views(tokens@), pos as int),
        advances(r, pos, tokens.len()),
{
    let ghost ts = views(tokens@);
    assert(ts[pos as int] == tokens[pos as int]@);
    assert(ts.len() == tokens.len());
    if is_at(tokens, pos + 1, &Token::Semicolon) {
        Ok((Statement::Return(None), pos + 2))
    } else {
        match parse_expression(tokens, pos + 1) {
            Err(e) => Err(e),
            Ok((value, p)) => match expect(tokens, p, Token::Semicolon) {
                Err(e) => Err(e),
                Ok(end) => Ok((Statement::Return(Some(value)), end)),
            },
        }
    }
}

/// The statement at `pos`.
pub(crate) fn parse_statement(tokens: &Vec<Token>, pos: usize) -> (r: Result<
    (Statement, usize),
    SyntaxError,
>)
    requires
        pos <= tokens.len(),
    ensures
        parsed(r) == spec_parse_statement(views(tokens@), pos as int),
        advances(r, pos, tokens.len()),
    decreases tokens.len() - pos, 50nat,
{
    let ghost ts = views(tokens@);
    assert(ts.len() == tokens.len());
    if pos >= tokens.len() {
        return parse_simple(tokens, pos);
    }
    assert(ts[pos as int] == tokens[pos as int]@);
    match &tokens[pos] {
        Token::Let => parse_let(tokens, pos),
        Token::If => {
            let (condition, after_condition) = match parse_condition(tokens, pos + 1) {
                Err(e) => {
                    return Err(e);
                },
                Ok(read) => read,
            };
            let (then_block, after_then) = match parse_block(tokens, after_condition) {
                Err(e) => {
                    return Err(e);
                },
                Ok(read) => read,
            };
            if is_at(tokens, after_then, &Token::Else) {
                match parse_block(tokens, after_then + 1) {
                    Err(e) => Err(e),
                    Ok((else_block, end)) => Ok(
                        (
                            Statement::If { condition, then_block, else_block: Some(else_block) },
                            end,
                        ),
                    ),
                }
            } else {
                Ok((Statement::If { condition, then_block, else_block: None }, after_then))
            }
        },
        Token::While => {
            let (condition, after_condition) = match parse_condition(tokens, pos + 1) {
                Err(e) => {
                    return Err(e);
                },
                Ok(read) => read,
            };
            match parse_block(tokens, after_condition) {
                Err(e) => Err(e),
                Ok((body, end)) => Ok((Statement::While { condition, body }, end)),
            }
        },
        Token::Loop => match parse_block(tokens, pos + 1) {
            Err(e) => Err(e),
            Ok((body, end)) => Ok((Statement::Loop { body }, end)),
        },
        Token::Return => parse_return(tokens, pos),
        _ => parse_simple(tokens, pos),
    }
}

/// A block: the statements between braces.
pub(crate) fn parse_block(tokens: &Vec<Token>, pos: usize) -> (r: Result<
    (Vec<Statement>, usize),
    SyntaxError,
>)
    requires
        pos <= tokens.len(),
    ensures
        parsed_stmts(r) == spec_parse_block(views(tokens@), pos as int),
        advances(r, pos, tokens.len()),
    decreases tokens.len() - pos, 52nat,
{
    let ghost ts = views(tokens@);
    assert(ts.len() == tokens.len());
    let start = match expect(tokens, pos, Token::LBrace) {
        Err(e) => {
            return Err(e);
        },
        Ok(p) => p,
    };
    let mut statements: Vec<Statement> = Vec::new();
    assert(stmts_view(statements) =~= Seq::empty());
    let mut p: usize = start;
    loop
        invariant
            pos < p <= tokens.len(),
            ts == views(tokens@),
            ts.len() == tokens.len(),
            spec_parse_block(ts, pos as int) == spec_statements(ts, start as int, Seq::empty()),
            spec_statements(ts, start as int, Seq::empty()) == spec_statements(
                ts,
                p as int,
                stmts_view(statements),
            ),
        decreases tokens.len() - p,
    {
        if is_at(tokens, p, &Token::RBrace) {
            return Ok((statements, p + 1));
        }
        match parse_statement(tokens, p) {
            Err(e) => {
                return Err(e);
            },
            Ok((statement, next)) => {
                let ghost before = stmts_view(statements);
                let ghost statement_view = statement@;
                statements.push(statement);
                assert(stmts_view(statements) =~= before.push(statement_view));
                p = next;
            },
        }
    }
}

} // verus!
