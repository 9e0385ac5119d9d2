//! Reading expressions: operators by precedence, then calls, member
//! accesses and indexings, then primary expressions.

use crate::ast::{
    exprs_view, named_exprs_view, views, BinaryOp, Expression, Literal, SpecExpression, UnaryOp,
};
use crate::error::{SyntaxError, SyntaxErrorKind};
use crate::lexer::{SpecToken, Token};
use crate::parser::cursor::{advances, error_at, expect, expect_ident, is_at, parsed};
use crate::parser::grammar::{
    at, is_byte_unit, moved, spec_arg_list, spec_args, spec_binary_op, spec_binary_rest,
    spec_is_named, spec_named_args, spec_parse_binary, spec_parse_call, spec_parse_expression,
    spec_parse_primary, spec_parse_unary, spec_postfix, spec_unit_suffix, to_uppercase, SpecParse,
};
use crate::parser::types::parse_type_list;
use crate::text::str_equal;
use vstd::prelude::*;

verus! {

/// Whether a suffix in upper case names a unit of bytes.
pub fn byte_unit(upper: &str) -> (r: bool)
    ensures
        r == is_byte_unit(upper@),
{
    str_equal(upper, "MIB") || str_equal(upper, "KIB") || str_equal(upper, "GIB")
}

/// The model of a list of expressions that was read, or of the error.
pub open spec fn parsed_exprs(r: Result<(Vec<Expression>, usize), SyntaxError>) -> SpecParse<
    Seq<SpecExpression>,
> {
    match r {
        Ok((exprs, next)) => Ok((exprs_view(exprs), next as int)),
        Err(e) => Err(e@),
    }
}

/// The model of a list of named expressions that was read, or of the error.
pub open spec fn parsed_named(r: Result<(Vec<(String, Expression)>, usize), SyntaxError>) -> SpecParse<
    Seq<(Seq<char>, SpecExpression)>,
> {
    match r {
        Ok((exprs, next)) => Ok((named_exprs_view(exprs), next as int)),
        Err(e) => Err(e@),
    }
}

/// The binary operator of precedence level `level` at `pos`.
pub(crate) fn binary_op(tokens: &Vec<Token>, pos: usize, level: u8) -> (r: Option<BinaryOp>)
    ensures
        r == spec_binary_op(views(tokens@), pos as int, level as nat),
        r is Some ==> pos < tokens.len(),
{
    if pos >= tokens.len() {
        return None;
    }
    assert(views(tokens@)[pos as int] == tokens[pos as int]@);
    let t = &tokens[pos];
    if level == 0 {
        match t {
            Token::OrOr => Some(BinaryOp::Or),
            _ => None,
        }
    } else if level == 1 {
        match t {
            Token::PipeOp => Some(BinaryOp::Pipe),
            _ => None,
        }
    } else if level == 2 {
        match t {
            Token::AndAnd => Some(BinaryOp::And),
            _ => None,
        }
    } else if level == 3 {
        match t {
            Token::EqEq => Some(BinaryOp::Eq),
            Token::Ne => Some(BinaryOp::Ne),
            _ => None,
        }
    } else if level == 4 {
        match t {
            Token::Lt => Some(BinaryOp::Lt),
            Token::Le => Some(BinaryOp::Le),
            Token::Gt => Some(BinaryOp::Gt),
            Token::Ge => Some(BinaryOp::Ge),
            _ => None,
        }
    } else if level == 5 {
        match t {
            Token::Pipe => if is_at(tokens, pos + 1, &Token::Gt) {
                None
            } else {
                Some(BinaryOp::BitwiseOr)
            },
            _ => None,
        }
    } else if level == 6 {
        match t {
            Token::Plus => Some(BinaryOp::Add),
            Token::Minus => Some(BinaryOp::Sub),
            _ => None,
        }
    } else if level == 7 {
        match t {
            Token::Star => Some(BinaryOp::Mul),
            Token::Slash => Some(BinaryOp::Div),
            Token::Percent => Some(BinaryOp::Mod),
            _ => None,
        }
    } else {
        None
    }
}

/// The expression at `pos`.
pub(crate) fn parse_expression(tokens: &Vec<Token>, pos: usize) -> (r: Result<
    (Expression, usize),
    SyntaxError,
>)
    requires
        pos <= tokens.len(),
    ensures
        parsed(r) == spec_parse_expression(views(tokens@), pos as int),
        advances(r, pos, tokens.len()),
    decreases tokens.len() - pos, 30nat,
{
    parse_binary(tokens, pos, 0)
}

/// The expression at `pos` whose operators are of level `level` or tighter.
pub(crate) fn parse_binary(tokens: &Vec<Token>, pos: usize, level: u8) -> (r: Result<
    (Expression, usize),
    SyntaxError,
>)
    requires
        pos <= tokens.len(),
    ensures
        parsed(r) == spec_parse_binary(views(tokens@), pos as int, level as nat),
        advances(r, pos, tokens.len()),
    decreases tokens.len() - pos,
        if level >= 8 {
            12int
        } else {
            20 - level
        },
{
    let ghost ts = views(tokens@);
    if level >= 8 {
        return parse_unary(tokens, pos);
    }
    let (first, start) = match parse_binary(tokens, pos, level + 1) {
        Err(e) => {
            return Err(e);
        },
        Ok(read) => read,
    };
    let ghost first_view = first@;
    let mut left = first;
    let mut p: usize = start;
    loop
        invariant
            pos < p <= tokens.len(),
            level < 8,
            ts == views(tokens@),
            spec_parse_binary(ts, pos as int, level as nat) == spec_binary_rest(
                ts,
                start as int,
                level as nat,
                first_view,
            ),
            spec_binary_rest(ts, start as int, level as nat, first_view) == spec_binary_rest(
                ts,
                p as int,
                level as nat,
                left@,
            ),
        decreases tokens.len() - p,
    {
        match binary_op(tokens, p, level) {
            None => {
                return Ok((left, p));
            },
            Some(op) => match parse_binary(tokens, p + 1, level + 1) {
                Err(e) => {
                    return Err(e);
                },
                Ok((right, next)) => {
                    left = Expression::BinaryOp {
                        op,
                        left: Box::new(left),
                        right: Box::new(right),
                    };
                    p = next;
                },
            },
        }
    }
}

/// A unary expression.
pub(crate) fn parse_unary(tokens: &Vec<Token>, pos: usize) -> (r: Result<(Expression, usize), SyntaxError>)
    requires
        pos <= tokens.len(),
    ensures
        parsed(r) == spec_parse_unary(views(tokens@), pos as int),
        advances(r, pos, tokens.len()),
    decreases tokens.len() - pos, 11nat,
{
    if pos >= tokens.len() {
        return parse_call(tokens, pos);
    }
    assert(views(tokens@)[pos as int] == tokens[pos as int]@);
    match &tokens[pos] {
        Token::Bang => match parse_unary(tokens, pos + 1) {
            Err(e) => Err(e),
            Ok((operand, p)) => Ok(
                (Expression::UnaryOp { op: UnaryOp::Not, expr: Box::new(operand) }, p),
            ),
        },
        Token::Minus => match parse_unary(tokens, pos + 1) {
            Err(e) => Err(e),
            Ok((operand, p)) => Ok(
                (Expression::UnaryOp { op: UnaryOp::Neg, expr: Box::new(operand) }, p),
            ),
        },
        _ => parse_call(tokens, pos),
    }
}

/// Whether the argument list that begins after the parenthesis at `pos`
/// names its arguments.
pub(crate) fn is_named(tokens: &Vec<Token>, pos: usize) -> (r: bool)
    requires
        pos < tokens.len(),
    ensures
        r == spec_is_named(views(tokens@), pos as int),
{
    if pos + 1 < tokens.len() {
        assert(views(tokens@)[pos + 1] == tokens[pos + 1]@);
        match &tokens[pos + 1] {
            Token::Ident(_) => is_at(tokens, pos + 2, &Token::Eq),
            _ => false,
        }
    } else {
        false
    }
}

/// What one step after an expression gives: the expression unchanged where
/// nothing follows it, else the longer expression and the position after it.
pub enum Postfix {
    Done(Expression),
    More(Expression, usize),
}

/// What a step owes: where nothing follows, the expression is the result;
/// else what follows the longer expression is what followed the shorter.
pub open spec fn is_postfix_step(
    ts: Seq<SpecToken>,
    pos: int,
    expr: SpecExpression,
    r: Result<Postfix, SyntaxError>,
) -> bool {
    match r {
        Err(e) => spec_postfix(ts, pos, expr) == Err::<(SpecExpression, int), _>(e@),
        Ok(Postfix::Done(same)) => same@ == expr && spec_postfix(ts, pos, expr) == Ok::<
            _,
            crate::error::SpecSyntaxError,
        >((expr, pos)),
        Ok(Postfix::More(longer, next)) => moved(ts, pos, next as int) && spec_postfix(
            ts,
            pos,
            expr,
        ) == spec_postfix(ts, next as int, longer@),
    }
}

/// The call of `expr` with the argument list that begins at `pos`.
fn call_step(tokens: &Vec<Token>, pos: usize, expr: Expression) -> (r: Result<Postfix, SyntaxError>)
    requires
        pos < tokens.len(),
        tokens[pos as int]@ == SpecToken::LParen,
    ensures
        is_postfix_step(views(tokens@), pos as int, expr@, r),
    decreases tokens.len() - pos, 8nat,
{
    let ghost ts = views(tokens@);
    assert(ts[pos as int] == tokens[pos as int]@);
    if is_named(tokens, pos) {
        let (named_args, close) = match parse_named_args(tokens, pos + 1) {
            Err(e) => {
                return Err(e);
            },
            Ok(read) => read,
        };
        let end = match expect(tokens, close, Token::RParen) {
            Err(e) => {
                return Err(e);
            },
            Ok(end) => end,
        };
        match expr {
            Expression::Variable(name) => Ok(
                Postfix::More(Expression::NamedCall { name, named_args }, end),
            ),
            _ => Err(
                error_at(SyntaxErrorKind::ExpectedFunctionNameForNamedArguments, tokens, end),
            ),
        }
    } else {
        let (args, end) = match parse_args(tokens, pos + 1) {
            Err(e) => {
                return Err(e);
            },
            Ok(read) => read,
        };
        match expr {
            Expression::Variable(name) => Ok(Postfix::More(Expression::Call { name, args }, end)),
            _ => Err(error_at(SyntaxErrorKind::ExpectedFunctionName, tokens, end)),
        }
    }
}

/// The member access or method call on `expr` that begins with the point at `pos`.
fn member_step(tokens: &Vec<Token>, pos: usize, expr: Expression) -> (r: Result<Postfix, SyntaxError>)
    requires
        pos < tokens.len(),
        tokens[pos as int]@ == SpecToken::Dot,
    ensures
        is_postfix_step(views(tokens@), pos as int, expr@, r),
    decreases tokens.len() - pos, 8nat,
{
    let ghost ts = views(tokens@);
    assert(ts[pos as int] == tokens[pos as int]@);
    assert(ts.len() == tokens.len());
    let (member, after_member) = match expect_ident(tokens, pos + 1) {
        Err(e) => {
            return Err(e);
        },
        Ok(read) => read,
    };
    if is_at(tokens, after_member, &Token::Lt) {
        let (types, after_types) = match parse_type_list(tokens, after_member + 1) {
            Err(e) => {
                return Err(e);
            },
            Ok(read) => read,
        };
        let open = match expect(tokens, after_types, Token::Gt) {
            Err(e) => {
                return Err(e);
            },
            Ok(open) => open,
        };
        if is_at(tokens, open, &Token::LParen) {
            let (args, end) = match parse_args(tokens, open + 1) {
                Err(e) => {
                    return Err(e);
                },
                Ok(read) => read,
            };
            Ok(
                Postfix::More(
                    Expression::MethodCall {
                        object: Box::new(expr),
                        method: member,
                        type_args: Some(types),
                        args,
                    },
                    end,
                ),
            )
        } else {
            Err(error_at(SyntaxErrorKind::ExpectedCallAfterTypeArguments, tokens, open))
        }
    } else if is_at(tokens, after_member, &Token::LParen) {
        let (args, end) = match parse_args(tokens, after_member + 1) {
            Err(e) => {
                return Err(e);
            },
            Ok(read) => read,
        };
        Ok(
            Postfix::More(
                Expression::MethodCall {
                    object: Box::new(expr),
                    method: member,
                    type_args: None,
                    args,
                },
                end,
            ),
        )
    } else {
        Ok(Postfix::More(Expression::MemberAccess { object: Box::new(expr), member }, after_member))
    }
}

/// The indexing of `expr` that begins with the bracket at `pos`.
fn index_step(tokens: &Vec<Token>, pos: usize, expr: Expression) -> (r: Result<Postfix, SyntaxError>)
    requires
        pos < tokens.len(),
        tokens[pos as int]@ == SpecToken::LBracket,
    ensures
        is_postfix_step(views(tokens@), pos as int, expr@, r),
    decreases tokens.len() - pos, 8nat,
{
    let ghost ts = views(tokens@);
    assert(ts[pos as int] == tokens[pos as int]@);
    let (index, close) = match parse_expression(tokens, pos + 1) {
        Err(e) => {
            return Err(e);
        },
        Ok(read) => read,
    };
    let end = match expect(tokens, close, Token::RBracket) {
        Err(e) => {
            return Err(e);
        },
        Ok(end) => end,
    };
    Ok(Postfix::More(Expression::Index { array: Box::new(expr), index: Box::new(index) }, end))
}

/// One step after the expression `expr`, which ends before `pos`.
fn postfix_step(tokens: &Vec<Token>, pos: usize, expr: Expression) -> (r: Result<Postfix, SyntaxError>)
    requires
        pos <= tokens.len(),
    ensures
        is_postfix_step(views(tokens@), pos as int, expr@, r),
    decreases tokens.len() - pos, 9nat,
{
    let ghost ts = views(tokens@);
    assert(ts.len() == tokens.len());
    if pos >= tokens.len() {
        return Ok(Postfix::Done(expr));
    }
    assert(ts[pos as int] == tokens[pos as int]@);
    match &tokens[pos] {
        Token::LParen => call_step(tokens, pos, expr),
        Token::Dot => member_step(tokens, pos, expr),
        Token::LBracket => index_step(tokens, pos, expr),
        _ => Ok(Postfix::Done(expr)),
    }
}

/// A primary expression with the calls, member accesses and indexings that
/// follow it.
pub(crate) fn parse_call(tokens: &Vec<Token>, pos: usize) -> (r: Result<(Expression, usize), SyntaxError>)
    requires
        pos <= tokens.len(),
    ensures
        parsed(r) == spec_parse_call(views(tokens@), pos as int),
        advances(r, pos, tokens.len()),
    decreases tokens.len() - pos, 10nat,
{
    let ghost ts = views(tokens@);
    let (primary, start) = match parse_primary(tokens, pos) {
        Err(e) => {
            return Err(e);
        },
        Ok(read) => read,
    };
    let ghost primary_view = primary@;
    let mut expr = primary;
    let mut p: usize = start;
    loop
        invariant
            pos < p <= tokens.len(),
            ts == views(tokens@),
            spec_parse_call(ts, pos as int) == spec_postfix(ts, start as int, primary_view),
            spec_postfix(ts, start as int, primary_view) == spec_postfix(ts, p as int, expr@),
        decreases tokens.len() - p,
    {
        match postfix_step(tokens, p, expr) {
            Err(e) => {
                return Err(e);
            },
            Ok(Postfix::Done(same)) => {
                return Ok((same, p));
            },
            Ok(Postfix::More(longer, next)) => {
                expr = longer;
                p = next;
            },
        }
    }
}

/// The arguments of a call, from after the opening parenthesis to after the
/// closing one.
pub(crate) fn parse_args(tokens: &Vec<Token>, pos: usize) -> (r: Result<
    (Vec<Expression>, usize),
    SyntaxError,
>)
    requires
        pos <= tokens.len(),
    ensures
        parsed_exprs(r) == spec_args(views(tokens@), pos as int),
        advances(r, pos, tokens.len()),
    decreases tokens.len() - pos, 41nat,
{
    let ghost ts = views(tokens@);
    assert(ts.len() == tokens.len());
    let mut args: Vec<Expression> = Vec::new();
    assert(exprs_view(args) =~= Seq::empty());
    if is_at(tokens, pos, &Token::RParen) {
        return Ok((args, pos + 1));
    }
    let mut p: usize = pos;
    loop
        invariant
            pos <= p <= tokens.len(),
            ts == views(tokens@),
            ts.len() == tokens.len(),
            at(ts, pos as int) != Some(SpecToken::RParen),
            spec_arg_list(ts, pos as int, Seq::empty()) == spec_arg_list(
                ts,
                p as int,
                exprs_view(args),
            ),
        decreases tokens.len() - p,
    {
        match parse_expression(tokens, p) {
            Err(e) => {
                return Err(e);
            },
            Ok((arg, next)) => {
                let ghost before = exprs_view(args);
                let ghost arg_view = arg@;
                args.push(arg);
                assert(exprs_view(args) =~= before.push(arg_view));
                if is_at(tokens, next, &Token::Comma) {
                    p = next + 1;
                } else {
                    return match expect(tokens, next, Token::RParen) {
                        Err(e) => Err(e),
                        Ok(end) => Ok((args, end)),
                    };
                }
            },
        }
    }
}

/// One or more arguments of the form `name = value` with commas between them.
pub(crate) fn parse_named_args(tokens: &Vec<Token>, pos: usize) -> (r: Result<
    (Vec<(String, Expression)>, usize),
    SyntaxError,
>)
    requires
        pos <= tokens.len(),
    ensures
        parsed_named(r) == spec_named_args(views(tokens@), pos as int, Seq::empty()),
        advances(r, pos, tokens.len()),
    decreases tokens.len() - pos, 40nat,
{
    let ghost ts = views(tokens@);
    assert(ts.len() == tokens.len());
    let mut args: Vec<(String, Expression)> = Vec::new();
    assert(named_exprs_view(args) =~= Seq::empty());
    let mut p: usize = pos;
    loop
        invariant
            pos <= p <= tokens.len(),
            ts == views(tokens@),
            ts.len() == tokens.len(),
            spec_named_args(ts, pos as int, Seq::empty()) == spec_named_args(
                ts,
                p as int,
                named_exprs_view(args),
            ),
        decreases tokens.len() - p,
    {
        let (name, after_name) = match expect_ident(tokens, p) {
            Err(e) => {
                return Err(e);
            },
            Ok(read) => read,
        };
        let after_eq = match expect(tokens, after_name, Token::Eq) {
            Err(e) => {
                return Err(e);
            },
            Ok(next) => next,
        };
        match parse_expression(tokens, after_eq) {
            Err(e) => {
                return Err(e);
            },
            Ok((value, next)) => {
                let ghost before = named_exprs_view(args);
                let ghost pair = (name@, value@);
                args.push((name, value));
                assert(named_exprs_view(args) =~= before.push(pair));
                if is_at(tokens, next, &Token::Comma) {
                    p = next + 1;
                } else {
                    return Ok((args, next));
                }
            },
        }
    }
}

/// A numeric literal with what follows it.
pub(crate) fn unit_suffix(tokens: &Vec<Token>, pos: usize, literal: Expression) -> (r: (Expression, usize))
    requires
        pos <= tokens.len(),
    ensures
        (r.0@, r.1 as int) == spec_unit_suffix(views(tokens@), pos as int, literal@),
        pos <= r.1 <= tokens.len(),
{
    assert(views(tokens@).len() == tokens.len());
    if is_at(tokens, pos, &Token::Dot) {
        if pos + 1 < tokens.len() {
            assert(views(tokens@)[pos + 1] == tokens[pos + 1]@);
            match &tokens[pos + 1] {
                Token::Ident(unit) => {
                    let upper = to_uppercase(unit.as_str());
                    if byte_unit(upper.as_str()) {
                        (Expression::UnitSuffix { value: Box::new(literal), unit: upper }, pos + 2)
                    } else {
                        (literal, pos + 1)
                    }
                },
                _ => (literal, pos + 1),
            }
        } else {
            (literal, pos + 1)
        }
    } else {
        (literal, pos)
    }
}

/// A primary expression.
pub(crate) fn parse_primary(tokens: &Vec<Token>, pos: usize) -> (r: Result<
    (Expression, usize),
    SyntaxError,
>)
    requires
        pos <= tokens.len(),
    ensures
        parsed(r) == spec_parse_primary(views(tokens@), pos as int),
        advances(r, pos, tokens.len()),
    decreases tokens.len() - pos, 9nat,
{
    if pos >= tokens.len() {
        return Err(error_at(SyntaxErrorKind::UnexpectedInExpression, tokens, pos));
    }
    assert(views(tokens@)[pos as int] == tokens[pos as int]@);
    match &tokens[pos] {
        Token::Int(n) => Ok(
            unit_suffix(tokens, pos + 1, Expression::Literal(Literal::Int(*n))),
        ),
        Token::Float(t) => Ok(
            unit_suffix(tokens, pos + 1, Expression::Literal(Literal::Float(t.clone()))),
        ),
        Token::True => Ok((Expression::Literal(Literal::Bool(true)), pos + 1)),
        Token::False => Ok((Expression::Literal(Literal::Bool(false)), pos + 1)),
        Token::StringLit(t) => Ok((Expression::Literal(Literal::String(t.clone())), pos + 1)),
        Token::Ident(name) => Ok((Expression::Variable(name.clone()), pos + 1)),
        Token::LParen => match parse_expression(tokens, pos + 1) {
            Err(e) => Err(e),
            Ok((inner, p)) => match expect(tokens, p, Token::RParen) {
                Err(e) => Err(e),
                Ok(end) => Ok((inner, end)),
            },
        },
        _ => Err(error_at(SyntaxErrorKind::UnexpectedInExpression, tokens, pos)),
    }
}

} // verus!
