//! Reading the items at the top level of a file.

use crate::ast::{
    views, ComponentDef, ComponentSOADef, Expression, ExternFunctionDef, Field, FunctionDef, Item,
    MeshSOADef, Param, ShaderDef, ShaderStage, SpecField, SpecFunctionDef, SpecRecord, StructDef,
    SystemAttribute, SystemDef, Type, TypeAliasDef,
};
use crate::error::{SyntaxError, SyntaxErrorKind};
use crate::lexer::{Token};
use crate::parser::cursor::{advances, error_at, expect, expect_ident, is_at, parsed};
use crate::parser::expressions::parse_expression;
use crate::parser::grammar::{
    at, spec_attribute, spec_closing_brace, spec_constraints, spec_fields, spec_library,
    spec_param_list, spec_params, spec_parse_alias, spec_parse_default, spec_parse_extern,
    spec_parse_field, spec_parse_function, spec_parse_include, spec_parse_item, spec_parse_record,
    spec_parse_shader, spec_parse_system, spec_return_type, spec_stage, spec_system_attribute,
    spec_system_functions, SpecParsedItem,
};
use crate::parser::statements::parse_block;
use crate::parser::types::parse_type;
use crate::text::str_equal;
use vstd::prelude::*;

verus! {

/// What stands at the top level of a file: an item, or the inclusion of
/// another file.
#[derive(Debug, Clone, PartialEq, Eq)]
pub enum ParsedItem {
    Item(Item),
    Include(String),
}

impl View for ParsedItem {
    type V = SpecParsedItem;

    open spec fn view(&self) -> SpecParsedItem {
        match self {
            ParsedItem::Item(item) => SpecParsedItem::Item(item@),
            ParsedItem::Include(path) => SpecParsedItem::Include(path@),
        }
    }
}

/// The default value after a type, where `=` stands.
fn parse_default(tokens: &Vec<Token>, pos: usize) -> (r: Result<
    (Option<Expression>, usize),
    SyntaxError,
>)
    requires
        pos <= tokens.len(),
    ensures
        (match r {
            Ok((value, next)) => Ok(
                (
                    match value {
                        Some(e) => Some(e@),
                        None => None,
                    },
                    next as int,
                ),
            ),
            Err(e) => Err(e@),
        }) == spec_parse_default(views(tokens@), pos as int),
        r matches Ok((_, next)) ==> pos <= next <= tokens.len(),
{
    if is_at(tokens, pos, &Token::Eq) {
        assert(views(tokens@).len() == tokens.len());
        match parse_expression(tokens, pos + 1) {
            Err(e) => Err(e),
            Ok((value, p)) => Ok((Some(value), p)),
        }
    } else {
        Ok((None, pos))
    }
}

/// A field: `name : type`, with `= default` where one is given.
fn parse_field(tokens: &Vec<Token>, pos: usize) -> (r: Result<(Field, usize), SyntaxError>)
    requires
        pos <= tokens.len(),
    ensures
        parsed(r) == spec_parse_field(views(tokens@), pos as int),
        advances(r, pos, tokens.len()),
{
    let (name, at_first) = match expect_ident(tokens, pos) {
        Err(e) => {
            return Err(e);
        },
        Ok(read) => read,
    };
    let at_second = match expect(tokens, at_first, Token::Colon) {
        Err(e) => {
            return Err(e);
        },
        Ok(p) => p,
    };
    let (ty, at_third) = match parse_type(tokens, at_second) {
        Err(e) => {
            return Err(e);
        },
        Ok(read) => read,
    };
    match parse_default(tokens, at_third) {
        Err(e) => Err(e),
        Ok((default_value, end)) => Ok((Field { name, ty, default_value }, end)),
    }
}

/// A parameter: `name : type`, with `= default` where one is given.
fn parse_param(tokens: &Vec<Token>, pos: usize) -> (r: Result<(Param, usize), SyntaxError>)
    requires
        pos <= tokens.len(),
    ensures
        parsed(r) == spec_parse_field(views(tokens@), pos as int),
        advances(r, pos, tokens.len()),
{
    match parse_field(tokens, pos) {
        Err(e) => Err(e),
        Ok((field, end)) => Ok(
            (Param { name: field.name, ty: field.ty, default_value: field.default_value }, end),
        ),
    }
}

/// The fields of a record up to the closing brace.
fn parse_fields(tokens: &Vec<Token>, pos: usize) -> (r: Result<(Vec<Field>, usize), SyntaxError>)
    requires
        pos <= tokens.len(),
    ensures
        (match r {
            Ok((fields, next)) => Ok((views(fields@), next as int)),
            Err(e) => Err(e@),
        }) == spec_fields(views(tokens@), pos as int, Seq::empty()),
        advances(r, pos, tokens.len()),
{
    let ghost ts = views(tokens@);
    assert(ts.len() == tokens.len());
    let mut fields: Vec<Field> = Vec::new();
    assert(views(fields@) =~= Seq::<SpecField>::empty());
    let mut p: usize = pos;
    loop
        invariant
            pos <= p <= tokens.len(),
            ts == views(tokens@),
            ts.len() == tokens.len(),
            spec_fields(ts, pos as int, Seq::empty()) == spec_fields(ts, p as int, views(fields@)),
        decreases tokens.len() - p,
    {
        if is_at(tokens, p, &Token::RBrace) {
            return Ok((fields, p + 1));
        }
        match parse_field(tokens, p) {
            Err(e) => {
                return Err(e);
            },
            Ok((field, next)) => {
                let ghost before = views(fields@);
                let ghost field_view = field@;
                fields.push(field);
                assert(views(fields@) =~= before.push(field_view));
                if is_at(tokens, next, &Token::RBrace) {
                    return Ok((fields, next + 1));
                }
                match expect(tokens, next, Token::Comma) {
                    Err(e) => {
                        return Err(e);
                    },
                    Ok(after_comma) => {
                        p = after_comma;
                    },
                }
            },
        }
    }
}

/// The name and the fields of a record declaration after its keyword.
fn parse_record(tokens: &Vec<Token>, pos: usize) -> (r: Result<
    ((String, Vec<Field>), usize),
    SyntaxError,
>)
    requires
        pos <= tokens.len(),
    ensures
        (match r {
            Ok(((name, fields), next)) => Ok(
                (SpecRecord { name: name@, fields: views(fields@) }, next as int),
            ),
            Err(e) => Err(e@),
        }) == spec_parse_record(views(tokens@), pos as int),
        advances(r, pos, tokens.len()),
{
    let (name, at_first) = match expect_ident(tokens, pos) {
        Err(e) => {
            return Err(e);
        },
        Ok(read) => read,
    };
    let start = match expect(tokens, at_first, Token::LBrace) {
        Err(e) => {
            return Err(e);
        },
        Ok(p) => p,
    };
    match parse_fields(tokens, start) {
        Err(e) => Err(e),
        Ok((fields, end)) => Ok(((name, fields), end)),
    }
}

/// One or more parameters with commas between them.
fn parse_param_list(tokens: &Vec<Token>, pos: usize) -> (r: Result<(Vec<Param>, usize), SyntaxError>)
    requires
        pos <= tokens.len(),
    ensures
        (match r {
            Ok((params, next)) => Ok((views(params@), next as int)),
            Err(e) => Err(e@),
        }) == spec_param_list(views(tokens@), pos as int, Seq::empty()),
        advances(r, pos, tokens.len()),
{
    let ghost ts = views(tokens@);
    assert(ts.len() == tokens.len());
    let mut params: Vec<Param> = Vec::new();
    assert(views(params@) =~= Seq::<SpecField>::empty());
    let mut p: usize = pos;
    loop
        invariant
            pos <= p <= tokens.len(),
            ts == views(tokens@),
            ts.len() == tokens.len(),
            spec_param_list(ts, pos as int, Seq::empty()) == spec_param_list(
                ts,
                p as int,
                views(params@),
            ),
        decreases tokens.len() - p,
    {
        match parse_param(tokens, p) {
            Err(e) => {
                return Err(e);
            },
            Ok((param, next)) => {
                let ghost before = views(params@);
                let ghost param_view = param@;
                params.push(param);
                assert(views(params@) =~= before.push(param_view));
                if is_at(tokens, next, &Token::Comma) {
                    p = next + 1;
                } else {
                    return Ok((params, next));
                }
            },
        }
    }
}

/// The parameters of a function in parentheses.
fn parse_params(tokens: &Vec<Token>, pos: usize) -> (r: Result<(Vec<Param>, usize), SyntaxError>)
    requires
        pos <= tokens.len(),
    ensures
        (match r {
            Ok((params, next)) => Ok((views(params@), next as int)),
            Err(e) => Err(e@),
        }) == spec_params(views(tokens@), pos as int),
        advances(r, pos, tokens.len()),
{
    let ghost ts = views(tokens@);
    assert(ts.len() == tokens.len());
    let start = match expect(tokens, pos, Token::LParen) {
        Err(e) => {
            return Err(e);
        },
        Ok(p) => p,
    };
    if is_at(tokens, start, &Token::RParen) {
        let params: Vec<Param> = Vec::new();
        assert(views(params@) =~= Seq::<SpecField>::empty());
        return Ok((params, start + 1));
    }
    match parse_param_list(tokens, start) {
        Err(e) => Err(e),
        Ok((params, p)) => match expect(tokens, p, Token::RParen) {
            Err(e) => Err(e),
            Ok(end) => Ok((params, end)),
        },
    }
}

/// The return type of a function.
fn parse_return_type(tokens: &Vec<Token>, pos: usize) -> (r: Result<(Type, usize), SyntaxError>)
    requires
        pos <= tokens.len(),
    ensures
        parsed(r) == spec_return_type(views(tokens@), pos as int),
        r matches Ok((_, next)) ==> pos <= next <= tokens.len(),
{
    if is_at(tokens, pos, &Token::Colon) {
        assert(views(tokens@).len() == tokens.len());
        parse_type(tokens, pos + 1)
    } else {
        Ok((Type::Void, pos))
    }
}

/// The constraints of a system attribute.
fn parse_constraints(tokens: &Vec<Token>, pos: usize) -> (r: Result<
    ((Vec<String>, Vec<String>), usize),
    SyntaxError,
>)
    requires
        pos <= tokens.len(),
    ensures
        (match r {
            Ok(((after, before), next)) => Ok(((views(after@), views(before@)), next as int)),
            Err(e) => Err(e@),
        }) == spec_constraints(views(tokens@), pos as int, Seq::empty(), Seq::empty()),
        r matches Ok((_, next)) ==> pos <= next <= tokens.len(),
{
    let ghost ts = views(tokens@);
    assert(ts.len() == tokens.len());
    let mut after: Vec<String> = Vec::new();
    let mut before: Vec<String> = Vec::new();
    assert(views(after@) =~= Seq::<Seq<char>>::empty());
    assert(views(before@) =~= Seq::<Seq<char>>::empty());
    let mut p: usize = pos;
    loop
        invariant
            pos <= p <= tokens.len(),
            ts == views(tokens@),
            ts.len() == tokens.len(),
            spec_constraints(ts, pos as int, Seq::empty(), Seq::empty()) == spec_constraints(
                ts,
                p as int,
                views(after@),
                views(before@),
            ),
        decreases tokens.len() - p,
    {
        if !is_at(tokens, p, &Token::Comma) {
            return Ok(((after, before), p));
        }
        if p + 1 >= tokens.len() {
            return Ok(((after, before), p + 1));
        }
        assert(ts[p + 1] == tokens[p + 1]@);
        match &tokens[p + 1] {
            Token::Ident(keyword) => {
                let is_after = str_equal(keyword.as_str(), "after");
                let is_before = str_equal(keyword.as_str(), "before");
                if !(is_after || is_before) {
                    return Err(error_at(SyntaxErrorKind::ExpectedAfterOrBefore, tokens, p + 1));
                }
                let at_second = match expect(tokens, p + 2, Token::Eq) {
                    Err(e) => {
                        return Err(e);
                    },
                    Ok(next) => next,
                };
                let (system, next) = match expect_ident(tokens, at_second) {
                    Err(e) => {
                        return Err(e);
                    },
                    Ok(read) => read,
                };
                if is_after {
                    let ghost listed = views(after@);
                    let ghost system_view = system@;
                    after.push(system);
                    assert(views(after@) =~= listed.push(system_view));
                } else {
                    let ghost listed = views(before@);
                    let ghost system_view = system@;
                    before.push(system);
                    assert(views(before@) =~= listed.push(system_view));
                }
                p = next;
            },
            _ => {
                return Ok(((after, before), p + 1));
            },
        }
    }
}

/// A system attribute after `@system`.
fn parse_system_attribute(tokens: &Vec<Token>, pos: usize) -> (r: Result<
    (SystemAttribute, usize),
    SyntaxError,
>)
    requires
        pos <= tokens.len(),
    ensures
        parsed(r) == spec_system_attribute(views(tokens@), pos as int),
        advances(r, pos, tokens.len()),
{
    let at_first = match expect(tokens, pos, Token::LParen) {
        Err(e) => {
            return Err(e);
        },
        Ok(p) => p,
    };
    let (name, start) = match expect_ident(tokens, at_first) {
        Err(e) => {
            return Err(e);
        },
        Ok(read) => read,
    };
    let ((after, before), p) = match parse_constraints(tokens, start) {
        Err(e) => {
            return Err(e);
        },
        Ok(read) => read,
    };
    match expect(tokens, p, Token::RParen) {
        Err(e) => Err(e),
        Ok(end) => Ok((SystemAttribute { name, after, before }, end)),
    }
}

/// The attribute of a function, where `@` stands.
fn parse_attribute(tokens: &Vec<Token>, pos: usize) -> (r: Result<
    (Option<SystemAttribute>, usize),
    SyntaxError,
>)
    requires
        pos <= tokens.len(),
    ensures
        (match r {
            Ok((attribute, next)) => Ok(
                (
                    match attribute {
                        Some(a) => Some(a@),
                        None => None,
                    },
                    next as int,
                ),
            ),
            Err(e) => Err(e@),
        }) == spec_attribute(views(tokens@), pos as int),
        r matches Ok((_, next)) ==> pos <= next <= tokens.len(),
{
    let ghost ts = views(tokens@);
    assert(ts.len() == tokens.len());
    if is_at(tokens, pos, &Token::At) {
        if pos + 1 < tokens.len() {
            assert(ts[pos + 1] == tokens[pos + 1]@);
            let known = match &tokens[pos + 1] {
                Token::System => true,
                Token::Ident(name) => {
                    if str_equal(name.as_str(), "system") {
                        true
                    } else {
                        return Err(error_at(SyntaxErrorKind::UnknownAttribute, tokens, pos + 1));
                    }
                },
                _ => false,
            };
            if known {
                match parse_system_attribute(tokens, pos + 2) {
                    Err(e) => Err(e),
                    Ok((attribute, end)) => Ok((Some(attribute), end)),
                }
            } else {
                Err(error_at(SyntaxErrorKind::ExpectedAttributeName, tokens, pos + 1))
            }
        } else {
            Err(error_at(SyntaxErrorKind::ExpectedAttributeName, tokens, pos + 1))
        }
    } else {
        Ok((None, pos))
    }
}

/// A function after `fn`.
pub(crate) fn parse_function(tokens: &Vec<Token>, pos: usize) -> (r: Result<
    (FunctionDef, usize),
    SyntaxError,
>)
    requires
        pos <= tokens.len(),
    ensures
        parsed(r) == spec_parse_function(views(tokens@), pos as int),
        advances(r, pos, tokens.len()),
{
    let (attribute, at_first) = match parse_attribute(tokens, pos) {
        Err(e) => {
            return Err(e);
        },
        Ok(read) => read,
    };
    let (name, at_second) = match expect_ident(tokens, at_first) {
        Err(e) => {
            return Err(e);
        },
        Ok(read) => read,
    };
    let (params, at_third) = match parse_params(tokens, at_second) {
        Err(e) => {
            return Err(e);
        },
        Ok(read) => read,
    };
    let (return_type, at_fourth) = match parse_return_type(tokens, at_third) {
        Err(e) => {
            return Err(e);
        },
        Ok(read) => read,
    };
    match parse_block(tokens, at_fourth) {
        Err(e) => Err(e),
        Ok((body, end)) => Ok((FunctionDef { name, params, return_type, body, attribute }, end)),
    }
}

/// The library of an extern function.
fn parse_library(tokens: &Vec<Token>, pos: usize) -> (r: (Option<String>, usize))
    requires
        pos <= tokens.len(),
    ensures
        (
            match r.0 {
                Some(l) => Some(l@),
                None => None,
            },
            r.1 as int,
        ) == spec_library(views(tokens@), pos as int),
        pos <= r.1 <= tokens.len(),
{
    let ghost ts = views(tokens@);
    assert(ts.len() == tokens.len());
    if pos < tokens.len() {
        assert(ts[pos as int] == tokens[pos as int]@);
        match &tokens[pos] {
            Token::Ident(keyword) => {
                if str_equal(keyword.as_str(), "from") {
                    if pos + 1 < tokens.len() {
                        assert(ts[pos + 1] == tokens[pos + 1]@);
                        match &tokens[pos + 1] {
                            Token::StringLit(library) => (Some(library.clone()), pos + 2),
                            _ => (None, pos + 1),
                        }
                    } else {
                        (None, pos + 1)
                    }
                } else {
                    (None, pos)
                }
            },
            _ => (None, pos),
        }
    } else {
        (None, pos)
    }
}

/// An extern function after `extern`.
fn parse_extern(tokens: &Vec<Token>, pos: usize) -> (r: Result<
    (ExternFunctionDef, usize),
    SyntaxError,
>)
    requires
        pos <= tokens.len(),
    ensures
        parsed(r) == spec_parse_extern(views(tokens@), pos as int),
        advances(r, pos, tokens.len()),
{
    let after_fn = match expect(tokens, pos, Token::Fn) {
        Err(e) => {
            return Err(e);
        },
        Ok(p) => p,
    };
    let at_first = match parse_attribute(tokens, after_fn) {
        Err(e) => {
            return Err(e);
        },
        Ok((_, p)) => p,
    };
    let (name, at_second) = match expect_ident(tokens, at_first) {
        Err(e) => {
            return Err(e);
        },
        Ok(read) => read,
    };
    let (params, at_third) = match parse_params(tokens, at_second) {
        Err(e) => {
            return Err(e);
        },
        Ok(read) => read,
    };
    let (return_type, at_fourth) = match parse_return_type(tokens, at_third) {
        Err(e) => {
            return Err(e);
        },
        Ok(read) => read,
    };
    let (library, at_fifth) = parse_library(tokens, at_fourth);
    match expect(tokens, at_fifth, Token::Semicolon) {
        Err(e) => Err(e),
        Ok(end) => Ok((ExternFunctionDef { name, params, return_type, library }, end)),
    }
}

/// The stage that a token names.
fn stage_of(t: &Token) -> (r: Option<ShaderStage>)
    ensures
        r == spec_stage(t@),
{
    match t {
        Token::Vertex => Some(ShaderStage::Vertex),
        Token::Fragment => Some(ShaderStage::Fragment),
        Token::Compute => Some(ShaderStage::Compute),
        Token::Geometry => Some(ShaderStage::Geometry),
        Token::TessellationControl => Some(ShaderStage::TessellationControl),
        Token::TessellationEvaluation => Some(ShaderStage::TessellationEvaluation),
        _ => None,
    }
}

/// Position of the first closing brace at or after `pos`.
fn closing_brace(tokens: &Vec<Token>, pos: usize) -> (r: usize)
    requires
        pos <= tokens.len(),
    ensures
        r == spec_closing_brace(views(tokens@), pos as int),
        pos <= r <= tokens.len(),
{
    let ghost ts = views(tokens@);
    assert(ts.len() == tokens.len());
    let mut p: usize = pos;
    while p < tokens.len() && !is_at(tokens, p, &Token::RBrace)
        invariant
            pos <= p <= tokens.len(),
            ts == views(tokens@),
            ts.len() == tokens.len(),
            spec_closing_brace(ts, pos as int) == spec_closing_brace(ts, p as int),
        decreases tokens.len() - p,
    {
        p += 1;
    }
    p
}

/// A shader after `shader`.
fn parse_shader(tokens: &Vec<Token>, pos: usize) -> (r: Result<(ShaderDef, usize), SyntaxError>)
    requires
        pos <= tokens.len(),
    ensures
        parsed(r) == spec_parse_shader(views(tokens@), pos as int),
        advances(r, pos, tokens.len()),
{
    let ghost ts = views(tokens@);
    assert(ts.len() == tokens.len());
    if pos >= tokens.len() {
        return Err(error_at(SyntaxErrorKind::ExpectedShaderStage, tokens, pos));
    }
    assert(ts[pos as int] == tokens[pos as int]@);
    let stage = match stage_of(&tokens[pos]) {
        None => {
            return Err(error_at(SyntaxErrorKind::ExpectedShaderStage, tokens, pos));
        },
        Some(stage) => stage,
    };
    let (name, p) = match expect_ident(tokens, pos + 1) {
        Err(e) => {
            return Err(e);
        },
        Ok(read) => read,
    };
    if p >= tokens.len() {
        return Err(error_at(SyntaxErrorKind::ExpectedShaderPath, tokens, p));
    }
    assert(ts[p as int] == tokens[p as int]@);
    let path = match &tokens[p] {
        Token::StringLit(path) => path.clone(),
        _ => {
            return Err(error_at(SyntaxErrorKind::ExpectedShaderPath, tokens, p));
        },
    };
    let shader = ShaderDef { name, stage, path };
    if is_at(tokens, p + 1, &Token::LBrace) {
        let close = closing_brace(tokens, p + 2);
        match expect(tokens, close, Token::RBrace) {
            Err(e) => Err(e),
            Ok(end) => Ok((shader, end)),
        }
    } else {
        Ok((shader, p + 1))
    }
}

/// The functions of a system up to the closing brace.
fn parse_system_functions(tokens: &Vec<Token>, pos: usize) -> (r: Result<
    (Vec<FunctionDef>, usize),
    SyntaxError,
>)
    requires
        pos <= tokens.len(),
    ensures
        (match r {
            Ok((functions, next)) => Ok((views(functions@), next as int)),
            Err(e) => Err(e@),
        }) == spec_system_functions(views(tokens@), pos as int, Seq::empty()),
        advances(r, pos, tokens.len()),
{
    let ghost ts = views(tokens@);
    assert(ts.len() == tokens.len());
    let mut functions: Vec<FunctionDef> = Vec::new();
    assert(views(functions@) =~= Seq::<SpecFunctionDef>::empty());
    let mut p: usize = pos;
    loop
        invariant
            pos <= p <= tokens.len(),
            ts == views(tokens@),
            ts.len() == tokens.len(),
            spec_system_functions(ts, pos as int, Seq::empty()) == spec_system_functions(
                ts,
                p as int,
                views(functions@),
            ),
        decreases tokens.len() - p,
    {
        if is_at(tokens, p, &Token::RBrace) {
            return Ok((functions, p + 1));
        }
        if !is_at(tokens, p, &Token::Fn) {
            return Err(error_at(SyntaxErrorKind::ExpectedFunctionInSystem, tokens, p));
        }
        match parse_function(tokens, p + 1) {
            Err(e) => {
                return Err(e);
            },
            Ok((function, next)) => {
                let ghost before = views(functions@);
                let ghost function_view = function@;
                functions.push(function);
                assert(views(functions@) =~= before.push(function_view));
                p = next;
            },
        }
    }
}

/// A system after `system`.
fn parse_system(tokens: &Vec<Token>, pos: usize) -> (r: Result<(SystemDef, usize), SyntaxError>)
    requires
        pos <= tokens.len(),
    ensures
        parsed(r) == spec_parse_system(views(tokens@), pos as int),
        advances(r, pos, tokens.len()),
{
    let (name, at_first) = match expect_ident(tokens, pos) {
        Err(e) => {
            return Err(e);
        },
        Ok(read) => read,
    };
    let start = match expect(tokens, at_first, Token::LBrace) {
        Err(e) => {
            return Err(e);
        },
        Ok(p) => p,
    };
    match parse_system_functions(tokens, start) {
        Err(e) => Err(e),
        Ok((functions, end)) => Ok((SystemDef { name, functions, attribute: None }, end)),
    }
}

/// A type alias after `type`.
fn parse_alias(tokens: &Vec<Token>, pos: usize) -> (r: Result<(TypeAliasDef, usize), SyntaxError>)
    requires
        pos <= tokens.len(),
    ensures
        parsed(r) == spec_parse_alias(views(tokens@), pos as int),
        advances(r, pos, tokens.len()),
{
    let (name, at_first) = match expect_ident(tokens, pos) {
        Err(e) => {
            return Err(e);
        },
        Ok(read) => read,
    };
    let at_second = match expect(tokens, at_first, Token::Eq) {
        Err(e) => {
            return Err(e);
        },
        Ok(p) => p,
    };
    let (target_type, at_third) = match parse_type(tokens, at_second) {
        Err(e) => {
            return Err(e);
        },
        Ok(read) => read,
    };
    match expect(tokens, at_third, Token::Semicolon) {
        Err(e) => Err(e),
        Ok(end) => Ok((TypeAliasDef { name, target_type }, end)),
    }
}

/// The path of an inclusion after `include`.
fn parse_include(tokens: &Vec<Token>, pos: usize) -> (r: Result<(String, usize), SyntaxError>)
    requires
        pos <= tokens.len(),
    ensures
        parsed(r) == spec_parse_include(views(tokens@), pos as int),
        advances(r, pos, tokens.len()),
{
    let ghost ts = views(tokens@);
    assert(ts.len() == tokens.len());
    if pos >= tokens.len() {
        return Err(error_at(SyntaxErrorKind::ExpectedIncludePath, tokens, pos));
    }
    assert(ts[pos as int] == tokens[pos as int]@);
    match &tokens[pos] {
        Token::StringLit(path) => match expect(tokens, pos + 1, Token::Semicolon) {
            Err(e) => Err(e),
            Ok(end) => Ok((path.clone(), end)),
        },
        _ => Err(error_at(SyntaxErrorKind::ExpectedIncludePath, tokens, pos)),
    }
}

/// What stands at `pos` at the top level of a file.
pub fn parse_item(tokens: &Vec<Token>, pos: usize) -> (r: Result<(ParsedItem, usize), SyntaxError>)
    ensures
        parsed(r) == spec_parse_item(views(tokens@), pos as int),
        advances(r, pos, tokens.len()),
{
    let ghost ts = views(tokens@);
    assert(ts.len() == tokens.len());
    if pos >= tokens.len() {
        return Err(error_at(SyntaxErrorKind::UnexpectedItem, tokens, pos));
    }
    assert(ts[pos as int] == tokens[pos as int]@);
    match &tokens[pos] {
        Token::Struct => match parse_record(tokens, pos + 1) {
            Err(e) => Err(e),
            Ok(((name, fields), end)) => Ok(
                (ParsedItem::Item(Item::Struct(StructDef { name, fields })), end),
            ),
        },
        Token::Component => match parse_record(tokens, pos + 1) {
            Err(e) => Err(e),
            Ok(((name, fields), end)) => Ok(
                (ParsedItem::Item(Item::Component(ComponentDef { name, fields })), end),
            ),
        },
        Token::MeshSOA => match parse_record(tokens, pos + 1) {
            Err(e) => Err(e),
            Ok(((name, fields), end)) => Ok(
                (ParsedItem::Item(Item::MeshSOA(MeshSOADef { name, fields })), end),
            ),
        },
        Token::ComponentSOA => match parse_record(tokens, pos + 1) {
            Err(e) => Err(e),
            Ok(((name, fields), end)) => Ok(
                (ParsedItem::Item(Item::ComponentSOA(ComponentSOADef { name, fields })), end),
            ),
        },
        Token::Shader => match parse_shader(tokens, pos + 1) {
            Err(e) => Err(e),
            Ok((d, end)) => Ok((ParsedItem::Item(Item::Shader(d)), end)),
        },
        Token::System => match parse_system(tokens, pos + 1) {
            Err(e) => Err(e),
            Ok((d, end)) => Ok((ParsedItem::Item(Item::System(d)), end)),
        },
        Token::Extern => match parse_extern(tokens, pos + 1) {
            Err(e) => Err(e),
            Ok((d, end)) => Ok((ParsedItem::Item(Item::ExternFunction(d)), end)),
        },
        Token::Type => match parse_alias(tokens, pos + 1) {
            Err(e) => Err(e),
            Ok((d, end)) => Ok((ParsedItem::Item(Item::TypeAlias(d)), end)),
        },
        Token::Include => match parse_include(tokens, pos + 1) {
            Err(e) => Err(e),
            Ok((path, end)) => Ok((ParsedItem::Include(path), end)),
        },
        Token::Fn => match parse_function(tokens, pos + 1) {
            Err(e) => Err(e),
            Ok((d, end)) => Ok((ParsedItem::Item(Item::Function(d)), end)),
        },
        _ => Err(error_at(SyntaxErrorKind::UnexpectedItem, tokens, pos)),
    }
}

} // verus!
