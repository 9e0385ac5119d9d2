//! Reading types.

use crate::ast::{types_view, views, Type};
use crate::error::{SyntaxError, SyntaxErrorKind};
use crate::lexer::Token;
use crate::parser::cursor::{advances, error_at, expect, is_at, parsed};
use crate::parser::grammar::{spec_parse_type, spec_simple_type, spec_type_list, SpecParse};
use vstd::prelude::*;

verus! {

/// The type that a single token spells.
pub fn simple_type(t: &Token) -> (r: Option<Type>)
    ensures
        (match r {
            Some(ty) => Some(ty@),
            None => None,
        }) == spec_simple_type(t@),
{
    match t {
        Token::I32 => Some(Type::I32),
        Token::I64 => Some(Type::I64),
        Token::F32 => Some(Type::F32),
        Token::F64 => Some(Type::F64),
        Token::Bool => Some(Type::Bool),
        Token::String => Some(Type::String),
        Token::Void => Some(Type::Void),
        Token::VkInstance => Some(Type::VkInstance),
        Token::VkDevice => Some(Type::VkDevice),
        Token::VkResult => Some(Type::VkResult),
        Token::VkPhysicalDevice => Some(Type::VkPhysicalDevice),
        Token::VkQueue => Some(Type::VkQueue),
        Token::VkCommandPool => Some(Type::VkCommandPool),
        Token::VkCommandBuffer => Some(Type::VkCommandBuffer),
        Token::VkSwapchainKHR => Some(Type::VkSwapchainKHR),
        Token::VkSurfaceKHR => Some(Type::VkSurfaceKHR),
        Token::VkRenderPass => Some(Type::VkRenderPass),
        Token::VkPipeline => Some(Type::VkPipeline),
        Token::VkFramebuffer => Some(Type::VkFramebuffer),
        Token::VkBuffer => Some(Type::VkBuffer),
        Token::VkImage => Some(Type::VkImage),
        Token::VkImageView => Some(Type::VkImageView),
        Token::VkSemaphore => Some(Type::VkSemaphore),
        Token::VkFence => Some(Type::VkFence),
        Token::GLFWwindow => Some(Type::GLFWwindow),
        Token::GLFWbool => Some(Type::GLFWbool),
        Token::Vec2 => Some(Type::Vec2),
        Token::Vec3 => Some(Type::Vec3),
        Token::Vec4 => Some(Type::Vec4),
        Token::Mat4 => Some(Type::Mat4),
        Token::Camera => Some(Type::Camera),
        Token::FrameArena => Some(Type::FrameArena),
        Token::Ident(name) => Some(Type::Struct(name.clone())),
        _ => None,
    }
}

/// The model of a list of types that was read, or of the error.
pub open spec fn parsed_types(r: Result<(Vec<Type>, usize), SyntaxError>) -> SpecParse<
    Seq<crate::ast::SpecType>,
> {
    match r {
        Ok((types, next)) => Ok((types_view(types), next as int)),
        Err(e) => Err(e@),
    }
}

/// The type at `pos`.
pub(crate) fn parse_type(tokens: &Vec<Token>, pos: usize) -> (r: Result<(Type, usize), SyntaxError>)
    ensures
        parsed(r) == spec_parse_type(views(tokens@), pos as int),
        advances(r, pos, tokens.len()),
    decreases tokens.len() - pos, 0nat,
{
    if pos >= tokens.len() {
        return Err(error_at(SyntaxErrorKind::UnexpectedInType, tokens, pos));
    }
    assert(views(tokens@)[pos as int] == tokens[pos as int]@);
    match simple_type(&tokens[pos]) {
        Some(ty) => Ok((ty, pos + 1)),
        None => match &tokens[pos] {
            Token::LBracket => match parse_type(tokens, pos + 1) {
                Err(e) => Err(e),
                Ok((element, p)) => match expect(tokens, p, Token::RBracket) {
                    Err(e) => Err(e),
                    Ok(end) => Ok((Type::Array(Box::new(element)), end)),
                },
            },
            Token::Query => match expect(tokens, pos + 1, Token::Lt) {
                Err(e) => Err(e),
                Ok(_) => match parse_type_list(tokens, pos + 2) {
                    Err(e) => Err(e),
                    Ok((types, p)) => match expect(tokens, p, Token::Gt) {
                        Err(e) => Err(e),
                        Ok(end) => Ok((Type::Query(types), end)),
                    },
                },
            },
            _ => Err(error_at(SyntaxErrorKind::UnexpectedInType, tokens, pos)),
        },
    }
}

/// A list of one or more types with commas between them.
pub(crate) fn parse_type_list(tokens: &Vec<Token>, pos: usize) -> (r: Result<
    (Vec<Type>, usize),
    SyntaxError,
>)
    ensures
        parsed_types(r) == spec_type_list(views(tokens@), pos as int, Seq::empty()),
        advances(r, pos, tokens.len()),
    decreases tokens.len() - pos, 1nat,
{
    let ghost ts = views(tokens@);
    assert(ts.len() == tokens.len());
    if pos >= tokens.len() {
        proof {
            reveal_with_fuel(spec_type_list, 2);
        }
        return Err(error_at(SyntaxErrorKind::UnexpectedInType, tokens, pos));
    }
    let mut types: Vec<Type> = Vec::new();
    let mut p: usize = pos;
    assert(types_view(types) =~= Seq::empty());
    loop
        invariant
            pos <= p <= tokens.len(),
            ts == views(tokens@),
            spec_type_list(ts, pos as int, Seq::empty()) == spec_type_list(
                ts,
                p as int,
                types_view(types),
            ),
        decreases tokens.len() - p,
    {
        match parse_type(tokens, p) {
            Err(e) => {
                return Err(e);
            },
            Ok((ty, next)) => {
                let ghost before = types_view(types);
                let ghost ty_view = ty@;
                types.push(ty);
                assert(types_view(types) =~= before.push(ty_view));
                if is_at(tokens, next, &Token::Comma) {
                    assert(ts.len() == tokens.len());
                    p = next + 1;
                } else {
                    return Ok((types, next));
                }
            },
        }
    }
}

} // verus!
