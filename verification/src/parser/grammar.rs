//! The grammar: what a sequence of tokens means.
//!
//! Every function here takes the tokens and a position, and gives what stands
//! there together with the position after it, or the error at the first token
//! that does not fit. A list is read by a function that carries what was read
//! so far; it goes on only where the position has moved forward.

use crate::ast::{
    BinaryOp, SpecExpression, SpecField, SpecFunctionDef, SpecExternFunctionDef, SpecItem,
    SpecLiteral, SpecRecord, SpecShaderDef, SpecStatement, SpecSystemAttribute, SpecSystemDef,
    SpecType, SpecTypeAliasDef, ShaderStage, UnaryOp,
};
use crate::error::{SpecSyntaxError, SpecSyntaxErrorKind};
use crate::lexer::SpecToken;
use vstd::prelude::*;

verus! {

/// What was read, and the position after it; or the error.
pub type SpecParse<T> = Result<(T, int), SpecSyntaxError>;

/// The token at a position, if there is one.
pub open spec fn at(ts: Seq<SpecToken>, pos: int) -> Option<SpecToken> {
    if 0 <= pos < ts.len() {
        Some(ts[pos])
    } else {
        None
    }
}

/// The error of kind `kind` at a position.
pub open spec fn spec_error(kind: SpecSyntaxErrorKind, ts: Seq<SpecToken>, pos: int) -> SpecSyntaxError {
    SpecSyntaxError { kind, position: pos as usize, found: at(ts, pos) }
}

/// Whether reading from `pos` to `next` has moved forward within the tokens.
pub open spec fn moved(ts: Seq<SpecToken>, pos: int, next: int) -> bool {
    pos < next <= ts.len()
}

/// The position after `token`, which must stand at `pos`.
pub open spec fn spec_expect(ts: Seq<SpecToken>, pos: int, token: SpecToken) -> Result<
    int,
    SpecSyntaxError,
> {
    if at(ts, pos) == Some(token) {
        Ok(pos + 1)
    } else {
        Err(spec_error(SpecSyntaxErrorKind::ExpectedToken(token), ts, pos))
    }
}

/// The identifier that must stand at `pos`.
pub open spec fn spec_expect_ident(ts: Seq<SpecToken>, pos: int) -> SpecParse<Seq<char>> {
    match at(ts, pos) {
        Some(SpecToken::Ident(name)) => Ok((name, pos + 1)),
        _ => Err(spec_error(SpecSyntaxErrorKind::ExpectedIdentifier, ts, pos)),
    }
}

/// The type that a single token spells: a keyword of a built-in type, or an
/// identifier, which names a struct.
pub open spec fn spec_simple_type(t: SpecToken) -> Option<SpecType> {
    match t {
        SpecToken::I32 => Some(SpecType::I32),
        SpecToken::I64 => Some(SpecType::I64),
        SpecToken::F32 => Some(SpecType::F32),
        SpecToken::F64 => Some(SpecType::F64),
        SpecToken::Bool => Some(SpecType::Bool),
        SpecToken::String => Some(SpecType::String),
        SpecToken::Void => Some(SpecType::Void),
        SpecToken::VkInstance => Some(SpecType::VkInstance),
        SpecToken::VkDevice => Some(SpecType::VkDevice),
        SpecToken::VkResult => Some(SpecType::VkResult),
        SpecToken::VkPhysicalDevice => Some(SpecType::VkPhysicalDevice),
        SpecToken::VkQueue => Some(SpecType::VkQueue),
        SpecToken::VkCommandPool => Some(SpecType::VkCommandPool),
        SpecToken::VkCommandBuffer => Some(SpecType::VkCommandBuffer),
        SpecToken::VkSwapchainKHR => Some(SpecType::VkSwapchainKHR),
        SpecToken::VkSurfaceKHR => Some(SpecType::VkSurfaceKHR),
        SpecToken::VkRenderPass => Some(SpecType::VkRenderPass),
        SpecToken::VkPipeline => Some(SpecType::VkPipeline),
        SpecToken::VkFramebuffer => Some(SpecType::VkFramebuffer),
        SpecToken::VkBuffer => Some(SpecType::VkBuffer),
        SpecToken::VkImage => Some(SpecType::VkImage),
        SpecToken::VkImageView => Some(SpecType::VkImageView),
        SpecToken::VkSemaphore => Some(SpecType::VkSemaphore),
        SpecToken::VkFence => Some(SpecType::VkFence),
        SpecToken::GLFWwindow => Some(SpecType::GLFWwindow),
        SpecToken::GLFWbool => Some(SpecType::GLFWbool),
        SpecToken::Vec2 => Some(SpecType::Vec2),
        SpecToken::Vec3 => Some(SpecType::Vec3),
        SpecToken::Vec4 => Some(SpecType::Vec4),
        SpecToken::Mat4 => Some(SpecType::Mat4),
        SpecToken::Camera => Some(SpecType::Camera),
        SpecToken::FrameArena => Some(SpecType::FrameArena),
        SpecToken::Ident(name) => Some(SpecType::Struct(name)),
        _ => None,
    }
}

/// The type at `pos`: a simple type, `[T]`, or `query<T, ..>` with at least
/// one component type.
pub open spec fn spec_parse_type(ts: Seq<SpecToken>, pos: int) -> SpecParse<SpecType>
    decreases ts.len() - pos, 0nat,
{
    match at(ts, pos) {
        None => Err(spec_error(SpecSyntaxErrorKind::UnexpectedInType, ts, pos)),
        Some(t) => match spec_simple_type(t) {
            Some(ty) => Ok((ty, pos + 1)),
            None => if t == SpecToken::LBracket {
                match spec_parse_type(ts, pos + 1) {
                    Err(e) => Err(e),
                    Ok((element, p)) => match spec_expect(ts, p, SpecToken::RBracket) {
                        Err(e) => Err(e),
                        Ok(end) => Ok((SpecType::Array(Box::new(element)), end)),
                    },
                }
            } else if t == SpecToken::Query {
                match spec_expect(ts, pos + 1, SpecToken::Lt) {
                    Err(e) => Err(e),
                    Ok(_) => match spec_type_list(ts, pos + 2, Seq::empty()) {
                        Err(e) => Err(e),
                        Ok((types, p)) => match spec_expect(ts, p, SpecToken::Gt) {
                            Err(e) => Err(e),
                            Ok(end) => Ok((SpecType::Query(types), end)),
                        },
                    },
                }
            } else {
                Err(spec_error(SpecSyntaxErrorKind::UnexpectedInType, ts, pos))
            },
        },
    }
}

/// A list of one or more types with commas between them, put after `acc`.
pub open spec fn spec_type_list(ts: Seq<SpecToken>, pos: int, acc: Seq<SpecType>) -> SpecParse<
    Seq<SpecType>,
>
    decreases ts.len() - pos, 1nat,
{
    match spec_parse_type(ts, pos) {
        Err(e) => Err(e),
        Ok((ty, p)) => if at(ts, p) == Some(SpecToken::Comma) && moved(ts, pos, p + 1) {
            spec_type_list(ts, p + 1, acc.push(ty))
        } else {
            Ok((acc.push(ty), p))
        },
    }
}

/// `s` in upper case, as `str::to_uppercase` of the standard library gives it.
pub uninterp spec fn uppercase_of(s: Seq<char>) -> Seq<char>;

/// `str::to_uppercase`: the string with every character replaced by its
/// upper-case mapping. The mapping is Unicode's; nothing more is claimed of
/// the result than that it depends on the characters alone.
#[verifier::external_body]
pub(crate) fn to_uppercase(s: &str) -> (r: String)
    ensures
        r@ == uppercase_of(s@),
{
    s.to_uppercase()
}

/// Whether a suffix in upper case names a unit of bytes.
pub open spec fn is_byte_unit(upper: Seq<char>) -> bool {
    upper == "MIB"@ || upper == "KIB"@ || upper == "GIB"@
}

/// The binary operator of precedence level `level` at `pos`, if one stands
/// there. The levels, from the loosest: `||`; `|>`; `&&`; `==` and `!=`; the
/// four relations; `|`; `+` and `-`; `*`, `/` and `%`. A `|` with a `>` after
/// it is no operator.
pub open spec fn spec_binary_op(ts: Seq<SpecToken>, pos: int, level: nat) -> Option<BinaryOp> {
    match at(ts, pos) {
        None => None,
        Some(t) => if level == 0 {
            if t == SpecToken::OrOr {
                Some(BinaryOp::Or)
            } else {
                None
            }
        } else if level == 1 {
            if t == SpecToken::PipeOp {
                Some(BinaryOp::Pipe)
            } else {
                None
            }
        } else if level == 2 {
            if t == SpecToken::AndAnd {
                Some(BinaryOp::And)
            } else {
                None
            }
        } else if level == 3 {
            if t == SpecToken::EqEq {
                Some(BinaryOp::Eq)
            } else if t == SpecToken::Ne {
                Some(BinaryOp::Ne)
            } else {
                None
            }
        } else if level == 4 {
            if t == SpecToken::Lt {
                Some(BinaryOp::Lt)
            } else if t == SpecToken::Le {
                Some(BinaryOp::Le)
            } else if t == SpecToken::Gt {
                Some(BinaryOp::Gt)
            } else if t == SpecToken::Ge {
                Some(BinaryOp::Ge)
            } else {
                None
            }
        } else if level == 5 {
            if t == SpecToken::Pipe && at(ts, pos + 1) != Some(SpecToken::Gt) {
                Some(BinaryOp::BitwiseOr)
            } else {
                None
            }
        } else if level == 6 {
            if t == SpecToken::Plus {
                Some(BinaryOp::Add)
            } else if t == SpecToken::Minus {
                Some(BinaryOp::Sub)
            } else {
                None
            }
        } else if level == 7 {
            if t == SpecToken::Star {
                Some(BinaryOp::Mul)
            } else if t == SpecToken::Slash {
                Some(BinaryOp::Div)
            } else if t == SpecToken::Percent {
                Some(BinaryOp::Mod)
            } else {
                None
            }
        } else {
            None
        },
    }
}

/// The number of precedence levels of binary operators.
pub open spec fn spec_levels() -> nat {
    8
}

/// The expression at `pos`.
pub open spec fn spec_parse_expression(ts: Seq<SpecToken>, pos: int) -> SpecParse<SpecExpression>
    decreases ts.len() - pos, 30nat,
{
    spec_parse_binary(ts, pos, 0)
}

/// The expression at `pos` whose operators are of level `level` or tighter:
/// operands of the next level with operators of this level between them,
/// grouped from the left.
pub open spec fn spec_parse_binary(ts: Seq<SpecToken>, pos: int, level: nat) -> SpecParse<
    SpecExpression,
>
    decreases ts.len() - pos,
        if level >= spec_levels() {
            12int
        } else {
            20 - level
        },
{
    if level >= spec_levels() {
        spec_parse_unary(ts, pos)
    } else {
        match spec_parse_binary(ts, pos, level + 1) {
            Err(e) => Err(e),
            Ok((left, p)) => if moved(ts, pos, p) {
                spec_binary_rest(ts, p, level, left)
            } else {
                Ok((left, p))
            },
        }
    }
}

/// What follows the operand `left` at level `level`: further operators of
/// the level with their operands.
pub open spec fn spec_binary_rest(
    ts: Seq<SpecToken>,
    pos: int,
    level: nat,
    left: SpecExpression,
) -> SpecParse<SpecExpression>
    decreases ts.len() - pos,
        if level >= spec_levels() {
            12int
        } else {
            20 - level
        },
{
    if level >= spec_levels() {
        Ok((left, pos))
    } else {
        match spec_binary_op(ts, pos, level) {
            None => Ok((left, pos)),
            Some(op) => match spec_parse_binary(ts, pos + 1, level + 1) {
                Err(e) => Err(e),
                Ok((right, p)) => {
                    let joined = SpecExpression::BinaryOp {
                        op,
                        left: Box::new(left),
                        right: Box::new(right),
                    };
                    if moved(ts, pos, p) {
                        spec_binary_rest(ts, p, level, joined)
                    } else {
                        Ok((joined, p))
                    }
                },
            },
        }
    }
}

/// A unary expression: `!` or `-` before a unary expression, or a primary
/// expression with what follows it.
pub open spec fn spec_parse_unary(ts: Seq<SpecToken>, pos: int) -> SpecParse<SpecExpression>
    decreases ts.len() - pos, 11nat,
{
    match at(ts, pos) {
        Some(SpecToken::Bang) => match spec_parse_unary(ts, pos + 1) {
            Err(e) => Err(e),
            Ok((operand, p)) => Ok(
                (SpecExpression::UnaryOp { op: UnaryOp::Not, expr: Box::new(operand) }, p),
            ),
        },
        Some(SpecToken::Minus) => match spec_parse_unary(ts, pos + 1) {
            Err(e) => Err(e),
            Ok((operand, p)) => Ok(
                (SpecExpression::UnaryOp { op: UnaryOp::Neg, expr: Box::new(operand) }, p),
            ),
        },
        _ => spec_parse_call(ts, pos),
    }
}

/// A primary expression with the calls, member accesses and indexings that
/// follow it.
pub open spec fn spec_parse_call(ts: Seq<SpecToken>, pos: int) -> SpecParse<SpecExpression>
    decreases ts.len() - pos, 10nat,
{
    match spec_parse_primary(ts, pos) {
        Err(e) => Err(e),
        Ok((primary, p)) => if moved(ts, pos, p) {
            spec_postfix(ts, p, primary)
        } else {
            Ok((primary, p))
        },
    }
}

/// Whether the argument list that begins after the parenthesis at `pos`
/// names its arguments: an identifier and `=` come first.
pub open spec fn spec_is_named(ts: Seq<SpecToken>, pos: int) -> bool {
    at(ts, pos + 1) is Some && at(ts, pos + 1)->0 is Ident && at(ts, pos + 2) == Some(
        SpecToken::Eq,
    )
}

/// What follows the expression `expr`: an argument list, which makes a call
/// of a name; `.member`, with type arguments and an argument list or an
/// argument list alone for a method call; or an index in brackets.
pub open spec fn spec_postfix(ts: Seq<SpecToken>, pos: int, expr: SpecExpression) -> SpecParse<
    SpecExpression,
>
    decreases ts.len() - pos, 8nat,
{
    match at(ts, pos) {
        Some(SpecToken::LParen) => {
            if spec_is_named(ts, pos) {
                match spec_named_args(ts, pos + 1, Seq::empty()) {
                    Err(e) => Err(e),
                    Ok((named_args, p)) => match spec_expect(ts, p, SpecToken::RParen) {
                        Err(e) => Err(e),
                        Ok(end) => match expr {
                            SpecExpression::Variable(name) => if moved(ts, pos, end) {
                                spec_postfix(ts, end, SpecExpression::NamedCall { name, named_args })
                            } else {
                                Ok((SpecExpression::NamedCall { name, named_args }, end))
                            },
                            _ => Err(
                                spec_error(
                                    SpecSyntaxErrorKind::ExpectedFunctionNameForNamedArguments,
                                    ts,
                                    end,
                                ),
                            ),
                        },
                    },
                }
            } else {
                match spec_args(ts, pos + 1) {
                    Err(e) => Err(e),
                    Ok((args, end)) => match expr {
                        SpecExpression::Variable(name) => if moved(ts, pos, end) {
                            spec_postfix(ts, end, SpecExpression::Call { name, args })
                        } else {
                            Ok((SpecExpression::Call { name, args }, end))
                        },
                        _ => Err(spec_error(SpecSyntaxErrorKind::ExpectedFunctionName, ts, end)),
                    },
                }
            }
        },
        Some(SpecToken::Dot) => match spec_expect_ident(ts, pos + 1) {
            Err(e) => Err(e),
            Ok((member, p)) => if at(ts, p) == Some(SpecToken::Lt) {
                match spec_type_list(ts, p + 1, Seq::empty()) {
                    Err(e) => Err(e),
                    Ok((types, at_second)) => match spec_expect(ts, at_second, SpecToken::Gt) {
                        Err(e) => Err(e),
                        Ok(at_third) => if at(ts, at_third) == Some(SpecToken::LParen) && moved(ts, pos, at_third) {
                            match spec_args(ts, at_third + 1) {
                                Err(e) => Err(e),
                                Ok((args, end)) => {
                                    let call = SpecExpression::MethodCall {
                                        object: Box::new(expr),
                                        method: member,
                                        type_args: Some(types),
                                        args,
                                    };
                                    if moved(ts, pos, end) {
                                        spec_postfix(ts, end, call)
                                    } else {
                                        Ok((call, end))
                                    }
                                },
                            }
                        } else {
                            Err(
                                spec_error(
                                    SpecSyntaxErrorKind::ExpectedCallAfterTypeArguments,
                                    ts,
                                    at_third,
                                ),
                            )
                        },
                    },
                }
            } else if at(ts, p) == Some(SpecToken::LParen) {
                match spec_args(ts, p + 1) {
                    Err(e) => Err(e),
                    Ok((args, end)) => {
                        let call = SpecExpression::MethodCall {
                            object: Box::new(expr),
                            method: member,
                            type_args: None,
                            args,
                        };
                        if moved(ts, pos, end) {
                            spec_postfix(ts, end, call)
                        } else {
                            Ok((call, end))
                        }
                    },
                }
            } else {
                let access = SpecExpression::MemberAccess { object: Box::new(expr), member };
                if moved(ts, pos, p) {
                    spec_postfix(ts, p, access)
                } else {
                    Ok((access, p))
                }
            },
        },
        Some(SpecToken::LBracket) => match spec_parse_expression(ts, pos + 1) {
            Err(e) => Err(e),
            Ok((index, p)) => match spec_expect(ts, p, SpecToken::RBracket) {
                Err(e) => Err(e),
                Ok(end) => {
                    let indexed = SpecExpression::Index {
                        array: Box::new(expr),
                        index: Box::new(index),
                    };
                    if moved(ts, pos, end) {
                        spec_postfix(ts, end, indexed)
                    } else {
                        Ok((indexed, end))
                    }
                },
            },
        },
        _ => Ok((expr, pos)),
    }
}

/// The arguments of a call, from after the opening parenthesis to after the
/// closing one: expressions with commas between them, or nothing.
pub open spec fn spec_args(ts: Seq<SpecToken>, pos: int) -> SpecParse<Seq<SpecExpression>>
    decreases ts.len() - pos, 41nat,
{
    if at(ts, pos) == Some(SpecToken::RParen) {
        Ok((Seq::empty(), pos + 1))
    } else {
        match spec_arg_list(ts, pos, Seq::empty()) {
            Err(e) => Err(e),
            Ok((args, p)) => match spec_expect(ts, p, SpecToken::RParen) {
                Err(e) => Err(e),
                Ok(end) => Ok((args, end)),
            },
        }
    }
}

/// One or more expressions with commas between them, put after `acc`.
pub open spec fn spec_arg_list(ts: Seq<SpecToken>, pos: int, acc: Seq<SpecExpression>) -> SpecParse<
    Seq<SpecExpression>,
>
    decreases ts.len() - pos, 40nat,
{
    match spec_parse_expression(ts, pos) {
        Err(e) => Err(e),
        Ok((arg, p)) => if at(ts, p) == Some(SpecToken::Comma) && moved(ts, pos, p + 1) {
            spec_arg_list(ts, p + 1, acc.push(arg))
        } else {
            Ok((acc.push(arg), p))
        },
    }
}

/// One or more arguments of the form `name = value` with commas between
/// them, put after `acc`.
pub open spec fn spec_named_args(
    ts: Seq<SpecToken>,
    pos: int,
    acc: Seq<(Seq<char>, SpecExpression)>,
) -> SpecParse<Seq<(Seq<char>, SpecExpression)>>
    decreases ts.len() - pos, 40nat,
{
    match spec_expect_ident(ts, pos) {
        Err(e) => Err(e),
        Ok((name, at_first)) => match spec_expect(ts, at_first, SpecToken::Eq) {
            Err(e) => Err(e),
            Ok(at_second) => match spec_parse_expression(ts, at_second) {
                Err(e) => Err(e),
                Ok((value, p)) => if at(ts, p) == Some(SpecToken::Comma) && moved(ts, pos, p + 1) {
                    spec_named_args(ts, p + 1, acc.push((name, value)))
                } else {
                    Ok((acc.push((name, value)), p))
                },
            },
        },
    }
}

/// A numeric literal with what follows it: after a point, an identifier that
/// names a unit of bytes in any case makes a value with a unit; any other
/// point is passed over.
pub open spec fn spec_unit_suffix(ts: Seq<SpecToken>, pos: int, literal: SpecExpression) -> (
    SpecExpression,
    int,
) {
    if at(ts, pos) == Some(SpecToken::Dot) {
        match at(ts, pos + 1) {
            Some(SpecToken::Ident(unit)) => if is_byte_unit(uppercase_of(unit)) {
                (
                    SpecExpression::UnitSuffix {
                        value: Box::new(literal),
                        unit: uppercase_of(unit),
                    },
                    pos + 2,
                )
            } else {
                (literal, pos + 1)
            },
            _ => (literal, pos + 1),
        }
    } else {
        (literal, pos)
    }
}

/// A primary expression: a literal, a name, or an expression in parentheses.
pub open spec fn spec_parse_primary(ts: Seq<SpecToken>, pos: int) -> SpecParse<SpecExpression>
    decreases ts.len() - pos, 9nat,
{
    match at(ts, pos) {
        Some(SpecToken::Int(n)) => Ok(
            spec_unit_suffix(ts, pos + 1, SpecExpression::Literal(SpecLiteral::Int(n))),
        ),
        Some(SpecToken::Float(t)) => Ok(
            spec_unit_suffix(ts, pos + 1, SpecExpression::Literal(SpecLiteral::Float(t))),
        ),
        Some(SpecToken::True) => Ok((SpecExpression::Literal(SpecLiteral::Bool(true)), pos + 1)),
        Some(SpecToken::False) => Ok((SpecExpression::Literal(SpecLiteral::Bool(false)), pos + 1)),
        Some(SpecToken::StringLit(t)) => Ok(
            (SpecExpression::Literal(SpecLiteral::String(t)), pos + 1),
        ),
        Some(SpecToken::Ident(name)) => Ok((SpecExpression::Variable(name), pos + 1)),
        Some(SpecToken::LParen) => match spec_parse_expression(ts, pos + 1) {
            Err(e) => Err(e),
            Ok((inner, p)) => match spec_expect(ts, p, SpecToken::RParen) {
                Err(e) => Err(e),
                Ok(end) => Ok((inner, end)),
            },
        },
        _ => Err(spec_error(SpecSyntaxErrorKind::UnexpectedInExpression, ts, pos)),
    }
}

/// A condition: an expression, or an expression in parentheses where a
/// parenthesis comes first.
pub open spec fn spec_parse_condition(ts: Seq<SpecToken>, pos: int) -> SpecParse<SpecExpression>
    decreases ts.len() - pos, 31nat,
{
    if at(ts, pos) == Some(SpecToken::LParen) {
        match spec_parse_expression(ts, pos + 1) {
            Err(e) => Err(e),
            Ok((condition, p)) => match spec_expect(ts, p, SpecToken::RParen) {
                Err(e) => Err(e),
                Ok(end) => Ok((condition, end)),
            },
        }
    } else {
        spec_parse_expression(ts, pos)
    }
}

/// The statement at `pos`.
pub open spec fn spec_parse_statement(ts: Seq<SpecToken>, pos: int) -> SpecParse<SpecStatement>
    decreases ts.len() - pos, 50nat,
{
    match at(ts, pos) {
        Some(SpecToken::Let) => match spec_expect_ident(ts, pos + 1) {
            Err(e) => Err(e),
            Ok((name, at_first)) => {
                let declared: SpecParse<Option<SpecType>> = if at(ts, at_first) == Some(SpecToken::Colon) {
                    match spec_parse_type(ts, at_first + 1) {
                        Err(e) => Err(e),
                        Ok((ty, at_second)) => Ok((Some(ty), at_second)),
                    }
                } else {
                    Ok((None, at_first))
                };
                match declared {
                    Err(e) => Err(e),
                    Ok((ty, at_second)) => match spec_expect(ts, at_second, SpecToken::Eq) {
                        Err(e) => Err(e),
                        Ok(at_third) => match spec_parse_expression(ts, at_third) {
                            Err(e) => Err(e),
                            Ok((value, at_fourth)) => match spec_expect(ts, at_fourth, SpecToken::Semicolon) {
                                Err(e) => Err(e),
                                Ok(end) => Ok((SpecStatement::Let { name, ty, value }, end)),
                            },
                        },
                    },
                }
            },
        },
        Some(SpecToken::If) => match spec_parse_condition(ts, pos + 1) {
            Err(e) => Err(e),
            Ok((condition, at_first)) => if moved(ts, pos, at_first) {
                match spec_parse_block(ts, at_first) {
                    Err(e) => Err(e),
                    Ok((then_block, at_second)) => if at(ts, at_second) == Some(SpecToken::Else) && moved(
                        ts,
                        pos,
                        at_second,
                    ) {
                        match spec_parse_block(ts, at_second + 1) {
                            Err(e) => Err(e),
                            Ok((else_block, end)) => Ok(
                                (
                                    SpecStatement::If {
                                        condition,
                                        then_block,
                                        else_block: Some(else_block),
                                    },
                                    end,
                                ),
                            ),
                        }
                    } else {
                        Ok((SpecStatement::If { condition, then_block, else_block: None }, at_second))
                    },
                }
            } else {
                Err(spec_error(SpecSyntaxErrorKind::ExpectedToken(SpecToken::LBrace), ts, at_first))
            },
        },
        Some(SpecToken::While) => match spec_parse_condition(ts, pos + 1) {
            Err(e) => Err(e),
            Ok((condition, at_first)) => if moved(ts, pos, at_first) {
                match spec_parse_block(ts, at_first) {
                    Err(e) => Err(e),
                    Ok((body, end)) => Ok((SpecStatement::While { condition, body }, end)),
                }
            } else {
                Err(spec_error(SpecSyntaxErrorKind::ExpectedToken(SpecToken::LBrace), ts, at_first))
            },
        },
        Some(SpecToken::Loop) => match spec_parse_block(ts, pos + 1) {
            Err(e) => Err(e),
            Ok((body, end)) => Ok((SpecStatement::Loop { body }, end)),
        },
        Some(SpecToken::Return) => if at(ts, pos + 1) == Some(SpecToken::Semicolon) {
            Ok((SpecStatement::Return(None), pos + 2))
        } else {
            match spec_parse_expression(ts, pos + 1) {
                Err(e) => Err(e),
                Ok((value, p)) => match spec_expect(ts, p, SpecToken::Semicolon) {
                    Err(e) => Err(e),
                    Ok(end) => Ok((SpecStatement::Return(Some(value)), end)),
                },
            }
        },
        _ => match spec_parse_expression(ts, pos) {
            Err(e) => Err(e),
            Ok((first, p)) => if at(ts, p) == Some(SpecToken::Eq) {
                match spec_parse_expression(ts, p + 1) {
                    Err(e) => Err(e),
                    Ok((value, at_second)) => match spec_expect(ts, at_second, SpecToken::Semicolon) {
                        Err(e) => Err(e),
                        Ok(end) => Ok((SpecStatement::Assign { target: first, value }, end)),
                    },
                }
            } else {
                match spec_expect(ts, p, SpecToken::Semicolon) {
                    Err(e) => Err(e),
                    Ok(end) => Ok((SpecStatement::Expression(first), end)),
                }
            },
        },
    }
}

/// A block: the statements between braces.
pub open spec fn spec_parse_block(ts: Seq<SpecToken>, pos: int) -> SpecParse<Seq<SpecStatement>>
    decreases ts.len() - pos, 52nat,
{
    match spec_expect(ts, pos, SpecToken::LBrace) {
        Err(e) => Err(e),
        Ok(p) => spec_statements(ts, p, Seq::empty()),
    }
}

/// The statements up to the closing brace, put after `acc`.
pub open spec fn spec_statements(ts: Seq<SpecToken>, pos: int, acc: Seq<SpecStatement>) -> SpecParse<
    Seq<SpecStatement>,
>
    decreases ts.len() - pos, 51nat,
{
    if at(ts, pos) == Some(SpecToken::RBrace) {
        Ok((acc, pos + 1))
    } else {
        match spec_parse_statement(ts, pos) {
            Err(e) => Err(e),
            Ok((statement, p)) => if moved(ts, pos, p) {
                spec_statements(ts, p, acc.push(statement))
            } else {
                Err(spec_error(SpecSyntaxErrorKind::ExpectedToken(SpecToken::RBrace), ts, p))
            },
        }
    }
}

/// The default value after a type, where `=` stands.
pub open spec fn spec_parse_default(ts: Seq<SpecToken>, pos: int) -> SpecParse<Option<SpecExpression>> {
    if at(ts, pos) == Some(SpecToken::Eq) {
        match spec_parse_expression(ts, pos + 1) {
            Err(e) => Err(e),
            Ok((value, p)) => Ok((Some(value), p)),
        }
    } else {
        Ok((None, pos))
    }
}

/// A field or a parameter: `name : type`, with `= default` where one is given.
pub open spec fn spec_parse_field(ts: Seq<SpecToken>, pos: int) -> SpecParse<SpecField> {
    match spec_expect_ident(ts, pos) {
        Err(e) => Err(e),
        Ok((name, at_first)) => match spec_expect(ts, at_first, SpecToken::Colon) {
            Err(e) => Err(e),
            Ok(at_second) => match spec_parse_type(ts, at_second) {
                Err(e) => Err(e),
                Ok((ty, at_third)) => match spec_parse_default(ts, at_third) {
                    Err(e) => Err(e),
                    Ok((default_value, end)) => Ok((SpecField { name, ty, default_value }, end)),
                },
            },
        },
    }
}

/// The fields up to the closing brace, put after `acc`: a comma stands after
/// each field but, at will, the last.
pub open spec fn spec_fields(ts: Seq<SpecToken>, pos: int, acc: Seq<SpecField>) -> SpecParse<
    Seq<SpecField>,
>
    decreases ts.len() - pos,
{
    if at(ts, pos) == Some(SpecToken::RBrace) {
        Ok((acc, pos + 1))
    } else {
        match spec_parse_field(ts, pos) {
            Err(e) => Err(e),
            Ok((field, p)) => if at(ts, p) == Some(SpecToken::RBrace) {
                Ok((acc.push(field), p + 1))
            } else {
                match spec_expect(ts, p, SpecToken::Comma) {
                    Err(e) => Err(e),
                    Ok(next) => if moved(ts, pos, next) {
                        spec_fields(ts, next, acc.push(field))
                    } else {
                        Err(spec_error(SpecSyntaxErrorKind::ExpectedIdentifier, ts, next))
                    },
                }
            },
        }
    }
}

/// A record declaration after its keyword: a name and fields in braces.
pub open spec fn spec_parse_record(ts: Seq<SpecToken>, pos: int) -> SpecParse<SpecRecord> {
    match spec_expect_ident(ts, pos) {
        Err(e) => Err(e),
        Ok((name, at_first)) => match spec_expect(ts, at_first, SpecToken::LBrace) {
            Err(e) => Err(e),
            Ok(at_second) => match spec_fields(ts, at_second, Seq::empty()) {
                Err(e) => Err(e),
                Ok((fields, end)) => Ok((SpecRecord { name, fields }, end)),
            },
        },
    }
}

/// One or more parameters with commas between them, put after `acc`.
pub open spec fn spec_param_list(ts: Seq<SpecToken>, pos: int, acc: Seq<SpecField>) -> SpecParse<
    Seq<SpecField>,
>
    decreases ts.len() - pos,
{
    match spec_parse_field(ts, pos) {
        Err(e) => Err(e),
        Ok((param, p)) => if at(ts, p) == Some(SpecToken::Comma) && moved(ts, pos, p + 1) {
            spec_param_list(ts, p + 1, acc.push(param))
        } else {
            Ok((acc.push(param), p))
        },
    }
}

/// The parameters of a function in parentheses.
pub open spec fn spec_params(ts: Seq<SpecToken>, pos: int) -> SpecParse<Seq<SpecField>> {
    match spec_expect(ts, pos, SpecToken::LParen) {
        Err(e) => Err(e),
        Ok(p) => if at(ts, p) == Some(SpecToken::RParen) {
            Ok((Seq::empty(), p + 1))
        } else {
            match spec_param_list(ts, p, Seq::empty()) {
                Err(e) => Err(e),
                Ok((params, at_second)) => match spec_expect(ts, at_second, SpecToken::RParen) {
                    Err(e) => Err(e),
                    Ok(end) => Ok((params, end)),
                },
            }
        },
    }
}

/// The return type of a function: what stands after a colon, `void` without one.
pub open spec fn spec_return_type(ts: Seq<SpecToken>, pos: int) -> SpecParse<SpecType> {
    if at(ts, pos) == Some(SpecToken::Colon) {
        spec_parse_type(ts, pos + 1)
    } else {
        Ok((SpecType::Void, pos))
    }
}

/// The constraints of a system attribute, put after `after` and `before`:
/// each a comma and `after = name` or `before = name`. A comma that no
/// identifier follows ends the constraints.
pub open spec fn spec_constraints(
    ts: Seq<SpecToken>,
    pos: int,
    after: Seq<Seq<char>>,
    before: Seq<Seq<char>>,
) -> SpecParse<(Seq<Seq<char>>, Seq<Seq<char>>)>
    decreases ts.len() - pos,
{
    if at(ts, pos) == Some(SpecToken::Comma) {
        match at(ts, pos + 1) {
            Some(SpecToken::Ident(keyword)) => if keyword == "after"@ || keyword == "before"@ {
                match spec_expect(ts, pos + 2, SpecToken::Eq) {
                    Err(e) => Err(e),
                    Ok(p) => match spec_expect_ident(ts, p) {
                        Err(e) => Err(e),
                        Ok((name, next)) => if keyword == "after"@ {
                            spec_constraints(ts, next, after.push(name), before)
                        } else {
                            spec_constraints(ts, next, after, before.push(name))
                        },
                    },
                }
            } else {
                Err(spec_error(SpecSyntaxErrorKind::ExpectedAfterOrBefore, ts, pos + 1))
            },
            _ => Ok(((after, before), pos + 1)),
        }
    } else {
        Ok(((after, before), pos))
    }
}

/// A system attribute after `@system`: the system's name and its constraints
/// in parentheses.
pub open spec fn spec_system_attribute(ts: Seq<SpecToken>, pos: int) -> SpecParse<SpecSystemAttribute> {
    match spec_expect(ts, pos, SpecToken::LParen) {
        Err(e) => Err(e),
        Ok(at_first) => match spec_expect_ident(ts, at_first) {
            Err(e) => Err(e),
            Ok((name, at_second)) => match spec_constraints(ts, at_second, Seq::empty(), Seq::empty()) {
                Err(e) => Err(e),
                Ok(((after, before), at_third)) => match spec_expect(ts, at_third, SpecToken::RParen) {
                    Err(e) => Err(e),
                    Ok(end) => Ok((SpecSystemAttribute { name, after, before }, end)),
                },
            },
        },
    }
}

/// The attribute of a function, where `@` stands: `@system` with its
/// arguments. No other attribute is known.
pub open spec fn spec_attribute(ts: Seq<SpecToken>, pos: int) -> SpecParse<Option<SpecSystemAttribute>> {
    if at(ts, pos) == Some(SpecToken::At) {
        match at(ts, pos + 1) {
            Some(SpecToken::System) => match spec_system_attribute(ts, pos + 2) {
                Err(e) => Err(e),
                Ok((attribute, end)) => Ok((Some(attribute), end)),
            },
            Some(SpecToken::Ident(name)) => if name == "system"@ {
                match spec_system_attribute(ts, pos + 2) {
                    Err(e) => Err(e),
                    Ok((attribute, end)) => Ok((Some(attribute), end)),
                }
            } else {
                Err(spec_error(SpecSyntaxErrorKind::UnknownAttribute, ts, pos + 1))
            },
            _ => Err(spec_error(SpecSyntaxErrorKind::ExpectedAttributeName, ts, pos + 1)),
        }
    } else {
        Ok((None, pos))
    }
}

/// A function after `fn`: an attribute at will, the name, the parameters, the
/// return type at will, and the body.
pub open spec fn spec_parse_function(ts: Seq<SpecToken>, pos: int) -> SpecParse<SpecFunctionDef> {
    match spec_attribute(ts, pos) {
        Err(e) => Err(e),
        Ok((attribute, at_first)) => match spec_expect_ident(ts, at_first) {
            Err(e) => Err(e),
            Ok((name, at_second)) => match spec_params(ts, at_second) {
                Err(e) => Err(e),
                Ok((params, at_third)) => match spec_return_type(ts, at_third) {
                    Err(e) => Err(e),
                    Ok((return_type, at_fourth)) => match spec_parse_block(ts, at_fourth) {
                        Err(e) => Err(e),
                        Ok((body, end)) => Ok(
                            (SpecFunctionDef { name, params, return_type, body, attribute }, end),
                        ),
                    },
                },
            },
        },
    }
}

/// The library of an extern function: the string after `from`; none where
/// `from` is missing or no string follows it.
pub open spec fn spec_library(ts: Seq<SpecToken>, pos: int) -> (Option<Seq<char>>, int) {
    match at(ts, pos) {
        Some(SpecToken::Ident(keyword)) => if keyword == "from"@ {
            match at(ts, pos + 1) {
                Some(SpecToken::StringLit(library)) => (Some(library), pos + 2),
                _ => (None, pos + 1),
            }
        } else {
            (None, pos)
        },
        _ => (None, pos),
    }
}

/// An extern function after `extern`: `fn`, an attribute at will, which is
/// read and dropped, the name, the parameters, the return type at will, the
/// library at will, and a semicolon.
pub open spec fn spec_parse_extern(ts: Seq<SpecToken>, pos: int) -> SpecParse<SpecExternFunctionDef> {
    match spec_expect(ts, pos, SpecToken::Fn) {
        Err(e) => Err(e),
        Ok(after_fn) => match spec_attribute(ts, after_fn) {
            Err(e) => Err(e),
            Ok((_, at_first)) => match spec_expect_ident(ts, at_first) {
                Err(e) => Err(e),
                Ok((name, at_second)) => match spec_params(ts, at_second) {
                    Err(e) => Err(e),
                    Ok((params, at_third)) => match spec_return_type(ts, at_third) {
                        Err(e) => Err(e),
                        Ok((return_type, at_fourth)) => {
                            let (library, at_fifth) = spec_library(ts, at_fourth);
                            match spec_expect(ts, at_fifth, SpecToken::Semicolon) {
                                Err(e) => Err(e),
                                Ok(end) => Ok(
                                    (
                                        SpecExternFunctionDef { name, params, return_type, library },
                                        end,
                                    ),
                                ),
                            }
                        },
                    },
                },
            },
        },
    }
}

/// The stage that a token names.
pub open spec fn spec_stage(t: SpecToken) -> Option<ShaderStage> {
    match t {
        SpecToken::Vertex => Some(ShaderStage::Vertex),
        SpecToken::Fragment => Some(ShaderStage::Fragment),
        SpecToken::Compute => Some(ShaderStage::Compute),
        SpecToken::Geometry => Some(ShaderStage::Geometry),
        SpecToken::TessellationControl => Some(ShaderStage::TessellationControl),
        SpecToken::TessellationEvaluation => Some(ShaderStage::TessellationEvaluation),
        _ => None,
    }
}

/// Position of the first closing brace at or after `pos`; the end of the
/// tokens where there is none.
pub open spec fn spec_closing_brace(ts: Seq<SpecToken>, pos: int) -> int
    decreases ts.len() - pos,
{
    if 0 <= pos < ts.len() && ts[pos] != SpecToken::RBrace {
        spec_closing_brace(ts, pos + 1)
    } else {
        pos
    }
}

/// A shader after `shader`: the stage, the name, the path, and at will a
/// block in braces, whose content is passed over.
pub open spec fn spec_parse_shader(ts: Seq<SpecToken>, pos: int) -> SpecParse<SpecShaderDef> {
    match at(ts, pos) {
        None => Err(spec_error(SpecSyntaxErrorKind::ExpectedShaderStage, ts, pos)),
        Some(t) => match spec_stage(t) {
            None => Err(spec_error(SpecSyntaxErrorKind::ExpectedShaderStage, ts, pos)),
            Some(stage) => match spec_expect_ident(ts, pos + 1) {
                Err(e) => Err(e),
                Ok((name, p)) => match at(ts, p) {
                    Some(SpecToken::StringLit(path)) => {
                        let shader = SpecShaderDef { name, stage, path };
                        if at(ts, p + 1) == Some(SpecToken::LBrace) {
                            match spec_expect(
                                ts,
                                spec_closing_brace(ts, p + 2),
                                SpecToken::RBrace,
                            ) {
                                Err(e) => Err(e),
                                Ok(end) => Ok((shader, end)),
                            }
                        } else {
                            Ok((shader, p + 1))
                        }
                    },
                    _ => Err(spec_error(SpecSyntaxErrorKind::ExpectedShaderPath, ts, p)),
                },
            },
        },
    }
}

/// The functions of a system up to the closing brace, put after `acc`.
pub open spec fn spec_system_functions(
    ts: Seq<SpecToken>,
    pos: int,
    acc: Seq<SpecFunctionDef>,
) -> SpecParse<Seq<SpecFunctionDef>>
    decreases ts.len() - pos,
{
    if at(ts, pos) == Some(SpecToken::RBrace) {
        Ok((acc, pos + 1))
    } else if at(ts, pos) == Some(SpecToken::Fn) {
        match spec_parse_function(ts, pos + 1) {
            Err(e) => Err(e),
            Ok((function, p)) => if moved(ts, pos, p) {
                spec_system_functions(ts, p, acc.push(function))
            } else {
                Err(spec_error(SpecSyntaxErrorKind::ExpectedFunctionInSystem, ts, p))
            },
        }
    } else {
        Err(spec_error(SpecSyntaxErrorKind::ExpectedFunctionInSystem, ts, pos))
    }
}

/// A system after `system`: the name and functions in braces.
pub open spec fn spec_parse_system(ts: Seq<SpecToken>, pos: int) -> SpecParse<SpecSystemDef> {
    match spec_expect_ident(ts, pos) {
        Err(e) => Err(e),
        Ok((name, at_first)) => match spec_expect(ts, at_first, SpecToken::LBrace) {
            Err(e) => Err(e),
            Ok(at_second) => match spec_system_functions(ts, at_second, Seq::empty()) {
                Err(e) => Err(e),
                Ok((functions, end)) => Ok(
                    (SpecSystemDef { name, functions, attribute: None }, end),
                ),
            },
        },
    }
}

/// A type alias after `type`: `name = type;`.
pub open spec fn spec_parse_alias(ts: Seq<SpecToken>, pos: int) -> SpecParse<SpecTypeAliasDef> {
    match spec_expect_ident(ts, pos) {
        Err(e) => Err(e),
        Ok((name, at_first)) => match spec_expect(ts, at_first, SpecToken::Eq) {
            Err(e) => Err(e),
            Ok(at_second) => match spec_parse_type(ts, at_second) {
                Err(e) => Err(e),
                Ok((target_type, at_third)) => match spec_expect(ts, at_third, SpecToken::Semicolon) {
                    Err(e) => Err(e),
                    Ok(end) => Ok((SpecTypeAliasDef { name, target_type }, end)),
                },
            },
        },
    }
}

/// The path of an inclusion after `include`: a string and a semicolon.
pub open spec fn spec_parse_include(ts: Seq<SpecToken>, pos: int) -> SpecParse<Seq<char>> {
    match at(ts, pos) {
        Some(SpecToken::StringLit(path)) => match spec_expect(ts, pos + 1, SpecToken::Semicolon) {
            Err(e) => Err(e),
            Ok(end) => Ok((path, end)),
        },
        _ => Err(spec_error(SpecSyntaxErrorKind::ExpectedIncludePath, ts, pos)),
    }
}

/// What stands at the top level of a file: an item, or the inclusion of
/// another file.
pub enum SpecParsedItem {
    Item(SpecItem),
    Include(Seq<char>),
}

/// What stands at `pos` at the top level of a file.
pub open spec fn spec_parse_item(ts: Seq<SpecToken>, pos: int) -> SpecParse<SpecParsedItem> {
    match at(ts, pos) {
        Some(SpecToken::Struct) => match spec_parse_record(ts, pos + 1) {
            Err(e) => Err(e),
            Ok((d, end)) => Ok((SpecParsedItem::Item(SpecItem::Struct(d)), end)),
        },
        Some(SpecToken::Component) => match spec_parse_record(ts, pos + 1) {
            Err(e) => Err(e),
            Ok((d, end)) => Ok((SpecParsedItem::Item(SpecItem::Component(d)), end)),
        },
        Some(SpecToken::MeshSOA) => match spec_parse_record(ts, pos + 1) {
            Err(e) => Err(e),
            Ok((d, end)) => Ok((SpecParsedItem::Item(SpecItem::MeshSOA(d)), end)),
        },
        Some(SpecToken::ComponentSOA) => match spec_parse_record(ts, pos + 1) {
            Err(e) => Err(e),
            Ok((d, end)) => Ok((SpecParsedItem::Item(SpecItem::ComponentSOA(d)), end)),
        },
        Some(SpecToken::Shader) => match spec_parse_shader(ts, pos + 1) {
            Err(e) => Err(e),
            Ok((d, end)) => Ok((SpecParsedItem::Item(SpecItem::Shader(d)), end)),
        },
        Some(SpecToken::System) => match spec_parse_system(ts, pos + 1) {
            Err(e) => Err(e),
            Ok((d, end)) => Ok((SpecParsedItem::Item(SpecItem::System(d)), end)),
        },
        Some(SpecToken::Extern) => match spec_parse_extern(ts, pos + 1) {
            Err(e) => Err(e),
            Ok((d, end)) => Ok((SpecParsedItem::Item(SpecItem::ExternFunction(d)), end)),
        },
        Some(SpecToken::Type) => match spec_parse_alias(ts, pos + 1) {
            Err(e) => Err(e),
            Ok((d, end)) => Ok((SpecParsedItem::Item(SpecItem::TypeAlias(d)), end)),
        },
        Some(SpecToken::Include) => match spec_parse_include(ts, pos + 1) {
            Err(e) => Err(e),
            Ok((path, end)) => Ok((SpecParsedItem::Include(path), end)),
        },
        Some(SpecToken::Fn) => match spec_parse_function(ts, pos + 1) {
            Err(e) => Err(e),
            Ok((d, end)) => Ok((SpecParsedItem::Item(SpecItem::Function(d)), end)),
        },
        _ => Err(spec_error(SpecSyntaxErrorKind::UnexpectedItem, ts, pos)),
    }
}

} // verus!
