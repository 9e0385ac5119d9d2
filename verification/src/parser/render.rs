//! Writing a program as tokens, and reading it back.
//!
//! Every node of the tree has a way of being written as tokens from which the
//! grammar reads the same node again: an expression goes in parentheses, so
//! that nothing depends on what stands around it.

use crate::ast::{
    BinaryOp, SpecExpression, SpecField, SpecFunctionDef, SpecExternFunctionDef, SpecItem,
    SpecLiteral, SpecRecord, SpecShaderDef, SpecStatement, SpecSystemAttribute, SpecSystemDef,
    SpecType, SpecTypeAliasDef, ShaderStage, UnaryOp,
};
use crate::error::SpecSyntaxError;
use crate::lexer::written::{are_written_tokens, lemma_tokenize_written, spec_tokens_text};
use crate::lexer::{spec_tokenize, SpecToken};
use crate::error::LexicalError;
use crate::parser::{
    spec_nearer, spec_run, spec_step, with_top, SpecFilePlace, SpecFrame, SpecParseError,
    SpecParseStep, SpecParser, SpecProgress,
};
use crate::parser::grammar::{
    spec_attribute, spec_constraints, spec_fields, spec_library, spec_param_list, spec_params,
    spec_parse_alias, spec_parse_default, spec_parse_extern, spec_parse_field, spec_parse_function,
    spec_parse_item, spec_parse_record, spec_parse_shader, spec_parse_system,
    spec_system_attribute, spec_system_functions, SpecParsedItem,
};
use crate::parser::grammar::{
    at, is_byte_unit, moved, spec_arg_list, spec_args, spec_binary_op, spec_binary_rest,
    spec_is_named, spec_named_args, spec_parse_binary, spec_parse_call, spec_parse_expression,
    spec_parse_primary, spec_parse_block, spec_parse_condition, spec_parse_statement,
    spec_parse_type, spec_parse_unary, spec_postfix, spec_statements, spec_type_list,
    spec_unit_suffix, uppercase_of,
};
use vstd::prelude::*;

verus! {

/// Whether the tokens `piece` stand at position `pos` of `ts`.
pub open spec fn stands_at(ts: Seq<SpecToken>, pos: int, piece: Seq<SpecToken>) -> bool {
    0 <= pos && pos + piece.len() <= ts.len() && forall|i: int|
        0 <= i < piece.len() ==> ts[pos + i] == #[trigger] piece[i]
}

/// Two pieces stand one after the other exactly when their concatenation stands.
pub proof fn lemma_stands_concat(ts: Seq<SpecToken>, pos: int, a: Seq<SpecToken>, b: Seq<SpecToken>)
    ensures
        stands_at(ts, pos, a + b) <==> stands_at(ts, pos, a) && stands_at(ts, pos + a.len(), b),
{
    if stands_at(ts, pos, a + b) {
        assert forall|i: int| 0 <= i < a.len() implies ts[pos + i] == #[trigger] a[i] by {
            assert((a + b)[i] == a[i]);
        }
        assert forall|i: int| 0 <= i < b.len() implies ts[pos + a.len() + i] == #[trigger] b[i] by {
            assert((a + b)[a.len() + i] == b[i]);
        }
    }
    if stands_at(ts, pos, a) && stands_at(ts, pos + a.len(), b) {
        assert forall|i: int| 0 <= i < (a + b).len() implies ts[pos + i] == #[trigger] (a + b)[i] by {
            if i < a.len() {
                assert(a[i] == (a + b)[i]);
            } else {
                assert(b[i - a.len()] == (a + b)[i]);
                assert(ts[pos + a.len() + (i - a.len())] == b[i - a.len()]);
            }
        }
    }
}

/// The token of a piece of one token stands where the piece stands.
pub proof fn lemma_stands_one(ts: Seq<SpecToken>, pos: int, t: SpecToken)
    ensures
        stands_at(ts, pos, seq![t]) <==> at(ts, pos) == Some(t),
{
    if stands_at(ts, pos, seq![t]) {
        assert(ts[pos + 0] == seq![t][0]);
    }
}

/// The tokens of a type.
pub open spec fn spec_type_tokens(t: SpecType) -> Seq<SpecToken>
    decreases t, 0nat,
{
    match t {
        SpecType::I32 => seq![SpecToken::I32],
        SpecType::I64 => seq![SpecToken::I64],
        SpecType::F32 => seq![SpecToken::F32],
        SpecType::F64 => seq![SpecToken::F64],
        SpecType::Bool => seq![SpecToken::Bool],
        SpecType::String => seq![SpecToken::String],
        SpecType::Void => seq![SpecToken::Void],
        SpecType::VkInstance => seq![SpecToken::VkInstance],
        SpecType::VkDevice => seq![SpecToken::VkDevice],
        SpecType::VkResult => seq![SpecToken::VkResult],
        SpecType::VkPhysicalDevice => seq![SpecToken::VkPhysicalDevice],
        SpecType::VkQueue => seq![SpecToken::VkQueue],
        SpecType::VkCommandPool => seq![SpecToken::VkCommandPool],
        SpecType::VkCommandBuffer => seq![SpecToken::VkCommandBuffer],
        SpecType::VkSwapchainKHR => seq![SpecToken::VkSwapchainKHR],
        SpecType::VkSurfaceKHR => seq![SpecToken::VkSurfaceKHR],
        SpecType::VkRenderPass => seq![SpecToken::VkRenderPass],
        SpecType::VkPipeline => seq![SpecToken::VkPipeline],
        SpecType::VkFramebuffer => seq![SpecToken::VkFramebuffer],
        SpecType::VkBuffer => seq![SpecToken::VkBuffer],
        SpecType::VkImage => seq![SpecToken::VkImage],
        SpecType::VkImageView => seq![SpecToken::VkImageView],
        SpecType::VkSemaphore => seq![SpecToken::VkSemaphore],
        SpecType::VkFence => seq![SpecToken::VkFence],
        SpecType::GLFWwindow => seq![SpecToken::GLFWwindow],
        SpecType::GLFWbool => seq![SpecToken::GLFWbool],
        SpecType::Vec2 => seq![SpecToken::Vec2],
        SpecType::Vec3 => seq![SpecToken::Vec3],
        SpecType::Vec4 => seq![SpecToken::Vec4],
        SpecType::Mat4 => seq![SpecToken::Mat4],
        SpecType::Camera => seq![SpecToken::Camera],
        SpecType::FrameArena => seq![SpecToken::FrameArena],
        SpecType::Struct(n) => seq![SpecToken::Ident(n)],
        SpecType::Component(n) => seq![SpecToken::Ident(n)],
        SpecType::MeshSOA(n) => seq![SpecToken::Ident(n)],
        SpecType::ComponentSOA(n) => seq![SpecToken::Ident(n)],
        SpecType::Shader(n) => seq![SpecToken::Ident(n)],
        SpecType::Array(e) => seq![SpecToken::LBracket] + spec_type_tokens(*e) + seq![
            SpecToken::RBracket,
        ],
        SpecType::Query(ts) => seq![SpecToken::Query, SpecToken::Lt] + spec_type_list_tokens(ts, 0)
            + seq![SpecToken::Gt],
    }
}

/// The tokens of the types from the `from`-th on, with commas between them.
pub open spec fn spec_type_list_tokens(ts: Seq<SpecType>, from: nat) -> Seq<SpecToken>
    decreases ts, ts.len() - from,
{
    if from >= ts.len() {
        Seq::empty()
    } else if from + 1 == ts.len() {
        spec_type_tokens(ts[from as int])
    } else {
        spec_type_tokens(ts[from as int]) + seq![SpecToken::Comma] + spec_type_list_tokens(
            ts,
            from + 1,
        )
    }
}

/// The types that source text can name: a name is that of a struct until the
/// program is checked, and a query has a component type.
pub open spec fn is_written_type(t: SpecType) -> bool
    decreases t,
{
    match t {
        SpecType::Component(_) => false,
        SpecType::MeshSOA(_) => false,
        SpecType::ComponentSOA(_) => false,
        SpecType::Shader(_) => false,
        SpecType::Array(e) => is_written_type(*e),
        SpecType::Query(ts) => ts.len() > 0 && forall|i: int|
            0 <= i < ts.len() ==> is_written_type(#[trigger] ts[i]),
        _ => true,
    }
}

/// A type is written with at least one token.
pub proof fn lemma_type_tokens_nonempty(t: SpecType)
    ensures
        spec_type_tokens(t).len() > 0,
{
}

/// Reading the tokens of a type gives the type.
pub proof fn lemma_parse_type(t: SpecType, ts: Seq<SpecToken>, pos: int)
    requires
        is_written_type(t),
        stands_at(ts, pos, spec_type_tokens(t)),
    ensures
        spec_parse_type(ts, pos) == Ok::<(SpecType, int), SpecSyntaxError>(
            (t, pos + spec_type_tokens(t).len()),
        ),
    decreases t, 0nat,
{
    let piece = spec_type_tokens(t);
    assert(ts[pos + 0] == piece[0]);
    match t {
        SpecType::Array(e) => {
            let inner = spec_type_tokens(*e);
            lemma_stands_concat(ts, pos, seq![SpecToken::LBracket] + inner, seq![SpecToken::RBracket]);
            lemma_stands_concat(ts, pos, seq![SpecToken::LBracket], inner);
            lemma_parse_type(*e, ts, pos + 1);
            lemma_stands_one(ts, pos + 1 + inner.len(), SpecToken::RBracket);
        },
        SpecType::Query(types) => {
            let list = spec_type_list_tokens(types, 0);
            let head = seq![SpecToken::Query, SpecToken::Lt];
            lemma_stands_concat(ts, pos, head + list, seq![SpecToken::Gt]);
            lemma_stands_concat(ts, pos, head, list);
            assert(ts[pos + 1] == head[1]);
            lemma_stands_one(ts, pos + 2 + list.len(), SpecToken::Gt);
            lemma_parse_type_list(types, 0, ts, pos + 2, Seq::empty());
            assert(Seq::<SpecType>::empty() + types.skip(0) =~= types);
        },
        _ => {},
    }
}

/// Reading the tokens of a list of types, where no comma follows them, gives
/// the types.
pub proof fn lemma_parse_type_list(
    types: Seq<SpecType>,
    from: nat,
    ts: Seq<SpecToken>,
    pos: int,
    acc: Seq<SpecType>,
)
    requires
        from < types.len(),
        forall|i: int| 0 <= i < types.len() ==> is_written_type(#[trigger] types[i]),
        stands_at(ts, pos, spec_type_list_tokens(types, from)),
        at(ts, pos + spec_type_list_tokens(types, from).len()) != Some(SpecToken::Comma),
    ensures
        spec_type_list(ts, pos, acc) == Ok::<(Seq<SpecType>, int), SpecSyntaxError>(
            (acc + types.skip(from as int), pos + spec_type_list_tokens(types, from).len()),
        ),
    decreases types, types.len() - from,
{
    let first = spec_type_tokens(types[from as int]);
    lemma_type_tokens_nonempty(types[from as int]);
    if from + 1 == types.len() {
        lemma_parse_type(types[from as int], ts, pos);
        assert(acc.push(types[from as int]) =~= acc + types.skip(from as int));
    } else {
        let rest = spec_type_list_tokens(types, from + 1);
        lemma_stands_concat(ts, pos, first + seq![SpecToken::Comma], rest);
        lemma_stands_concat(ts, pos, first, seq![SpecToken::Comma]);
        lemma_stands_one(ts, pos + first.len(), SpecToken::Comma);
        lemma_parse_type(types[from as int], ts, pos);
        lemma_parse_type_list(
            types,
            from + 1,
            ts,
            pos + first.len() + 1,
            acc.push(types[from as int]),
        );
        assert(acc.push(types[from as int]) + types.skip((from + 1) as int) =~= acc + types.skip(
            from as int,
        ));
    }
}

/// The token of a binary operator.
pub open spec fn spec_op_token(op: BinaryOp) -> SpecToken {
    match op {
        BinaryOp::Add => SpecToken::Plus,
        BinaryOp::Sub => SpecToken::Minus,
        BinaryOp::Mul => SpecToken::Star,
        BinaryOp::Div => SpecToken::Slash,
        BinaryOp::Mod => SpecToken::Percent,
        BinaryOp::Eq => SpecToken::EqEq,
        BinaryOp::Ne => SpecToken::Ne,
        BinaryOp::Lt => SpecToken::Lt,
        BinaryOp::Le => SpecToken::Le,
        BinaryOp::Gt => SpecToken::Gt,
        BinaryOp::Ge => SpecToken::Ge,
        BinaryOp::And => SpecToken::AndAnd,
        BinaryOp::Or => SpecToken::OrOr,
        BinaryOp::BitwiseOr => SpecToken::Pipe,
        BinaryOp::Pipe => SpecToken::PipeOp,
    }
}

/// The precedence level of a binary operator.
pub open spec fn spec_op_level(op: BinaryOp) -> nat {
    match op {
        BinaryOp::Or => 0,
        BinaryOp::Pipe => 1,
        BinaryOp::And => 2,
        BinaryOp::Eq => 3,
        BinaryOp::Ne => 3,
        BinaryOp::Lt => 4,
        BinaryOp::Le => 4,
        BinaryOp::Gt => 4,
        BinaryOp::Ge => 4,
        BinaryOp::BitwiseOr => 5,
        BinaryOp::Add => 6,
        BinaryOp::Sub => 6,
        BinaryOp::Mul => 7,
        BinaryOp::Div => 7,
        BinaryOp::Mod => 7,
    }
}

/// Whether nothing of an expression goes on at position `q`, as far as the
/// levels from `level` on and what follows a primary expression are
/// concerned: no operator of these levels stands there, and no parenthesis,
/// point or bracket.
pub open spec fn is_quiet(ts: Seq<SpecToken>, q: int, level: nat) -> bool {
    &&& at(ts, q) != Some(SpecToken::LParen)
    &&& at(ts, q) != Some(SpecToken::Dot)
    &&& at(ts, q) != Some(SpecToken::LBracket)
    &&& forall|l: nat| level <= l < 8 ==> #[trigger] spec_binary_op(ts, q, l) is None
}

/// The tokens after which no expression goes on: none at all, a closing
/// parenthesis, bracket or brace, an opening brace, a comma, a semicolon, `=`.
pub open spec fn is_closing(t: Option<SpecToken>) -> bool {
    t is None || t == Some(SpecToken::RParen) || t == Some(SpecToken::RBracket) || t == Some(
        SpecToken::RBrace,
    ) || t == Some(SpecToken::LBrace) || t == Some(SpecToken::Comma) || t == Some(
        SpecToken::Semicolon,
    ) || t == Some(SpecToken::Eq)
}

/// After a closing token nothing of an expression goes on at any level.
pub proof fn lemma_closing_is_quiet(ts: Seq<SpecToken>, q: int)
    requires
        is_closing(at(ts, q)),
    ensures
        is_quiet(ts, q, 0),
{
}

/// An operator stands at its own level and at no other; the levels above its
/// own are quiet there.
pub proof fn lemma_op_at(ts: Seq<SpecToken>, q: int, op: BinaryOp)
    requires
        at(ts, q) == Some(spec_op_token(op)),
        at(ts, q + 1) != Some(SpecToken::Gt),
    ensures
        spec_binary_op(ts, q, spec_op_level(op)) == Some(op),
        is_quiet(ts, q, spec_op_level(op) + 1),
{
}

/// The tokens of an expression without the parentheses around them.
pub open spec fn spec_expr_core(e: SpecExpression) -> Seq<SpecToken>
    decreases e, 0nat,
{
    match e {
        SpecExpression::Literal(l) => match l {
            SpecLiteral::Int(n) => seq![SpecToken::Int(n)],
            SpecLiteral::Float(t) => seq![SpecToken::Float(t)],
            SpecLiteral::Bool(b) => if b {
                seq![SpecToken::True]
            } else {
                seq![SpecToken::False]
            },
            SpecLiteral::String(t) => seq![SpecToken::StringLit(t)],
        },
        SpecExpression::Variable(n) => seq![SpecToken::Ident(n)],
        SpecExpression::BinaryOp { op, left, right } => spec_expr_tokens(*left) + seq![
            spec_op_token(op),
        ] + spec_expr_tokens(*right),
        SpecExpression::UnaryOp { op, expr } => seq![
            match op {
                UnaryOp::Not => SpecToken::Bang,
                UnaryOp::Neg => SpecToken::Minus,
            },
        ] + spec_expr_tokens(*expr),
        SpecExpression::Call { name, args } => seq![SpecToken::Ident(name), SpecToken::LParen]
            + spec_args_tokens(args, 0) + seq![SpecToken::RParen],
        SpecExpression::NamedCall { name, named_args } => seq![
            SpecToken::Ident(name),
            SpecToken::LParen,
        ] + spec_named_args_tokens(named_args, 0) + seq![SpecToken::RParen],
        SpecExpression::MemberAccess { object, member } => spec_expr_tokens(*object) + seq![
            SpecToken::Dot,
            SpecToken::Ident(member),
        ],
        SpecExpression::MethodCall { object, method, type_args, args } => spec_expr_tokens(*object)
            + seq![SpecToken::Dot, SpecToken::Ident(method)] + (match type_args {
            Some(types) => seq![SpecToken::Lt] + spec_type_list_tokens(types, 0) + seq![
                SpecToken::Gt,
            ],
            None => Seq::empty(),
        }) + seq![SpecToken::LParen] + spec_args_tokens(args, 0) + seq![SpecToken::RParen],
        SpecExpression::Index { array, index } => spec_expr_tokens(*array) + seq![
            SpecToken::LBracket,
        ] + spec_expr_tokens(*index) + seq![SpecToken::RBracket],
        SpecExpression::StructLiteral { .. } => Seq::empty(),
        SpecExpression::EnumLiteral(_) => Seq::empty(),
        SpecExpression::UnitSuffix { value, unit } => spec_expr_core(*value) + seq![
            SpecToken::Dot,
            SpecToken::Ident(unit),
        ],
    }
}

/// The tokens of an expression: in parentheses.
pub open spec fn spec_expr_tokens(e: SpecExpression) -> Seq<SpecToken>
    decreases e, 1nat,
{
    seq![SpecToken::LParen] + spec_expr_core(e) + seq![SpecToken::RParen]
}

/// The tokens of the expressions from the `from`-th on, with commas between them.
pub open spec fn spec_args_tokens(es: Seq<SpecExpression>, from: nat) -> Seq<SpecToken>
    decreases es, es.len() - from,
{
    if from >= es.len() {
        Seq::empty()
    } else if from + 1 == es.len() {
        spec_expr_tokens(es[from as int])
    } else {
        spec_expr_tokens(es[from as int]) + seq![SpecToken::Comma] + spec_args_tokens(es, from + 1)
    }
}

/// The tokens of the named arguments from the `from`-th on, with commas
/// between them.
pub open spec fn spec_named_args_tokens(es: Seq<(Seq<char>, SpecExpression)>, from: nat) -> Seq<
    SpecToken,
>
    decreases es, es.len() - from,
{
    if from >= es.len() {
        Seq::empty()
    } else if from + 1 == es.len() {
        seq![SpecToken::Ident(es[from as int].0), SpecToken::Eq] + spec_expr_tokens(
            es[from as int].1,
        )
    } else {
        seq![SpecToken::Ident(es[from as int].0), SpecToken::Eq] + spec_expr_tokens(
            es[from as int].1,
        ) + seq![SpecToken::Comma] + spec_named_args_tokens(es, from + 1)
    }
}

/// The expressions that source text can hold: no literal of a struct or of
/// an enumeration, which have no syntax; a call with named arguments names
/// one at least; type arguments name one type at least; a unit goes with a
/// number and is written in the upper case that the parser gives it.
pub open spec fn is_written_expr(e: SpecExpression) -> bool
    decreases e,
{
    match e {
        SpecExpression::Literal(_) => true,
        SpecExpression::Variable(_) => true,
        SpecExpression::BinaryOp { op, left, right } => is_written_expr(*left) && is_written_expr(
            *right,
        ),
        SpecExpression::UnaryOp { op, expr } => is_written_expr(*expr),
        SpecExpression::Call { name, args } => forall|i: int|
            0 <= i < args.len() ==> is_written_expr(#[trigger] args[i]),
        SpecExpression::NamedCall { name, named_args } => named_args.len() > 0 && forall|i: int|
            0 <= i < named_args.len() ==> is_written_expr((#[trigger] named_args[i]).1),
        SpecExpression::MemberAccess { object, member } => is_written_expr(*object),
        SpecExpression::MethodCall { object, method, type_args, args } => {
            &&& is_written_expr(*object)
            &&& match type_args {
                Some(types) => types.len() > 0 && forall|i: int|
                    0 <= i < types.len() ==> is_written_type(#[trigger] types[i]),
                None => true,
            }
            &&& forall|i: int| 0 <= i < args.len() ==> is_written_expr(#[trigger] args[i])
        },
        SpecExpression::Index { array, index } => is_written_expr(*array) && is_written_expr(
            *index,
        ),
        SpecExpression::StructLiteral { .. } => false,
        SpecExpression::EnumLiteral(_) => false,
        SpecExpression::UnitSuffix { value, unit } => {
            &&& *value matches SpecExpression::Literal(l) && (l is Int || l is Float)
            &&& is_byte_unit(unit)
            &&& uppercase_of(unit) == unit
        },
    }
}

/// What was read at one level is what is read at a looser level, where no
/// operator of the levels between stands after it.
pub proof fn lemma_climb(
    ts: Seq<SpecToken>,
    pos: int,
    lo: nat,
    hi: nat,
    x: SpecExpression,
    end: int,
)
    requires
        lo <= hi <= 8,
        moved(ts, pos, end),
        spec_parse_binary(ts, pos, hi) == Ok::<(SpecExpression, int), SpecSyntaxError>((x, end)),
        forall|l: nat| lo <= l < hi ==> #[trigger] spec_binary_op(ts, end, l) is None,
    ensures
        spec_parse_binary(ts, pos, lo) == Ok::<(SpecExpression, int), SpecSyntaxError>((x, end)),
    decreases hi - lo,
{
    if lo < hi {
        lemma_climb(ts, pos, lo + 1, hi, x, end);
        assert(spec_binary_op(ts, end, lo) is None);
        assert(spec_binary_rest(ts, end, lo, x) == Ok::<(SpecExpression, int), SpecSyntaxError>(
            (x, end),
        ));
    }
}

/// What was read as a primary expression with what follows it is the whole
/// expression, where no unary operator stands before it and nothing goes on
/// after it.
pub proof fn lemma_call_is_expression(
    ts: Seq<SpecToken>,
    pos: int,
    level: nat,
    x: SpecExpression,
    end: int,
)
    requires
        level <= 8,
        moved(ts, pos, end),
        at(ts, pos) != Some(SpecToken::Bang),
        at(ts, pos) != Some(SpecToken::Minus),
        spec_parse_call(ts, pos) == Ok::<(SpecExpression, int), SpecSyntaxError>((x, end)),
        is_quiet(ts, end, level),
    ensures
        spec_parse_binary(ts, pos, level) == Ok::<(SpecExpression, int), SpecSyntaxError>((x, end)),
{
    assert(spec_parse_unary(ts, pos) == spec_parse_call(ts, pos));
    assert(spec_parse_binary(ts, pos, 8) == spec_parse_unary(ts, pos));
    lemma_climb(ts, pos, level, 8, x, end);
}

/// The outcome `Ok((x, end))` of reading an expression.
pub open spec fn read(x: SpecExpression, end: int) -> Result<(SpecExpression, int), SpecSyntaxError> {
    Ok((x, end))
}

/// A literal or a name before a closing parenthesis is read as itself.
proof fn lemma_atom_parses(ts: Seq<SpecToken>, pos: int, e: SpecExpression)
    requires
        e is Literal || e is Variable,
        stands_at(ts, pos, spec_expr_core(e)),
        at(ts, pos + 1) == Some(SpecToken::RParen),
    ensures
        spec_parse_expression(ts, pos) == read(e, pos + 1),
{
    assert(ts[pos + 0] == spec_expr_core(e)[0]);
    lemma_closing_is_quiet(ts, pos + 1);
    assert(spec_parse_primary(ts, pos) == read(e, pos + 1));
    assert(spec_postfix(ts, pos + 1, e) == read(e, pos + 1));
    assert(spec_parse_call(ts, pos) == read(e, pos + 1));
    lemma_call_is_expression(ts, pos, 0, e, pos + 1);
}

/// The token of a numeric literal.
pub open spec fn spec_number_token(l: SpecLiteral) -> SpecToken {
    match l {
        SpecLiteral::Int(n) => SpecToken::Int(n),
        SpecLiteral::Float(t) => SpecToken::Float(t),
        SpecLiteral::Bool(_) => SpecToken::True,
        SpecLiteral::String(t) => SpecToken::StringLit(t),
    }
}

/// A number with a unit before a closing parenthesis is read as itself.
proof fn lemma_unit_parses(ts: Seq<SpecToken>, pos: int, l: SpecLiteral, unit: Seq<char>)
    requires
        l is Int || l is Float,
        is_byte_unit(unit),
        uppercase_of(unit) == unit,
        at(ts, pos) == Some(spec_number_token(l)),
        at(ts, pos + 1) == Some(SpecToken::Dot),
        at(ts, pos + 2) == Some(SpecToken::Ident(unit)),
        at(ts, pos + 3) == Some(SpecToken::RParen),
    ensures
        spec_parse_expression(ts, pos) == read(
            SpecExpression::UnitSuffix { value: Box::new(SpecExpression::Literal(l)), unit },
            pos + 3,
        ),
{
    let literal = SpecExpression::Literal(l);
    let e = SpecExpression::UnitSuffix { value: Box::new(literal), unit };
    lemma_closing_is_quiet(ts, pos + 3);
    assert(spec_unit_suffix(ts, pos + 1, literal) == (e, pos + 3));
    assert(spec_parse_primary(ts, pos) == read(e, pos + 3));
    assert(spec_postfix(ts, pos + 3, e) == read(e, pos + 3));
    assert(spec_parse_call(ts, pos) == read(e, pos + 3));
    lemma_call_is_expression(ts, pos, 0, e, pos + 3);
}

/// Two operands with an operator between them, before a closing
/// parenthesis, are read as the operator's application.
proof fn lemma_binary_parses(
    ts: Seq<SpecToken>,
    pos: int,
    op: BinaryOp,
    left: SpecExpression,
    right: SpecExpression,
    q: int,
    end: int,
)
    requires
        moved(ts, pos, q),
        moved(ts, q + 1, end),
        spec_parse_binary(ts, pos, spec_op_level(op) + 1) == read(left, q),
        at(ts, q) == Some(spec_op_token(op)),
        at(ts, q + 1) != Some(SpecToken::Gt),
        spec_parse_binary(ts, q + 1, spec_op_level(op) + 1) == read(right, end),
        at(ts, end) == Some(SpecToken::RParen),
    ensures
        spec_parse_expression(ts, pos) == read(
            SpecExpression::BinaryOp { op, left: Box::new(left), right: Box::new(right) },
            end,
        ),
{
    let level = spec_op_level(op);
    let joined = SpecExpression::BinaryOp { op, left: Box::new(left), right: Box::new(right) };
    lemma_op_at(ts, q, op);
    lemma_closing_is_quiet(ts, end);
    assert(spec_binary_op(ts, end, level) is None);
    assert(spec_binary_rest(ts, end, level, joined) == read(joined, end));
    assert(spec_binary_rest(ts, q, level, left) == read(joined, end));
    assert(spec_parse_binary(ts, pos, level) == read(joined, end));
    lemma_climb(ts, pos, 0, level, joined, end);
}

/// A unary operator before an operand, before a closing parenthesis, is read
/// as the operator's application.
proof fn lemma_unary_parses(
    ts: Seq<SpecToken>,
    pos: int,
    op: UnaryOp,
    operand: SpecExpression,
    end: int,
)
    requires
        moved(ts, pos + 1, end),
        at(ts, pos) == Some(
            match op {
                UnaryOp::Not => SpecToken::Bang,
                UnaryOp::Neg => SpecToken::Minus,
            },
        ),
        spec_parse_unary(ts, pos + 1) == read(operand, end),
        at(ts, end) == Some(SpecToken::RParen),
    ensures
        spec_parse_expression(ts, pos) == read(
            SpecExpression::UnaryOp { op, expr: Box::new(operand) },
            end,
        ),
{
    let joined = SpecExpression::UnaryOp { op, expr: Box::new(operand) };
    lemma_closing_is_quiet(ts, end);
    assert(spec_parse_unary(ts, pos) == read(joined, end));
    assert(spec_parse_binary(ts, pos, 8) == spec_parse_unary(ts, pos));
    lemma_climb(ts, pos, 0, 8, joined, end);
}

/// A name with arguments in parentheses, before a closing parenthesis, is
/// read as a call.
proof fn lemma_call_parses(
    ts: Seq<SpecToken>,
    pos: int,
    name: Seq<char>,
    args: Seq<SpecExpression>,
    end: int,
)
    requires
        at(ts, pos) == Some(SpecToken::Ident(name)),
        at(ts, pos + 1) == Some(SpecToken::LParen),
        !spec_is_named(ts, pos + 1),
        spec_args(ts, pos + 2) == Ok::<(Seq<SpecExpression>, int), SpecSyntaxError>((args, end)),
        moved(ts, pos + 2, end),
        at(ts, end) == Some(SpecToken::RParen),
    ensures
        spec_parse_expression(ts, pos) == read(SpecExpression::Call { name, args }, end),
{
    let call = SpecExpression::Call { name, args };
    lemma_closing_is_quiet(ts, end);
    assert(spec_parse_primary(ts, pos) == read(SpecExpression::Variable(name), pos + 1));
    assert(spec_postfix(ts, end, call) == read(call, end));
    assert(spec_postfix(ts, pos + 1, SpecExpression::Variable(name)) == read(call, end));
    assert(spec_parse_call(ts, pos) == read(call, end));
    lemma_call_is_expression(ts, pos, 0, call, end);
}

/// A name with named arguments in parentheses, before a closing
/// parenthesis, is read as a call with named arguments.
proof fn lemma_named_call_parses(
    ts: Seq<SpecToken>,
    pos: int,
    name: Seq<char>,
    named_args: Seq<(Seq<char>, SpecExpression)>,
    close: int,
)
    requires
        at(ts, pos) == Some(SpecToken::Ident(name)),
        at(ts, pos + 1) == Some(SpecToken::LParen),
        spec_is_named(ts, pos + 1),
        spec_named_args(ts, pos + 2, Seq::empty()) == Ok::<
            (Seq<(Seq<char>, SpecExpression)>, int),
            SpecSyntaxError,
        >((named_args, close)),
        moved(ts, pos + 2, close),
        at(ts, close) == Some(SpecToken::RParen),
        at(ts, close + 1) == Some(SpecToken::RParen),
    ensures
        spec_parse_expression(ts, pos) == read(
            SpecExpression::NamedCall { name, named_args },
            close + 1,
        ),
{
    let call = SpecExpression::NamedCall { name, named_args };
    let end = close + 1;
    lemma_closing_is_quiet(ts, end);
    assert(spec_parse_primary(ts, pos) == read(SpecExpression::Variable(name), pos + 1));
    assert(spec_postfix(ts, end, call) == read(call, end));
    assert(spec_postfix(ts, pos + 1, SpecExpression::Variable(name)) == read(call, end));
    assert(spec_parse_call(ts, pos) == read(call, end));
    lemma_call_is_expression(ts, pos, 0, call, end);
}

/// An expression in parentheses with a point and a name after it, before a
/// closing parenthesis, is read as a member access.
proof fn lemma_member_parses(
    ts: Seq<SpecToken>,
    pos: int,
    object: SpecExpression,
    member: Seq<char>,
    q: int,
)
    requires
        moved(ts, pos, q),
        at(ts, pos) == Some(SpecToken::LParen),
        spec_parse_primary(ts, pos) == read(object, q),
        at(ts, q) == Some(SpecToken::Dot),
        at(ts, q + 1) == Some(SpecToken::Ident(member)),
        at(ts, q + 2) == Some(SpecToken::RParen),
    ensures
        spec_parse_expression(ts, pos) == read(
            SpecExpression::MemberAccess { object: Box::new(object), member },
            q + 2,
        ),
{
    let access = SpecExpression::MemberAccess { object: Box::new(object), member };
    let end = q + 2;
    lemma_closing_is_quiet(ts, end);
    assert(spec_postfix(ts, end, access) == read(access, end));
    assert(spec_postfix(ts, q, object) == read(access, end));
    assert(spec_parse_call(ts, pos) == read(access, end));
    lemma_call_is_expression(ts, pos, 0, access, end);
}

/// An expression in parentheses with a point, a name, type arguments at
/// will and arguments in parentheses after it, before a closing
/// parenthesis, is read as a method call.
proof fn lemma_method_parses(
    ts: Seq<SpecToken>,
    pos: int,
    object: SpecExpression,
    method: Seq<char>,
    type_args: Option<Seq<SpecType>>,
    args: Seq<SpecExpression>,
    q: int,
    open: int,
    end: int,
)
    requires
        moved(ts, pos, q),
        at(ts, pos) == Some(SpecToken::LParen),
        spec_parse_primary(ts, pos) == read(object, q),
        at(ts, q) == Some(SpecToken::Dot),
        at(ts, q + 1) == Some(SpecToken::Ident(method)),
        match type_args {
            Some(types) => at(ts, q + 2) == Some(SpecToken::Lt) && spec_type_list(
                ts,
                q + 3,
                Seq::empty(),
            ) == Ok::<(Seq<SpecType>, int), SpecSyntaxError>((types, open - 1)) && at(ts, open - 1)
                == Some(SpecToken::Gt) && q + 3 < open,
            None => open == q + 2,
        },
        open < ts.len(),
        at(ts, open) == Some(SpecToken::LParen),
        spec_args(ts, open + 1) == Ok::<(Seq<SpecExpression>, int), SpecSyntaxError>((args, end)),
        moved(ts, open + 1, end),
        at(ts, end) == Some(SpecToken::RParen),
    ensures
        spec_parse_expression(ts, pos) == read(
            SpecExpression::MethodCall { object: Box::new(object), method, type_args, args },
            end,
        ),
{
    let call = SpecExpression::MethodCall { object: Box::new(object), method, type_args, args };
    lemma_closing_is_quiet(ts, end);
    assert(spec_postfix(ts, end, call) == read(call, end));
    assert(spec_postfix(ts, q, object) == read(call, end));
    assert(spec_parse_call(ts, pos) == read(call, end));
    lemma_call_is_expression(ts, pos, 0, call, end);
}

/// An expression in parentheses with an index in brackets after it, before
/// a closing parenthesis, is read as an indexing.
proof fn lemma_index_parses(
    ts: Seq<SpecToken>,
    pos: int,
    array: SpecExpression,
    index: SpecExpression,
    q: int,
    close: int,
)
    requires
        moved(ts, pos, q),
        at(ts, pos) == Some(SpecToken::LParen),
        spec_parse_primary(ts, pos) == read(array, q),
        at(ts, q) == Some(SpecToken::LBracket),
        spec_parse_expression(ts, q + 1) == read(index, close),
        moved(ts, q + 1, close),
        at(ts, close) == Some(SpecToken::RBracket),
        at(ts, close + 1) == Some(SpecToken::RParen),
    ensures
        spec_parse_expression(ts, pos) == read(
            SpecExpression::Index { array: Box::new(array), index: Box::new(index) },
            close + 1,
        ),
{
    let indexed = SpecExpression::Index { array: Box::new(array), index: Box::new(index) };
    let end = close + 1;
    lemma_closing_is_quiet(ts, end);
    assert(spec_postfix(ts, end, indexed) == read(indexed, end));
    assert(spec_postfix(ts, q, array) == read(indexed, end));
    assert(spec_parse_call(ts, pos) == read(indexed, end));
    lemma_call_is_expression(ts, pos, 0, indexed, end);
}

/// Where the tokens of an expression stand, the parentheses stand around
/// the tokens without them.
pub proof fn lemma_paren_stands(ts: Seq<SpecToken>, pos: int, e: SpecExpression)
    requires
        stands_at(ts, pos, spec_expr_tokens(e)),
    ensures
        spec_expr_tokens(e).len() == spec_expr_core(e).len() + 2,
        at(ts, pos) == Some(SpecToken::LParen),
        stands_at(ts, pos + 1, spec_expr_core(e)),
        at(ts, pos + 1 + spec_expr_core(e).len()) == Some(SpecToken::RParen),
{
    let core = spec_expr_core(e);
    lemma_stands_concat(ts, pos, seq![SpecToken::LParen] + core, seq![SpecToken::RParen]);
    lemma_stands_concat(ts, pos, seq![SpecToken::LParen], core);
    lemma_stands_one(ts, pos, SpecToken::LParen);
    lemma_stands_one(ts, pos + 1 + core.len(), SpecToken::RParen);
}

/// The case of a binary operator.
proof fn lemma_core_binary_op(e: SpecExpression, ts: Seq<SpecToken>, pos: int)
    requires
        e is BinaryOp,
        is_written_expr(e),
        stands_at(ts, pos, spec_expr_core(e)),
        at(ts, pos + spec_expr_core(e).len()) == Some(SpecToken::RParen),
    ensures
        spec_parse_expression(ts, pos) == read(e, pos + spec_expr_core(e).len()),
    decreases e, 1nat,
{
    let core = spec_expr_core(e);
    let end = pos + core.len();
    match e {
        SpecExpression::BinaryOp { op, left, right } => {
            let a = spec_expr_tokens(*left);
            let b = spec_expr_tokens(*right);
            let token = spec_op_token(op);
            let q = pos + a.len();
            lemma_stands_concat(ts, pos, a + seq![token], b);
            lemma_stands_concat(ts, pos, a, seq![token]);
            lemma_stands_one(ts, q, token);
            lemma_paren_stands(ts, pos, *left);
            lemma_paren_stands(ts, q + 1, *right);
            lemma_op_at(ts, q, op);
            lemma_closing_is_quiet(ts, end);
            lemma_parse_written(*left, ts, pos, spec_op_level(op) + 1);
            lemma_parse_written(*right, ts, q + 1, spec_op_level(op) + 1);
            lemma_binary_parses(ts, pos, op, *left, *right, q, end);
        },
        _ => {},
    }
}

/// The case of a unary operator.
proof fn lemma_core_unary_op(e: SpecExpression, ts: Seq<SpecToken>, pos: int)
    requires
        e is UnaryOp,
        is_written_expr(e),
        stands_at(ts, pos, spec_expr_core(e)),
        at(ts, pos + spec_expr_core(e).len()) == Some(SpecToken::RParen),
    ensures
        spec_parse_expression(ts, pos) == read(e, pos + spec_expr_core(e).len()),
    decreases e, 1nat,
{
    let core = spec_expr_core(e);
    let end = pos + core.len();
    match e {
        SpecExpression::UnaryOp { op, expr } => {
            let token = match op {
                UnaryOp::Not => SpecToken::Bang,
                UnaryOp::Neg => SpecToken::Minus,
            };
            let b = spec_expr_tokens(*expr);
            lemma_stands_concat(ts, pos, seq![token], b);
            lemma_stands_one(ts, pos, token);
            lemma_paren_stands(ts, pos + 1, *expr);
            lemma_closing_is_quiet(ts, end);
            lemma_parse_written(*expr, ts, pos + 1, 8);
            assert(spec_parse_binary(ts, pos + 1, 8) == spec_parse_unary(ts, pos + 1));
            lemma_unary_parses(ts, pos, op, *expr, end);
        },
        _ => {},
    }
}

/// The case of a call.
proof fn lemma_core_call(e: SpecExpression, ts: Seq<SpecToken>, pos: int)
    requires
        e is Call,
        is_written_expr(e),
        stands_at(ts, pos, spec_expr_core(e)),
        at(ts, pos + spec_expr_core(e).len()) == Some(SpecToken::RParen),
    ensures
        spec_parse_expression(ts, pos) == read(e, pos + spec_expr_core(e).len()),
    decreases e, 1nat,
{
    let core = spec_expr_core(e);
    let end = pos + core.len();
    match e {
        SpecExpression::Call { name, args } => {
            let head = seq![SpecToken::Ident(name), SpecToken::LParen];
            let list = spec_args_tokens(args, 0);
            lemma_stands_concat(ts, pos, head + list, seq![SpecToken::RParen]);
            lemma_stands_concat(ts, pos, head, list);
            assert(ts[pos + 0] == head[0] && ts[pos + 1] == head[1]);
            lemma_stands_concat(ts, pos + 2, list, seq![SpecToken::RParen]);
            lemma_stands_one(ts, pos + 2 + list.len(), SpecToken::RParen);
            lemma_parse_args_closed(args, ts, pos + 2);
            lemma_call_parses(ts, pos, name, args, end);
        },
        _ => {},
    }
}

/// The case of a call with named arguments.
proof fn lemma_core_named_call(e: SpecExpression, ts: Seq<SpecToken>, pos: int)
    requires
        e is NamedCall,
        is_written_expr(e),
        stands_at(ts, pos, spec_expr_core(e)),
        at(ts, pos + spec_expr_core(e).len()) == Some(SpecToken::RParen),
    ensures
        spec_parse_expression(ts, pos) == read(e, pos + spec_expr_core(e).len()),
    decreases e, 1nat,
{
    let core = spec_expr_core(e);
    let end = pos + core.len();
    match e {
        SpecExpression::NamedCall { name, named_args } => {
            let head = seq![SpecToken::Ident(name), SpecToken::LParen];
            let list = spec_named_args_tokens(named_args, 0);
            lemma_stands_concat(ts, pos, head + list, seq![SpecToken::RParen]);
            lemma_stands_concat(ts, pos, head, list);
            assert(ts[pos + 0] == head[0] && ts[pos + 1] == head[1]);
            lemma_stands_one(ts, pos + 2 + list.len(), SpecToken::RParen);
            lemma_parse_named_args(named_args, 0, ts, pos + 2, Seq::empty());
            assert(Seq::<(Seq<char>, SpecExpression)>::empty() + named_args.skip(0) =~= named_args);
            lemma_named_starts(named_args, 0, ts, pos + 2);
            lemma_named_call_parses(ts, pos, name, named_args, pos + 2 + list.len());
        },
        _ => {},
    }
}

/// The case of a member access.
proof fn lemma_core_member_access(e: SpecExpression, ts: Seq<SpecToken>, pos: int)
    requires
        e is MemberAccess,
        is_written_expr(e),
        stands_at(ts, pos, spec_expr_core(e)),
        at(ts, pos + spec_expr_core(e).len()) == Some(SpecToken::RParen),
    ensures
        spec_parse_expression(ts, pos) == read(e, pos + spec_expr_core(e).len()),
    decreases e, 1nat,
{
    let core = spec_expr_core(e);
    let end = pos + core.len();
    match e {
        SpecExpression::MemberAccess { object, member } => {
            let a = spec_expr_tokens(*object);
            let tail = seq![SpecToken::Dot, SpecToken::Ident(member)];
            let q = pos + a.len();
            lemma_stands_concat(ts, pos, a, tail);
            assert(ts[q + 0] == tail[0] && ts[q + 1] == tail[1]);
            lemma_paren_stands(ts, pos, *object);
            lemma_parse_primary(*object, ts, pos);
            lemma_member_parses(ts, pos, *object, member, q);
        },
        _ => {},
    }
}

/// The case of a method call.
proof fn lemma_core_method_call(e: SpecExpression, ts: Seq<SpecToken>, pos: int)
    requires
        e is MethodCall,
        is_written_expr(e),
        stands_at(ts, pos, spec_expr_core(e)),
        at(ts, pos + spec_expr_core(e).len()) == Some(SpecToken::RParen),
    ensures
        spec_parse_expression(ts, pos) == read(e, pos + spec_expr_core(e).len()),
    decreases e, 1nat,
{
    let core = spec_expr_core(e);
    let end = pos + core.len();
    match e {
        SpecExpression::MethodCall { object, method, type_args, args } => {
            let a = spec_expr_tokens(*object);
            let tail = seq![SpecToken::Dot, SpecToken::Ident(method)];
            let generic = match type_args {
                Some(types) => seq![SpecToken::Lt] + spec_type_list_tokens(types, 0) + seq![
                    SpecToken::Gt,
                ],
                None => Seq::empty(),
            };
            let list = spec_args_tokens(args, 0);
            let q = pos + a.len();
            let open = q + 2 + generic.len();
            lemma_stands_concat(
                ts,
                pos,
                a + tail + generic + seq![SpecToken::LParen] + list,
                seq![SpecToken::RParen],
            );
            lemma_stands_concat(ts, pos, a + tail + generic + seq![SpecToken::LParen], list);
            lemma_stands_concat(ts, pos, a + tail + generic, seq![SpecToken::LParen]);
            lemma_stands_concat(ts, pos, a + tail, generic);
            lemma_stands_concat(ts, pos, a, tail);
            assert(ts[q + 0] == tail[0] && ts[q + 1] == tail[1]);
            lemma_stands_one(ts, open, SpecToken::LParen);
            lemma_stands_concat(ts, open + 1, list, seq![SpecToken::RParen]);
            lemma_stands_one(ts, open + 1 + list.len(), SpecToken::RParen);
            lemma_paren_stands(ts, pos, *object);
            lemma_parse_primary(*object, ts, pos);
            lemma_parse_args_closed(args, ts, open + 1);
            match type_args {
                Some(types) => {
                    let inner = spec_type_list_tokens(types, 0);
                    lemma_stands_concat(ts, q + 2, seq![SpecToken::Lt] + inner, seq![SpecToken::Gt]);
                    lemma_stands_concat(ts, q + 2, seq![SpecToken::Lt], inner);
                    lemma_stands_one(ts, q + 2, SpecToken::Lt);
                    lemma_stands_one(ts, q + 3 + inner.len(), SpecToken::Gt);
                    lemma_parse_type_list(types, 0, ts, q + 3, Seq::empty());
                    assert(Seq::<SpecType>::empty() + types.skip(0) =~= types);
                    lemma_type_tokens_nonempty(types[0]);
                },
                None => {},
            }
            lemma_method_parses(ts, pos, *object, method, type_args, args, q, open, end);
        },
        _ => {},
    }
}

/// The case of an indexing.
proof fn lemma_core_index(e: SpecExpression, ts: Seq<SpecToken>, pos: int)
    requires
        e is Index,
        is_written_expr(e),
        stands_at(ts, pos, spec_expr_core(e)),
        at(ts, pos + spec_expr_core(e).len()) == Some(SpecToken::RParen),
    ensures
        spec_parse_expression(ts, pos) == read(e, pos + spec_expr_core(e).len()),
    decreases e, 1nat,
{
    let core = spec_expr_core(e);
    let end = pos + core.len();
    match e {
        SpecExpression::Index { array, index } => {
            let a = spec_expr_tokens(*array);
            let b = spec_expr_tokens(*index);
            let q = pos + a.len();
            lemma_stands_concat(
                ts,
                pos,
                a + seq![SpecToken::LBracket] + b,
                seq![SpecToken::RBracket],
            );
            lemma_stands_concat(ts, pos, a + seq![SpecToken::LBracket], b);
            lemma_stands_concat(ts, pos, a, seq![SpecToken::LBracket]);
            lemma_stands_one(ts, q, SpecToken::LBracket);
            lemma_stands_one(ts, q + 1 + b.len(), SpecToken::RBracket);
            lemma_paren_stands(ts, pos, *array);
            lemma_paren_stands(ts, q + 1, *index);
            lemma_parse_primary(*array, ts, pos);
            lemma_closing_is_quiet(ts, q + 1 + b.len());
            lemma_parse_written(*index, ts, q + 1, 0);
            lemma_index_parses(ts, pos, *array, *index, q, q + 1 + b.len());
        },
        _ => {},
    }
}

/// The case of a number with a unit.
proof fn lemma_core_unit_suffix(e: SpecExpression, ts: Seq<SpecToken>, pos: int)
    requires
        e is UnitSuffix,
        is_written_expr(e),
        stands_at(ts, pos, spec_expr_core(e)),
        at(ts, pos + spec_expr_core(e).len()) == Some(SpecToken::RParen),
    ensures
        spec_parse_expression(ts, pos) == read(e, pos + spec_expr_core(e).len()),
    decreases e, 1nat,
{
    let core = spec_expr_core(e);
    let end = pos + core.len();
    match e {
        SpecExpression::UnitSuffix { value, unit } => {
            let l = value->Literal_0;
            let number = spec_expr_core(*value);
            let tail = seq![SpecToken::Dot, SpecToken::Ident(unit)];
            lemma_stands_concat(ts, pos, number, tail);
            assert(ts[pos + 0] == number[0]);
            assert(ts[pos + 1 + 0] == tail[0] && ts[pos + 1 + 1] == tail[1]);
            lemma_unit_parses(ts, pos, l, unit);
        },
        _ => {},
    }
}

/// Reading the tokens of an expression without the parentheses around
/// them, before a closing parenthesis, gives the expression.
pub proof fn lemma_parse_core(e: SpecExpression, ts: Seq<SpecToken>, pos: int)
    requires
        is_written_expr(e),
        stands_at(ts, pos, spec_expr_core(e)),
        at(ts, pos + spec_expr_core(e).len()) == Some(SpecToken::RParen),
    ensures
        spec_parse_expression(ts, pos) == read(e, pos + spec_expr_core(e).len()),
    decreases e, 2nat,
{
    match e {
        SpecExpression::Literal(_) => {
            lemma_atom_parses(ts, pos, e);
        },
        SpecExpression::Variable(_) => {
            lemma_atom_parses(ts, pos, e);
        },
        SpecExpression::BinaryOp { .. } => {
            lemma_core_binary_op(e, ts, pos);
        },
        SpecExpression::UnaryOp { .. } => {
            lemma_core_unary_op(e, ts, pos);
        },
        SpecExpression::Call { .. } => {
            lemma_core_call(e, ts, pos);
        },
        SpecExpression::NamedCall { .. } => {
            lemma_core_named_call(e, ts, pos);
        },
        SpecExpression::MemberAccess { .. } => {
            lemma_core_member_access(e, ts, pos);
        },
        SpecExpression::MethodCall { .. } => {
            lemma_core_method_call(e, ts, pos);
        },
        SpecExpression::Index { .. } => {
            lemma_core_index(e, ts, pos);
        },
        SpecExpression::StructLiteral { .. } => {},
        SpecExpression::EnumLiteral(_) => {},
        SpecExpression::UnitSuffix { .. } => {
            lemma_core_unit_suffix(e, ts, pos);
        },
    }
}

/// Reading the tokens of an expression as a primary expression gives the
/// expression.
pub proof fn lemma_parse_primary(e: SpecExpression, ts: Seq<SpecToken>, pos: int)
    requires
        is_written_expr(e),
        stands_at(ts, pos, spec_expr_tokens(e)),
    ensures
        spec_parse_primary(ts, pos) == read(e, pos + spec_expr_tokens(e).len()),
    decreases e, 3nat,
{
    lemma_paren_stands(ts, pos, e);
    lemma_parse_core(e, ts, pos + 1);
}

/// Reading the tokens of an expression at a level of precedence, where
/// nothing goes on after them, gives the expression.
pub proof fn lemma_parse_written(e: SpecExpression, ts: Seq<SpecToken>, pos: int, level: nat)
    requires
        is_written_expr(e),
        stands_at(ts, pos, spec_expr_tokens(e)),
        level <= 8,
        is_quiet(ts, pos + spec_expr_tokens(e).len(), level),
    ensures
        spec_parse_binary(ts, pos, level) == read(e, pos + spec_expr_tokens(e).len()),
    decreases e, 4nat,
{
    let end = pos + spec_expr_tokens(e).len();
    lemma_paren_stands(ts, pos, e);
    lemma_parse_primary(e, ts, pos);
    assert(spec_postfix(ts, end, e) == read(e, end));
    assert(spec_parse_call(ts, pos) == read(e, end));
    lemma_call_is_expression(ts, pos, level, e, end);
}

/// Reading the tokens of a list of arguments, before a closing
/// parenthesis, gives the arguments.
pub proof fn lemma_parse_args(
    es: Seq<SpecExpression>,
    from: nat,
    ts: Seq<SpecToken>,
    pos: int,
    acc: Seq<SpecExpression>,
)
    requires
        from < es.len(),
        forall|i: int| 0 <= i < es.len() ==> is_written_expr(#[trigger] es[i]),
        stands_at(ts, pos, spec_args_tokens(es, from)),
        at(ts, pos + spec_args_tokens(es, from).len()) == Some(SpecToken::RParen),
    ensures
        spec_arg_list(ts, pos, acc) == Ok::<(Seq<SpecExpression>, int), SpecSyntaxError>(
            (acc + es.skip(from as int), pos + spec_args_tokens(es, from).len()),
        ),
        spec_args_tokens(es, from).len() > 0,
        at(ts, pos) == Some(SpecToken::LParen),
    decreases es, es.len() - from,
{
    let e = es[from as int];
    let first = spec_expr_tokens(e);
    if from + 1 == es.len() {
        lemma_paren_stands(ts, pos, e);
        lemma_closing_is_quiet(ts, pos + first.len());
        lemma_parse_written(e, ts, pos, 0);
        assert(spec_parse_expression(ts, pos) == read(e, pos + first.len()));
        assert(acc.push(e) =~= acc + es.skip(from as int));
    } else {
        let rest = spec_args_tokens(es, from + 1);
        lemma_stands_concat(ts, pos, first + seq![SpecToken::Comma], rest);
        lemma_stands_concat(ts, pos, first, seq![SpecToken::Comma]);
        lemma_stands_one(ts, pos + first.len(), SpecToken::Comma);
        lemma_paren_stands(ts, pos, e);
        lemma_closing_is_quiet(ts, pos + first.len());
        lemma_parse_written(e, ts, pos, 0);
        assert(spec_parse_expression(ts, pos) == read(e, pos + first.len()));
        lemma_parse_args(es, from + 1, ts, pos + first.len() + 1, acc.push(e));
        assert(moved(ts, pos, pos + first.len() + 1));
        assert(spec_arg_list(ts, pos, acc) == spec_arg_list(
            ts,
            pos + first.len() + 1,
            acc.push(e),
        ));
        assert(acc.push(e) + es.skip((from + 1) as int) =~= acc + es.skip(from as int));
    }
}

/// Reading the tokens of the arguments of a call with the closing
/// parenthesis after them gives the arguments.
pub proof fn lemma_parse_args_closed(es: Seq<SpecExpression>, ts: Seq<SpecToken>, pos: int)
    requires
        forall|i: int| 0 <= i < es.len() ==> is_written_expr(#[trigger] es[i]),
        stands_at(ts, pos, spec_args_tokens(es, 0)),
        at(ts, pos + spec_args_tokens(es, 0).len()) == Some(SpecToken::RParen),
    ensures
        spec_args(ts, pos) == Ok::<(Seq<SpecExpression>, int), SpecSyntaxError>(
            (es, pos + spec_args_tokens(es, 0).len() + 1),
        ),
        at(ts, pos) == Some(SpecToken::LParen) || at(ts, pos) == Some(SpecToken::RParen),
    decreases es, es.len() + 1,
{
    if es.len() == 0 {
        assert(es =~= Seq::<SpecExpression>::empty());
    } else {
        lemma_parse_args(es, 0, ts, pos, Seq::empty());
        assert(Seq::<SpecExpression>::empty() + es.skip(0) =~= es);
    }
}

/// Where named arguments stand, a name and `=` come first.
pub proof fn lemma_named_starts(
    es: Seq<(Seq<char>, SpecExpression)>,
    from: nat,
    ts: Seq<SpecToken>,
    pos: int,
)
    requires
        from < es.len(),
        stands_at(ts, pos, spec_named_args_tokens(es, from)),
    ensures
        at(ts, pos) == Some(SpecToken::Ident(es[from as int].0)),
        at(ts, pos + 1) == Some(SpecToken::Eq),
        spec_named_args_tokens(es, from).len() >= 2,
{
    let head = seq![SpecToken::Ident(es[from as int].0), SpecToken::Eq];
    let value = spec_expr_tokens(es[from as int].1);
    if from + 1 == es.len() {
        lemma_stands_concat(ts, pos, head, value);
    } else {
        let rest = spec_named_args_tokens(es, from + 1);
        lemma_stands_concat(ts, pos, head + value + seq![SpecToken::Comma], rest);
        lemma_stands_concat(ts, pos, head + value, seq![SpecToken::Comma]);
        lemma_stands_concat(ts, pos, head, value);
    }
    assert(ts[pos + 0] == head[0] && ts[pos + 1] == head[1]);
}

/// Reading the tokens of a list of named arguments, before a closing
/// parenthesis, gives the arguments.
pub proof fn lemma_parse_named_args(
    es: Seq<(Seq<char>, SpecExpression)>,
    from: nat,
    ts: Seq<SpecToken>,
    pos: int,
    acc: Seq<(Seq<char>, SpecExpression)>,
)
    requires
        from < es.len(),
        forall|i: int| 0 <= i < es.len() ==> is_written_expr((#[trigger] es[i]).1),
        stands_at(ts, pos, spec_named_args_tokens(es, from)),
        at(ts, pos + spec_named_args_tokens(es, from).len()) == Some(SpecToken::RParen),
    ensures
        spec_named_args(ts, pos, acc) == Ok::<
            (Seq<(Seq<char>, SpecExpression)>, int),
            SpecSyntaxError,
        >((acc + es.skip(from as int), pos + spec_named_args_tokens(es, from).len())),
    decreases es, es.len() - from,
{
    let name = es[from as int].0;
    let e = es[from as int].1;
    let head = seq![SpecToken::Ident(name), SpecToken::Eq];
    let value = spec_expr_tokens(e);
    lemma_named_starts(es, from, ts, pos);
    if from + 1 == es.len() {
        lemma_stands_concat(ts, pos, head, value);
        lemma_paren_stands(ts, pos + 2, e);
        lemma_closing_is_quiet(ts, pos + 2 + value.len());
        lemma_parse_written(e, ts, pos + 2, 0);
        assert(spec_parse_expression(ts, pos + 2) == read(e, pos + 2 + value.len()));
        assert(acc.push((name, e)) =~= acc + es.skip(from as int));
    } else {
        let rest = spec_named_args_tokens(es, from + 1);
        lemma_stands_concat(ts, pos, head + value + seq![SpecToken::Comma], rest);
        lemma_stands_concat(ts, pos, head + value, seq![SpecToken::Comma]);
        lemma_stands_concat(ts, pos, head, value);
        lemma_stands_one(ts, pos + 2 + value.len(), SpecToken::Comma);
        lemma_paren_stands(ts, pos + 2, e);
        lemma_closing_is_quiet(ts, pos + 2 + value.len());
        lemma_parse_written(e, ts, pos + 2, 0);
        assert(spec_parse_expression(ts, pos + 2) == read(e, pos + 2 + value.len()));
        lemma_parse_named_args(es, from + 1, ts, pos + 2 + value.len() + 1, acc.push((name, e)));
        assert(moved(ts, pos, pos + 2 + value.len() + 1));
        assert(spec_named_args(ts, pos, acc) == spec_named_args(
            ts,
            pos + 2 + value.len() + 1,
            acc.push((name, e)),
        ));
        assert(acc.push((name, e)) + es.skip((from + 1) as int) =~= acc + es.skip(from as int));
    }
}

/// The tokens of a statement.
pub open spec fn spec_stmt_tokens(s: SpecStatement) -> Seq<SpecToken>
    decreases s, 0nat,
{
    match s {
        SpecStatement::Let { name, ty, value } => seq![SpecToken::Let, SpecToken::Ident(name)]
            + (match ty {
            Some(t) => seq![SpecToken::Colon] + spec_type_tokens(t),
            None => Seq::empty(),
        }) + seq![SpecToken::Eq] + spec_expr_tokens(value) + seq![SpecToken::Semicolon],
        SpecStatement::Assign { target, value } => spec_expr_tokens(target) + seq![SpecToken::Eq]
            + spec_expr_tokens(value) + seq![SpecToken::Semicolon],
        SpecStatement::If { condition, then_block, else_block } => seq![SpecToken::If]
            + spec_expr_tokens(condition) + spec_block_tokens(then_block) + (match else_block {
            Some(b) => seq![SpecToken::Else] + spec_block_tokens(b),
            None => Seq::empty(),
        }),
        SpecStatement::While { condition, body } => seq![SpecToken::While] + spec_expr_tokens(
            condition,
        ) + spec_block_tokens(body),
        SpecStatement::Loop { body } => seq![SpecToken::Loop] + spec_block_tokens(body),
        SpecStatement::Return(value) => match value {
            Some(e) => seq![SpecToken::Return] + spec_expr_tokens(e) + seq![SpecToken::Semicolon],
            None => seq![SpecToken::Return, SpecToken::Semicolon],
        },
        SpecStatement::Expression(e) => spec_expr_tokens(e) + seq![SpecToken::Semicolon],
        SpecStatement::Block(_) => Seq::empty(),
    }
}

/// The tokens of a block: the statements in braces.
pub open spec fn spec_block_tokens(ss: Seq<SpecStatement>) -> Seq<SpecToken>
    decreases ss, ss.len() + 1,
{
    seq![SpecToken::LBrace] + spec_stmts_tokens(ss, 0) + seq![SpecToken::RBrace]
}

/// The tokens of the statements from the `from`-th on.
pub open spec fn spec_stmts_tokens(ss: Seq<SpecStatement>, from: nat) -> Seq<SpecToken>
    decreases ss, ss.len() - from,
{
    if from >= ss.len() {
        Seq::empty()
    } else {
        spec_stmt_tokens(ss[from as int]) + spec_stmts_tokens(ss, from + 1)
    }
}

/// The statements that source text can hold: a block stands only where a
/// statement asks for one.
pub open spec fn is_written_stmt(s: SpecStatement) -> bool
    decreases s, 0nat,
{
    match s {
        SpecStatement::Let { name, ty, value } => is_written_expr(value) && match ty {
            Some(t) => is_written_type(t),
            None => true,
        },
        SpecStatement::Assign { target, value } => is_written_expr(target) && is_written_expr(
            value,
        ),
        SpecStatement::If { condition, then_block, else_block } => is_written_expr(condition)
            && are_written_stmts(then_block, 0) && match else_block {
            Some(b) => are_written_stmts(b, 0),
            None => true,
        },
        SpecStatement::While { condition, body } => is_written_expr(condition)
            && are_written_stmts(body, 0),
        SpecStatement::Loop { body } => are_written_stmts(body, 0),
        SpecStatement::Return(value) => match value {
            Some(e) => is_written_expr(e),
            None => true,
        },
        SpecStatement::Expression(e) => is_written_expr(e),
        SpecStatement::Block(_) => false,
    }
}

/// Whether source text can hold the statements from the `from`-th on.
pub open spec fn are_written_stmts(ss: Seq<SpecStatement>, from: nat) -> bool
    decreases ss, ss.len() - from,
{
    if from >= ss.len() {
        true
    } else {
        is_written_stmt(ss[from as int]) && are_written_stmts(ss, from + 1)
    }
}

/// The tokens that begin a statement.
pub open spec fn begins_statement(t: SpecToken) -> bool {
    t == SpecToken::Let || t == SpecToken::If || t == SpecToken::While || t == SpecToken::Loop || t
        == SpecToken::Return || t == SpecToken::LParen
}

/// A written statement has tokens, and the first begins a statement.
pub proof fn lemma_stmt_begins(s: SpecStatement)
    requires
        is_written_stmt(s),
    ensures
        spec_stmt_tokens(s).len() > 0,
        begins_statement(spec_stmt_tokens(s)[0]),
{
}

/// Where the tokens of statements stand and a closing brace follows them,
/// a statement or the brace comes first.
pub proof fn lemma_stmts_begin(ss: Seq<SpecStatement>, from: nat, ts: Seq<SpecToken>, pos: int)
    requires
        are_written_stmts(ss, from),
        stands_at(ts, pos, spec_stmts_tokens(ss, from)),
        at(ts, pos + spec_stmts_tokens(ss, from).len()) == Some(SpecToken::RBrace),
    ensures
        at(ts, pos) is Some,
        at(ts, pos) != Some(SpecToken::Else),
        from >= ss.len() ==> at(ts, pos) == Some(SpecToken::RBrace),
        from < ss.len() ==> begins_statement(at(ts, pos)->0),
{
    if from < ss.len() {
        let first = spec_stmt_tokens(ss[from as int]);
        lemma_stmt_begins(ss[from as int]);
        lemma_stands_concat(ts, pos, first, spec_stmts_tokens(ss, from + 1));
        assert(ts[pos + 0] == first[0]);
    }
}

/// A condition in parentheses is read as the expression in them.
proof fn lemma_parse_condition(e: SpecExpression, ts: Seq<SpecToken>, pos: int)
    requires
        is_written_expr(e),
        stands_at(ts, pos, spec_expr_tokens(e)),
    ensures
        spec_parse_condition(ts, pos) == read(e, pos + spec_expr_tokens(e).len()),
{
    lemma_paren_stands(ts, pos, e);
    lemma_parse_core(e, ts, pos + 1);
}

/// Reading the tokens of an expression, where a closing token follows,
/// gives the expression.
pub proof fn lemma_parse_expression(e: SpecExpression, ts: Seq<SpecToken>, pos: int)
    requires
        is_written_expr(e),
        stands_at(ts, pos, spec_expr_tokens(e)),
        is_closing(at(ts, pos + spec_expr_tokens(e).len())),
    ensures
        spec_parse_expression(ts, pos) == read(e, pos + spec_expr_tokens(e).len()),
        at(ts, pos) == Some(SpecToken::LParen),
{
    lemma_paren_stands(ts, pos, e);
    lemma_closing_is_quiet(ts, pos + spec_expr_tokens(e).len());
    lemma_parse_written(e, ts, pos, 0);
}

/// The outcome `Ok((s, end))` of reading a statement.
pub open spec fn read_stmt(s: SpecStatement, end: int) -> Result<(SpecStatement, int), SpecSyntaxError> {
    Ok((s, end))
}

/// The outcome `Ok((ss, end))` of reading statements.
pub open spec fn read_stmts(ss: Seq<SpecStatement>, end: int) -> Result<
    (Seq<SpecStatement>, int),
    SpecSyntaxError,
> {
    Ok((ss, end))
}

/// The case of a `let`.
proof fn lemma_stmt_let(s: SpecStatement, ts: Seq<SpecToken>, pos: int)
    requires
        s is Let,
        is_written_stmt(s),
        stands_at(ts, pos, spec_stmt_tokens(s)),
    ensures
        spec_parse_statement(ts, pos) == read_stmt(s, pos + spec_stmt_tokens(s).len()),
{
    match s {
        SpecStatement::Let { name, ty, value } => {
            let head = seq![SpecToken::Let, SpecToken::Ident(name)];
            let declared = match ty {
                Some(t) => seq![SpecToken::Colon] + spec_type_tokens(t),
                None => Seq::empty(),
            };
            let v = spec_expr_tokens(value);
            let eq = pos + 2 + declared.len();
            lemma_stands_concat(
                ts,
                pos,
                head + declared + seq![SpecToken::Eq] + v,
                seq![SpecToken::Semicolon],
            );
            lemma_stands_concat(ts, pos, head + declared + seq![SpecToken::Eq], v);
            lemma_stands_concat(ts, pos, head + declared, seq![SpecToken::Eq]);
            lemma_stands_concat(ts, pos, head, declared);
            assert(ts[pos + 0] == head[0] && ts[pos + 1] == head[1]);
            lemma_stands_one(ts, eq, SpecToken::Eq);
            lemma_stands_one(ts, eq + 1 + v.len(), SpecToken::Semicolon);
            lemma_parse_expression(value, ts, eq + 1);
            match ty {
                Some(t) => {
                    lemma_stands_concat(ts, pos + 2, seq![SpecToken::Colon], spec_type_tokens(t));
                    lemma_stands_one(ts, pos + 2, SpecToken::Colon);
                    lemma_parse_type(t, ts, pos + 3);
                },
                None => {},
            }
        },
        _ => {},
    }
}

/// Two expressions with `=` between them and a semicolon after them are
/// read as an assignment.
proof fn lemma_assign_parses(
    ts: Seq<SpecToken>,
    pos: int,
    target: SpecExpression,
    value: SpecExpression,
    p: int,
    close: int,
)
    requires
        at(ts, pos) == Some(SpecToken::LParen),
        spec_parse_expression(ts, pos) == read(target, p),
        at(ts, p) == Some(SpecToken::Eq),
        spec_parse_expression(ts, p + 1) == read(value, close),
        at(ts, close) == Some(SpecToken::Semicolon),
    ensures
        spec_parse_statement(ts, pos) == read_stmt(
            SpecStatement::Assign { target, value },
            close + 1,
        ),
{
}

/// An expression with a semicolon after it is read as a statement.
proof fn lemma_expression_parses(ts: Seq<SpecToken>, pos: int, e: SpecExpression, close: int)
    requires
        at(ts, pos) == Some(SpecToken::LParen),
        spec_parse_expression(ts, pos) == read(e, close),
        at(ts, close) == Some(SpecToken::Semicolon),
    ensures
        spec_parse_statement(ts, pos) == read_stmt(SpecStatement::Expression(e), close + 1),
{
}

/// `return` with an expression at will and a semicolon is read as a `return`.
proof fn lemma_return_parses(
    ts: Seq<SpecToken>,
    pos: int,
    value: Option<SpecExpression>,
    close: int,
)
    requires
        at(ts, pos) == Some(SpecToken::Return),
        at(ts, close) == Some(SpecToken::Semicolon),
        match value {
            Some(e) => at(ts, pos + 1) == Some(SpecToken::LParen) && spec_parse_expression(
                ts,
                pos + 1,
            ) == read(e, close),
            None => close == pos + 1,
        },
    ensures
        spec_parse_statement(ts, pos) == read_stmt(SpecStatement::Return(value), close + 1),
{
}

/// The case of an assignment, an expression or a `return`.
proof fn lemma_stmt_simple(s: SpecStatement, ts: Seq<SpecToken>, pos: int)
    requires
        s is Assign || s is Expression || s is Return,
        is_written_stmt(s),
        stands_at(ts, pos, spec_stmt_tokens(s)),
    ensures
        spec_parse_statement(ts, pos) == read_stmt(s, pos + spec_stmt_tokens(s).len()),
{
    match s {
        SpecStatement::Assign { target, value } => {
            let a = spec_expr_tokens(target);
            let b = spec_expr_tokens(value);
            lemma_stands_concat(ts, pos, a + seq![SpecToken::Eq] + b, seq![SpecToken::Semicolon]);
            lemma_stands_concat(ts, pos, a + seq![SpecToken::Eq], b);
            lemma_stands_concat(ts, pos, a, seq![SpecToken::Eq]);
            lemma_stands_one(ts, pos + a.len(), SpecToken::Eq);
            lemma_stands_one(ts, pos + a.len() + 1 + b.len(), SpecToken::Semicolon);
            lemma_parse_expression(target, ts, pos);
            lemma_parse_expression(value, ts, pos + a.len() + 1);
            lemma_assign_parses(ts, pos, target, value, pos + a.len(), pos + a.len() + 1 + b.len());
        },
        SpecStatement::Expression(e) => {
            let a = spec_expr_tokens(e);
            lemma_stands_concat(ts, pos, a, seq![SpecToken::Semicolon]);
            lemma_stands_one(ts, pos + a.len(), SpecToken::Semicolon);
            lemma_parse_expression(e, ts, pos);
            lemma_expression_parses(ts, pos, e, pos + a.len());
        },
        SpecStatement::Return(value) => match value {
            Some(e) => {
                let a = spec_expr_tokens(e);
                lemma_stands_concat(
                    ts,
                    pos,
                    seq![SpecToken::Return] + a,
                    seq![SpecToken::Semicolon],
                );
                lemma_stands_concat(ts, pos, seq![SpecToken::Return], a);
                lemma_stands_one(ts, pos, SpecToken::Return);
                lemma_stands_one(ts, pos + 1 + a.len(), SpecToken::Semicolon);
                lemma_parse_expression(e, ts, pos + 1);
                lemma_return_parses(ts, pos, value, pos + 1 + a.len());
            },
            None => {
                let piece = seq![SpecToken::Return, SpecToken::Semicolon];
                assert(ts[pos + 0] == piece[0] && ts[pos + 1] == piece[1]);
                lemma_return_parses(ts, pos, value, pos + 1);
            },
        },
        _ => {},
    }
}

/// A condition and a block after `if`, with a block after `else` where
/// there is one, are read as an `if`.
proof fn lemma_if_parses(
    ts: Seq<SpecToken>,
    pos: int,
    condition: SpecExpression,
    then_block: Seq<SpecStatement>,
    else_block: Option<Seq<SpecStatement>>,
    at_first: int,
    at_second: int,
    end: int,
)
    requires
        at(ts, pos) == Some(SpecToken::If),
        spec_parse_condition(ts, pos + 1) == read(condition, at_first),
        moved(ts, pos, at_first),
        spec_parse_block(ts, at_first) == read_stmts(then_block, at_second),
        moved(ts, pos, at_second),
        match else_block {
            Some(b) => at(ts, at_second) == Some(SpecToken::Else) && spec_parse_block(ts, at_second + 1)
                == read_stmts(b, end),
            None => at(ts, at_second) != Some(SpecToken::Else) && end == at_second,
        },
    ensures
        spec_parse_statement(ts, pos) == read_stmt(
            SpecStatement::If { condition, then_block, else_block },
            end,
        ),
{
}

/// A condition and a block after `while` are read as a `while`.
proof fn lemma_while_parses(
    ts: Seq<SpecToken>,
    pos: int,
    condition: SpecExpression,
    body: Seq<SpecStatement>,
    at_first: int,
    end: int,
)
    requires
        at(ts, pos) == Some(SpecToken::While),
        spec_parse_condition(ts, pos + 1) == read(condition, at_first),
        moved(ts, pos, at_first),
        spec_parse_block(ts, at_first) == read_stmts(body, end),
    ensures
        spec_parse_statement(ts, pos) == read_stmt(SpecStatement::While { condition, body }, end),
{
}

/// A block after `loop` is read as a `loop`.
proof fn lemma_loop_parses(ts: Seq<SpecToken>, pos: int, body: Seq<SpecStatement>, end: int)
    requires
        at(ts, pos) == Some(SpecToken::Loop),
        spec_parse_block(ts, pos + 1) == read_stmts(body, end),
    ensures
        spec_parse_statement(ts, pos) == read_stmt(SpecStatement::Loop { body }, end),
{
}

/// The case of an `if`.
proof fn lemma_stmt_if(s: SpecStatement, ts: Seq<SpecToken>, pos: int)
    requires
        s is If,
        is_written_stmt(s),
        stands_at(ts, pos, spec_stmt_tokens(s)),
        at(ts, pos + spec_stmt_tokens(s).len()) != Some(SpecToken::Else),
    ensures
        spec_parse_statement(ts, pos) == read_stmt(s, pos + spec_stmt_tokens(s).len()),
    decreases s, 0nat,
{
    match s {
        SpecStatement::If { condition, then_block, else_block } => {
            let c = spec_expr_tokens(condition);
            let t = spec_block_tokens(then_block);
            let e = match else_block {
                Some(b) => seq![SpecToken::Else] + spec_block_tokens(b),
                None => Seq::empty(),
            };
            let at_first = pos + 1 + c.len();
            let at_second = at_first + t.len();
            lemma_stands_concat(ts, pos, seq![SpecToken::If] + c + t, e);
            lemma_stands_concat(ts, pos, seq![SpecToken::If] + c, t);
            lemma_stands_concat(ts, pos, seq![SpecToken::If], c);
            lemma_stands_one(ts, pos, SpecToken::If);
            lemma_parse_condition(condition, ts, pos + 1);
            lemma_paren_stands(ts, pos + 1, condition);
            lemma_parse_block(then_block, ts, at_first);
            match else_block {
                Some(b) => {
                    lemma_stands_concat(ts, at_second, seq![SpecToken::Else], spec_block_tokens(b));
                    lemma_stands_one(ts, at_second, SpecToken::Else);
                    lemma_parse_block(b, ts, at_second + 1);
                },
                None => {},
            }
            lemma_if_parses(
                ts,
                pos,
                condition,
                then_block,
                else_block,
                at_first,
                at_second,
                pos + spec_stmt_tokens(s).len(),
            );
        },
        _ => {},
    }
}

/// The case of a `while` or a `loop`.
proof fn lemma_stmt_loop(s: SpecStatement, ts: Seq<SpecToken>, pos: int)
    requires
        s is While || s is Loop,
        is_written_stmt(s),
        stands_at(ts, pos, spec_stmt_tokens(s)),
    ensures
        spec_parse_statement(ts, pos) == read_stmt(s, pos + spec_stmt_tokens(s).len()),
    decreases s, 0nat,
{
    match s {
        SpecStatement::While { condition, body } => {
            let c = spec_expr_tokens(condition);
            let b = spec_block_tokens(body);
            lemma_stands_concat(ts, pos, seq![SpecToken::While] + c, b);
            lemma_stands_concat(ts, pos, seq![SpecToken::While], c);
            lemma_stands_one(ts, pos, SpecToken::While);
            lemma_parse_condition(condition, ts, pos + 1);
            lemma_paren_stands(ts, pos + 1, condition);
            lemma_parse_block(body, ts, pos + 1 + c.len());
            lemma_while_parses(ts, pos, condition, body, pos + 1 + c.len(), pos + 1 + c.len() + b.len());
        },
        SpecStatement::Loop { body } => {
            lemma_stands_concat(ts, pos, seq![SpecToken::Loop], spec_block_tokens(body));
            lemma_stands_one(ts, pos, SpecToken::Loop);
            lemma_parse_block(body, ts, pos + 1);
            lemma_loop_parses(ts, pos, body, pos + 1 + spec_block_tokens(body).len());
        },
        _ => {},
    }
}

/// Reading the tokens of a statement, where no `else` follows them, gives
/// the statement.
pub proof fn lemma_parse_statement(s: SpecStatement, ts: Seq<SpecToken>, pos: int)
    requires
        is_written_stmt(s),
        stands_at(ts, pos, spec_stmt_tokens(s)),
        at(ts, pos + spec_stmt_tokens(s).len()) != Some(SpecToken::Else),
    ensures
        spec_parse_statement(ts, pos) == read_stmt(s, pos + spec_stmt_tokens(s).len()),
        spec_stmt_tokens(s).len() > 0,
    decreases s, 1nat,
{
    lemma_stmt_begins(s);
    match s {
        SpecStatement::Let { .. } => {
            lemma_stmt_let(s, ts, pos);
        },
        SpecStatement::Assign { .. } => {
            lemma_stmt_simple(s, ts, pos);
        },
        SpecStatement::Expression(_) => {
            lemma_stmt_simple(s, ts, pos);
        },
        SpecStatement::Return(_) => {
            lemma_stmt_simple(s, ts, pos);
        },
        SpecStatement::If { .. } => {
            lemma_stmt_if(s, ts, pos);
        },
        SpecStatement::While { .. } => {
            lemma_stmt_loop(s, ts, pos);
        },
        SpecStatement::Loop { .. } => {
            lemma_stmt_loop(s, ts, pos);
        },
        SpecStatement::Block(_) => {},
    }
}

/// Reading the tokens of a block gives its statements.
pub proof fn lemma_parse_block(ss: Seq<SpecStatement>, ts: Seq<SpecToken>, pos: int)
    requires
        are_written_stmts(ss, 0),
        stands_at(ts, pos, spec_block_tokens(ss)),
    ensures
        spec_parse_block(ts, pos) == read_stmts(ss, pos + spec_block_tokens(ss).len()),
        spec_block_tokens(ss).len() >= 2,
        at(ts, pos) == Some(SpecToken::LBrace),
    decreases ss, ss.len() + 1,
{
    let inner = spec_stmts_tokens(ss, 0);
    lemma_stands_concat(ts, pos, seq![SpecToken::LBrace] + inner, seq![SpecToken::RBrace]);
    lemma_stands_concat(ts, pos, seq![SpecToken::LBrace], inner);
    lemma_stands_one(ts, pos, SpecToken::LBrace);
    lemma_stands_one(ts, pos + 1 + inner.len(), SpecToken::RBrace);
    lemma_parse_statements(ss, 0, ts, pos + 1, Seq::empty());
    assert(Seq::<SpecStatement>::empty() + ss.skip(0) =~= ss);
}

/// Reading the tokens of statements with the closing brace after them
/// gives the statements.
pub proof fn lemma_parse_statements(
    ss: Seq<SpecStatement>,
    from: nat,
    ts: Seq<SpecToken>,
    pos: int,
    acc: Seq<SpecStatement>,
)
    requires
        from <= ss.len(),
        are_written_stmts(ss, from),
        stands_at(ts, pos, spec_stmts_tokens(ss, from)),
        at(ts, pos + spec_stmts_tokens(ss, from).len()) == Some(SpecToken::RBrace),
    ensures
        spec_statements(ts, pos, acc) == read_stmts(
            acc + ss.skip(from as int),
            pos + spec_stmts_tokens(ss, from).len() + 1,
        ),
    decreases ss, ss.len() - from,
{
    lemma_stmts_begin(ss, from, ts, pos);
    if from >= ss.len() {
        assert(acc + ss.skip(from as int) =~= acc);
    } else {
        let s = ss[from as int];
        let first = spec_stmt_tokens(s);
        let rest = spec_stmts_tokens(ss, from + 1);
        lemma_stands_concat(ts, pos, first, rest);
        lemma_stmts_begin(ss, from + 1, ts, pos + first.len());
        lemma_parse_statement(s, ts, pos);
        lemma_parse_statements(ss, from + 1, ts, pos + first.len(), acc.push(s));
        assert(moved(ts, pos, pos + first.len()));
        assert(spec_statements(ts, pos, acc) == spec_statements(ts, pos + first.len(), acc.push(s)));
        assert(acc.push(s) + ss.skip((from + 1) as int) =~= acc + ss.skip(from as int));
    }
}

/// The tokens of a field or of a parameter.
pub open spec fn spec_field_tokens(f: SpecField) -> Seq<SpecToken> {
    seq![SpecToken::Ident(f.name), SpecToken::Colon] + spec_type_tokens(f.ty) + (match f.default_value {
        Some(e) => seq![SpecToken::Eq] + spec_expr_tokens(e),
        None => Seq::empty(),
    })
}

/// The tokens of the fields from the `from`-th on, with commas between them.
pub open spec fn spec_fields_tokens(fs: Seq<SpecField>, from: nat) -> Seq<SpecToken>
    decreases fs.len() - from,
{
    if from >= fs.len() {
        Seq::empty()
    } else if from + 1 == fs.len() {
        spec_field_tokens(fs[from as int])
    } else {
        spec_field_tokens(fs[from as int]) + seq![SpecToken::Comma] + spec_fields_tokens(
            fs,
            from + 1,
        )
    }
}

/// The fields and parameters that source text can hold.
pub open spec fn is_written_field(f: SpecField) -> bool {
    is_written_type(f.ty) && match f.default_value {
        Some(e) => is_written_expr(e),
        None => true,
    }
}

/// Whether source text can hold every field of a list.
pub open spec fn are_written_fields(fs: Seq<SpecField>) -> bool {
    forall|i: int| 0 <= i < fs.len() ==> is_written_field(#[trigger] fs[i])
}

/// The outcome `Ok((f, end))` of reading a field.
pub open spec fn read_field(f: SpecField, end: int) -> Result<(SpecField, int), SpecSyntaxError> {
    Ok((f, end))
}

/// The outcome `Ok((fs, end))` of reading fields.
pub open spec fn read_fields(fs: Seq<SpecField>, end: int) -> Result<
    (Seq<SpecField>, int),
    SpecSyntaxError,
> {
    Ok((fs, end))
}

/// Reading the tokens of a field, where a comma or a closing token follows,
/// gives the field.
pub proof fn lemma_parse_field(f: SpecField, ts: Seq<SpecToken>, pos: int)
    requires
        is_written_field(f),
        stands_at(ts, pos, spec_field_tokens(f)),
        at(ts, pos + spec_field_tokens(f).len()) == Some(SpecToken::Comma) || at(
            ts,
            pos + spec_field_tokens(f).len(),
        ) == Some(SpecToken::RBrace) || at(ts, pos + spec_field_tokens(f).len()) == Some(
            SpecToken::RParen,
        ),
    ensures
        spec_parse_field(ts, pos) == read_field(f, pos + spec_field_tokens(f).len()),
        spec_field_tokens(f).len() >= 3,
        at(ts, pos) == Some(SpecToken::Ident(f.name)),
{
    let head = seq![SpecToken::Ident(f.name), SpecToken::Colon];
    let ty = spec_type_tokens(f.ty);
    let value = match f.default_value {
        Some(e) => seq![SpecToken::Eq] + spec_expr_tokens(e),
        None => Seq::empty(),
    };
    lemma_type_tokens_nonempty(f.ty);
    lemma_stands_concat(ts, pos, head + ty, value);
    lemma_stands_concat(ts, pos, head, ty);
    assert(ts[pos + 0] == head[0] && ts[pos + 1] == head[1]);
    lemma_parse_type(f.ty, ts, pos + 2);
    let at_third = pos + 2 + ty.len();
    match f.default_value {
        Some(e) => {
            lemma_stands_concat(ts, at_third, seq![SpecToken::Eq], spec_expr_tokens(e));
            lemma_stands_one(ts, at_third, SpecToken::Eq);
            lemma_parse_expression(e, ts, at_third + 1);
            assert(spec_parse_default(ts, at_third) == Ok::<
                (Option<SpecExpression>, int),
                SpecSyntaxError,
            >((Some(e), at_third + 1 + spec_expr_tokens(e).len())));
        },
        None => {
            assert(spec_parse_default(ts, at_third) == Ok::<
                (Option<SpecExpression>, int),
                SpecSyntaxError,
            >((None, at_third)));
        },
    }
}

/// Reading the tokens of fields with the closing brace after them gives the
/// fields.
pub proof fn lemma_parse_fields(
    fs: Seq<SpecField>,
    from: nat,
    ts: Seq<SpecToken>,
    pos: int,
    acc: Seq<SpecField>,
)
    requires
        from < fs.len(),
        are_written_fields(fs),
        stands_at(ts, pos, spec_fields_tokens(fs, from)),
        at(ts, pos + spec_fields_tokens(fs, from).len()) == Some(SpecToken::RBrace),
    ensures
        spec_fields(ts, pos, acc) == read_fields(
            acc + fs.skip(from as int),
            pos + spec_fields_tokens(fs, from).len() + 1,
        ),
    decreases fs.len() - from,
{
    let f = fs[from as int];
    let first = spec_field_tokens(f);
    if from + 1 == fs.len() {
        lemma_parse_field(f, ts, pos);
        assert(acc.push(f) =~= acc + fs.skip(from as int));
    } else {
        let rest = spec_fields_tokens(fs, from + 1);
        lemma_stands_concat(ts, pos, first + seq![SpecToken::Comma], rest);
        lemma_stands_concat(ts, pos, first, seq![SpecToken::Comma]);
        lemma_stands_one(ts, pos + first.len(), SpecToken::Comma);
        lemma_parse_field(f, ts, pos);
        lemma_parse_fields(fs, from + 1, ts, pos + first.len() + 1, acc.push(f));
        assert(moved(ts, pos, pos + first.len() + 1));
        assert(spec_fields(ts, pos, acc) == spec_fields(ts, pos + first.len() + 1, acc.push(f)));
        assert(acc.push(f) + fs.skip((from + 1) as int) =~= acc + fs.skip(from as int));
    }
}

/// The tokens of a record declaration after its keyword.
pub open spec fn spec_record_tokens(r: SpecRecord) -> Seq<SpecToken> {
    seq![SpecToken::Ident(r.name), SpecToken::LBrace] + spec_fields_tokens(r.fields, 0) + seq![
        SpecToken::RBrace,
    ]
}

/// Reading the tokens of a record declaration gives the declaration.
pub proof fn lemma_parse_record(r: SpecRecord, ts: Seq<SpecToken>, pos: int)
    requires
        are_written_fields(r.fields),
        stands_at(ts, pos, spec_record_tokens(r)),
    ensures
        spec_parse_record(ts, pos) == Ok::<(SpecRecord, int), SpecSyntaxError>(
            (r, pos + spec_record_tokens(r).len()),
        ),
{
    let head = seq![SpecToken::Ident(r.name), SpecToken::LBrace];
    let list = spec_fields_tokens(r.fields, 0);
    lemma_stands_concat(ts, pos, head + list, seq![SpecToken::RBrace]);
    lemma_stands_concat(ts, pos, head, list);
    assert(ts[pos + 0] == head[0] && ts[pos + 1] == head[1]);
    lemma_stands_one(ts, pos + 2 + list.len(), SpecToken::RBrace);
    if r.fields.len() == 0 {
        assert(spec_fields(ts, pos + 2, Seq::empty()) == read_fields(Seq::empty(), pos + 3));
        assert(r.fields =~= Seq::<SpecField>::empty());
    } else {
        lemma_parse_fields(r.fields, 0, ts, pos + 2, Seq::empty());
        assert(Seq::<SpecField>::empty() + r.fields.skip(0) =~= r.fields);
    }
}

/// Reading the tokens of parameters, before a closing parenthesis, gives
/// the parameters.
pub proof fn lemma_parse_param_list(
    ps: Seq<SpecField>,
    from: nat,
    ts: Seq<SpecToken>,
    pos: int,
    acc: Seq<SpecField>,
)
    requires
        from < ps.len(),
        are_written_fields(ps),
        stands_at(ts, pos, spec_fields_tokens(ps, from)),
        at(ts, pos + spec_fields_tokens(ps, from).len()) == Some(SpecToken::RParen),
    ensures
        spec_param_list(ts, pos, acc) == read_fields(
            acc + ps.skip(from as int),
            pos + spec_fields_tokens(ps, from).len(),
        ),
        at(ts, pos) != Some(SpecToken::RParen),
    decreases ps.len() - from,
{
    let f = ps[from as int];
    let first = spec_field_tokens(f);
    if from + 1 == ps.len() {
        lemma_parse_field(f, ts, pos);
        assert(acc.push(f) =~= acc + ps.skip(from as int));
    } else {
        let rest = spec_fields_tokens(ps, from + 1);
        lemma_stands_concat(ts, pos, first + seq![SpecToken::Comma], rest);
        lemma_stands_concat(ts, pos, first, seq![SpecToken::Comma]);
        lemma_stands_one(ts, pos + first.len(), SpecToken::Comma);
        lemma_parse_field(f, ts, pos);
        lemma_parse_param_list(ps, from + 1, ts, pos + first.len() + 1, acc.push(f));
        assert(moved(ts, pos, pos + first.len() + 1));
        assert(spec_param_list(ts, pos, acc) == spec_param_list(
            ts,
            pos + first.len() + 1,
            acc.push(f),
        ));
        assert(acc.push(f) + ps.skip((from + 1) as int) =~= acc + ps.skip(from as int));
    }
}

/// The tokens of the parameters of a function, in parentheses.
pub open spec fn spec_params_tokens(ps: Seq<SpecField>) -> Seq<SpecToken> {
    seq![SpecToken::LParen] + spec_fields_tokens(ps, 0) + seq![SpecToken::RParen]
}

/// Reading the tokens of the parameters of a function gives the parameters.
pub proof fn lemma_parse_params(ps: Seq<SpecField>, ts: Seq<SpecToken>, pos: int)
    requires
        are_written_fields(ps),
        stands_at(ts, pos, spec_params_tokens(ps)),
    ensures
        spec_params(ts, pos) == read_fields(ps, pos + spec_params_tokens(ps).len()),
        spec_params_tokens(ps).len() >= 2,
{
    let list = spec_fields_tokens(ps, 0);
    lemma_stands_concat(ts, pos, seq![SpecToken::LParen] + list, seq![SpecToken::RParen]);
    lemma_stands_concat(ts, pos, seq![SpecToken::LParen], list);
    lemma_stands_one(ts, pos, SpecToken::LParen);
    lemma_stands_one(ts, pos + 1 + list.len(), SpecToken::RParen);
    if ps.len() == 0 {
        assert(ps =~= Seq::<SpecField>::empty());
    } else {
        lemma_parse_param_list(ps, 0, ts, pos + 1, Seq::empty());
        assert(Seq::<SpecField>::empty() + ps.skip(0) =~= ps);
    }
}

/// The tokens of the constraints from the `from`-th on: each a comma, the
/// keyword, `=` and the name.
pub open spec fn spec_constraints_tokens(names: Seq<Seq<char>>, keyword: Seq<char>, from: nat) -> Seq<
    SpecToken,
>
    decreases names.len() - from,
{
    if from >= names.len() {
        Seq::empty()
    } else {
        seq![
            SpecToken::Comma,
            SpecToken::Ident(keyword),
            SpecToken::Eq,
            SpecToken::Ident(names[from as int]),
        ] + spec_constraints_tokens(names, keyword, from + 1)
    }
}

/// The outcome `Ok(((after, before), end))` of reading constraints.
pub open spec fn read_constraints(after: Seq<Seq<char>>, before: Seq<Seq<char>>, end: int) -> Result<
    ((Seq<Seq<char>>, Seq<Seq<char>>), int),
    SpecSyntaxError,
> {
    Ok(((after, before), end))
}

/// Reading the tokens of `before` constraints, before a closing
/// parenthesis, gives the constraints.
pub proof fn lemma_parse_before(
    before: Seq<Seq<char>>,
    from: nat,
    ts: Seq<SpecToken>,
    pos: int,
    after: Seq<Seq<char>>,
    acc: Seq<Seq<char>>,
)
    requires
        from <= before.len(),
        stands_at(ts, pos, spec_constraints_tokens(before, "before"@, from)),
        at(ts, pos + spec_constraints_tokens(before, "before"@, from).len()) == Some(
            SpecToken::RParen,
        ),
    ensures
        spec_constraints(ts, pos, after, acc) == read_constraints(
            after,
            acc + before.skip(from as int),
            pos + spec_constraints_tokens(before, "before"@, from).len(),
        ),
    decreases before.len() - from,
{
    reveal_strlit("after");
    reveal_strlit("before");
    if from >= before.len() {
        assert(acc + before.skip(from as int) =~= acc);
    } else {
        let head = seq![
            SpecToken::Comma,
            SpecToken::Ident("before"@),
            SpecToken::Eq,
            SpecToken::Ident(before[from as int]),
        ];
        let rest = spec_constraints_tokens(before, "before"@, from + 1);
        lemma_stands_concat(ts, pos, head, rest);
        assert(ts[pos + 0] == head[0] && ts[pos + 1] == head[1] && ts[pos + 2] == head[2] && ts[pos
            + 3] == head[3]);
        assert("before"@.len() != "after"@.len());
        lemma_parse_before(before, from + 1, ts, pos + 4, after, acc.push(before[from as int]));
        assert(acc.push(before[from as int]) + before.skip((from + 1) as int) =~= acc + before.skip(
            from as int,
        ));
    }
}

/// Reading the tokens of `after` constraints and of `before` constraints
/// after them, before a closing parenthesis, gives the constraints.
pub proof fn lemma_parse_after(
    after: Seq<Seq<char>>,
    from: nat,
    before: Seq<Seq<char>>,
    ts: Seq<SpecToken>,
    pos: int,
    acc: Seq<Seq<char>>,
)
    requires
        from <= after.len(),
        stands_at(
            ts,
            pos,
            spec_constraints_tokens(after, "after"@, from) + spec_constraints_tokens(
                before,
                "before"@,
                0,
            ),
        ),
        at(
            ts,
            pos + spec_constraints_tokens(after, "after"@, from).len() + spec_constraints_tokens(
                before,
                "before"@,
                0,
            ).len(),
        ) == Some(SpecToken::RParen),
    ensures
        spec_constraints(ts, pos, acc, Seq::empty()) == read_constraints(
            acc + after.skip(from as int),
            before,
            pos + spec_constraints_tokens(after, "after"@, from).len() + spec_constraints_tokens(
                before,
                "before"@,
                0,
            ).len(),
        ),
    decreases after.len() - from,
{
    let afters = spec_constraints_tokens(after, "after"@, from);
    let befores = spec_constraints_tokens(before, "before"@, 0);
    lemma_stands_concat(ts, pos, afters, befores);
    if from >= after.len() {
        lemma_parse_before(before, 0, ts, pos, acc, Seq::empty());
        assert(acc + after.skip(from as int) =~= acc);
        assert(Seq::<Seq<char>>::empty() + before.skip(0) =~= before);
    } else {
        let head = seq![
            SpecToken::Comma,
            SpecToken::Ident("after"@),
            SpecToken::Eq,
            SpecToken::Ident(after[from as int]),
        ];
        let rest = spec_constraints_tokens(after, "after"@, from + 1);
        lemma_stands_concat(ts, pos, head, rest);
        assert(ts[pos + 0] == head[0] && ts[pos + 1] == head[1] && ts[pos + 2] == head[2] && ts[pos
            + 3] == head[3]);
        lemma_stands_concat(ts, pos + 4, rest, befores);
        lemma_parse_after(after, from + 1, before, ts, pos + 4, acc.push(after[from as int]));
        assert(acc.push(after[from as int]) + after.skip((from + 1) as int) =~= acc + after.skip(
            from as int,
        ));
    }
}

/// The tokens of a system attribute: `@system`, the name and the
/// constraints in parentheses, the `after` constraints first.
pub open spec fn spec_attribute_tokens(a: SpecSystemAttribute) -> Seq<SpecToken> {
    seq![SpecToken::At, SpecToken::System, SpecToken::LParen, SpecToken::Ident(a.name)]
        + spec_constraints_tokens(a.after, "after"@, 0) + spec_constraints_tokens(
        a.before,
        "before"@,
        0,
    ) + seq![SpecToken::RParen]
}

/// Reading the tokens of a system attribute gives the attribute.
pub proof fn lemma_parse_attribute(a: SpecSystemAttribute, ts: Seq<SpecToken>, pos: int)
    requires
        stands_at(ts, pos, spec_attribute_tokens(a)),
    ensures
        spec_attribute(ts, pos) == Ok::<(Option<SpecSystemAttribute>, int), SpecSyntaxError>(
            (Some(a), pos + spec_attribute_tokens(a).len()),
        ),
{
    let head = seq![SpecToken::At, SpecToken::System, SpecToken::LParen, SpecToken::Ident(a.name)];
    let afters = spec_constraints_tokens(a.after, "after"@, 0);
    let befores = spec_constraints_tokens(a.before, "before"@, 0);
    lemma_stands_concat(ts, pos, head + afters + befores, seq![SpecToken::RParen]);
    lemma_stands_concat(ts, pos, head + afters, befores);
    lemma_stands_concat(ts, pos, head, afters);
    assert(ts[pos + 0] == head[0] && ts[pos + 1] == head[1] && ts[pos + 2] == head[2] && ts[pos
        + 3] == head[3]);
    lemma_stands_one(ts, pos + 4 + afters.len() + befores.len(), SpecToken::RParen);
    lemma_stands_concat(ts, pos + 4, afters, befores);
    lemma_parse_after(a.after, 0, a.before, ts, pos + 4, Seq::empty());
    assert(Seq::<Seq<char>>::empty() + a.after.skip(0) =~= a.after);
    assert(spec_system_attribute(ts, pos + 2) == Ok::<(SpecSystemAttribute, int), SpecSyntaxError>(
        (a, pos + spec_attribute_tokens(a).len()),
    ));
}

/// The tokens of a function after `fn`: the attribute where there is one,
/// the name, the parameters, the return type after a colon, and the body.
pub open spec fn spec_function_tokens(f: SpecFunctionDef) -> Seq<SpecToken> {
    (match f.attribute {
        Some(a) => spec_attribute_tokens(a),
        None => Seq::empty(),
    }) + seq![SpecToken::Ident(f.name)] + spec_params_tokens(f.params) + seq![SpecToken::Colon]
        + spec_type_tokens(f.return_type) + spec_block_tokens(f.body)
}

/// The functions that source text can hold.
pub open spec fn is_written_function(f: SpecFunctionDef) -> bool {
    are_written_fields(f.params) && is_written_type(f.return_type) && are_written_stmts(f.body, 0)
}

/// The outcome `Ok((f, end))` of reading a function.
pub open spec fn read_function(f: SpecFunctionDef, end: int) -> Result<
    (SpecFunctionDef, int),
    SpecSyntaxError,
> {
    Ok((f, end))
}

/// The parts of a function one after another are read as the function.
proof fn lemma_function_parses(
    ts: Seq<SpecToken>,
    pos: int,
    f: SpecFunctionDef,
    at_first: int,
    at_third: int,
    at_fourth: int,
    end: int,
)
    requires
        spec_attribute(ts, pos) == Ok::<(Option<SpecSystemAttribute>, int), SpecSyntaxError>(
            (f.attribute, at_first),
        ),
        at(ts, at_first) == Some(SpecToken::Ident(f.name)),
        spec_params(ts, at_first + 1) == read_fields(f.params, at_third),
        at(ts, at_third) == Some(SpecToken::Colon),
        spec_parse_type(ts, at_third + 1) == Ok::<(SpecType, int), SpecSyntaxError>(
            (f.return_type, at_fourth),
        ),
        spec_parse_block(ts, at_fourth) == read_stmts(f.body, end),
    ensures
        spec_parse_function(ts, pos) == read_function(f, end),
{
}

/// Reading the tokens of a function gives the function.
pub proof fn lemma_parse_function(f: SpecFunctionDef, ts: Seq<SpecToken>, pos: int)
    requires
        is_written_function(f),
        stands_at(ts, pos, spec_function_tokens(f)),
    ensures
        spec_parse_function(ts, pos) == read_function(f, pos + spec_function_tokens(f).len()),
        spec_function_tokens(f).len() > 0,
{
    let attribute = match f.attribute {
        Some(a) => spec_attribute_tokens(a),
        None => Seq::empty(),
    };
    let params = spec_params_tokens(f.params);
    let ty = spec_type_tokens(f.return_type);
    let body = spec_block_tokens(f.body);
    let at_first = pos + attribute.len();
    let at_third = at_first + 1 + params.len();
    let at_fourth = at_third + 1 + ty.len();
    lemma_stands_concat(
        ts,
        pos,
        attribute + seq![SpecToken::Ident(f.name)] + params + seq![SpecToken::Colon] + ty,
        body,
    );
    lemma_stands_concat(
        ts,
        pos,
        attribute + seq![SpecToken::Ident(f.name)] + params + seq![SpecToken::Colon],
        ty,
    );
    lemma_stands_concat(
        ts,
        pos,
        attribute + seq![SpecToken::Ident(f.name)] + params,
        seq![SpecToken::Colon],
    );
    lemma_stands_concat(ts, pos, attribute + seq![SpecToken::Ident(f.name)], params);
    lemma_stands_concat(ts, pos, attribute, seq![SpecToken::Ident(f.name)]);
    lemma_stands_one(ts, at_first, SpecToken::Ident(f.name));
    lemma_stands_one(ts, at_third, SpecToken::Colon);
    lemma_parse_params(f.params, ts, at_first + 1);
    lemma_parse_type(f.return_type, ts, at_third + 1);
    lemma_parse_block(f.body, ts, at_fourth);
    match f.attribute {
        Some(a) => {
            lemma_parse_attribute(a, ts, pos);
        },
        None => {
            assert(spec_attribute(ts, pos) == Ok::<
                (Option<SpecSystemAttribute>, int),
                SpecSyntaxError,
            >((None, pos)));
        },
    }
    lemma_function_parses(ts, pos, f, at_first, at_third, at_fourth, at_fourth + body.len());
}

/// The tokens of an extern function after `extern`.
pub open spec fn spec_extern_tokens(f: SpecExternFunctionDef) -> Seq<SpecToken> {
    seq![SpecToken::Fn, SpecToken::Ident(f.name)] + spec_params_tokens(f.params) + seq![
        SpecToken::Colon,
    ] + spec_type_tokens(f.return_type) + (match f.library {
        Some(l) => seq![SpecToken::Ident("from"@), SpecToken::StringLit(l)],
        None => Seq::empty(),
    }) + seq![SpecToken::Semicolon]
}

/// The parts of an extern function one after another are read as the function.
proof fn lemma_extern_parses(
    ts: Seq<SpecToken>,
    pos: int,
    f: SpecExternFunctionDef,
    at_third: int,
    at_fourth: int,
    at_fifth: int,
)
    requires
        at(ts, pos) == Some(SpecToken::Fn),
        at(ts, pos + 1) == Some(SpecToken::Ident(f.name)),
        spec_attribute(ts, pos + 1) == Ok::<(Option<SpecSystemAttribute>, int), SpecSyntaxError>(
            (None, pos + 1),
        ),
        spec_params(ts, pos + 2) == read_fields(f.params, at_third),
        at(ts, at_third) == Some(SpecToken::Colon),
        spec_parse_type(ts, at_third + 1) == Ok::<(SpecType, int), SpecSyntaxError>(
            (f.return_type, at_fourth),
        ),
        spec_library(ts, at_fourth) == (f.library, at_fifth),
        at(ts, at_fifth) == Some(SpecToken::Semicolon),
    ensures
        spec_parse_extern(ts, pos) == Ok::<(SpecExternFunctionDef, int), SpecSyntaxError>(
            (f, at_fifth + 1),
        ),
{
}

/// Reading the tokens of an extern function gives the function.
pub proof fn lemma_parse_extern(f: SpecExternFunctionDef, ts: Seq<SpecToken>, pos: int)
    requires
        are_written_fields(f.params),
        is_written_type(f.return_type),
        stands_at(ts, pos, spec_extern_tokens(f)),
    ensures
        spec_parse_extern(ts, pos) == Ok::<(SpecExternFunctionDef, int), SpecSyntaxError>(
            (f, pos + spec_extern_tokens(f).len()),
        ),
{
    let head = seq![SpecToken::Fn, SpecToken::Ident(f.name)];
    let params = spec_params_tokens(f.params);
    let ty = spec_type_tokens(f.return_type);
    let library = match f.library {
        Some(l) => seq![SpecToken::Ident("from"@), SpecToken::StringLit(l)],
        None => Seq::empty(),
    };
    let at_third = pos + 2 + params.len();
    let at_fourth = at_third + 1 + ty.len();
    let at_fifth = at_fourth + library.len();
    lemma_stands_concat(
        ts,
        pos,
        head + params + seq![SpecToken::Colon] + ty + library,
        seq![SpecToken::Semicolon],
    );
    lemma_stands_concat(ts, pos, head + params + seq![SpecToken::Colon] + ty, library);
    lemma_stands_concat(ts, pos, head + params + seq![SpecToken::Colon], ty);
    lemma_stands_concat(ts, pos, head + params, seq![SpecToken::Colon]);
    lemma_stands_concat(ts, pos, head, params);
    assert(ts[pos + 0] == head[0] && ts[pos + 1] == head[1]);
    lemma_stands_one(ts, at_third, SpecToken::Colon);
    lemma_stands_one(ts, at_fifth, SpecToken::Semicolon);
    lemma_parse_params(f.params, ts, pos + 2);
    lemma_parse_type(f.return_type, ts, at_third + 1);
    match f.library {
        Some(l) => {
            assert(ts[at_fourth + 0] == library[0] && ts[at_fourth + 1] == library[1]);
        },
        None => {},
    }
    assert(spec_attribute(ts, pos + 1) == Ok::<(Option<SpecSystemAttribute>, int), SpecSyntaxError>(
        (None, pos + 1),
    ));
    lemma_extern_parses(ts, pos, f, at_third, at_fourth, at_fifth);
}

/// The token of a stage.
pub open spec fn spec_stage_token(stage: ShaderStage) -> SpecToken {
    match stage {
        ShaderStage::Vertex => SpecToken::Vertex,
        ShaderStage::Fragment => SpecToken::Fragment,
        ShaderStage::Compute => SpecToken::Compute,
        ShaderStage::Geometry => SpecToken::Geometry,
        ShaderStage::TessellationControl => SpecToken::TessellationControl,
        ShaderStage::TessellationEvaluation => SpecToken::TessellationEvaluation,
    }
}

/// The tokens of a shader after `shader`: the stage, the name and the path.
pub open spec fn spec_shader_tokens(d: SpecShaderDef) -> Seq<SpecToken> {
    seq![spec_stage_token(d.stage), SpecToken::Ident(d.name), SpecToken::StringLit(d.path)]
}

/// Reading the tokens of a shader, where no brace follows them, gives the shader.
pub proof fn lemma_parse_shader(d: SpecShaderDef, ts: Seq<SpecToken>, pos: int)
    requires
        stands_at(ts, pos, spec_shader_tokens(d)),
        at(ts, pos + 3) != Some(SpecToken::LBrace),
    ensures
        spec_parse_shader(ts, pos) == Ok::<(SpecShaderDef, int), SpecSyntaxError>((d, pos + 3)),
{
    let piece = spec_shader_tokens(d);
    assert(ts[pos + 0] == piece[0] && ts[pos + 1] == piece[1] && ts[pos + 2] == piece[2]);
}

/// The tokens of the functions of a system from the `from`-th on: each after `fn`.
pub open spec fn spec_members_tokens(fs: Seq<SpecFunctionDef>, from: nat) -> Seq<SpecToken>
    decreases fs.len() - from,
{
    if from >= fs.len() {
        Seq::empty()
    } else {
        seq![SpecToken::Fn] + spec_function_tokens(fs[from as int]) + spec_members_tokens(
            fs,
            from + 1,
        )
    }
}

/// Whether source text can hold every function of a list.
pub open spec fn are_written_functions(fs: Seq<SpecFunctionDef>) -> bool {
    forall|i: int| 0 <= i < fs.len() ==> is_written_function(#[trigger] fs[i])
}

/// Reading the tokens of the functions of a system with the closing brace
/// after them gives the functions.
pub proof fn lemma_parse_members(
    fs: Seq<SpecFunctionDef>,
    from: nat,
    ts: Seq<SpecToken>,
    pos: int,
    acc: Seq<SpecFunctionDef>,
)
    requires
        from <= fs.len(),
        are_written_functions(fs),
        stands_at(ts, pos, spec_members_tokens(fs, from)),
        at(ts, pos + spec_members_tokens(fs, from).len()) == Some(SpecToken::RBrace),
    ensures
        spec_system_functions(ts, pos, acc) == Ok::<(Seq<SpecFunctionDef>, int), SpecSyntaxError>(
            (acc + fs.skip(from as int), pos + spec_members_tokens(fs, from).len() + 1),
        ),
    decreases fs.len() - from,
{
    if from >= fs.len() {
        assert(acc + fs.skip(from as int) =~= acc);
    } else {
        let f = fs[from as int];
        let first = spec_function_tokens(f);
        let rest = spec_members_tokens(fs, from + 1);
        lemma_stands_concat(ts, pos, seq![SpecToken::Fn] + first, rest);
        lemma_stands_concat(ts, pos, seq![SpecToken::Fn], first);
        lemma_stands_one(ts, pos, SpecToken::Fn);
        lemma_parse_function(f, ts, pos + 1);
        lemma_parse_members(fs, from + 1, ts, pos + 1 + first.len(), acc.push(f));
        assert(moved(ts, pos, pos + 1 + first.len()));
        assert(spec_system_functions(ts, pos, acc) == spec_system_functions(
            ts,
            pos + 1 + first.len(),
            acc.push(f),
        ));
        assert(acc.push(f) + fs.skip((from + 1) as int) =~= acc + fs.skip(from as int));
    }
}

/// The tokens of a system after `system`: the name and the functions in braces.
pub open spec fn spec_system_tokens(d: SpecSystemDef) -> Seq<SpecToken> {
    seq![SpecToken::Ident(d.name), SpecToken::LBrace] + spec_members_tokens(d.functions, 0) + seq![
        SpecToken::RBrace,
    ]
}

/// Reading the tokens of a system gives the system.
pub proof fn lemma_parse_system(d: SpecSystemDef, ts: Seq<SpecToken>, pos: int)
    requires
        d.attribute is None,
        are_written_functions(d.functions),
        stands_at(ts, pos, spec_system_tokens(d)),
    ensures
        spec_parse_system(ts, pos) == Ok::<(SpecSystemDef, int), SpecSyntaxError>(
            (d, pos + spec_system_tokens(d).len()),
        ),
{
    let head = seq![SpecToken::Ident(d.name), SpecToken::LBrace];
    let list = spec_members_tokens(d.functions, 0);
    lemma_stands_concat(ts, pos, head + list, seq![SpecToken::RBrace]);
    lemma_stands_concat(ts, pos, head, list);
    assert(ts[pos + 0] == head[0] && ts[pos + 1] == head[1]);
    lemma_stands_one(ts, pos + 2 + list.len(), SpecToken::RBrace);
    lemma_parse_members(d.functions, 0, ts, pos + 2, Seq::empty());
    assert(Seq::<SpecFunctionDef>::empty() + d.functions.skip(0) =~= d.functions);
}

/// The tokens of a type alias after `type`.
pub open spec fn spec_alias_tokens(a: SpecTypeAliasDef) -> Seq<SpecToken> {
    seq![SpecToken::Ident(a.name), SpecToken::Eq] + spec_type_tokens(a.target_type) + seq![
        SpecToken::Semicolon,
    ]
}

/// Reading the tokens of a type alias gives the alias.
pub proof fn lemma_parse_alias(a: SpecTypeAliasDef, ts: Seq<SpecToken>, pos: int)
    requires
        is_written_type(a.target_type),
        stands_at(ts, pos, spec_alias_tokens(a)),
    ensures
        spec_parse_alias(ts, pos) == Ok::<(SpecTypeAliasDef, int), SpecSyntaxError>(
            (a, pos + spec_alias_tokens(a).len()),
        ),
{
    let head = seq![SpecToken::Ident(a.name), SpecToken::Eq];
    let ty = spec_type_tokens(a.target_type);
    lemma_stands_concat(ts, pos, head + ty, seq![SpecToken::Semicolon]);
    lemma_stands_concat(ts, pos, head, ty);
    assert(ts[pos + 0] == head[0] && ts[pos + 1] == head[1]);
    lemma_stands_one(ts, pos + 2 + ty.len(), SpecToken::Semicolon);
    lemma_parse_type(a.target_type, ts, pos + 2);
}

/// The keyword that begins an item.
pub open spec fn spec_item_keyword(item: SpecItem) -> SpecToken {
    match item {
        SpecItem::Struct(_) => SpecToken::Struct,
        SpecItem::Component(_) => SpecToken::Component,
        SpecItem::MeshSOA(_) => SpecToken::MeshSOA,
        SpecItem::ComponentSOA(_) => SpecToken::ComponentSOA,
        SpecItem::Shader(_) => SpecToken::Shader,
        SpecItem::System(_) => SpecToken::System,
        SpecItem::Function(_) => SpecToken::Fn,
        SpecItem::ExternFunction(_) => SpecToken::Extern,
        SpecItem::TypeAlias(_) => SpecToken::Type,
    }
}

/// The tokens of an item: its keyword and what the item is made of.
pub open spec fn spec_item_tokens(item: SpecItem) -> Seq<SpecToken> {
    seq![spec_item_keyword(item)] + (match item {
        SpecItem::Struct(d) => spec_record_tokens(d),
        SpecItem::Component(d) => spec_record_tokens(d),
        SpecItem::MeshSOA(d) => spec_record_tokens(d),
        SpecItem::ComponentSOA(d) => spec_record_tokens(d),
        SpecItem::Shader(d) => spec_shader_tokens(d),
        SpecItem::System(d) => spec_system_tokens(d),
        SpecItem::Function(d) => spec_function_tokens(d),
        SpecItem::ExternFunction(d) => spec_extern_tokens(d),
        SpecItem::TypeAlias(d) => spec_alias_tokens(d),
    })
}

/// The items that source text can hold: what the parser gives for some text.
pub open spec fn is_written_item(item: SpecItem) -> bool {
    match item {
        SpecItem::Struct(d) => are_written_fields(d.fields),
        SpecItem::Component(d) => are_written_fields(d.fields),
        SpecItem::MeshSOA(d) => are_written_fields(d.fields),
        SpecItem::ComponentSOA(d) => are_written_fields(d.fields),
        SpecItem::Shader(d) => true,
        SpecItem::System(d) => d.attribute is None && are_written_functions(d.functions),
        SpecItem::Function(d) => is_written_function(d),
        SpecItem::ExternFunction(d) => are_written_fields(d.params) && is_written_type(
            d.return_type,
        ),
        SpecItem::TypeAlias(d) => is_written_type(d.target_type),
    }
}

/// Reading the tokens of an item, where no brace follows them, gives the item.
pub proof fn lemma_parse_item(item: SpecItem, ts: Seq<SpecToken>, pos: int)
    requires
        is_written_item(item),
        stands_at(ts, pos, spec_item_tokens(item)),
        at(ts, pos + spec_item_tokens(item).len()) != Some(SpecToken::LBrace),
    ensures
        spec_parse_item(ts, pos) == Ok::<(SpecParsedItem, int), SpecSyntaxError>(
            (SpecParsedItem::Item(item), pos + spec_item_tokens(item).len()),
        ),
        spec_item_tokens(item).len() > 0,
        at(ts, pos) == Some(spec_item_keyword(item)),
{
    let keyword = spec_item_keyword(item);
    let rest = spec_item_tokens(item).skip(1);
    assert(spec_item_tokens(item) =~= seq![keyword] + rest);
    lemma_stands_concat(ts, pos, seq![keyword], rest);
    lemma_stands_one(ts, pos, keyword);
    match item {
        SpecItem::Struct(d) => {
            assert(rest =~= spec_record_tokens(d));
            lemma_parse_record(d, ts, pos + 1);
        },
        SpecItem::Component(d) => {
            assert(rest =~= spec_record_tokens(d));
            lemma_parse_record(d, ts, pos + 1);
        },
        SpecItem::MeshSOA(d) => {
            assert(rest =~= spec_record_tokens(d));
            lemma_parse_record(d, ts, pos + 1);
        },
        SpecItem::ComponentSOA(d) => {
            assert(rest =~= spec_record_tokens(d));
            lemma_parse_record(d, ts, pos + 1);
        },
        SpecItem::Shader(d) => {
            assert(rest =~= spec_shader_tokens(d));
            lemma_parse_shader(d, ts, pos + 1);
        },
        SpecItem::System(d) => {
            assert(rest =~= spec_system_tokens(d));
            lemma_parse_system(d, ts, pos + 1);
        },
        SpecItem::Function(d) => {
            assert(rest =~= spec_function_tokens(d));
            lemma_parse_function(d, ts, pos + 1);
        },
        SpecItem::ExternFunction(d) => {
            assert(rest =~= spec_extern_tokens(d));
            lemma_parse_extern(d, ts, pos + 1);
        },
        SpecItem::TypeAlias(d) => {
            assert(rest =~= spec_alias_tokens(d));
            lemma_parse_alias(d, ts, pos + 1);
        },
    }
}

/// The tokens of the items from the `from`-th on.
pub open spec fn spec_items_tokens(items: Seq<SpecItem>, from: nat) -> Seq<SpecToken>
    decreases items.len() - from,
{
    if from >= items.len() {
        Seq::empty()
    } else {
        spec_item_tokens(items[from as int]) + spec_items_tokens(items, from + 1)
    }
}

/// The tokens of a program.
pub open spec fn spec_program_tokens(items: Seq<SpecItem>) -> Seq<SpecToken> {
    spec_items_tokens(items, 0)
}

/// The programs that source text can hold.
pub open spec fn is_written_program(items: Seq<SpecItem>) -> bool {
    forall|i: int| 0 <= i < items.len() ==> is_written_item(#[trigger] items[i])
}

/// The state of a parser that has read `items` of one file up to `current`.
pub open spec fn spec_reading(
    tokens: Seq<SpecToken>,
    current: int,
    file: Option<(Seq<char>, SpecFilePlace)>,
    items: Seq<SpecItem>,
) -> SpecParser {
    SpecParser { frames: seq![SpecFrame { tokens, current, file, items }], pending: false }
}

/// Where the tokens of items stand up to the end of the tokens, an item's
/// keyword or nothing comes first.
proof fn lemma_items_begin(items: Seq<SpecItem>, from: nat, ts: Seq<SpecToken>, pos: int)
    requires
        is_written_program(items),
        stands_at(ts, pos, spec_items_tokens(items, from)),
        pos + spec_items_tokens(items, from).len() == ts.len(),
    ensures
        at(ts, pos) != Some(SpecToken::LBrace),
        from >= items.len() ==> pos == ts.len(),
        from < items.len() ==> pos < ts.len(),
{
    if from < items.len() {
        let item = items[from as int];
        let first = spec_item_tokens(item);
        lemma_stands_concat(ts, pos, first, spec_items_tokens(items, from + 1));
        assert(ts[pos + 0] == first[0]);
    }
}

/// Parsing the tokens of the items from the `from`-th on, after the items
/// `acc`, ends with the program of all of them.
pub proof fn lemma_run_reads_items(
    items: Seq<SpecItem>,
    from: nat,
    ts: Seq<SpecToken>,
    pos: int,
    file: Option<(Seq<char>, SpecFilePlace)>,
    acc: Seq<SpecItem>,
)
    requires
        from <= items.len(),
        is_written_program(items),
        stands_at(ts, pos, spec_items_tokens(items, from)),
        pos + spec_items_tokens(items, from).len() == ts.len(),
    ensures
        spec_run(spec_reading(ts, pos, file, acc)).1 == Ok::<SpecParseStep, SpecParseError>(
            SpecParseStep::Done(acc + items.skip(from as int)),
        ),
    decreases items.len() - from,
{
    let state = spec_reading(ts, pos, file, acc);
    lemma_items_begin(items, from, ts, pos);
    assert(state.frames.last() == state.frames[0]);
    if from >= items.len() {
        assert(acc + items.skip(from as int) =~= acc);
        assert(spec_step(state) == SpecProgress::Stop(
            SpecParser { frames: Seq::empty(), pending: false },
            Ok(SpecParseStep::Done(acc)),
        ));
    } else {
        let item = items[from as int];
        let first = spec_item_tokens(item);
        let next_pos = pos + first.len();
        lemma_stands_concat(ts, pos, first, spec_items_tokens(items, from + 1));
        lemma_items_begin(items, from + 1, ts, next_pos);
        lemma_parse_item(item, ts, pos);
        let next = spec_reading(ts, next_pos, file, acc.push(item));
        assert(with_top(
            state,
            SpecFrame { tokens: ts, current: next_pos, file, items: acc.push(item) },
        ).frames =~= next.frames);
        assert(spec_step(state) == SpecProgress::Continue(next));
        assert(next.frames.last() == next.frames[0]);
        assert(spec_nearer(next, state));
        lemma_run_reads_items(items, from + 1, ts, next_pos, file, acc.push(item));
        assert(acc.push(item) + items.skip((from + 1) as int) =~= acc + items.skip(from as int));
    }
}

/// Parsing the tokens of a program gives the program: whatever the parser
/// can give for some text, it gives for the tokens that the program is
/// written with.
pub proof fn lemma_parse_written_program(
    items: Seq<SpecItem>,
    file: Option<(Seq<char>, SpecFilePlace)>,
)
    requires
        is_written_program(items),
    ensures
        spec_run(spec_reading(spec_program_tokens(items), 0, file, Seq::empty())).1 == Ok::<
            SpecParseStep,
            SpecParseError,
        >(SpecParseStep::Done(items)),
{
    let ts = spec_program_tokens(items);
    lemma_run_reads_items(items, 0, ts, 0, file, Seq::empty());
    assert(Seq::<SpecItem>::empty() + items.skip(0) =~= items);
}

/// The text of a program: the text of its tokens.
pub open spec fn spec_program_text(items: Seq<SpecItem>) -> Seq<char> {
    spec_tokens_text(spec_program_tokens(items), 0)
}

/// Writing a program as text and reading the text back gives the program:
/// the text's tokens are the program's tokens, and parsing them gives the
/// program's items.
///
/// This holds of every program that text can hold: one that the parser
/// gives for some text, whose names are identifiers, whose floating-point
/// numbers have their form and whose strings hold no double quote.
pub proof fn lemma_written_program_round_trip(
    items: Seq<SpecItem>,
    file: Option<(Seq<char>, SpecFilePlace)>,
)
    requires
        is_written_program(items),
        are_written_tokens(spec_program_tokens(items)),
    ensures
        spec_tokenize(spec_program_text(items)) == Ok::<Seq<SpecToken>, LexicalError>(
            spec_program_tokens(items),
        ),
        spec_run(spec_reading(spec_program_tokens(items), 0, file, Seq::empty())).1 == Ok::<
            SpecParseStep,
            SpecParseError,
        >(SpecParseStep::Done(items)),
{
    lemma_tokenize_written(spec_program_tokens(items));
    lemma_parse_written_program(items, file);
}

} // verus!
