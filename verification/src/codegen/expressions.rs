//! How an expression is written in the generated code.

use crate::ast::{
    expr_view, exprs_view, named_exprs_view, types_view, BinaryOp, Expression, Literal,
    SpecExpression, SpecLiteral, SpecType, Type, UnaryOp,
};
use crate::codegen::types::spec_type_texts;
use crate::codegen::CodeGenerator;
use crate::error::{first_error, lemma_first_error_at, lemma_first_error_none};
use crate::text::{
    decimal, join, lemma_concat_push, skip_chars, spec_concat, spec_decimal,
    spec_join, starts_with, str_equal, texts,
};
use vstd::prelude::*;

verus! {

/// Why a program that type-checks cannot be turned into code.
#[derive(Debug, Clone, PartialEq, Eq)]
pub enum GenerationError {
    /// The source file of a shader was found in none of the places searched.
    ShaderSourceNotFound(String),
    /// The shader compiler could not be run or reported failure; `diagnostics`
    /// is what it wrote to its error stream.
    ShaderCompilationFailed { path: String, diagnostics: String },
    /// The shader compiler reported success and left no binary to read.
    ShaderBinaryMissing(String),
    /// No outcome of compiling the shader of this name was handed in.
    ShaderNotCompiled(String),
    /// `alloc_array` called without a type argument.
    AllocArrayWithoutTypeArgument,
    /// `alloc_array` called with a number of type arguments other than one.
    AllocArrayTypeArgumentCount(usize),
}

/// Model of [`GenerationError`].
pub enum SpecGenerationError {
    ShaderSourceNotFound(Seq<char>),
    ShaderCompilationFailed { path: Seq<char>, diagnostics: Seq<char> },
    ShaderBinaryMissing(Seq<char>),
    ShaderNotCompiled(Seq<char>),
    AllocArrayWithoutTypeArgument,
    AllocArrayTypeArgumentCount(usize),
}

impl View for GenerationError {
    type V = SpecGenerationError;

    open spec fn view(&self) -> SpecGenerationError {
        match self {
            GenerationError::ShaderSourceNotFound(p) => SpecGenerationError::ShaderSourceNotFound(
                p@,
            ),
            GenerationError::ShaderCompilationFailed { path, diagnostics } => {
                SpecGenerationError::ShaderCompilationFailed {
                    path: path@,
                    diagnostics: diagnostics@,
                }
            },
            GenerationError::ShaderBinaryMissing(p) => SpecGenerationError::ShaderBinaryMissing(p@),
            GenerationError::ShaderNotCompiled(n) => SpecGenerationError::ShaderNotCompiled(n@),
            GenerationError::AllocArrayWithoutTypeArgument => {
                SpecGenerationError::AllocArrayWithoutTypeArgument
            },
            GenerationError::AllocArrayTypeArgumentCount(n) => {
                SpecGenerationError::AllocArrayTypeArgumentCount(*n)
            },
        }
    }
}

/// The model of an error that may be absent.
pub open spec fn fault_view(e: Option<GenerationError>) -> Option<SpecGenerationError> {
    match e {
        Some(e) => Some(e@),
        None => None,
    }
}

/// The first of two faults.
pub open spec fn or_else(a: Option<SpecGenerationError>, b: Option<SpecGenerationError>) -> Option<
    SpecGenerationError,
> {
    if a is Some {
        a
    } else {
        b
    }
}

/// The text of a literal: an integer in decimal, a floating-point number as
/// it was written, `true` or `false`, a string between double quotes.
pub open spec fn spec_literal_text(l: SpecLiteral) -> Seq<char> {
    match l {
        SpecLiteral::Int(n) => spec_decimal(n as int),
        SpecLiteral::Float(t) => t,
        SpecLiteral::Bool(b) => if b {
            "true"@
        } else {
            "false"@
        },
        SpecLiteral::String(t) => "\""@ + t + "\""@,
    }
}

/// The symbol of a binary operator.
pub open spec fn spec_binary_op_text(op: BinaryOp) -> Seq<char> {
    match op {
        BinaryOp::Add => "+"@,
        BinaryOp::Sub => "-"@,
        BinaryOp::Mul => "*"@,
        BinaryOp::Div => "/"@,
        BinaryOp::Mod => "%"@,
        BinaryOp::Eq => "=="@,
        BinaryOp::Ne => "!="@,
        BinaryOp::Lt => "<"@,
        BinaryOp::Le => "<="@,
        BinaryOp::Gt => ">"@,
        BinaryOp::Ge => ">="@,
        BinaryOp::And => "&&"@,
        BinaryOp::Or => "||"@,
        BinaryOp::BitwiseOr => "|"@,
        BinaryOp::Pipe => "|>"@,
    }
}

/// The symbol of a unary operator.
pub open spec fn spec_unary_op_text(op: UnaryOp) -> Seq<char> {
    match op {
        UnaryOp::Neg => "-"@,
        UnaryOp::Not => "!"@,
    }
}

/// The name under which a function is called: a name that begins with
/// `ImGui_` is moved into the namespace `ImGui::`.
pub open spec fn spec_callee_text(name: Seq<char>) -> Seq<char> {
    if "ImGui_"@.is_prefix_of(name) {
        "ImGui::"@ + name.skip("ImGui_"@.len() as int)
    } else {
        name
    }
}

/// The text of `print(args)`: the arguments streamed to standard output, then
/// a line end.
pub open spec fn spec_print_text(args: Seq<Seq<char>>) -> Seq<char> {
    "std::cout"@ + spec_concat(args.map_values(|a: Seq<char>| " << "@ + a)) + " << std::endl"@
}

/// The text of a call, given the texts of its arguments.
pub open spec fn spec_call_text(name: Seq<char>, args: Seq<Seq<char>>) -> Seq<char> {
    if name == "print"@ {
        spec_print_text(args)
    } else {
        spec_callee_text(name) + "("@ + spec_join(args, ", "@) + ")"@
    }
}

/// The text of one named argument: the name in a comment, then the value.
pub open spec fn spec_named_arg_text(name: Seq<char>, value: Seq<char>) -> Seq<char> {
    "/* "@ + name + " = */ "@ + value
}

/// The text of a call with named arguments, given the texts of its arguments.
pub open spec fn spec_named_call_text(name: Seq<char>, args: Seq<Seq<char>>) -> Seq<char> {
    name + "("@ + spec_join(args, ", "@) + ")"@
}

/// The text of a method call, given the texts of its parts.
pub open spec fn spec_method_call_text(
    object: Seq<char>,
    method: Seq<char>,
    type_args: Option<Seq<Seq<char>>>,
    args: Seq<Seq<char>>,
) -> Seq<char> {
    object + "."@ + method + (match type_args {
        Some(ts) => "<"@ + spec_join(ts, ", "@) + ">"@,
        None => Seq::empty(),
    }) + "("@ + spec_join(args, ", "@) + ")"@
}

/// The text of a value with a byte-size suffix: the value times the power of
/// 1024 that the suffix names; with any other suffix, the value and the
/// suffix in a comment.
pub open spec fn spec_unit_text(value: Seq<char>, unit: Seq<char>) -> Seq<char> {
    if unit == "MIB"@ {
        "("@ + value + " * 1024 * 1024)"@
    } else if unit == "KIB"@ {
        "("@ + value + " * 1024)"@
    } else if unit == "GIB"@ {
        "("@ + value + " * 1024 * 1024 * 1024)"@
    } else {
        value + " /* "@ + unit + " */"@
    }
}

/// The text of one field of a struct literal.
pub open spec fn spec_field_init_text(name: Seq<char>, value: Seq<char>) -> Seq<char> {
    "."@ + name + " = "@ + value
}

/// The texts of the types of an optional list of type arguments.
pub open spec fn spec_type_args_texts(type_args: Option<Seq<SpecType>>) -> Option<Seq<Seq<char>>> {
    match type_args {
        Some(ts) => Some(spec_type_texts(ts)),
        None => None,
    }
}

/// The generated text of an expression.
///
/// A pipe `a |> f(args)` is written as the call `f(a, args)`: the left side
/// becomes the first argument of a call, a call with named arguments or a
/// method call on the right; any other right side is applied to the left side
/// as its only argument.
pub open spec fn spec_expression_text(e: SpecExpression) -> Seq<char>
    decreases e,
{
    match e {
        SpecExpression::Literal(l) => spec_literal_text(l),
        SpecExpression::Variable(n) => n,
        SpecExpression::BinaryOp { op, left, right } => {
            if op == BinaryOp::Pipe {
                match *right {
                    SpecExpression::Call { name, args } => spec_call_text(
                        name,
                        seq![spec_expression_text(*left)] + spec_expression_texts(args),
                    ),
                    SpecExpression::NamedCall { name, named_args } => spec_named_call_text(
                        name,
                        seq![spec_expression_text(*left)] + spec_named_arg_texts(named_args),
                    ),
                    SpecExpression::MethodCall {
                        object,
                        method,
                        type_args,
                        args,
                    } => spec_method_call_text(
                        spec_expression_text(*object),
                        method,
                        spec_type_args_texts(type_args),
                        seq![spec_expression_text(*left)] + spec_expression_texts(args),
                    ),
                    _ => spec_expression_text(*right) + "("@ + spec_expression_text(*left) + ")"@,
                }
            } else {
                "("@ + spec_expression_text(*left) + " "@ + spec_binary_op_text(op) + " "@
                    + spec_expression_text(*right) + ")"@
            }
        },
        SpecExpression::UnaryOp { op, expr } => spec_unary_op_text(op) + "("@
            + spec_expression_text(*expr) + ")"@,
        SpecExpression::Call { name, args } => spec_call_text(name, spec_expression_texts(args)),
        SpecExpression::NamedCall { name, named_args } => spec_named_call_text(
            name,
            spec_named_arg_texts(named_args),
        ),
        SpecExpression::MemberAccess { object, member } => spec_expression_text(*object) + "."@
            + member,
        SpecExpression::MethodCall { object, method, type_args, args } => spec_method_call_text(
            spec_expression_text(*object),
            method,
            spec_type_args_texts(type_args),
            spec_expression_texts(args),
        ),
        SpecExpression::Index { array, index } => spec_expression_text(*array) + "["@
            + spec_expression_text(*index) + "]"@,
        SpecExpression::StructLiteral { name, fields } => name + " {"@ + spec_join(
            spec_field_init_texts(fields),
            ", "@,
        ) + "}"@,
        SpecExpression::EnumLiteral(n) => n,
        SpecExpression::UnitSuffix { value, unit } => spec_unit_text(
            spec_expression_text(*value),
            unit,
        ),
    }
}

/// The texts of a list of expressions, in order.
pub open spec fn spec_expression_texts(es: Seq<SpecExpression>) -> Seq<Seq<char>>
    decreases es,
{
    Seq::new(
        es.len(),
        |i: int|
            if 0 <= i < es.len() {
                spec_expression_text(es[i])
            } else {
                Seq::empty()
            },
    )
}

/// The texts of a list of named arguments, in order.
pub open spec fn spec_named_arg_texts(es: Seq<(Seq<char>, SpecExpression)>) -> Seq<Seq<char>>
    decreases es,
{
    Seq::new(
        es.len(),
        |i: int|
            if 0 <= i < es.len() {
                spec_named_arg_text(es[i].0, spec_expression_text(es[i].1))
            } else {
                Seq::empty()
            },
    )
}

/// The texts of the fields of a struct literal, in order.
pub open spec fn spec_field_init_texts(es: Seq<(Seq<char>, SpecExpression)>) -> Seq<Seq<char>>
    decreases es,
{
    Seq::new(
        es.len(),
        |i: int|
            if 0 <= i < es.len() {
                spec_field_init_text(es[i].0, spec_expression_text(es[i].1))
            } else {
                Seq::empty()
            },
    )
}

/// The fault of a method call in itself: `alloc_array` takes exactly one type
/// argument.
pub open spec fn spec_method_fault(method: Seq<char>, type_args: Option<Seq<SpecType>>) -> Option<
    SpecGenerationError,
> {
    if method == "alloc_array"@ {
        match type_args {
            None => Some(SpecGenerationError::AllocArrayWithoutTypeArgument),
            Some(ts) => if ts.len() == 1 {
                None
            } else {
                Some(SpecGenerationError::AllocArrayTypeArgumentCount(ts.len() as usize))
            },
        }
    } else {
        None
    }
}

/// The first fault in an expression, in the order in which its parts are
/// written out: an `alloc_array` with a malformed list of type arguments.
pub open spec fn spec_expression_fault(e: SpecExpression) -> Option<SpecGenerationError>
    decreases e,
{
    match e {
        SpecExpression::Literal(_) => None,
        SpecExpression::Variable(_) => None,
        SpecExpression::BinaryOp { op, left, right } => or_else(
            spec_expression_fault(*left),
            spec_expression_fault(*right),
        ),
        SpecExpression::UnaryOp { op, expr } => spec_expression_fault(*expr),
        SpecExpression::Call { name, args } => first_error(spec_expression_faults(args)),
        SpecExpression::NamedCall { name, named_args } => first_error(
            spec_named_faults(named_args),
        ),
        SpecExpression::MemberAccess { object, member } => spec_expression_fault(*object),
        SpecExpression::MethodCall { object, method, type_args, args } => or_else(
            spec_expression_fault(*object),
            or_else(spec_method_fault(method, type_args), first_error(spec_expression_faults(args))),
        ),
        SpecExpression::Index { array, index } => or_else(
            spec_expression_fault(*array),
            spec_expression_fault(*index),
        ),
        SpecExpression::StructLiteral { name, fields } => first_error(spec_named_faults(fields)),
        SpecExpression::EnumLiteral(_) => None,
        SpecExpression::UnitSuffix { value, unit } => spec_expression_fault(*value),
    }
}

/// The first fault of each expression of a list.
pub open spec fn spec_expression_faults(es: Seq<SpecExpression>) -> Seq<Option<SpecGenerationError>>
    decreases es,
{
    Seq::new(
        es.len(),
        |i: int|
            if 0 <= i < es.len() {
                spec_expression_fault(es[i])
            } else {
                None
            },
    )
}

/// The first fault of the value of each named expression of a list.
pub open spec fn spec_named_faults(es: Seq<(Seq<char>, SpecExpression)>) -> Seq<
    Option<SpecGenerationError>,
>
    decreases es,
{
    Seq::new(
        es.len(),
        |i: int|
            if 0 <= i < es.len() {
                spec_expression_fault(es[i].1)
            } else {
                None
            },
    )
}

/// The outcome of generating an expression: its first fault, or its text.
pub open spec fn spec_generate_expression(e: SpecExpression) -> Result<
    Seq<char>,
    SpecGenerationError,
> {
    match spec_expression_fault(e) {
        Some(x) => Err(x),
        None => Ok(spec_expression_text(e)),
    }
}

/// The model of a generated text or the error in its place.
pub open spec fn generated_view(r: Result<String, GenerationError>) -> Result<
    Seq<char>,
    SpecGenerationError,
> {
    match r {
        Ok(t) => Ok(t@),
        Err(e) => Err(e@),
    }
}

/// The text of a literal.
pub fn literal_text(l: &Literal) -> (r: String)
    ensures
        r@ == spec_literal_text(l@),
{
    match l {
        Literal::Int(n) => decimal(*n),
        Literal::Float(t) => t.clone(),
        Literal::Bool(b) => if *b {
            "true".to_owned()
        } else {
            "false".to_owned()
        },
        Literal::String(t) => {
            let mut out = "\"".to_owned();
            out.append(t.as_str());
            out.append("\"");
            out
        },
    }
}

/// The symbol of a binary operator.
pub fn binary_op_text(op: BinaryOp) -> (r: &'static str)
    ensures
        r@ == spec_binary_op_text(op),
{
    match op {
        BinaryOp::Add => "+",
        BinaryOp::Sub => "-",
        BinaryOp::Mul => "*",
        BinaryOp::Div => "/",
        BinaryOp::Mod => "%",
        BinaryOp::Eq => "==",
        BinaryOp::Ne => "!=",
        BinaryOp::Lt => "<",
        BinaryOp::Le => "<=",
        BinaryOp::Gt => ">",
        BinaryOp::Ge => ">=",
        BinaryOp::And => "&&",
        BinaryOp::Or => "||",
        BinaryOp::BitwiseOr => "|",
        BinaryOp::Pipe => "|>",
    }
}

/// The symbol of a unary operator.
pub fn unary_op_text(op: UnaryOp) -> (r: &'static str)
    ensures
        r@ == spec_unary_op_text(op),
{
    match op {
        UnaryOp::Neg => "-",
        UnaryOp::Not => "!",
    }
}

/// The name under which a function is called.
pub fn callee_text(name: &str) -> (r: String)
    ensures
        r@ == spec_callee_text(name@),
{
    if starts_with(name, "ImGui_") {
        proof {
            reveal_strlit("ImGui_");
        }
        let rest = skip_chars(name, 6);
        let mut out = "ImGui::".to_owned();
        out.append(rest.as_str());
        out
    } else {
        name.to_owned()
    }
}

/// The text of a call, given the texts of its arguments.
pub fn call_text(name: &str, args: &Vec<String>) -> (r: String)
    ensures
        r@ == spec_call_text(name@, texts(args@)),
{
    if str_equal(name, "print") {
        let mut out = "std::cout".to_owned();
        let ghost pieces = texts(args@).map_values(|a: Seq<char>| " << "@ + a);
        let mut i: usize = 0;
        while i < args.len()
            invariant
                i <= args.len(),
                pieces == texts(args@).map_values(|a: Seq<char>| " << "@ + a),
                out@ == "std::cout"@ + spec_concat(pieces.take(i as int)),
            decreases args.len() - i,
        {
            out.append(" << ");
            out.append(args[i].as_str());
            proof {
                lemma_concat_push(pieces.take(i as int), pieces[i as int]);
                assert(pieces.take(i + 1) =~= pieces.take(i as int).push(pieces[i as int]));
                assert(out@ =~= "std::cout"@ + spec_concat(pieces.take(i + 1)));
            }
            i += 1;
        }
        assert(pieces.take(args.len() as int) =~= pieces);
        out.append(" << std::endl");
        out
    } else {
        let mut out = callee_text(name);
        out.append("(");
        let joined = join(args, ", ");
        out.append(joined.as_str());
        out.append(")");
        out
    }
}

/// The text of a call with named arguments, given the texts of its arguments.
pub fn named_call_text(name: &str, args: &Vec<String>) -> (r: String)
    ensures
        r@ == spec_named_call_text(name@, texts(args@)),
{
    let mut out = name.to_owned();
    out.append("(");
    let joined = join(args, ", ");
    out.append(joined.as_str());
    out.append(")");
    out
}

/// The text of a method call, given the texts of its parts.
pub fn method_call_text(
    object: &str,
    method: &str,
    type_args: &Option<Vec<String>>,
    args: &Vec<String>,
) -> (r: String)
    ensures
        r@ == spec_method_call_text(
            object@,
            method@,
            match type_args {
                Some(ts) => Some(texts(ts@)),
                None => None,
            },
            texts(args@),
        ),
{
    let mut out = object.to_owned();
    out.append(".");
    out.append(method);
    match type_args {
        Some(ts) => {
            out.append("<");
            let joined = join(ts, ", ");
            out.append(joined.as_str());
            out.append(">");
        },
        None => {
            assert(out@ =~= object@ + "."@ + method@ + Seq::<char>::empty());
        },
    }
    out.append("(");
    let joined = join(args, ", ");
    out.append(joined.as_str());
    out.append(")");
    out
}

/// The text of a value with a byte-size suffix.
pub fn unit_text(value: &str, unit: &str) -> (r: String)
    ensures
        r@ == spec_unit_text(value@, unit@),
{
    if str_equal(unit, "MIB") {
        let mut out = "(".to_owned();
        out.append(value);
        out.append(" * 1024 * 1024)");
        out
    } else if str_equal(unit, "KIB") {
        let mut out = "(".to_owned();
        out.append(value);
        out.append(" * 1024)");
        out
    } else if str_equal(unit, "GIB") {
        let mut out = "(".to_owned();
        out.append(value);
        out.append(" * 1024 * 1024 * 1024)");
        out
    } else {
        let mut out = value.to_owned();
        out.append(" /* ");
        out.append(unit);
        out.append(" */");
        out
    }
}

/// The fault of a method call in itself.
pub fn method_fault(method: &str, type_args: &Option<Vec<Type>>) -> (r: Option<GenerationError>)
    ensures
        fault_view(r) == spec_method_fault(
            method@,
            match type_args {
                Some(ts) => Some(types_view(*ts)),
                None => None,
            },
        ),
{
    if str_equal(method, "alloc_array") {
        match type_args {
            None => Some(GenerationError::AllocArrayWithoutTypeArgument),
            Some(ts) => {
                assert(types_view(*ts).len() == ts.len());
                if ts.len() == 1 {
                    None
                } else {
                    Some(GenerationError::AllocArrayTypeArgumentCount(ts.len()))
                }
            },
        }
    } else {
        None
    }
}

impl CodeGenerator {
    /// The generated text of an expression, whether or not it has a fault.
    pub fn expression_text(&self, expr: &Expression) -> (r: String)
        ensures
            r@ == spec_expression_text(expr@),
        decreases expr,
    {
        match expr {
            Expression::Literal(l) => literal_text(l),
            Expression::Variable(n) => n.clone(),
            Expression::BinaryOp { op, left, right } => {
                let left_text = self.expression_text(left);
                match op {
                    BinaryOp::Pipe => match &**right {
                        Expression::Call { name, args } => {
                            let mut parts = self.expression_texts(args);
                            parts.insert(0, left_text);
                            assert(texts(parts@) =~= seq![left_text@] + spec_expression_texts(
                                exprs_view(*args),
                            ));
                            call_text(name.as_str(), &parts)
                        },
                        Expression::NamedCall { name, named_args } => {
                            let mut parts = self.named_arg_texts(named_args);
                            parts.insert(0, left_text);
                            assert(texts(parts@) =~= seq![left_text@] + spec_named_arg_texts(
                                named_exprs_view(*named_args),
                            ));
                            named_call_text(name.as_str(), &parts)
                        },
                        Expression::MethodCall { object, method, type_args, args } => {
                            let object_text = self.expression_text(object);
                            let type_texts = self.type_args_texts(type_args);
                            let mut parts = self.expression_texts(args);
                            parts.insert(0, left_text);
                            assert(texts(parts@) =~= seq![left_text@] + spec_expression_texts(
                                exprs_view(*args),
                            ));
                            method_call_text(
                                object_text.as_str(),
                                method.as_str(),
                                &type_texts,
                                &parts,
                            )
                        },
                        _ => {
                            let mut out = self.expression_text(right);
                            out.append("(");
                            out.append(left_text.as_str());
                            out.append(")");
                            assert(out@ == spec_expression_text(expr@));
                            out
                        },
                    },
                    _ => {
                        let right_text = self.expression_text(right);
                        let mut out = "(".to_owned();
                        out.append(left_text.as_str());
                        out.append(" ");
                        out.append(binary_op_text(*op));
                        out.append(" ");
                        out.append(right_text.as_str());
                        out.append(")");
                        assert(out@ == spec_expression_text(expr@));
                        out
                    },
                }
            },
            Expression::UnaryOp { op, expr: operand } => {
                let inner = self.expression_text(operand);
                let mut out = unary_op_text(*op).to_owned();
                out.append("(");
                out.append(inner.as_str());
                out.append(")");
                assert(out@ == spec_expression_text(expr@));
                out
            },
            Expression::Call { name, args } => {
                let parts = self.expression_texts(args);
                call_text(name.as_str(), &parts)
            },
            Expression::NamedCall { name, named_args } => {
                let parts = self.named_arg_texts(named_args);
                named_call_text(name.as_str(), &parts)
            },
            Expression::MemberAccess { object, member } => {
                let mut out = self.expression_text(object);
                out.append(".");
                out.append(member.as_str());
                assert(out@ == spec_expression_text(expr@));
                out
            },
            Expression::MethodCall { object, method, type_args, args } => {
                let object_text = self.expression_text(object);
                let type_texts = self.type_args_texts(type_args);
                let parts = self.expression_texts(args);
                method_call_text(object_text.as_str(), method.as_str(), &type_texts, &parts)
            },
            Expression::Index { array, index } => {
                let mut out = self.expression_text(array);
                let index_text = self.expression_text(index);
                out.append("[");
                out.append(index_text.as_str());
                out.append("]");
                assert(out@ == spec_expression_text(expr@));
                out
            },
            Expression::StructLiteral { name, fields } => {
                let parts = self.field_init_texts(fields);
                let mut out = name.clone();
                out.append(" {");
                let joined = join(&parts, ", ");
                out.append(joined.as_str());
                out.append("}");
                assert(out@ == spec_expression_text(expr@));
                out
            },
            Expression::EnumLiteral(n) => n.clone(),
            Expression::UnitSuffix { value, unit } => {
                let inner = self.expression_text(value);
                unit_text(inner.as_str(), unit.as_str())
            },
        }
    }

    /// The texts of an optional list of type arguments.
    pub fn type_args_texts(&self, type_args: &Option<Vec<Type>>) -> (r: Option<Vec<String>>)
        ensures
            (match r {
                Some(ts) => Some(texts(ts@)),
                None => None,
            }) == spec_type_args_texts(
                match type_args {
                    Some(ts) => Some(types_view(*ts)),
                    None => None,
                },
            ),
    {
        match type_args {
            Some(ts) => Some(self.type_texts(ts)),
            None => None,
        }
    }

    /// The texts of a list of expressions, in order.
    pub fn expression_texts(&self, exprs: &Vec<Expression>) -> (r: Vec<String>)
        ensures
            texts(r@) == spec_expression_texts(exprs_view(*exprs)),
        decreases exprs,
    {
        let mut out: Vec<String> = Vec::new();
        let mut i: usize = 0;
        while i < exprs.len()
            invariant
                i <= exprs.len(),
                out.len() == i,
                forall|j: int| 0 <= j < i ==> out[j]@ == spec_expression_text(expr_view(exprs[j])),
            decreases exprs.len() - i,
        {
            proof {
                vstd::std_specs::vec::axiom_vec_index_decreases(*exprs, i as int);
            }
            out.push(self.expression_text(&exprs[i]));
            i += 1;
        }
        assert(texts(out@) =~= spec_expression_texts(exprs_view(*exprs)));
        out
    }

    /// The texts of a list of named arguments, in order.
    pub fn named_arg_texts(&self, exprs: &Vec<(String, Expression)>) -> (r: Vec<String>)
        ensures
            texts(r@) == spec_named_arg_texts(named_exprs_view(*exprs)),
        decreases exprs,
    {
        let mut out: Vec<String> = Vec::new();
        let mut i: usize = 0;
        while i < exprs.len()
            invariant
                i <= exprs.len(),
                out.len() == i,
                forall|j: int|
                    0 <= j < i ==> out[j]@ == spec_named_arg_text(
                        exprs[j].0@,
                        spec_expression_text(expr_view(exprs[j].1)),
                    ),
            decreases exprs.len() - i,
        {
            proof {
                vstd::std_specs::vec::axiom_vec_index_decreases(*exprs, i as int);
            }
            let value = self.expression_text(&exprs[i].1);
            let mut piece = "/* ".to_owned();
            piece.append(exprs[i].0.as_str());
            piece.append(" = */ ");
            piece.append(value.as_str());
            out.push(piece);
            i += 1;
        }
        assert(texts(out@) =~= spec_named_arg_texts(named_exprs_view(*exprs)));
        out
    }

    /// The texts of the fields of a struct literal, in order.
    pub fn field_init_texts(&self, exprs: &Vec<(String, Expression)>) -> (r: Vec<String>)
        ensures
            texts(r@) == spec_field_init_texts(named_exprs_view(*exprs)),
        decreases exprs,
    {
        let mut out: Vec<String> = Vec::new();
        let mut i: usize = 0;
        while i < exprs.len()
            invariant
                i <= exprs.len(),
                out.len() == i,
                forall|j: int|
                    0 <= j < i ==> out[j]@ == spec_field_init_text(
                        exprs[j].0@,
                        spec_expression_text(expr_view(exprs[j].1)),
                    ),
            decreases exprs.len() - i,
        {
            proof {
                vstd::std_specs::vec::axiom_vec_index_decreases(*exprs, i as int);
            }
            let value = self.expression_text(&exprs[i].1);
            let mut piece = ".".to_owned();
            piece.append(exprs[i].0.as_str());
            piece.append(" = ");
            piece.append(value.as_str());
            out.push(piece);
            i += 1;
        }
        assert(texts(out@) =~= spec_field_init_texts(named_exprs_view(*exprs)));
        out
    }

    /// The first fault in an expression, if there is one.
    pub fn expression_fault(&self, expr: &Expression) -> (r: Option<GenerationError>)
        ensures
            fault_view(r) == spec_expression_fault(expr@),
        decreases expr,
    {
        match expr {
            Expression::Literal(_) => None,
            Expression::Variable(_) => None,
            Expression::BinaryOp { op, left, right } => match self.expression_fault(left) {
                Some(x) => Some(x),
                None => self.expression_fault(right),
            },
            Expression::UnaryOp { op, expr } => self.expression_fault(expr),
            Expression::Call { name, args } => self.first_fault(args),
            Expression::NamedCall { name, named_args } => self.first_named_fault(named_args),
            Expression::MemberAccess { object, member } => self.expression_fault(object),
            Expression::MethodCall { object, method, type_args, args } => {
                match self.expression_fault(object) {
                    Some(x) => Some(x),
                    None => match method_fault(method.as_str(), type_args) {
                        Some(x) => Some(x),
                        None => self.first_fault(args),
                    },
                }
            },
            Expression::Index { array, index } => match self.expression_fault(array) {
                Some(x) => Some(x),
                None => self.expression_fault(index),
            },
            Expression::StructLiteral { name, fields } => self.first_named_fault(fields),
            Expression::EnumLiteral(_) => None,
            Expression::UnitSuffix { value, unit } => self.expression_fault(value),
        }
    }

    /// The first fault in a list of expressions, if there is one.
    pub fn first_fault(&self, exprs: &Vec<Expression>) -> (r: Option<GenerationError>)
        ensures
            fault_view(r) == first_error(spec_expression_faults(exprs_view(*exprs))),
        decreases exprs,
    {
        let ghost faults = spec_expression_faults(exprs_view(*exprs));
        let mut i: usize = 0;
        while i < exprs.len()
            invariant
                i <= exprs.len(),
                faults == spec_expression_faults(exprs_view(*exprs)),
                faults.len() == exprs.len(),
                forall|j: int| 0 <= j < i ==> faults[j] is None,
            decreases exprs.len() - i,
        {
            proof {
                vstd::std_specs::vec::axiom_vec_index_decreases(*exprs, i as int);
                assert(faults[i as int] == spec_expression_fault(expr_view(exprs[i as int])));
            }
            match self.expression_fault(&exprs[i]) {
                Some(x) => {
                    proof {
                        lemma_first_error_at(faults, i as int);
                    }
                    return Some(x);
                },
                None => {},
            }
            i += 1;
        }
        proof {
            lemma_first_error_none(faults);
        }
        None
    }

    /// The first fault in the values of a list of named expressions, if there is one.
    pub fn first_named_fault(&self, exprs: &Vec<(String, Expression)>) -> (r: Option<
        GenerationError,
    >)
        ensures
            fault_view(r) == first_error(spec_named_faults(named_exprs_view(*exprs))),
        decreases exprs,
    {
        let ghost faults = spec_named_faults(named_exprs_view(*exprs));
        let mut i: usize = 0;
        while i < exprs.len()
            invariant
                i <= exprs.len(),
                faults == spec_named_faults(named_exprs_view(*exprs)),
                faults.len() == exprs.len(),
                forall|j: int| 0 <= j < i ==> faults[j] is None,
            decreases exprs.len() - i,
        {
            proof {
                vstd::std_specs::vec::axiom_vec_index_decreases(*exprs, i as int);
                assert(faults[i as int] == spec_expression_fault(expr_view(exprs[i as int].1)));
            }
            match self.expression_fault(&exprs[i].1) {
                Some(x) => {
                    proof {
                        lemma_first_error_at(faults, i as int);
                    }
                    return Some(x);
                },
                None => {},
            }
            i += 1;
        }
        proof {
            lemma_first_error_none(faults);
        }
        None
    }

    /// The generated text of an expression, or its first fault.
    pub fn generate_expression(&self, expr: &Expression) -> (r: Result<String, GenerationError>)
        ensures
            generated_view(r) == spec_generate_expression(expr@),
    {
        match self.expression_fault(expr) {
            Some(x) => Err(x),
            None => Ok(self.expression_text(expr)),
        }
    }
}

} // verus!
