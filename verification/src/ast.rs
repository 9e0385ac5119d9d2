//! Abstract syntax tree of a compilation unit, and the mathematical model of
//! every node.
//!
//! Each tree type has a view: the same shape with strings as `Seq<char>` and
//! vectors as `Seq`. Contracts throughout the crate are stated over the views.

use vstd::prelude::*;

verus! {

/// A type of the language.
///
/// Named types (`Struct`, `Component`, `MeshSOA`, `ComponentSOA`, `Shader`) are
/// told apart by name only.
#[derive(Debug, PartialEq, Eq)]
pub enum Type {
    I32,
    I64,
    F32,
    F64,
    Bool,
    String,
    Array(Box<Type>),
    Struct(String),
    Component(String),
    MeshSOA(String),
    ComponentSOA(String),
    Shader(String),
    /// `query<C1, C2, ...>`: the component types in the order written.
    Query(Vec<Type>),
    Void,
    VkInstance,
    VkDevice,
    VkResult,
    VkPhysicalDevice,
    VkQueue,
    VkCommandPool,
    VkCommandBuffer,
    VkSwapchainKHR,
    VkSurfaceKHR,
    VkRenderPass,
    VkPipeline,
    VkFramebuffer,
    VkBuffer,
    VkImage,
    VkImageView,
    VkSemaphore,
    VkFence,
    GLFWwindow,
    GLFWbool,
    Vec2,
    Vec3,
    Vec4,
    Mat4,
    Camera,
    FrameArena,
}

/// Model of [`Type`].
pub enum SpecType {
    I32,
    I64,
    F32,
    F64,
    Bool,
    String,
    Array(Box<SpecType>),
    Struct(Seq<char>),
    Component(Seq<char>),
    MeshSOA(Seq<char>),
    ComponentSOA(Seq<char>),
    Shader(Seq<char>),
    Query(Seq<SpecType>),
    Void,
    VkInstance,
    VkDevice,
    VkResult,
    VkPhysicalDevice,
    VkQueue,
    VkCommandPool,
    VkCommandBuffer,
    VkSwapchainKHR,
    VkSurfaceKHR,
    VkRenderPass,
    VkPipeline,
    VkFramebuffer,
    VkBuffer,
    VkImage,
    VkImageView,
    VkSemaphore,
    VkFence,
    GLFWwindow,
    GLFWbool,
    Vec2,
    Vec3,
    Vec4,
    Mat4,
    Camera,
    FrameArena,
}

/// The model of a type.
pub open spec fn type_view(t: Type) -> SpecType
    decreases t,
{
    match t {
        Type::Array(e) => SpecType::Array(Box::new(type_view(*e))),
        Type::Struct(n) => SpecType::Struct(n@),
        Type::Component(n) => SpecType::Component(n@),
        Type::MeshSOA(n) => SpecType::MeshSOA(n@),
        Type::ComponentSOA(n) => SpecType::ComponentSOA(n@),
        Type::Shader(n) => SpecType::Shader(n@),
        Type::Query(ts) => SpecType::Query(types_view(ts)),
        Type::I32 => SpecType::I32,
        Type::I64 => SpecType::I64,
        Type::F32 => SpecType::F32,
        Type::F64 => SpecType::F64,
        Type::Bool => SpecType::Bool,
        Type::String => SpecType::String,
        Type::Void => SpecType::Void,
        Type::VkInstance => SpecType::VkInstance,
        Type::VkDevice => SpecType::VkDevice,
        Type::VkResult => SpecType::VkResult,
        Type::VkPhysicalDevice => SpecType::VkPhysicalDevice,
        Type::VkQueue => SpecType::VkQueue,
        Type::VkCommandPool => SpecType::VkCommandPool,
        Type::VkCommandBuffer => SpecType::VkCommandBuffer,
        Type::VkSwapchainKHR => SpecType::VkSwapchainKHR,
        Type::VkSurfaceKHR => SpecType::VkSurfaceKHR,
        Type::VkRenderPass => SpecType::VkRenderPass,
        Type::VkPipeline => SpecType::VkPipeline,
        Type::VkFramebuffer => SpecType::VkFramebuffer,
        Type::VkBuffer => SpecType::VkBuffer,
        Type::VkImage => SpecType::VkImage,
        Type::VkImageView => SpecType::VkImageView,
        Type::VkSemaphore => SpecType::VkSemaphore,
        Type::VkFence => SpecType::VkFence,
        Type::GLFWwindow => SpecType::GLFWwindow,
        Type::GLFWbool => SpecType::GLFWbool,
        Type::Vec2 => SpecType::Vec2,
        Type::Vec3 => SpecType::Vec3,
        Type::Vec4 => SpecType::Vec4,
        Type::Mat4 => SpecType::Mat4,
        Type::Camera => SpecType::Camera,
        Type::FrameArena => SpecType::FrameArena,
    }
}

/// The models of a list of types, in order.
pub open spec fn types_view(ts: Vec<Type>) -> Seq<SpecType>
    decreases ts,
{
    Seq::new(
        ts.len() as nat,
        |i: int|
            if 0 <= i < ts.len() {
                type_view(ts[i])
            } else {
                SpecType::Void
            },
    )
}

impl View for Type {
    type V = SpecType;

    open spec fn view(&self) -> SpecType {
        type_view(*self)
    }
}

impl Clone for Type {
    fn clone(&self) -> (r: Type)
        ensures
            r@ == self@,
        decreases self,
    {
        match self {
            Type::Array(e) => Type::Array(Box::new((**e).clone())),
            Type::Struct(n) => Type::Struct(n.clone()),
            Type::Component(n) => Type::Component(n.clone()),
            Type::MeshSOA(n) => Type::MeshSOA(n.clone()),
            Type::ComponentSOA(n) => Type::ComponentSOA(n.clone()),
            Type::Shader(n) => Type::Shader(n.clone()),
            Type::Query(ts) => Type::Query(clone_types(ts)),
            Type::I32 => Type::I32,
            Type::I64 => Type::I64,
            Type::F32 => Type::F32,
            Type::F64 => Type::F64,
            Type::Bool => Type::Bool,
            Type::String => Type::String,
            Type::Void => Type::Void,
            Type::VkInstance => Type::VkInstance,
            Type::VkDevice => Type::VkDevice,
            Type::VkResult => Type::VkResult,
            Type::VkPhysicalDevice => Type::VkPhysicalDevice,
            Type::VkQueue => Type::VkQueue,
            Type::VkCommandPool => Type::VkCommandPool,
            Type::VkCommandBuffer => Type::VkCommandBuffer,
            Type::VkSwapchainKHR => Type::VkSwapchainKHR,
            Type::VkSurfaceKHR => Type::VkSurfaceKHR,
            Type::VkRenderPass => Type::VkRenderPass,
            Type::VkPipeline => Type::VkPipeline,
            Type::VkFramebuffer => Type::VkFramebuffer,
            Type::VkBuffer => Type::VkBuffer,
            Type::VkImage => Type::VkImage,
            Type::VkImageView => Type::VkImageView,
            Type::VkSemaphore => Type::VkSemaphore,
            Type::VkFence => Type::VkFence,
            Type::GLFWwindow => Type::GLFWwindow,
            Type::GLFWbool => Type::GLFWbool,
            Type::Vec2 => Type::Vec2,
            Type::Vec3 => Type::Vec3,
            Type::Vec4 => Type::Vec4,
            Type::Mat4 => Type::Mat4,
            Type::Camera => Type::Camera,
            Type::FrameArena => Type::FrameArena,
        }
    }
}

/// Copies a list of types.
pub fn clone_types(ts: &Vec<Type>) -> (r: Vec<Type>)
    ensures
        types_view(r) == types_view(*ts),
    decreases ts,
{
    let mut out: Vec<Type> = Vec::new();
    let mut i: usize = 0;
    while i < ts.len()
        invariant
            i <= ts.len(),
            out.len() == i,
            forall|j: int| 0 <= j < i ==> type_view(out[j]) == type_view(ts[j]),
        decreases ts.len() - i,
    {
        proof {
            vstd::std_specs::vec::axiom_vec_index_decreases(*ts, i as int);
        }
        out.push(ts[i].clone());
        i += 1;
    }
    assert(types_view(out) =~= types_view(*ts));
    out
}

impl Type {
    /// Whether this is an array type.
    pub fn is_array(&self) -> (r: bool)
        ensures
            r == (self@ is Array),
    {
        match self {
            Type::Array(_) => true,
            _ => false,
        }
    }
}

/// A literal value.
///
/// A floating-point literal is kept as the digits that were written
/// (`-?[0-9]+.[0-9]+`), so that it is emitted exactly as the author wrote it.
#[derive(Debug, Clone, PartialEq, Eq)]
pub enum Literal {
    Int(i64),
    Float(String),
    Bool(bool),
    String(String),
}

/// Model of [`Literal`].
pub enum SpecLiteral {
    Int(i64),
    Float(Seq<char>),
    Bool(bool),
    String(Seq<char>),
}

impl View for Literal {
    type V = SpecLiteral;

    open spec fn view(&self) -> SpecLiteral {
        match self {
            Literal::Int(n) => SpecLiteral::Int(*n),
            Literal::Float(t) => SpecLiteral::Float(t@),
            Literal::Bool(b) => SpecLiteral::Bool(*b),
            Literal::String(t) => SpecLiteral::String(t@),
        }
    }
}

/// A binary operator. `Pipe` is the application `a |> f(..)`, kept as a node of
/// its own until code generation.
#[derive(Debug, Clone, Copy, PartialEq, Eq, Structural)]
pub enum BinaryOp {
    Add,
    Sub,
    Mul,
    Div,
    Mod,
    Eq,
    Ne,
    Lt,
    Le,
    Gt,
    Ge,
    And,
    Or,
    BitwiseOr,
    Pipe,
}

/// A unary operator.
#[derive(Debug, Clone, Copy, PartialEq, Eq, Structural)]
pub enum UnaryOp {
    Neg,
    Not,
}

/// An expression.
#[derive(Debug, PartialEq, Eq)]
pub enum Expression {
    Literal(Literal),
    Variable(String),
    BinaryOp { op: BinaryOp, left: Box<Expression>, right: Box<Expression> },
    UnaryOp { op: UnaryOp, expr: Box<Expression> },
    Call { name: String, args: Vec<Expression> },
    /// A call whose arguments are written `name = value`.
    NamedCall { name: String, named_args: Vec<(String, Expression)> },
    MemberAccess { object: Box<Expression>, member: String },
    /// `object.method<T, ..>(args)`; `type_args` is `None` without angle brackets.
    MethodCall {
        object: Box<Expression>,
        method: String,
        type_args: Option<Vec<Type>>,
        args: Vec<Expression>,
    },
    Index { array: Box<Expression>, index: Box<Expression> },
    StructLiteral { name: String, fields: Vec<(String, Expression)> },
    EnumLiteral(String),
    /// A numeric literal with a byte-size suffix; `unit` is the suffix in upper case.
    UnitSuffix { value: Box<Expression>, unit: String },
}

/// Model of [`Expression`].
pub enum SpecExpression {
    Literal(SpecLiteral),
    Variable(Seq<char>),
    BinaryOp { op: BinaryOp, left: Box<SpecExpression>, right: Box<SpecExpression> },
    UnaryOp { op: UnaryOp, expr: Box<SpecExpression> },
    Call { name: Seq<char>, args: Seq<SpecExpression> },
    NamedCall { name: Seq<char>, named_args: Seq<(Seq<char>, SpecExpression)> },
    MemberAccess { object: Box<SpecExpression>, member: Seq<char> },
    MethodCall {
        object: Box<SpecExpression>,
        method: Seq<char>,
        type_args: Option<Seq<SpecType>>,
        args: Seq<SpecExpression>,
    },
    Index { array: Box<SpecExpression>, index: Box<SpecExpression> },
    StructLiteral { name: Seq<char>, fields: Seq<(Seq<char>, SpecExpression)> },
    EnumLiteral(Seq<char>),
    UnitSuffix { value: Box<SpecExpression>, unit: Seq<char> },
}

/// The model of an expression.
pub open spec fn expr_view(e: Expression) -> SpecExpression
    decreases e,
{
    match e {
        Expression::Literal(l) => SpecExpression::Literal(l@),
        Expression::Variable(n) => SpecExpression::Variable(n@),
        Expression::BinaryOp { op, left, right } => SpecExpression::BinaryOp {
            op,
            left: Box::new(expr_view(*left)),
            right: Box::new(expr_view(*right)),
        },
        Expression::UnaryOp { op, expr } => SpecExpression::UnaryOp {
            op,
            expr: Box::new(expr_view(*expr)),
        },
        Expression::Call { name, args } => SpecExpression::Call {
            name: name@,
            args: exprs_view(args),
        },
        Expression::NamedCall { name, named_args } => SpecExpression::NamedCall {
            name: name@,
            named_args: named_exprs_view(named_args),
        },
        Expression::MemberAccess { object, member } => SpecExpression::MemberAccess {
            object: Box::new(expr_view(*object)),
            member: member@,
        },
        Expression::MethodCall { object, method, type_args, args } => SpecExpression::MethodCall {
            object: Box::new(expr_view(*object)),
            method: method@,
            type_args: match type_args {
                Some(ts) => Some(types_view(ts)),
                None => None,
            },
            args: exprs_view(args),
        },
        Expression::Index { array, index } => SpecExpression::Index {
            array: Box::new(expr_view(*array)),
            index: Box::new(expr_view(*index)),
        },
        Expression::StructLiteral { name, fields } => SpecExpression::StructLiteral {
            name: name@,
            fields: named_exprs_view(fields),
        },
        Expression::EnumLiteral(n) => SpecExpression::EnumLiteral(n@),
        Expression::UnitSuffix { value, unit } => SpecExpression::UnitSuffix {
            value: Box::new(expr_view(*value)),
            unit: unit@,
        },
    }
}

/// The models of a list of expressions, in order.
pub open spec fn exprs_view(es: Vec<Expression>) -> Seq<SpecExpression>
    decreases es,
{
    Seq::new(
        es.len() as nat,
        |i: int|
            if 0 <= i < es.len() {
                expr_view(es[i])
            } else {
                SpecExpression::EnumLiteral(Seq::empty())
            },
    )
}

/// The models of a list of named expressions, in order.
pub open spec fn named_exprs_view(es: Vec<(String, Expression)>) -> Seq<(Seq<char>, SpecExpression)>
    decreases es,
{
    Seq::new(
        es.len() as nat,
        |i: int|
            if 0 <= i < es.len() {
                (es[i].0@, expr_view(es[i].1))
            } else {
                (Seq::empty(), SpecExpression::EnumLiteral(Seq::empty()))
            },
    )
}

impl View for Expression {
    type V = SpecExpression;

    open spec fn view(&self) -> SpecExpression {
        expr_view(*self)
    }
}

impl Clone for Expression {
    fn clone(&self) -> (r: Expression)
        ensures
            r@ == self@,
        decreases self,
    {
        match self {
            Expression::Literal(l) => Expression::Literal(clone_literal(l)),
            Expression::Variable(n) => Expression::Variable(n.clone()),
            Expression::BinaryOp { op, left, right } => Expression::BinaryOp {
                op: *op,
                left: Box::new((**left).clone()),
                right: Box::new((**right).clone()),
            },
            Expression::UnaryOp { op, expr } => Expression::UnaryOp {
                op: *op,
                expr: Box::new((**expr).clone()),
            },
            Expression::Call { name, args } => Expression::Call {
                name: name.clone(),
                args: clone_exprs(args),
            },
            Expression::NamedCall { name, named_args } => Expression::NamedCall {
                name: name.clone(),
                named_args: clone_named_exprs(named_args),
            },
            Expression::MemberAccess { object, member } => Expression::MemberAccess {
                object: Box::new((**object).clone()),
                member: member.clone(),
            },
            Expression::MethodCall { object, method, type_args, args } => Expression::MethodCall {
                object: Box::new((**object).clone()),
                method: method.clone(),
                type_args: match type_args {
                    Some(ts) => Some(clone_types(ts)),
                    None => None,
                },
                args: clone_exprs(args),
            },
            Expression::Index { array, index } => Expression::Index {
                array: Box::new((**array).clone()),
                index: Box::new((**index).clone()),
            },
            Expression::StructLiteral { name, fields } => Expression::StructLiteral {
                name: name.clone(),
                fields: clone_named_exprs(fields),
            },
            Expression::EnumLiteral(n) => Expression::EnumLiteral(n.clone()),
            Expression::UnitSuffix { value, unit } => Expression::UnitSuffix {
                value: Box::new((**value).clone()),
                unit: unit.clone(),
            },
        }
    }
}

/// Copies a literal.
pub fn clone_literal(l: &Literal) -> (r: Literal)
    ensures
        r@ == l@,
{
    match l {
        Literal::Int(n) => Literal::Int(*n),
        Literal::Float(t) => Literal::Float(t.clone()),
        Literal::Bool(b) => Literal::Bool(*b),
        Literal::String(t) => Literal::String(t.clone()),
    }
}

/// Copies a list of expressions.
pub fn clone_exprs(es: &Vec<Expression>) -> (r: Vec<Expression>)
    ensures
        exprs_view(r) == exprs_view(*es),
    decreases es,
{
    let mut out: Vec<Expression> = Vec::new();
    let mut i: usize = 0;
    while i < es.len()
        invariant
            i <= es.len(),
            out.len() == i,
            forall|j: int| 0 <= j < i ==> expr_view(out[j]) == expr_view(es[j]),
        decreases es.len() - i,
    {
        proof {
            vstd::std_specs::vec::axiom_vec_index_decreases(*es, i as int);
        }
        out.push(es[i].clone());
        i += 1;
    }
    assert(exprs_view(out) =~= exprs_view(*es));
    out
}

/// Copies a list of named expressions.
pub fn clone_named_exprs(es: &Vec<(String, Expression)>) -> (r: Vec<(String, Expression)>)
    ensures
        named_exprs_view(r) == named_exprs_view(*es),
    decreases es,
{
    let mut out: Vec<(String, Expression)> = Vec::new();
    let mut i: usize = 0;
    while i < es.len()
        invariant
            i <= es.len(),
            out.len() == i,
            forall|j: int|
                0 <= j < i ==> out[j].0@ == es[j].0@ && expr_view(out[j].1) == expr_view(es[j].1),
        decreases es.len() - i,
    {
        proof {
            vstd::std_specs::vec::axiom_vec_index_decreases(*es, i as int);
        }
        let name = es[i].0.clone();
        let value = es[i].1.clone();
        out.push((name, value));
        i += 1;
    }
    assert(named_exprs_view(out) =~= named_exprs_view(*es));
    out
}

/// A statement.
#[derive(Debug, PartialEq, Eq)]
pub enum Statement {
    Let { name: String, ty: Option<Type>, value: Expression },
    Assign { target: Expression, value: Expression },
    If { condition: Expression, then_block: Vec<Statement>, else_block: Option<Vec<Statement>> },
    While { condition: Expression, body: Vec<Statement> },
    Loop { body: Vec<Statement> },
    Return(Option<Expression>),
    Expression(Expression),
    Block(Vec<Statement>),
}

/// Model of [`Statement`].
pub enum SpecStatement {
    Let { name: Seq<char>, ty: Option<SpecType>, value: SpecExpression },
    Assign { target: SpecExpression, value: SpecExpression },
    If {
        condition: SpecExpression,
        then_block: Seq<SpecStatement>,
        else_block: Option<Seq<SpecStatement>>,
    },
    While { condition: SpecExpression, body: Seq<SpecStatement> },
    Loop { body: Seq<SpecStatement> },
    Return(Option<SpecExpression>),
    Expression(SpecExpression),
    Block(Seq<SpecStatement>),
}

/// The model of a statement.
pub open spec fn stmt_view(s: Statement) -> SpecStatement
    decreases s,
{
    match s {
        Statement::Let { name, ty, value } => SpecStatement::Let {
            name: name@,
            ty: match ty {
                Some(t) => Some(t@),
                None => None,
            },
            value: value@,
        },
        Statement::Assign { target, value } => SpecStatement::Assign {
            target: target@,
            value: value@,
        },
        Statement::If { condition, then_block, else_block } => SpecStatement::If {
            condition: condition@,
            then_block: stmts_view(then_block),
            else_block: match else_block {
                Some(b) => Some(stmts_view(b)),
                None => None,
            },
        },
        Statement::While { condition, body } => SpecStatement::While {
            condition: condition@,
            body: stmts_view(body),
        },
        Statement::Loop { body } => SpecStatement::Loop { body: stmts_view(body) },
        Statement::Return(e) => SpecStatement::Return(
            match e {
                Some(e) => Some(e@),
                None => None,
            },
        ),
        Statement::Expression(e) => SpecStatement::Expression(e@),
        Statement::Block(b) => SpecStatement::Block(stmts_view(b)),
    }
}

/// The models of a list of statements, in order.
pub open spec fn stmts_view(ss: Vec<Statement>) -> Seq<SpecStatement>
    decreases ss,
{
    Seq::new(
        ss.len() as nat,
        |i: int|
            if 0 <= i < ss.len() {
                stmt_view(ss[i])
            } else {
                SpecStatement::Return(None)
            },
    )
}

impl View for Statement {
    type V = SpecStatement;

    open spec fn view(&self) -> SpecStatement {
        stmt_view(*self)
    }
}

impl Clone for Statement {
    fn clone(&self) -> (r: Statement)
        ensures
            r@ == self@,
        decreases self,
    {
        match self {
            Statement::Let { name, ty, value } => Statement::Let {
                name: name.clone(),
                ty: match ty {
                    Some(t) => Some(t.clone()),
                    None => None,
                },
                value: value.clone(),
            },
            Statement::Assign { target, value } => Statement::Assign {
                target: target.clone(),
                value: value.clone(),
            },
            Statement::If { condition, then_block, else_block } => Statement::If {
                condition: condition.clone(),
                then_block: clone_stmts(then_block),
                else_block: match else_block {
                    Some(b) => Some(clone_stmts(b)),
                    None => None,
                },
            },
            Statement::While { condition, body } => Statement::While {
                condition: condition.clone(),
                body: clone_stmts(body),
            },
            Statement::Loop { body } => Statement::Loop { body: clone_stmts(body) },
            Statement::Return(e) => Statement::Return(
                match e {
                    Some(e) => Some(e.clone()),
                    None => None,
                },
            ),
            Statement::Expression(e) => Statement::Expression(e.clone()),
            Statement::Block(b) => Statement::Block(clone_stmts(b)),
        }
    }
}

/// Copies a list of statements.
pub fn clone_stmts(ss: &Vec<Statement>) -> (r: Vec<Statement>)
    ensures
        stmts_view(r) == stmts_view(*ss),
    decreases ss,
{
    let mut out: Vec<Statement> = Vec::new();
    let mut i: usize = 0;
    while i < ss.len()
        invariant
            i <= ss.len(),
            out.len() == i,
            forall|j: int| 0 <= j < i ==> stmt_view(out[j]) == stmt_view(ss[j]),
        decreases ss.len() - i,
    {
        proof {
            vstd::std_specs::vec::axiom_vec_index_decreases(*ss, i as int);
        }
        out.push(ss[i].clone());
        i += 1;
    }
    assert(stmts_view(out) =~= stmts_view(*ss));
    out
}

/// The models of a list of values, in order.
pub open spec fn views<T: View>(s: Seq<T>) -> Seq<T::V> {
    s.map_values(|x: T| x@)
}

/// A field of a struct, component or structure-of-arrays declaration.
#[derive(Debug, Clone, PartialEq, Eq)]
pub struct Field {
    pub name: String,
    pub ty: Type,
    pub default_value: Option<Expression>,
}

/// Model of [`Field`] and of [`Param`]: a name, a type, and a default if one was written.
pub struct SpecField {
    pub name: Seq<char>,
    pub ty: SpecType,
    pub default_value: Option<SpecExpression>,
}

impl View for Field {
    type V = SpecField;

    open spec fn view(&self) -> SpecField {
        SpecField {
            name: self.name@,
            ty: self.ty@,
            default_value: match self.default_value {
                Some(e) => Some(e@),
                None => None,
            },
        }
    }
}

/// A parameter of a function or of an extern function.
#[derive(Debug, Clone, PartialEq, Eq)]
pub struct Param {
    pub name: String,
    pub ty: Type,
    pub default_value: Option<Expression>,
}

impl View for Param {
    type V = SpecField;

    open spec fn view(&self) -> SpecField {
        SpecField {
            name: self.name@,
            ty: self.ty@,
            default_value: match self.default_value {
                Some(e) => Some(e@),
                None => None,
            },
        }
    }
}

/// A type alias: `type name = target;`.
#[derive(Debug, Clone, PartialEq, Eq)]
pub struct TypeAliasDef {
    pub name: String,
    pub target_type: Type,
}

/// Model of [`TypeAliasDef`].
pub struct SpecTypeAliasDef {
    pub name: Seq<char>,
    pub target_type: SpecType,
}

impl View for TypeAliasDef {
    type V = SpecTypeAliasDef;

    open spec fn view(&self) -> SpecTypeAliasDef {
        SpecTypeAliasDef { name: self.name@, target_type: self.target_type@ }
    }
}

/// Model of the four record declarations: a name and the fields in order.
pub struct SpecRecord {
    pub name: Seq<char>,
    pub fields: Seq<SpecField>,
}

/// A struct declaration.
#[derive(Debug, Clone, PartialEq, Eq)]
pub struct StructDef {
    pub name: String,
    pub fields: Vec<Field>,
}

impl View for StructDef {
    type V = SpecRecord;

    open spec fn view(&self) -> SpecRecord {
        SpecRecord { name: self.name@, fields: views(self.fields@) }
    }
}

/// A component declaration.
#[derive(Debug, Clone, PartialEq, Eq)]
pub struct ComponentDef {
    pub name: String,
    pub fields: Vec<Field>,
}

impl View for ComponentDef {
    type V = SpecRecord;

    open spec fn view(&self) -> SpecRecord {
        SpecRecord { name: self.name@, fields: views(self.fields@) }
    }
}

/// A structure-of-arrays mesh declaration. A well-typed one has array fields only.
#[derive(Debug, Clone, PartialEq, Eq)]
pub struct MeshSOADef {
    pub name: String,
    pub fields: Vec<Field>,
}

impl View for MeshSOADef {
    type V = SpecRecord;

    open spec fn view(&self) -> SpecRecord {
        SpecRecord { name: self.name@, fields: views(self.fields@) }
    }
}

/// A structure-of-arrays component declaration. A well-typed one has array fields only.
#[derive(Debug, Clone, PartialEq, Eq)]
pub struct ComponentSOADef {
    pub name: String,
    pub fields: Vec<Field>,
}

impl View for ComponentSOADef {
    type V = SpecRecord;

    open spec fn view(&self) -> SpecRecord {
        SpecRecord { name: self.name@, fields: views(self.fields@) }
    }
}

/// Pipeline stage of a shader declaration.
#[derive(Debug, Clone, Copy, PartialEq, Eq, Structural)]
pub enum ShaderStage {
    Vertex,
    Fragment,
    Compute,
    Geometry,
    TessellationControl,
    TessellationEvaluation,
}

/// A shader declaration: a name, a stage and the path of the shader's source file.
#[derive(Debug, Clone, PartialEq, Eq)]
pub struct ShaderDef {
    pub name: String,
    pub stage: ShaderStage,
    pub path: String,
}

/// Model of [`ShaderDef`].
pub struct SpecShaderDef {
    pub name: Seq<char>,
    pub stage: ShaderStage,
    pub path: Seq<char>,
}

impl View for ShaderDef {
    type V = SpecShaderDef;

    open spec fn view(&self) -> SpecShaderDef {
        SpecShaderDef { name: self.name@, stage: self.stage, path: self.path@ }
    }
}

/// Scheduling data of a system: its name, the systems that run before it
/// (`after`) and those that run after it (`before`).
#[derive(Debug, Clone, PartialEq, Eq)]
pub struct SystemAttribute {
    pub name: String,
    pub after: Vec<String>,
    pub before: Vec<String>,
}

/// Model of [`SystemAttribute`].
pub struct SpecSystemAttribute {
    pub name: Seq<char>,
    pub after: Seq<Seq<char>>,
    pub before: Seq<Seq<char>>,
}

impl View for SystemAttribute {
    type V = SpecSystemAttribute;

    open spec fn view(&self) -> SpecSystemAttribute {
        SpecSystemAttribute {
            name: self.name@,
            after: views(self.after@),
            before: views(self.before@),
        }
    }
}

/// A function definition.
#[derive(Debug, Clone, PartialEq, Eq)]
pub struct FunctionDef {
    pub name: String,
    pub params: Vec<Param>,
    pub return_type: Type,
    pub body: Vec<Statement>,
    pub attribute: Option<SystemAttribute>,
}

/// Model of [`FunctionDef`].
pub struct SpecFunctionDef {
    pub name: Seq<char>,
    pub params: Seq<SpecField>,
    pub return_type: SpecType,
    pub body: Seq<SpecStatement>,
    pub attribute: Option<SpecSystemAttribute>,
}

impl View for FunctionDef {
    type V = SpecFunctionDef;

    open spec fn view(&self) -> SpecFunctionDef {
        SpecFunctionDef {
            name: self.name@,
            params: views(self.params@),
            return_type: self.return_type@,
            body: stmts_view(self.body),
            attribute: match self.attribute {
                Some(a) => Some(a@),
                None => None,
            },
        }
    }
}

/// The signature of a function with foreign linkage, and the library it comes
/// from if one was named.
#[derive(Debug, Clone, PartialEq, Eq)]
pub struct ExternFunctionDef {
    pub name: String,
    pub params: Vec<Param>,
    pub return_type: Type,
    pub library: Option<String>,
}

/// Model of [`ExternFunctionDef`].
pub struct SpecExternFunctionDef {
    pub name: Seq<char>,
    pub params: Seq<SpecField>,
    pub return_type: SpecType,
    pub library: Option<Seq<char>>,
}

impl View for ExternFunctionDef {
    type V = SpecExternFunctionDef;

    open spec fn view(&self) -> SpecExternFunctionDef {
        SpecExternFunctionDef {
            name: self.name@,
            params: views(self.params@),
            return_type: self.return_type@,
            library: match self.library {
                Some(l) => Some(l@),
                None => None,
            },
        }
    }
}

/// A named group of functions.
#[derive(Debug, Clone, PartialEq, Eq)]
pub struct SystemDef {
    pub name: String,
    pub functions: Vec<FunctionDef>,
    pub attribute: Option<SystemAttribute>,
}

/// Model of [`SystemDef`].
pub struct SpecSystemDef {
    pub name: Seq<char>,
    pub functions: Seq<SpecFunctionDef>,
    pub attribute: Option<SpecSystemAttribute>,
}

impl View for SystemDef {
    type V = SpecSystemDef;

    open spec fn view(&self) -> SpecSystemDef {
        SpecSystemDef {
            name: self.name@,
            functions: views(self.functions@),
            attribute: match self.attribute {
                Some(a) => Some(a@),
                None => None,
            },
        }
    }
}

/// A top-level item.
#[derive(Debug, Clone, PartialEq, Eq)]
pub enum Item {
    Struct(StructDef),
    Component(ComponentDef),
    MeshSOA(MeshSOADef),
    ComponentSOA(ComponentSOADef),
    Shader(ShaderDef),
    System(SystemDef),
    Function(FunctionDef),
    ExternFunction(ExternFunctionDef),
    TypeAlias(TypeAliasDef),
}

/// Model of [`Item`].
pub enum SpecItem {
    Struct(SpecRecord),
    Component(SpecRecord),
    MeshSOA(SpecRecord),
    ComponentSOA(SpecRecord),
    Shader(SpecShaderDef),
    System(SpecSystemDef),
    Function(SpecFunctionDef),
    ExternFunction(SpecExternFunctionDef),
    TypeAlias(SpecTypeAliasDef),
}

impl View for Item {
    type V = SpecItem;

    open spec fn view(&self) -> SpecItem {
        match self {
            Item::Struct(d) => SpecItem::Struct(d@),
            Item::Component(d) => SpecItem::Component(d@),
            Item::MeshSOA(d) => SpecItem::MeshSOA(d@),
            Item::ComponentSOA(d) => SpecItem::ComponentSOA(d@),
            Item::Shader(d) => SpecItem::Shader(d@),
            Item::System(d) => SpecItem::System(d@),
            Item::Function(d) => SpecItem::Function(d@),
            Item::ExternFunction(d) => SpecItem::ExternFunction(d@),
            Item::TypeAlias(d) => SpecItem::TypeAlias(d@),
        }
    }
}

/// A compilation unit: the top-level items in source order, with every
/// included file's items in the place of its `include`.
#[derive(Debug, Clone, PartialEq, Eq)]
pub struct Program {
    pub items: Vec<Item>,
}

impl View for Program {
    type V = Seq<SpecItem>;

    open spec fn view(&self) -> Seq<SpecItem> {
        views(self.items@)
    }
}

} // verus!
