//! Lexical analysis: from source text to tokens.
//!
//! The rules are stated over the characters of the source: at each position
//! the longest lexeme that begins there is taken, and a word that is a keyword
//! is never an identifier.

pub mod written;

use crate::error::LexicalError;
use crate::text::{chars_of, string_of};
use vstd::prelude::*;

verus! {

/// A token.
#[derive(Debug, Clone, PartialEq, Eq)]
pub enum Token {
    /// `fn`
    Fn,
    /// `let`
    Let,
    /// `if`
    If,
    /// `else`
    Else,
    /// `while`
    While,
    /// `loop`
    Loop,
    /// `return`
    Return,
    /// `struct`
    Struct,
    /// `component`
    Component,
    /// `system`
    System,
    /// `for`
    For,
    /// `in`
    In,
    /// `query`
    Query,
    /// `extern`
    Extern,
    /// `type`
    Type,
    /// `mesh_soa`
    MeshSOA,
    /// `component_soa`
    ComponentSOA,
    /// `shader`
    Shader,
    /// `vertex`
    Vertex,
    /// `fragment`
    Fragment,
    /// `compute`
    Compute,
    /// `geometry`
    Geometry,
    /// `tessellation_control`
    TessellationControl,
    /// `tessellation_evaluation`
    TessellationEvaluation,
    /// `include`
    Include,
    /// `i32`
    I32,
    /// `i64`
    I64,
    /// `f32`
    F32,
    /// `f64`
    F64,
    /// `bool`
    Bool,
    /// `string`
    String,
    /// `void`
    Void,
    /// `VkInstance`
    VkInstance,
    /// `VkDevice`
    VkDevice,
    /// `VkResult`
    VkResult,
    /// `VkPhysicalDevice`
    VkPhysicalDevice,
    /// `VkQueue`
    VkQueue,
    /// `VkCommandPool`
    VkCommandPool,
    /// `VkCommandBuffer`
    VkCommandBuffer,
    /// `VkSwapchainKHR`
    VkSwapchainKHR,
    /// `VkSurfaceKHR`
    VkSurfaceKHR,
    /// `VkRenderPass`
    VkRenderPass,
    /// `VkPipeline`
    VkPipeline,
    /// `VkFramebuffer`
    VkFramebuffer,
    /// `VkBuffer`
    VkBuffer,
    /// `VkImage`
    VkImage,
    /// `VkImageView`
    VkImageView,
    /// `VkSemaphore`
    VkSemaphore,
    /// `VkFence`
    VkFence,
    /// `GLFWwindow`
    GLFWwindow,
    /// `GLFWbool`
    GLFWbool,
    /// `Vec2`
    Vec2,
    /// `Vec3`
    Vec3,
    /// `Vec4`
    Vec4,
    /// `Mat4`
    Mat4,
    /// `Camera`
    Camera,
    /// `FrameArena`
    FrameArena,
    /// `true`
    True,
    /// `false`
    False,
    /// An integer literal: `-?[0-9]+`, within 64 bits.
    Int(i64),
    /// A floating-point literal: `-?[0-9]+.[0-9]+`, as written.
    Float(String),
    /// A string literal: what stands between the double quotes.
    StringLit(String),
    /// An identifier: `[a-zA-Z_][a-zA-Z0-9_]*` that is no keyword.
    Ident(String),
    /// `+`
    Plus,
    /// `-`
    Minus,
    /// `*`
    Star,
    /// `/`
    Slash,
    /// `%`
    Percent,
    /// `==`
    EqEq,
    /// `!=`
    Ne,
    /// `<`
    Lt,
    /// `<=`
    Le,
    /// `>`
    Gt,
    /// `>=`
    Ge,
    /// `&&`
    AndAnd,
    /// `||`
    OrOr,
    /// `!`
    Bang,
    /// `=`
    Eq,
    /// `|>`
    PipeOp,
    /// `|`
    Pipe,
    /// `@`
    At,
    /// `(`
    LParen,
    /// `)`
    RParen,
    /// `{`
    LBrace,
    /// `}`
    RBrace,
    /// `[`
    LBracket,
    /// `]`
    RBracket,
    /// `,`
    Comma,
    /// `:`
    Colon,
    /// `;`
    Semicolon,
    /// `.`
    Dot,
}

/// Model of [`Token`].
pub enum SpecToken {
    Fn,
    Let,
    If,
    Else,
    While,
    Loop,
    Return,
    Struct,
    Component,
    System,
    For,
    In,
    Query,
    Extern,
    Type,
    MeshSOA,
    ComponentSOA,
    Shader,
    Vertex,
    Fragment,
    Compute,
    Geometry,
    TessellationControl,
    TessellationEvaluation,
    Include,
    I32,
    I64,
    F32,
    F64,
    Bool,
    String,
    Void,
    VkInstance,
    VkDevice,
    VkResult,
    VkPhysicalDevice,
    VkQueue,
    VkCommandPool,
    VkCommandBuffer,
    VkSwapchainKHR,
    VkSurfaceKHR,
    VkRenderPass,
    VkPipeline,
    VkFramebuffer,
    VkBuffer,
    VkImage,
    VkImageView,
    VkSemaphore,
    VkFence,
    GLFWwindow,
    GLFWbool,
    Vec2,
    Vec3,
    Vec4,
    Mat4,
    Camera,
    FrameArena,
    True,
    False,
    Int(i64),
    Float(Seq<char>),
    StringLit(Seq<char>),
    Ident(Seq<char>),
    Plus,
    Minus,
    Star,
    Slash,
    Percent,
    EqEq,
    Ne,
    Lt,
    Le,
    Gt,
    Ge,
    AndAnd,
    OrOr,
    Bang,
    Eq,
    PipeOp,
    Pipe,
    At,
    LParen,
    RParen,
    LBrace,
    RBrace,
    LBracket,
    RBracket,
    Comma,
    Colon,
    Semicolon,
    Dot,
}

impl View for Token {
    type V = SpecToken;

    open spec fn view(&self) -> SpecToken {
        match self {
            Token::Fn => SpecToken::Fn,
            Token::Let => SpecToken::Let,
            Token::If => SpecToken::If,
            Token::Else => SpecToken::Else,
            Token::While => SpecToken::While,
            Token::Loop => SpecToken::Loop,
            Token::Return => SpecToken::Return,
            Token::Struct => SpecToken::Struct,
            Token::Component => SpecToken::Component,
            Token::System => SpecToken::System,
            Token::For => SpecToken::For,
            Token::In => SpecToken::In,
            Token::Query => SpecToken::Query,
            Token::Extern => SpecToken::Extern,
            Token::Type => SpecToken::Type,
            Token::MeshSOA => SpecToken::MeshSOA,
            Token::ComponentSOA => SpecToken::ComponentSOA,
            Token::Shader => SpecToken::Shader,
            Token::Vertex => SpecToken::Vertex,
            Token::Fragment => SpecToken::Fragment,
            Token::Compute => SpecToken::Compute,
            Token::Geometry => SpecToken::Geometry,
            Token::TessellationControl => SpecToken::TessellationControl,
            Token::TessellationEvaluation => SpecToken::TessellationEvaluation,
            Token::Include => SpecToken::Include,
            Token::I32 => SpecToken::I32,
            Token::I64 => SpecToken::I64,
            Token::F32 => SpecToken::F32,
            Token::F64 => SpecToken::F64,
            Token::Bool => SpecToken::Bool,
            Token::String => SpecToken::String,
            Token::Void => SpecToken::Void,
            Token::VkInstance => SpecToken::VkInstance,
            Token::VkDevice => SpecToken::VkDevice,
            Token::VkResult => SpecToken::VkResult,
            Token::VkPhysicalDevice => SpecToken::VkPhysicalDevice,
            Token::VkQueue => SpecToken::VkQueue,
            Token::VkCommandPool => SpecToken::VkCommandPool,
            Token::VkCommandBuffer => SpecToken::VkCommandBuffer,
            Token::VkSwapchainKHR => SpecToken::VkSwapchainKHR,
            Token::VkSurfaceKHR => SpecToken::VkSurfaceKHR,
            Token::VkRenderPass => SpecToken::VkRenderPass,
            Token::VkPipeline => SpecToken::VkPipeline,
            Token::VkFramebuffer => SpecToken::VkFramebuffer,
            Token::VkBuffer => SpecToken::VkBuffer,
            Token::VkImage => SpecToken::VkImage,
            Token::VkImageView => SpecToken::VkImageView,
            Token::VkSemaphore => SpecToken::VkSemaphore,
            Token::VkFence => SpecToken::VkFence,
            Token::GLFWwindow => SpecToken::GLFWwindow,
            Token::GLFWbool => SpecToken::GLFWbool,
            Token::Vec2 => SpecToken::Vec2,
            Token::Vec3 => SpecToken::Vec3,
            Token::Vec4 => SpecToken::Vec4,
            Token::Mat4 => SpecToken::Mat4,
            Token::Camera => SpecToken::Camera,
            Token::FrameArena => SpecToken::FrameArena,
            Token::True => SpecToken::True,
            Token::False => SpecToken::False,
            Token::Plus => SpecToken::Plus,
            Token::Minus => SpecToken::Minus,
            Token::Star => SpecToken::Star,
            Token::Slash => SpecToken::Slash,
            Token::Percent => SpecToken::Percent,
            Token::EqEq => SpecToken::EqEq,
            Token::Ne => SpecToken::Ne,
            Token::Lt => SpecToken::Lt,
            Token::Le => SpecToken::Le,
            Token::Gt => SpecToken::Gt,
            Token::Ge => SpecToken::Ge,
            Token::AndAnd => SpecToken::AndAnd,
            Token::OrOr => SpecToken::OrOr,
            Token::Bang => SpecToken::Bang,
            Token::Eq => SpecToken::Eq,
            Token::PipeOp => SpecToken::PipeOp,
            Token::Pipe => SpecToken::Pipe,
            Token::At => SpecToken::At,
            Token::LParen => SpecToken::LParen,
            Token::RParen => SpecToken::RParen,
            Token::LBrace => SpecToken::LBrace,
            Token::RBrace => SpecToken::RBrace,
            Token::LBracket => SpecToken::LBracket,
            Token::RBracket => SpecToken::RBracket,
            Token::Comma => SpecToken::Comma,
            Token::Colon => SpecToken::Colon,
            Token::Semicolon => SpecToken::Semicolon,
            Token::Dot => SpecToken::Dot,
            Token::Int(n) => SpecToken::Int(*n),
            Token::Float(t) => SpecToken::Float(t@),
            Token::StringLit(t) => SpecToken::StringLit(t@),
            Token::Ident(t) => SpecToken::Ident(t@),
        }
    }
}

/// A number for each kind of token: two tokens are of one kind when they
/// differ at most in what a literal or an identifier holds.
pub open spec fn spec_kind(t: SpecToken) -> u8 {
    match t {
        SpecToken::Fn => 0,
        SpecToken::Let => 1,
        SpecToken::If => 2,
        SpecToken::Else => 3,
        SpecToken::While => 4,
        SpecToken::Loop => 5,
        SpecToken::Return => 6,
        SpecToken::Struct => 7,
        SpecToken::Component => 8,
        SpecToken::System => 9,
        SpecToken::For => 10,
        SpecToken::In => 11,
        SpecToken::Query => 12,
        SpecToken::Extern => 13,
        SpecToken::Type => 14,
        SpecToken::MeshSOA => 15,
        SpecToken::ComponentSOA => 16,
        SpecToken::Shader => 17,
        SpecToken::Vertex => 18,
        SpecToken::Fragment => 19,
        SpecToken::Compute => 20,
        SpecToken::Geometry => 21,
        SpecToken::TessellationControl => 22,
        SpecToken::TessellationEvaluation => 23,
        SpecToken::Include => 24,
        SpecToken::I32 => 25,
        SpecToken::I64 => 26,
        SpecToken::F32 => 27,
        SpecToken::F64 => 28,
        SpecToken::Bool => 29,
        SpecToken::String => 30,
        SpecToken::Void => 31,
        SpecToken::VkInstance => 32,
        SpecToken::VkDevice => 33,
        SpecToken::VkResult => 34,
        SpecToken::VkPhysicalDevice => 35,
        SpecToken::VkQueue => 36,
        SpecToken::VkCommandPool => 37,
        SpecToken::VkCommandBuffer => 38,
        SpecToken::VkSwapchainKHR => 39,
        SpecToken::VkSurfaceKHR => 40,
        SpecToken::VkRenderPass => 41,
        SpecToken::VkPipeline => 42,
        SpecToken::VkFramebuffer => 43,
        SpecToken::VkBuffer => 44,
        SpecToken::VkImage => 45,
        SpecToken::VkImageView => 46,
        SpecToken::VkSemaphore => 47,
        SpecToken::VkFence => 48,
        SpecToken::GLFWwindow => 49,
        SpecToken::GLFWbool => 50,
        SpecToken::Vec2 => 51,
        SpecToken::Vec3 => 52,
        SpecToken::Vec4 => 53,
        SpecToken::Mat4 => 54,
        SpecToken::Camera => 55,
        SpecToken::FrameArena => 56,
        SpecToken::True => 57,
        SpecToken::False => 58,
        SpecToken::Int(_) => 59,
        SpecToken::Float(_) => 60,
        SpecToken::StringLit(_) => 61,
        SpecToken::Ident(_) => 62,
        SpecToken::Plus => 63,
        SpecToken::Minus => 64,
        SpecToken::Star => 65,
        SpecToken::Slash => 66,
        SpecToken::Percent => 67,
        SpecToken::EqEq => 68,
        SpecToken::Ne => 69,
        SpecToken::Lt => 70,
        SpecToken::Le => 71,
        SpecToken::Gt => 72,
        SpecToken::Ge => 73,
        SpecToken::AndAnd => 74,
        SpecToken::OrOr => 75,
        SpecToken::Bang => 76,
        SpecToken::Eq => 77,
        SpecToken::PipeOp => 78,
        SpecToken::Pipe => 79,
        SpecToken::At => 80,
        SpecToken::LParen => 81,
        SpecToken::RParen => 82,
        SpecToken::LBrace => 83,
        SpecToken::RBrace => 84,
        SpecToken::LBracket => 85,
        SpecToken::RBracket => 86,
        SpecToken::Comma => 87,
        SpecToken::Colon => 88,
        SpecToken::Semicolon => 89,
        SpecToken::Dot => 90,
    }
}

impl Token {
    /// The number of the token's kind.
    pub fn kind(&self) -> (r: u8)
        ensures
            r == spec_kind(self@),
    {
        match self {
            Token::Fn => 0,
            Token::Let => 1,
            Token::If => 2,
            Token::Else => 3,
            Token::While => 4,
            Token::Loop => 5,
            Token::Return => 6,
            Token::Struct => 7,
            Token::Component => 8,
            Token::System => 9,
            Token::For => 10,
            Token::In => 11,
            Token::Query => 12,
            Token::Extern => 13,
            Token::Type => 14,
            Token::MeshSOA => 15,
            Token::ComponentSOA => 16,
            Token::Shader => 17,
            Token::Vertex => 18,
            Token::Fragment => 19,
            Token::Compute => 20,
            Token::Geometry => 21,
            Token::TessellationControl => 22,
            Token::TessellationEvaluation => 23,
            Token::Include => 24,
            Token::I32 => 25,
            Token::I64 => 26,
            Token::F32 => 27,
            Token::F64 => 28,
            Token::Bool => 29,
            Token::String => 30,
            Token::Void => 31,
            Token::VkInstance => 32,
            Token::VkDevice => 33,
            Token::VkResult => 34,
            Token::VkPhysicalDevice => 35,
            Token::VkQueue => 36,
            Token::VkCommandPool => 37,
            Token::VkCommandBuffer => 38,
            Token::VkSwapchainKHR => 39,
            Token::VkSurfaceKHR => 40,
            Token::VkRenderPass => 41,
            Token::VkPipeline => 42,
            Token::VkFramebuffer => 43,
            Token::VkBuffer => 44,
            Token::VkImage => 45,
            Token::VkImageView => 46,
            Token::VkSemaphore => 47,
            Token::VkFence => 48,
            Token::GLFWwindow => 49,
            Token::GLFWbool => 50,
            Token::Vec2 => 51,
            Token::Vec3 => 52,
            Token::Vec4 => 53,
            Token::Mat4 => 54,
            Token::Camera => 55,
            Token::FrameArena => 56,
            Token::True => 57,
            Token::False => 58,
            Token::Int(_) => 59,
            Token::Float(_) => 60,
            Token::StringLit(_) => 61,
            Token::Ident(_) => 62,
            Token::Plus => 63,
            Token::Minus => 64,
            Token::Star => 65,
            Token::Slash => 66,
            Token::Percent => 67,
            Token::EqEq => 68,
            Token::Ne => 69,
            Token::Lt => 70,
            Token::Le => 71,
            Token::Gt => 72,
            Token::Ge => 73,
            Token::AndAnd => 74,
            Token::OrOr => 75,
            Token::Bang => 76,
            Token::Eq => 77,
            Token::PipeOp => 78,
            Token::Pipe => 79,
            Token::At => 80,
            Token::LParen => 81,
            Token::RParen => 82,
            Token::LBrace => 83,
            Token::RBrace => 84,
            Token::LBracket => 85,
            Token::RBracket => 86,
            Token::Comma => 87,
            Token::Colon => 88,
            Token::Semicolon => 89,
            Token::Dot => 90,
        }
    }
}

/// The token of a word: the keyword that it spells, an identifier otherwise.
pub open spec fn spec_word_token(word: Seq<char>) -> SpecToken {
    if word == "fn"@ {
        SpecToken::Fn
    } else if word == "let"@ {
        SpecToken::Let
    } else if word == "if"@ {
        SpecToken::If
    } else if word == "else"@ {
        SpecToken::Else
    } else if word == "while"@ {
        SpecToken::While
    } else if word == "loop"@ {
        SpecToken::Loop
    } else if word == "return"@ {
        SpecToken::Return
    } else if word == "struct"@ {
        SpecToken::Struct
    } else if word == "component"@ {
        SpecToken::Component
    } else if word == "system"@ {
        SpecToken::System
    } else if word == "for"@ {
        SpecToken::For
    } else if word == "in"@ {
        SpecToken::In
    } else if word == "query"@ {
        SpecToken::Query
    } else if word == "extern"@ {
        SpecToken::Extern
    } else if word == "type"@ {
        SpecToken::Type
    } else if word == "mesh_soa"@ {
        SpecToken::MeshSOA
    } else if word == "component_soa"@ {
        SpecToken::ComponentSOA
    } else if word == "shader"@ {
        SpecToken::Shader
    } else if word == "vertex"@ {
        SpecToken::Vertex
    } else if word == "fragment"@ {
        SpecToken::Fragment
    } else if word == "compute"@ {
        SpecToken::Compute
    } else if word == "geometry"@ {
        SpecToken::Geometry
    } else if word == "tessellation_control"@ {
        SpecToken::TessellationControl
    } else if word == "tessellation_evaluation"@ {
        SpecToken::TessellationEvaluation
    } else if word == "include"@ {
        SpecToken::Include
    } else if word == "i32"@ {
        SpecToken::I32
    } else if word == "i64"@ {
        SpecToken::I64
    } else if word == "f32"@ {
        SpecToken::F32
    } else if word == "f64"@ {
        SpecToken::F64
    } else if word == "bool"@ {
        SpecToken::Bool
    } else if word == "string"@ {
        SpecToken::String
    } else if word == "void"@ {
        SpecToken::Void
    } else if word == "VkInstance"@ {
        SpecToken::VkInstance
    } else if word == "VkDevice"@ {
        SpecToken::VkDevice
    } else if word == "VkResult"@ {
        SpecToken::VkResult
    } else if word == "VkPhysicalDevice"@ {
        SpecToken::VkPhysicalDevice
    } else if word == "VkQueue"@ {
        SpecToken::VkQueue
    } else if word == "VkCommandPool"@ {
        SpecToken::VkCommandPool
    } else if word == "VkCommandBuffer"@ {
        SpecToken::VkCommandBuffer
    } else if word == "VkSwapchainKHR"@ {
        SpecToken::VkSwapchainKHR
    } else if word == "VkSurfaceKHR"@ {
        SpecToken::VkSurfaceKHR
    } else if word == "VkRenderPass"@ {
        SpecToken::VkRenderPass
    } else if word == "VkPipeline"@ {
        SpecToken::VkPipeline
    } else if word == "VkFramebuffer"@ {
        SpecToken::VkFramebuffer
    } else if word == "VkBuffer"@ {
        SpecToken::VkBuffer
    } else if word == "VkImage"@ {
        SpecToken::VkImage
    } else if word == "VkImageView"@ {
        SpecToken::VkImageView
    } else if word == "VkSemaphore"@ {
        SpecToken::VkSemaphore
    } else if word == "VkFence"@ {
        SpecToken::VkFence
    } else if word == "GLFWwindow"@ {
        SpecToken::GLFWwindow
    } else if word == "GLFWbool"@ {
        SpecToken::GLFWbool
    } else if word == "Vec2"@ {
        SpecToken::Vec2
    } else if word == "Vec3"@ {
        SpecToken::Vec3
    } else if word == "Vec4"@ {
        SpecToken::Vec4
    } else if word == "Mat4"@ {
        SpecToken::Mat4
    } else if word == "Camera"@ {
        SpecToken::Camera
    } else if word == "FrameArena"@ {
        SpecToken::FrameArena
    } else if word == "true"@ {
        SpecToken::True
    } else if word == "false"@ {
        SpecToken::False
    } else {
        SpecToken::Ident(word)
    }
}

/// The token of a word.
pub fn word_token(word: String) -> (r: Token)
    ensures
        r@ == spec_word_token(word@),
{
    let w = word.as_str();
    if crate::text::str_equal(w, "fn") {
        Token::Fn
    } else if crate::text::str_equal(w, "let") {
        Token::Let
    } else if crate::text::str_equal(w, "if") {
        Token::If
    } else if crate::text::str_equal(w, "else") {
        Token::Else
    } else if crate::text::str_equal(w, "while") {
        Token::While
    } else if crate::text::str_equal(w, "loop") {
        Token::Loop
    } else if crate::text::str_equal(w, "return") {
        Token::Return
    } else if crate::text::str_equal(w, "struct") {
        Token::Struct
    } else if crate::text::str_equal(w, "component") {
        Token::Component
    } else if crate::text::str_equal(w, "system") {
        Token::System
    } else if crate::text::str_equal(w, "for") {
        Token::For
    } else if crate::text::str_equal(w, "in") {
        Token::In
    } else if crate::text::str_equal(w, "query") {
        Token::Query
    } else if crate::text::str_equal(w, "extern") {
        Token::Extern
    } else if crate::text::str_equal(w, "type") {
        Token::Type
    } else if crate::text::str_equal(w, "mesh_soa") {
        Token::MeshSOA
    } else if crate::text::str_equal(w, "component_soa") {
        Token::ComponentSOA
    } else if crate::text::str_equal(w, "shader") {
        Token::Shader
    } else if crate::text::str_equal(w, "vertex") {
        Token::Vertex
    } else if crate::text::str_equal(w, "fragment") {
        Token::Fragment
    } else if crate::text::str_equal(w, "compute") {
        Token::Compute
    } else if crate::text::str_equal(w, "geometry") {
        Token::Geometry
    } else if crate::text::str_equal(w, "tessellation_control") {
        Token::TessellationControl
    } else if crate::text::str_equal(w, "tessellation_evaluation") {
        Token::TessellationEvaluation
    } else if crate::text::str_equal(w, "include") {
        Token::Include
    } else if crate::text::str_equal(w, "i32") {
        Token::I32
    } else if crate::text::str_equal(w, "i64") {
        Token::I64
    } else if crate::text::str_equal(w, "f32") {
        Token::F32
    } else if crate::text::str_equal(w, "f64") {
        Token::F64
    } else if crate::text::str_equal(w, "bool") {
        Token::Bool
    } else if crate::text::str_equal(w, "string") {
        Token::String
    } else if crate::text::str_equal(w, "void") {
        Token::Void
    } else if crate::text::str_equal(w, "VkInstance") {
        Token::VkInstance
    } else if crate::text::str_equal(w, "VkDevice") {
        Token::VkDevice
    } else if crate::text::str_equal(w, "VkResult") {
        Token::VkResult
    } else if crate::text::str_equal(w, "VkPhysicalDevice") {
        Token::VkPhysicalDevice
    } else if crate::text::str_equal(w, "VkQueue") {
        Token::VkQueue
    } else if crate::text::str_equal(w, "VkCommandPool") {
        Token::VkCommandPool
    } else if crate::text::str_equal(w, "VkCommandBuffer") {
        Token::VkCommandBuffer
    } else if crate::text::str_equal(w, "VkSwapchainKHR") {
        Token::VkSwapchainKHR
    } else if crate::text::str_equal(w, "VkSurfaceKHR") {
        Token::VkSurfaceKHR
    } else if crate::text::str_equal(w, "VkRenderPass") {
        Token::VkRenderPass
    } else if crate::text::str_equal(w, "VkPipeline") {
        Token::VkPipeline
    } else if crate::text::str_equal(w, "VkFramebuffer") {
        Token::VkFramebuffer
    } else if crate::text::str_equal(w, "VkBuffer") {
        Token::VkBuffer
    } else if crate::text::str_equal(w, "VkImage") {
        Token::VkImage
    } else if crate::text::str_equal(w, "VkImageView") {
        Token::VkImageView
    } else if crate::text::str_equal(w, "VkSemaphore") {
        Token::VkSemaphore
    } else if crate::text::str_equal(w, "VkFence") {
        Token::VkFence
    } else if crate::text::str_equal(w, "GLFWwindow") {
        Token::GLFWwindow
    } else if crate::text::str_equal(w, "GLFWbool") {
        Token::GLFWbool
    } else if crate::text::str_equal(w, "Vec2") {
        Token::Vec2
    } else if crate::text::str_equal(w, "Vec3") {
        Token::Vec3
    } else if crate::text::str_equal(w, "Vec4") {
        Token::Vec4
    } else if crate::text::str_equal(w, "Mat4") {
        Token::Mat4
    } else if crate::text::str_equal(w, "Camera") {
        Token::Camera
    } else if crate::text::str_equal(w, "FrameArena") {
        Token::FrameArena
    } else if crate::text::str_equal(w, "true") {
        Token::True
    } else if crate::text::str_equal(w, "false") {
        Token::False
    } else {
        Token::Ident(word)
    }
}

/// Blank characters: space, tab, line feed, carriage return.
pub open spec fn is_space(c: char) -> bool {
    c == ' ' || c == '\t' || c == '\n' || c == '\r'
}

/// Decimal digits.
pub open spec fn is_digit(c: char) -> bool {
    '0' <= c <= '9'
}

/// The characters that begin a word: letters and the underscore.
pub open spec fn is_word_start(c: char) -> bool {
    ('a' <= c <= 'z') || ('A' <= c <= 'Z') || c == '_'
}

/// The characters that continue a word: letters, digits and the underscore.
pub open spec fn is_word_part(c: char) -> bool {
    is_word_start(c) || is_digit(c)
}

/// End of the run of blank characters that begins at `pos`.
pub open spec fn spaces_end(s: Seq<char>, pos: int) -> int
    decreases s.len() - pos,
{
    if 0 <= pos < s.len() && is_space(s[pos]) {
        spaces_end(s, pos + 1)
    } else {
        pos
    }
}

/// End of the run of digits that begins at `pos`.
pub open spec fn digits_end(s: Seq<char>, pos: int) -> int
    decreases s.len() - pos,
{
    if 0 <= pos < s.len() && is_digit(s[pos]) {
        digits_end(s, pos + 1)
    } else {
        pos
    }
}

/// End of the run of word characters that begins at `pos`.
pub open spec fn word_end(s: Seq<char>, pos: int) -> int
    decreases s.len() - pos,
{
    if 0 <= pos < s.len() && is_word_part(s[pos]) {
        word_end(s, pos + 1)
    } else {
        pos
    }
}

/// Position of the first line feed at or after `pos`; the end of the text
/// where there is none.
pub open spec fn line_end(s: Seq<char>, pos: int) -> int
    decreases s.len() - pos,
{
    if 0 <= pos < s.len() && s[pos] != '\n' {
        line_end(s, pos + 1)
    } else {
        pos
    }
}

/// Position of the first double quote at or after `pos`; the end of the text
/// where there is none.
pub open spec fn quote_at(s: Seq<char>, pos: int) -> int
    decreases s.len() - pos,
{
    if 0 <= pos < s.len() && s[pos] != '"' {
        quote_at(s, pos + 1)
    } else {
        pos
    }
}

/// The value of a decimal digit.
pub open spec fn digit_value(c: char) -> nat {
    (c as nat - '0' as nat) as nat
}

/// The number that a run of digits spells.
pub open spec fn digits_value(digits: Seq<char>) -> nat
    decreases digits.len(),
{
    if digits.len() == 0 {
        0
    } else {
        digits_value(digits.drop_last()) * 10 + digit_value(digits.last())
    }
}

/// What begins at a position of the text: something to pass over, a token, or
/// nothing that the language knows. `end` is where the next lexeme begins.
pub enum SpecLexeme {
    Skip { end: int },
    Token { token: SpecToken, end: int },
    Error,
}

/// The number that begins at `pos`, where a digit stands, or a minus sign
/// with a digit after it: a floating-point literal where the digits are
/// followed by a point and a digit, an integer literal otherwise. An integer
/// that does not fit in 64 bits is an error.
pub open spec fn spec_number(s: Seq<char>, pos: int) -> SpecLexeme {
    let negative = s[pos] == '-';
    let first = if negative {
        pos + 1
    } else {
        pos
    };
    let end = digits_end(s, first);
    if end + 1 < s.len() && s[end] == '.' && is_digit(s[end + 1]) {
        let float_end = digits_end(s, end + 1);
        SpecLexeme::Token { token: SpecToken::Float(s.subrange(pos, float_end)), end: float_end }
    } else {
        let magnitude = digits_value(s.subrange(first, end));
        if negative {
            if magnitude <= 0x8000_0000_0000_0000 {
                SpecLexeme::Token { token: SpecToken::Int((-magnitude) as i64), end }
            } else {
                SpecLexeme::Error
            }
        } else {
            if magnitude <= 0x7fff_ffff_ffff_ffff {
                SpecLexeme::Token { token: SpecToken::Int(magnitude as i64), end }
            } else {
                SpecLexeme::Error
            }
        }
    }
}

/// The operator or delimiter that begins at `pos`: the longer one where two
/// begin with the same character.
pub open spec fn spec_symbol(s: Seq<char>, pos: int) -> SpecLexeme {
    let c = s[pos];
    let paired = pos + 1 < s.len();
    if c == '=' {
        if paired && s[pos + 1] == '=' {
            SpecLexeme::Token { token: SpecToken::EqEq, end: pos + 2 }
        } else {
            SpecLexeme::Token { token: SpecToken::Eq, end: pos + 1 }
        }
    } else if c == '!' {
        if paired && s[pos + 1] == '=' {
            SpecLexeme::Token { token: SpecToken::Ne, end: pos + 2 }
        } else {
            SpecLexeme::Token { token: SpecToken::Bang, end: pos + 1 }
        }
    } else if c == '<' {
        if paired && s[pos + 1] == '=' {
            SpecLexeme::Token { token: SpecToken::Le, end: pos + 2 }
        } else {
            SpecLexeme::Token { token: SpecToken::Lt, end: pos + 1 }
        }
    } else if c == '>' {
        if paired && s[pos + 1] == '=' {
            SpecLexeme::Token { token: SpecToken::Ge, end: pos + 2 }
        } else {
            SpecLexeme::Token { token: SpecToken::Gt, end: pos + 1 }
        }
    } else if c == '&' {
        if paired && s[pos + 1] == '&' {
            SpecLexeme::Token { token: SpecToken::AndAnd, end: pos + 2 }
        } else {
            SpecLexeme::Error
        }
    } else if c == '|' {
        if paired && s[pos + 1] == '|' {
            SpecLexeme::Token { token: SpecToken::OrOr, end: pos + 2 }
        } else if paired && s[pos + 1] == '>' {
            SpecLexeme::Token { token: SpecToken::PipeOp, end: pos + 2 }
        } else {
            SpecLexeme::Token { token: SpecToken::Pipe, end: pos + 1 }
        }
    } else if c == '+' {
        SpecLexeme::Token { token: SpecToken::Plus, end: pos + 1 }
    } else if c == '-' {
        SpecLexeme::Token { token: SpecToken::Minus, end: pos + 1 }
    } else if c == '*' {
        SpecLexeme::Token { token: SpecToken::Star, end: pos + 1 }
    } else if c == '/' {
        SpecLexeme::Token { token: SpecToken::Slash, end: pos + 1 }
    } else if c == '%' {
        SpecLexeme::Token { token: SpecToken::Percent, end: pos + 1 }
    } else if c == '@' {
        SpecLexeme::Token { token: SpecToken::At, end: pos + 1 }
    } else if c == '(' {
        SpecLexeme::Token { token: SpecToken::LParen, end: pos + 1 }
    } else if c == ')' {
        SpecLexeme::Token { token: SpecToken::RParen, end: pos + 1 }
    } else if c == '{' {
        SpecLexeme::Token { token: SpecToken::LBrace, end: pos + 1 }
    } else if c == '}' {
        SpecLexeme::Token { token: SpecToken::RBrace, end: pos + 1 }
    } else if c == '[' {
        SpecLexeme::Token { token: SpecToken::LBracket, end: pos + 1 }
    } else if c == ']' {
        SpecLexeme::Token { token: SpecToken::RBracket, end: pos + 1 }
    } else if c == ',' {
        SpecLexeme::Token { token: SpecToken::Comma, end: pos + 1 }
    } else if c == ':' {
        SpecLexeme::Token { token: SpecToken::Colon, end: pos + 1 }
    } else if c == ';' {
        SpecLexeme::Token { token: SpecToken::Semicolon, end: pos + 1 }
    } else if c == '.' {
        SpecLexeme::Token { token: SpecToken::Dot, end: pos + 1 }
    } else {
        SpecLexeme::Error
    }
}

/// What begins at position `pos` of the text.
///
/// Blank characters and a comment from `//` to the end of the line are passed
/// over. A word is a keyword or an identifier. A digit, or a minus sign with
/// a digit after it, begins a number. A double quote begins a string literal,
/// which ends at the next double quote; without one it is an error.
/// Anything else is an operator, a delimiter, or an error.
pub open spec fn spec_lexeme(s: Seq<char>, pos: int) -> SpecLexeme {
    let c = s[pos];
    if is_space(c) {
        SpecLexeme::Skip { end: spaces_end(s, pos) }
    } else if c == '/' && pos + 1 < s.len() && s[pos + 1] == '/' {
        SpecLexeme::Skip { end: line_end(s, pos + 2) }
    } else if is_word_start(c) {
        let end = word_end(s, pos);
        SpecLexeme::Token { token: spec_word_token(s.subrange(pos, end)), end }
    } else if is_digit(c) || (c == '-' && pos + 1 < s.len() && is_digit(s[pos + 1])) {
        spec_number(s, pos)
    } else if c == '"' {
        let close = quote_at(s, pos + 1);
        if close < s.len() {
            SpecLexeme::Token {
                token: SpecToken::StringLit(s.subrange(pos + 1, close)),
                end: close + 1,
            }
        } else {
            SpecLexeme::Error
        }
    } else {
        spec_symbol(s, pos)
    }
}

/// How many bytes a character takes in UTF-8.
pub open spec fn spec_utf8_width(c: char) -> nat {
    if (c as u32) < 0x80 {
        1
    } else if (c as u32) < 0x800 {
        2
    } else if (c as u32) < 0x10000 {
        3
    } else {
        4
    }
}

/// The offset in bytes of position `pos` of the text, in UTF-8.
pub open spec fn spec_byte_offset(s: Seq<char>, pos: int) -> nat
    decreases pos,
{
    if pos <= 0 || pos > s.len() {
        0
    } else {
        spec_byte_offset(s, pos - 1) + spec_utf8_width(s[pos - 1])
    }
}

/// The error for a character at position `pos` that begins no lexeme: it
/// carries the character's offset in bytes, or the largest number that the
/// machine holds where the offset is larger.
pub open spec fn spec_lexical_error(s: Seq<char>, pos: int) -> LexicalError {
    LexicalError {
        position: if spec_byte_offset(s, pos) <= usize::MAX {
            spec_byte_offset(s, pos) as usize
        } else {
            usize::MAX
        },
    }
}

/// Model of the outcome of lexical analysis.
pub type SpecTokens = Result<Seq<SpecToken>, LexicalError>;

/// `tokens` put before an outcome.
pub open spec fn spec_prepend(tokens: Seq<SpecToken>, rest: SpecTokens) -> SpecTokens {
    match rest {
        Ok(more) => Ok(tokens + more),
        Err(e) => Err(e),
    }
}

/// The tokens of the text from position `pos` on, or the error of the first
/// character that begins no lexeme. (A lexeme is never empty: see
/// [`lemma_lexeme_advances`].)
pub open spec fn spec_tokenize_from(s: Seq<char>, pos: int) -> SpecTokens
    decreases s.len() - pos,
{
    if pos < 0 || pos >= s.len() {
        Ok(Seq::empty())
    } else {
        match spec_lexeme(s, pos) {
            SpecLexeme::Error => Err(spec_lexical_error(s, pos)),
            SpecLexeme::Skip { end } => if pos < end <= s.len() {
                spec_tokenize_from(s, end)
            } else {
                Err(spec_lexical_error(s, pos))
            },
            SpecLexeme::Token { token, end } => if pos < end <= s.len() {
                spec_prepend(seq![token], spec_tokenize_from(s, end))
            } else {
                Err(spec_lexical_error(s, pos))
            },
        }
    }
}

/// The tokens of a text.
pub open spec fn spec_tokenize(s: Seq<char>) -> SpecTokens {
    spec_tokenize_from(s, 0)
}

/// A run ends at or after the position where it begins, within the text.
pub proof fn lemma_runs_end(s: Seq<char>, pos: int)
    requires
        0 <= pos <= s.len(),
    ensures
        pos <= spaces_end(s, pos) <= s.len(),
        pos <= digits_end(s, pos) <= s.len(),
        pos <= word_end(s, pos) <= s.len(),
        pos <= line_end(s, pos) <= s.len(),
        pos <= quote_at(s, pos) <= s.len(),
    decreases s.len() - pos,
{
    if pos < s.len() {
        lemma_runs_end(s, pos + 1);
    }
}

/// A lexeme is never empty and never goes beyond the text.
pub proof fn lemma_lexeme_advances(s: Seq<char>, pos: int)
    requires
        0 <= pos < s.len(),
    ensures
        match spec_lexeme(s, pos) {
            SpecLexeme::Error => true,
            SpecLexeme::Skip { end } => pos < end <= s.len(),
            SpecLexeme::Token { token, end } => pos < end <= s.len(),
        },
{
    lemma_runs_end(s, pos + 1);
    if pos + 2 <= s.len() {
        lemma_runs_end(s, pos + 2);
    }
    let c = s[pos];
    if is_digit(c) || (c == '-' && pos + 1 < s.len() && is_digit(s[pos + 1])) {
        let first = if c == '-' {
            pos + 1
        } else {
            pos
        };
        lemma_runs_end(s, first + 1);
        let end = digits_end(s, first);
        if end + 1 < s.len() {
            lemma_runs_end(s, end + 2);
        }
    }
}

/// What begins at a position of the text.
pub enum Lexeme {
    Skip(usize),
    Token(Token, usize),
    Error,
}

impl View for Lexeme {
    type V = SpecLexeme;

    open spec fn view(&self) -> SpecLexeme {
        match self {
            Lexeme::Skip(end) => SpecLexeme::Skip { end: *end as int },
            Lexeme::Token(token, end) => SpecLexeme::Token { token: token@, end: *end as int },
            Lexeme::Error => SpecLexeme::Error,
        }
    }
}

fn char_is_space(c: char) -> (r: bool)
    ensures
        r == is_space(c),
{
    c == ' ' || c == '\t' || c == '\n' || c == '\r'
}

fn char_is_digit(c: char) -> (r: bool)
    ensures
        r == is_digit(c),
{
    '0' <= c && c <= '9'
}

fn char_is_word_start(c: char) -> (r: bool)
    ensures
        r == is_word_start(c),
{
    ('a' <= c && c <= 'z') || ('A' <= c && c <= 'Z') || c == '_'
}

fn char_is_word_part(c: char) -> (r: bool)
    ensures
        r == is_word_part(c),
{
    char_is_word_start(c) || char_is_digit(c)
}

fn scan_spaces(chars: &Vec<char>, pos: usize) -> (end: usize)
    requires
        pos <= chars.len(),
    ensures
        end == spaces_end(chars@, pos as int),
        pos <= end <= chars.len(),
{
    let mut i: usize = pos;
    while i < chars.len() && char_is_space(chars[i])
        invariant
            pos <= i <= chars.len(),
            spaces_end(chars@, pos as int) == spaces_end(chars@, i as int),
        decreases chars.len() - i,
    {
        i += 1;
    }
    i
}

fn scan_digits(chars: &Vec<char>, pos: usize) -> (end: usize)
    requires
        pos <= chars.len(),
    ensures
        end == digits_end(chars@, pos as int),
        pos <= end <= chars.len(),
        forall|i: int| pos <= i < end ==> is_digit(#[trigger] chars@[i]),
{
    let mut i: usize = pos;
    while i < chars.len() && char_is_digit(chars[i])
        invariant
            pos <= i <= chars.len(),
            digits_end(chars@, pos as int) == digits_end(chars@, i as int),
            forall|k: int| pos <= k < i ==> is_digit(#[trigger] chars@[k]),
        decreases chars.len() - i,
    {
        i += 1;
    }
    i
}

fn scan_word(chars: &Vec<char>, pos: usize) -> (end: usize)
    requires
        pos <= chars.len(),
    ensures
        end == word_end(chars@, pos as int),
        pos <= end <= chars.len(),
{
    let mut i: usize = pos;
    while i < chars.len() && char_is_word_part(chars[i])
        invariant
            pos <= i <= chars.len(),
            word_end(chars@, pos as int) == word_end(chars@, i as int),
        decreases chars.len() - i,
    {
        i += 1;
    }
    i
}

fn scan_line(chars: &Vec<char>, pos: usize) -> (end: usize)
    requires
        pos <= chars.len(),
    ensures
        end == line_end(chars@, pos as int),
        pos <= end <= chars.len(),
{
    let mut i: usize = pos;
    while i < chars.len() && chars[i] != '\n'
        invariant
            pos <= i <= chars.len(),
            line_end(chars@, pos as int) == line_end(chars@, i as int),
        decreases chars.len() - i,
    {
        i += 1;
    }
    i
}

fn scan_quote(chars: &Vec<char>, pos: usize) -> (end: usize)
    requires
        pos <= chars.len(),
    ensures
        end == quote_at(chars@, pos as int),
        pos <= end <= chars.len(),
{
    let mut i: usize = pos;
    while i < chars.len() && chars[i] != '"'
        invariant
            pos <= i <= chars.len(),
            quote_at(chars@, pos as int) == quote_at(chars@, i as int),
        decreases chars.len() - i,
    {
        i += 1;
    }
    i
}

/// The number that a run of digits spells is at least the number that a
/// part of the run from its beginning spells.
pub proof fn lemma_digits_value_grows(digits: Seq<char>, k: int)
    requires
        0 <= k <= digits.len(),
    ensures
        digits_value(digits.take(k)) <= digits_value(digits),
    decreases digits.len() - k,
{
    if k < digits.len() {
        lemma_digits_value_grows(digits, k + 1);
        assert(digits.take(k + 1).drop_last() =~= digits.take(k));
    } else {
        assert(digits.take(k) =~= digits);
    }
}

/// The number that the digits `chars[from..to]` spell, where it is at most `limit`.
fn digits_magnitude(chars: &Vec<char>, from: usize, to: usize, limit: u64) -> (r: Option<u64>)
    requires
        from <= to <= chars.len(),
        forall|i: int| from <= i < to ==> is_digit(#[trigger] chars@[i]),
        9 <= limit <= 0x8000_0000_0000_0000,
    ensures
        match r {
            Some(v) => v == digits_value(chars@.subrange(from as int, to as int)) && v <= limit,
            None => digits_value(chars@.subrange(from as int, to as int)) > limit,
        },
{
    let ghost all = chars@.subrange(from as int, to as int);
    let mut acc: u64 = 0;
    let mut i: usize = from;
    assert(all.take(0) =~= Seq::<char>::empty());
    while i < to
        invariant
            from <= i <= to <= chars.len(),
            all == chars@.subrange(from as int, to as int),
            forall|k: int| from <= k < to ==> is_digit(#[trigger] chars@[k]),
            9 <= limit <= 0x8000_0000_0000_0000,
            acc == digits_value(all.take(i - from)),
            acc <= limit,
        decreases to - i,
    {
        let c = chars[i];
        assert(is_digit(chars@[i as int]));
        let d: u64 = (c as u32 - '0' as u32) as u64;
        proof {
            assert(all.take(i - from + 1).drop_last() =~= all.take(i - from));
            assert(all.take(i - from + 1).last() == c);
            assert(d == digit_value(c));
            lemma_digits_value_grows(all, i - from + 1);
        }
        if acc > (limit - d) / 10 {
            return None;
        }
        acc = acc * 10 + d;
        i += 1;
    }
    assert(all.take(to - from) =~= all);
    Some(acc)
}

/// The number that begins at `pos`.
fn number(chars: &Vec<char>, pos: usize) -> (r: Lexeme)
    requires
        pos < chars.len(),
        is_digit(chars@[pos as int]) || (chars@[pos as int] == '-' && pos + 1 < chars.len()
            && is_digit(chars@[pos + 1])),
    ensures
        r@ == spec_number(chars@, pos as int),
{
    let negative = chars[pos] == '-';
    let first: usize = if negative {
        pos + 1
    } else {
        pos
    };
    let end = scan_digits(chars, first);
    if end < chars.len() && chars[end] == '.' && end + 1 < chars.len() && char_is_digit(
        chars[end + 1],
    ) {
        let float_end = scan_digits(chars, end + 1);
        Lexeme::Token(Token::Float(string_of(chars, pos, float_end)), float_end)
    } else if negative {
        match digits_magnitude(chars, first, end, 0x8000_0000_0000_0000) {
            Some(m) => {
                let value: i64 = if m == 0x8000_0000_0000_0000 {
                    i64::MIN
                } else {
                    -(m as i64)
                };
                Lexeme::Token(Token::Int(value), end)
            },
            None => Lexeme::Error,
        }
    } else {
        match digits_magnitude(chars, first, end, 0x7fff_ffff_ffff_ffff) {
            Some(m) => Lexeme::Token(Token::Int(m as i64), end),
            None => Lexeme::Error,
        }
    }
}

/// The operator or delimiter that begins at `pos`.
fn symbol(chars: &Vec<char>, pos: usize) -> (r: Lexeme)
    requires
        pos < chars.len(),
    ensures
        r@ == spec_symbol(chars@, pos as int),
{
    let c = chars[pos];
    let paired = pos + 1 < chars.len();
    if c == '=' {
        if paired && chars[pos + 1] == '=' {
            Lexeme::Token(Token::EqEq, pos + 2)
        } else {
            Lexeme::Token(Token::Eq, pos + 1)
        }
    } else if c == '!' {
        if paired && chars[pos + 1] == '=' {
            Lexeme::Token(Token::Ne, pos + 2)
        } else {
            Lexeme::Token(Token::Bang, pos + 1)
        }
    } else if c == '<' {
        if paired && chars[pos + 1] == '=' {
            Lexeme::Token(Token::Le, pos + 2)
        } else {
            Lexeme::Token(Token::Lt, pos + 1)
        }
    } else if c == '>' {
        if paired && chars[pos + 1] == '=' {
            Lexeme::Token(Token::Ge, pos + 2)
        } else {
            Lexeme::Token(Token::Gt, pos + 1)
        }
    } else if c == '&' {
        if paired && chars[pos + 1] == '&' {
            Lexeme::Token(Token::AndAnd, pos + 2)
        } else {
            Lexeme::Error
        }
    } else if c == '|' {
        if paired && chars[pos + 1] == '|' {
            Lexeme::Token(Token::OrOr, pos + 2)
        } else if paired && chars[pos + 1] == '>' {
            Lexeme::Token(Token::PipeOp, pos + 2)
        } else {
            Lexeme::Token(Token::Pipe, pos + 1)
        }
    } else if c == '+' {
        Lexeme::Token(Token::Plus, pos + 1)
    } else if c == '-' {
        Lexeme::Token(Token::Minus, pos + 1)
    } else if c == '*' {
        Lexeme::Token(Token::Star, pos + 1)
    } else if c == '/' {
        Lexeme::Token(Token::Slash, pos + 1)
    } else if c == '%' {
        Lexeme::Token(Token::Percent, pos + 1)
    } else if c == '@' {
        Lexeme::Token(Token::At, pos + 1)
    } else if c == '(' {
        Lexeme::Token(Token::LParen, pos + 1)
    } else if c == ')' {
        Lexeme::Token(Token::RParen, pos + 1)
    } else if c == '{' {
        Lexeme::Token(Token::LBrace, pos + 1)
    } else if c == '}' {
        Lexeme::Token(Token::RBrace, pos + 1)
    } else if c == '[' {
        Lexeme::Token(Token::LBracket, pos + 1)
    } else if c == ']' {
        Lexeme::Token(Token::RBracket, pos + 1)
    } else if c == ',' {
        Lexeme::Token(Token::Comma, pos + 1)
    } else if c == ':' {
        Lexeme::Token(Token::Colon, pos + 1)
    } else if c == ';' {
        Lexeme::Token(Token::Semicolon, pos + 1)
    } else if c == '.' {
        Lexeme::Token(Token::Dot, pos + 1)
    } else {
        Lexeme::Error
    }
}

/// What begins at position `pos` of the text.
pub fn next_lexeme(chars: &Vec<char>, pos: usize) -> (r: Lexeme)
    requires
        pos < chars.len(),
    ensures
        r@ == spec_lexeme(chars@, pos as int),
        match r {
            Lexeme::Error => true,
            Lexeme::Skip(end) => pos < end <= chars.len(),
            Lexeme::Token(_, end) => pos < end <= chars.len(),
        },
{
    proof {
        lemma_lexeme_advances(chars@, pos as int);
    }
    let c = chars[pos];
    if char_is_space(c) {
        Lexeme::Skip(scan_spaces(chars, pos))
    } else if c == '/' && pos + 1 < chars.len() && chars[pos + 1] == '/' {
        Lexeme::Skip(scan_line(chars, pos + 2))
    } else if char_is_word_start(c) {
        let end = scan_word(chars, pos);
        Lexeme::Token(word_token(string_of(chars, pos, end)), end)
    } else if char_is_digit(c) || (c == '-' && pos + 1 < chars.len() && char_is_digit(
        chars[pos + 1],
    )) {
        number(chars, pos)
    } else if c == '"' {
        let close = scan_quote(chars, pos + 1);
        if close < chars.len() {
            Lexeme::Token(Token::StringLit(string_of(chars, pos + 1, close)), close + 1)
        } else {
            Lexeme::Error
        }
    } else {
        symbol(chars, pos)
    }
}

/// The error for a character at position `pos` that begins no lexeme.
pub fn lexical_error(chars: &Vec<char>, pos: usize) -> (r: LexicalError)
    requires
        pos <= chars.len(),
    ensures
        r == spec_lexical_error(chars@, pos as int),
{
    let mut offset: usize = 0;
    let mut i: usize = 0;
    while i < pos
        invariant
            i <= pos <= chars.len(),
            offset == (if spec_byte_offset(chars@, i as int) <= usize::MAX {
                spec_byte_offset(chars@, i as int) as usize
            } else {
                usize::MAX
            }),
        decreases pos - i,
    {
        let code = chars[i] as u32;
        let width: usize = if code < 0x80 {
            1
        } else if code < 0x800 {
            2
        } else if code < 0x10000 {
            3
        } else {
            4
        };
        assert(width == spec_utf8_width(chars@[i as int]));
        offset = if offset > usize::MAX - width {
            usize::MAX
        } else {
            offset + width
        };
        i += 1;
    }
    LexicalError { position: offset }
}

/// The model of the outcome of lexical analysis.
pub open spec fn tokens_view(r: Result<Vec<Token>, LexicalError>) -> SpecTokens {
    match r {
        Ok(tokens) => Ok(tokens@.map_values(|t: Token| t@)),
        Err(e) => Err(e),
    }
}

/// The tokens of a text.
pub fn tokenize_text(source: &str) -> (r: Result<Vec<Token>, LexicalError>)
    ensures
        tokens_view(r) == spec_tokenize(source@),
{
    let chars = chars_of(source);
    let mut tokens: Vec<Token> = Vec::new();
    let mut pos: usize = 0;
    assert(tokens@.map_values(|t: Token| t@) + Seq::<SpecToken>::empty() =~= tokens@.map_values(
        |t: Token| t@,
    ));
    while pos < chars.len()
        invariant
            pos <= chars.len(),
            chars@ == source@,
            spec_tokenize(source@) == spec_prepend(
                tokens@.map_values(|t: Token| t@),
                spec_tokenize_from(chars@, pos as int),
            ),
        decreases chars.len() - pos,
    {
        let ghost so_far = tokens@.map_values(|t: Token| t@);
        match next_lexeme(&chars, pos) {
            Lexeme::Error => {
                return Err(lexical_error(&chars, pos));
            },
            Lexeme::Skip(end) => {
                pos = end;
            },
            Lexeme::Token(token, end) => {
                let ghost rest = spec_tokenize_from(chars@, end as int);
                proof {
                    match rest {
                        Ok(more) => {
                            assert(so_far + (seq![token@] + more) =~= so_far.push(token@) + more);
                        },
                        Err(_) => {},
                    }
                }
                tokens.push(token);
                assert(tokens@.map_values(|t: Token| t@) =~= so_far.push(token@));
                pos = end;
            },
        }
    }
    proof {
        let all = tokens@.map_values(|t: Token| t@);
        assert(all + Seq::<SpecToken>::empty() =~= all);
    }
    Ok(tokens)
}

/// A lexer: the source text that it was made for.
pub struct Lexer {
    source: String,
}

impl Lexer {
    /// The source text.
    pub closed spec fn text(&self) -> Seq<char> {
        self.source@
    }

    /// A lexer for a source text.
    pub fn new(source: &str) -> (r: Lexer)
        ensures
            r.text() == source@,
    {
        Lexer { source: source.to_owned() }
    }

    /// The tokens of the source text, in order, or the error of the first
    /// character that begins no lexeme. The lexer is left as it was.
    pub fn tokenize(&mut self) -> (r: Result<Vec<Token>, LexicalError>)
        ensures
            tokens_view(r) == spec_tokenize(old(self).text()),
            final(self).text() == old(self).text(),
    {
        tokenize_text(self.source.as_str())
    }
}

/// Copies a token.
pub fn clone_token(t: &Token) -> (r: Token)
    ensures
        r@ == t@,
{
    match t {
        Token::Fn => Token::Fn,
        Token::Let => Token::Let,
        Token::If => Token::If,
        Token::Else => Token::Else,
        Token::While => Token::While,
        Token::Loop => Token::Loop,
        Token::Return => Token::Return,
        Token::Struct => Token::Struct,
        Token::Component => Token::Component,
        Token::System => Token::System,
        Token::For => Token::For,
        Token::In => Token::In,
        Token::Query => Token::Query,
        Token::Extern => Token::Extern,
        Token::Type => Token::Type,
        Token::MeshSOA => Token::MeshSOA,
        Token::ComponentSOA => Token::ComponentSOA,
        Token::Shader => Token::Shader,
        Token::Vertex => Token::Vertex,
        Token::Fragment => Token::Fragment,
        Token::Compute => Token::Compute,
        Token::Geometry => Token::Geometry,
        Token::TessellationControl => Token::TessellationControl,
        Token::TessellationEvaluation => Token::TessellationEvaluation,
        Token::Include => Token::Include,
        Token::I32 => Token::I32,
        Token::I64 => Token::I64,
        Token::F32 => Token::F32,
        Token::F64 => Token::F64,
        Token::Bool => Token::Bool,
        Token::String => Token::String,
        Token::Void => Token::Void,
        Token::VkInstance => Token::VkInstance,
        Token::VkDevice => Token::VkDevice,
        Token::VkResult => Token::VkResult,
        Token::VkPhysicalDevice => Token::VkPhysicalDevice,
        Token::VkQueue => Token::VkQueue,
        Token::VkCommandPool => Token::VkCommandPool,
        Token::VkCommandBuffer => Token::VkCommandBuffer,
        Token::VkSwapchainKHR => Token::VkSwapchainKHR,
        Token::VkSurfaceKHR => Token::VkSurfaceKHR,
        Token::VkRenderPass => Token::VkRenderPass,
        Token::VkPipeline => Token::VkPipeline,
        Token::VkFramebuffer => Token::VkFramebuffer,
        Token::VkBuffer => Token::VkBuffer,
        Token::VkImage => Token::VkImage,
        Token::VkImageView => Token::VkImageView,
        Token::VkSemaphore => Token::VkSemaphore,
        Token::VkFence => Token::VkFence,
        Token::GLFWwindow => Token::GLFWwindow,
        Token::GLFWbool => Token::GLFWbool,
        Token::Vec2 => Token::Vec2,
        Token::Vec3 => Token::Vec3,
        Token::Vec4 => Token::Vec4,
        Token::Mat4 => Token::Mat4,
        Token::Camera => Token::Camera,
        Token::FrameArena => Token::FrameArena,
        Token::True => Token::True,
        Token::False => Token::False,
        Token::Plus => Token::Plus,
        Token::Minus => Token::Minus,
        Token::Star => Token::Star,
        Token::Slash => Token::Slash,
        Token::Percent => Token::Percent,
        Token::EqEq => Token::EqEq,
        Token::Ne => Token::Ne,
        Token::Lt => Token::Lt,
        Token::Le => Token::Le,
        Token::Gt => Token::Gt,
        Token::Ge => Token::Ge,
        Token::AndAnd => Token::AndAnd,
        Token::OrOr => Token::OrOr,
        Token::Bang => Token::Bang,
        Token::Eq => Token::Eq,
        Token::PipeOp => Token::PipeOp,
        Token::Pipe => Token::Pipe,
        Token::At => Token::At,
        Token::LParen => Token::LParen,
        Token::RParen => Token::RParen,
        Token::LBrace => Token::LBrace,
        Token::RBrace => Token::RBrace,
        Token::LBracket => Token::LBracket,
        Token::RBracket => Token::RBracket,
        Token::Comma => Token::Comma,
        Token::Colon => Token::Colon,
        Token::Semicolon => Token::Semicolon,
        Token::Dot => Token::Dot,
        Token::Int(n) => Token::Int(*n),
        Token::Float(t) => Token::Float(t.clone()),
        Token::StringLit(t) => Token::StringLit(t.clone()),
        Token::Ident(t) => Token::Ident(t.clone()),
    }
}

} // verus!
