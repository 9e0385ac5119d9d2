//! Writing tokens as text, and reading them back.

use crate::error::LexicalError;
use crate::lexer::{
    digit_value, digits_end, digits_value, is_digit, is_space, is_word_part, is_word_start,
    quote_at, spaces_end, spec_lexeme, spec_number, spec_prepend, spec_tokenize,
    spec_tokenize_from, spec_word_token, word_end, SpecLexeme, SpecToken,
};
use crate::text::{digit_char, spec_decimal, spec_nat_decimal};
use vstd::prelude::*;

verus! {

/// The text of a token: a keyword or a symbol as it is spelled, an integer
/// in decimal, a floating-point number as it was written, a string between
/// double quotes, an identifier as it is.
pub open spec fn spec_token_text(t: SpecToken) -> Seq<char> {
    match t {
        SpecToken::Fn => "fn"@,
        SpecToken::Let => "let"@,
        SpecToken::If => "if"@,
        SpecToken::Else => "else"@,
        SpecToken::While => "while"@,
        SpecToken::Loop => "loop"@,
        SpecToken::Return => "return"@,
        SpecToken::Struct => "struct"@,
        SpecToken::Component => "component"@,
        SpecToken::System => "system"@,
        SpecToken::For => "for"@,
        SpecToken::In => "in"@,
        SpecToken::Query => "query"@,
        SpecToken::Extern => "extern"@,
        SpecToken::Type => "type"@,
        SpecToken::MeshSOA => "mesh_soa"@,
        SpecToken::ComponentSOA => "component_soa"@,
        SpecToken::Shader => "shader"@,
        SpecToken::Vertex => "vertex"@,
        SpecToken::Fragment => "fragment"@,
        SpecToken::Compute => "compute"@,
        SpecToken::Geometry => "geometry"@,
        SpecToken::TessellationControl => "tessellation_control"@,
        SpecToken::TessellationEvaluation => "tessellation_evaluation"@,
        SpecToken::Include => "include"@,
        SpecToken::I32 => "i32"@,
        SpecToken::I64 => "i64"@,
        SpecToken::F32 => "f32"@,
        SpecToken::F64 => "f64"@,
        SpecToken::Bool => "bool"@,
        SpecToken::String => "string"@,
        SpecToken::Void => "void"@,
        SpecToken::VkInstance => "VkInstance"@,
        SpecToken::VkDevice => "VkDevice"@,
        SpecToken::VkResult => "VkResult"@,
        SpecToken::VkPhysicalDevice => "VkPhysicalDevice"@,
        SpecToken::VkQueue => "VkQueue"@,
        SpecToken::VkCommandPool => "VkCommandPool"@,
        SpecToken::VkCommandBuffer => "VkCommandBuffer"@,
        SpecToken::VkSwapchainKHR => "VkSwapchainKHR"@,
        SpecToken::VkSurfaceKHR => "VkSurfaceKHR"@,
        SpecToken::VkRenderPass => "VkRenderPass"@,
        SpecToken::VkPipeline => "VkPipeline"@,
        SpecToken::VkFramebuffer => "VkFramebuffer"@,
        SpecToken::VkBuffer => "VkBuffer"@,
        SpecToken::VkImage => "VkImage"@,
        SpecToken::VkImageView => "VkImageView"@,
        SpecToken::VkSemaphore => "VkSemaphore"@,
        SpecToken::VkFence => "VkFence"@,
        SpecToken::GLFWwindow => "GLFWwindow"@,
        SpecToken::GLFWbool => "GLFWbool"@,
        SpecToken::Vec2 => "Vec2"@,
        SpecToken::Vec3 => "Vec3"@,
        SpecToken::Vec4 => "Vec4"@,
        SpecToken::Mat4 => "Mat4"@,
        SpecToken::Camera => "Camera"@,
        SpecToken::FrameArena => "FrameArena"@,
        SpecToken::True => "true"@,
        SpecToken::False => "false"@,
        SpecToken::Plus => "+"@,
        SpecToken::Minus => "-"@,
        SpecToken::Star => "*"@,
        SpecToken::Slash => "/"@,
        SpecToken::Percent => "%"@,
        SpecToken::EqEq => "=="@,
        SpecToken::Ne => "!="@,
        SpecToken::Lt => "<"@,
        SpecToken::Le => "<="@,
        SpecToken::Gt => ">"@,
        SpecToken::Ge => ">="@,
        SpecToken::AndAnd => "&&"@,
        SpecToken::OrOr => "||"@,
        SpecToken::Bang => "!"@,
        SpecToken::Eq => "="@,
        SpecToken::PipeOp => "|>"@,
        SpecToken::Pipe => "|"@,
        SpecToken::At => "@"@,
        SpecToken::LParen => "("@,
        SpecToken::RParen => ")"@,
        SpecToken::LBrace => "{"@,
        SpecToken::RBrace => "}"@,
        SpecToken::LBracket => "["@,
        SpecToken::RBracket => "]"@,
        SpecToken::Comma => ","@,
        SpecToken::Colon => ":"@,
        SpecToken::Semicolon => ";"@,
        SpecToken::Dot => "."@,
        SpecToken::Int(n) => spec_decimal(n as int),
        SpecToken::Float(t) => t,
        SpecToken::StringLit(t) => seq!['"'] + t + seq!['"'],
        SpecToken::Ident(n) => n,
    }
}

/// The text of the tokens from the `from`-th on: a space after each.
pub open spec fn spec_tokens_text(ts: Seq<SpecToken>, from: nat) -> Seq<char>
    decreases ts.len() - from,
{
    if from >= ts.len() {
        Seq::empty()
    } else {
        spec_token_text(ts[from as int]) + seq![' '] + spec_tokens_text(ts, from + 1)
    }
}

/// Whether a text is a word: a letter or an underscore, then letters, digits
/// and underscores.
pub open spec fn is_word(w: Seq<char>) -> bool {
    w.len() > 0 && is_word_start(w[0]) && forall|i: int| 0 <= i < w.len() ==> is_word_part(#[trigger] w[i])
}

/// Whether a text is a floating-point number as the language writes it: a
/// minus sign at will, digits, a point, digits.
pub open spec fn is_float_text(t: Seq<char>) -> bool {
    let first: int = if t.len() > 0 && t[0] == '-' {
        1
    } else {
        0
    };
    let point = digits_end(t, first);
    first < point < t.len() && t[point] == '.' && point + 1 < t.len() && digits_end(t, point + 1)
        == t.len()
}

/// The tokens that text can hold: an identifier is a word that is no
/// keyword; a floating-point number has its form; a string holds no double
/// quote.
pub open spec fn is_written_token(t: SpecToken) -> bool {
    match t {
        SpecToken::Ident(n) => is_word(n) && spec_word_token(n) == SpecToken::Ident(n),
        SpecToken::Float(t) => is_float_text(t),
        SpecToken::StringLit(t) => forall|i: int| 0 <= i < t.len() ==> #[trigger] t[i] != '"',
        _ => true,
    }
}

/// Whether the characters `piece` stand at position `pos` of `s`.
pub open spec fn text_at(s: Seq<char>, pos: int, piece: Seq<char>) -> bool {
    0 <= pos && pos + piece.len() <= s.len() && forall|i: int|
        0 <= i < piece.len() ==> s[pos + i] == #[trigger] piece[i]
}

/// Two pieces stand one after the other exactly when their concatenation stands.
pub proof fn lemma_text_concat(s: Seq<char>, pos: int, a: Seq<char>, b: Seq<char>)
    ensures
        text_at(s, pos, a + b) <==> text_at(s, pos, a) && text_at(s, pos + a.len(), b),
{
    if text_at(s, pos, a + b) {
        assert forall|i: int| 0 <= i < a.len() implies s[pos + i] == #[trigger] a[i] by {
            assert((a + b)[i] == a[i]);
        }
        assert forall|i: int| 0 <= i < b.len() implies s[pos + a.len() + i] == #[trigger] b[i] by {
            assert((a + b)[a.len() + i] == b[i]);
        }
    }
    if text_at(s, pos, a) && text_at(s, pos + a.len(), b) {
        assert forall|i: int| 0 <= i < (a + b).len() implies s[pos + i] == #[trigger] (a + b)[i] by {
            if i < a.len() {
                assert(a[i] == (a + b)[i]);
            } else {
                assert(b[i - a.len()] == (a + b)[i]);
                assert(s[pos + a.len() + (i - a.len())] == b[i - a.len()]);
            }
        }
    }
}

/// What stands at a position is the part of the text there.
pub proof fn lemma_text_is_subrange(s: Seq<char>, pos: int, piece: Seq<char>)
    requires
        text_at(s, pos, piece),
    ensures
        s.subrange(pos, pos + piece.len()) == piece,
{
    assert(s.subrange(pos, pos + piece.len()) =~= piece);
}

/// A run of word characters that stands before a character that is none
/// ends where it ends.
pub proof fn lemma_word_run(s: Seq<char>, pos: int, piece: Seq<char>, from: int)
    requires
        text_at(s, pos, piece),
        0 <= from <= piece.len(),
        forall|i: int| from <= i < piece.len() ==> is_word_part(#[trigger] piece[i]),
        pos + piece.len() == s.len() || !is_word_part(s[pos + piece.len()]),
    ensures
        word_end(s, pos + from) == pos + piece.len(),
    decreases piece.len() - from,
{
    if from < piece.len() {
        assert(s[pos + from] == piece[from]);
        lemma_word_run(s, pos, piece, from + 1);
    }
}

/// A run of digits in a piece of a text ends in the text where it ends in
/// the piece, as long as it ends within the piece or the piece stands before
/// a character that is no digit.
pub proof fn lemma_digit_run(s: Seq<char>, pos: int, piece: Seq<char>, from: int)
    requires
        text_at(s, pos, piece),
        0 <= from <= piece.len(),
        digits_end(piece, from) < piece.len() || pos + piece.len() == s.len() || !is_digit(
            s[pos + piece.len()],
        ),
    ensures
        digits_end(s, pos + from) == pos + digits_end(piece, from),
    decreases piece.len() - from,
{
    if from < piece.len() {
        assert(s[pos + from] == piece[from]);
        if is_digit(piece[from]) {
            lemma_digit_run(s, pos, piece, from + 1);
        }
    }
}

/// A run of characters other than the double quote that stands before a
/// double quote ends at it.
pub proof fn lemma_quote_run(s: Seq<char>, pos: int, piece: Seq<char>, from: int)
    requires
        text_at(s, pos, piece),
        0 <= from <= piece.len(),
        forall|i: int| 0 <= i < piece.len() ==> #[trigger] piece[i] != '"',
        pos + piece.len() < s.len(),
        s[pos + piece.len()] == '"',
    ensures
        quote_at(s, pos + from) == pos + piece.len(),
    decreases piece.len() - from,
{
    if from < piece.len() {
        assert(s[pos + from] == piece[from]);
        lemma_quote_run(s, pos, piece, from + 1);
    }
}

/// The digits of a number are digits, and there is one at least.
pub proof fn lemma_decimal_digits(n: nat)
    ensures
        spec_nat_decimal(n).len() > 0,
        forall|i: int| 0 <= i < spec_nat_decimal(n).len() ==> is_digit(#[trigger] spec_nat_decimal(n)[i]),
    decreases n,
{
    if n >= 10 {
        lemma_decimal_digits(n / 10);
    }
}

/// The digits of a number spell the number.
pub proof fn lemma_decimal_value(n: nat)
    ensures
        digits_value(spec_nat_decimal(n)) == n,
    decreases n,
{
    if n < 10 {
        let d = spec_nat_decimal(n);
        assert(d.drop_last() =~= Seq::<char>::empty());
        assert(digits_value(d.drop_last()) == 0);
        assert(digit_value(digit_char(n as int)) == n);
    } else {
        lemma_decimal_value(n / 10);
        let d = spec_nat_decimal(n);
        assert(d.drop_last() =~= spec_nat_decimal(n / 10));
        assert(digit_value(digit_char((n % 10) as int)) == n % 10);
    }
}

/// A run of digits that is the whole of a piece ends at the piece's end.
pub proof fn lemma_all_digits_end(piece: Seq<char>, from: int)
    requires
        0 <= from <= piece.len(),
        forall|i: int| from <= i < piece.len() ==> is_digit(#[trigger] piece[i]),
    ensures
        digits_end(piece, from) == piece.len(),
    decreases piece.len() - from,
{
    if from < piece.len() {
        lemma_all_digits_end(piece, from + 1);
    }
}

/// Keywords are words, and each is read as itself: no two keywords are
/// spelled alike.
proof fn lemma_keywords()
    ensures
        is_word("fn"@) && spec_word_token("fn"@) == SpecToken::Fn,
        is_word("let"@) && spec_word_token("let"@) == SpecToken::Let,
        is_word("if"@) && spec_word_token("if"@) == SpecToken::If,
        is_word("else"@) && spec_word_token("else"@) == SpecToken::Else,
        is_word("while"@) && spec_word_token("while"@) == SpecToken::While,
        is_word("loop"@) && spec_word_token("loop"@) == SpecToken::Loop,
        is_word("return"@) && spec_word_token("return"@) == SpecToken::Return,
        is_word("struct"@) && spec_word_token("struct"@) == SpecToken::Struct,
        is_word("component"@) && spec_word_token("component"@) == SpecToken::Component,
        is_word("system"@) && spec_word_token("system"@) == SpecToken::System,
        is_word("for"@) && spec_word_token("for"@) == SpecToken::For,
        is_word("in"@) && spec_word_token("in"@) == SpecToken::In,
        is_word("query"@) && spec_word_token("query"@) == SpecToken::Query,
        is_word("extern"@) && spec_word_token("extern"@) == SpecToken::Extern,
        is_word("type"@) && spec_word_token("type"@) == SpecToken::Type,
        is_word("mesh_soa"@) && spec_word_token("mesh_soa"@) == SpecToken::MeshSOA,
        is_word("component_soa"@) && spec_word_token("component_soa"@) == SpecToken::ComponentSOA,
        is_word("shader"@) && spec_word_token("shader"@) == SpecToken::Shader,
        is_word("vertex"@) && spec_word_token("vertex"@) == SpecToken::Vertex,
        is_word("fragment"@) && spec_word_token("fragment"@) == SpecToken::Fragment,
        is_word("compute"@) && spec_word_token("compute"@) == SpecToken::Compute,
        is_word("geometry"@) && spec_word_token("geometry"@) == SpecToken::Geometry,
        is_word("tessellation_control"@) && spec_word_token("tessellation_control"@) == SpecToken::TessellationControl,
        is_word("tessellation_evaluation"@) && spec_word_token("tessellation_evaluation"@) == SpecToken::TessellationEvaluation,
        is_word("include"@) && spec_word_token("include"@) == SpecToken::Include,
        is_word("i32"@) && spec_word_token("i32"@) == SpecToken::I32,
        is_word("i64"@) && spec_word_token("i64"@) == SpecToken::I64,
        is_word("f32"@) && spec_word_token("f32"@) == SpecToken::F32,
        is_word("f64"@) && spec_word_token("f64"@) == SpecToken::F64,
        is_word("bool"@) && spec_word_token("bool"@) == SpecToken::Bool,
        is_word("string"@) && spec_word_token("string"@) == SpecToken::String,
        is_word("void"@) && spec_word_token("void"@) == SpecToken::Void,
        is_word("VkInstance"@) && spec_word_token("VkInstance"@) == SpecToken::VkInstance,
        is_word("VkDevice"@) && spec_word_token("VkDevice"@) == SpecToken::VkDevice,
        is_word("VkResult"@) && spec_word_token("VkResult"@) == SpecToken::VkResult,
        is_word("VkPhysicalDevice"@) && spec_word_token("VkPhysicalDevice"@) == SpecToken::VkPhysicalDevice,
        is_word("VkQueue"@) && spec_word_token("VkQueue"@) == SpecToken::VkQueue,
        is_word("VkCommandPool"@) && spec_word_token("VkCommandPool"@) == SpecToken::VkCommandPool,
        is_word("VkCommandBuffer"@) && spec_word_token("VkCommandBuffer"@) == SpecToken::VkCommandBuffer,
        is_word("VkSwapchainKHR"@) && spec_word_token("VkSwapchainKHR"@) == SpecToken::VkSwapchainKHR,
        is_word("VkSurfaceKHR"@) && spec_word_token("VkSurfaceKHR"@) == SpecToken::VkSurfaceKHR,
        is_word("VkRenderPass"@) && spec_word_token("VkRenderPass"@) == SpecToken::VkRenderPass,
        is_word("VkPipeline"@) && spec_word_token("VkPipeline"@) == SpecToken::VkPipeline,
        is_word("VkFramebuffer"@) && spec_word_token("VkFramebuffer"@) == SpecToken::VkFramebuffer,
        is_word("VkBuffer"@) && spec_word_token("VkBuffer"@) == SpecToken::VkBuffer,
        is_word("VkImage"@) && spec_word_token("VkImage"@) == SpecToken::VkImage,
        is_word("VkImageView"@) && spec_word_token("VkImageView"@) == SpecToken::VkImageView,
        is_word("VkSemaphore"@) && spec_word_token("VkSemaphore"@) == SpecToken::VkSemaphore,
        is_word("VkFence"@) && spec_word_token("VkFence"@) == SpecToken::VkFence,
        is_word("GLFWwindow"@) && spec_word_token("GLFWwindow"@) == SpecToken::GLFWwindow,
        is_word("GLFWbool"@) && spec_word_token("GLFWbool"@) == SpecToken::GLFWbool,
        is_word("Vec2"@) && spec_word_token("Vec2"@) == SpecToken::Vec2,
        is_word("Vec3"@) && spec_word_token("Vec3"@) == SpecToken::Vec3,
        is_word("Vec4"@) && spec_word_token("Vec4"@) == SpecToken::Vec4,
        is_word("Mat4"@) && spec_word_token("Mat4"@) == SpecToken::Mat4,
        is_word("Camera"@) && spec_word_token("Camera"@) == SpecToken::Camera,
        is_word("FrameArena"@) && spec_word_token("FrameArena"@) == SpecToken::FrameArena,
        is_word("true"@) && spec_word_token("true"@) == SpecToken::True,
        is_word("false"@) && spec_word_token("false"@) == SpecToken::False,
{
    reveal_strlit("fn");
    reveal_strlit("let");
    reveal_strlit("if");
    reveal_strlit("else");
    reveal_strlit("while");
    reveal_strlit("loop");
    reveal_strlit("return");
    reveal_strlit("struct");
    reveal_strlit("component");
    reveal_strlit("system");
    reveal_strlit("for");
    reveal_strlit("in");
    reveal_strlit("query");
    reveal_strlit("extern");
    reveal_strlit("type");
    reveal_strlit("mesh_soa");
    reveal_strlit("component_soa");
    reveal_strlit("shader");
    reveal_strlit("vertex");
    reveal_strlit("fragment");
    reveal_strlit("compute");
    reveal_strlit("geometry");
    reveal_strlit("tessellation_control");
    reveal_strlit("tessellation_evaluation");
    reveal_strlit("include");
    reveal_strlit("i32");
    reveal_strlit("i64");
    reveal_strlit("f32");
    reveal_strlit("f64");
    reveal_strlit("bool");
    reveal_strlit("string");
    reveal_strlit("void");
    reveal_strlit("VkInstance");
    reveal_strlit("VkDevice");
    reveal_strlit("VkResult");
    reveal_strlit("VkPhysicalDevice");
    reveal_strlit("VkQueue");
    reveal_strlit("VkCommandPool");
    reveal_strlit("VkCommandBuffer");
    reveal_strlit("VkSwapchainKHR");
    reveal_strlit("VkSurfaceKHR");
    reveal_strlit("VkRenderPass");
    reveal_strlit("VkPipeline");
    reveal_strlit("VkFramebuffer");
    reveal_strlit("VkBuffer");
    reveal_strlit("VkImage");
    reveal_strlit("VkImageView");
    reveal_strlit("VkSemaphore");
    reveal_strlit("VkFence");
    reveal_strlit("GLFWwindow");
    reveal_strlit("GLFWbool");
    reveal_strlit("Vec2");
    reveal_strlit("Vec3");
    reveal_strlit("Vec4");
    reveal_strlit("Mat4");
    reveal_strlit("Camera");
    reveal_strlit("FrameArena");
    reveal_strlit("true");
    reveal_strlit("false");
    assert("fn"@.len() == 2);
    assert("let"@.len() == 3);
    assert("if"@.len() == 2);
    assert("else"@.len() == 4);
    assert("while"@.len() == 5);
    assert("loop"@.len() == 4);
    assert("return"@.len() == 6);
    assert("struct"@.len() == 6);
    assert("component"@.len() == 9);
    assert("system"@.len() == 6);
    assert("for"@.len() == 3);
    assert("in"@.len() == 2);
    assert("query"@.len() == 5);
    assert("extern"@.len() == 6);
    assert("type"@.len() == 4);
    assert("mesh_soa"@.len() == 8);
    assert("component_soa"@.len() == 13);
    assert("shader"@.len() == 6);
    assert("vertex"@.len() == 6);
    assert("fragment"@.len() == 8);
    assert("compute"@.len() == 7);
    assert("geometry"@.len() == 8);
    assert("tessellation_control"@.len() == 20);
    assert("tessellation_evaluation"@.len() == 23);
    assert("include"@.len() == 7);
    assert("i32"@.len() == 3);
    assert("i64"@.len() == 3);
    assert("f32"@.len() == 3);
    assert("f64"@.len() == 3);
    assert("bool"@.len() == 4);
    assert("string"@.len() == 6);
    assert("void"@.len() == 4);
    assert("VkInstance"@.len() == 10);
    assert("VkDevice"@.len() == 8);
    assert("VkResult"@.len() == 8);
    assert("VkPhysicalDevice"@.len() == 16);
    assert("VkQueue"@.len() == 7);
    assert("VkCommandPool"@.len() == 13);
    assert("VkCommandBuffer"@.len() == 15);
    assert("VkSwapchainKHR"@.len() == 14);
    assert("VkSurfaceKHR"@.len() == 12);
    assert("VkRenderPass"@.len() == 12);
    assert("VkPipeline"@.len() == 10);
    assert("VkFramebuffer"@.len() == 13);
    assert("VkBuffer"@.len() == 8);
    assert("VkImage"@.len() == 7);
    assert("VkImageView"@.len() == 11);
    assert("VkSemaphore"@.len() == 11);
    assert("VkFence"@.len() == 7);
    assert("GLFWwindow"@.len() == 10);
    assert("GLFWbool"@.len() == 8);
    assert("Vec2"@.len() == 4);
    assert("Vec3"@.len() == 4);
    assert("Vec4"@.len() == 4);
    assert("Mat4"@.len() == 4);
    assert("Camera"@.len() == 6);
    assert("FrameArena"@.len() == 10);
    assert("true"@.len() == 4);
    assert("false"@.len() == 5);
    assert("if"@[0] != "fn"@[0]);
    assert("loop"@[0] != "else"@[0]);
    assert("struct"@[0] != "return"@[0]);
    assert("system"@[0] != "return"@[0]);
    assert("system"@[1] != "struct"@[1]);
    assert("for"@[0] != "let"@[0]);
    assert("in"@[0] != "fn"@[0]);
    assert("in"@[1] != "if"@[1]);
    assert("query"@[0] != "while"@[0]);
    assert("extern"@[0] != "return"@[0]);
    assert("extern"@[0] != "struct"@[0]);
    assert("extern"@[0] != "system"@[0]);
    assert("type"@[0] != "else"@[0]);
    assert("type"@[0] != "loop"@[0]);
    assert("shader"@[0] != "return"@[0]);
    assert("shader"@[1] != "struct"@[1]);
    assert("shader"@[1] != "system"@[1]);
    assert("shader"@[0] != "extern"@[0]);
    assert("vertex"@[0] != "return"@[0]);
    assert("vertex"@[0] != "struct"@[0]);
    assert("vertex"@[0] != "system"@[0]);
    assert("vertex"@[0] != "extern"@[0]);
    assert("vertex"@[0] != "shader"@[0]);
    assert("fragment"@[0] != "mesh_soa"@[0]);
    assert("geometry"@[0] != "mesh_soa"@[0]);
    assert("geometry"@[0] != "fragment"@[0]);
    assert("include"@[0] != "compute"@[0]);
    assert("i32"@[0] != "let"@[0]);
    assert("i32"@[0] != "for"@[0]);
    assert("i64"@[0] != "let"@[0]);
    assert("i64"@[0] != "for"@[0]);
    assert("i64"@[1] != "i32"@[1]);
    assert("f32"@[0] != "let"@[0]);
    assert("f32"@[1] != "for"@[1]);
    assert("f32"@[0] != "i32"@[0]);
    assert("f32"@[0] != "i64"@[0]);
    assert("f64"@[0] != "let"@[0]);
    assert("f64"@[1] != "for"@[1]);
    assert("f64"@[0] != "i32"@[0]);
    assert("f64"@[0] != "i64"@[0]);
    assert("f64"@[1] != "f32"@[1]);
    assert("bool"@[0] != "else"@[0]);
    assert("bool"@[0] != "loop"@[0]);
    assert("bool"@[0] != "type"@[0]);
    assert("string"@[0] != "return"@[0]);
    assert("string"@[3] != "struct"@[3]);
    assert("string"@[1] != "system"@[1]);
    assert("string"@[0] != "extern"@[0]);
    assert("string"@[1] != "shader"@[1]);
    assert("string"@[0] != "vertex"@[0]);
    assert("void"@[0] != "else"@[0]);
    assert("void"@[0] != "loop"@[0]);
    assert("void"@[0] != "type"@[0]);
    assert("void"@[0] != "bool"@[0]);
    assert("VkDevice"@[0] != "mesh_soa"@[0]);
    assert("VkDevice"@[0] != "fragment"@[0]);
    assert("VkDevice"@[0] != "geometry"@[0]);
    assert("VkResult"@[0] != "mesh_soa"@[0]);
    assert("VkResult"@[0] != "fragment"@[0]);
    assert("VkResult"@[0] != "geometry"@[0]);
    assert("VkResult"@[2] != "VkDevice"@[2]);
    assert("VkQueue"@[0] != "compute"@[0]);
    assert("VkQueue"@[0] != "include"@[0]);
    assert("VkCommandPool"@[0] != "component_soa"@[0]);
    assert("VkRenderPass"@[2] != "VkSurfaceKHR"@[2]);
    assert("VkPipeline"@[2] != "VkInstance"@[2]);
    assert("VkFramebuffer"@[0] != "component_soa"@[0]);
    assert("VkFramebuffer"@[2] != "VkCommandPool"@[2]);
    assert("VkBuffer"@[0] != "mesh_soa"@[0]);
    assert("VkBuffer"@[0] != "fragment"@[0]);
    assert("VkBuffer"@[0] != "geometry"@[0]);
    assert("VkBuffer"@[2] != "VkDevice"@[2]);
    assert("VkBuffer"@[2] != "VkResult"@[2]);
    assert("VkImage"@[0] != "compute"@[0]);
    assert("VkImage"@[0] != "include"@[0]);
    assert("VkImage"@[2] != "VkQueue"@[2]);
    assert("VkSemaphore"@[2] != "VkImageView"@[2]);
    assert("VkFence"@[0] != "compute"@[0]);
    assert("VkFence"@[0] != "include"@[0]);
    assert("VkFence"@[2] != "VkQueue"@[2]);
    assert("VkFence"@[2] != "VkImage"@[2]);
    assert("GLFWwindow"@[0] != "VkInstance"@[0]);
    assert("GLFWwindow"@[0] != "VkPipeline"@[0]);
    assert("GLFWbool"@[0] != "mesh_soa"@[0]);
    assert("GLFWbool"@[0] != "fragment"@[0]);
    assert("GLFWbool"@[0] != "geometry"@[0]);
    assert("GLFWbool"@[0] != "VkDevice"@[0]);
    assert("GLFWbool"@[0] != "VkResult"@[0]);
    assert("GLFWbool"@[0] != "VkBuffer"@[0]);
    assert("Vec2"@[0] != "else"@[0]);
    assert("Vec2"@[0] != "loop"@[0]);
    assert("Vec2"@[0] != "type"@[0]);
    assert("Vec2"@[0] != "bool"@[0]);
    assert("Vec2"@[0] != "void"@[0]);
    assert("Vec3"@[0] != "else"@[0]);
    assert("Vec3"@[0] != "loop"@[0]);
    assert("Vec3"@[0] != "type"@[0]);
    assert("Vec3"@[0] != "bool"@[0]);
    assert("Vec3"@[0] != "void"@[0]);
    assert("Vec3"@[3] != "Vec2"@[3]);
    assert("Vec4"@[0] != "else"@[0]);
    assert("Vec4"@[0] != "loop"@[0]);
    assert("Vec4"@[0] != "type"@[0]);
    assert("Vec4"@[0] != "bool"@[0]);
    assert("Vec4"@[0] != "void"@[0]);
    assert("Vec4"@[3] != "Vec2"@[3]);
    assert("Vec4"@[3] != "Vec3"@[3]);
    assert("Mat4"@[0] != "else"@[0]);
    assert("Mat4"@[0] != "loop"@[0]);
    assert("Mat4"@[0] != "type"@[0]);
    assert("Mat4"@[0] != "bool"@[0]);
    assert("Mat4"@[0] != "void"@[0]);
    assert("Mat4"@[0] != "Vec2"@[0]);
    assert("Mat4"@[0] != "Vec3"@[0]);
    assert("Mat4"@[0] != "Vec4"@[0]);
    assert("Camera"@[0] != "return"@[0]);
    assert("Camera"@[0] != "struct"@[0]);
    assert("Camera"@[0] != "system"@[0]);
    assert("Camera"@[0] != "extern"@[0]);
    assert("Camera"@[0] != "shader"@[0]);
    assert("Camera"@[0] != "vertex"@[0]);
    assert("Camera"@[0] != "string"@[0]);
    assert("FrameArena"@[0] != "VkInstance"@[0]);
    assert("FrameArena"@[0] != "VkPipeline"@[0]);
    assert("FrameArena"@[0] != "GLFWwindow"@[0]);
    assert("true"@[0] != "else"@[0]);
    assert("true"@[0] != "loop"@[0]);
    assert("true"@[1] != "type"@[1]);
    assert("true"@[0] != "bool"@[0]);
    assert("true"@[0] != "void"@[0]);
    assert("true"@[0] != "Vec2"@[0]);
    assert("true"@[0] != "Vec3"@[0]);
    assert("true"@[0] != "Vec4"@[0]);
    assert("true"@[0] != "Mat4"@[0]);
    assert("false"@[0] != "while"@[0]);
    assert("false"@[0] != "query"@[0]);
}

/// Whether a token is a keyword.
pub open spec fn is_keyword(t: SpecToken) -> bool {
    match t {
        SpecToken::Fn => true,
        SpecToken::Let => true,
        SpecToken::If => true,
        SpecToken::Else => true,
        SpecToken::While => true,
        SpecToken::Loop => true,
        SpecToken::Return => true,
        SpecToken::Struct => true,
        SpecToken::Component => true,
        SpecToken::System => true,
        SpecToken::For => true,
        SpecToken::In => true,
        SpecToken::Query => true,
        SpecToken::Extern => true,
        SpecToken::Type => true,
        SpecToken::MeshSOA => true,
        SpecToken::ComponentSOA => true,
        SpecToken::Shader => true,
        SpecToken::Vertex => true,
        SpecToken::Fragment => true,
        SpecToken::Compute => true,
        SpecToken::Geometry => true,
        SpecToken::TessellationControl => true,
        SpecToken::TessellationEvaluation => true,
        SpecToken::Include => true,
        SpecToken::I32 => true,
        SpecToken::I64 => true,
        SpecToken::F32 => true,
        SpecToken::F64 => true,
        SpecToken::Bool => true,
        SpecToken::String => true,
        SpecToken::Void => true,
        SpecToken::VkInstance => true,
        SpecToken::VkDevice => true,
        SpecToken::VkResult => true,
        SpecToken::VkPhysicalDevice => true,
        SpecToken::VkQueue => true,
        SpecToken::VkCommandPool => true,
        SpecToken::VkCommandBuffer => true,
        SpecToken::VkSwapchainKHR => true,
        SpecToken::VkSurfaceKHR => true,
        SpecToken::VkRenderPass => true,
        SpecToken::VkPipeline => true,
        SpecToken::VkFramebuffer => true,
        SpecToken::VkBuffer => true,
        SpecToken::VkImage => true,
        SpecToken::VkImageView => true,
        SpecToken::VkSemaphore => true,
        SpecToken::VkFence => true,
        SpecToken::GLFWwindow => true,
        SpecToken::GLFWbool => true,
        SpecToken::Vec2 => true,
        SpecToken::Vec3 => true,
        SpecToken::Vec4 => true,
        SpecToken::Mat4 => true,
        SpecToken::Camera => true,
        SpecToken::FrameArena => true,
        SpecToken::True => true,
        SpecToken::False => true,
        _ => false,
    }
}

/// The text of a keyword is a word, and the word is read as the keyword.
pub proof fn lemma_keyword_text(t: SpecToken)
    requires
        is_keyword(t),
    ensures
        is_word(spec_token_text(t)),
        spec_word_token(spec_token_text(t)) == t,
{
    lemma_keywords();
}

/// The outcome of finding the token `t`, which ends at `end`.
pub open spec fn found(t: SpecToken, end: int) -> SpecLexeme {
    SpecLexeme::Token { token: t, end }
}

/// A word before a blank or the end is read as the token of the word.
pub proof fn lemma_word_lexeme(s: Seq<char>, pos: int, w: Seq<char>)
    requires
        is_word(w),
        text_at(s, pos, w),
        pos + w.len() == s.len() || s[pos + w.len()] == ' ',
    ensures
        spec_lexeme(s, pos) == found(spec_word_token(w), pos + w.len()),
{
    assert(s[pos + 0] == w[0]);
    lemma_word_run(s, pos, w, 0);
    lemma_text_is_subrange(s, pos, w);
}

/// The text of an integer before a blank or the end is read as the integer.
pub proof fn lemma_int_lexeme(s: Seq<char>, pos: int, n: i64)
    requires
        text_at(s, pos, spec_decimal(n as int)),
        pos + spec_decimal(n as int).len() == s.len() || s[pos + spec_decimal(n as int).len()] == ' ',
    ensures
        spec_lexeme(s, pos) == found(SpecToken::Int(n), pos + spec_decimal(n as int).len()),
        spec_decimal(n as int).len() > 0,
{
    let text = spec_decimal(n as int);
    let magnitude: nat = if n < 0 {
        (-n) as nat
    } else {
        n as nat
    };
    let digits = spec_nat_decimal(magnitude);
    let first: int = if n < 0 {
        1
    } else {
        0
    };
    lemma_decimal_digits(magnitude);
    lemma_decimal_value(magnitude);
    if n < 0 {
        assert(text =~= seq!['-'] + digits);
        lemma_text_concat(s, pos, seq!['-'], digits);
        assert(s[pos + 0] == seq!['-'][0]);
    } else {
        assert(text == digits);
    }
    assert(text_at(s, pos + first, digits));
    assert(s[pos + first + 0] == digits[0]);
    lemma_all_digits_end(digits, 0);
    lemma_digit_run(s, pos + first, digits, 0);
    lemma_text_is_subrange(s, pos + first, digits);
    let end = pos + first + digits.len();
    assert(digits_end(s, pos + first) == end);
    assert(s.subrange(pos + first, end) == digits);
    assert(spec_number(s, pos) == found(SpecToken::Int(n), end));
}

/// The text of a floating-point number before a blank or the end is read
/// as the number.
pub proof fn lemma_float_lexeme(s: Seq<char>, pos: int, t: Seq<char>)
    requires
        is_float_text(t),
        text_at(s, pos, t),
        pos + t.len() == s.len() || s[pos + t.len()] == ' ',
    ensures
        spec_lexeme(s, pos) == found(SpecToken::Float(t), pos + t.len()),
{
    let first: int = if t[0] == '-' {
        1
    } else {
        0
    };
    let point = digits_end(t, first);
    assert(s[pos + 0] == t[0]);
    assert(s[pos + first] == t[first]);
    assert(s[pos + point] == t[point]);
    assert(s[pos + (point + 1)] == t[point + 1]);
    lemma_digit_run(s, pos, t, first);
    lemma_digit_run(s, pos, t, point + 1);
    lemma_text_is_subrange(s, pos, t);
    assert(is_digit(t[first])) by {
        if !is_digit(t[first]) {
            assert(digits_end(t, first) == first);
        }
    }
    assert(is_digit(t[point + 1])) by {
        if !is_digit(t[point + 1]) {
            assert(digits_end(t, point + 1) == point + 1);
        }
    }
    assert(spec_number(s, pos) == found(SpecToken::Float(t), pos + t.len()));
}

/// A string between double quotes is read as the string.
pub proof fn lemma_string_lexeme(s: Seq<char>, pos: int, body: Seq<char>)
    requires
        forall|i: int| 0 <= i < body.len() ==> #[trigger] body[i] != '"',
        text_at(s, pos, seq!['"'] + body + seq!['"']),
    ensures
        spec_lexeme(s, pos) == found(SpecToken::StringLit(body), pos + body.len() + 2),
{
    lemma_text_concat(s, pos, seq!['"'] + body, seq!['"']);
    lemma_text_concat(s, pos, seq!['"'], body);
    assert(s[pos + 0] == seq!['"'][0]);
    assert(s[pos + 1 + body.len() + 0] == seq!['"'][0]);
    lemma_quote_run(s, pos + 1, body, 0);
    lemma_text_is_subrange(s, pos + 1, body);
}

/// `+` before a blank or the end is read as itself.
proof fn lemma_symbol_0(s: Seq<char>, pos: int)
    requires
        text_at(s, pos, "+"@),
        pos + 1 == s.len() || s[pos + 1] == ' ',
    ensures
        spec_lexeme(s, pos) == (SpecLexeme::Token { token: SpecToken::Plus, end: pos + 1 }),
{
    reveal_strlit("+");
    assert("+"@.len() == 1);
    assert(s[pos + 0] == "+"@[0]);
}

/// `-` before a blank or the end is read as itself.
proof fn lemma_symbol_1(s: Seq<char>, pos: int)
    requires
        text_at(s, pos, "-"@),
        pos + 1 == s.len() || s[pos + 1] == ' ',
    ensures
        spec_lexeme(s, pos) == (SpecLexeme::Token { token: SpecToken::Minus, end: pos + 1 }),
{
    reveal_strlit("-");
    assert("-"@.len() == 1);
    assert(s[pos + 0] == "-"@[0]);
}

/// `*` before a blank or the end is read as itself.
proof fn lemma_symbol_2(s: Seq<char>, pos: int)
    requires
        text_at(s, pos, "*"@),
        pos + 1 == s.len() || s[pos + 1] == ' ',
    ensures
        spec_lexeme(s, pos) == (SpecLexeme::Token { token: SpecToken::Star, end: pos + 1 }),
{
    reveal_strlit("*");
    assert("*"@.len() == 1);
    assert(s[pos + 0] == "*"@[0]);
}

/// `/` before a blank or the end is read as itself.
proof fn lemma_symbol_3(s: Seq<char>, pos: int)
    requires
        text_at(s, pos, "/"@),
        pos + 1 == s.len() || s[pos + 1] == ' ',
    ensures
        spec_lexeme(s, pos) == (SpecLexeme::Token { token: SpecToken::Slash, end: pos + 1 }),
{
    reveal_strlit("/");
    assert("/"@.len() == 1);
    assert(s[pos + 0] == "/"@[0]);
}

/// `%` before a blank or the end is read as itself.
proof fn lemma_symbol_4(s: Seq<char>, pos: int)
    requires
        text_at(s, pos, "%"@),
        pos + 1 == s.len() || s[pos + 1] == ' ',
    ensures
        spec_lexeme(s, pos) == (SpecLexeme::Token { token: SpecToken::Percent, end: pos + 1 }),
{
    reveal_strlit("%");
    assert("%"@.len() == 1);
    assert(s[pos + 0] == "%"@[0]);
}

/// `==` before a blank or the end is read as itself.
proof fn lemma_symbol_5(s: Seq<char>, pos: int)
    requires
        text_at(s, pos, "=="@),
        pos + 2 == s.len() || s[pos + 2] == ' ',
    ensures
        spec_lexeme(s, pos) == (SpecLexeme::Token { token: SpecToken::EqEq, end: pos + 2 }),
{
    reveal_strlit("==");
    assert("=="@.len() == 2);
    assert(s[pos + 0] == "=="@[0] && s[pos + 1] == "=="@[1]);
}

/// `!=` before a blank or the end is read as itself.
proof fn lemma_symbol_6(s: Seq<char>, pos: int)
    requires
        text_at(s, pos, "!="@),
        pos + 2 == s.len() || s[pos + 2] == ' ',
    ensures
        spec_lexeme(s, pos) == (SpecLexeme::Token { token: SpecToken::Ne, end: pos + 2 }),
{
    reveal_strlit("!=");
    assert("!="@.len() == 2);
    assert(s[pos + 0] == "!="@[0] && s[pos + 1] == "!="@[1]);
}

/// `<` before a blank or the end is read as itself.
proof fn lemma_symbol_7(s: Seq<char>, pos: int)
    requires
        text_at(s, pos, "<"@),
        pos + 1 == s.len() || s[pos + 1] == ' ',
    ensures
        spec_lexeme(s, pos) == (SpecLexeme::Token { token: SpecToken::Lt, end: pos + 1 }),
{
    reveal_strlit("<");
    assert("<"@.len() == 1);
    assert(s[pos + 0] == "<"@[0]);
}

/// `<=` before a blank or the end is read as itself.
proof fn lemma_symbol_8(s: Seq<char>, pos: int)
    requires
        text_at(s, pos, "<="@),
        pos + 2 == s.len() || s[pos + 2] == ' ',
    ensures
        spec_lexeme(s, pos) == (SpecLexeme::Token { token: SpecToken::Le, end: pos + 2 }),
{
    reveal_strlit("<=");
    assert("<="@.len() == 2);
    assert(s[pos + 0] == "<="@[0] && s[pos + 1] == "<="@[1]);
}

/// `>` before a blank or the end is read as itself.
proof fn lemma_symbol_9(s: Seq<char>, pos: int)
    requires
        text_at(s, pos, ">"@),
        pos + 1 == s.len() || s[pos + 1] == ' ',
    ensures
        spec_lexeme(s, pos) == (SpecLexeme::Token { token: SpecToken::Gt, end: pos + 1 }),
{
    reveal_strlit(">");
    assert(">"@.len() == 1);
    assert(s[pos + 0] == ">"@[0]);
}

/// `>=` before a blank or the end is read as itself.
proof fn lemma_symbol_10(s: Seq<char>, pos: int)
    requires
        text_at(s, pos, ">="@),
        pos + 2 == s.len() || s[pos + 2] == ' ',
    ensures
        spec_lexeme(s, pos) == (SpecLexeme::Token { token: SpecToken::Ge, end: pos + 2 }),
{
    reveal_strlit(">=");
    assert(">="@.len() == 2);
    assert(s[pos + 0] == ">="@[0] && s[pos + 1] == ">="@[1]);
}

/// `&&` before a blank or the end is read as itself.
proof fn lemma_symbol_11(s: Seq<char>, pos: int)
    requires
        text_at(s, pos, "&&"@),
        pos + 2 == s.len() || s[pos + 2] == ' ',
    ensures
        spec_lexeme(s, pos) == (SpecLexeme::Token { token: SpecToken::AndAnd, end: pos + 2 }),
{
    reveal_strlit("&&");
    assert("&&"@.len() == 2);
    assert(s[pos + 0] == "&&"@[0] && s[pos + 1] == "&&"@[1]);
}

/// `||` before a blank or the end is read as itself.
proof fn lemma_symbol_12(s: Seq<char>, pos: int)
    requires
        text_at(s, pos, "||"@),
        pos + 2 == s.len() || s[pos + 2] == ' ',
    ensures
        spec_lexeme(s, pos) == (SpecLexeme::Token { token: SpecToken::OrOr, end: pos + 2 }),
{
    reveal_strlit("||");
    assert("||"@.len() == 2);
    assert(s[pos + 0] == "||"@[0] && s[pos + 1] == "||"@[1]);
}

/// `!` before a blank or the end is read as itself.
proof fn lemma_symbol_13(s: Seq<char>, pos: int)
    requires
        text_at(s, pos, "!"@),
        pos + 1 == s.len() || s[pos + 1] == ' ',
    ensures
        spec_lexeme(s, pos) == (SpecLexeme::Token { token: SpecToken::Bang, end: pos + 1 }),
{
    reveal_strlit("!");
    assert("!"@.len() == 1);
    assert(s[pos + 0] == "!"@[0]);
}

/// `=` before a blank or the end is read as itself.
proof fn lemma_symbol_14(s: Seq<char>, pos: int)
    requires
        text_at(s, pos, "="@),
        pos + 1 == s.len() || s[pos + 1] == ' ',
    ensures
        spec_lexeme(s, pos) == (SpecLexeme::Token { token: SpecToken::Eq, end: pos + 1 }),
{
    reveal_strlit("=");
    assert("="@.len() == 1);
    assert(s[pos + 0] == "="@[0]);
}

/// `|>` before a blank or the end is read as itself.
proof fn lemma_symbol_15(s: Seq<char>, pos: int)
    requires
        text_at(s, pos, "|>"@),
        pos + 2 == s.len() || s[pos + 2] == ' ',
    ensures
        spec_lexeme(s, pos) == (SpecLexeme::Token { token: SpecToken::PipeOp, end: pos + 2 }),
{
    reveal_strlit("|>");
    assert("|>"@.len() == 2);
    assert(s[pos + 0] == "|>"@[0] && s[pos + 1] == "|>"@[1]);
}

/// `|` before a blank or the end is read as itself.
proof fn lemma_symbol_16(s: Seq<char>, pos: int)
    requires
        text_at(s, pos, "|"@),
        pos + 1 == s.len() || s[pos + 1] == ' ',
    ensures
        spec_lexeme(s, pos) == (SpecLexeme::Token { token: SpecToken::Pipe, end: pos + 1 }),
{
    reveal_strlit("|");
    assert("|"@.len() == 1);
    assert(s[pos + 0] == "|"@[0]);
}

/// `@` before a blank or the end is read as itself.
proof fn lemma_symbol_17(s: Seq<char>, pos: int)
    requires
        text_at(s, pos, "@"@),
        pos + 1 == s.len() || s[pos + 1] == ' ',
    ensures
        spec_lexeme(s, pos) == (SpecLexeme::Token { token: SpecToken::At, end: pos + 1 }),
{
    reveal_strlit("@");
    assert("@"@.len() == 1);
    assert(s[pos + 0] == "@"@[0]);
}

/// `(` before a blank or the end is read as itself.
proof fn lemma_symbol_18(s: Seq<char>, pos: int)
    requires
        text_at(s, pos, "("@),
        pos + 1 == s.len() || s[pos + 1] == ' ',
    ensures
        spec_lexeme(s, pos) == (SpecLexeme::Token { token: SpecToken::LParen, end: pos + 1 }),
{
    reveal_strlit("(");
    assert("("@.len() == 1);
    assert(s[pos + 0] == "("@[0]);
}

/// `)` before a blank or the end is read as itself.
proof fn lemma_symbol_19(s: Seq<char>, pos: int)
    requires
        text_at(s, pos, ")"@),
        pos + 1 == s.len() || s[pos + 1] == ' ',
    ensures
        spec_lexeme(s, pos) == (SpecLexeme::Token { token: SpecToken::RParen, end: pos + 1 }),
{
    reveal_strlit(")");
    assert(")"@.len() == 1);
    assert(s[pos + 0] == ")"@[0]);
}

/// `{` before a blank or the end is read as itself.
proof fn lemma_symbol_20(s: Seq<char>, pos: int)
    requires
        text_at(s, pos, "{"@),
        pos + 1 == s.len() || s[pos + 1] == ' ',
    ensures
        spec_lexeme(s, pos) == (SpecLexeme::Token { token: SpecToken::LBrace, end: pos + 1 }),
{
    reveal_strlit("{");
    assert("{"@.len() == 1);
    assert(s[pos + 0] == "{"@[0]);
}

/// `}` before a blank or the end is read as itself.
proof fn lemma_symbol_21(s: Seq<char>, pos: int)
    requires
        text_at(s, pos, "}"@),
        pos + 1 == s.len() || s[pos + 1] == ' ',
    ensures
        spec_lexeme(s, pos) == (SpecLexeme::Token { token: SpecToken::RBrace, end: pos + 1 }),
{
    reveal_strlit("}");
    assert("}"@.len() == 1);
    assert(s[pos + 0] == "}"@[0]);
}

/// `[` before a blank or the end is read as itself.
proof fn lemma_symbol_22(s: Seq<char>, pos: int)
    requires
        text_at(s, pos, "["@),
        pos + 1 == s.len() || s[pos + 1] == ' ',
    ensures
        spec_lexeme(s, pos) == (SpecLexeme::Token { token: SpecToken::LBracket, end: pos + 1 }),
{
    reveal_strlit("[");
    assert("["@.len() == 1);
    assert(s[pos + 0] == "["@[0]);
}

/// `]` before a blank or the end is read as itself.
proof fn lemma_symbol_23(s: Seq<char>, pos: int)
    requires
        text_at(s, pos, "]"@),
        pos + 1 == s.len() || s[pos + 1] == ' ',
    ensures
        spec_lexeme(s, pos) == (SpecLexeme::Token { token: SpecToken::RBracket, end: pos + 1 }),
{
    reveal_strlit("]");
    assert("]"@.len() == 1);
    assert(s[pos + 0] == "]"@[0]);
}

/// `,` before a blank or the end is read as itself.
proof fn lemma_symbol_24(s: Seq<char>, pos: int)
    requires
        text_at(s, pos, ","@),
        pos + 1 == s.len() || s[pos + 1] == ' ',
    ensures
        spec_lexeme(s, pos) == (SpecLexeme::Token { token: SpecToken::Comma, end: pos + 1 }),
{
    reveal_strlit(",");
    assert(","@.len() == 1);
    assert(s[pos + 0] == ","@[0]);
}

/// `:` before a blank or the end is read as itself.
proof fn lemma_symbol_25(s: Seq<char>, pos: int)
    requires
        text_at(s, pos, ":"@),
        pos + 1 == s.len() || s[pos + 1] == ' ',
    ensures
        spec_lexeme(s, pos) == (SpecLexeme::Token { token: SpecToken::Colon, end: pos + 1 }),
{
    reveal_strlit(":");
    assert(":"@.len() == 1);
    assert(s[pos + 0] == ":"@[0]);
}

/// `;` before a blank or the end is read as itself.
proof fn lemma_symbol_26(s: Seq<char>, pos: int)
    requires
        text_at(s, pos, ";"@),
        pos + 1 == s.len() || s[pos + 1] == ' ',
    ensures
        spec_lexeme(s, pos) == (SpecLexeme::Token { token: SpecToken::Semicolon, end: pos + 1 }),
{
    reveal_strlit(";");
    assert(";"@.len() == 1);
    assert(s[pos + 0] == ";"@[0]);
}

/// `.` before a blank or the end is read as itself.
proof fn lemma_symbol_27(s: Seq<char>, pos: int)
    requires
        text_at(s, pos, "."@),
        pos + 1 == s.len() || s[pos + 1] == ' ',
    ensures
        spec_lexeme(s, pos) == (SpecLexeme::Token { token: SpecToken::Dot, end: pos + 1 }),
{
    reveal_strlit(".");
    assert("."@.len() == 1);
    assert(s[pos + 0] == "."@[0]);
}

/// Whether a token is an operator or a delimiter.
pub open spec fn is_symbol(t: SpecToken) -> bool {
    !is_keyword(t) && !(t is Int) && !(t is Float) && !(t is StringLit) && !(t is Ident)
}

/// The text of an operator or delimiter before a blank or the end is read
/// as itself.
pub proof fn lemma_symbol_lexeme(s: Seq<char>, pos: int, t: SpecToken)
    requires
        is_symbol(t),
        text_at(s, pos, spec_token_text(t)),
        pos + spec_token_text(t).len() == s.len() || s[pos + spec_token_text(t).len()] == ' ',
    ensures
        spec_lexeme(s, pos) == found(t, pos + spec_token_text(t).len()),
        spec_token_text(t).len() > 0,
{
    match t {
        SpecToken::Plus => {
            reveal_strlit("+");
            assert("+"@.len() == 1);
            lemma_symbol_0(s, pos);
        },
        SpecToken::Minus => {
            reveal_strlit("-");
            assert("-"@.len() == 1);
            lemma_symbol_1(s, pos);
        },
        SpecToken::Star => {
            reveal_strlit("*");
            assert("*"@.len() == 1);
            lemma_symbol_2(s, pos);
        },
        SpecToken::Slash => {
            reveal_strlit("/");
            assert("/"@.len() == 1);
            lemma_symbol_3(s, pos);
        },
        SpecToken::Percent => {
            reveal_strlit("%");
            assert("%"@.len() == 1);
            lemma_symbol_4(s, pos);
        },
        SpecToken::EqEq => {
            reveal_strlit("==");
            assert("=="@.len() == 2);
            lemma_symbol_5(s, pos);
        },
        SpecToken::Ne => {
            reveal_strlit("!=");
            assert("!="@.len() == 2);
            lemma_symbol_6(s, pos);
        },
        SpecToken::Lt => {
            reveal_strlit("<");
            assert("<"@.len() == 1);
            lemma_symbol_7(s, pos);
        },
        SpecToken::Le => {
            reveal_strlit("<=");
            assert("<="@.len() == 2);
            lemma_symbol_8(s, pos);
        },
        SpecToken::Gt => {
            reveal_strlit(">");
            assert(">"@.len() == 1);
            lemma_symbol_9(s, pos);
        },
        SpecToken::Ge => {
            reveal_strlit(">=");
            assert(">="@.len() == 2);
            lemma_symbol_10(s, pos);
        },
        SpecToken::AndAnd => {
            reveal_strlit("&&");
            assert("&&"@.len() == 2);
            lemma_symbol_11(s, pos);
        },
        SpecToken::OrOr => {
            reveal_strlit("||");
            assert("||"@.len() == 2);
            lemma_symbol_12(s, pos);
        },
        SpecToken::Bang => {
            reveal_strlit("!");
            assert("!"@.len() == 1);
            lemma_symbol_13(s, pos);
        },
        SpecToken::Eq => {
            reveal_strlit("=");
            assert("="@.len() == 1);
            lemma_symbol_14(s, pos);
        },
        SpecToken::PipeOp => {
            reveal_strlit("|>");
            assert("|>"@.len() == 2);
            lemma_symbol_15(s, pos);
        },
        SpecToken::Pipe => {
            reveal_strlit("|");
            assert("|"@.len() == 1);
            lemma_symbol_16(s, pos);
        },
        SpecToken::At => {
            reveal_strlit("@");
            assert("@"@.len() == 1);
            lemma_symbol_17(s, pos);
        },
        SpecToken::LParen => {
            reveal_strlit("(");
            assert("("@.len() == 1);
            lemma_symbol_18(s, pos);
        },
        SpecToken::RParen => {
            reveal_strlit(")");
            assert(")"@.len() == 1);
            lemma_symbol_19(s, pos);
        },
        SpecToken::LBrace => {
            reveal_strlit("{");
            assert("{"@.len() == 1);
            lemma_symbol_20(s, pos);
        },
        SpecToken::RBrace => {
            reveal_strlit("}");
            assert("}"@.len() == 1);
            lemma_symbol_21(s, pos);
        },
        SpecToken::LBracket => {
            reveal_strlit("[");
            assert("["@.len() == 1);
            lemma_symbol_22(s, pos);
        },
        SpecToken::RBracket => {
            reveal_strlit("]");
            assert("]"@.len() == 1);
            lemma_symbol_23(s, pos);
        },
        SpecToken::Comma => {
            reveal_strlit(",");
            assert(","@.len() == 1);
            lemma_symbol_24(s, pos);
        },
        SpecToken::Colon => {
            reveal_strlit(":");
            assert(":"@.len() == 1);
            lemma_symbol_25(s, pos);
        },
        SpecToken::Semicolon => {
            reveal_strlit(";");
            assert(";"@.len() == 1);
            lemma_symbol_26(s, pos);
        },
        SpecToken::Dot => {
            reveal_strlit(".");
            assert("."@.len() == 1);
            lemma_symbol_27(s, pos);
        },
        _ => {},
    }
}

/// The text of a token before a blank or the end is read as the token.
pub proof fn lemma_token_lexeme(s: Seq<char>, pos: int, t: SpecToken)
    requires
        is_written_token(t),
        text_at(s, pos, spec_token_text(t)),
        pos + spec_token_text(t).len() == s.len() || s[pos + spec_token_text(t).len()] == ' ',
    ensures
        spec_lexeme(s, pos) == found(t, pos + spec_token_text(t).len()),
        spec_token_text(t).len() > 0,
{
    if is_keyword(t) {
        lemma_keyword_text(t);
        lemma_word_lexeme(s, pos, spec_token_text(t));
    } else if is_symbol(t) {
        lemma_symbol_lexeme(s, pos, t);
    } else {
        match t {
            SpecToken::Int(n) => {
                lemma_int_lexeme(s, pos, n);
            },
            SpecToken::Float(text) => {
                lemma_float_lexeme(s, pos, text);
            },
            SpecToken::StringLit(body) => {
                lemma_string_lexeme(s, pos, body);
            },
            SpecToken::Ident(n) => {
                lemma_word_lexeme(s, pos, n);
            },
            _ => {},
        }
    }
}

/// Whether text can hold every token of a list.
pub open spec fn are_written_tokens(ts: Seq<SpecToken>) -> bool {
    forall|i: int| 0 <= i < ts.len() ==> is_written_token(#[trigger] ts[i])
}

/// Reading the text of the tokens from the `from`-th on gives the tokens.
pub proof fn lemma_tokenize_from_written(ts: Seq<SpecToken>, from: nat, s: Seq<char>, pos: int)
    requires
        from <= ts.len(),
        are_written_tokens(ts),
        text_at(s, pos, spec_tokens_text(ts, from)),
        pos + spec_tokens_text(ts, from).len() == s.len(),
    ensures
        spec_tokenize_from(s, pos) == Ok::<Seq<SpecToken>, LexicalError>(ts.skip(from as int)),
    decreases ts.len() - from,
{
    if from >= ts.len() {
        assert(ts.skip(from as int) =~= Seq::<SpecToken>::empty());
    } else {
        let t = ts[from as int];
        let text = spec_token_text(t);
        let rest = spec_tokens_text(ts, from + 1);
        let blank = pos + text.len();
        let next = blank + 1;
        lemma_text_concat(s, pos, text + seq![' '], rest);
        lemma_text_concat(s, pos, text, seq![' ']);
        assert(s[blank + 0] == seq![' '][0]);
        lemma_token_lexeme(s, pos, t);
        if from + 1 < ts.len() {
            let after = spec_token_text(ts[(from + 1) as int]);
            lemma_text_concat(
                s,
                next,
                after + seq![' '],
                spec_tokens_text(ts, from + 2),
            );
            lemma_text_concat(s, next, after, seq![' ']);
            assert(s[next + after.len() + 0] == seq![' '][0]);
            lemma_token_lexeme(s, next, ts[(from + 1) as int]);
            assert(!is_space(s[next]));
        } else {
            assert(rest =~= Seq::<char>::empty());
        }
        assert(spaces_end(s, next) == next);
        assert(spaces_end(s, blank) == next);
        assert(spec_lexeme(s, blank) == (SpecLexeme::Skip { end: next }));
        lemma_tokenize_from_written(ts, from + 1, s, next);
        assert(spec_tokenize_from(s, blank) == spec_tokenize_from(s, next));
        assert(spec_tokenize_from(s, pos) == spec_prepend(seq![t], spec_tokenize_from(s, blank)));
        assert(seq![t] + ts.skip((from + 1) as int) =~= ts.skip(from as int));
    }
}

/// Reading the text of tokens gives the tokens.
pub proof fn lemma_tokenize_written(ts: Seq<SpecToken>)
    requires
        are_written_tokens(ts),
    ensures
        spec_tokenize(spec_tokens_text(ts, 0)) == Ok::<Seq<SpecToken>, LexicalError>(ts),
{
    let s = spec_tokens_text(ts, 0);
    lemma_tokenize_from_written(ts, 0, s, 0);
    assert(ts.skip(0) =~= ts);
}

} // verus!
