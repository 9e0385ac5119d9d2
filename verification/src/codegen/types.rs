//! How a type of the language is written in the generated code.

use crate::ast::{type_view, types_view, SpecType, Type};
use crate::codegen::CodeGenerator;
use crate::text::{join, spec_join, texts};
use vstd::prelude::*;

verus! {

/// The name under which a component type appears in the name of a query type:
/// the name of a struct or component type, `Unknown` for any other type.
pub open spec fn spec_query_part(t: SpecType) -> Seq<char> {
    match t {
        SpecType::Component(n) => n,
        SpecType::ComponentSOA(n) => n,
        SpecType::Struct(n) => n,
        _ => "Unknown"@,
    }
}

/// The names of a query's component types, in order.
pub open spec fn spec_query_parts(ts: Seq<SpecType>) -> Seq<Seq<char>> {
    ts.map_values(|t: SpecType| spec_query_part(t))
}

/// The name of the generated struct of a query: `Query_` and the names of the
/// component types with `_` between them.
pub open spec fn spec_query_name(ts: Seq<SpecType>) -> Seq<char> {
    "Query_"@ + spec_join(spec_query_parts(ts), "_"@)
}

/// The generated spelling of a type. A string is `const char*` in an extern
/// signature and `std::string` elsewhere; the element type of an array is
/// never spelled as in an extern signature.
pub open spec fn spec_type_text(t: SpecType, is_extern: bool) -> Seq<char>
    decreases t,
{
    match t {
        SpecType::I32 => "int32_t"@,
        SpecType::I64 => "int64_t"@,
        SpecType::F32 => "float"@,
        SpecType::F64 => "double"@,
        SpecType::Bool => "bool"@,
        SpecType::String => if is_extern {
            "const char*"@
        } else {
            "std::string"@
        },
        SpecType::Array(e) => "std::vector<"@ + spec_type_text(*e, false) + ">"@,
        SpecType::Struct(n) => n,
        SpecType::Component(n) => n,
        SpecType::MeshSOA(n) => n,
        SpecType::ComponentSOA(n) => n,
        SpecType::Shader(n) => n,
        SpecType::Query(ts) => spec_query_name(ts),
        SpecType::Void => "void"@,
        SpecType::GLFWwindow => "GLFWwindow*"@,
        SpecType::GLFWbool => "int32_t"@,
        SpecType::VkInstance => "VkInstance"@,
        SpecType::VkDevice => "VkDevice"@,
        SpecType::VkResult => "VkResult"@,
        SpecType::VkPhysicalDevice => "VkPhysicalDevice"@,
        SpecType::VkQueue => "VkQueue"@,
        SpecType::VkCommandPool => "VkCommandPool"@,
        SpecType::VkCommandBuffer => "VkCommandBuffer"@,
        SpecType::VkSwapchainKHR => "VkSwapchainKHR"@,
        SpecType::VkSurfaceKHR => "VkSurfaceKHR"@,
        SpecType::VkRenderPass => "VkRenderPass"@,
        SpecType::VkPipeline => "VkPipeline"@,
        SpecType::VkFramebuffer => "VkFramebuffer"@,
        SpecType::VkBuffer => "VkBuffer"@,
        SpecType::VkImage => "VkImage"@,
        SpecType::VkImageView => "VkImageView"@,
        SpecType::VkSemaphore => "VkSemaphore"@,
        SpecType::VkFence => "VkFence"@,
        SpecType::Vec2 => "Vec2"@,
        SpecType::Vec3 => "Vec3"@,
        SpecType::Vec4 => "Vec4"@,
        SpecType::Mat4 => "Mat4"@,
        SpecType::Camera => "Camera"@,
        SpecType::FrameArena => "FrameArena"@,
    }
}

/// The generated spellings of a list of types, in order.
pub open spec fn spec_type_texts(ts: Seq<SpecType>) -> Seq<Seq<char>> {
    ts.map_values(|t: SpecType| spec_type_text(t, false))
}

/// The name under which a component type appears in the name of a query type.
pub fn query_part(t: &Type) -> (r: String)
    ensures
        r@ == spec_query_part(t@),
{
    match t {
        Type::Component(n) => n.clone(),
        Type::ComponentSOA(n) => n.clone(),
        Type::Struct(n) => n.clone(),
        _ => "Unknown".to_owned(),
    }
}

/// The names of a query's component types, in order.
pub fn query_parts(ts: &Vec<Type>) -> (r: Vec<String>)
    ensures
        texts(r@) == spec_query_parts(types_view(*ts)),
{
    let mut out: Vec<String> = Vec::new();
    let mut i: usize = 0;
    while i < ts.len()
        invariant
            i <= ts.len(),
            out.len() == i,
            forall|j: int| 0 <= j < i ==> out[j]@ == spec_query_part(type_view(ts[j])),
        decreases ts.len() - i,
    {
        out.push(query_part(&ts[i]));
        i += 1;
    }
    assert(texts(out@) =~= spec_query_parts(types_view(*ts)));
    out
}

/// The name of the generated struct of a query.
pub fn query_name(ts: &Vec<Type>) -> (r: String)
    ensures
        r@ == spec_query_name(types_view(*ts)),
{
    let parts = query_parts(ts);
    let mut out = "Query_".to_owned();
    let joined = join(&parts, "_");
    out.append(joined.as_str());
    out
}

impl CodeGenerator {
    /// The generated spelling of a type outside extern signatures.
    pub fn type_to_cpp(&self, ty: &Type) -> (r: String)
        ensures
            r@ == spec_type_text(ty@, false),
    {
        self.type_to_cpp_internal(ty, false)
    }

    /// The generated spelling of a type in an extern signature.
    pub fn type_to_cpp_extern(&self, ty: &Type) -> (r: String)
        ensures
            r@ == spec_type_text(ty@, true),
    {
        self.type_to_cpp_internal(ty, true)
    }

    /// The generated spelling of a type.
    pub fn type_to_cpp_internal(&self, ty: &Type, is_extern: bool) -> (r: String)
        ensures
            r@ == spec_type_text(ty@, is_extern),
        decreases ty,
    {
        match ty {
            Type::I32 => "int32_t".to_owned(),
            Type::I64 => "int64_t".to_owned(),
            Type::F32 => "float".to_owned(),
            Type::F64 => "double".to_owned(),
            Type::Bool => "bool".to_owned(),
            Type::String => if is_extern {
                "const char*".to_owned()
            } else {
                "std::string".to_owned()
            },
            Type::Array(e) => {
                let mut out = "std::vector<".to_owned();
                let inner = self.type_to_cpp_internal(e, false);
                out.append(inner.as_str());
                out.append(">");
                out
            },
            Type::Struct(n) => n.clone(),
            Type::Component(n) => n.clone(),
            Type::MeshSOA(n) => n.clone(),
            Type::ComponentSOA(n) => n.clone(),
            Type::Shader(n) => n.clone(),
            Type::Query(ts) => query_name(ts),
            Type::Void => "void".to_owned(),
            Type::GLFWwindow => "GLFWwindow*".to_owned(),
            Type::GLFWbool => "int32_t".to_owned(),
            Type::VkInstance => "VkInstance".to_owned(),
            Type::VkDevice => "VkDevice".to_owned(),
            Type::VkResult => "VkResult".to_owned(),
            Type::VkPhysicalDevice => "VkPhysicalDevice".to_owned(),
            Type::VkQueue => "VkQueue".to_owned(),
            Type::VkCommandPool => "VkCommandPool".to_owned(),
            Type::VkCommandBuffer => "VkCommandBuffer".to_owned(),
            Type::VkSwapchainKHR => "VkSwapchainKHR".to_owned(),
            Type::VkSurfaceKHR => "VkSurfaceKHR".to_owned(),
            Type::VkRenderPass => "VkRenderPass".to_owned(),
            Type::VkPipeline => "VkPipeline".to_owned(),
            Type::VkFramebuffer => "VkFramebuffer".to_owned(),
            Type::VkBuffer => "VkBuffer".to_owned(),
            Type::VkImage => "VkImage".to_owned(),
            Type::VkImageView => "VkImageView".to_owned(),
            Type::VkSemaphore => "VkSemaphore".to_owned(),
            Type::VkFence => "VkFence".to_owned(),
            Type::Vec2 => "Vec2".to_owned(),
            Type::Vec3 => "Vec3".to_owned(),
            Type::Vec4 => "Vec4".to_owned(),
            Type::Mat4 => "Mat4".to_owned(),
            Type::Camera => "Camera".to_owned(),
            Type::FrameArena => "FrameArena".to_owned(),
        }
    }

    /// The generated spellings of a list of types, in order.
    pub fn type_texts(&self, ts: &Vec<Type>) -> (r: Vec<String>)
        ensures
            texts(r@) == spec_type_texts(types_view(*ts)),
    {
        let mut out: Vec<String> = Vec::new();
        let mut i: usize = 0;
        while i < ts.len()
            invariant
                i <= ts.len(),
                out.len() == i,
                forall|j: int| 0 <= j < i ==> out[j]@ == spec_type_text(type_view(ts[j]), false),
            decreases ts.len() - i,
        {
            out.push(self.type_to_cpp(&ts[i]));
            i += 1;
        }
        assert(texts(out@) =~= spec_type_texts(types_view(*ts)));
        out
    }
}

} // verus!
