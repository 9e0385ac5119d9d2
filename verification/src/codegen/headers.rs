//! Which of the host libraries' headers a program needs.

use crate::ast::{
    type_view, types_view, views, Field, Item, Param, Program, SpecField, SpecItem, SpecType, Type,
};
use crate::codegen::CodeGenerator;
use vstd::prelude::*;

verus! {

/// The headers of the host libraries that a program needs.
#[derive(Debug, Clone, Copy, PartialEq, Eq, Structural)]
pub struct RequiredHeaders {
    pub vulkan: bool,
    pub glfw: bool,
    pub math: bool,
    pub imgui: bool,
}

impl RequiredHeaders {
    /// No header.
    pub open spec fn spec_none() -> RequiredHeaders {
        RequiredHeaders { vulkan: false, glfw: false, math: false, imgui: false }
    }

    /// The headers of either.
    pub open spec fn spec_union(self, other: RequiredHeaders) -> RequiredHeaders {
        RequiredHeaders {
            vulkan: self.vulkan || other.vulkan,
            glfw: self.glfw || other.glfw,
            math: self.math || other.math,
            imgui: self.imgui || other.imgui,
        }
    }

    /// Whether some header is needed.
    pub open spec fn spec_any(self) -> bool {
        self.vulkan || self.glfw || self.math || self.imgui
    }

    /// No header.
    pub fn none() -> (r: RequiredHeaders)
        ensures
            r == RequiredHeaders::spec_none(),
    {
        RequiredHeaders { vulkan: false, glfw: false, math: false, imgui: false }
    }

    /// Whether some header is needed.
    pub fn any(&self) -> (r: bool)
        ensures
            r == self.spec_any(),
    {
        self.vulkan || self.glfw || self.math || self.imgui
    }
}

/// The headers that a type needs by itself: the graphics header for a graphics
/// handle, the windowing header for a window handle or the windowing boolean,
/// the math header for a vector, a matrix or the camera.
pub open spec fn spec_own_headers(t: SpecType) -> RequiredHeaders {
    match t {
        SpecType::VkInstance => RequiredHeaders { vulkan: true, glfw: false, math: false, imgui: false },
        SpecType::VkDevice => RequiredHeaders { vulkan: true, glfw: false, math: false, imgui: false },
        SpecType::VkResult => RequiredHeaders { vulkan: true, glfw: false, math: false, imgui: false },
        SpecType::VkPhysicalDevice => RequiredHeaders { vulkan: true, glfw: false, math: false, imgui: false },
        SpecType::VkQueue => RequiredHeaders { vulkan: true, glfw: false, math: false, imgui: false },
        SpecType::VkCommandPool => RequiredHeaders { vulkan: true, glfw: false, math: false, imgui: false },
        SpecType::VkCommandBuffer => RequiredHeaders { vulkan: true, glfw: false, math: false, imgui: false },
        SpecType::VkSwapchainKHR => RequiredHeaders { vulkan: true, glfw: false, math: false, imgui: false },
        SpecType::VkSurfaceKHR => RequiredHeaders { vulkan: true, glfw: false, math: false, imgui: false },
        SpecType::VkRenderPass => RequiredHeaders { vulkan: true, glfw: false, math: false, imgui: false },
        SpecType::VkPipeline => RequiredHeaders { vulkan: true, glfw: false, math: false, imgui: false },
        SpecType::VkFramebuffer => RequiredHeaders { vulkan: true, glfw: false, math: false, imgui: false },
        SpecType::VkBuffer => RequiredHeaders { vulkan: true, glfw: false, math: false, imgui: false },
        SpecType::VkImage => RequiredHeaders { vulkan: true, glfw: false, math: false, imgui: false },
        SpecType::VkImageView => RequiredHeaders { vulkan: true, glfw: false, math: false, imgui: false },
        SpecType::VkSemaphore => RequiredHeaders { vulkan: true, glfw: false, math: false, imgui: false },
        SpecType::VkFence => RequiredHeaders { vulkan: true, glfw: false, math: false, imgui: false },
        SpecType::GLFWwindow => RequiredHeaders { vulkan: false, glfw: true, math: false, imgui: false },
        SpecType::GLFWbool => RequiredHeaders { vulkan: false, glfw: true, math: false, imgui: false },
        SpecType::Vec2 => RequiredHeaders { vulkan: false, glfw: false, math: true, imgui: false },
        SpecType::Vec3 => RequiredHeaders { vulkan: false, glfw: false, math: true, imgui: false },
        SpecType::Vec4 => RequiredHeaders { vulkan: false, glfw: false, math: true, imgui: false },
        SpecType::Mat4 => RequiredHeaders { vulkan: false, glfw: false, math: true, imgui: false },
        SpecType::Camera => RequiredHeaders { vulkan: false, glfw: false, math: true, imgui: false },
        _ => RequiredHeaders::spec_none(),
    }
}

/// The headers that a type needs: its own, and for an array or a query those
/// of the types inside it.
pub open spec fn spec_type_headers(t: SpecType) -> RequiredHeaders
    decreases t, 0nat,
{
    match t {
        SpecType::Array(e) => spec_type_headers(*e),
        SpecType::Query(ts) => spec_types_headers(ts, ts.len()),
        _ => spec_own_headers(t),
    }
}

/// The headers that the first `n` types of a list need.
pub open spec fn spec_types_headers(ts: Seq<SpecType>, n: nat) -> RequiredHeaders
    decreases ts, n,
{
    if n == 0 || n > ts.len() {
        RequiredHeaders::spec_none()
    } else {
        spec_types_headers(ts, (n - 1) as nat).spec_union(spec_type_headers(ts[n - 1]))
    }
}

/// The headers that the types of the first `n` fields or parameters need.
pub open spec fn spec_fields_headers(fields: Seq<SpecField>, n: nat) -> RequiredHeaders
    decreases n,
{
    if n == 0 || n > fields.len() {
        RequiredHeaders::spec_none()
    } else {
        spec_fields_headers(fields, (n - 1) as nat).spec_union(
            spec_type_headers(fields[n - 1].ty),
        )
    }
}

/// The headers that an item needs: those of the field types of a struct or a
/// component, and of the parameter and return types of a function or an
/// extern function. Other items need none.
pub open spec fn spec_item_headers(item: SpecItem) -> RequiredHeaders {
    match item {
        SpecItem::Struct(d) => spec_fields_headers(d.fields, d.fields.len()),
        SpecItem::Component(d) => spec_fields_headers(d.fields, d.fields.len()),
        SpecItem::Function(f) => spec_fields_headers(f.params, f.params.len()).spec_union(
            spec_type_headers(f.return_type),
        ),
        SpecItem::ExternFunction(f) => spec_fields_headers(f.params, f.params.len()).spec_union(
            spec_type_headers(f.return_type),
        ),
        _ => RequiredHeaders::spec_none(),
    }
}

/// The headers that the first `n` items of a program need.
pub open spec fn spec_program_headers(items: Seq<SpecItem>, n: nat) -> RequiredHeaders
    decreases n,
{
    if n == 0 || n > items.len() {
        RequiredHeaders::spec_none()
    } else {
        spec_program_headers(items, (n - 1) as nat).spec_union(spec_item_headers(items[n - 1]))
    }
}

/// The lines that every generated program starts with.
pub const STANDARD_INCLUDES: &'static str = "#include <iostream>
#include <vector>
#include <string>
#include <unordered_map>
#include <memory>
#include <cmath>
#include <cstdint>

";

/// The head of the generated program: the standard includes, then the
/// headers of the host libraries that are needed, under a comment and
/// followed by an empty line; nothing of the latter where none is needed.
pub open spec fn spec_header_text(needs: RequiredHeaders) -> Seq<char> {
    STANDARD_INCLUDES@ + (if needs.spec_any() {
        "// EDEN ENGINE Standard Library\n"@ + (if needs.vulkan {
            "#include \"stdlib/vulkan.h\"\n"@
        } else {
            Seq::empty()
        }) + (if needs.glfw {
            "#include \"stdlib/glfw.h\"\n"@
        } else {
            Seq::empty()
        }) + (if needs.math {
            "#include \"stdlib/math.h\"\n"@
        } else {
            Seq::empty()
        }) + (if needs.imgui {
            "#include \"stdlib/eden_imgui.h\"\n"@
        } else {
            Seq::empty()
        }) + "\n"@
    } else {
        Seq::empty()
    })
}

/// The head of the generated program.
pub fn header_text(needs: &RequiredHeaders) -> (r: String)
    ensures
        r@ == spec_header_text(*needs),
{
    let mut out = STANDARD_INCLUDES.to_owned();
    if needs.any() {
        let mut block = "// EDEN ENGINE Standard Library\n".to_owned();
        if needs.vulkan {
            block.append("#include \"stdlib/vulkan.h\"\n");
        } else {
            assert(block@ =~= block@ + Seq::<char>::empty());
        }
        let ghost b1 = block@;
        if needs.glfw {
            block.append("#include \"stdlib/glfw.h\"\n");
        } else {
            assert(block@ =~= b1 + Seq::<char>::empty());
        }
        let ghost b2 = block@;
        if needs.math {
            block.append("#include \"stdlib/math.h\"\n");
        } else {
            assert(block@ =~= b2 + Seq::<char>::empty());
        }
        let ghost b3 = block@;
        if needs.imgui {
            block.append("#include \"stdlib/eden_imgui.h\"\n");
        } else {
            assert(block@ =~= b3 + Seq::<char>::empty());
        }
        block.append("\n");
        out.append(block.as_str());
    } else {
        assert(out@ =~= STANDARD_INCLUDES@ + Seq::<char>::empty());
    }
    out
}

fn own_headers(t: &Type) -> (r: RequiredHeaders)
    ensures
        r == spec_own_headers(t@),
{
    match t {
        Type::VkInstance => RequiredHeaders { vulkan: true, glfw: false, math: false, imgui: false },
        Type::VkDevice => RequiredHeaders { vulkan: true, glfw: false, math: false, imgui: false },
        Type::VkResult => RequiredHeaders { vulkan: true, glfw: false, math: false, imgui: false },
        Type::VkPhysicalDevice => RequiredHeaders { vulkan: true, glfw: false, math: false, imgui: false },
        Type::VkQueue => RequiredHeaders { vulkan: true, glfw: false, math: false, imgui: false },
        Type::VkCommandPool => RequiredHeaders { vulkan: true, glfw: false, math: false, imgui: false },
        Type::VkCommandBuffer => RequiredHeaders { vulkan: true, glfw: false, math: false, imgui: false },
        Type::VkSwapchainKHR => RequiredHeaders { vulkan: true, glfw: false, math: false, imgui: false },
        Type::VkSurfaceKHR => RequiredHeaders { vulkan: true, glfw: false, math: false, imgui: false },
        Type::VkRenderPass => RequiredHeaders { vulkan: true, glfw: false, math: false, imgui: false },
        Type::VkPipeline => RequiredHeaders { vulkan: true, glfw: false, math: false, imgui: false },
        Type::VkFramebuffer => RequiredHeaders { vulkan: true, glfw: false, math: false, imgui: false },
        Type::VkBuffer => RequiredHeaders { vulkan: true, glfw: false, math: false, imgui: false },
        Type::VkImage => RequiredHeaders { vulkan: true, glfw: false, math: false, imgui: false },
        Type::VkImageView => RequiredHeaders { vulkan: true, glfw: false, math: false, imgui: false },
        Type::VkSemaphore => RequiredHeaders { vulkan: true, glfw: false, math: false, imgui: false },
        Type::VkFence => RequiredHeaders { vulkan: true, glfw: false, math: false, imgui: false },
        Type::GLFWwindow => RequiredHeaders { vulkan: false, glfw: true, math: false, imgui: false },
        Type::GLFWbool => RequiredHeaders { vulkan: false, glfw: true, math: false, imgui: false },
        Type::Vec2 => RequiredHeaders { vulkan: false, glfw: false, math: true, imgui: false },
        Type::Vec3 => RequiredHeaders { vulkan: false, glfw: false, math: true, imgui: false },
        Type::Vec4 => RequiredHeaders { vulkan: false, glfw: false, math: true, imgui: false },
        Type::Mat4 => RequiredHeaders { vulkan: false, glfw: false, math: true, imgui: false },
        Type::Camera => RequiredHeaders { vulkan: false, glfw: false, math: true, imgui: false },
        _ => RequiredHeaders::none(),
    }
}

impl CodeGenerator {
    /// Adds to `needs` the headers that a type needs.
    pub fn check_type_for_headers(&self, ty: &Type, needs: &mut RequiredHeaders)
        ensures
            *final(needs) == old(needs).spec_union(spec_type_headers(ty@)),
        decreases ty,
    {
        match ty {
            Type::Array(inner) => {
                self.check_type_for_headers(inner, needs);
            },
            Type::Query(types) => {
                let mut i: usize = 0;
                while i < types.len()
                    invariant
                        i <= types.len(),
                        *ty == Type::Query(*types),
                        types_view(*types).len() == types.len(),
                        *needs == old(needs).spec_union(
                            spec_types_headers(types_view(*types), i as nat),
                        ),
                    decreases types.len() - i,
                {
                    proof {
                        vstd::std_specs::vec::axiom_vec_index_decreases(*types, i as int);
                        assert(decreases_to!(*ty => ty->Query_0));
                        assert(types_view(*types)[i as int] == type_view(types[i as int]));
                    }
                    self.check_type_for_headers(&types[i], needs);
                    i += 1;
                }
            },
            _ => {
                let own = own_headers(ty);
                needs.vulkan = needs.vulkan || own.vulkan;
                needs.glfw = needs.glfw || own.glfw;
                needs.math = needs.math || own.math;
                needs.imgui = needs.imgui || own.imgui;
            },
        }
    }

    /// Adds to `needs` the headers that the types of a list of fields need.
    pub fn check_fields_for_headers(&self, fields: &Vec<Field>, needs: &mut RequiredHeaders)
        ensures
            *final(needs) == old(needs).spec_union(
                spec_fields_headers(views(fields@), fields.len() as nat),
            ),
    {
        let mut i: usize = 0;
        while i < fields.len()
            invariant
                i <= fields.len(),
                *needs == old(needs).spec_union(spec_fields_headers(views(fields@), i as nat)),
            decreases fields.len() - i,
        {
            assert(views(fields@)[i as int] == fields[i as int]@);
            self.check_type_for_headers(&fields[i].ty, needs);
            i += 1;
        }
    }

    /// Adds to `needs` the headers that the types of a list of parameters need.
    pub fn check_params_for_headers(&self, params: &Vec<Param>, needs: &mut RequiredHeaders)
        ensures
            *final(needs) == old(needs).spec_union(
                spec_fields_headers(views(params@), params.len() as nat),
            ),
    {
        let mut i: usize = 0;
        while i < params.len()
            invariant
                i <= params.len(),
                *needs == old(needs).spec_union(spec_fields_headers(views(params@), i as nat)),
            decreases params.len() - i,
        {
            assert(views(params@)[i as int] == params[i as int]@);
            self.check_type_for_headers(&params[i].ty, needs);
            i += 1;
        }
    }

    /// The headers that a program needs.
    pub fn scan_for_required_headers(&self, program: &Program) -> (r: RequiredHeaders)
        ensures
            r == spec_program_headers(program@, program@.len()),
    {
        let mut needs = RequiredHeaders::none();
        let mut i: usize = 0;
        while i < program.items.len()
            invariant
                i <= program.items.len(),
                needs == spec_program_headers(program@, i as nat),
            decreases program.items.len() - i,
        {
            assert(program@[i as int] == program.items[i as int]@);
            let mut own = RequiredHeaders::none();
            match &program.items[i] {
                Item::Struct(s) => {
                    self.check_fields_for_headers(&s.fields, &mut own);
                },
                Item::Component(c) => {
                    self.check_fields_for_headers(&c.fields, &mut own);
                },
                Item::Function(f) => {
                    self.check_params_for_headers(&f.params, &mut own);
                    self.check_type_for_headers(&f.return_type, &mut own);
                },
                Item::ExternFunction(f) => {
                    self.check_params_for_headers(&f.params, &mut own);
                    self.check_type_for_headers(&f.return_type, &mut own);
                },
                _ => {},
            }
            assert(own == spec_item_headers(program@[i as int]));
            needs.vulkan = needs.vulkan || own.vulkan;
            needs.glfw = needs.glfw || own.glfw;
            needs.math = needs.math || own.math;
            needs.imgui = needs.imgui || own.imgui;
            i += 1;
        }
        needs
    }
}

/// No type needs the header of the immediate-mode GUI: it is never asked for.
pub proof fn lemma_program_never_needs_imgui(items: Seq<SpecItem>, n: nat)
    ensures
        !spec_program_headers(items, n).imgui,
    decreases n,
{
    if !(n == 0 || n > items.len()) {
        lemma_program_never_needs_imgui(items, (n - 1) as nat);
        match items[n - 1] {
            SpecItem::Struct(d) => lemma_fields_never_need_imgui(d.fields, d.fields.len()),
            SpecItem::Component(d) => lemma_fields_never_need_imgui(d.fields, d.fields.len()),
            SpecItem::Function(f) => {
                lemma_fields_never_need_imgui(f.params, f.params.len());
                lemma_type_never_needs_imgui(f.return_type);
            },
            SpecItem::ExternFunction(f) => {
                lemma_fields_never_need_imgui(f.params, f.params.len());
                lemma_type_never_needs_imgui(f.return_type);
            },
            _ => {},
        }
    }
}

/// No list of fields needs the header of the immediate-mode GUI.
pub proof fn lemma_fields_never_need_imgui(fields: Seq<SpecField>, n: nat)
    ensures
        !spec_fields_headers(fields, n).imgui,
    decreases n,
{
    if !(n == 0 || n > fields.len()) {
        lemma_fields_never_need_imgui(fields, (n - 1) as nat);
        lemma_type_never_needs_imgui(fields[n - 1].ty);
    }
}

/// No type needs the header of the immediate-mode GUI.
pub proof fn lemma_type_never_needs_imgui(t: SpecType)
    ensures
        !spec_type_headers(t).imgui,
    decreases t, 0nat,
{
    match t {
        SpecType::Array(e) => lemma_type_never_needs_imgui(*e),
        SpecType::Query(ts) => lemma_types_never_need_imgui(ts, ts.len()),
        _ => {},
    }
}

/// No list of types needs the header of the immediate-mode GUI.
pub proof fn lemma_types_never_need_imgui(ts: Seq<SpecType>, n: nat)
    ensures
        !spec_types_headers(ts, n).imgui,
    decreases ts, n,
{
    if !(n == 0 || n > ts.len()) {
        lemma_types_never_need_imgui(ts, (n - 1) as nat);
        lemma_type_never_needs_imgui(ts[n - 1]);
    }
}

} // verus!
