//! Static type checking of a program.
//!
//! The rules are stated as specification functions over the models of the
//! tree; the checker's functions return exactly what they say.

use crate::ast::{
    expr_view, exprs_view, named_exprs_view, stmt_view, stmts_view, types_view, views, BinaryOp,
    Expression, ExternFunctionDef, Field, FunctionDef, Item, Literal, Param, Program,
    SpecExpression, SpecExternFunctionDef, SpecField, SpecFunctionDef, SpecItem, SpecLiteral,
    SpecRecord, SpecStatement, SpecType, Statement, Type, UnaryOp,
};
use crate::error::{
    first_error, lemma_first_error_at, lemma_first_error_iff, lemma_first_error_none,
    SpecTypeError, TypeError,
};
use crate::text::str_equal;
use vstd::prelude::*;

verus! {

/// The signature under which a function or an extern function is called.
#[derive(Debug, Clone, PartialEq, Eq)]
pub struct FunctionSig {
    pub name: String,
    pub params: Vec<Type>,
    pub return_type: Type,
}

/// Model of [`FunctionSig`].
pub struct SpecFunctionSig {
    pub name: Seq<char>,
    pub params: Seq<SpecType>,
    pub return_type: SpecType,
}

impl View for FunctionSig {
    type V = SpecFunctionSig;

    open spec fn view(&self) -> SpecFunctionSig {
        SpecFunctionSig {
            name: self.name@,
            params: types_view(self.params),
            return_type: self.return_type@,
        }
    }
}

/// Model of a symbol table: the bindings in the order they were made.
pub type SpecSymbols = Seq<(Seq<char>, SpecType)>;

/// The model of a symbol table.
pub open spec fn symbols_view(symbols: Seq<(String, Type)>) -> SpecSymbols {
    symbols.map_values(|b: (String, Type)| (b.0@, b.1@))
}

/// The type bound to `name`: that of the latest binding of the name.
pub open spec fn spec_lookup_symbol(symbols: SpecSymbols, name: Seq<char>) -> Option<SpecType>
    decreases symbols.len(),
{
    if symbols.len() == 0 {
        None
    } else if symbols.last().0 == name {
        Some(symbols.last().1)
    } else {
        spec_lookup_symbol(symbols.drop_last(), name)
    }
}

/// The signature registered under `name`: the latest one of that name.
pub open spec fn spec_lookup_function(funcs: Seq<SpecFunctionSig>, name: Seq<char>) -> Option<
    SpecFunctionSig,
>
    decreases funcs.len(),
{
    if funcs.len() == 0 {
        None
    } else if funcs.last().name == name {
        Some(funcs.last())
    } else {
        spec_lookup_function(funcs.drop_last(), name)
    }
}

/// The four numeric types.
pub open spec fn is_numeric(t: SpecType) -> bool {
    t is I32 || t is I64 || t is F32 || t is F64
}

/// Whether a value of type `actual` may stand where `expected` is asked for:
/// the two have the same tag, names equal and element types compatible in
/// turn; besides, `GLFWbool` and `i32` stand for each other.
pub open spec fn spec_compatible(expected: SpecType, actual: SpecType) -> bool
    decreases expected,
{
    match expected {
        SpecType::Array(a) => match actual {
            SpecType::Array(b) => spec_compatible(*a, *b),
            _ => false,
        },
        SpecType::Query(xs) => match actual {
            SpecType::Query(ys) => xs.len() == ys.len() && forall|i: int|
                0 <= i < xs.len() ==> spec_compatible(#[trigger] xs[i], ys[i]),
            _ => false,
        },
        SpecType::I32 => actual is I32 || actual is GLFWbool,
        SpecType::GLFWbool => actual is GLFWbool || actual is I32,
        _ => expected == actual,
    }
}

/// Every type is compatible with itself.
pub proof fn lemma_compatible_reflexive(t: SpecType)
    ensures
        spec_compatible(t, t),
    decreases t,
{
    reveal_with_fuel(spec_compatible, 2);
    match t {
        SpecType::Array(a) => lemma_compatible_reflexive(*a),
        SpecType::Query(xs) => {
            assert forall|i: int| 0 <= i < xs.len() implies spec_compatible(
                #[trigger] xs[i],
                xs[i],
            ) by {
                lemma_compatible_reflexive(xs[i]);
            }
        },
        _ => {},
    }
}

/// Compatibility does not depend on which side is the expected one.
pub proof fn lemma_compatible_symmetric(a: SpecType, b: SpecType)
    requires
        spec_compatible(a, b),
    ensures
        spec_compatible(b, a),
    decreases a,
{
    reveal_with_fuel(spec_compatible, 2);
    match a {
        SpecType::Array(x) => {
            lemma_compatible_symmetric(*x, *b->Array_0);
        },
        SpecType::Query(xs) => {
            let ys = b->Query_0;
            assert forall|i: int| 0 <= i < ys.len() implies spec_compatible(
                #[trigger] ys[i],
                xs[i],
            ) by {
                assert(spec_compatible(xs[i], ys[i]));
                lemma_compatible_symmetric(xs[i], ys[i]);
            }
        },
        _ => {},
    }
}

/// A number for each variant of a type.
pub open spec fn spec_tag(t: SpecType) -> u8 {
    match t {
        SpecType::Array(_) => 1,
        SpecType::Struct(_) => 2,
        SpecType::Component(_) => 3,
        SpecType::MeshSOA(_) => 4,
        SpecType::ComponentSOA(_) => 5,
        SpecType::Shader(_) => 6,
        SpecType::Query(_) => 7,
        SpecType::I32 => 10,
        SpecType::I64 => 11,
        SpecType::F32 => 12,
        SpecType::F64 => 13,
        SpecType::Bool => 14,
        SpecType::String => 15,
        SpecType::Void => 16,
        SpecType::VkInstance => 17,
        SpecType::VkDevice => 18,
        SpecType::VkResult => 19,
        SpecType::VkPhysicalDevice => 20,
        SpecType::VkQueue => 21,
        SpecType::VkCommandPool => 22,
        SpecType::VkCommandBuffer => 23,
        SpecType::VkSwapchainKHR => 24,
        SpecType::VkSurfaceKHR => 25,
        SpecType::VkRenderPass => 26,
        SpecType::VkPipeline => 27,
        SpecType::VkFramebuffer => 28,
        SpecType::VkBuffer => 29,
        SpecType::VkImage => 30,
        SpecType::VkImageView => 31,
        SpecType::VkSemaphore => 32,
        SpecType::VkFence => 33,
        SpecType::GLFWwindow => 34,
        SpecType::GLFWbool => 35,
        SpecType::Vec2 => 36,
        SpecType::Vec3 => 37,
        SpecType::Vec4 => 38,
        SpecType::Mat4 => 39,
        SpecType::Camera => 40,
        SpecType::FrameArena => 41,
    }
}

fn tag_of(t: &Type) -> (r: u8)
    ensures
        r == spec_tag(t@),
{
    match t {
        Type::Array(_) => 1,
        Type::Struct(_) => 2,
        Type::Component(_) => 3,
        Type::MeshSOA(_) => 4,
        Type::ComponentSOA(_) => 5,
        Type::Shader(_) => 6,
        Type::Query(_) => 7,
        Type::I32 => 10,
        Type::I64 => 11,
        Type::F32 => 12,
        Type::F64 => 13,
        Type::Bool => 14,
        Type::String => 15,
        Type::Void => 16,
        Type::VkInstance => 17,
        Type::VkDevice => 18,
        Type::VkResult => 19,
        Type::VkPhysicalDevice => 20,
        Type::VkQueue => 21,
        Type::VkCommandPool => 22,
        Type::VkCommandBuffer => 23,
        Type::VkSwapchainKHR => 24,
        Type::VkSurfaceKHR => 25,
        Type::VkRenderPass => 26,
        Type::VkPipeline => 27,
        Type::VkFramebuffer => 28,
        Type::VkBuffer => 29,
        Type::VkImage => 30,
        Type::VkImageView => 31,
        Type::VkSemaphore => 32,
        Type::VkFence => 33,
        Type::GLFWwindow => 34,
        Type::GLFWbool => 35,
        Type::Vec2 => 36,
        Type::Vec3 => 37,
        Type::Vec4 => 38,
        Type::Mat4 => 39,
        Type::Camera => 40,
        Type::FrameArena => 41,
    }
}

/// Whether a value of type `actual` may stand where `expected` is asked for.
pub fn types_compatible(expected: &Type, actual: &Type) -> (r: bool)
    ensures
        r == spec_compatible(expected@, actual@),
    decreases expected,
{
    proof {
        reveal_with_fuel(spec_compatible, 2);
    }
    match expected {
        Type::Array(a) => match actual {
            Type::Array(b) => types_compatible(a, b),
            _ => false,
        },
        Type::Query(xs) => match actual {
            Type::Query(ys) => {
                assert(types_view(*xs).len() == xs.len() && types_view(*ys).len() == ys.len());
                if xs.len() != ys.len() {
                    return false;
                }
                let mut i: usize = 0;
                while i < xs.len()
                    invariant
                        i <= xs.len(),
                        xs.len() == ys.len(),
                        expected@ == SpecType::Query(types_view(*xs)),
                        *expected == Type::Query(*xs),
                        actual@ == SpecType::Query(types_view(*ys)),
                        forall|j: int|
                            0 <= j < i ==> spec_compatible(
                                #[trigger] types_view(*xs)[j],
                                types_view(*ys)[j],
                            ),
                    decreases xs.len() - i,
                {
                    proof {
                        vstd::std_specs::vec::axiom_vec_index_decreases(*xs, i as int);
                        assert(decreases_to!(*expected => expected->Query_0));
                    }
                    if !types_compatible(&xs[i], &ys[i]) {
                        assert(!spec_compatible(types_view(*xs)[i as int], types_view(*ys)[i as int]));
                        return false;
                    }
                    i += 1;
                }
                true
            },
            _ => false,
        },
        Type::Struct(a) => match actual {
            Type::Struct(b) => *a == *b,
            _ => false,
        },
        Type::Component(a) => match actual {
            Type::Component(b) => *a == *b,
            _ => false,
        },
        Type::MeshSOA(a) => match actual {
            Type::MeshSOA(b) => *a == *b,
            _ => false,
        },
        Type::ComponentSOA(a) => match actual {
            Type::ComponentSOA(b) => *a == *b,
            _ => false,
        },
        Type::Shader(a) => match actual {
            Type::Shader(b) => *a == *b,
            _ => false,
        },
        Type::I32 => match actual {
            Type::I32 => true,
            Type::GLFWbool => true,
            _ => false,
        },
        Type::GLFWbool => match actual {
            Type::I32 => true,
            Type::GLFWbool => true,
            _ => false,
        },
        _ => tag_of(expected) == tag_of(actual),
    }
}

/// What a built-in function returns.
#[derive(Debug, Clone, Copy, PartialEq, Eq, Structural)]
pub enum BuiltinResult {
    Void,
    Int,
    Bool,
    Window,
}

/// The calling rule of a built-in function: how many arguments it takes
/// (`min_args` exactly, or at least that many), whether all of them are
/// checked or only the first, and what it returns.
#[derive(Debug, Clone, Copy, PartialEq, Eq, Structural)]
pub struct Builtin {
    pub min_args: usize,
    pub exact: bool,
    pub check_all: bool,
    pub result: BuiltinResult,
}

/// The type that a built-in function returns.
pub open spec fn builtin_result_type(r: BuiltinResult) -> SpecType {
    match r {
        BuiltinResult::Void => SpecType::Void,
        BuiltinResult::Int => SpecType::I32,
        BuiltinResult::Bool => SpecType::Bool,
        BuiltinResult::Window => SpecType::GLFWwindow,
    }
}

/// The catalogue of built-in functions: `print`, the windowing functions and
/// the immediate-mode GUI functions, the latter under both spellings.
pub open spec fn spec_builtin(name: Seq<char>) -> Option<Builtin> {
    if name == "print"@ {
        Some(Builtin { min_args: 0, exact: false, check_all: true, result: BuiltinResult::Void })
    } else if name == "glfwInit"@ {
        Some(Builtin { min_args: 0, exact: true, check_all: true, result: BuiltinResult::Int })
    } else if name == "glfwCreateWindow"@ {
        Some(Builtin { min_args: 5, exact: true, check_all: true, result: BuiltinResult::Window })
    } else if name == "glfwWindowShouldClose"@ {
        Some(Builtin { min_args: 1, exact: true, check_all: true, result: BuiltinResult::Int })
    } else if name == "glfwPollEvents"@ {
        Some(Builtin { min_args: 0, exact: true, check_all: true, result: BuiltinResult::Void })
    } else if name == "glfwGetKey"@ {
        Some(Builtin { min_args: 2, exact: true, check_all: true, result: BuiltinResult::Int })
    } else if name == "glfwSetWindowShouldClose"@ {
        Some(Builtin { min_args: 2, exact: true, check_all: true, result: BuiltinResult::Void })
    } else if name == "glfwDestroyWindow"@ {
        Some(Builtin { min_args: 1, exact: true, check_all: true, result: BuiltinResult::Void })
    } else if name == "glfwTerminate"@ {
        Some(Builtin { min_args: 0, exact: true, check_all: true, result: BuiltinResult::Void })
    } else if name == "glfwWindowHint"@ {
        Some(Builtin { min_args: 2, exact: true, check_all: true, result: BuiltinResult::Void })
    } else if name == "ImGui_Begin"@ || name == "ImGui::Begin"@ {
        Some(Builtin { min_args: 1, exact: false, check_all: false, result: BuiltinResult::Bool })
    } else if name == "ImGui_End"@ || name == "ImGui::End"@ {
        Some(Builtin { min_args: 0, exact: true, check_all: true, result: BuiltinResult::Void })
    } else if name == "ImGui_Text"@ || name == "ImGui::Text"@ {
        Some(Builtin { min_args: 1, exact: false, check_all: true, result: BuiltinResult::Void })
    } else if name == "ImGui_Button"@ || name == "ImGui::Button"@ {
        Some(Builtin { min_args: 1, exact: false, check_all: false, result: BuiltinResult::Bool })
    } else if name == "ImGui_NewFrame"@ || name == "ImGui::NewFrame"@ {
        Some(Builtin { min_args: 0, exact: true, check_all: true, result: BuiltinResult::Void })
    } else if name == "ImGui_Render"@ || name == "ImGui::Render"@ {
        Some(Builtin { min_args: 0, exact: true, check_all: true, result: BuiltinResult::Void })
    } else {
        None
    }
}

/// Looks a name up in the catalogue of built-in functions.
pub fn builtin(name: &str) -> (r: Option<Builtin>)
    ensures
        r == spec_builtin(name@),
{
    if str_equal(name, "print") {
        Some(Builtin { min_args: 0, exact: false, check_all: true, result: BuiltinResult::Void })
    } else if str_equal(name, "glfwInit") {
        Some(Builtin { min_args: 0, exact: true, check_all: true, result: BuiltinResult::Int })
    } else if str_equal(name, "glfwCreateWindow") {
        Some(Builtin { min_args: 5, exact: true, check_all: true, result: BuiltinResult::Window })
    } else if str_equal(name, "glfwWindowShouldClose") {
        Some(Builtin { min_args: 1, exact: true, check_all: true, result: BuiltinResult::Int })
    } else if str_equal(name, "glfwPollEvents") {
        Some(Builtin { min_args: 0, exact: true, check_all: true, result: BuiltinResult::Void })
    } else if str_equal(name, "glfwGetKey") {
        Some(Builtin { min_args: 2, exact: true, check_all: true, result: BuiltinResult::Int })
    } else if str_equal(name, "glfwSetWindowShouldClose") {
        Some(Builtin { min_args: 2, exact: true, check_all: true, result: BuiltinResult::Void })
    } else if str_equal(name, "glfwDestroyWindow") {
        Some(Builtin { min_args: 1, exact: true, check_all: true, result: BuiltinResult::Void })
    } else if str_equal(name, "glfwTerminate") {
        Some(Builtin { min_args: 0, exact: true, check_all: true, result: BuiltinResult::Void })
    } else if str_equal(name, "glfwWindowHint") {
        Some(Builtin { min_args: 2, exact: true, check_all: true, result: BuiltinResult::Void })
    } else if str_equal(name, "ImGui_Begin") || str_equal(name, "ImGui::Begin") {
        Some(Builtin { min_args: 1, exact: false, check_all: false, result: BuiltinResult::Bool })
    } else if str_equal(name, "ImGui_End") || str_equal(name, "ImGui::End") {
        Some(Builtin { min_args: 0, exact: true, check_all: true, result: BuiltinResult::Void })
    } else if str_equal(name, "ImGui_Text") || str_equal(name, "ImGui::Text") {
        Some(Builtin { min_args: 1, exact: false, check_all: true, result: BuiltinResult::Void })
    } else if str_equal(name, "ImGui_Button") || str_equal(name, "ImGui::Button") {
        Some(Builtin { min_args: 1, exact: false, check_all: false, result: BuiltinResult::Bool })
    } else if str_equal(name, "ImGui_NewFrame") || str_equal(name, "ImGui::NewFrame") {
        Some(Builtin { min_args: 0, exact: true, check_all: true, result: BuiltinResult::Void })
    } else if str_equal(name, "ImGui_Render") || str_equal(name, "ImGui::Render") {
        Some(Builtin { min_args: 0, exact: true, check_all: true, result: BuiltinResult::Void })
    } else {
        None
    }
}

/// Model of the outcome of checking an expression.
pub type SpecTyping = Result<SpecType, SpecTypeError>;

/// The model of the outcome of checking an expression.
pub open spec fn typing_view(r: Result<Type, TypeError>) -> SpecTyping {
    match r {
        Ok(t) => Ok(t@),
        Err(e) => Err(e@),
    }
}

/// The models of a list of outcomes.
pub open spec fn typings_view(rs: Seq<Result<Type, TypeError>>) -> Seq<SpecTyping> {
    rs.map_values(|r: Result<Type, TypeError>| typing_view(r))
}

/// What each argument of a built-in call contributes: its own error where it
/// is checked and ill-typed.
pub open spec fn builtin_outcomes(b: Builtin, args: Seq<SpecTyping>) -> Seq<Option<SpecTypeError>> {
    Seq::new(
        args.len(),
        |i: int|
            match args[i] {
                Err(e) => if b.check_all || i == 0 {
                    Some(e)
                } else {
                    None
                },
                Ok(_) => None,
            },
    )
}

/// What each argument of a call of a declared function contributes: its own
/// error where it is ill-typed, a mismatch where its type is not compatible
/// with the parameter's.
pub open spec fn argument_outcomes(
    function: Seq<char>,
    params: Seq<SpecType>,
    args: Seq<SpecTyping>,
) -> Seq<Option<SpecTypeError>> {
    Seq::new(
        args.len(),
        |i: int|
            match args[i] {
                Err(e) => Some(e),
                Ok(t) => if spec_compatible(params[i], t) {
                    None
                } else {
                    Some(
                        SpecTypeError::ArgumentTypeMismatch {
                            function,
                            index: i as usize,
                            expected: params[i],
                            actual: t,
                        },
                    )
                },
            },
    )
}

/// The type of a call of `name`, given the outcome of checking each argument.
///
/// A built-in name goes by the catalogue; any other by the latest declaration
/// of that name. The number of arguments is tested before any argument is
/// looked at; after that the first argument in order that is at fault decides.
pub open spec fn spec_call_type(
    funcs: Seq<SpecFunctionSig>,
    name: Seq<char>,
    args: Seq<SpecTyping>,
) -> SpecTyping {
    match spec_builtin(name) {
        Some(b) => if args.len() < b.min_args || (b.exact && args.len() != b.min_args) {
            Err(
                SpecTypeError::ArgumentCountMismatch {
                    function: name,
                    expected: b.min_args,
                    found: args.len() as usize,
                },
            )
        } else {
            match first_error(builtin_outcomes(b, args)) {
                Some(e) => Err(e),
                None => Ok(builtin_result_type(b.result)),
            }
        },
        None => match spec_lookup_function(funcs, name) {
            None => Err(SpecTypeError::UndefinedFunction(name)),
            Some(f) => if args.len() != f.params.len() {
                Err(
                    SpecTypeError::ArgumentCountMismatch {
                        function: name,
                        expected: f.params.len() as usize,
                        found: args.len() as usize,
                    },
                )
            } else {
                match first_error(argument_outcomes(name, f.params, args)) {
                    Some(e) => Err(e),
                    None => Ok(f.return_type),
                }
            },
        },
    }
}

/// A call of a declared function with the wrong number of arguments is an
/// argument-count mismatch, whatever the arguments are.
pub proof fn lemma_argument_count_mismatch_rejected(
    funcs: Seq<SpecFunctionSig>,
    name: Seq<char>,
    args: Seq<SpecTyping>,
)
    requires
        spec_builtin(name) is None,
        spec_lookup_function(funcs, name) is Some,
        args.len() != spec_lookup_function(funcs, name)->0.params.len(),
    ensures
        spec_call_type(funcs, name, args) == Err::<SpecType, SpecTypeError>(
            SpecTypeError::ArgumentCountMismatch {
                function: name,
                expected: spec_lookup_function(funcs, name)->0.params.len() as usize,
                found: args.len() as usize,
            },
        ),
{
}

/// A call of a built-in function with a number of arguments that its rule
/// does not admit is an argument-count mismatch, whatever the arguments are.
pub proof fn lemma_builtin_count_mismatch_rejected(
    funcs: Seq<SpecFunctionSig>,
    name: Seq<char>,
    args: Seq<SpecTyping>,
)
    requires
        spec_builtin(name) is Some,
        args.len() < spec_builtin(name)->0.min_args || (spec_builtin(name)->0.exact && args.len()
            != spec_builtin(name)->0.min_args),
    ensures
        spec_call_type(funcs, name, args) is Err,
        spec_call_type(funcs, name, args)->Err_0 is ArgumentCountMismatch,
{
}

/// Index of the latest signature of the name `name`.
pub fn find_function(funcs: &Vec<FunctionSig>, name: &str) -> (r: Option<usize>)
    ensures
        match r {
            Some(i) => i < funcs.len() && spec_lookup_function(views(funcs@), name@) == Some(
                funcs[i as int]@,
            ),
            None => spec_lookup_function(views(funcs@), name@) is None,
        },
{
    let mut i: usize = funcs.len();
    assert(views(funcs@).take(i as int) =~= views(funcs@));
    while i > 0
        invariant
            i <= funcs.len(),
            spec_lookup_function(views(funcs@), name@) == spec_lookup_function(
                views(funcs@).take(i as int),
                name@,
            ),
        decreases i,
    {
        let ghost prefix = views(funcs@).take(i as int);
        assert(prefix.last() == funcs[i - 1]@);
        assert(prefix.drop_last() =~= views(funcs@).take(i - 1));
        if str_equal(funcs[i - 1].name.as_str(), name) {
            return Some(i - 1);
        }
        i -= 1;
    }
    None
}

/// The type bound to `name` in a symbol table.
pub fn find_symbol(symbols: &Vec<(String, Type)>, name: &str) -> (r: Option<usize>)
    ensures
        match r {
            Some(i) => i < symbols.len() && spec_lookup_symbol(symbols_view(symbols@), name@)
                == Some(symbols[i as int].1@),
            None => spec_lookup_symbol(symbols_view(symbols@), name@) is None,
        },
{
    let mut i: usize = symbols.len();
    assert(symbols_view(symbols@).take(i as int) =~= symbols_view(symbols@));
    while i > 0
        invariant
            i <= symbols.len(),
            spec_lookup_symbol(symbols_view(symbols@), name@) == spec_lookup_symbol(
                symbols_view(symbols@).take(i as int),
                name@,
            ),
        decreases i,
    {
        let ghost prefix = symbols_view(symbols@).take(i as int);
        assert(prefix.last() == (symbols[i - 1].0@, symbols[i - 1].1@));
        assert(prefix.drop_last() =~= symbols_view(symbols@).take(i - 1));
        if str_equal(symbols[i - 1].0.as_str(), name) {
            return Some(i - 1);
        }
        i -= 1;
    }
    None
}

fn builtin_type(r: BuiltinResult) -> (t: Type)
    ensures
        t@ == builtin_result_type(r),
{
    match r {
        BuiltinResult::Void => Type::Void,
        BuiltinResult::Int => Type::I32,
        BuiltinResult::Bool => Type::Bool,
        BuiltinResult::Window => Type::GLFWwindow,
    }
}

/// The type of a call of `name`, given the outcome of checking each argument.
pub fn call_result(funcs: &Vec<FunctionSig>, name: &String, args: Vec<Result<Type, TypeError>>) -> (r:
    Result<Type, TypeError>)
    ensures
        typing_view(r) == spec_call_type(views(funcs@), name@, typings_view(args@)),
{
    let ghost arg_views = typings_view(args@);
    let count = args.len();
    let mut rest = args;
    match builtin(name.as_str()) {
        Some(b) => {
            if count < b.min_args || (b.exact && count != b.min_args) {
                return Err(
                    TypeError::ArgumentCountMismatch {
                        function: name.clone(),
                        expected: b.min_args,
                        found: count,
                    },
                );
            }
            let ghost outcomes = builtin_outcomes(b, arg_views);
            let mut i: usize = 0;
            while i < rest.len()
                invariant
                    i <= rest.len(),
                    rest.len() == count,
                    arg_views == typings_view(args@),
                    typings_view(rest@) == arg_views,
                    outcomes == builtin_outcomes(b, arg_views),
                    spec_builtin(name@) == Some(b),
                    !(count < b.min_args || (b.exact && count != b.min_args)),
                    forall|j: int| 0 <= j < i ==> outcomes[j] is None,
                decreases rest.len() - i,
            {
                if (b.check_all || i == 0) && rest[i].is_err() {
                    proof {
                        lemma_first_error_at(outcomes, i as int);
                        assert(arg_views[i as int] == typing_view(rest@[i as int]));
                    }
                    let failed = rest.remove(i);
                    match failed {
                        Err(e) => {
                            return Err(e);
                        },
                        Ok(_) => {
                            return Ok(Type::Void);
                        },
                    }
                }
                i += 1;
            }
            proof {
                lemma_first_error_none(outcomes);
            }
            Ok(builtin_type(b.result))
        },
        None => match find_function(funcs, name.as_str()) {
            None => Err(TypeError::UndefinedFunction(name.clone())),
            Some(k) => {
                let f = &funcs[k];
                assert(f@.params.len() == f.params.len());
                if count != f.params.len() {
                    return Err(
                        TypeError::ArgumentCountMismatch {
                            function: name.clone(),
                            expected: f.params.len(),
                            found: count,
                        },
                    );
                }
                let ghost outcomes = argument_outcomes(name@, f@.params, arg_views);
                let mut i: usize = 0;
                while i < rest.len()
                    invariant
                        i <= rest.len(),
                        rest.len() == count,
                    arg_views == typings_view(args@),
                        count == f.params.len(),
                        f@.params.len() == f.params.len(),
                        typings_view(rest@) == arg_views,
                        outcomes == argument_outcomes(name@, f@.params, arg_views),
                        spec_builtin(name@) is None,
                        spec_lookup_function(views(funcs@), name@) == Some(f@),
                        forall|j: int| 0 <= j < i ==> outcomes[j] is None,
                    decreases rest.len() - i,
                {
                    let bad = match &rest[i] {
                        Err(_) => true,
                        Ok(t) => !types_compatible(&f.params[i], t),
                    };
                    if bad {
                        proof {
                            lemma_first_error_at(outcomes, i as int);
                            assert(arg_views[i as int] == typing_view(rest@[i as int]));
                            assert(f@.params[i as int] == f.params[i as int]@);
                        }
                        let failed = rest.remove(i);
                        match failed {
                            Err(e) => {
                                return Err(e);
                            },
                            Ok(t) => {
                                return Err(
                                    TypeError::ArgumentTypeMismatch {
                                        function: name.clone(),
                                        index: i,
                                        expected: f.params[i].clone(),
                                        actual: t,
                                    },
                                );
                            },
                        }
                    }
                    i += 1;
                }
                proof {
                    lemma_first_error_none(outcomes);
                }
                Ok(f.return_type.clone())
            },
        },
    }
}

/// The type of a literal: `i32` for an integer, `f32` for a floating-point
/// number, `bool`, `string`.
pub open spec fn literal_type(l: SpecLiteral) -> SpecType {
    match l {
        SpecLiteral::Int(_) => SpecType::I32,
        SpecLiteral::Float(_) => SpecType::F32,
        SpecLiteral::Bool(_) => SpecType::Bool,
        SpecLiteral::String(_) => SpecType::String,
    }
}

/// The operators that compute a number: `+ - * / %` and `|`.
pub open spec fn is_arithmetic(op: BinaryOp) -> bool {
    op == BinaryOp::Add || op == BinaryOp::Sub || op == BinaryOp::Mul || op == BinaryOp::Div || op
        == BinaryOp::Mod || op == BinaryOp::BitwiseOr
}

/// The operators that compare: `== != < <= > >=`.
pub open spec fn is_comparison(op: BinaryOp) -> bool {
    op == BinaryOp::Eq || op == BinaryOp::Ne || op == BinaryOp::Lt || op == BinaryOp::Le || op
        == BinaryOp::Gt || op == BinaryOp::Ge
}

/// The type of `left op right` for an operator other than the pipe, given the
/// operands' types: an arithmetic operator asks for two numeric operands and
/// has the left one's type; a comparison is `bool` whatever it compares; a
/// logical operator asks for two `bool` operands and is `bool`.
pub open spec fn spec_binary_type(op: BinaryOp, left: SpecType, right: SpecType) -> SpecTyping {
    if is_arithmetic(op) {
        if is_numeric(left) && is_numeric(right) {
            Ok(left)
        } else {
            Err(SpecTypeError::NonNumericOperands { op, left, right })
        }
    } else if is_comparison(op) {
        Ok(SpecType::Bool)
    } else if left is Bool && right is Bool {
        Ok(SpecType::Bool)
    } else {
        Err(SpecTypeError::NonBoolOperands { op, left, right })
    }
}

/// The type of `op operand`, given the operand's type.
pub open spec fn spec_unary_type(op: UnaryOp, operand: SpecType) -> SpecTyping {
    match op {
        UnaryOp::Neg => if is_numeric(operand) {
            Ok(operand)
        } else {
            Err(SpecTypeError::NegationNotNumeric(operand))
        },
        UnaryOp::Not => if operand is Bool {
            Ok(SpecType::Bool)
        } else {
            Err(SpecTypeError::NotOperandNotBool(operand))
        },
    }
}

/// The type of a method call: an array of `T` for `alloc_array<T>`, `void`
/// for every other method.
pub open spec fn spec_method_type(method: Seq<char>, type_args: Option<Seq<SpecType>>) -> SpecType {
    match type_args {
        Some(ts) => if method == "alloc_array"@ && ts.len() == 1 {
            SpecType::Array(Box::new(ts[0]))
        } else {
            SpecType::Void
        },
        None => SpecType::Void,
    }
}

/// The error of an outcome, if it is one.
pub open spec fn error_of(r: SpecTyping) -> Option<SpecTypeError> {
    match r {
        Ok(_) => None,
        Err(e) => Some(e),
    }
}

/// The errors of a list of outcomes.
pub open spec fn errors_of(rs: Seq<SpecTyping>) -> Seq<Option<SpecTypeError>> {
    rs.map_values(|r: SpecTyping| error_of(r))
}

/// The type of an expression, or the first error met in evaluation order.
///
/// `funcs` holds the declared signatures and `symbols` the variables in scope.
/// A pipe `a |> f(args)` has the type of the call `f(a, args)`; with a bare
/// name on the right, that of `name(a)`.
pub open spec fn spec_type_of(
    funcs: Seq<SpecFunctionSig>,
    symbols: SpecSymbols,
    e: SpecExpression,
) -> SpecTyping
    decreases e,
{
    match e {
        SpecExpression::Literal(l) => Ok(literal_type(l)),
        SpecExpression::Variable(n) => match spec_lookup_symbol(symbols, n) {
            Some(t) => Ok(t),
            None => Err(SpecTypeError::UndefinedSymbol(n)),
        },
        SpecExpression::BinaryOp { op, left, right } => {
            if op == BinaryOp::Pipe {
                match *right {
                    SpecExpression::Call { name, args } => spec_call_type(
                        funcs,
                        name,
                        seq![spec_type_of(funcs, symbols, *left)] + spec_types_of(
                            funcs,
                            symbols,
                            args,
                        ),
                    ),
                    SpecExpression::NamedCall { name, named_args } => spec_call_type(
                        funcs,
                        name,
                        seq![spec_type_of(funcs, symbols, *left)] + spec_named_types_of(
                            funcs,
                            symbols,
                            named_args,
                        ),
                    ),
                    SpecExpression::Variable(name) => spec_call_type(
                        funcs,
                        name,
                        seq![spec_type_of(funcs, symbols, *left)],
                    ),
                    SpecExpression::MethodCall { .. } => match spec_type_of(funcs, symbols, *left) {
                        Err(e) => Err(e),
                        Ok(_) => spec_type_of(funcs, symbols, *right),
                    },
                    _ => match spec_type_of(funcs, symbols, *left) {
                        Err(e) => Err(e),
                        Ok(_) => match spec_type_of(funcs, symbols, *right) {
                            Err(e) => Err(e),
                            Ok(_) => Ok(SpecType::Void),
                        },
                    },
                }
            } else {
                match spec_type_of(funcs, symbols, *left) {
                    Err(e) => Err(e),
                    Ok(lt) => match spec_type_of(funcs, symbols, *right) {
                        Err(e) => Err(e),
                        Ok(rt) => spec_binary_type(op, lt, rt),
                    },
                }
            }
        },
        SpecExpression::UnaryOp { op, expr } => match spec_type_of(funcs, symbols, *expr) {
            Err(e) => Err(e),
            Ok(t) => spec_unary_type(op, t),
        },
        SpecExpression::Call { name, args } => spec_call_type(
            funcs,
            name,
            spec_types_of(funcs, symbols, args),
        ),
        SpecExpression::NamedCall { name, named_args } => spec_call_type(
            funcs,
            name,
            spec_named_types_of(funcs, symbols, named_args),
        ),
        SpecExpression::MemberAccess { object, member } => match spec_type_of(
            funcs,
            symbols,
            *object,
        ) {
            Err(e) => Err(e),
            Ok(_) => Ok(SpecType::F32),
        },
        SpecExpression::MethodCall { object, method, type_args, args } => match spec_type_of(
            funcs,
            symbols,
            *object,
        ) {
            Err(e) => Err(e),
            Ok(_) => match first_error(errors_of(spec_types_of(funcs, symbols, args))) {
                Some(e) => Err(e),
                None => Ok(spec_method_type(method, type_args)),
            },
        },
        SpecExpression::Index { array, index } => match spec_type_of(funcs, symbols, *array) {
            Err(e) => Err(e),
            Ok(t) => match t {
                SpecType::Array(element) => Ok(*element),
                _ => Err(SpecTypeError::IndexNotArray(t)),
            },
        },
        SpecExpression::StructLiteral { .. } => Ok(SpecType::Void),
        SpecExpression::EnumLiteral(_) => Ok(SpecType::I32),
        SpecExpression::UnitSuffix { value, unit } => spec_type_of(funcs, symbols, *value),
    }
}

/// The outcome of checking each expression of a list.
pub open spec fn spec_types_of(
    funcs: Seq<SpecFunctionSig>,
    symbols: SpecSymbols,
    es: Seq<SpecExpression>,
) -> Seq<SpecTyping>
    decreases es,
{
    Seq::new(
        es.len(),
        |i: int|
            if 0 <= i < es.len() {
                spec_type_of(funcs, symbols, es[i])
            } else {
                Ok(SpecType::Void)
            },
    )
}

/// The outcome of checking the value of each named argument of a list.
pub open spec fn spec_named_types_of(
    funcs: Seq<SpecFunctionSig>,
    symbols: SpecSymbols,
    es: Seq<(Seq<char>, SpecExpression)>,
) -> Seq<SpecTyping>
    decreases es,
{
    Seq::new(
        es.len(),
        |i: int|
            if 0 <= i < es.len() {
                spec_type_of(funcs, symbols, es[i].1)
            } else {
                Ok(SpecType::Void)
            },
    )
}

/// The first error among the outcomes, if there is one.
pub fn take_first_error(results: Vec<Result<Type, TypeError>>) -> (r: Option<TypeError>)
    ensures
        (match r {
            Some(e) => Some(e@),
            None => None,
        }) == first_error(errors_of(typings_view(results@))),
{
    let ghost outcomes = errors_of(typings_view(results@));
    let mut rest = results;
    let mut i: usize = 0;
    while i < rest.len()
        invariant
            i <= rest.len(),
            outcomes == errors_of(typings_view(results@)),
            rest@ == results@,
            forall|j: int| 0 <= j < i ==> outcomes[j] is None,
        decreases rest.len() - i,
    {
        if rest[i].is_err() {
            proof {
                lemma_first_error_at(outcomes, i as int);
            }
            let failed = rest.remove(i);
            match failed {
                Err(e) => {
                    return Some(e);
                },
                Ok(_) => {
                    return None;
                },
            }
        }
        i += 1;
    }
    proof {
        lemma_first_error_none(outcomes);
    }
    None
}

/// A type checker: the signatures declared so far.
pub struct TypeChecker {
    functions: Vec<FunctionSig>,
}

impl TypeChecker {
    /// The signatures that calls are checked against, in the order declared.
    pub closed spec fn signatures(&self) -> Seq<SpecFunctionSig> {
        views(self.functions@)
    }

    /// A checker that knows no declaration.
    pub fn new() -> (r: TypeChecker)
        ensures
            r.signatures() == Seq::<SpecFunctionSig>::empty(),
    {
        let r = TypeChecker { functions: Vec::new() };
        assert(r.signatures() =~= Seq::<SpecFunctionSig>::empty());
        r
    }

    /// Whether a value of type `actual` may stand where `expected` is asked for.
    pub fn types_compatible(&self, expected: &Type, actual: &Type) -> (r: bool)
        ensures
            r == spec_compatible(expected@, actual@),
    {
        types_compatible(expected, actual)
    }

    /// The type of an expression, or the first error met in evaluation order.
    pub fn check_expression(&self, expr: &Expression, symbols: &Vec<(String, Type)>) -> (r: Result<
        Type,
        TypeError,
    >)
        ensures
            typing_view(r) == spec_type_of(self.signatures(), symbols_view(symbols@), expr@),
        decreases expr,
    {
        match expr {
            Expression::Literal(l) => Ok(
                match l {
                    Literal::Int(_) => Type::I32,
                    Literal::Float(_) => Type::F32,
                    Literal::Bool(_) => Type::Bool,
                    Literal::String(_) => Type::String,
                },
            ),
            Expression::Variable(n) => match find_symbol(symbols, n.as_str()) {
                Some(i) => Ok(symbols[i].1.clone()),
                None => Err(TypeError::UndefinedSymbol(n.clone())),
            },
            Expression::BinaryOp { op, left, right } => {
                let left_result = self.check_expression(left, symbols);
                match op {
                    BinaryOp::Pipe => match &**right {
                        Expression::Call { name, args } => {
                            let mut results = self.check_all(args, symbols);
                            results.insert(0, left_result);
                            assert(typings_view(results@) =~= seq![typing_view(left_result)]
                                + spec_types_of(
                                self.signatures(),
                                symbols_view(symbols@),
                                exprs_view(*args),
                            ));
                            call_result(&self.functions, name, results)
                        },
                        Expression::NamedCall { name, named_args } => {
                            let mut results = self.check_all_named(named_args, symbols);
                            results.insert(0, left_result);
                            assert(typings_view(results@) =~= seq![typing_view(left_result)]
                                + spec_named_types_of(
                                self.signatures(),
                                symbols_view(symbols@),
                                named_exprs_view(*named_args),
                            ));
                            call_result(&self.functions, name, results)
                        },
                        Expression::Variable(name) => {
                            let mut results: Vec<Result<Type, TypeError>> = Vec::new();
                            results.push(left_result);
                            assert(typings_view(results@) =~= seq![typing_view(left_result)]);
                            call_result(&self.functions, name, results)
                        },
                        Expression::MethodCall { .. } => match left_result {
                            Err(e) => Err(e),
                            Ok(_) => self.check_expression(right, symbols),
                        },
                        _ => match left_result {
                            Err(e) => Err(e),
                            Ok(_) => match self.check_expression(right, symbols) {
                                Err(e) => Err(e),
                                Ok(_) => Ok(Type::Void),
                            },
                        },
                    },
                    _ => match left_result {
                        Err(e) => Err(e),
                        Ok(lt) => match self.check_expression(right, symbols) {
                            Err(e) => Err(e),
                            Ok(rt) => binary_type(*op, lt, rt),
                        },
                    },
                }
            },
            Expression::UnaryOp { op, expr } => match self.check_expression(expr, symbols) {
                Err(e) => Err(e),
                Ok(t) => unary_type(*op, t),
            },
            Expression::Call { name, args } => {
                let results = self.check_all(args, symbols);
                call_result(&self.functions, name, results)
            },
            Expression::NamedCall { name, named_args } => {
                let results = self.check_all_named(named_args, symbols);
                call_result(&self.functions, name, results)
            },
            Expression::MemberAccess { object, member } => match self.check_expression(
                object,
                symbols,
            ) {
                Err(e) => Err(e),
                Ok(_) => Ok(Type::F32),
            },
            Expression::MethodCall { object, method, type_args, args } => {
                match self.check_expression(object, symbols) {
                    Err(e) => Err(e),
                    Ok(_) => {
                        let results = self.check_all(args, symbols);
                        match take_first_error(results) {
                            Some(e) => Err(e),
                            None => Ok(method_type(method, type_args)),
                        }
                    },
                }
            },
            Expression::Index { array, index } => match self.check_expression(array, symbols) {
                Err(e) => Err(e),
                Ok(t) => match t {
                    Type::Array(element) => Ok(*element),
                    other => Err(TypeError::IndexNotArray(other)),
                },
            },
            Expression::StructLiteral { .. } => Ok(Type::Void),
            Expression::EnumLiteral(_) => Ok(Type::I32),
            Expression::UnitSuffix { value, unit } => self.check_expression(value, symbols),
        }
    }

    /// The outcome of checking each expression of a list.
    pub fn check_all(&self, exprs: &Vec<Expression>, symbols: &Vec<(String, Type)>) -> (r: Vec<
        Result<Type, TypeError>,
    >)
        ensures
            typings_view(r@) == spec_types_of(
                self.signatures(),
                symbols_view(symbols@),
                exprs_view(*exprs),
            ),
        decreases exprs,
    {
        let mut out: Vec<Result<Type, TypeError>> = Vec::new();
        let mut i: usize = 0;
        while i < exprs.len()
            invariant
                i <= exprs.len(),
                out.len() == i,
                forall|j: int|
                    0 <= j < i ==> typing_view(out[j]) == spec_type_of(
                        self.signatures(),
                        symbols_view(symbols@),
                        expr_view(exprs[j]),
                    ),
            decreases exprs.len() - i,
        {
            proof {
                vstd::std_specs::vec::axiom_vec_index_decreases(*exprs, i as int);
            }
            let r = self.check_expression(&exprs[i], symbols);
            out.push(r);
            i += 1;
        }
        assert(typings_view(out@) =~= spec_types_of(
            self.signatures(),
            symbols_view(symbols@),
            exprs_view(*exprs),
        ));
        out
    }

    /// The outcome of checking the value of each named argument of a list.
    pub fn check_all_named(
        &self,
        exprs: &Vec<(String, Expression)>,
        symbols: &Vec<(String, Type)>,
    ) -> (r: Vec<Result<Type, TypeError>>)
        ensures
            typings_view(r@) == spec_named_types_of(
                self.signatures(),
                symbols_view(symbols@),
                named_exprs_view(*exprs),
            ),
        decreases exprs,
    {
        let mut out: Vec<Result<Type, TypeError>> = Vec::new();
        let mut i: usize = 0;
        while i < exprs.len()
            invariant
                i <= exprs.len(),
                out.len() == i,
                forall|j: int|
                    0 <= j < i ==> typing_view(out[j]) == spec_type_of(
                        self.signatures(),
                        symbols_view(symbols@),
                        expr_view(exprs[j].1),
                    ),
            decreases exprs.len() - i,
        {
            proof {
                vstd::std_specs::vec::axiom_vec_index_decreases(*exprs, i as int);
            }
            let r = self.check_expression(&exprs[i].1, symbols);
            out.push(r);
            i += 1;
        }
        assert(typings_view(out@) =~= spec_named_types_of(
            self.signatures(),
            symbols_view(symbols@),
            named_exprs_view(*exprs),
        ));
        out
    }
}

fn op_is_arithmetic(op: BinaryOp) -> (r: bool)
    ensures
        r == is_arithmetic(op),
{
    match op {
        BinaryOp::Add => true,
        BinaryOp::Sub => true,
        BinaryOp::Mul => true,
        BinaryOp::Div => true,
        BinaryOp::Mod => true,
        BinaryOp::BitwiseOr => true,
        _ => false,
    }
}

fn op_is_comparison(op: BinaryOp) -> (r: bool)
    ensures
        r == is_comparison(op),
{
    match op {
        BinaryOp::Eq => true,
        BinaryOp::Ne => true,
        BinaryOp::Lt => true,
        BinaryOp::Le => true,
        BinaryOp::Gt => true,
        BinaryOp::Ge => true,
        _ => false,
    }
}

fn type_is_numeric(t: &Type) -> (r: bool)
    ensures
        r == is_numeric(t@),
{
    match t {
        Type::I32 => true,
        Type::I64 => true,
        Type::F32 => true,
        Type::F64 => true,
        _ => false,
    }
}

fn type_is_bool(t: &Type) -> (r: bool)
    ensures
        r == (t@ is Bool),
{
    match t {
        Type::Bool => true,
        _ => false,
    }
}

/// The type of `left op right` for an operator other than the pipe.
pub fn binary_type(op: BinaryOp, left: Type, right: Type) -> (r: Result<Type, TypeError>)
    ensures
        typing_view(r) == spec_binary_type(op, left@, right@),
{
    if op_is_arithmetic(op) {
        if type_is_numeric(&left) && type_is_numeric(&right) {
            Ok(left)
        } else {
            Err(TypeError::NonNumericOperands { op, left, right })
        }
    } else if op_is_comparison(op) {
        Ok(Type::Bool)
    } else if type_is_bool(&left) && type_is_bool(&right) {
        Ok(Type::Bool)
    } else {
        Err(TypeError::NonBoolOperands { op, left, right })
    }
}

/// The type of `op operand`.
pub fn unary_type(op: UnaryOp, operand: Type) -> (r: Result<Type, TypeError>)
    ensures
        typing_view(r) == spec_unary_type(op, operand@),
{
    match op {
        UnaryOp::Neg => if type_is_numeric(&operand) {
            Ok(operand)
        } else {
            Err(TypeError::NegationNotNumeric(operand))
        },
        UnaryOp::Not => if type_is_bool(&operand) {
            Ok(Type::Bool)
        } else {
            Err(TypeError::NotOperandNotBool(operand))
        },
    }
}

/// The type of a method call.
pub fn method_type(method: &String, type_args: &Option<Vec<Type>>) -> (r: Type)
    ensures
        r@ == spec_method_type(
            method@,
            match type_args {
                Some(ts) => Some(types_view(*ts)),
                None => None,
            },
        ),
{
    match type_args {
        Some(ts) => {
            assert(types_view(*ts).len() == ts.len());
            if str_equal(method.as_str(), "alloc_array") && ts.len() == 1 {
                assert(types_view(*ts)[0] == ts[0]@);
                Type::Array(Box::new(ts[0].clone()))
            } else {
                Type::Void
            }
        },
        None => Type::Void,
    }
}

/// Model of the outcome of checking a statement: the symbols in scope after it.
pub type SpecScope = Result<SpecSymbols, SpecTypeError>;

/// The model of the outcome of checking a statement.
pub open spec fn scope_view(r: Result<Vec<(String, Type)>, TypeError>) -> SpecScope {
    match r {
        Ok(symbols) => Ok(symbols_view(symbols@)),
        Err(e) => Err(e@),
    }
}

/// The symbols in scope after a statement, or the first error met in it.
///
/// A `let` binds its name to the declared type, or to the value's type where
/// none is declared. Blocks open no scope of their own: what a block binds
/// stays bound after it.
pub open spec fn spec_check_statement(
    funcs: Seq<SpecFunctionSig>,
    symbols: SpecSymbols,
    s: SpecStatement,
) -> SpecScope
    decreases s, 0nat,
{
    match s {
        SpecStatement::Let { name, ty, value } => match spec_type_of(funcs, symbols, value) {
            Err(e) => Err(e),
            Ok(vt) => match ty {
                Some(declared) => if spec_compatible(declared, vt) {
                    Ok(symbols.push((name, declared)))
                } else {
                    Err(SpecTypeError::LetTypeMismatch { name, expected: declared, actual: vt })
                },
                None => Ok(symbols.push((name, vt))),
            },
        },
        SpecStatement::Assign { target, value } => match spec_type_of(funcs, symbols, target) {
            Err(e) => Err(e),
            Ok(tt) => match spec_type_of(funcs, symbols, value) {
                Err(e) => Err(e),
                Ok(vt) => if spec_compatible(tt, vt) {
                    Ok(symbols)
                } else {
                    Err(SpecTypeError::AssignmentTypeMismatch { expected: tt, actual: vt })
                },
            },
        },
        SpecStatement::If { condition, then_block, else_block } => match spec_type_of(
            funcs,
            symbols,
            condition,
        ) {
            Err(e) => Err(e),
            Ok(ct) => if !(ct is Bool) {
                Err(SpecTypeError::ConditionNotBool { in_loop: false, actual: ct })
            } else {
                match spec_check_block(funcs, symbols, then_block, then_block.len()) {
                    Err(e) => Err(e),
                    Ok(after_then) => match else_block {
                        Some(b) => spec_check_block(funcs, after_then, b, b.len()),
                        None => Ok(after_then),
                    },
                }
            },
        },
        SpecStatement::While { condition, body } => match spec_type_of(funcs, symbols, condition) {
            Err(e) => Err(e),
            Ok(ct) => if !(ct is Bool) {
                Err(SpecTypeError::ConditionNotBool { in_loop: true, actual: ct })
            } else {
                spec_check_block(funcs, symbols, body, body.len())
            },
        },
        SpecStatement::Loop { body } => spec_check_block(funcs, symbols, body, body.len()),
        SpecStatement::Return(value) => match value {
            Some(e) => match spec_type_of(funcs, symbols, e) {
                Err(x) => Err(x),
                Ok(_) => Ok(symbols),
            },
            None => Ok(symbols),
        },
        SpecStatement::Expression(e) => match spec_type_of(funcs, symbols, e) {
            Err(x) => Err(x),
            Ok(_) => Ok(symbols),
        },
        SpecStatement::Block(b) => spec_check_block(funcs, symbols, b, b.len()),
    }
}

/// The symbols in scope after the first `n` statements of a list, each checked
/// in the scope that the ones before it left; or the first error.
pub open spec fn spec_check_block(
    funcs: Seq<SpecFunctionSig>,
    symbols: SpecSymbols,
    ss: Seq<SpecStatement>,
    n: nat,
) -> SpecScope
    decreases ss, n,
{
    if n == 0 || n > ss.len() {
        Ok(symbols)
    } else {
        match spec_check_block(funcs, symbols, ss, (n - 1) as nat) {
            Err(e) => Err(e),
            Ok(before) => spec_check_statement(funcs, before, ss[n - 1]),
        }
    }
}

/// The scope that a function's body starts in: its parameters, in order.
pub open spec fn param_symbols(params: Seq<SpecField>) -> SpecSymbols {
    params.map_values(|p: SpecField| (p.name, p.ty))
}

/// The first error in a function's body, if there is one.
pub open spec fn spec_check_function(funcs: Seq<SpecFunctionSig>, f: SpecFunctionDef) -> Option<
    SpecTypeError,
> {
    match spec_check_block(funcs, param_symbols(f.params), f.body, f.body.len()) {
        Ok(_) => None,
        Err(e) => Some(e),
    }
}

/// The types of a list of parameters.
pub open spec fn param_types(params: Seq<SpecField>) -> Seq<SpecType> {
    params.map_values(|p: SpecField| p.ty)
}

/// The signature under which a function is called.
pub open spec fn signature_of(f: SpecFunctionDef) -> SpecFunctionSig {
    SpecFunctionSig { name: f.name, params: param_types(f.params), return_type: f.return_type }
}

/// The signature under which an extern function is called.
pub open spec fn extern_signature_of(f: SpecExternFunctionDef) -> SpecFunctionSig {
    SpecFunctionSig { name: f.name, params: param_types(f.params), return_type: f.return_type }
}

/// What each field of a structure-of-arrays declaration contributes: an error
/// naming it where its type is not an array.
pub open spec fn non_array_outcomes(
    declaration: Seq<char>,
    component: bool,
    fields: Seq<SpecField>,
) -> Seq<Option<SpecTypeError>> {
    Seq::new(
        fields.len(),
        |i: int|
            if fields[i].ty is Array {
                None
            } else {
                Some(
                    SpecTypeError::NonArrayField { declaration, field: fields[i].name, component },
                )
            },
    )
}

/// The error of a structure-of-arrays declaration: that of its first field
/// that is not an array, if there is one.
pub open spec fn spec_check_soa(record: SpecRecord, component: bool) -> Option<SpecTypeError> {
    first_error(non_array_outcomes(record.name, component, record.fields))
}

/// A structure-of-arrays declaration is rejected exactly when one of its
/// fields is not of an array type.
pub proof fn lemma_soa_rejected_iff_non_array_field(record: SpecRecord, component: bool)
    ensures
        spec_check_soa(record, component) is Some <==> exists|i: int|
            0 <= i < record.fields.len() && !(#[trigger] record.fields[i].ty is Array),
{
    let outcomes = non_array_outcomes(record.name, component, record.fields);
    lemma_first_error_iff(outcomes);
    if spec_check_soa(record, component) is Some {
        let j = choose|j: int| 0 <= j < outcomes.len() && outcomes[j] is Some;
        assert(!(record.fields[j].ty is Array));
    }
    if exists|i: int| 0 <= i < record.fields.len() && !(#[trigger] record.fields[i].ty is Array) {
        let i = choose|i: int|
            0 <= i < record.fields.len() && !(#[trigger] record.fields[i].ty is Array);
        assert(outcomes[i] is Some);
    }
}

/// The signatures after an item is registered, or the item's own error: a
/// structure-of-arrays declaration with a field that is not an array, or a
/// shader with an empty path. Functions, extern functions and the functions of
/// a system add their signatures.
pub open spec fn spec_register_item(funcs: Seq<SpecFunctionSig>, item: SpecItem) -> Result<
    Seq<SpecFunctionSig>,
    SpecTypeError,
> {
    match item {
        SpecItem::MeshSOA(d) => match spec_check_soa(d, false) {
            Some(e) => Err(e),
            None => Ok(funcs),
        },
        SpecItem::ComponentSOA(d) => match spec_check_soa(d, true) {
            Some(e) => Err(e),
            None => Ok(funcs),
        },
        SpecItem::Shader(d) => if d.path.len() == 0 {
            Err(SpecTypeError::EmptyShaderPath(d.name))
        } else {
            Ok(funcs)
        },
        SpecItem::Function(f) => Ok(funcs.push(signature_of(f))),
        SpecItem::ExternFunction(f) => Ok(funcs.push(extern_signature_of(f))),
        SpecItem::System(s) => Ok(funcs + s.functions.map_values(|f: SpecFunctionDef| signature_of(f))),
        _ => Ok(funcs),
    }
}

/// The signatures after the first `n` items are registered in order, or the
/// error of the first item that has one.
pub open spec fn spec_register(funcs: Seq<SpecFunctionSig>, items: Seq<SpecItem>, n: nat) -> Result<
    Seq<SpecFunctionSig>,
    SpecTypeError,
>
    decreases n,
{
    if n == 0 || n > items.len() {
        Ok(funcs)
    } else {
        match spec_register(funcs, items, (n - 1) as nat) {
            Err(e) => Err(e),
            Ok(before) => spec_register_item(before, items[n - 1]),
        }
    }
}

/// The first error in the bodies of the functions of a system, if there is one.
pub open spec fn spec_check_functions(funcs: Seq<SpecFunctionSig>, fs: Seq<SpecFunctionDef>) -> Option<
    SpecTypeError,
> {
    first_error(fs.map_values(|f: SpecFunctionDef| spec_check_function(funcs, f)))
}

/// The first error in the function bodies of an item, if there is one.
pub open spec fn spec_check_item(funcs: Seq<SpecFunctionSig>, item: SpecItem) -> Option<
    SpecTypeError,
> {
    match item {
        SpecItem::Function(f) => spec_check_function(funcs, f),
        SpecItem::System(s) => spec_check_functions(funcs, s.functions),
        _ => None,
    }
}

/// The first error in the function bodies of a program, if there is one.
pub open spec fn spec_check_bodies(funcs: Seq<SpecFunctionSig>, items: Seq<SpecItem>) -> Option<
    SpecTypeError,
> {
    first_error(items.map_values(|item: SpecItem| spec_check_item(funcs, item)))
}

/// The verdict on a program, for a checker that knows `funcs` already: the
/// error of the first declaration that has one; else, with every declaration
/// registered, the first error in a function body; else success.
pub open spec fn spec_check_program(funcs: Seq<SpecFunctionSig>, items: Seq<SpecItem>) -> Result<
    (),
    SpecTypeError,
> {
    match spec_register(funcs, items, items.len()) {
        Err(e) => Err(e),
        Ok(registered) => match spec_check_bodies(registered, items) {
            Some(e) => Err(e),
            None => Ok(()),
        },
    }
}

/// The signatures that a checker knows after a program: those it knew, and the
/// program's where every declaration of the program was accepted.
pub open spec fn spec_signatures_after(funcs: Seq<SpecFunctionSig>, items: Seq<SpecItem>) -> Seq<
    SpecFunctionSig,
> {
    match spec_register(funcs, items, items.len()) {
        Err(_) => funcs,
        Ok(registered) => registered,
    }
}

/// The model of a verdict.
pub open spec fn verdict_view(r: Result<(), TypeError>) -> Result<(), SpecTypeError> {
    match r {
        Ok(_) => Ok(()),
        Err(e) => Err(e@),
    }
}

/// A program that is one structure-of-arrays declaration is rejected exactly
/// when one of the declaration's fields is not of an array type.
pub proof fn lemma_soa_program_rejected_iff(
    funcs: Seq<SpecFunctionSig>,
    record: SpecRecord,
    component: bool,
)
    ensures
        spec_check_program(
            funcs,
            seq![
                if component {
                    SpecItem::ComponentSOA(record)
                } else {
                    SpecItem::MeshSOA(record)
                },
            ],
        ) is Err <==> exists|i: int|
            0 <= i < record.fields.len() && !(#[trigger] record.fields[i].ty is Array),
{
    let item = if component {
        SpecItem::ComponentSOA(record)
    } else {
        SpecItem::MeshSOA(record)
    };
    let items = seq![item];
    lemma_soa_rejected_iff_non_array_field(record, component);
    reveal_with_fuel(spec_register, 2);
    assert(spec_register(funcs, items, 0) == Ok::<Seq<SpecFunctionSig>, SpecTypeError>(funcs));
    assert(spec_register(funcs, items, 1) == spec_register_item(funcs, item));
    if spec_check_soa(record, component) is None {
        let outcomes = items.map_values(|it: SpecItem| spec_check_item(funcs, it));
        assert(outcomes[0] is None);
        lemma_first_error_none(outcomes);
    }
}

/// The error of a structure-of-arrays declaration, if it has one.
pub fn check_soa_fields(declaration: &String, fields: &Vec<Field>, component: bool) -> (r: Result<
    (),
    TypeError,
>)
    ensures
        verdict_view(r) == (match spec_check_soa(
            SpecRecord { name: declaration@, fields: views(fields@) },
            component,
        ) {
            Some(e) => Err::<(), SpecTypeError>(e),
            None => Ok(()),
        }),
{
    let ghost outcomes = non_array_outcomes(declaration@, component, views(fields@));
    let mut i: usize = 0;
    while i < fields.len()
        invariant
            i <= fields.len(),
            outcomes == non_array_outcomes(declaration@, component, views(fields@)),
            forall|j: int| 0 <= j < i ==> outcomes[j] is None,
        decreases fields.len() - i,
    {
        assert(views(fields@)[i as int] == fields[i as int]@);
        if !fields[i].ty.is_array() {
            proof {
                lemma_first_error_at(outcomes, i as int);
            }
            return Err(
                TypeError::NonArrayField {
                    declaration: declaration.clone(),
                    field: fields[i].name.clone(),
                    component,
                },
            );
        }
        i += 1;
    }
    proof {
        lemma_first_error_none(outcomes);
    }
    Ok(())
}

/// The types of a list of parameters.
fn types_of_params(params: &Vec<Param>) -> (r: Vec<Type>)
    ensures
        types_view(r) == param_types(views(params@)),
{
    let mut out: Vec<Type> = Vec::new();
    let mut i: usize = 0;
    while i < params.len()
        invariant
            i <= params.len(),
            out.len() == i,
            forall|j: int| 0 <= j < i ==> out[j]@ == params[j].ty@,
        decreases params.len() - i,
    {
        out.push(params[i].ty.clone());
        i += 1;
    }
    assert(types_view(out) =~= param_types(views(params@)));
    out
}

/// The signature under which a function is called.
pub fn signature(f: &FunctionDef) -> (r: FunctionSig)
    ensures
        r@ == signature_of(f@),
{
    FunctionSig {
        name: f.name.clone(),
        params: types_of_params(&f.params),
        return_type: f.return_type.clone(),
    }
}

/// The signature under which an extern function is called.
pub fn extern_signature(f: &ExternFunctionDef) -> (r: FunctionSig)
    ensures
        r@ == extern_signature_of(f@),
{
    FunctionSig {
        name: f.name.clone(),
        params: types_of_params(&f.params),
        return_type: f.return_type.clone(),
    }
}

impl TypeChecker {
    /// Checks a statement in the scope `symbols` and returns the scope after it.
    pub fn check_statement(&self, stmt: &Statement, symbols: Vec<(String, Type)>) -> (r: Result<
        Vec<(String, Type)>,
        TypeError,
    >)
        ensures
            scope_view(r) == spec_check_statement(
                self.signatures(),
                symbols_view(symbols@),
                stmt@,
            ),
        decreases stmt, 0nat,
    {
        let mut scope = symbols;
        match stmt {
            Statement::Let { name, ty, value } => match self.check_expression(value, &scope) {
                Err(e) => Err(e),
                Ok(vt) => match ty {
                    Some(declared) => if types_compatible(declared, &vt) {
                        scope.push((name.clone(), declared.clone()));
                        assert(symbols_view(scope@) =~= symbols_view(symbols@).push(
                            (name@, declared@),
                        ));
                        Ok(scope)
                    } else {
                        Err(
                            TypeError::LetTypeMismatch {
                                name: name.clone(),
                                expected: declared.clone(),
                                actual: vt,
                            },
                        )
                    },
                    None => {
                        let ghost vt_view = vt@;
                        scope.push((name.clone(), vt));
                        assert(symbols_view(scope@) =~= symbols_view(symbols@).push(
                            (name@, vt_view),
                        ));
                        Ok(scope)
                    },
                },
            },
            Statement::Assign { target, value } => match self.check_expression(target, &scope) {
                Err(e) => Err(e),
                Ok(tt) => match self.check_expression(value, &scope) {
                    Err(e) => Err(e),
                    Ok(vt) => if types_compatible(&tt, &vt) {
                        Ok(scope)
                    } else {
                        Err(TypeError::AssignmentTypeMismatch { expected: tt, actual: vt })
                    },
                },
            },
            Statement::If { condition, then_block, else_block } => match self.check_expression(
                condition,
                &scope,
            ) {
                Err(e) => Err(e),
                Ok(ct) => if !type_is_bool(&ct) {
                    Err(TypeError::ConditionNotBool { in_loop: false, actual: ct })
                } else {
                    match self.check_block(then_block, scope) {
                        Err(e) => Err(e),
                        Ok(after_then) => match else_block {
                            Some(b) => self.check_block(b, after_then),
                            None => Ok(after_then),
                        },
                    }
                },
            },
            Statement::While { condition, body } => match self.check_expression(condition, &scope) {
                Err(e) => Err(e),
                Ok(ct) => if !type_is_bool(&ct) {
                    Err(TypeError::ConditionNotBool { in_loop: true, actual: ct })
                } else {
                    self.check_block(body, scope)
                },
            },
            Statement::Loop { body } => self.check_block(body, scope),
            Statement::Return(value) => match value {
                Some(e) => match self.check_expression(e, &scope) {
                    Err(x) => Err(x),
                    Ok(_) => Ok(scope),
                },
                None => Ok(scope),
            },
            Statement::Expression(e) => match self.check_expression(e, &scope) {
                Err(x) => Err(x),
                Ok(_) => Ok(scope),
            },
            Statement::Block(b) => self.check_block(b, scope),
        }
    }

    /// Checks the statements of a list in order, each in the scope that the
    /// ones before it left, and returns the scope after the last.
    pub fn check_block(&self, stmts: &Vec<Statement>, symbols: Vec<(String, Type)>) -> (r: Result<
        Vec<(String, Type)>,
        TypeError,
    >)
        ensures
            scope_view(r) == spec_check_block(
                self.signatures(),
                symbols_view(symbols@),
                stmts_view(*stmts),
                stmts.len() as nat,
            ),
        decreases stmts, stmts.len(),
    {
        let mut scope = symbols;
        let mut i: usize = 0;
        while i < stmts.len()
            invariant
                i <= stmts.len(),
                stmts_view(*stmts).len() == stmts.len(),
                spec_check_block(
                    self.signatures(),
                    symbols_view(symbols@),
                    stmts_view(*stmts),
                    i as nat,
                ) == Ok::<SpecSymbols, SpecTypeError>(symbols_view(scope@)),
            decreases stmts.len() - i,
        {
            proof {
                vstd::std_specs::vec::axiom_vec_index_decreases(*stmts, i as int);
                assert(stmts_view(*stmts)[i as int] == stmt_view(stmts[i as int]));
            }
            match self.check_statement(&stmts[i], scope) {
                Err(e) => {
                    proof {
                        lemma_block_error_stays(
                            self.signatures(),
                            symbols_view(symbols@),
                            stmts_view(*stmts),
                            (i + 1) as nat,
                            stmts.len() as nat,
                        );
                    }
                    return Err(e);
                },
                Ok(next) => {
                    scope = next;
                },
            }
            i += 1;
        }
        Ok(scope)
    }

    /// The first error in a function's body, if there is one. The body starts
    /// in a scope that holds the parameters and nothing else.
    pub fn check_function(&self, func: &FunctionDef) -> (r: Result<(), TypeError>)
        ensures
            verdict_view(r) == (match spec_check_function(self.signatures(), func@) {
                Some(e) => Err::<(), SpecTypeError>(e),
                None => Ok(()),
            }),
    {
        let mut scope: Vec<(String, Type)> = Vec::new();
        let mut i: usize = 0;
        while i < func.params.len()
            invariant
                i <= func.params.len(),
                scope.len() == i,
                forall|j: int|
                    0 <= j < i ==> scope[j].0@ == func.params[j].name@ && scope[j].1@
                        == func.params[j].ty@,
            decreases func.params.len() - i,
        {
            scope.push((func.params[i].name.clone(), func.params[i].ty.clone()));
            i += 1;
        }
        assert(symbols_view(scope@) =~= param_symbols(func@.params));
        match self.check_block(&func.body, scope) {
            Ok(_) => Ok(()),
            Err(e) => Err(e),
        }
    }

    /// The first error in the bodies of a list of functions, if there is one.
    fn check_functions(&self, functions: &Vec<FunctionDef>) -> (r: Result<(), TypeError>)
        ensures
            verdict_view(r) == (match spec_check_functions(self.signatures(), views(functions@)) {
                Some(e) => Err::<(), SpecTypeError>(e),
                None => Ok(()),
            }),
    {
        let ghost outcomes = views(functions@).map_values(
            |f: SpecFunctionDef| spec_check_function(self.signatures(), f),
        );
        let mut i: usize = 0;
        while i < functions.len()
            invariant
                i <= functions.len(),
                outcomes == views(functions@).map_values(
                    |f: SpecFunctionDef| spec_check_function(self.signatures(), f),
                ),
                forall|j: int| 0 <= j < i ==> outcomes[j] is None,
            decreases functions.len() - i,
        {
            assert(views(functions@)[i as int] == functions[i as int]@);
            match self.check_function(&functions[i]) {
                Err(e) => {
                    proof {
                        lemma_first_error_at(outcomes, i as int);
                    }
                    return Err(e);
                },
                Ok(_) => {},
            }
            i += 1;
        }
        proof {
            lemma_first_error_none(outcomes);
        }
        Ok(())
    }

    /// Registers an item's declarations, or returns the item's own error.
    fn register_item(&mut self, item: &Item) -> (r: Result<(), TypeError>)
        ensures
            match spec_register_item(old(self).signatures(), item@) {
                Err(e) => verdict_view(r) == Err::<(), SpecTypeError>(e) && final(self).signatures()
                    == old(self).signatures(),
                Ok(registered) => r is Ok && final(self).signatures() == registered,
            },
            old(self).functions@.len() <= final(self).functions@.len(),
            final(self).functions@.subrange(0, old(self).functions@.len() as int) == old(
                self,
            ).functions@,
    {
        assert(self.functions@.subrange(0, self.functions@.len() as int) =~= self.functions@);
        match item {
            Item::MeshSOA(d) => check_soa_fields(&d.name, &d.fields, false),
            Item::ComponentSOA(d) => check_soa_fields(&d.name, &d.fields, true),
            Item::Shader(d) => {
                if d.path.as_str().is_empty() {
                    Err(TypeError::EmptyShaderPath(d.name.clone()))
                } else {
                    Ok(())
                }
            },
            Item::Function(f) => {
                self.functions.push(signature(f));
                assert(self.signatures() =~= old(self).signatures().push(signature_of(f@)));
                assert(self.functions@.subrange(0, old(self).functions@.len() as int) =~= old(
                    self,
                ).functions@);
                Ok(())
            },
            Item::ExternFunction(f) => {
                self.functions.push(extern_signature(f));
                assert(self.signatures() =~= old(self).signatures().push(
                    extern_signature_of(f@),
                ));
                assert(self.functions@.subrange(0, old(self).functions@.len() as int) =~= old(
                    self,
                ).functions@);
                Ok(())
            },
            Item::System(sys) => {
                let ghost added = views(sys.functions@).map_values(
                    |f: SpecFunctionDef| signature_of(f),
                );
                let mut i: usize = 0;
                while i < sys.functions.len()
                    invariant
                        i <= sys.functions.len(),
                        added == views(sys.functions@).map_values(
                            |f: SpecFunctionDef| signature_of(f),
                        ),
                        self.signatures() == old(self).signatures() + added.take(i as int),
                        old(self).functions@.len() <= self.functions@.len(),
                        self.functions@.subrange(0, old(self).functions@.len() as int) == old(
                            self,
                        ).functions@,
                    decreases sys.functions.len() - i,
                {
                    assert(views(sys.functions@)[i as int] == sys.functions[i as int]@);
                    let ghost so_far = self.signatures();
                    self.functions.push(signature(&sys.functions[i]));
                    assert(added.take(i + 1) =~= added.take(i as int).push(
                        signature_of(sys.functions[i as int]@),
                    ));
                    assert(self.signatures() =~= so_far.push(signature_of(sys.functions[i as int]@)));
                    assert(self.signatures() =~= old(self).signatures() + added.take(i + 1));
                    assert(self.functions@.subrange(0, old(self).functions@.len() as int) =~= old(
                        self,
                    ).functions@);
                    i += 1;
                }
                assert(added.take(sys.functions.len() as int) =~= added);
                Ok(())
            },
            _ => Ok(()),
        }
    }

    /// Checks a program: first every declaration, in order, then every
    /// function body, in order. Returns the first error.
    ///
    /// The checker keeps what it knew before; the program's signatures are
    /// added where all of its declarations were accepted.
    pub fn check(&mut self, program: &Program) -> (r: Result<(), TypeError>)
        ensures
            verdict_view(r) == spec_check_program(old(self).signatures(), program@),
            final(self).signatures() == spec_signatures_after(old(self).signatures(), program@),
    {
        let known: usize = self.functions.len();
        let mut i: usize = 0;
        while i < program.items.len()
            invariant
                i <= program.items.len(),
                known == old(self).functions.len(),
                known <= self.functions.len(),
                self.functions@.subrange(0, known as int) == old(self).functions@,
                spec_register(old(self).signatures(), program@, i as nat) == Ok::<
                    Seq<SpecFunctionSig>,
                    SpecTypeError,
                >(self.signatures()),
            decreases program.items.len() - i,
        {
            assert(program@[i as int] == program.items[i as int]@);
            let ghost before = self.functions@;
            match self.register_item(&program.items[i]) {
                Err(e) => {
                    proof {
                        lemma_register_error_stays(
                            old(self).signatures(),
                            program@,
                            (i + 1) as nat,
                            program@.len(),
                        );
                    }
                    assert(self.functions@.subrange(0, known as int) =~= before.subrange(
                        0,
                        known as int,
                    ));
                    self.functions.truncate(known);
                    assert(self.signatures() =~= old(self).signatures());
                    return Err(e);
                },
                Ok(_) => {
                    assert(self.functions@.subrange(0, known as int) =~= before.subrange(
                        0,
                        known as int,
                    ));
                },
            }
            i += 1;
        }
        let ghost outcomes = program@.map_values(
            |item: SpecItem| spec_check_item(self.signatures(), item),
        );
        let mut k: usize = 0;
        while k < program.items.len()
            invariant
                k <= program.items.len(),
                outcomes == program@.map_values(
                    |item: SpecItem| spec_check_item(self.signatures(), item),
                ),
                spec_register(old(self).signatures(), program@, program@.len()) == Ok::<
                    Seq<SpecFunctionSig>,
                    SpecTypeError,
                >(self.signatures()),
                forall|j: int| 0 <= j < k ==> outcomes[j] is None,
            decreases program.items.len() - k,
        {
            assert(program@[k as int] == program.items[k as int]@);
            let verdict = match &program.items[k] {
                Item::Function(f) => self.check_function(f),
                Item::System(sys) => self.check_functions(&sys.functions),
                _ => Ok(()),
            };
            match verdict {
                Err(e) => {
                    proof {
                        lemma_first_error_at(outcomes, k as int);
                    }
                    return Err(e);
                },
                Ok(_) => {},
            }
            k += 1;
        }
        proof {
            lemma_first_error_none(outcomes);
        }
        Ok(())
    }
}

/// Once a prefix of a block fails, every longer prefix fails with the same error.
pub proof fn lemma_block_error_stays(
    funcs: Seq<SpecFunctionSig>,
    symbols: SpecSymbols,
    ss: Seq<SpecStatement>,
    n: nat,
    m: nat,
)
    requires
        n <= m <= ss.len(),
        spec_check_block(funcs, symbols, ss, n) is Err,
    ensures
        spec_check_block(funcs, symbols, ss, m) == spec_check_block(funcs, symbols, ss, n),
    decreases m,
{
    if n < m {
        lemma_block_error_stays(funcs, symbols, ss, n, (m - 1) as nat);
    }
}

/// Once a prefix of a program fails to register, every longer prefix fails
/// with the same error.
pub proof fn lemma_register_error_stays(
    funcs: Seq<SpecFunctionSig>,
    items: Seq<SpecItem>,
    n: nat,
    m: nat,
)
    requires
        n <= m <= items.len(),
        spec_register(funcs, items, n) is Err,
    ensures
        spec_register(funcs, items, m) == spec_register(funcs, items, n),
    decreases m,
{
    if n < m {
        lemma_register_error_stays(funcs, items, n, (m - 1) as nat);
    }
}

} // verus!
