//! The generated program as a whole: its sections in order, and the first
//! fault that keeps it from being generated.

use crate::ast::{
    types_view, views, clone_types, FunctionDef, Item, Program, ShaderDef, SpecField,
    SpecFunctionDef, SpecItem, SpecShaderDef, SpecType, Type,
};
use crate::codegen::arena::spec_frame_arena_text;
use crate::codegen::expressions::{
    fault_view, generated_view, or_else, GenerationError, SpecGenerationError,
};
use crate::codegen::headers::{header_text, spec_header_text, spec_program_headers};
use crate::codegen::queries::spec_query_type_text;
use crate::codegen::records::{
    field_defaults_fault, record_text, spec_alias_text, spec_component_soa_comment,
    spec_extern_text, spec_mesh_soa_comment, spec_record_text,
};
use crate::codegen::schedule::{is_scheduler_text, spec_system_functions};
use crate::codegen::shaders::{spec_generate_shader, ShaderBuild, SpecShaderBuild};
use crate::codegen::statements::{
    defaults_fault, spec_defaults_fault, spec_forward_text, spec_function_fault,
    spec_function_text, spec_member_forward_text,
};
use crate::codegen::types::{query_parts, spec_query_parts};
use crate::codegen::CodeGenerator;
use crate::error::{first_error, lemma_first_error_at, lemma_first_error_none};
use crate::text::{lemma_concat_map_step, lemma_concat_push, spec_concat, str_equal, texts};
use vstd::prelude::*;

verus! {

/// The text of an item in the section of type aliases.
pub open spec fn spec_alias_of(item: SpecItem) -> Seq<char> {
    match item {
        SpecItem::TypeAlias(a) => spec_alias_text(a),
        _ => Seq::empty(),
    }
}

/// The text of an item in the section of data declarations.
pub open spec fn spec_record_of(item: SpecItem) -> Seq<char> {
    match item {
        SpecItem::Struct(d) => spec_record_text(Seq::empty(), d),
        SpecItem::Component(d) => spec_record_text(Seq::empty(), d),
        SpecItem::MeshSOA(d) => spec_record_text(spec_mesh_soa_comment(), d),
        SpecItem::ComponentSOA(d) => spec_record_text(spec_component_soa_comment(), d),
        _ => Seq::empty(),
    }
}

/// The first fault of an item in the section of data declarations.
pub open spec fn spec_record_fault_of(item: SpecItem) -> Option<SpecGenerationError> {
    match item {
        SpecItem::Struct(d) => spec_defaults_fault(d.fields),
        SpecItem::Component(d) => spec_defaults_fault(d.fields),
        SpecItem::MeshSOA(d) => spec_defaults_fault(d.fields),
        SpecItem::ComponentSOA(d) => spec_defaults_fault(d.fields),
        _ => None,
    }
}

/// The text of an item in the section of extern declarations.
pub open spec fn spec_extern_of(item: SpecItem) -> Seq<char> {
    match item {
        SpecItem::ExternFunction(f) => spec_extern_text(f),
        _ => Seq::empty(),
    }
}

/// The first fault of an item in the section of extern declarations.
pub open spec fn spec_extern_fault_of(item: SpecItem) -> Option<SpecGenerationError> {
    match item {
        SpecItem::ExternFunction(f) => spec_defaults_fault(f.params),
        _ => None,
    }
}

/// The text of an item in the section of forward declarations.
pub open spec fn spec_forwards_of(item: SpecItem) -> Seq<char> {
    match item {
        SpecItem::Function(f) => spec_forward_text(f),
        SpecItem::System(s) => spec_concat(
            s.functions.map_values(|f: SpecFunctionDef| spec_member_forward_text(f)),
        ),
        _ => Seq::empty(),
    }
}

/// The text of an item in the section of function definitions.
pub open spec fn spec_definitions_of(item: SpecItem) -> Seq<char> {
    match item {
        SpecItem::Function(f) => spec_function_text(f),
        SpecItem::System(s) => spec_concat(
            s.functions.map_values(|f: SpecFunctionDef| spec_function_text(f)),
        ),
        _ => Seq::empty(),
    }
}

/// The first fault of an item in the section of function definitions.
pub open spec fn spec_definitions_fault_of(item: SpecItem) -> Option<SpecGenerationError> {
    match item {
        SpecItem::Function(f) => spec_function_fault(f),
        SpecItem::System(s) => first_error(
            s.functions.map_values(|f: SpecFunctionDef| spec_function_fault(f)),
        ),
        _ => None,
    }
}

/// The shader declarations among the first `n` items, in order.
pub open spec fn spec_shaders(items: Seq<SpecItem>, n: nat) -> Seq<SpecShaderDef>
    decreases n,
{
    if n == 0 || n > items.len() {
        Seq::empty()
    } else {
        match items[n - 1] {
            SpecItem::Shader(s) => spec_shaders(items, (n - 1) as nat).push(s),
            _ => spec_shaders(items, (n - 1) as nat),
        }
    }
}

/// What comes of shader `k`: what its build gives, or an error that names it
/// where no build was handed in for it.
pub open spec fn spec_shader_outcome(
    shaders: Seq<SpecShaderDef>,
    builds: Seq<SpecShaderBuild>,
    k: int,
) -> Result<Seq<char>, SpecGenerationError> {
    if k < builds.len() {
        spec_generate_shader(shaders[k], builds[k])
    } else {
        Err(SpecGenerationError::ShaderNotCompiled(shaders[k].name))
    }
}

/// The fault of each shader, if it has one.
pub open spec fn spec_shader_faults(shaders: Seq<SpecShaderDef>, builds: Seq<SpecShaderBuild>) -> Seq<
    Option<SpecGenerationError>,
> {
    Seq::new(
        shaders.len(),
        |k: int|
            match spec_shader_outcome(shaders, builds, k) {
                Ok(_) => None,
                Err(e) => Some(e),
            },
    )
}

/// The text of each shader; nothing for one with a fault.
pub open spec fn spec_shader_texts(shaders: Seq<SpecShaderDef>, builds: Seq<SpecShaderBuild>) -> Seq<
    Seq<char>,
> {
    Seq::new(
        shaders.len(),
        |k: int|
            match spec_shader_outcome(shaders, builds, k) {
                Ok(t) => t,
                Err(_) => Seq::empty(),
            },
    )
}

/// The section of embedded shaders: nothing where the program declares none.
pub open spec fn spec_shaders_section(shaders: Seq<SpecShaderDef>, builds: Seq<SpecShaderBuild>) -> Seq<
    char,
> {
    if shaders.len() > 0 {
        "// Embedded Shaders (compiled to SPIR-V at compile-time)\n"@ + spec_concat(
            spec_shader_texts(shaders, builds),
        ) + "\n"@
    } else {
        Seq::empty()
    }
}

/// The queries among the types of the first `n` parameters, in order.
pub open spec fn spec_param_queries(params: Seq<SpecField>, n: nat) -> Seq<Seq<SpecType>>
    decreases n,
{
    if n == 0 || n > params.len() {
        Seq::empty()
    } else {
        match params[n - 1].ty {
            SpecType::Query(ts) => spec_param_queries(params, (n - 1) as nat).push(ts),
            _ => spec_param_queries(params, (n - 1) as nat),
        }
    }
}

/// The queries that a function mentions: those of its parameters, then that
/// of its return type.
pub open spec fn spec_function_queries(f: SpecFunctionDef) -> Seq<Seq<SpecType>> {
    spec_param_queries(f.params, f.params.len()) + (match f.return_type {
        SpecType::Query(ts) => seq![ts],
        _ => Seq::empty(),
    })
}

/// The queries that an item mentions: those of a top-level function.
pub open spec fn spec_item_queries(item: SpecItem) -> Seq<Seq<SpecType>> {
    match item {
        SpecItem::Function(f) => spec_function_queries(f),
        _ => Seq::empty(),
    }
}

/// The queries that the first `n` items mention, in order.
pub open spec fn spec_program_queries(items: Seq<SpecItem>, n: nat) -> Seq<Seq<SpecType>>
    decreases n,
{
    if n == 0 || n > items.len() {
        Seq::empty()
    } else {
        spec_program_queries(items, (n - 1) as nat) + spec_item_queries(items[n - 1])
    }
}

/// Whether a query with the same component names is among `queries`.
pub open spec fn has_query(queries: Seq<Seq<SpecType>>, q: Seq<SpecType>) -> bool {
    exists|k: int|
        0 <= k < queries.len() && spec_query_parts(#[trigger] queries[k]) == spec_query_parts(q)
}

/// The first `n` queries without those whose component names repeat an
/// earlier query's: a query is the ordered list of its component names.
pub open spec fn spec_distinct_queries(queries: Seq<Seq<SpecType>>, n: nat) -> Seq<Seq<SpecType>>
    decreases n,
{
    if n == 0 || n > queries.len() {
        Seq::empty()
    } else {
        let earlier = spec_distinct_queries(queries, (n - 1) as nat);
        if has_query(earlier, queries[n - 1]) {
            earlier
        } else {
            earlier.push(queries[n - 1])
        }
    }
}

/// The section of query types: nothing where the program mentions no query.
pub open spec fn spec_queries_section(queries: Seq<Seq<SpecType>>) -> Seq<char> {
    if queries.len() > 0 {
        "// ECS Query Types\n"@ + spec_concat(
            queries.map_values(|q: Seq<SpecType>| spec_query_type_text(q)),
        ) + "\n"@
    } else {
        Seq::empty()
    }
}

/// The libraries that the extern functions among the first `n` items come
/// from, each once, in the order first named.
pub open spec fn spec_libraries(items: Seq<SpecItem>, n: nat) -> Seq<Seq<char>>
    decreases n,
{
    if n == 0 || n > items.len() {
        Seq::empty()
    } else {
        let earlier = spec_libraries(items, (n - 1) as nat);
        match items[n - 1] {
            SpecItem::ExternFunction(f) => match f.library {
                Some(l) => if earlier.contains(l) {
                    earlier
                } else {
                    earlier.push(l)
                },
                None => earlier,
            },
            _ => earlier,
        }
    }
}

/// The comment that names the libraries to link with: nothing where there is none.
pub open spec fn spec_libraries_text(libraries: Seq<Seq<char>>) -> Seq<char> {
    if libraries.len() > 0 {
        "\n// Link libraries: "@ + spec_concat(libraries.map_values(|l: Seq<char>| l + " "@))
            + "\n"@
    } else {
        Seq::empty()
    }
}

/// Whether a top-level function is called `main`.
pub open spec fn spec_has_main(items: Seq<SpecItem>) -> bool {
    exists|i: int|
        0 <= i < items.len() && (#[trigger] items[i] matches SpecItem::Function(f) && f.name
            == "main"@)
}

/// The host's entry point, which calls the program's `main`: nothing where
/// the program has none.
pub open spec fn spec_entry_text(items: Seq<SpecItem>) -> Seq<char> {
    if spec_has_main(items) {
        "int main(int argc, char* argv[]) {\n    heidic_main();\n    return 0;\n}\n"@
    } else {
        Seq::empty()
    }
}

/// The first fault that keeps a program from being generated, in the order of
/// the sections: a shader that was not compiled, then a default in a data
/// declaration, in an extern declaration, then a function.
pub open spec fn spec_program_fault(items: Seq<SpecItem>, builds: Seq<SpecShaderBuild>) -> Option<
    SpecGenerationError,
> {
    or_else(
        first_error(spec_shader_faults(spec_shaders(items, items.len()), builds)),
        or_else(
            first_error(items.map_values(|item: SpecItem| spec_record_fault_of(item))),
            or_else(
                first_error(items.map_values(|item: SpecItem| spec_extern_fault_of(item))),
                first_error(items.map_values(|item: SpecItem| spec_definitions_fault_of(item))),
            ),
        ),
    )
}

/// The generated program: the head, the frame arena, the type aliases, the
/// embedded shaders, the query types, the data declarations, the extern
/// declarations and their libraries, the forward declarations, the function
/// definitions, the driver of the systems and the host's entry point.
pub open spec fn spec_program_text(
    items: Seq<SpecItem>,
    builds: Seq<SpecShaderBuild>,
    scheduler: Seq<char>,
) -> Seq<char> {
    spec_header_text(spec_program_headers(items, items.len())) + spec_frame_arena_text() + "\n"@
        + spec_concat(items.map_values(|item: SpecItem| spec_alias_of(item)))
        + spec_shaders_section(spec_shaders(items, items.len()), builds) + spec_queries_section(
        spec_distinct_queries(
            spec_program_queries(items, items.len()),
            spec_program_queries(items, items.len()).len(),
        ),
    ) + spec_concat(items.map_values(|item: SpecItem| spec_record_of(item))) + spec_concat(
        items.map_values(|item: SpecItem| spec_extern_of(item)),
    ) + spec_libraries_text(spec_libraries(items, items.len())) + "\n"@ + spec_concat(
        items.map_values(|item: SpecItem| spec_forwards_of(item)),
    ) + "\n"@ + spec_concat(items.map_values(|item: SpecItem| spec_definitions_of(item)))
        + scheduler + spec_entry_text(items)
}

/// Whether a text is the driver of the program's systems: empty where no
/// function carries a system attribute, else the driver for an order that
/// the constraints admit.
pub open spec fn is_scheduler_section(items: Seq<SpecItem>, text: Seq<char>) -> bool {
    let functions = spec_system_functions(items, items.len());
    if functions.len() == 0 {
        text == Seq::<char>::empty()
    } else {
        is_scheduler_text(functions, text)
    }
}

/// What `generate` owes: the first fault where there is one, else the
/// program's text with a driver that runs the systems in a valid order.
pub open spec fn is_generated(
    items: Seq<SpecItem>,
    builds: Seq<SpecShaderBuild>,
    r: Result<Seq<char>, SpecGenerationError>,
) -> bool {
    match spec_program_fault(items, builds) {
        Some(e) => r == Err::<Seq<char>, SpecGenerationError>(e),
        None => r is Ok && exists|scheduler: Seq<char>|
            is_scheduler_section(items, scheduler) && r->Ok_0 == #[trigger] spec_program_text(
                items,
                builds,
                scheduler,
            ),
    }
}

/// The text of the empty string.
fn empty_text() -> (r: String)
    ensures
        r@ == Seq::<char>::empty(),
{
    String::new()
}

impl CodeGenerator {
    /// The forward declarations of the functions of a system.
    fn member_forwards(&self, functions: &Vec<FunctionDef>) -> (r: String)
        ensures
            r@ == spec_concat(
                views(functions@).map_values(|f: SpecFunctionDef| spec_member_forward_text(f)),
            ),
    {
        let ghost fs = views(functions@);
        let mut out = String::new();
        let mut i: usize = 0;
        assert(fs.take(0).map_values(|f: SpecFunctionDef| spec_member_forward_text(f)).len() == 0);
        while i < functions.len()
            invariant
                i <= functions.len(),
                fs == views(functions@),
                out@ == spec_concat(
                    fs.take(i as int).map_values(|f: SpecFunctionDef| spec_member_forward_text(f)),
                ),
            decreases functions.len() - i,
        {
            assert(fs[i as int] == functions[i as int]@);
            let piece = self.forward_text(&functions[i], true);
            out.append(piece.as_str());
            proof {
                lemma_concat_map_step(fs, |f: SpecFunctionDef| spec_member_forward_text(f), i as int);
            }
            i += 1;
        }
        assert(fs.take(functions.len() as int) =~= fs);
        out
    }

    /// The definitions of the functions of a system.
    fn member_definitions(&self, functions: &Vec<FunctionDef>) -> (r: String)
        ensures
            r@ == spec_concat(
                views(functions@).map_values(|f: SpecFunctionDef| spec_function_text(f)),
            ),
    {
        let ghost fs = views(functions@);
        let mut out = String::new();
        let mut i: usize = 0;
        assert(fs.take(0).map_values(|f: SpecFunctionDef| spec_function_text(f)).len() == 0);
        while i < functions.len()
            invariant
                i <= functions.len(),
                fs == views(functions@),
                out@ == spec_concat(
                    fs.take(i as int).map_values(|f: SpecFunctionDef| spec_function_text(f)),
                ),
            decreases functions.len() - i,
        {
            assert(fs[i as int] == functions[i as int]@);
            let piece = self.function_text(&functions[i]);
            out.append(piece.as_str());
            proof {
                lemma_concat_map_step(fs, |f: SpecFunctionDef| spec_function_text(f), i as int);
            }
            i += 1;
        }
        assert(fs.take(functions.len() as int) =~= fs);
        out
    }

    /// The first fault in the functions of a system.
    fn member_faults(&self, functions: &Vec<FunctionDef>) -> (r: Option<GenerationError>)
        ensures
            fault_view(r) == first_error(
                views(functions@).map_values(|f: SpecFunctionDef| spec_function_fault(f)),
            ),
    {
        let ghost faults = views(functions@).map_values(
            |f: SpecFunctionDef| spec_function_fault(f),
        );
        let mut i: usize = 0;
        while i < functions.len()
            invariant
                i <= functions.len(),
                faults == views(functions@).map_values(
                    |f: SpecFunctionDef| spec_function_fault(f),
                ),
                forall|j: int| 0 <= j < i ==> faults[j] is None,
            decreases functions.len() - i,
        {
            assert(views(functions@)[i as int] == functions[i as int]@);
            match self.function_fault(&functions[i]) {
                Some(x) => {
                    proof {
                        lemma_first_error_at(faults, i as int);
                    }
                    return Some(x);
                },
                None => {},
            }
            i += 1;
        }
        proof {
            lemma_first_error_none(faults);
        }
        None
    }

    /// The section of type aliases.
    pub fn aliases_text(&self, program: &Program) -> (r: String)
        ensures
            r@ == spec_concat(program@.map_values(|item: SpecItem| spec_alias_of(item))),
    {
        let mut out = String::new();
        let mut i: usize = 0;
        assert(program@.take(0).map_values(|item: SpecItem| spec_alias_of(item)).len() == 0);
        while i < program.items.len()
            invariant
                i <= program.items.len(),
                out@ == spec_concat(
                    program@.take(i as int).map_values(|item: SpecItem| spec_alias_of(item)),
                ),
            decreases program.items.len() - i,
        {
            assert(program@[i as int] == program.items[i as int]@);
            let piece: String = match &program.items[i] {
                Item::TypeAlias(a) => self.generate_type_alias(a),
                _ => empty_text(),
            };
            out.append(piece.as_str());
            proof {
                lemma_concat_map_step(program@, |item: SpecItem| spec_alias_of(item), i as int);
            }
            i += 1;
        }
        assert(program@.take(program.items.len() as int) =~= program@);
        out
    }

    /// The section of data declarations, whether or not one has a fault.
    pub fn records_text(&self, program: &Program) -> (r: String)
        ensures
            r@ == spec_concat(program@.map_values(|item: SpecItem| spec_record_of(item))),
    {
        let mut out = String::new();
        let mut i: usize = 0;
        assert(program@.take(0).map_values(|item: SpecItem| spec_record_of(item)).len() == 0);
        while i < program.items.len()
            invariant
                i <= program.items.len(),
                out@ == spec_concat(
                    program@.take(i as int).map_values(|item: SpecItem| spec_record_of(item)),
                ),
            decreases program.items.len() - i,
        {
            assert(program@[i as int] == program.items[i as int]@);
            let piece: String = match &program.items[i] {
                Item::Struct(d) => {
                    proof {
                        reveal_strlit("");
                        assert(""@ =~= Seq::<char>::empty());
                    }
                    record_text(self, "", &d.name, &d.fields)
                },
                Item::Component(d) => {
                    proof {
                        reveal_strlit("");
                        assert(""@ =~= Seq::<char>::empty());
                    }
                    record_text(self, "", &d.name, &d.fields)
                },
                Item::MeshSOA(d) => record_text(
                    self,
                    "// SOA (Structure-of-Arrays) mesh data - optimized for CUDA/OptiX\n",
                    &d.name,
                    &d.fields,
                ),
                Item::ComponentSOA(d) => record_text(
                    self,
                    "// SOA (Structure-of-Arrays) component - optimized for ECS iteration\n",
                    &d.name,
                    &d.fields,
                ),
                _ => empty_text(),
            };
            out.append(piece.as_str());
            proof {
                lemma_concat_map_step(program@, |item: SpecItem| spec_record_of(item), i as int);
            }
            i += 1;
        }
        assert(program@.take(program.items.len() as int) =~= program@);
        out
    }

    /// The section of extern declarations, whether or not one has a fault.
    pub fn externs_text(&self, program: &Program) -> (r: String)
        ensures
            r@ == spec_concat(program@.map_values(|item: SpecItem| spec_extern_of(item))),
    {
        let mut out = String::new();
        let mut i: usize = 0;
        assert(program@.take(0).map_values(|item: SpecItem| spec_extern_of(item)).len() == 0);
        while i < program.items.len()
            invariant
                i <= program.items.len(),
                out@ == spec_concat(
                    program@.take(i as int).map_values(|item: SpecItem| spec_extern_of(item)),
                ),
            decreases program.items.len() - i,
        {
            assert(program@[i as int] == program.items[i as int]@);
            let piece: String = match &program.items[i] {
                Item::ExternFunction(f) => self.extern_text(f),
                _ => empty_text(),
            };
            out.append(piece.as_str());
            proof {
                lemma_concat_map_step(program@, |item: SpecItem| spec_extern_of(item), i as int);
            }
            i += 1;
        }
        assert(program@.take(program.items.len() as int) =~= program@);
        out
    }

    /// The section of forward declarations.
    pub fn forwards_text(&self, program: &Program) -> (r: String)
        ensures
            r@ == spec_concat(program@.map_values(|item: SpecItem| spec_forwards_of(item))),
    {
        let mut out = String::new();
        let mut i: usize = 0;
        assert(program@.take(0).map_values(|item: SpecItem| spec_forwards_of(item)).len() == 0);
        while i < program.items.len()
            invariant
                i <= program.items.len(),
                out@ == spec_concat(
                    program@.take(i as int).map_values(|item: SpecItem| spec_forwards_of(item)),
                ),
            decreases program.items.len() - i,
        {
            assert(program@[i as int] == program.items[i as int]@);
            let piece: String = match &program.items[i] {
                Item::Function(f) => self.forward_text(f, false),
                Item::System(s) => self.member_forwards(&s.functions),
                _ => empty_text(),
            };
            out.append(piece.as_str());
            proof {
                lemma_concat_map_step(program@, |item: SpecItem| spec_forwards_of(item), i as int);
            }
            i += 1;
        }
        assert(program@.take(program.items.len() as int) =~= program@);
        out
    }

    /// The section of function definitions, whether or not one has a fault.
    pub fn definitions_text(&self, program: &Program) -> (r: String)
        ensures
            r@ == spec_concat(program@.map_values(|item: SpecItem| spec_definitions_of(item))),
    {
        let mut out = String::new();
        let mut i: usize = 0;
        assert(program@.take(0).map_values(|item: SpecItem| spec_definitions_of(item)).len() == 0);
        while i < program.items.len()
            invariant
                i <= program.items.len(),
                out@ == spec_concat(
                    program@.take(i as int).map_values(|item: SpecItem| spec_definitions_of(item)),
                ),
            decreases program.items.len() - i,
        {
            assert(program@[i as int] == program.items[i as int]@);
            let piece: String = match &program.items[i] {
                Item::Function(f) => self.function_text(f),
                Item::System(s) => self.member_definitions(&s.functions),
                _ => empty_text(),
            };
            out.append(piece.as_str());
            proof {
                lemma_concat_map_step(program@, |item: SpecItem| spec_definitions_of(item), i as int);
            }
            i += 1;
        }
        assert(program@.take(program.items.len() as int) =~= program@);
        out
    }

    /// The first fault in the section of data declarations.
    pub fn records_fault(&self, program: &Program) -> (r: Option<GenerationError>)
        ensures
            fault_view(r) == first_error(program@.map_values(|item: SpecItem| spec_record_fault_of(item))),
    {
        let ghost faults = program@.map_values(|item: SpecItem| spec_record_fault_of(item));
        let mut i: usize = 0;
        while i < program.items.len()
            invariant
                i <= program.items.len(),
                faults == program@.map_values(|item: SpecItem| spec_record_fault_of(item)),
                forall|j: int| 0 <= j < i ==> faults[j] is None,
            decreases program.items.len() - i,
        {
            assert(program@[i as int] == program.items[i as int]@);
            let fault: Option<GenerationError> = match &program.items[i] {
                Item::Struct(d) => field_defaults_fault(self, &d.fields),
                Item::Component(d) => field_defaults_fault(self, &d.fields),
                Item::MeshSOA(d) => field_defaults_fault(self, &d.fields),
                Item::ComponentSOA(d) => field_defaults_fault(self, &d.fields),
                _ => None,
            };
            match fault {
                Some(x) => {
                    proof {
                        lemma_first_error_at(faults, i as int);
                    }
                    return Some(x);
                },
                None => {},
            }
            i += 1;
        }
        proof {
            lemma_first_error_none(faults);
        }
        None
    }

    /// The first fault in the section of extern declarations.
    pub fn externs_fault(&self, program: &Program) -> (r: Option<GenerationError>)
        ensures
            fault_view(r) == first_error(program@.map_values(|item: SpecItem| spec_extern_fault_of(item))),
    {
        let ghost faults = program@.map_values(|item: SpecItem| spec_extern_fault_of(item));
        let mut i: usize = 0;
        while i < program.items.len()
            invariant
                i <= program.items.len(),
                faults == program@.map_values(|item: SpecItem| spec_extern_fault_of(item)),
                forall|j: int| 0 <= j < i ==> faults[j] is None,
            decreases program.items.len() - i,
        {
            assert(program@[i as int] == program.items[i as int]@);
            let fault: Option<GenerationError> = match &program.items[i] {
                Item::ExternFunction(f) => defaults_fault(self, &f.params),
                _ => None,
            };
            match fault {
                Some(x) => {
                    proof {
                        lemma_first_error_at(faults, i as int);
                    }
                    return Some(x);
                },
                None => {},
            }
            i += 1;
        }
        proof {
            lemma_first_error_none(faults);
        }
        None
    }

    /// The first fault in the section of function definitions.
    pub fn definitions_fault(&self, program: &Program) -> (r: Option<GenerationError>)
        ensures
            fault_view(r) == first_error(program@.map_values(|item: SpecItem| spec_definitions_fault_of(item))),
    {
        let ghost faults = program@.map_values(|item: SpecItem| spec_definitions_fault_of(item));
        let mut i: usize = 0;
        while i < program.items.len()
            invariant
                i <= program.items.len(),
                faults == program@.map_values(|item: SpecItem| spec_definitions_fault_of(item)),
                forall|j: int| 0 <= j < i ==> faults[j] is None,
            decreases program.items.len() - i,
        {
            assert(program@[i as int] == program.items[i as int]@);
            let fault: Option<GenerationError> = match &program.items[i] {
                Item::Function(f) => self.function_fault(f),
                Item::System(s) => self.member_faults(&s.functions),
                _ => None,
            };
            match fault {
                Some(x) => {
                    proof {
                        lemma_first_error_at(faults, i as int);
                    }
                    return Some(x);
                },
                None => {},
            }
            i += 1;
        }
        proof {
            lemma_first_error_none(faults);
        }
        None
    }

}

/// The models of a list of borrowed shader declarations.
pub open spec fn shader_views(shaders: Seq<&ShaderDef>) -> Seq<SpecShaderDef> {
    shaders.map_values(|s: &ShaderDef| s@)
}

/// The models of a list of queries.
pub open spec fn query_views(queries: Seq<Vec<Type>>) -> Seq<Seq<SpecType>> {
    queries.map_values(|q: Vec<Type>| types_view(q))
}

/// Whether two lists of strings hold the same texts.
fn same_texts(a: &Vec<String>, b: &Vec<String>) -> (r: bool)
    ensures
        r == (texts(a@) == texts(b@)),
{
    if a.len() != b.len() {
        assert(texts(a@).len() != texts(b@).len());
        return false;
    }
    let mut i: usize = 0;
    while i < a.len()
        invariant
            i <= a.len(),
            a.len() == b.len(),
            forall|j: int| 0 <= j < i ==> a[j]@ == b[j]@,
        decreases a.len() - i,
    {
        if !str_equal(a[i].as_str(), b[i].as_str()) {
            assert(texts(a@)[i as int] != texts(b@)[i as int]);
            return false;
        }
        i += 1;
    }
    assert(texts(a@) =~= texts(b@));
    true
}

/// Whether a name is among a list of names.
fn holds_text(names: &Vec<String>, name: &str) -> (r: bool)
    ensures
        r == texts(names@).contains(name@),
{
    let mut i: usize = 0;
    while i < names.len()
        invariant
            i <= names.len(),
            forall|j: int| 0 <= j < i ==> names[j]@ != name@,
        decreases names.len() - i,
    {
        if str_equal(names[i].as_str(), name) {
            assert(texts(names@)[i as int] == name@);
            return true;
        }
        i += 1;
    }
    assert(!texts(names@).contains(name@)) by {
        if texts(names@).contains(name@) {
            let j = choose|j: int| 0 <= j < texts(names@).len() && texts(names@)[j] == name@;
            assert(names[j]@ == name@);
        }
    }
    false
}

impl CodeGenerator {
    /// The shader declarations of a program, in order.
    pub fn shader_items<'a>(&self, program: &'a Program) -> (r: Vec<&'a ShaderDef>)
        ensures
            shader_views(r@) == spec_shaders(program@, program@.len()),
    {
        let mut out: Vec<&'a ShaderDef> = Vec::new();
        let mut i: usize = 0;
        assert(shader_views(out@) =~= spec_shaders(program@, 0));
        while i < program.items.len()
            invariant
                i <= program.items.len(),
                shader_views(out@) == spec_shaders(program@, i as nat),
            decreases program.items.len() - i,
        {
            assert(program@[i as int] == program.items[i as int]@);
            let ghost before = shader_views(out@);
            match &program.items[i] {
                Item::Shader(s) => {
                    out.push(s);
                    assert(shader_views(out@) =~= before.push(s@));
                },
                _ => {},
            }
            i += 1;
        }
        out
    }

    /// The section of embedded shaders, or the fault of the first shader that
    /// has one. The builds are taken in the order of the declarations.
    pub fn shaders_section(&self, shaders: &Vec<&ShaderDef>, builds: &Vec<ShaderBuild>) -> (r: Result<
        String,
        GenerationError,
    >)
        ensures
            generated_view(r) == (match first_error(
                spec_shader_faults(shader_views(shaders@), views(builds@)),
            ) {
                Some(e) => Err::<Seq<char>, SpecGenerationError>(e),
                None => Ok(spec_shaders_section(shader_views(shaders@), views(builds@))),
            }),
    {
        let ghost ss = shader_views(shaders@);
        let ghost bs = views(builds@);
        let ghost faults = spec_shader_faults(ss, bs);
        let ghost pieces = spec_shader_texts(ss, bs);
        let mut out = "// Embedded Shaders (compiled to SPIR-V at compile-time)\n".to_owned();
        let ghost head = out@;
        let mut k: usize = 0;
        while k < shaders.len()
            invariant
                k <= shaders.len(),
                ss == shader_views(shaders@),
                bs == views(builds@),
                faults == spec_shader_faults(ss, bs),
                pieces == spec_shader_texts(ss, bs),
                forall|j: int| 0 <= j < k ==> faults[j] is None,
                out@ == head + spec_concat(pieces.take(k as int)),
            decreases shaders.len() - k,
        {
            assert(ss[k as int] == shaders[k as int]@);
            let outcome = if k < builds.len() {
                assert(bs[k as int] == builds[k as int]@);
                self.generate_shader(shaders[k], &builds[k])
            } else {
                Err(GenerationError::ShaderNotCompiled(shaders[k].name.clone()))
            };
            assert(generated_view(outcome) == spec_shader_outcome(ss, bs, k as int));
            match outcome {
                Err(e) => {
                    proof {
                        lemma_first_error_at(faults, k as int);
                    }
                    return Err(e);
                },
                Ok(text) => {
                    out.append(text.as_str());
                    proof {
                        lemma_concat_push(pieces.take(k as int), pieces[k as int]);
                        assert(pieces.take(k + 1) =~= pieces.take(k as int).push(pieces[k as int]));
                    }
                },
            }
            k += 1;
        }
        proof {
            lemma_first_error_none(faults);
            assert(pieces.take(shaders.len() as int) =~= pieces);
        }
        if shaders.len() > 0 {
            out.append("\n");
            Ok(out)
        } else {
            Ok(String::new())
        }
    }

    /// Adds to `query_types` the queries that an item mentions.
    pub fn collect_query_types(&self, item: &Item, query_types: &mut Vec<Vec<Type>>)
        ensures
            query_views(final(query_types)@) == query_views(old(query_types)@) + spec_item_queries(
                item@,
            ),
    {
        let ghost start = query_views(query_types@);
        match item {
            Item::Function(f) => {
                let ghost params = views(f.params@);
                let mut i: usize = 0;
                assert(query_views(query_types@) =~= start + spec_param_queries(params, 0));
                while i < f.params.len()
                    invariant
                        i <= f.params.len(),
                        params == views(f.params@),
                        query_views(query_types@) == start + spec_param_queries(params, i as nat),
                    decreases f.params.len() - i,
                {
                    assert(params[i as int] == f.params[i as int]@);
                    let ghost before = query_views(query_types@);
                    match &f.params[i].ty {
                        Type::Query(ts) => {
                            query_types.push(clone_types(ts));
                            assert(query_views(query_types@) =~= before.push(types_view(*ts)));
                            assert(query_views(query_types@) =~= start + spec_param_queries(
                                params,
                                (i + 1) as nat,
                            ));
                        },
                        _ => {},
                    }
                    i += 1;
                }
                let ghost before = query_views(query_types@);
                match &f.return_type {
                    Type::Query(ts) => {
                        query_types.push(clone_types(ts));
                        assert(query_views(query_types@) =~= before.push(types_view(*ts)));
                        assert(query_views(query_types@) =~= start + spec_item_queries(item@));
                    },
                    _ => {
                        assert(query_views(query_types@) =~= start + spec_item_queries(item@));
                    },
                }
            },
            _ => {
                assert(query_views(query_types@) =~= start + spec_item_queries(item@));
            },
        }
    }

    /// The queries that a program mentions, in order.
    pub fn program_queries(&self, program: &Program) -> (r: Vec<Vec<Type>>)
        ensures
            query_views(r@) == spec_program_queries(program@, program@.len()),
    {
        let mut out: Vec<Vec<Type>> = Vec::new();
        let mut i: usize = 0;
        assert(query_views(out@) =~= spec_program_queries(program@, 0));
        while i < program.items.len()
            invariant
                i <= program.items.len(),
                query_views(out@) == spec_program_queries(program@, i as nat),
            decreases program.items.len() - i,
        {
            assert(program@[i as int] == program.items[i as int]@);
            self.collect_query_types(&program.items[i], &mut out);
            i += 1;
        }
        out
    }

    /// The queries without those whose component names repeat an earlier query's.
    pub fn distinct_queries(&self, queries: Vec<Vec<Type>>) -> (r: Vec<Vec<Type>>)
        ensures
            query_views(r@) == spec_distinct_queries(query_views(queries@), queries@.len()),
    {
        let ghost all = query_views(queries@);
        let mut out: Vec<Vec<Type>> = Vec::new();
        let mut keys: Vec<Vec<String>> = Vec::new();
        let mut i: usize = 0;
        assert(query_views(out@) =~= spec_distinct_queries(all, 0));
        while i < queries.len()
            invariant
                i <= queries.len(),
                all == query_views(queries@),
                query_views(out@) == spec_distinct_queries(all, i as nat),
                keys.len() == out.len(),
                forall|k: int|
                    0 <= k < out.len() ==> texts((#[trigger] keys[k])@) == spec_query_parts(
                        types_view(out[k]),
                    ),
            decreases queries.len() - i,
        {
            assert(all[i as int] == types_view(queries[i as int]));
            let key = query_parts(&queries[i]);
            let ghost earlier = query_views(out@);
            let mut seen = false;
            let mut k: usize = 0;
            while k < keys.len()
                invariant
                    k <= keys.len(),
                    keys.len() == out.len(),
                    earlier == query_views(out@),
                    texts(key@) == spec_query_parts(all[i as int]),
                    forall|m: int|
                        0 <= m < out.len() ==> texts((#[trigger] keys[m])@) == spec_query_parts(
                            types_view(out[m]),
                        ),
                    seen == exists|m: int|
                        0 <= m < k && spec_query_parts(#[trigger] earlier[m]) == spec_query_parts(
                            all[i as int],
                        ),
                decreases keys.len() - k,
            {
                assert(earlier[k as int] == types_view(out[k as int]));
                if same_texts(&keys[k], &key) {
                    seen = true;
                }
                k += 1;
            }
            assert(seen == has_query(earlier, all[i as int]));
            if !seen {
                out.push(clone_types(&queries[i]));
                keys.push(key);
                assert(query_views(out@) =~= earlier.push(all[i as int]));
            }
            i += 1;
        }
        out
    }

    /// The section of query types.
    pub fn queries_section(&self, queries: &Vec<Vec<Type>>) -> (r: String)
        ensures
            r@ == spec_queries_section(query_views(queries@)),
    {
        if queries.len() == 0 {
            return String::new();
        }
        let ghost qs = query_views(queries@);
        let mut out = "// ECS Query Types\n".to_owned();
        let ghost head = out@;
        let mut i: usize = 0;
        assert(qs.take(0).map_values(|q: Seq<SpecType>| spec_query_type_text(q)).len() == 0);
        while i < queries.len()
            invariant
                i <= queries.len(),
                qs == query_views(queries@),
                out@ == head + spec_concat(
                    qs.take(i as int).map_values(|q: Seq<SpecType>| spec_query_type_text(q)),
                ),
            decreases queries.len() - i,
        {
            assert(qs[i as int] == types_view(queries[i as int]));
            let piece = self.generate_query_type(&queries[i]);
            out.append(piece.as_str());
            proof {
                lemma_concat_map_step(qs, |q: Seq<SpecType>| spec_query_type_text(q), i as int);
            }
            i += 1;
        }
        assert(qs.take(queries.len() as int) =~= qs);
        out.append("\n");
        out
    }

    /// The libraries that the program's extern functions come from, each
    /// once, in the order first named.
    pub fn libraries(&self, program: &Program) -> (r: Vec<String>)
        ensures
            texts(r@) == spec_libraries(program@, program@.len()),
    {
        let mut out: Vec<String> = Vec::new();
        let mut i: usize = 0;
        assert(texts(out@) =~= spec_libraries(program@, 0));
        while i < program.items.len()
            invariant
                i <= program.items.len(),
                texts(out@) == spec_libraries(program@, i as nat),
            decreases program.items.len() - i,
        {
            assert(program@[i as int] == program.items[i as int]@);
            let ghost before = texts(out@);
            match &program.items[i] {
                Item::ExternFunction(f) => match &f.library {
                    Some(l) => {
                        if !holds_text(&out, l.as_str()) {
                            out.push(l.clone());
                            assert(texts(out@) =~= before.push(l@));
                        }
                    },
                    None => {},
                },
                _ => {},
            }
            i += 1;
        }
        out
    }

    /// The comment that names the libraries to link with.
    pub fn libraries_text(&self, libraries: &Vec<String>) -> (r: String)
        ensures
            r@ == spec_libraries_text(texts(libraries@)),
    {
        if libraries.len() == 0 {
            return String::new();
        }
        let ghost ls = texts(libraries@);
        let mut out = "\n// Link libraries: ".to_owned();
        let ghost head = out@;
        let mut i: usize = 0;
        assert(ls.take(0).map_values(|l: Seq<char>| l + " "@).len() == 0);
        while i < libraries.len()
            invariant
                i <= libraries.len(),
                ls == texts(libraries@),
                out@ == head + spec_concat(ls.take(i as int).map_values(|l: Seq<char>| l + " "@)),
            decreases libraries.len() - i,
        {
            let ghost before = out@;
            out.append(libraries[i].as_str());
            out.append(" ");
            proof {
                assert(out@ =~= before + (ls[i as int] + " "@));
                lemma_concat_map_step(ls, |l: Seq<char>| l + " "@, i as int);
            }
            i += 1;
        }
        assert(ls.take(libraries.len() as int) =~= ls);
        out.append("\n");
        out
    }

    /// Whether a top-level function is called `main`.
    pub fn has_main(&self, program: &Program) -> (r: bool)
        ensures
            r == spec_has_main(program@),
    {
        let mut i: usize = 0;
        while i < program.items.len()
            invariant
                i <= program.items.len(),
                forall|j: int|
                    0 <= j < i ==> !(#[trigger] program@[j] matches SpecItem::Function(f) && f.name
                        == "main"@),
            decreases program.items.len() - i,
        {
            assert(program@[i as int] == program.items[i as int]@);
            match &program.items[i] {
                Item::Function(f) => {
                    if str_equal(f.name.as_str(), "main") {
                        return true;
                    }
                },
                _ => {},
            }
            i += 1;
        }
        false
    }

    /// Generates the program.
    ///
    /// `builds` holds, for each shader declaration in order, what came of
    /// compiling it. The result is the first fault in the order of the
    /// sections, or the program's text; the driver in it runs the systems in
    /// an order that their constraints admit.
    pub fn generate(&mut self, program: &Program, builds: &Vec<ShaderBuild>) -> (r: Result<
        String,
        GenerationError,
    >)
        ensures
            is_generated(program@, views(builds@), generated_view(r)),
            *final(self) == *old(self),
    {
        let needs = self.scan_for_required_headers(program);
        let mut out = header_text(&needs);
        let arena = self.generate_frame_arena();
        out.append(arena.as_str());
        out.append("\n");
        let aliases = self.aliases_text(program);
        out.append(aliases.as_str());
        let shaders = self.shader_items(program);
        let shaders_text = match self.shaders_section(&shaders, builds) {
            Err(e) => {
                return Err(e);
            },
            Ok(t) => t,
        };
        out.append(shaders_text.as_str());
        let collected = self.program_queries(program);
        let queries = self.distinct_queries(collected);
        let queries_text = self.queries_section(&queries);
        out.append(queries_text.as_str());
        match self.records_fault(program) {
            Some(e) => {
                return Err(e);
            },
            None => {},
        }
        let records = self.records_text(program);
        out.append(records.as_str());
        match self.externs_fault(program) {
            Some(e) => {
                return Err(e);
            },
            None => {},
        }
        let externs = self.externs_text(program);
        out.append(externs.as_str());
        let libraries = self.libraries(program);
        let libraries_text = self.libraries_text(&libraries);
        out.append(libraries_text.as_str());
        out.append("\n");
        let forwards = self.forwards_text(program);
        out.append(forwards.as_str());
        out.append("\n");
        match self.definitions_fault(program) {
            Some(e) => {
                return Err(e);
            },
            None => {},
        }
        let definitions = self.definitions_text(program);
        out.append(definitions.as_str());
        let system_functions = self.collect_system_functions(program);
        let scheduler = if system_functions.len() > 0 {
            self.generate_system_scheduler(&system_functions)
        } else {
            String::new()
        };
        assert(is_scheduler_section(program@, scheduler@));
        out.append(scheduler.as_str());
        if self.has_main(program) {
            out.append("int main(int argc, char* argv[]) {\n    heidic_main();\n    return 0;\n}\n");
        } else {
            assert(out@ + Seq::<char>::empty() =~= out@);
        }
        assert(out@ == spec_program_text(program@, views(builds@), scheduler@));
        Ok(out)
    }
}

} // verus!
