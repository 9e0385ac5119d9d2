//! Query types: for each distinct query over component types, a struct that
//! refers to the components' storage and a helper that visits every entity.

use crate::ast::{type_view, types_view, SpecType, Type};
use crate::codegen::types::{query_name, query_parts, spec_query_name, spec_query_parts};
use crate::codegen::CodeGenerator;
use crate::text::{
    decimal_usize, join, lemma_concat_push, spec_concat, spec_join, spec_nat_decimal, texts,
};
use vstd::prelude::*;

verus! {

/// `s` in lower case, as `str::to_lowercase` of the standard library gives it.
pub uninterp spec fn lowercase_of(s: Seq<char>) -> Seq<char>;

/// `str::to_lowercase`: the string with every character replaced by its
/// lower-case mapping. The mapping is Unicode's; nothing more is claimed of
/// the result than that it depends on the characters alone.
#[verifier::external_body]
fn to_lowercase(s: &str) -> (r: String)
    ensures
        r@ == lowercase_of(s@),
{
    s.to_lowercase()
}

/// The name of component `i` of a query in the query's struct: the name of a
/// struct or component type, `Component` and the index for any other type.
pub open spec fn spec_component_name(t: SpecType, i: nat) -> Seq<char> {
    match t {
        SpecType::Component(n) => n,
        SpecType::ComponentSOA(n) => n,
        SpecType::Struct(n) => n,
        _ => "Component"@ + spec_nat_decimal(i),
    }
}

/// A component of a query as the generated code names it: the type's name,
/// and the name of the variable that holds one value of it.
pub struct QueryComponent {
    pub name: String,
    pub variable: String,
}

/// Model of [`QueryComponent`].
pub struct SpecQueryComponent {
    pub name: Seq<char>,
    pub variable: Seq<char>,
}

impl View for QueryComponent {
    type V = SpecQueryComponent;

    open spec fn view(&self) -> SpecQueryComponent {
        SpecQueryComponent { name: self.name@, variable: self.variable@ }
    }
}

/// The components of a query: each under its name, with the name in lower
/// case as its variable.
pub open spec fn spec_query_components(ts: Seq<SpecType>) -> Seq<SpecQueryComponent> {
    Seq::new(
        ts.len(),
        |i: int|
            SpecQueryComponent {
                name: spec_component_name(ts[i], i as nat),
                variable: lowercase_of(spec_component_name(ts[i], i as nat)),
            },
    )
}

/// The member of the query's struct that refers to a component's storage.
pub open spec fn spec_storage_line(c: SpecQueryComponent) -> Seq<char> {
    "    std::vector<"@ + c.name + ">* "@ + c.variable + "_components;\n"@
}

/// The line of the helper that binds a component of the entity visited.
pub open spec fn spec_access_line(c: SpecQueryComponent) -> Seq<char> {
    "        "@ + c.name + "& "@ + c.variable + " = (*query."@ + c.variable + "_components)[i];\n"@
}

/// The generated text of a query type: the struct `name` with one storage
/// reference for each component and the count of entities, and the helper
/// `for_each_` followed by `helper_suffix`, which calls the operation once for
/// each entity with the components in order.
pub open spec fn spec_query_text(
    title: Seq<Seq<char>>,
    name: Seq<char>,
    helper_suffix: Seq<char>,
    components: Seq<SpecQueryComponent>,
) -> Seq<char> {
    "// ECS Query for components: "@ + spec_join(title, ", "@) + "\n"@ + "struct "@ + name
        + " {\n"@ + spec_concat(
        components.map_values(|c: SpecQueryComponent| spec_storage_line(c)),
    ) + "    size_t count;  // Number of entities with all components\n"@ + "};\n\n"@
        + "// Helper to iterate over "@ + name + " query\n"@ + "template<typename Func>\n"@
        + "void for_each_"@ + helper_suffix + "("@ + name + "& query, Func func) {\n"@
        + "    for (size_t i = 0; i < query.count; ++i) {\n"@
        + "        // Access components for entity i\n"@ + spec_concat(
        components.map_values(|c: SpecQueryComponent| spec_access_line(c)),
    ) + "        // Call function with entity components\n"@ + "        func("@ + spec_join(
        components.map_values(|c: SpecQueryComponent| c.variable),
        ", "@,
    ) + ");\n"@ + "    }\n"@ + "}\n\n"@
}

/// The generated text of the query over the component types `ts`.
pub open spec fn spec_query_type_text(ts: Seq<SpecType>) -> Seq<char> {
    spec_query_text(
        spec_query_parts(ts),
        spec_query_name(ts),
        lowercase_of(spec_query_name(ts)),
        spec_query_components(ts),
    )
}

/// The generated text of a query type, from its parts.
pub fn query_text(
    title: &Vec<String>,
    name: &str,
    helper_suffix: &str,
    components: &Vec<QueryComponent>,
) -> (r: String)
    ensures
        r@ == spec_query_text(
            texts(title@),
            name@,
            helper_suffix@,
            components@.map_values(|c: QueryComponent| c@),
        ),
{
    let ghost cs = components@.map_values(|c: QueryComponent| c@);
    let mut out = "// ECS Query for components: ".to_owned();
    let joined = join(title, ", ");
    out.append(joined.as_str());
    out.append("\n");
    out.append("struct ");
    out.append(name);
    out.append(" {\n");
    let ghost head = out@;
    let ghost storage = cs.map_values(|c: SpecQueryComponent| spec_storage_line(c));
    let mut i: usize = 0;
    while i < components.len()
        invariant
            i <= components.len(),
            cs == components@.map_values(|c: QueryComponent| c@),
            storage == cs.map_values(|c: SpecQueryComponent| spec_storage_line(c)),
            out@ == head + spec_concat(storage.take(i as int)),
        decreases components.len() - i,
    {
        let ghost before = out@;
        out.append("    std::vector<");
        out.append(components[i].name.as_str());
        out.append(">* ");
        out.append(components[i].variable.as_str());
        out.append("_components;\n");
        proof {
            assert(out@ =~= before + spec_storage_line(cs[i as int]));
            lemma_concat_push(storage.take(i as int), storage[i as int]);
            assert(storage.take(i + 1) =~= storage.take(i as int).push(storage[i as int]));
        }
        i += 1;
    }
    assert(storage.take(components.len() as int) =~= storage);
    out.append("    size_t count;  // Number of entities with all components\n");
    out.append("};\n\n");
    out.append("// Helper to iterate over ");
    out.append(name);
    out.append(" query\n");
    out.append("template<typename Func>\n");
    out.append("void for_each_");
    out.append(helper_suffix);
    out.append("(");
    out.append(name);
    out.append("& query, Func func) {\n");
    out.append("    for (size_t i = 0; i < query.count; ++i) {\n");
    out.append("        // Access components for entity i\n");
    let ghost middle = out@;
    let ghost access = cs.map_values(|c: SpecQueryComponent| spec_access_line(c));
    let mut variables: Vec<String> = Vec::new();
    let mut k: usize = 0;
    while k < components.len()
        invariant
            k <= components.len(),
            cs == components@.map_values(|c: QueryComponent| c@),
            access == cs.map_values(|c: SpecQueryComponent| spec_access_line(c)),
            out@ == middle + spec_concat(access.take(k as int)),
            variables.len() == k,
            forall|j: int| 0 <= j < k ==> variables[j]@ == cs[j].variable,
        decreases components.len() - k,
    {
        let ghost before = out@;
        out.append("        ");
        out.append(components[k].name.as_str());
        out.append("& ");
        out.append(components[k].variable.as_str());
        out.append(" = (*query.");
        out.append(components[k].variable.as_str());
        out.append("_components)[i];\n");
        variables.push(components[k].variable.clone());
        proof {
            assert(out@ =~= before + spec_access_line(cs[k as int]));
            lemma_concat_push(access.take(k as int), access[k as int]);
            assert(access.take(k + 1) =~= access.take(k as int).push(access[k as int]));
        }
        k += 1;
    }
    assert(access.take(components.len() as int) =~= access);
    assert(texts(variables@) =~= cs.map_values(|c: SpecQueryComponent| c.variable));
    out.append("        // Call function with entity components\n");
    out.append("        func(");
    let arguments = join(&variables, ", ");
    out.append(arguments.as_str());
    out.append(");\n");
    out.append("    }\n");
    out.append("}\n\n");
    out
}

/// The components of a query as the generated code names them.
pub fn query_components(ts: &Vec<Type>) -> (r: Vec<QueryComponent>)
    ensures
        r@.map_values(|c: QueryComponent| c@) == spec_query_components(types_view(*ts)),
{
    let mut out: Vec<QueryComponent> = Vec::new();
    let mut i: usize = 0;
    while i < ts.len()
        invariant
            i <= ts.len(),
            out.len() == i,
            forall|j: int|
                0 <= j < i ==> out[j]@ == (SpecQueryComponent {
                    name: spec_component_name(type_view(ts[j]), j as nat),
                    variable: lowercase_of(spec_component_name(type_view(ts[j]), j as nat)),
                }),
        decreases ts.len() - i,
    {
        let name = match &ts[i] {
            Type::Component(n) => n.clone(),
            Type::ComponentSOA(n) => n.clone(),
            Type::Struct(n) => n.clone(),
            _ => {
                let mut numbered = "Component".to_owned();
                let index = decimal_usize(i);
                numbered.append(index.as_str());
                numbered
            },
        };
        let variable = to_lowercase(name.as_str());
        out.push(QueryComponent { name, variable });
        i += 1;
    }
    assert(out@.map_values(|c: QueryComponent| c@) =~= spec_query_components(types_view(*ts)));
    out
}

impl CodeGenerator {
    /// The generated text of the query over the component types `ts`.
    pub fn generate_query_type(&self, component_types: &Vec<Type>) -> (r: String)
        ensures
            r@ == spec_query_type_text(types_view(*component_types)),
    {
        let title = query_parts(component_types);
        let name = query_name(component_types);
        let helper_suffix = to_lowercase(name.as_str());
        let components = query_components(component_types);
        query_text(&title, name.as_str(), helper_suffix.as_str(), &components)
    }
}

} // verus!
