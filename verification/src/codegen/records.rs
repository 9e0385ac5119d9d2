//! How declarations of data are written in the generated code: structs,
//! components, structure-of-arrays types, type aliases and extern signatures.

use crate::ast::{
    views, ComponentDef, ComponentSOADef, ExternFunctionDef, Field, MeshSOADef,
    SpecExternFunctionDef, SpecField, SpecRecord, SpecTypeAliasDef, StructDef, TypeAliasDef,
};
use crate::codegen::expressions::{
    fault_view, generated_view, spec_expression_fault, spec_expression_text, GenerationError,
    SpecGenerationError,
};
use crate::codegen::statements::{
    param_texts, spec_defaults_fault, spec_param_text, spec_param_texts,
};
use crate::codegen::types::spec_type_text;
use crate::codegen::CodeGenerator;
use crate::error::{lemma_first_error_at, lemma_first_error_none};
use crate::text::{join, lemma_concat_push, spec_concat, spec_join, texts};
use vstd::prelude::*;

verus! {

/// Whether a field has a default value.
pub open spec fn has_default(f: SpecField) -> bool {
    f.default_value is Some
}

/// The fields that have a default value, in declaration order.
pub open spec fn defaulted(fields: Seq<SpecField>) -> Seq<SpecField> {
    fields.filter(|f: SpecField| has_default(f))
}

/// The fields that have no default value, in declaration order.
pub open spec fn undefaulted(fields: Seq<SpecField>) -> Seq<SpecField> {
    fields.filter(|f: SpecField| !has_default(f))
}

/// The constructor synthesized for a declaration: one parameter for each
/// field, optional where the field has a default, and one initialisation for
/// each field that has a default.
pub struct SpecConstructor {
    pub params: Seq<SpecField>,
    pub inits: Seq<SpecField>,
}

/// The constructor of a declaration with these fields: there is one exactly
/// when some field has a default value.
pub open spec fn spec_constructor(fields: Seq<SpecField>) -> Option<SpecConstructor> {
    if defaulted(fields).len() > 0 {
        Some(SpecConstructor { params: fields, inits: defaulted(fields) })
    } else {
        None
    }
}

/// Every field either has a default or has none.
pub proof fn lemma_defaulted_partition(fields: Seq<SpecField>)
    ensures
        defaulted(fields).len() + undefaulted(fields).len() == fields.len(),
    decreases fields.len(),
{
    reveal(Seq::filter);
    if fields.len() > 0 {
        lemma_defaulted_partition(fields.drop_last());
    }
}

/// Of a declaration with N fields of which K have a default: it has a
/// constructor exactly when K is positive; the constructor takes the N fields
/// as parameters in declaration order, exactly K of them optional and N - K
/// to be given, and initialises the K fields that have a default, in
/// declaration order.
pub proof fn lemma_constructor_shape(fields: Seq<SpecField>)
    ensures
        spec_constructor(fields) is Some <==> defaulted(fields).len() > 0,
        spec_constructor(fields) is Some ==> {
            let c = spec_constructor(fields)->0;
            &&& c.params.len() == fields.len()
            &&& forall|i: int| 0 <= i < fields.len() ==> c.params[i] == fields[i]
            &&& defaulted(c.params).len() == defaulted(fields).len()
            &&& undefaulted(c.params).len() == fields.len() - defaulted(fields).len()
            &&& c.inits == defaulted(fields)
            &&& forall|j: int| 0 <= j < c.inits.len() ==> has_default(#[trigger] c.inits[j])
        },
{
    lemma_defaulted_partition(fields);
    if spec_constructor(fields) is Some {
        let c = spec_constructor(fields)->0;
        fields.filter_lemma(|f: SpecField| has_default(f));
    }
}

/// The line of a field in the body of a struct.
pub open spec fn spec_field_line(f: SpecField) -> Seq<char> {
    "    "@ + "    "@ + spec_type_text(f.ty, false) + " "@ + f.name + ";\n"@
}

/// The line that initialises a field from its default value; nothing for a
/// field without one.
pub open spec fn spec_init_line(f: SpecField) -> Seq<char> {
    match f.default_value {
        Some(e) => "    "@ + "        "@ + f.name + " = "@ + spec_expression_text(e) + ";\n"@,
        None => Seq::empty(),
    }
}

/// The text of a constructor of the struct `name`.
pub open spec fn spec_constructor_text(name: Seq<char>, c: SpecConstructor) -> Seq<char> {
    "    "@ + "\n"@ + "    "@ + "    "@ + name + "("@ + spec_join(
        spec_param_texts(c.params, false, true),
        ", "@,
    ) + ") {\n"@ + spec_concat(c.inits.map_values(|f: SpecField| spec_init_line(f))) + "    "@
        + "    }\n"@
}

/// The text of a record declaration: `comment`, the struct with one line for
/// each field, the constructor if there is one, and an empty line after the
/// closing brace.
pub open spec fn spec_record_text(comment: Seq<char>, r: SpecRecord) -> Seq<char> {
    comment + "struct "@ + r.name + " {\n"@ + spec_concat(
        r.fields.map_values(|f: SpecField| spec_field_line(f)),
    ) + (match spec_constructor(r.fields) {
        Some(c) => spec_constructor_text(r.name, c),
        None => Seq::empty(),
    }) + "};\n\n"@
}

/// The comment above a mesh in structure-of-arrays layout.
pub open spec fn spec_mesh_soa_comment() -> Seq<char> {
    "// SOA (Structure-of-Arrays) mesh data - optimized for CUDA/OptiX\n"@
}

/// The comment above a component in structure-of-arrays layout.
pub open spec fn spec_component_soa_comment() -> Seq<char> {
    "// SOA (Structure-of-Arrays) component - optimized for ECS iteration\n"@
}

/// The outcome of generating a record declaration: the first fault in a
/// field's default, or the text.
pub open spec fn spec_generate_record(comment: Seq<char>, r: SpecRecord) -> Result<
    Seq<char>,
    SpecGenerationError,
> {
    match spec_defaults_fault(r.fields) {
        Some(x) => Err(x),
        None => Ok(spec_record_text(comment, r)),
    }
}

/// The text of a type alias.
pub open spec fn spec_alias_text(a: SpecTypeAliasDef) -> Seq<char> {
    "using "@ + a.name + " = "@ + spec_type_text(a.target_type, false) + ";\n"@
}

/// The declaration of an extern function, with C linkage.
pub open spec fn spec_extern_text(f: SpecExternFunctionDef) -> Seq<char> {
    "extern \"C\" {\n"@ + "    "@ + spec_type_text(f.return_type, true) + " "@ + f.name + "("@
        + spec_join(spec_param_texts(f.params, true, true), ", "@) + ");\n"@ + "}\n"@
}

/// The first fault among the defaults of a list of fields.
pub fn field_defaults_fault(generator: &CodeGenerator, fields: &Vec<Field>) -> (r: Option<
    GenerationError,
>)
    ensures
        fault_view(r) == spec_defaults_fault(views(fields@)),
{
    let ghost faults = views(fields@).map_values(
        |p: SpecField|
            match p.default_value {
                Some(e) => spec_expression_fault(e),
                None => None,
            },
    );
    let mut i: usize = 0;
    while i < fields.len()
        invariant
            i <= fields.len(),
            faults == views(fields@).map_values(
                |p: SpecField|
                    match p.default_value {
                        Some(e) => spec_expression_fault(e),
                        None => None,
                    },
            ),
            forall|j: int| 0 <= j < i ==> faults[j] is None,
        decreases fields.len() - i,
    {
        assert(views(fields@)[i as int] == fields[i as int]@);
        match &fields[i].default_value {
            Some(e) => match generator.expression_fault(e) {
                Some(x) => {
                    proof {
                        lemma_first_error_at(faults, i as int);
                    }
                    return Some(x);
                },
                None => {},
            },
            None => {},
        }
        i += 1;
    }
    proof {
        lemma_first_error_none(faults);
    }
    None
}

/// The texts of the parameters of a constructor, in order.
pub fn constructor_param_texts(generator: &CodeGenerator, fields: &Vec<Field>) -> (r: Vec<String>)
    ensures
        texts(r@) == spec_param_texts(views(fields@), false, true),
{
    let mut out: Vec<String> = Vec::new();
    let mut i: usize = 0;
    while i < fields.len()
        invariant
            i <= fields.len(),
            out.len() == i,
            forall|j: int| 0 <= j < i ==> out[j]@ == spec_param_text(fields[j]@, false, true),
        decreases fields.len() - i,
    {
        let p = &fields[i];
        let mut piece = generator.type_to_cpp(&p.ty);
        piece.append(" ");
        piece.append(p.name.as_str());
        match &p.default_value {
            Some(e) => {
                let value = generator.expression_text(e);
                piece.append(" = ");
                piece.append(value.as_str());
                assert(piece@ =~= spec_param_text(p@, false, true));
            },
            None => {
                assert(piece@ =~= spec_param_text(p@, false, true));
            },
        }
        out.push(piece);
        i += 1;
    }
    assert(texts(out@) =~= spec_param_texts(views(fields@), false, true));
    out
}

/// The text of a record declaration, whether or not it has a fault.
pub fn record_text(generator: &CodeGenerator, comment: &str, name: &String, fields: &Vec<Field>) -> (r:
    String)
    ensures
        r@ == spec_record_text(comment@, SpecRecord { name: name@, fields: views(fields@) }),
{
    let ghost fs = views(fields@);
    let mut out = comment.to_owned();
    out.append("struct ");
    out.append(name.as_str());
    out.append(" {\n");
    let ghost head = out@;
    let ghost lines = fs.map_values(|f: SpecField| spec_field_line(f));
    let mut any_default = false;
    let mut i: usize = 0;
    while i < fields.len()
        invariant
            i <= fields.len(),
            fs == views(fields@),
            lines == fs.map_values(|f: SpecField| spec_field_line(f)),
            out@ == head + spec_concat(lines.take(i as int)),
            any_default == (defaulted(fs.take(i as int)).len() > 0),
        decreases fields.len() - i,
    {
        let f = &fields[i];
        let type_text = generator.type_to_cpp(&f.ty);
        let ghost before = out@;
        out.append("    ");
        out.append("    ");
        out.append(type_text.as_str());
        out.append(" ");
        out.append(f.name.as_str());
        out.append(";\n");
        if f.default_value.is_some() {
            any_default = true;
        }
        proof {
            assert(fs[i as int] == f@);
            assert(out@ =~= before + spec_field_line(f@));
            lemma_concat_push(lines.take(i as int), lines[i as int]);
            assert(lines.take(i + 1) =~= lines.take(i as int).push(lines[i as int]));
            reveal(Seq::filter);
            assert(fs.take(i + 1).drop_last() =~= fs.take(i as int));
        }
        i += 1;
    }
    assert(lines.take(fields.len() as int) =~= lines);
    assert(fs.take(fields.len() as int) =~= fs);
    let ghost with_fields = out@;
    if any_default {
        out.append("    ");
        out.append("\n");
        out.append("    ");
        out.append("    ");
        out.append(name.as_str());
        out.append("(");
        let params = constructor_param_texts(generator, fields);
        let joined = join(&params, ", ");
        out.append(joined.as_str());
        out.append(") {\n");
        let ghost ctor_head = out@;
        let mut k: usize = 0;
        while k < fields.len()
            invariant
                k <= fields.len(),
                fs == views(fields@),
                out@ == ctor_head + spec_concat(
                    defaulted(fs.take(k as int)).map_values(|f: SpecField| spec_init_line(f)),
                ),
            decreases fields.len() - k,
        {
            let f = &fields[k];
            let ghost before = out@;
            let ghost done = defaulted(fs.take(k as int)).map_values(
                |f: SpecField| spec_init_line(f),
            );
            proof {
                assert(fs[k as int] == f@);
                reveal(Seq::filter);
                assert(fs.take(k + 1).drop_last() =~= fs.take(k as int));
            }
            match &f.default_value {
                Some(e) => {
                    let value = generator.expression_text(e);
                    out.append("    ");
                    out.append("        ");
                    out.append(f.name.as_str());
                    out.append(" = ");
                    out.append(value.as_str());
                    out.append(";\n");
                    proof {
                        assert(out@ =~= before + spec_init_line(f@));
                        lemma_concat_push(done, spec_init_line(f@));
                        assert(defaulted(fs.take(k + 1)).map_values(
                            |f: SpecField| spec_init_line(f),
                        ) =~= done.push(spec_init_line(f@)));
                    }
                },
                None => {},
            }
            k += 1;
        }
        assert(fs.take(fields.len() as int) =~= fs);
        out.append("    ");
        out.append("    }\n");
        assert(out@ =~= with_fields + spec_constructor_text(name@, spec_constructor(fs)->0));
    } else {
        assert(out@ =~= with_fields + Seq::<char>::empty());
    }
    out.append("};\n\n");
    out
}

/// The outcome of generating a record declaration.
pub fn generate_record(
    generator: &CodeGenerator,
    comment: &str,
    name: &String,
    fields: &Vec<Field>,
) -> (r: Result<String, GenerationError>)
    ensures
        generated_view(r) == spec_generate_record(
            comment@,
            SpecRecord { name: name@, fields: views(fields@) },
        ),
{
    match field_defaults_fault(generator, fields) {
        Some(x) => Err(x),
        None => Ok(record_text(generator, comment, name, fields)),
    }
}

impl CodeGenerator {
    /// The declaration of a struct, or the first fault in a field's default.
    pub fn generate_struct(&self, s: &StructDef) -> (r: Result<String, GenerationError>)
        ensures
            generated_view(r) == spec_generate_record(Seq::empty(), s@),
    {
        let r = generate_record(self, "", &s.name, &s.fields);
        proof {
            reveal_strlit("");
            assert(""@ =~= Seq::<char>::empty());
        }
        r
    }

    /// The declaration of a component, or the first fault in a field's default.
    pub fn generate_component(&self, c: &ComponentDef) -> (r: Result<String, GenerationError>)
        ensures
            generated_view(r) == spec_generate_record(Seq::empty(), c@),
    {
        let r = generate_record(self, "", &c.name, &c.fields);
        proof {
            reveal_strlit("");
            assert(""@ =~= Seq::<char>::empty());
        }
        r
    }

    /// The declaration of a mesh in structure-of-arrays layout, or the first
    /// fault in a field's default.
    pub fn generate_mesh_soa(&self, m: &MeshSOADef) -> (r: Result<String, GenerationError>)
        ensures
            generated_view(r) == spec_generate_record(spec_mesh_soa_comment(), m@),
    {
        generate_record(
            self,
            "// SOA (Structure-of-Arrays) mesh data - optimized for CUDA/OptiX\n",
            &m.name,
            &m.fields,
        )
    }

    /// The declaration of a component in structure-of-arrays layout, or the
    /// first fault in a field's default.
    pub fn generate_component_soa(&self, c: &ComponentSOADef) -> (r: Result<String, GenerationError>)
        ensures
            generated_view(r) == spec_generate_record(spec_component_soa_comment(), c@),
    {
        generate_record(
            self,
            "// SOA (Structure-of-Arrays) component - optimized for ECS iteration\n",
            &c.name,
            &c.fields,
        )
    }

    /// The parameter list of the constructor of a declaration with these fields.
    pub fn generate_constructor_params(&self, fields: &Vec<Field>) -> (r: String)
        ensures
            r@ == spec_join(spec_param_texts(views(fields@), false, true), ", "@),
    {
        let params = constructor_param_texts(self, fields);
        join(&params, ", ")
    }

    /// The text of a type alias.
    pub fn generate_type_alias(&self, alias: &TypeAliasDef) -> (r: String)
        ensures
            r@ == spec_alias_text(alias@),
    {
        let target = self.type_to_cpp(&alias.target_type);
        let mut out = "using ".to_owned();
        out.append(alias.name.as_str());
        out.append(" = ");
        out.append(target.as_str());
        out.append(";\n");
        out
    }

    /// The declaration of an extern function, whether or not a default has a fault.
    pub fn extern_text(&self, f: &ExternFunctionDef) -> (r: String)
        ensures
            r@ == spec_extern_text(f@),
    {
        let return_text = self.type_to_cpp_extern(&f.return_type);
        let params = param_texts(self, &f.params, true, true);
        let joined = join(&params, ", ");
        let mut out = "extern \"C\" {\n".to_owned();
        out.append("    ");
        out.append(return_text.as_str());
        out.append(" ");
        out.append(f.name.as_str());
        out.append("(");
        out.append(joined.as_str());
        out.append(");\n");
        out.append("}\n");
        out
    }
}

} // verus!
