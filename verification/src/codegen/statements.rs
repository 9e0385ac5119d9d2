//! How statements and functions are written in the generated code.

use crate::ast::{
    stmt_view, stmts_view, views, FunctionDef, Param, SpecField, SpecFunctionDef, SpecStatement,
    Statement, Type,
};
use crate::codegen::expressions::{
    fault_view, generated_view, or_else, spec_expression_fault, spec_expression_text,
    GenerationError, SpecGenerationError,
};
use crate::codegen::types::spec_type_text;
use crate::codegen::CodeGenerator;
use crate::error::{first_error, lemma_first_error_at, lemma_first_error_none};
use crate::text::{join, repeat, spec_join, spec_repeat, str_equal, texts};
use vstd::prelude::*;

verus! {

/// The indentation of nesting level `level`: four spaces for each level.
pub open spec fn spec_indent(level: nat) -> Seq<char> {
    spec_repeat("    "@, level)
}

/// The generated text of a statement that is indented by `pad`. The statements
/// of a nested block are indented by four spaces more.
pub open spec fn spec_statement_text(s: SpecStatement, pad: Seq<char>) -> Seq<char>
    decreases s, 0nat,
{
    match s {
        SpecStatement::Let { name, ty, value } => pad + (match ty {
            Some(t) => spec_type_text(t, false),
            None => "auto"@,
        }) + " "@ + name + " = "@ + spec_expression_text(value) + ";\n"@,
        SpecStatement::Assign { target, value } => pad + spec_expression_text(target) + " = "@
            + spec_expression_text(value) + ";\n"@,
        SpecStatement::If { condition, then_block, else_block } => pad + "if ("@
            + spec_expression_text(condition) + ") {\n"@ + spec_block_text(
            then_block,
            then_block.len(),
            pad + "    "@,
        ) + (match else_block {
            Some(b) => pad + "} else {\n"@ + spec_block_text(b, b.len(), pad + "    "@),
            None => Seq::empty(),
        }) + pad + "}\n"@,
        SpecStatement::While { condition, body } => pad + "while ("@ + spec_expression_text(
            condition,
        ) + ") {\n"@ + spec_block_text(body, body.len(), pad + "    "@) + pad + "}\n"@,
        SpecStatement::Loop { body } => pad + "while (true) {\n"@ + spec_block_text(
            body,
            body.len(),
            pad + "    "@,
        ) + pad + "}\n"@,
        SpecStatement::Return(value) => match value {
            Some(e) => pad + "return "@ + spec_expression_text(e) + ";\n"@,
            None => pad + "return 0;\n"@,
        },
        SpecStatement::Expression(e) => pad + spec_expression_text(e) + ";\n"@,
        SpecStatement::Block(b) => pad + "{\n"@ + spec_block_text(b, b.len(), pad + "    "@) + pad
            + "}\n"@,
    }
}

/// The generated text of the first `n` statements of a list, each indented by `pad`.
pub open spec fn spec_block_text(ss: Seq<SpecStatement>, n: nat, pad: Seq<char>) -> Seq<char>
    decreases ss, n,
{
    if n == 0 || n > ss.len() {
        Seq::empty()
    } else {
        spec_block_text(ss, (n - 1) as nat, pad) + spec_statement_text(ss[n - 1], pad)
    }
}

/// The first fault in a statement, in the order in which its parts are written out.
pub open spec fn spec_statement_fault(s: SpecStatement) -> Option<SpecGenerationError>
    decreases s, 0nat,
{
    match s {
        SpecStatement::Let { name, ty, value } => spec_expression_fault(value),
        SpecStatement::Assign { target, value } => or_else(
            spec_expression_fault(target),
            spec_expression_fault(value),
        ),
        SpecStatement::If { condition, then_block, else_block } => or_else(
            spec_expression_fault(condition),
            or_else(
                spec_block_fault(then_block, then_block.len()),
                match else_block {
                    Some(b) => spec_block_fault(b, b.len()),
                    None => None,
                },
            ),
        ),
        SpecStatement::While { condition, body } => or_else(
            spec_expression_fault(condition),
            spec_block_fault(body, body.len()),
        ),
        SpecStatement::Loop { body } => spec_block_fault(body, body.len()),
        SpecStatement::Return(value) => match value {
            Some(e) => spec_expression_fault(e),
            None => None,
        },
        SpecStatement::Expression(e) => spec_expression_fault(e),
        SpecStatement::Block(b) => spec_block_fault(b, b.len()),
    }
}

/// The first fault in the first `n` statements of a list.
pub open spec fn spec_block_fault(ss: Seq<SpecStatement>, n: nat) -> Option<SpecGenerationError>
    decreases ss, n,
{
    if n == 0 || n > ss.len() {
        None
    } else {
        or_else(spec_block_fault(ss, (n - 1) as nat), spec_statement_fault(ss[n - 1]))
    }
}

/// The outcome of generating a statement at nesting level `indent`: its first
/// fault, or its text, indented by four spaces more than the level's own.
pub open spec fn spec_generate_statement(s: SpecStatement, indent: nat) -> Result<
    Seq<char>,
    SpecGenerationError,
> {
    match spec_statement_fault(s) {
        Some(x) => Err(x),
        None => Ok(spec_statement_text(s, spec_indent(indent) + "    "@)),
    }
}

/// The text of a parameter: its type and name, and its default after ` = `
/// where it has one and `with_default` asks for it.
pub open spec fn spec_param_text(p: SpecField, is_extern: bool, with_default: bool) -> Seq<char> {
    spec_type_text(p.ty, is_extern) + " "@ + p.name + (match p.default_value {
        Some(e) => if with_default {
            " = "@ + spec_expression_text(e)
        } else {
            Seq::empty()
        },
        None => Seq::empty(),
    })
}

/// The texts of a list of parameters, in order.
pub open spec fn spec_param_texts(params: Seq<SpecField>, is_extern: bool, with_default: bool) -> Seq<
    Seq<char>,
> {
    params.map_values(|p: SpecField| spec_param_text(p, is_extern, with_default))
}

/// The first fault among the defaults of a list of parameters or fields.
pub open spec fn spec_defaults_fault(params: Seq<SpecField>) -> Option<SpecGenerationError> {
    first_error(
        params.map_values(
            |p: SpecField|
                match p.default_value {
                    Some(e) => spec_expression_fault(e),
                    None => None,
                },
        ),
    )
}

/// The generated name of a function: `main` gives way to the host's entry point.
pub open spec fn spec_function_name(name: Seq<char>) -> Seq<char> {
    if name == "main"@ {
        "heidic_main"@
    } else {
        name
    }
}

/// Whether a function is a `main` that returns nothing: it is generated as
/// one that returns `int`.
pub open spec fn is_void_main(f: SpecFunctionDef) -> bool {
    f.name == "main"@ && f.return_type is Void
}

/// The generated return type of a function.
pub open spec fn spec_return_text(f: SpecFunctionDef) -> Seq<char> {
    if is_void_main(f) {
        "int"@
    } else {
        spec_type_text(f.return_type, false)
    }
}

/// The forward declaration of a top-level function.
pub open spec fn spec_forward_text(f: SpecFunctionDef) -> Seq<char> {
    spec_return_text(f) + " "@ + spec_function_name(f.name) + "("@ + spec_join(
        spec_param_texts(f.params, false, false),
        ", "@,
    ) + ");\n"@
}

/// The forward declaration of a function of a system: under its own name and
/// return type, whatever it is called.
pub open spec fn spec_member_forward_text(f: SpecFunctionDef) -> Seq<char> {
    spec_type_text(f.return_type, false) + " "@ + f.name + "("@ + spec_join(
        spec_param_texts(f.params, false, false),
        ", "@,
    ) + ");\n"@
}

/// The definition of a function: the header with the parameters' defaults,
/// the body one level in, `return 0;` at the end of a `main` that returns
/// nothing, and an empty line after the closing brace.
pub open spec fn spec_function_text(f: SpecFunctionDef) -> Seq<char> {
    spec_return_text(f) + " "@ + spec_function_name(f.name) + "("@ + spec_join(
        spec_param_texts(f.params, false, true),
        ", "@,
    ) + ") {\n"@ + spec_block_text(f.body, f.body.len(), "    "@ + "    "@) + (if is_void_main(f) {
        "    "@ + "    return 0;\n"@
    } else {
        Seq::empty()
    }) + "}\n\n"@
}

/// The first fault in a function: in a parameter's default, else in the body.
pub open spec fn spec_function_fault(f: SpecFunctionDef) -> Option<SpecGenerationError> {
    or_else(spec_defaults_fault(f.params), spec_block_fault(f.body, f.body.len()))
}

/// The first fault among the defaults of a list of parameters.
pub fn defaults_fault(generator: &CodeGenerator, params: &Vec<Param>) -> (r: Option<GenerationError>)
    ensures
        fault_view(r) == spec_defaults_fault(views(params@)),
{
    let ghost faults = views(params@).map_values(
        |p: SpecField|
            match p.default_value {
                Some(e) => spec_expression_fault(e),
                None => None,
            },
    );
    let mut i: usize = 0;
    while i < params.len()
        invariant
            i <= params.len(),
            faults == views(params@).map_values(
                |p: SpecField|
                    match p.default_value {
                        Some(e) => spec_expression_fault(e),
                        None => None,
                    },
            ),
            forall|j: int| 0 <= j < i ==> faults[j] is None,
        decreases params.len() - i,
    {
        assert(views(params@)[i as int] == params[i as int]@);
        match &params[i].default_value {
            Some(e) => match generator.expression_fault(e) {
                Some(x) => {
                    proof {
                        lemma_first_error_at(faults, i as int);
                    }
                    return Some(x);
                },
                None => {},
            },
            None => {},
        }
        i += 1;
    }
    proof {
        lemma_first_error_none(faults);
    }
    None
}

/// The texts of a list of parameters, in order.
pub fn param_texts(
    generator: &CodeGenerator,
    params: &Vec<Param>,
    is_extern: bool,
    with_default: bool,
) -> (r: Vec<String>)
    ensures
        texts(r@) == spec_param_texts(views(params@), is_extern, with_default),
{
    let mut out: Vec<String> = Vec::new();
    let mut i: usize = 0;
    while i < params.len()
        invariant
            i <= params.len(),
            out.len() == i,
            forall|j: int|
                0 <= j < i ==> out[j]@ == spec_param_text(params[j]@, is_extern, with_default),
        decreases params.len() - i,
    {
        let p = &params[i];
        let mut piece = generator.type_to_cpp_internal(&p.ty, is_extern);
        piece.append(" ");
        piece.append(p.name.as_str());
        match &p.default_value {
            Some(e) => {
                if with_default {
                    let value = generator.expression_text(e);
                    piece.append(" = ");
                    piece.append(value.as_str());
                    assert(piece@ =~= spec_param_text(p@, is_extern, with_default));
                } else {
                    assert(piece@ =~= spec_param_text(p@, is_extern, with_default));
                }
            },
            None => {
                assert(piece@ =~= spec_param_text(p@, is_extern, with_default));
            },
        }
        out.push(piece);
        i += 1;
    }
    assert(texts(out@) =~= spec_param_texts(views(params@), is_extern, with_default));
    out
}

fn type_is_void(t: &Type) -> (r: bool)
    ensures
        r == (t@ is Void),
{
    match t {
        Type::Void => true,
        _ => false,
    }
}

impl CodeGenerator {
    /// The indentation of nesting level `level`.
    pub fn indent(&self, level: usize) -> (r: String)
        ensures
            r@ == spec_indent(level as nat),
    {
        repeat("    ", level)
    }

    /// The generated text of a statement that is indented by `pad`, whether or
    /// not it has a fault.
    pub fn statement_text(&self, stmt: &Statement, pad: &str) -> (r: String)
        ensures
            r@ == spec_statement_text(stmt@, pad@),
        decreases stmt, 0nat,
    {
        let mut out = pad.to_owned();
        match stmt {
            Statement::Let { name, ty, value } => {
                match ty {
                    Some(t) => {
                        let type_text = self.type_to_cpp(t);
                        out.append(type_text.as_str());
                    },
                    None => {
                        out.append("auto");
                    },
                }
                let value_text = self.expression_text(value);
                out.append(" ");
                out.append(name.as_str());
                out.append(" = ");
                out.append(value_text.as_str());
                out.append(";\n");
                assert(out@ == spec_statement_text(stmt@, pad@));
            },
            Statement::Assign { target, value } => {
                let target_text = self.expression_text(target);
                let value_text = self.expression_text(value);
                out.append(target_text.as_str());
                out.append(" = ");
                out.append(value_text.as_str());
                out.append(";\n");
                assert(out@ == spec_statement_text(stmt@, pad@));
            },
            Statement::If { condition, then_block, else_block } => {
                let mut inner = pad.to_owned();
                inner.append("    ");
                let condition_text = self.expression_text(condition);
                let then_text = self.block_text(then_block, inner.as_str());
                out.append("if (");
                out.append(condition_text.as_str());
                out.append(") {\n");
                out.append(then_text.as_str());
                let ghost before_else = out@;
                match else_block {
                    Some(b) => {
                        let else_text = self.block_text(b, inner.as_str());
                        out.append(pad);
                        out.append("} else {\n");
                        out.append(else_text.as_str());
                        assert(out@ =~= before_else + (pad@ + "} else {\n"@ + else_text@));
                    },
                    None => {
                        assert(out@ =~= before_else + Seq::<char>::empty());
                    },
                }
                let ghost before_close = out@;
                out.append(pad);
                out.append("}\n");
                assert(out@ =~= before_close + pad@ + "}\n"@);
                assert(out@ == spec_statement_text(stmt@, pad@));
            },
            Statement::While { condition, body } => {
                let mut inner = pad.to_owned();
                inner.append("    ");
                let condition_text = self.expression_text(condition);
                let body_text = self.block_text(body, inner.as_str());
                out.append("while (");
                out.append(condition_text.as_str());
                out.append(") {\n");
                out.append(body_text.as_str());
                out.append(pad);
                out.append("}\n");
                assert(out@ == spec_statement_text(stmt@, pad@));
            },
            Statement::Loop { body } => {
                let mut inner = pad.to_owned();
                inner.append("    ");
                let body_text = self.block_text(body, inner.as_str());
                out.append("while (true) {\n");
                out.append(body_text.as_str());
                out.append(pad);
                out.append("}\n");
                assert(out@ == spec_statement_text(stmt@, pad@));
            },
            Statement::Return(value) => match value {
                Some(e) => {
                    let value_text = self.expression_text(e);
                    out.append("return ");
                    out.append(value_text.as_str());
                    out.append(";\n");
                    assert(out@ == spec_statement_text(stmt@, pad@));
                },
                None => {
                    out.append("return 0;\n");
                    assert(out@ == spec_statement_text(stmt@, pad@));
                },
            },
            Statement::Expression(e) => {
                let value_text = self.expression_text(e);
                out.append(value_text.as_str());
                out.append(";\n");
                assert(out@ == spec_statement_text(stmt@, pad@));
            },
            Statement::Block(b) => {
                let mut inner = pad.to_owned();
                inner.append("    ");
                let body_text = self.block_text(b, inner.as_str());
                out.append("{\n");
                out.append(body_text.as_str());
                out.append(pad);
                out.append("}\n");
                assert(out@ == spec_statement_text(stmt@, pad@));
            },
        }
        out
    }

    /// The generated text of a list of statements, each indented by `pad`.
    pub fn block_text(&self, stmts: &Vec<Statement>, pad: &str) -> (r: String)
        ensures
            r@ == spec_block_text(stmts_view(*stmts), stmts.len() as nat, pad@),
        decreases stmts, stmts.len(),
    {
        let mut out = String::new();
        let mut i: usize = 0;
        while i < stmts.len()
            invariant
                i <= stmts.len(),
                stmts_view(*stmts).len() == stmts.len(),
                out@ == spec_block_text(stmts_view(*stmts), i as nat, pad@),
            decreases stmts.len() - i,
        {
            proof {
                vstd::std_specs::vec::axiom_vec_index_decreases(*stmts, i as int);
                assert(stmts_view(*stmts)[i as int] == stmt_view(stmts[i as int]));
            }
            let piece = self.statement_text(&stmts[i], pad);
            out.append(piece.as_str());
            i += 1;
        }
        out
    }

    /// The first fault in a statement, if there is one.
    pub fn statement_fault(&self, stmt: &Statement) -> (r: Option<GenerationError>)
        ensures
            fault_view(r) == spec_statement_fault(stmt@),
        decreases stmt, 0nat,
    {
        match stmt {
            Statement::Let { name, ty, value } => self.expression_fault(value),
            Statement::Assign { target, value } => match self.expression_fault(target) {
                Some(x) => Some(x),
                None => self.expression_fault(value),
            },
            Statement::If { condition, then_block, else_block } => {
                match self.expression_fault(condition) {
                    Some(x) => Some(x),
                    None => match self.block_fault(then_block) {
                        Some(x) => Some(x),
                        None => match else_block {
                            Some(b) => self.block_fault(b),
                            None => None,
                        },
                    },
                }
            },
            Statement::While { condition, body } => match self.expression_fault(condition) {
                Some(x) => Some(x),
                None => self.block_fault(body),
            },
            Statement::Loop { body } => self.block_fault(body),
            Statement::Return(value) => match value {
                Some(e) => self.expression_fault(e),
                None => None,
            },
            Statement::Expression(e) => self.expression_fault(e),
            Statement::Block(b) => self.block_fault(b),
        }
    }

    /// The first fault in a list of statements, if there is one.
    pub fn block_fault(&self, stmts: &Vec<Statement>) -> (r: Option<GenerationError>)
        ensures
            fault_view(r) == spec_block_fault(stmts_view(*stmts), stmts.len() as nat),
        decreases stmts, stmts.len(),
    {
        let mut i: usize = 0;
        while i < stmts.len()
            invariant
                i <= stmts.len(),
                stmts_view(*stmts).len() == stmts.len(),
                spec_block_fault(stmts_view(*stmts), i as nat) is None,
            decreases stmts.len() - i,
        {
            proof {
                vstd::std_specs::vec::axiom_vec_index_decreases(*stmts, i as int);
                assert(stmts_view(*stmts)[i as int] == stmt_view(stmts[i as int]));
            }
            match self.statement_fault(&stmts[i]) {
                Some(x) => {
                    proof {
                        lemma_block_fault_stays(
                            stmts_view(*stmts),
                            (i + 1) as nat,
                            stmts.len() as nat,
                        );
                    }
                    return Some(x);
                },
                None => {},
            }
            i += 1;
        }
        None
    }

    /// The generated text of a statement at nesting level `indent`, or its
    /// first fault.
    pub fn generate_statement(&self, stmt: &Statement, indent: usize) -> (r: Result<
        String,
        GenerationError,
    >)
        ensures
            generated_view(r) == spec_generate_statement(stmt@, indent as nat),
    {
        match self.statement_fault(stmt) {
            Some(x) => Err(x),
            None => {
                let mut pad = self.indent(indent);
                pad.append("    ");
                Ok(self.statement_text(stmt, pad.as_str()))
            },
        }
    }

    /// The definition of a function, whether or not it has a fault.
    pub fn function_text(&self, f: &FunctionDef) -> (r: String)
        ensures
            r@ == spec_function_text(f@),
    {
        let is_main = str_equal(f.name.as_str(), "main");
        let void_main = is_main && type_is_void(&f.return_type);
        let mut out = if void_main {
            "int".to_owned()
        } else {
            self.type_to_cpp(&f.return_type)
        };
        out.append(" ");
        if is_main {
            out.append("heidic_main");
        } else {
            out.append(f.name.as_str());
        }
        out.append("(");
        let params = param_texts(self, &f.params, false, true);
        let joined = join(&params, ", ");
        out.append(joined.as_str());
        out.append(") {\n");
        let mut pad = "    ".to_owned();
        pad.append("    ");
        let body = self.block_text(&f.body, pad.as_str());
        out.append(body.as_str());
        let ghost before_tail = out@;
        if void_main {
            out.append("    ");
            out.append("    return 0;\n");
            assert(out@ =~= before_tail + ("    "@ + "    return 0;\n"@));
        } else {
            assert(out@ =~= before_tail + Seq::<char>::empty());
        }
        out.append("}\n\n");
        out
    }

    /// The first fault in a function, if there is one.
    pub fn function_fault(&self, f: &FunctionDef) -> (r: Option<GenerationError>)
        ensures
            fault_view(r) == spec_function_fault(f@),
    {
        match defaults_fault(self, &f.params) {
            Some(x) => Some(x),
            None => self.block_fault(&f.body),
        }
    }

    /// The definition of a function at nesting level 0, or its first fault.
    pub fn generate_function(&self, f: &FunctionDef) -> (r: Result<String, GenerationError>)
        ensures
            generated_view(r) == (match spec_function_fault(f@) {
                Some(x) => Err::<Seq<char>, SpecGenerationError>(x),
                None => Ok(spec_function_text(f@)),
            }),
    {
        match self.function_fault(f) {
            Some(x) => Err(x),
            None => Ok(self.function_text(f)),
        }
    }

    /// The forward declaration of a function; `member` tells a function of a
    /// system from a top-level one.
    pub fn forward_text(&self, f: &FunctionDef, member: bool) -> (r: String)
        ensures
            r@ == if member {
                spec_member_forward_text(f@)
            } else {
                spec_forward_text(f@)
            },
    {
        let is_main = str_equal(f.name.as_str(), "main");
        let mut out = if !member && is_main && type_is_void(&f.return_type) {
            "int".to_owned()
        } else {
            self.type_to_cpp(&f.return_type)
        };
        out.append(" ");
        if !member && is_main {
            out.append("heidic_main");
        } else {
            out.append(f.name.as_str());
        }
        out.append("(");
        let params = param_texts(self, &f.params, false, false);
        let joined = join(&params, ", ");
        out.append(joined.as_str());
        out.append(");\n");
        out
    }
}

/// Once a prefix of a block has a fault, every longer prefix has the same first fault.
pub proof fn lemma_block_fault_stays(ss: Seq<SpecStatement>, n: nat, m: nat)
    requires
        n <= m <= ss.len(),
        spec_block_fault(ss, n) is Some,
    ensures
        spec_block_fault(ss, m) == spec_block_fault(ss, n),
    decreases m,
{
    if n < m {
        lemma_block_fault_stays(ss, n, (m - 1) as nat);
    }
}

} // verus!
