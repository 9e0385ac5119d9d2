//! Shaders: where a shader's source is looked for, and how its compiled
//! binary is embedded in the generated code.

use crate::ast::{ShaderDef, ShaderStage, SpecShaderDef};
use crate::codegen::expressions::{generated_view, GenerationError, SpecGenerationError};
use crate::codegen::CodeGenerator;
use crate::text::{push_hex_byte, spec_hex_byte};
use vstd::prelude::*;

verus! {

/// What came of compiling one shader.
#[derive(Debug, Clone, PartialEq, Eq)]
pub enum ShaderBuild {
    /// The source file was in none of the places searched.
    SourceNotFound,
    /// The compiler could not be run or reported failure; the text is what it
    /// wrote to its error stream.
    CompilerFailed(String),
    /// The compiler reported success and left no binary to read.
    BinaryMissing,
    /// The compiled binary.
    Compiled(Vec<u8>),
}

/// Model of [`ShaderBuild`].
pub enum SpecShaderBuild {
    SourceNotFound,
    CompilerFailed(Seq<char>),
    BinaryMissing,
    Compiled(Seq<u8>),
}

impl View for ShaderBuild {
    type V = SpecShaderBuild;

    open spec fn view(&self) -> SpecShaderBuild {
        match self {
            ShaderBuild::SourceNotFound => SpecShaderBuild::SourceNotFound,
            ShaderBuild::CompilerFailed(d) => SpecShaderBuild::CompilerFailed(d@),
            ShaderBuild::BinaryMissing => SpecShaderBuild::BinaryMissing,
            ShaderBuild::Compiled(b) => SpecShaderBuild::Compiled(b@),
        }
    }
}

/// The name of a stage as the shader compiler takes it.
pub open spec fn spec_stage_flag(stage: ShaderStage) -> Seq<char> {
    match stage {
        ShaderStage::Vertex => "vertex"@,
        ShaderStage::Fragment => "fragment"@,
        ShaderStage::Compute => "compute"@,
        ShaderStage::Geometry => "geometry"@,
        ShaderStage::TessellationControl => "tessellationControl"@,
        ShaderStage::TessellationEvaluation => "tessellationEvaluation"@,
    }
}

/// The name of a stage as the shader compiler takes it.
pub fn stage_flag(stage: ShaderStage) -> (r: &'static str)
    ensures
        r@ == spec_stage_flag(stage),
{
    match stage {
        ShaderStage::Vertex => "vertex",
        ShaderStage::Fragment => "fragment",
        ShaderStage::Compute => "compute",
        ShaderStage::Geometry => "geometry",
        ShaderStage::TessellationControl => "tessellationControl",
        ShaderStage::TessellationEvaluation => "tessellationEvaluation",
    }
}

/// The places where a shader's source is looked for, in order: the path as
/// declared, then the file's name under `shaders`, then under `../shaders`.
pub open spec fn spec_shader_candidates(path: Seq<char>, file_name: Seq<char>) -> Seq<Seq<char>> {
    seq![path, "shaders/"@ + file_name, "../shaders/"@ + file_name]
}

/// The places where a shader's source is looked for, in order. `file_name` is
/// the last component of `path`.
pub fn shader_candidates(path: &str, file_name: &str) -> (r: Vec<String>)
    ensures
        r@.map_values(|p: String| p@) == spec_shader_candidates(path@, file_name@),
{
    let mut out: Vec<String> = Vec::new();
    out.push(path.to_owned());
    let mut local = "shaders/".to_owned();
    local.append(file_name);
    out.push(local);
    let mut sibling = "../shaders/".to_owned();
    sibling.append(file_name);
    out.push(sibling);
    assert(out@.map_values(|p: String| p@) =~= spec_shader_candidates(path@, file_name@));
    out
}

/// The text of byte `i` in the table of a binary of `len` bytes: sixteen
/// bytes to a line, each as `0x` and two hexadecimal digits with a comma
/// after it; a line starts with four spaces.
pub open spec fn spec_byte_text(b: u8, i: int, len: int) -> Seq<char> {
    (if i % 16 == 0 {
        "    "@
    } else {
        Seq::empty()
    }) + "0x"@ + spec_hex_byte(b) + ","@ + (if i % 16 == 15 || i == len - 1 {
        "\n"@
    } else {
        " "@
    })
}

/// The text of the first `n` bytes of the table of a binary.
pub open spec fn spec_byte_table(bytes: Seq<u8>, n: nat) -> Seq<char>
    decreases n,
{
    if n == 0 || n > bytes.len() {
        Seq::empty()
    } else {
        spec_byte_table(bytes, (n - 1) as nat) + spec_byte_text(
            bytes[n - 1],
            n - 1,
            bytes.len() as int,
        )
    }
}

/// The generated text of a compiled shader: the binary as a table of bytes,
/// its size, and a function that hands it out as 32-bit words.
pub open spec fn spec_embedded_shader_text(name: Seq<char>, stage: ShaderStage, bytes: Seq<u8>) -> Seq<
    char,
> {
    "// Shader: "@ + name + " ("@ + spec_stage_flag(stage) + " stage)\n"@
        + "static const uint8_t "@ + name + "_spirv[] = {\n"@ + spec_byte_table(bytes, bytes.len())
        + "};\n"@ + "static const size_t "@ + name + "_spirv_size = sizeof("@ + name
        + "_spirv);\n\n"@ + "// Helper function to load "@ + name + " shader\n"@
        + "inline std::vector<uint32_t> load_"@ + name + "_shader() {\n"@
        + "    return std::vector<uint32_t>(reinterpret_cast<const uint32_t*>("@ + name
        + "_spirv),\n"@ + "        reinterpret_cast<const uint32_t*>("@ + name + "_spirv) + ("@
        + name + "_spirv_size / sizeof(uint32_t)));\n"@ + "}\n\n"@
}

/// The outcome of generating a shader: the embedded binary where the shader
/// was compiled, else the error that says what went wrong with it.
pub open spec fn spec_generate_shader(shader: SpecShaderDef, build: SpecShaderBuild) -> Result<
    Seq<char>,
    SpecGenerationError,
> {
    match build {
        SpecShaderBuild::SourceNotFound => Err(
            SpecGenerationError::ShaderSourceNotFound(shader.path),
        ),
        SpecShaderBuild::CompilerFailed(diagnostics) => Err(
            SpecGenerationError::ShaderCompilationFailed { path: shader.path, diagnostics },
        ),
        SpecShaderBuild::BinaryMissing => Err(SpecGenerationError::ShaderBinaryMissing(shader.path)),
        SpecShaderBuild::Compiled(bytes) => Ok(
            spec_embedded_shader_text(shader.name, shader.stage, bytes),
        ),
    }
}

/// The generated text of a compiled shader.
pub fn embedded_shader_text(name: &str, stage: ShaderStage, bytes: &Vec<u8>) -> (r: String)
    ensures
        r@ == spec_embedded_shader_text(name@, stage, bytes@),
{
    let mut out = "// Shader: ".to_owned();
    out.append(name);
    out.append(" (");
    out.append(stage_flag(stage));
    out.append(" stage)\n");
    out.append("static const uint8_t ");
    out.append(name);
    out.append("_spirv[] = {\n");
    let ghost head = out@;
    let mut i: usize = 0;
    while i < bytes.len()
        invariant
            i <= bytes.len(),
            out@ == head + spec_byte_table(bytes@, i as nat),
        decreases bytes.len() - i,
    {
        let ghost before = out@;
        if i % 16 == 0 {
            out.append("    ");
        } else {
            assert(out@ =~= before + Seq::<char>::empty());
        }
        out.append("0x");
        push_hex_byte(&mut out, bytes[i]);
        out.append(",");
        if i % 16 == 15 || i == bytes.len() - 1 {
            out.append("\n");
        } else {
            out.append(" ");
        }
        assert(out@ =~= before + spec_byte_text(bytes@[i as int], i as int, bytes@.len() as int));
        i += 1;
    }
    out.append("};\n");
    out.append("static const size_t ");
    out.append(name);
    out.append("_spirv_size = sizeof(");
    out.append(name);
    out.append("_spirv);\n\n");
    out.append("// Helper function to load ");
    out.append(name);
    out.append(" shader\n");
    out.append("inline std::vector<uint32_t> load_");
    out.append(name);
    out.append("_shader() {\n");
    out.append("    return std::vector<uint32_t>(reinterpret_cast<const uint32_t*>(");
    out.append(name);
    out.append("_spirv),\n");
    out.append("        reinterpret_cast<const uint32_t*>(");
    out.append(name);
    out.append("_spirv) + (");
    out.append(name);
    out.append("_spirv_size / sizeof(uint32_t)));\n");
    out.append("}\n\n");
    out
}

impl CodeGenerator {
    /// The generated text of a shader, given what came of compiling it.
    pub fn generate_shader(&self, shader: &ShaderDef, build: &ShaderBuild) -> (r: Result<
        String,
        GenerationError,
    >)
        ensures
            generated_view(r) == spec_generate_shader(shader@, build@),
    {
        match build {
            ShaderBuild::SourceNotFound => Err(
                GenerationError::ShaderSourceNotFound(shader.path.clone()),
            ),
            ShaderBuild::CompilerFailed(diagnostics) => Err(
                GenerationError::ShaderCompilationFailed {
                    path: shader.path.clone(),
                    diagnostics: diagnostics.clone(),
                },
            ),
            ShaderBuild::BinaryMissing => Err(
                GenerationError::ShaderBinaryMissing(shader.path.clone()),
            ),
            ShaderBuild::Compiled(bytes) => Ok(
                embedded_shader_text(shader.name.as_str(), shader.stage, bytes),
            ),
        }
    }
}

} // verus!
