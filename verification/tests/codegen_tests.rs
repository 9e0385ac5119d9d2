use heidic::ast::{
    BinaryOp, Expression, ExternFunctionDef, Field, FunctionDef, Item, Literal, Param, Program,
    ShaderDef, ShaderStage, Statement, StructDef, Type, TypeAliasDef, UnaryOp,
};
use heidic::codegen::expressions::{
    call_text, callee_text, literal_text, method_call_text, unit_text, GenerationError,
};
use heidic::codegen::headers::{header_text, RequiredHeaders};
use heidic::codegen::queries::{query_text, QueryComponent};
use heidic::codegen::shaders::{embedded_shader_text, shader_candidates, stage_flag, ShaderBuild};
use heidic::codegen::types::query_name;
use heidic::codegen::CodeGenerator;
use heidic::lexer::Lexer;
use heidic::parser::{ParseStep, Parser};
use heidic::text::{
    chars_of, contains_text, decimal, decimal_usize, join, repeat, skip_chars,
    starts_with, str_equal, string_of,
};

fn program_of(source: &str) -> Program {
    let tokens = Lexer::new(source).tokenize().unwrap();
    match Parser::new(tokens).parse().unwrap() {
        ParseStep::Done(program) => program,
        other => panic!("not done: {:?}", other),
    }
}

fn statements_of(source: &str) -> Vec<Statement> {
    let program = program_of(&format!("fn f() {{ {} }}", source));
    match program.items.into_iter().next().unwrap() {
        Item::Function(f) => f.body,
        other => panic!("not a function: {:?}", other),
    }
}

fn expression_of(source: &str) -> Expression {
    match statements_of(&format!("{};", source)).into_iter().next().unwrap() {
        Statement::Expression(e) => e,
        other => panic!("not an expression: {:?}", other),
    }
}

fn text_of(source: &str) -> String {
    CodeGenerator::new().generate_expression(&expression_of(source)).unwrap()
}

fn generate(source: &str) -> String {
    CodeGenerator::new().generate(&program_of(source), &vec![]).unwrap()
}

#[test]
fn text_helpers() {
    assert_eq!(chars_of("aé"), vec!['a', 'é']);
    assert_eq!(string_of(&vec!['a', 'b', 'c', 'd'], 1, 3), "bc");
    assert_eq!(string_of(&vec!['a'], 1, 1), "");
    assert!(str_equal("ab", "ab"));
    assert!(!str_equal("ab", "abc"));
    assert!(starts_with("stdlib/x", "stdlib/"));
    assert!(!starts_with("std", "stdlib/"));
    assert!(starts_with("x", ""));
    assert_eq!(skip_chars("ImGui_Begin", 6), "Begin");
    assert!(contains_text("a/examples/b", "examples"));
    assert!(contains_text("abc", ""));
    assert!(!contains_text("exampl", "examples"));
    assert!(contains_text("xxexamples", "examples"));
    assert_eq!(join(&vec![], ", "), "");
    assert_eq!(join(&vec!["a".to_string()], ", "), "a");
    assert_eq!(join(&vec!["a".to_string(), "b".to_string(), "c".to_string()], ", "), "a, b, c");
    assert_eq!(repeat("ab", 3), "ababab");
    assert_eq!(repeat("ab", 0), "");
}

#[test]
fn decimal_text() {
    assert_eq!(decimal(0), "0");
    assert_eq!(decimal(7), "7");
    assert_eq!(decimal(1234567890), "1234567890");
    assert_eq!(decimal(-1), "-1");
    assert_eq!(decimal(-120), "-120");
    assert_eq!(decimal(i64::MAX), "9223372036854775807");
    assert_eq!(decimal(i64::MIN), "-9223372036854775808");
    assert_eq!(decimal_usize(0), "0");
    assert_eq!(decimal_usize(4096), "4096");
}

#[test]
fn spelling_of_types() {
    let g = CodeGenerator::new();
    assert_eq!(g.type_to_cpp(&Type::I32), "int32_t");
    assert_eq!(g.type_to_cpp(&Type::I64), "int64_t");
    assert_eq!(g.type_to_cpp(&Type::F32), "float");
    assert_eq!(g.type_to_cpp(&Type::F64), "double");
    assert_eq!(g.type_to_cpp(&Type::Bool), "bool");
    assert_eq!(g.type_to_cpp(&Type::Void), "void");
    assert_eq!(g.type_to_cpp(&Type::String), "std::string");
    assert_eq!(g.type_to_cpp_extern(&Type::String), "const char*");
    assert_eq!(g.type_to_cpp_internal(&Type::String, true), "const char*");
    assert_eq!(g.type_to_cpp(&Type::GLFWwindow), "GLFWwindow*");
    assert_eq!(g.type_to_cpp(&Type::GLFWbool), "int32_t");
    assert_eq!(g.type_to_cpp(&Type::VkCommandBuffer), "VkCommandBuffer");
    assert_eq!(g.type_to_cpp(&Type::Mat4), "Mat4");
    assert_eq!(g.type_to_cpp(&Type::Camera), "Camera");
    assert_eq!(g.type_to_cpp(&Type::FrameArena), "FrameArena");
    assert_eq!(g.type_to_cpp(&Type::Struct("Mesh".to_string())), "Mesh");
    assert_eq!(g.type_to_cpp(&Type::Shader("basic".to_string())), "basic");
    assert_eq!(
        g.type_to_cpp(&Type::Array(Box::new(Type::Array(Box::new(Type::F32))))),
        "std::vector<std::vector<float>>"
    );
    // The element of an array is never spelled as in an extern signature.
    assert_eq!(
        g.type_to_cpp_extern(&Type::Array(Box::new(Type::String))),
        "std::vector<std::string>"
    );
}

#[test]
fn names_of_query_types() {
    let g = CodeGenerator::new();
    let q = vec![
        Type::Component("Position".to_string()),
        Type::Struct("Velocity".to_string()),
        Type::I32,
        Type::ComponentSOA("Mass".to_string()),
    ];
    assert_eq!(query_name(&q), "Query_Position_Velocity_Unknown_Mass");
    assert_eq!(g.type_to_cpp(&Type::Query(q)), "Query_Position_Velocity_Unknown_Mass");
    assert_eq!(query_name(&vec![]), "Query_");
}

#[test]
fn text_of_literals() {
    assert_eq!(literal_text(&Literal::Int(-42)), "-42");
    assert_eq!(literal_text(&Literal::Float("0.0".to_string())), "0.0");
    assert_eq!(literal_text(&Literal::Bool(true)), "true");
    assert_eq!(literal_text(&Literal::Bool(false)), "false");
    assert_eq!(literal_text(&Literal::String("hi".to_string())), "\"hi\"");
}

#[test]
fn text_of_operators() {
    assert_eq!(text_of("a + b * c"), "(a + (b * c))");
    assert_eq!(text_of("a - b - c"), "((a - b) - c)");
    assert_eq!(text_of("a % b / c"), "((a % b) / c)");
    assert_eq!(text_of("a == b != c"), "((a == b) != c)");
    assert_eq!(text_of("a < b"), "(a < b)");
    assert_eq!(text_of("a <= b"), "(a <= b)");
    assert_eq!(text_of("a > b"), "(a > b)");
    assert_eq!(text_of("a >= b"), "(a >= b)");
    assert_eq!(text_of("a && b || c"), "((a && b) || c)");
    assert_eq!(text_of("a | b"), "(a | b)");
    assert_eq!(text_of("!a"), "!(a)");
    assert_eq!(text_of("- a"), "-(a)");
    assert_eq!(text_of("-5"), "-5");
}

#[test]
fn text_of_calls() {
    assert_eq!(text_of("f()"), "f()");
    assert_eq!(text_of("f(1, x, \"s\")"), "f(1, x, \"s\")");
    assert_eq!(text_of("print()"), "std::cout << std::endl");
    assert_eq!(text_of("print(a, 1)"), "std::cout << a << 1 << std::endl");
    assert_eq!(text_of("ImGui_Begin(\"w\")"), "ImGui::Begin(\"w\")");
    assert_eq!(text_of("ImGui_(1)"), "ImGui::(1)");
    assert_eq!(text_of("spawn(x = 1, y = a)"), "spawn(/* x = */ 1, /* y = */ a)");
    assert_eq!(callee_text("ImGui_Text"), "ImGui::Text");
    assert_eq!(callee_text("ImGui::Text"), "ImGui::Text");
    assert_eq!(callee_text("ImGuiText"), "ImGuiText");
    assert_eq!(call_text("g", &vec!["1".to_string(), "2".to_string()]), "g(1, 2)");
}

#[test]
fn text_of_members_methods_and_indexes() {
    assert_eq!(text_of("a.b.c"), "a.b.c");
    assert_eq!(text_of("a[i + 1]"), "a[(i + 1)]");
    assert_eq!(text_of("a.push(1, 2)"), "a.push(1, 2)");
    assert_eq!(text_of("frame.alloc_array<Vec3>(n)"), "frame.alloc_array<Vec3>(n)");
    assert_eq!(text_of("m.get<i32, [f32]>()"), "m.get<int32_t, std::vector<float>>()");
    assert_eq!(
        method_call_text("o", "m", &Some(vec![]), &vec!["x".to_string()]),
        "o.m<>(x)"
    );
}

#[test]
fn text_of_values_with_units() {
    assert_eq!(text_of("64.MiB"), "(64 * 1024 * 1024)");
    assert_eq!(text_of("8.kib"), "(8 * 1024)");
    assert_eq!(text_of("2.Gib"), "(2 * 1024 * 1024 * 1024)");
    assert_eq!(text_of("1.5.MiB"), "(1.5 * 1024 * 1024)");
    assert_eq!(unit_text("3", "TIB"), "3 /* TIB */");
}

#[test]
fn a_pipe_becomes_a_call_with_the_left_side_first() {
    assert_eq!(text_of("5 |> double()"), "double(5)");
    assert_eq!(text_of("5 |> double"), "double(5)");
    assert_eq!(text_of("x |> scale(2, 3)"), "scale(x, 2, 3)");
    assert_eq!(text_of("x |> f() |> g(1)"), "g(f(x), 1)");
    assert_eq!(text_of("x |> print()"), "std::cout << x << std::endl");
    assert_eq!(text_of("x |> ImGui_Text()"), "ImGui::Text(x)");
    assert_eq!(text_of("x |> o.send(1)"), "o.send(x, 1)");
    assert_eq!(text_of("x |> spawn(y = 1)"), "spawn(x, /* y = */ 1)");
    assert_eq!(text_of("x |> o.field"), "o.field(x)");
    assert_eq!(text_of("a + 1 |> f()"), "f((a + 1))");
}

#[test]
fn struct_and_enum_literals() {
    let g = CodeGenerator::new();
    let literal = Expression::StructLiteral {
        name: "P".to_string(),
        fields: vec![
            ("x".to_string(), Expression::Literal(Literal::Int(1))),
            ("y".to_string(), Expression::Variable("b".to_string())),
        ],
    };
    assert_eq!(g.generate_expression(&literal), Ok("P {.x = 1, .y = b}".to_string()));
    let empty = Expression::StructLiteral { name: "P".to_string(), fields: vec![] };
    assert_eq!(g.generate_expression(&empty), Ok("P {}".to_string()));
    let variant = Expression::EnumLiteral("VertexBuffer".to_string());
    assert_eq!(g.generate_expression(&variant), Ok("VertexBuffer".to_string()));
    let odd = Expression::UnitSuffix {
        value: Box::new(Expression::Literal(Literal::Int(3))),
        unit: "TIB".to_string(),
    };
    assert_eq!(g.generate_expression(&odd), Ok("3 /* TIB */".to_string()));
    let negated = Expression::UnaryOp {
        op: UnaryOp::Neg,
        expr: Box::new(Expression::BinaryOp {
            op: BinaryOp::Add,
            left: Box::new(Expression::Literal(Literal::Int(1))),
            right: Box::new(Expression::Literal(Literal::Int(2))),
        }),
    };
    assert_eq!(g.generate_expression(&negated), Ok("-((1 + 2))".to_string()));
}

#[test]
fn alloc_array_takes_exactly_one_type_argument() {
    let g = CodeGenerator::new();
    assert_eq!(
        g.generate_expression(&expression_of("frame.alloc_array(4)")),
        Err(GenerationError::AllocArrayWithoutTypeArgument)
    );
    assert_eq!(
        g.generate_expression(&expression_of("frame.alloc_array<i32, i64>(4)")),
        Err(GenerationError::AllocArrayTypeArgumentCount(2))
    );
    assert_eq!(
        g.generate_expression(&expression_of("f(1, a.alloc_array(2), b.alloc_array<i32, i32>(3))")),
        Err(GenerationError::AllocArrayWithoutTypeArgument)
    );
    assert_eq!(
        g.generate_expression(&expression_of("a.alloc_array<i32, i32>(b.alloc_array(1))")),
        Err(GenerationError::AllocArrayTypeArgumentCount(2))
    );
    // The text of a faulty expression is still defined: that of any method call.
    assert_eq!(g.expression_text(&expression_of("frame.alloc_array(4)")), "frame.alloc_array(4)");
    let program = program_of("fn f() { if true { let v = frame.alloc_array(4); } }");
    assert_eq!(
        g.clone().generate(&program, &vec![]),
        Err(GenerationError::AllocArrayWithoutTypeArgument)
    );
}

#[test]
fn text_of_statements() {
    let g = CodeGenerator::new();
    let stmts = statements_of(
        "let a = 1; let b: [i32] = c; a = b; f(); return; return a; if a { b; } else { c; } while (a) { } loop { a = 1; }",
    );
    let texts: Vec<String> =
        stmts.iter().map(|s| g.generate_statement(s, 0).unwrap()).collect();
    assert_eq!(
        texts,
        vec![
            "    auto a = 1;\n",
            "    std::vector<int32_t> b = c;\n",
            "    a = b;\n",
            "    f();\n",
            "    return 0;\n",
            "    return a;\n",
            "    if (a) {\n        b;\n    } else {\n        c;\n    }\n",
            "    while (a) {\n    }\n",
            "    while (true) {\n        a = 1;\n    }\n",
        ]
    );
    assert_eq!(g.generate_statement(&stmts[0], 2), Ok("            auto a = 1;\n".to_string()));
    let block = Statement::Block(vec![Statement::Return(None)]);
    assert_eq!(g.generate_statement(&block, 1), Ok("        {\n            return 0;\n        }\n".to_string()));
    assert_eq!(g.indent(0), "");
    assert_eq!(g.indent(3), "            ");
}

#[test]
fn text_of_a_function() {
    let g = CodeGenerator::new();
    let program = program_of("fn add(a: i32, b: i32): i32 { return a + b; }");
    let f = match &program.items[0] {
        Item::Function(f) => f,
        other => panic!("not a function: {:?}", other),
    };
    assert_eq!(
        g.generate_function(f),
        Ok("int32_t add(int32_t a, int32_t b) {\n        return (a + b);\n}\n\n".to_string())
    );
    assert_eq!(g.forward_text(f, false), "int32_t add(int32_t a, int32_t b);\n");
}

#[test]
fn main_gives_way_to_the_entry_point() {
    let g = CodeGenerator::new();
    let main = FunctionDef {
        name: "main".to_string(),
        params: vec![],
        return_type: Type::Void,
        body: vec![],
        attribute: None,
    };
    assert_eq!(g.generate_function(&main), Ok("int heidic_main() {\n        return 0;\n}\n\n".to_string()));
    assert_eq!(g.forward_text(&main, false), "int heidic_main();\n");
    assert_eq!(g.forward_text(&main, true), "void main();\n");
    let typed = FunctionDef { return_type: Type::I32, ..main };
    assert_eq!(g.generate_function(&typed), Ok("int32_t heidic_main() {\n}\n\n".to_string()));
}

#[test]
fn defaults_of_parameters_stand_in_the_definition_only() {
    let g = CodeGenerator::new();
    let f = FunctionDef {
        name: "tick".to_string(),
        params: vec![Param {
            name: "dt".to_string(),
            ty: Type::F32,
            default_value: Some(Expression::Literal(Literal::Float("0.016".to_string()))),
        }],
        return_type: Type::Void,
        body: vec![],
        attribute: None,
    };
    assert_eq!(g.generate_function(&f), Ok("void tick(float dt = 0.016) {\n}\n\n".to_string()));
    assert_eq!(g.forward_text(&f, false), "void tick(float dt);\n");
}

#[test]
fn a_struct_without_defaults_has_no_constructor() {
    let g = CodeGenerator::new();
    let s = StructDef {
        name: "P".to_string(),
        fields: vec![
            Field { name: "x".to_string(), ty: Type::F32, default_value: None },
            Field { name: "tags".to_string(), ty: Type::Array(Box::new(Type::String)), default_value: None },
        ],
    };
    assert_eq!(
        g.generate_struct(&s),
        Ok("struct P {\n        float x;\n        std::vector<std::string> tags;\n};\n\n".to_string())
    );
    let empty = StructDef { name: "E".to_string(), fields: vec![] };
    assert_eq!(g.generate_struct(&empty), Ok("struct E {\n};\n\n".to_string()));
}

#[test]
fn component_position_has_a_constructor_with_two_defaults() {
    let g = CodeGenerator::new();
    let program = program_of("component Position { x: f32 = 0.0, y: f32 = 0.0 }");
    let c = match &program.items[0] {
        Item::Component(c) => c,
        other => panic!("not a component: {:?}", other),
    };
    let expected = "struct Position {\n        float x;\n        float y;\n    \n        Position(float x = 0.0, float y = 0.0) {\n            x = 0.0;\n            y = 0.0;\n        }\n};\n\n";
    assert_eq!(g.generate_component(c), Ok(expected.to_string()));
    assert_eq!(g.generate_constructor_params(&c.fields), "float x = 0.0, float y = 0.0");
}

#[test]
fn a_constructor_takes_every_field_and_initialises_the_defaulted_ones() {
    let g = CodeGenerator::new();
    let program = program_of("struct Body { mass: f32, name: string = \"b\", id: i32 }");
    let s = match &program.items[0] {
        Item::Struct(s) => s,
        other => panic!("not a struct: {:?}", other),
    };
    let text = g.generate_struct(s).unwrap();
    let expected = "struct Body {\n        float mass;\n        std::string name;\n        int32_t id;\n    \n        Body(float mass, std::string name = \"b\", int32_t id) {\n            name = \"b\";\n        }\n};\n\n";
    assert_eq!(text, expected);
    // Three parameters in the order of the fields, one of them optional.
    let params = g.generate_constructor_params(&s.fields);
    assert_eq!(params.split(", ").count(), 3);
    assert_eq!(params.matches(" = ").count(), 1);
}

#[test]
fn structure_of_arrays_declarations_carry_a_comment() {
    let g = CodeGenerator::new();
    let program = program_of("mesh_soa M { p: [Vec3] } component_soa C { m: [f32] }");
    match (&program.items[0], &program.items[1]) {
        (Item::MeshSOA(m), Item::ComponentSOA(c)) => {
            assert_eq!(
                g.generate_mesh_soa(m),
                Ok("// SOA (Structure-of-Arrays) mesh data - optimized for CUDA/OptiX\nstruct M {\n        std::vector<Vec3> p;\n};\n\n".to_string())
            );
            assert_eq!(
                g.generate_component_soa(c),
                Ok("// SOA (Structure-of-Arrays) component - optimized for ECS iteration\nstruct C {\n        std::vector<float> m;\n};\n\n".to_string())
            );
        }
        other => panic!("not declarations: {:?}", other),
    }
}

#[test]
fn type_aliases_and_extern_declarations() {
    let g = CodeGenerator::new();
    let alias = TypeAliasDef { name: "Ids".to_string(), target_type: Type::Array(Box::new(Type::I64)) };
    assert_eq!(g.generate_type_alias(&alias), "using Ids = std::vector<int64_t>;\n");
    let ext = ExternFunctionDef {
        name: "puts".to_string(),
        params: vec![
            Param { name: "text".to_string(), ty: Type::String, default_value: None },
            Param {
                name: "n".to_string(),
                ty: Type::I32,
                default_value: Some(Expression::Literal(Literal::Int(1))),
            },
        ],
        return_type: Type::I32,
        library: Some("c".to_string()),
    };
    assert_eq!(
        g.extern_text(&ext),
        "extern \"C\" {\n    int32_t puts(const char* text, int32_t n = 1);\n}\n"
    );
}

#[test]
fn required_headers() {
    let g = CodeGenerator::new();
    let mut needs = RequiredHeaders::none();
    g.check_type_for_headers(&Type::I32, &mut needs);
    assert_eq!(needs, RequiredHeaders::none());
    g.check_type_for_headers(&Type::Array(Box::new(Type::VkImage)), &mut needs);
    assert_eq!(needs, RequiredHeaders { vulkan: true, glfw: false, math: false, imgui: false });
    g.check_type_for_headers(&Type::Query(vec![Type::I32, Type::Camera]), &mut needs);
    assert_eq!(needs, RequiredHeaders { vulkan: true, glfw: false, math: true, imgui: false });
    let program = program_of(
        "struct S { w: GLFWwindow } fn f(a: [Vec2]): VkResult { } mesh_soa M { m: [Mat4] } system s { fn g(c: Camera) { } }",
    );
    assert_eq!(
        g.scan_for_required_headers(&program),
        RequiredHeaders { vulkan: true, glfw: true, math: true, imgui: false }
    );
    let quiet = program_of("mesh_soa M { m: [Mat4] } system s { fn g(c: VkDevice) { } }");
    assert_eq!(g.scan_for_required_headers(&quiet), RequiredHeaders::none());
    assert!(!RequiredHeaders::none().any());
}

#[test]
fn the_head_of_the_program() {
    let standard = "#include <iostream>\n#include <vector>\n#include <string>\n#include <unordered_map>\n#include <memory>\n#include <cmath>\n#include <cstdint>\n\n";
    assert_eq!(header_text(&RequiredHeaders::none()), standard);
    let some = RequiredHeaders { vulkan: true, glfw: false, math: true, imgui: false };
    assert_eq!(
        header_text(&some),
        format!(
            "{}// EDEN ENGINE Standard Library\n#include \"stdlib/vulkan.h\"\n#include \"stdlib/math.h\"\n\n",
            standard
        )
    );
    let all = RequiredHeaders { vulkan: true, glfw: true, math: true, imgui: true };
    assert_eq!(
        header_text(&all),
        format!(
            "{}// EDEN ENGINE Standard Library\n#include \"stdlib/vulkan.h\"\n#include \"stdlib/glfw.h\"\n#include \"stdlib/math.h\"\n#include \"stdlib/eden_imgui.h\"\n\n",
            standard
        )
    );
}

#[test]
fn the_frame_arena() {
    let arena = CodeGenerator::new().generate_frame_arena();
    assert!(arena.starts_with("// Frame-Scoped Memory Allocator (FrameArena)\n// Automatically frees all allocations at frame end\nclass FrameArena {\nprivate:\n"));
    assert!(arena.contains("    static constexpr size_t BLOCK_SIZE = 1024 * 1024; // 1MB blocks\n"));
    assert!(arena.contains("    template<typename T>\n    std::vector<T> alloc_array(size_t count) {\n"));
    assert!(arena.contains("    void reset() {\n        // Reset for next frame\n        blocks.clear();\n        current_offset = 0;\n        current_block.resize(BLOCK_SIZE);\n    }\n};\n"));
    assert!(arena.ends_with("};\n\n"));
    assert_eq!(arena.lines().count(), 59);
    assert_eq!(arena.len(), 1749);
}

#[test]
fn stage_names_and_search_places_of_shaders() {
    assert_eq!(stage_flag(ShaderStage::Vertex), "vertex");
    assert_eq!(stage_flag(ShaderStage::Fragment), "fragment");
    assert_eq!(stage_flag(ShaderStage::Compute), "compute");
    assert_eq!(stage_flag(ShaderStage::Geometry), "geometry");
    assert_eq!(stage_flag(ShaderStage::TessellationControl), "tessellationControl");
    assert_eq!(stage_flag(ShaderStage::TessellationEvaluation), "tessellationEvaluation");
    assert_eq!(
        shader_candidates("assets/basic.vert", "basic.vert"),
        vec!["assets/basic.vert", "shaders/basic.vert", "../shaders/basic.vert"]
    );
}

#[test]
fn an_embedded_shader() {
    let bytes: Vec<u8> = (0u8..18).map(|b| b.wrapping_mul(15)).collect();
    let text = embedded_shader_text("basic", ShaderStage::Fragment, &bytes);
    let expected = "// Shader: basic (fragment stage)\nstatic const uint8_t basic_spirv[] = {\n    0x00, 0x0f, 0x1e, 0x2d, 0x3c, 0x4b, 0x5a, 0x69, 0x78, 0x87, 0x96, 0xa5, 0xb4, 0xc3, 0xd2, 0xe1,\n    0xf0, 0xff,\n};\nstatic const size_t basic_spirv_size = sizeof(basic_spirv);\n\n// Helper function to load basic shader\ninline std::vector<uint32_t> load_basic_shader() {\n    return std::vector<uint32_t>(reinterpret_cast<const uint32_t*>(basic_spirv),\n        reinterpret_cast<const uint32_t*>(basic_spirv) + (basic_spirv_size / sizeof(uint32_t)));\n}\n\n";
    assert_eq!(text, expected);
    let none = embedded_shader_text("e", ShaderStage::Vertex, &vec![]);
    assert!(none.contains("static const uint8_t e_spirv[] = {\n};\n"));
    let full = embedded_shader_text("f", ShaderStage::Vertex, &vec![171u8; 16]);
    assert!(full.contains("{\n    0xab, 0xab, 0xab, 0xab, 0xab, 0xab, 0xab, 0xab, 0xab, 0xab, 0xab, 0xab, 0xab, 0xab, 0xab, 0xab,\n};\n"));
}

#[test]
fn what_came_of_a_shader_decides_what_is_generated() {
    let g = CodeGenerator::new();
    let shader = ShaderDef {
        name: "basic".to_string(),
        stage: ShaderStage::Vertex,
        path: "basic.vert".to_string(),
    };
    assert_eq!(
        g.generate_shader(&shader, &ShaderBuild::SourceNotFound),
        Err(GenerationError::ShaderSourceNotFound("basic.vert".to_string()))
    );
    assert_eq!(
        g.generate_shader(&shader, &ShaderBuild::CompilerFailed("line 3: oops".to_string())),
        Err(GenerationError::ShaderCompilationFailed {
            path: "basic.vert".to_string(),
            diagnostics: "line 3: oops".to_string()
        })
    );
    assert_eq!(
        g.generate_shader(&shader, &ShaderBuild::BinaryMissing),
        Err(GenerationError::ShaderBinaryMissing("basic.vert".to_string()))
    );
    assert_eq!(
        g.generate_shader(&shader, &ShaderBuild::Compiled(vec![1, 2])),
        Ok(embedded_shader_text("basic", ShaderStage::Vertex, &vec![1, 2]))
    );
}

#[test]
fn a_query_type() {
    let g = CodeGenerator::new();
    let q = vec![Type::Struct("Position".to_string()), Type::F32, Type::Component("Velocity".to_string())];
    let expected = "// ECS Query for components: Position, Unknown, Velocity\nstruct Query_Position_Unknown_Velocity {\n    std::vector<Position>* position_components;\n    std::vector<Component1>* component1_components;\n    std::vector<Velocity>* velocity_components;\n    size_t count;  // Number of entities with all components\n};\n\n// Helper to iterate over Query_Position_Unknown_Velocity query\ntemplate<typename Func>\nvoid for_each_query_position_unknown_velocity(Query_Position_Unknown_Velocity& query, Func func) {\n    for (size_t i = 0; i < query.count; ++i) {\n        // Access components for entity i\n        Position& position = (*query.position_components)[i];\n        Component1& component1 = (*query.component1_components)[i];\n        Velocity& velocity = (*query.velocity_components)[i];\n        // Call function with entity components\n        func(position, component1, velocity);\n    }\n}\n\n";
    assert_eq!(g.generate_query_type(&q), expected);
    let by_hand = query_text(
        &vec!["A".to_string()],
        "Q",
        "q",
        &vec![QueryComponent { name: "A".to_string(), variable: "a".to_string() }],
    );
    assert!(by_hand.contains("struct Q {\n    std::vector<A>* a_components;\n"));
    assert!(by_hand.contains("void for_each_q(Q& query, Func func) {\n"));
    assert!(by_hand.contains("        func(a);\n"));
}

#[test]
fn an_empty_program_is_the_head_and_the_arena() {
    let g = CodeGenerator::new();
    let text = generate("");
    let expected = format!(
        "{}{}\n\n\n",
        header_text(&RequiredHeaders::none()),
        g.generate_frame_arena()
    );
    assert_eq!(text, expected);
}

#[test]
fn the_sections_come_in_order() {
    let source = "fn main() { helper(1); } type Id = i64; struct S { id: Id } extern fn ext(s: string) from \"m\"; extern fn ext2() from \"m\"; extern fn ext3() from \"n\"; fn helper(a: i32) { } component C { v: Vec3 = zero }";
    let text = generate(source);
    let pieces = [
        "#include <iostream>\n",
        "#include \"stdlib/math.h\"\n",
        "class FrameArena {\n",
        "using Id = int64_t;\n",
        "struct S {\n        Id id;\n};\n\n",
        "struct C {\n        Vec3 v;\n    \n        C(Vec3 v = zero) {\n            v = zero;\n        }\n};\n\n",
        "extern \"C\" {\n    void ext(const char* s);\n}\n",
        "extern \"C\" {\n    void ext2();\n}\n",
        "extern \"C\" {\n    void ext3();\n}\n",
        "\n// Link libraries: m n \n\n",
        "int heidic_main();\nvoid helper(int32_t a);\n\n",
        "int heidic_main() {\n        helper(1);\n        return 0;\n}\n\n",
        "void helper(int32_t a) {\n}\n\n",
        "int main(int argc, char* argv[]) {\n    heidic_main();\n    return 0;\n}\n",
    ];
    let mut from = 0;
    for piece in pieces {
        let at = text[from..].find(piece).unwrap_or_else(|| panic!("missing or out of order: {:?}", piece));
        from += at + piece.len();
    }
    assert_eq!(from, text.len());
    assert!(!text.contains("run_systems"));
    assert!(!text.contains("ECS Query Types"));
    assert!(!text.contains("Embedded Shaders"));
}

#[test]
fn queries_are_generated_once_each() {
    let source = "fn a(q: query<P, V>) { } fn b(q: query<V, P>, r: query<P, V>): query<P> { } system s { fn c(q: query<Z>) { } }";
    let text = generate(source);
    assert_eq!(text.matches("struct Query_P_V {").count(), 1);
    assert_eq!(text.matches("struct Query_V_P {").count(), 1);
    assert_eq!(text.matches("struct Query_P {").count(), 1);
    assert_eq!(text.matches("struct Query_Z {").count(), 0);
    let first = text.find("struct Query_P_V {").unwrap();
    let second = text.find("struct Query_V_P {").unwrap();
    let third = text.find("struct Query_P {").unwrap();
    assert!(first < second && second < third);
    assert!(text.contains("// ECS Query Types\n// ECS Query for components: P, V\n"));
    let g = CodeGenerator::new();
    let mut collected = Vec::new();
    g.collect_query_types(&program_of(source).items[1], &mut collected);
    assert_eq!(
        collected,
        vec![
            vec![Type::Struct("V".to_string()), Type::Struct("P".to_string())],
            vec![Type::Struct("P".to_string()), Type::Struct("V".to_string())],
            vec![Type::Struct("P".to_string())],
        ]
    );
}

#[test]
fn shaders_are_embedded_in_the_order_declared() {
    let program = program_of("shader vertex a \"a.vert\" shader fragment b \"b.frag\"");
    let g = CodeGenerator::new();
    let builds = vec![ShaderBuild::Compiled(vec![1]), ShaderBuild::Compiled(vec![2, 3])];
    let text = g.clone().generate(&program, &builds).unwrap();
    let section = format!(
        "// Embedded Shaders (compiled to SPIR-V at compile-time)\n{}{}\n",
        embedded_shader_text("a", ShaderStage::Vertex, &vec![1]),
        embedded_shader_text("b", ShaderStage::Fragment, &vec![2, 3])
    );
    assert!(text.contains(&section));
    assert_eq!(
        g.clone().generate(&program, &vec![ShaderBuild::Compiled(vec![1])]),
        Err(GenerationError::ShaderNotCompiled("b".to_string()))
    );
    assert_eq!(
        g.clone().generate(
            &program,
            &vec![ShaderBuild::CompilerFailed("bad".to_string()), ShaderBuild::SourceNotFound]
        ),
        Err(GenerationError::ShaderCompilationFailed {
            path: "a.vert".to_string(),
            diagnostics: "bad".to_string()
        })
    );
}

#[test]
fn the_first_fault_in_the_order_of_the_sections_is_reported() {
    let g = CodeGenerator::new();
    let program = program_of(
        "fn f() { a.alloc_array<i32, i32>(1); } component C { v: [i32] = a.alloc_array(1) } shader vertex s \"s.vert\"",
    );
    assert_eq!(
        g.clone().generate(&program, &vec![ShaderBuild::SourceNotFound]),
        Err(GenerationError::ShaderSourceNotFound("s.vert".to_string()))
    );
    assert_eq!(
        g.clone().generate(&program, &vec![ShaderBuild::Compiled(vec![])]),
        Err(GenerationError::AllocArrayWithoutTypeArgument)
    );
}
