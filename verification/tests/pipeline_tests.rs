use heidic::codegen::CodeGenerator;
use heidic::error::TypeError;
use heidic::lexer::Lexer;
use heidic::parser::{ParseStep, Parser};
use heidic::type_checker::TypeChecker;

fn compile(source: &str) -> Result<String, String> {
    let tokens = Lexer::new(source).tokenize().map_err(|e| format!("{:?}", e))?;
    let program = match Parser::new(tokens).parse().map_err(|e| format!("{:?}", e))? {
        ParseStep::Done(program) => program,
        other => panic!("not done: {:?}", other),
    };
    TypeChecker::new().check(&program).map_err(|e| format!("{:?}", e))?;
    CodeGenerator::new().generate(&program, &vec![]).map_err(|e| format!("{:?}", e))
}

#[test]
fn a_component_with_defaults_compiles_to_a_struct_with_a_constructor() {
    let text = compile("component Position { x: f32 = 0.0, y: f32 = 0.0 }").unwrap();
    assert!(text.contains(
        "struct Position {\n        float x;\n        float y;\n    \n        Position(float x = 0.0, float y = 0.0) {\n            x = 0.0;\n            y = 0.0;\n        }\n};\n\n"
    ));
}

#[test]
fn add_compiles_to_a_function_that_returns_the_sum() {
    let text = compile("fn add(a: i32, b: i32): i32 { return a + b; }").unwrap();
    assert!(text.contains("int32_t add(int32_t a, int32_t b);\n"));
    assert!(text.contains("int32_t add(int32_t a, int32_t b) {\n        return (a + b);\n}\n\n"));
}

#[test]
fn two_systems_run_in_the_order_of_their_constraint() {
    let text = compile(
        "fn @system(render, after = physics) draw() { } fn @system(physics) simulate() { }",
    )
    .unwrap();
    assert!(text.contains("void run_systems() {\n    simulate();\n    draw();\n}\n"));
    let text = compile(
        "fn @system(physics) simulate() { } fn @system(render, after = physics) draw() { }",
    )
    .unwrap();
    assert!(text.contains("void run_systems() {\n    simulate();\n    draw();\n}\n"));
}

#[test]
fn a_pipe_compiles_to_a_call() {
    let text = compile(
        "fn double(x: i32): i32 { return x * 2; } fn main() { let y = 5 |> double(); }",
    )
    .unwrap();
    assert!(text.contains("        auto y = double(5);\n"));
}

#[test]
fn a_field_of_a_component_soa_that_is_no_array_is_rejected_by_name() {
    let tokens = Lexer::new("component_soa Bodies { mass: i32 }").tokenize().unwrap();
    let program = match Parser::new(tokens).parse().unwrap() {
        ParseStep::Done(program) => program,
        other => panic!("not done: {:?}", other),
    };
    assert_eq!(
        TypeChecker::new().check(&program),
        Err(TypeError::NonArrayField {
            declaration: "Bodies".to_string(),
            field: "mass".to_string(),
            component: true
        })
    );
    assert!(compile("component_soa Bodies { mass: [i32] }").is_ok());
}

#[test]
fn each_phase_stops_the_compilation() {
    assert!(compile("fn f() { $ }").unwrap_err().contains("LexicalError"));
    assert!(compile("fn f() { let }").unwrap_err().contains("ExpectedIdentifier"));
    assert!(compile("fn f() { x; }").unwrap_err().contains("UndefinedSymbol"));
    assert!(compile("fn f(a: FrameArena) { a.alloc_array(1); }")
        .unwrap_err()
        .contains("AllocArrayWithoutTypeArgument"));
}

#[test]
fn a_whole_program() {
    let source = "
        // A small scene.
        include_nothing_here();
    ";
    assert!(compile(source).unwrap_err().contains("UnexpectedItem"));
    let source = "
        component Position { x: f32 = 0.0, y: f32 = 0.0 }
        component_soa Bodies { mass: [f32], position: [Vec3] }
        extern fn glClear(mask: i32) from \"GL\";
        fn budget(): i32 { return 64.MiB; }
        fn @system(physics) integrate(dt: f32 = 0.016) {
            let steps = 4;
            while (steps > 0) { steps = steps - 1; }
        }
        fn main() {
            let window = glfwCreateWindow(800, 600, \"scene\", 0, 0);
            loop {
                if glfwWindowShouldClose(window) == 1 { return; }
                glfwPollEvents();
                glClear(budget());
            }
        }
    ";
    let text = compile(source).unwrap();
    // The vectors stand in a structure-of-arrays declaration only, which asks for no header.
    assert!(!text.contains("#include \"stdlib/math.h\"\n"));
    assert!(text.contains("struct Bodies {\n        std::vector<float> mass;\n        std::vector<Vec3> position;\n};\n\n"));
    assert!(text.contains("// Link libraries: GL \n"));
    assert!(text.contains("int32_t budget() {\n        return (64 * 1024 * 1024);\n}\n\n"));
    assert!(text.contains("        auto window = glfwCreateWindow(800, 600, \"scene\", 0, 0);\n"));
    assert!(text.contains("            if (((glfwWindowShouldClose(window) == 1))) {\n") == false);
    assert!(text.contains("            if ((glfwWindowShouldClose(window) == 1)) {\n                return 0;\n            }\n"));
    assert!(text.contains("void run_systems() {\n    integrate(/* TODO: dt */);\n}\n\n"));
    assert!(text.ends_with("int main(int argc, char* argv[]) {\n    heidic_main();\n    return 0;\n}\n"));
}
