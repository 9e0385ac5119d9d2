use heidic::ast::{BinaryOp, Expression, Item, Literal, Program, Statement, Type, UnaryOp};
use heidic::error::TypeError;
use heidic::lexer::Lexer;
use heidic::parser::{ParseStep, Parser};
use heidic::type_checker::{
    binary_type, builtin, call_result, check_soa_fields, types_compatible, unary_type, Builtin,
    BuiltinResult, FunctionSig, TypeChecker,
};

fn program_of(source: &str) -> Program {
    let tokens = Lexer::new(source).tokenize().unwrap();
    match Parser::new(tokens).parse().unwrap() {
        ParseStep::Done(program) => program,
        other => panic!("not done: {:?}", other),
    }
}

fn check_text(source: &str) -> Result<(), TypeError> {
    TypeChecker::new().check(&program_of(source))
}

fn expression_of(source: &str) -> Expression {
    let program = program_of(&format!("fn f() {{ {}; }}", source));
    match program.items.into_iter().next().unwrap() {
        Item::Function(f) => match f.body.into_iter().next().unwrap() {
            Statement::Expression(e) => e,
            other => panic!("not an expression: {:?}", other),
        },
        other => panic!("not a function: {:?}", other),
    }
}

fn type_of(source: &str, symbols: &[(&str, Type)]) -> Result<Type, TypeError> {
    let table: Vec<(String, Type)> =
        symbols.iter().map(|(n, t)| (n.to_string(), t.clone())).collect();
    TypeChecker::new().check_expression(&expression_of(source), &table)
}

fn array(t: Type) -> Type {
    Type::Array(Box::new(t))
}

#[test]
fn literals_have_fixed_types() {
    assert_eq!(type_of("1", &[]), Ok(Type::I32));
    assert_eq!(type_of("1.5", &[]), Ok(Type::F32));
    assert_eq!(type_of("true", &[]), Ok(Type::Bool));
    assert_eq!(type_of("\"s\"", &[]), Ok(Type::String));
}

#[test]
fn a_variable_has_the_type_of_its_latest_binding() {
    assert_eq!(type_of("x", &[("x", Type::I64)]), Ok(Type::I64));
    assert_eq!(type_of("x", &[("x", Type::I64), ("x", Type::Bool)]), Ok(Type::Bool));
    assert_eq!(type_of("y", &[("x", Type::I64)]), Err(TypeError::UndefinedSymbol("y".to_string())));
}

#[test]
fn arithmetic_has_the_type_of_its_left_operand() {
    let symbols = [("i", Type::I32), ("l", Type::I64), ("f", Type::F64), ("b", Type::Bool)];
    assert_eq!(type_of("i + l", &symbols), Ok(Type::I32));
    assert_eq!(type_of("l * i", &symbols), Ok(Type::I64));
    assert_eq!(type_of("f % i", &symbols), Ok(Type::F64));
    assert_eq!(type_of("i | l", &symbols), Ok(Type::I32));
    assert_eq!(
        type_of("i + b", &symbols),
        Err(TypeError::NonNumericOperands {
            op: BinaryOp::Add,
            left: Type::I32,
            right: Type::Bool
        })
    );
}

#[test]
fn comparisons_are_boolean_whatever_they_compare() {
    let symbols = [("i", Type::I32), ("s", Type::String)];
    assert_eq!(type_of("i < s", &symbols), Ok(Type::Bool));
    assert_eq!(type_of("s == s", &symbols), Ok(Type::Bool));
    assert_eq!(type_of("i >= 2", &symbols), Ok(Type::Bool));
}

#[test]
fn logical_operators_ask_for_booleans() {
    let symbols = [("a", Type::Bool), ("i", Type::I32)];
    assert_eq!(type_of("a && a || a", &symbols), Ok(Type::Bool));
    assert_eq!(
        type_of("a && i", &symbols),
        Err(TypeError::NonBoolOperands { op: BinaryOp::And, left: Type::Bool, right: Type::I32 })
    );
}

#[test]
fn unary_operators() {
    assert_eq!(unary_type(UnaryOp::Neg, Type::F32), Ok(Type::F32));
    assert_eq!(unary_type(UnaryOp::Not, Type::Bool), Ok(Type::Bool));
    assert_eq!(unary_type(UnaryOp::Neg, Type::Bool), Err(TypeError::NegationNotNumeric(Type::Bool)));
    assert_eq!(unary_type(UnaryOp::Not, Type::I32), Err(TypeError::NotOperandNotBool(Type::I32)));
    assert_eq!(binary_type(BinaryOp::Sub, Type::I64, Type::F32), Ok(Type::I64));
    assert_eq!(binary_type(BinaryOp::Ne, Type::Void, Type::String), Ok(Type::Bool));
}

#[test]
fn the_first_error_in_evaluation_order_is_reported() {
    assert_eq!(
        type_of("a + b", &[]),
        Err(TypeError::UndefinedSymbol("a".to_string()))
    );
    assert_eq!(
        type_of("print(1, b, c)", &[]),
        Err(TypeError::UndefinedSymbol("b".to_string()))
    );
}

#[test]
fn indexing_gives_the_element_type() {
    let symbols = [("v", array(array(Type::F32))), ("i", Type::I32)];
    assert_eq!(type_of("v[0]", &symbols), Ok(array(Type::F32)));
    assert_eq!(type_of("v[0][nothing]", &symbols), Ok(Type::F32));
    assert_eq!(type_of("i[0]", &symbols), Err(TypeError::IndexNotArray(Type::I32)));
}

#[test]
fn member_access_and_method_calls() {
    let symbols = [("p", Type::Struct("P".to_string())), ("frame", Type::FrameArena)];
    assert_eq!(type_of("p.x", &symbols), Ok(Type::F32));
    assert_eq!(type_of("q.x", &symbols), Err(TypeError::UndefinedSymbol("q".to_string())));
    assert_eq!(type_of("frame.alloc_array<Vec3>(4)", &symbols), Ok(array(Type::Vec3)));
    assert_eq!(type_of("frame.reset()", &symbols), Ok(Type::Void));
    assert_eq!(type_of("frame.alloc_array<Vec3, Vec2>(4)", &symbols), Ok(Type::Void));
    assert_eq!(
        type_of("frame.reset(missing)", &symbols),
        Err(TypeError::UndefinedSymbol("missing".to_string()))
    );
}

#[test]
fn a_value_with_a_unit_has_the_type_of_the_value() {
    assert_eq!(type_of("64.MiB", &[]), Ok(Type::I32));
    assert_eq!(type_of("1.5.KiB", &[]), Ok(Type::F32));
}

#[test]
fn the_catalogue_of_built_in_functions() {
    assert_eq!(
        builtin("print"),
        Some(Builtin { min_args: 0, exact: false, check_all: true, result: BuiltinResult::Void })
    );
    assert_eq!(
        builtin("glfwCreateWindow"),
        Some(Builtin { min_args: 5, exact: true, check_all: true, result: BuiltinResult::Window })
    );
    assert_eq!(builtin("ImGui_Begin"), builtin("ImGui::Begin"));
    assert_eq!(
        builtin("ImGui::Button"),
        Some(Builtin { min_args: 1, exact: false, check_all: false, result: BuiltinResult::Bool })
    );
    assert_eq!(builtin("glfwinit"), None);
    assert_eq!(builtin("double"), None);
}

#[test]
fn built_in_calls() {
    assert_eq!(type_of("print()", &[]), Ok(Type::Void));
    assert_eq!(type_of("print(1, true, \"x\")", &[]), Ok(Type::Void));
    assert_eq!(type_of("glfwInit()", &[]), Ok(Type::I32));
    assert_eq!(type_of("glfwCreateWindow(1, 2, \"t\", 0, 0)", &[]), Ok(Type::GLFWwindow));
    assert_eq!(type_of("glfwGetKey(1, 2)", &[]), Ok(Type::I32));
    assert_eq!(type_of("ImGui_Begin(\"w\", anything)", &[]), Ok(Type::Bool));
    assert_eq!(type_of("ImGui_Text(\"w\", 1)", &[]), Ok(Type::Void));
    assert_eq!(
        type_of("ImGui_Text(\"w\", anything)", &[]),
        Err(TypeError::UndefinedSymbol("anything".to_string()))
    );
    assert_eq!(
        type_of("glfwInit(1)", &[]),
        Err(TypeError::ArgumentCountMismatch {
            function: "glfwInit".to_string(),
            expected: 0,
            found: 1
        })
    );
    let button = Expression::Call { name: "ImGui::Button".to_string(), args: vec![] };
    assert_eq!(
        TypeChecker::new().check_expression(&button, &vec![]),
        Err(TypeError::ArgumentCountMismatch {
            function: "ImGui::Button".to_string(),
            expected: 1,
            found: 0
        })
    );
    assert_eq!(
        type_of("glfwGetKey(missing)", &[]),
        Err(TypeError::ArgumentCountMismatch {
            function: "glfwGetKey".to_string(),
            expected: 2,
            found: 1
        })
    );
}

#[test]
fn calls_of_declared_functions() {
    let source = "fn add(a: i32, b: i32): i32 { return a + b; } fn main() { let s = add(1, 2); let t: i32 = s; }";
    assert_eq!(check_text(source), Ok(()));
    assert_eq!(
        check_text("fn main() { nothing(); }"),
        Err(TypeError::UndefinedFunction("nothing".to_string()))
    );
}

#[test]
fn a_wrong_number_of_arguments_is_rejected_though_each_argument_fits() {
    let source = "fn add(a: i32, b: i32): i32 { return a + b; } fn main() { add(1); }";
    assert_eq!(
        check_text(source),
        Err(TypeError::ArgumentCountMismatch { function: "add".to_string(), expected: 2, found: 1 })
    );
    let source = "fn add(a: i32, b: i32): i32 { return a + b; } fn main() { add(1, 2, 3); }";
    assert_eq!(
        check_text(source),
        Err(TypeError::ArgumentCountMismatch { function: "add".to_string(), expected: 2, found: 3 })
    );
    // The count is looked at before any argument is.
    let source = "fn add(a: i32, b: i32): i32 { return a + b; } fn main() { add(missing); }";
    assert_eq!(
        check_text(source),
        Err(TypeError::ArgumentCountMismatch { function: "add".to_string(), expected: 2, found: 1 })
    );
}

#[test]
fn an_argument_of_the_wrong_type_is_rejected() {
    let source = "fn add(a: i32, b: i32): i32 { return a + b; } fn main() { add(1, true); }";
    assert_eq!(
        check_text(source),
        Err(TypeError::ArgumentTypeMismatch {
            function: "add".to_string(),
            index: 1,
            expected: Type::I32,
            actual: Type::Bool
        })
    );
}

#[test]
fn the_latest_declaration_of_a_name_counts() {
    let source = "fn f(a: i32) { } fn f(a: bool) { } fn main() { f(true); }";
    assert_eq!(check_text(source), Ok(()));
    let source = "fn f(a: i32) { } fn f(a: bool) { } fn main() { f(1); }";
    assert!(matches!(check_text(source), Err(TypeError::ArgumentTypeMismatch { .. })));
}

#[test]
fn functions_may_be_called_before_they_are_declared() {
    assert_eq!(check_text("fn main() { later(1); } fn later(a: i32) { }"), Ok(()));
    assert_eq!(check_text("fn main() { ext(\"s\"); } extern fn ext(s: string);"), Ok(()));
    assert_eq!(check_text("fn main() { step(); } system s { fn step() { } }"), Ok(()));
}

#[test]
fn a_call_with_named_arguments_takes_them_in_the_order_written() {
    let source = "fn f(a: i32, b: bool) { } fn main() { f(a = 1, b = true); }";
    assert_eq!(check_text(source), Ok(()));
    let source = "fn f(a: i32, b: bool) { } fn main() { f(b = true, a = 1); }";
    assert!(matches!(
        check_text(source),
        Err(TypeError::ArgumentTypeMismatch { index: 0, .. })
    ));
}

#[test]
fn a_pipe_is_the_call_with_the_left_side_first() {
    let double = "fn double(x: i32): i32 { return x * 2; } fn scale(x: i32, by: i32): i32 { return x * by; }";
    assert_eq!(check_text(&format!("{} fn main() {{ let y: i32 = 5 |> double(); }}", double)), Ok(()));
    assert_eq!(check_text(&format!("{} fn main() {{ let y: i32 = 5 |> double; }}", double)), Ok(()));
    assert_eq!(check_text(&format!("{} fn main() {{ let y: i32 = 5 |> scale(3); }}", double)), Ok(()));
    assert_eq!(
        check_text(&format!("{} fn main() {{ 5 |> scale(); }}", double)),
        Err(TypeError::ArgumentCountMismatch {
            function: "scale".to_string(),
            expected: 2,
            found: 1
        })
    );
    assert_eq!(
        check_text(&format!("{} fn main() {{ true |> double(); }}", double)),
        Err(TypeError::ArgumentTypeMismatch {
            function: "double".to_string(),
            index: 0,
            expected: Type::I32,
            actual: Type::Bool
        })
    );
}

#[test]
fn let_and_assignment() {
    assert_eq!(check_text("fn f() { let x: i32 = 1; x = 2; }"), Ok(()));
    assert_eq!(
        check_text("fn f() { let x: i64 = 1; }"),
        Err(TypeError::LetTypeMismatch {
            name: "x".to_string(),
            expected: Type::I64,
            actual: Type::I32
        })
    );
    assert_eq!(
        check_text("fn f() { let x = 1; x = true; }"),
        Err(TypeError::AssignmentTypeMismatch { expected: Type::I32, actual: Type::Bool })
    );
    assert_eq!(
        check_text("fn f() { x = 1; }"),
        Err(TypeError::UndefinedSymbol("x".to_string()))
    );
}

#[test]
fn conditions_are_boolean() {
    assert_eq!(check_text("fn f(a: bool) { if a { } while (a) { } }"), Ok(()));
    assert_eq!(
        check_text("fn f(a: i32) { if a { } }"),
        Err(TypeError::ConditionNotBool { in_loop: false, actual: Type::I32 })
    );
    assert_eq!(
        check_text("fn f(a: i32) { while a { } }"),
        Err(TypeError::ConditionNotBool { in_loop: true, actual: Type::I32 })
    );
}

#[test]
fn a_binding_in_a_block_stays_in_scope_after_the_block() {
    assert_eq!(check_text("fn f(a: bool) { if a { let x = 1; } x = 2; }"), Ok(()));
    assert_eq!(check_text("fn f() { loop { let x = 1; } let y: i32 = x; }"), Ok(()));
}

#[test]
fn each_function_starts_with_its_parameters_only() {
    assert_eq!(
        check_text("fn f() { let x = 1; } fn g() { x = 2; }"),
        Err(TypeError::UndefinedSymbol("x".to_string()))
    );
    assert_eq!(check_text("fn f(x: i32) { x = 2; }"), Ok(()));
}

#[test]
fn a_return_checks_its_value() {
    assert_eq!(check_text("fn f(): i32 { return 1; }"), Ok(()));
    assert_eq!(check_text("fn f() { return; }"), Ok(()));
    assert_eq!(
        check_text("fn f(): i32 { return missing; }"),
        Err(TypeError::UndefinedSymbol("missing".to_string()))
    );
}

#[test]
fn structure_of_arrays_fields_are_arrays() {
    assert_eq!(check_text("mesh_soa Mesh { positions: [Vec3], indices: [i32] }"), Ok(()));
    assert_eq!(check_text("component_soa Bodies { }"), Ok(()));
    assert_eq!(
        check_text("component_soa Bodies { mass: [f32], count: i32, flag: bool }"),
        Err(TypeError::NonArrayField {
            declaration: "Bodies".to_string(),
            field: "count".to_string(),
            component: true
        })
    );
    assert_eq!(
        check_text("mesh_soa Mesh { positions: Vec3 }"),
        Err(TypeError::NonArrayField {
            declaration: "Mesh".to_string(),
            field: "positions".to_string(),
            component: false
        })
    );
    assert_eq!(check_text("struct S { count: i32 } component C { count: i32 }"), Ok(()));
}

#[test]
fn checking_the_fields_of_one_declaration() {
    let program = program_of("component_soa B { a: [i32], b: i32 }");
    match &program.items[0] {
        Item::ComponentSOA(d) => {
            assert_eq!(
                check_soa_fields(&d.name, &d.fields, true),
                Err(TypeError::NonArrayField {
                    declaration: "B".to_string(),
                    field: "b".to_string(),
                    component: true
                })
            );
        }
        other => panic!("not a declaration: {:?}", other),
    }
}

#[test]
fn the_first_faulty_declaration_is_reported_before_any_body_is_checked() {
    assert_eq!(
        check_text("fn f() { missing; } mesh_soa M { a: i32 }"),
        Err(TypeError::NonArrayField {
            declaration: "M".to_string(),
            field: "a".to_string(),
            component: false
        })
    );
    assert_eq!(
        check_text("shader vertex s \"\" mesh_soa M { a: i32 }"),
        Err(TypeError::EmptyShaderPath("s".to_string()))
    );
}

#[test]
fn component_position_checks() {
    assert_eq!(check_text("component Position { x: f32 = 0.0, y: f32 = 0.0 }"), Ok(()));
}

#[test]
fn compatibility_of_types() {
    assert!(types_compatible(&Type::I32, &Type::I32));
    assert!(!types_compatible(&Type::I32, &Type::I64));
    assert!(types_compatible(&Type::I32, &Type::GLFWbool));
    assert!(types_compatible(&Type::GLFWbool, &Type::I32));
    assert!(!types_compatible(&Type::GLFWbool, &Type::Bool));
    assert!(types_compatible(&array(Type::GLFWbool), &array(Type::I32)));
    assert!(!types_compatible(&array(Type::F32), &Type::F32));
    assert!(types_compatible(&Type::Struct("A".to_string()), &Type::Struct("A".to_string())));
    assert!(!types_compatible(&Type::Struct("A".to_string()), &Type::Struct("B".to_string())));
    assert!(!types_compatible(&Type::Struct("A".to_string()), &Type::Component("A".to_string())));
    assert!(types_compatible(&Type::Camera, &Type::Camera));
    assert!(types_compatible(&Type::FrameArena, &Type::FrameArena));
    assert!(!types_compatible(&Type::Vec2, &Type::Vec3));
    assert!(types_compatible(
        &Type::Query(vec![Type::I32, Type::Vec2]),
        &Type::Query(vec![Type::GLFWbool, Type::Vec2])
    ));
    assert!(!types_compatible(&Type::Query(vec![Type::I32]), &Type::Query(vec![])));
    assert!(TypeChecker::new().types_compatible(&Type::Void, &Type::Void));
}

#[test]
fn a_checker_keeps_what_it_has_seen() {
    let mut checker = TypeChecker::new();
    assert_eq!(checker.check(&program_of("fn helper(a: i32) { }")), Ok(()));
    assert_eq!(checker.check(&program_of("fn main() { helper(1); }")), Ok(()));
    // A program whose declarations are refused leaves nothing behind.
    assert!(checker.check(&program_of("fn ghost() { } mesh_soa M { a: i32 }")).is_err());
    assert_eq!(
        checker.check(&program_of("fn main() { ghost(); }")),
        Err(TypeError::UndefinedFunction("ghost".to_string()))
    );
}

#[test]
fn the_type_of_a_call_from_the_outcomes_of_its_arguments() {
    let funcs = vec![FunctionSig {
        name: "f".to_string(),
        params: vec![Type::I32, Type::Bool],
        return_type: Type::String,
    }];
    assert_eq!(
        call_result(&funcs, &"f".to_string(), vec![Ok(Type::I32), Ok(Type::Bool)]),
        Ok(Type::String)
    );
    assert_eq!(
        call_result(
            &funcs,
            &"f".to_string(),
            vec![Ok(Type::Bool), Err(TypeError::UndefinedSymbol("x".to_string()))]
        ),
        Err(TypeError::ArgumentTypeMismatch {
            function: "f".to_string(),
            index: 0,
            expected: Type::I32,
            actual: Type::Bool
        })
    );
    assert_eq!(
        call_result(
            &funcs,
            &"f".to_string(),
            vec![Err(TypeError::UndefinedSymbol("x".to_string())), Ok(Type::I32)]
        ),
        Err(TypeError::UndefinedSymbol("x".to_string()))
    );
    assert_eq!(
        call_result(&funcs, &"ImGui_Begin".to_string(), vec![
            Ok(Type::String),
            Err(TypeError::UndefinedSymbol("x".to_string()))
        ]),
        Ok(Type::Bool)
    );
    let literal = Expression::Literal(Literal::Int(1));
    assert_eq!(TypeChecker::new().check_expression(&literal, &vec![]), Ok(Type::I32));
}
