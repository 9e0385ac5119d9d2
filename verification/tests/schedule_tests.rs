use heidic::ast::{FunctionDef, Item, Program, SystemAttribute};
use heidic::codegen::schedule::{clone_attribute, kahn_order, system_order, Edge};
use heidic::codegen::CodeGenerator;
use heidic::lexer::Lexer;
use heidic::parser::{ParseStep, Parser};

fn program_of(source: &str) -> Program {
    let tokens = Lexer::new(source).tokenize().unwrap();
    match Parser::new(tokens).parse().unwrap() {
        ParseStep::Done(program) => program,
        other => panic!("not done: {:?}", other),
    }
}

fn system(name: &str, after: &[&str], before: &[&str]) -> SystemAttribute {
    SystemAttribute {
        name: name.to_string(),
        after: after.iter().map(|s| s.to_string()).collect(),
        before: before.iter().map(|s| s.to_string()).collect(),
    }
}

fn position(order: &[String], name: &str) -> usize {
    order.iter().position(|n| n == name).unwrap_or_else(|| panic!("{} does not run", name))
}

fn edge(source: usize, target: usize) -> Edge {
    Edge { source: Some(source), target }
}

#[test]
fn a_graph_without_edges_keeps_the_order_of_its_nodes() {
    assert_eq!(kahn_order(0, &vec![]), Vec::<usize>::new());
    assert_eq!(kahn_order(3, &vec![]), vec![0, 1, 2]);
}

#[test]
fn a_chain_of_edges_is_followed() {
    assert_eq!(kahn_order(3, &vec![edge(2, 1), edge(1, 0)]), vec![2, 1, 0]);
    assert_eq!(kahn_order(4, &vec![edge(0, 3), edge(3, 1)]), vec![0, 2, 3, 1]);
}

#[test]
fn a_node_follows_as_soon_as_its_last_source_is_handled() {
    // 0 -> 2, 1 -> 2, 2 -> 3, 0 -> 3
    let edges = vec![edge(0, 2), edge(1, 2), edge(2, 3), edge(0, 3)];
    assert_eq!(kahn_order(4, &edges), vec![0, 1, 2, 3]);
    // An edge that stands twice counts twice and is met twice.
    assert_eq!(kahn_order(2, &vec![edge(1, 0), edge(1, 0)]), vec![1, 0]);
}

#[test]
fn nodes_on_a_cycle_and_behind_it_are_left_out() {
    assert_eq!(kahn_order(2, &vec![edge(0, 1), edge(1, 0)]), Vec::<usize>::new());
    assert_eq!(kahn_order(1, &vec![edge(0, 0)]), Vec::<usize>::new());
    // 0 alone; 1 <-> 2; 3 behind 2.
    assert_eq!(kahn_order(4, &vec![edge(1, 2), edge(2, 1), edge(2, 3)]), vec![0]);
}

#[test]
fn a_node_behind_an_edge_without_a_source_is_left_out() {
    let edges = vec![Edge { source: None, target: 0 }, edge(0, 1)];
    assert_eq!(kahn_order(3, &edges), vec![2]);
}

#[test]
fn physics_runs_before_render() {
    let systems = vec![system("physics", &[], &[]), system("render", &["physics"], &[])];
    assert_eq!(system_order(&systems), vec!["physics", "render"]);
    let systems = vec![system("render", &["physics"], &[]), system("physics", &[], &[])];
    assert_eq!(system_order(&systems), vec!["physics", "render"]);
    let systems = vec![system("render", &[], &[]), system("physics", &[], &["render"])];
    assert_eq!(system_order(&systems), vec!["physics", "render"]);
}

#[test]
fn every_constraint_of_an_acyclic_graph_is_met() {
    let systems = vec![
        system("present", &["render", "ui"], &[]),
        system("render", &["physics"], &[]),
        system("ui", &["input"], &["audio"]),
        system("physics", &["input"], &["audio"]),
        system("input", &[], &[]),
        system("audio", &[], &["present"]),
    ];
    let order = system_order(&systems);
    assert_eq!(order.len(), 6);
    for s in &systems {
        for first in &s.after {
            assert!(position(&order, first) < position(&order, &s.name));
        }
        for then in &s.before {
            assert!(position(&order, &s.name) < position(&order, then));
        }
    }
}

#[test]
fn systems_on_a_cycle_do_not_run() {
    let systems = vec![
        system("a", &["b"], &[]),
        system("b", &["a"], &[]),
        system("c", &["a"], &[]),
        system("d", &[], &[]),
    ];
    assert_eq!(system_order(&systems), vec!["d"]);
    assert_eq!(system_order(&vec![system("a", &["a"], &[])]), Vec::<String>::new());
}

#[test]
fn a_system_that_waits_for_an_unknown_name_does_not_run() {
    let systems = vec![system("a", &["nowhere"], &[]), system("b", &[], &[])];
    assert_eq!(system_order(&systems), vec!["b"]);
}

#[test]
fn a_name_that_only_a_before_constraint_mentions_takes_its_place() {
    let systems = vec![system("b", &["mid"], &[]), system("a", &[], &["mid"])];
    assert_eq!(system_order(&systems), vec!["a", "mid", "b"]);
}

#[test]
fn of_two_systems_of_one_name_the_constraints_of_the_last_count() {
    let systems = vec![
        system("a", &["b"], &[]),
        system("b", &[], &[]),
        system("a", &[], &["b"]),
    ];
    assert_eq!(system_order(&systems), vec!["a", "b"]);
}

#[test]
fn the_driver_calls_the_systems_in_order() {
    let source = "fn @system(render, after = physics) draw(q: query<P>, dt: f32) { } fn @system(physics) step() { } fn plain() { } system s { fn @system(audio, after = render) mix() { } fn quiet() { } }";
    let program = program_of(source);
    let g = CodeGenerator::new();
    let functions = g.collect_system_functions(&program);
    let names: Vec<&str> = functions.iter().map(|f| f.name.as_str()).collect();
    assert_eq!(names, vec!["draw", "step", "mix"]);
    let attributes = g.system_attributes(&functions);
    assert_eq!(attributes[0], system("render", &["physics"], &[]));
    assert_eq!(clone_attribute(&attributes[2]), system("audio", &["render"], &[]));
    let expected = "// System Scheduler - runs systems in dependency order\nvoid run_systems() {\n    step();\n    draw(/* TODO: construct query<...> from ECS */, /* TODO: dt */);\n    mix();\n}\n\n";
    assert_eq!(g.generate_system_scheduler(&functions), expected);
    let text = g.clone().generate(&program, &vec![]).unwrap();
    assert!(text.ends_with(expected));
}

#[test]
fn the_driver_skips_names_without_a_system_and_calls_the_first_function_of_a_name() {
    let g = CodeGenerator::new();
    let first = FunctionDef {
        name: "one".to_string(),
        params: vec![],
        return_type: heidic::ast::Type::Void,
        body: vec![],
        attribute: Some(system("a", &[], &["ghost"])),
    };
    let second = FunctionDef {
        name: "two".to_string(),
        attribute: Some(system("a", &[], &["ghost"])),
        ..first.clone()
    };
    let functions = vec![&first, &second];
    let order = vec!["a".to_string(), "ghost".to_string(), "a".to_string()];
    assert_eq!(
        g.scheduler_text(&functions, &order),
        "// System Scheduler - runs systems in dependency order\nvoid run_systems() {\n    one();\n    one();\n}\n\n"
    );
    assert_eq!(
        g.generate_system_scheduler(&functions),
        "// System Scheduler - runs systems in dependency order\nvoid run_systems() {\n    one();\n}\n\n"
    );
    let program = Program { items: vec![Item::Function(first.clone())] };
    assert!(g.clone().generate(&program, &vec![]).unwrap().contains("void run_systems() {\n    one();\n}\n"));
}
