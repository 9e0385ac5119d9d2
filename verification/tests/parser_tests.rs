use heidic::ast::{
    BinaryOp, Expression, Field, FunctionDef, Item, Literal, Param, Program, ShaderStage,
    Statement, SystemAttribute, Type, UnaryOp,
};
use heidic::error::{LexicalError, SyntaxError, SyntaxErrorKind};
use heidic::lexer::{Lexer, Token};
use heidic::parser::{
    include_base, FilePlace, IncludeRequest, LoadedFile, ParseError, ParseStep, Parser,
};

fn tokens_of(source: &str) -> Vec<Token> {
    Lexer::new(source).tokenize().unwrap()
}

fn parse_text(source: &str) -> Result<Program, ParseError> {
    let mut parser = Parser::new(tokens_of(source));
    match parser.parse()? {
        ParseStep::Done(program) => Ok(program),
        ParseStep::Include(request) => panic!("unexpected inclusion of {:?}", request),
    }
}

fn body_of(source: &str) -> Vec<Statement> {
    let program = parse_text(&format!("fn f() {{ {} }}", source)).unwrap();
    match program.items.into_iter().next().unwrap() {
        Item::Function(f) => f.body,
        other => panic!("not a function: {:?}", other),
    }
}

fn expression_of(source: &str) -> Expression {
    match body_of(&format!("{};", source)).into_iter().next().unwrap() {
        Statement::Expression(e) => e,
        other => panic!("not an expression: {:?}", other),
    }
}

fn syntax_error_of(source: &str) -> SyntaxError {
    match parse_text(source) {
        Err(ParseError::Syntax(e)) => e,
        other => panic!("no syntax error: {:?}", other),
    }
}

fn var(name: &str) -> Expression {
    Expression::Variable(name.to_string())
}

fn number(n: i64) -> Expression {
    Expression::Literal(Literal::Int(n))
}

fn binary(op: BinaryOp, left: Expression, right: Expression) -> Expression {
    Expression::BinaryOp { op, left: Box::new(left), right: Box::new(right) }
}

fn place(directory: &str, root: Option<&str>, parent: Option<&str>) -> FilePlace {
    FilePlace {
        directory: directory.to_string(),
        project_root: root.map(|d| d.to_string()),
        parent_directory: parent.map(|d| d.to_string()),
    }
}

#[test]
fn an_empty_program() {
    assert_eq!(parse_text(""), Ok(Program { items: vec![] }));
}

#[test]
fn a_component_with_defaults() {
    let program = parse_text("component Position { x: f32 = 0.0, y: f32 = 0.0 }").unwrap();
    assert_eq!(program.items.len(), 1);
    match &program.items[0] {
        Item::Component(c) => {
            assert_eq!(c.name, "Position");
            assert_eq!(
                c.fields,
                vec![
                    Field {
                        name: "x".to_string(),
                        ty: Type::F32,
                        default_value: Some(Expression::Literal(Literal::Float("0.0".to_string()))),
                    },
                    Field {
                        name: "y".to_string(),
                        ty: Type::F32,
                        default_value: Some(Expression::Literal(Literal::Float("0.0".to_string()))),
                    },
                ]
            );
        }
        other => panic!("not a component: {:?}", other),
    }
}

#[test]
fn a_trailing_comma_after_the_last_field_is_allowed() {
    let with = parse_text("struct S { a: i32, b: [f32], }").unwrap();
    let without = parse_text("struct S { a: i32, b: [f32] }").unwrap();
    assert_eq!(with, without);
    match &with.items[0] {
        Item::Struct(s) => {
            assert_eq!(s.fields[1].ty, Type::Array(Box::new(Type::F32)));
        }
        other => panic!("not a struct: {:?}", other),
    }
}

#[test]
fn a_function_with_parameters_and_a_return_type() {
    let program = parse_text("fn add(a: i32, b: i32): i32 { return a + b; }").unwrap();
    assert_eq!(
        program.items,
        vec![Item::Function(FunctionDef {
            name: "add".to_string(),
            params: vec![
                Param { name: "a".to_string(), ty: Type::I32, default_value: None },
                Param { name: "b".to_string(), ty: Type::I32, default_value: None },
            ],
            return_type: Type::I32,
            body: vec![Statement::Return(Some(binary(BinaryOp::Add, var("a"), var("b"))))],
            attribute: None,
        })]
    );
}

#[test]
fn a_function_without_a_return_type_returns_nothing() {
    let program = parse_text("fn tick(dt: f32 = 0.016) { }").unwrap();
    match &program.items[0] {
        Item::Function(f) => {
            assert_eq!(f.return_type, Type::Void);
            assert_eq!(
                f.params[0].default_value,
                Some(Expression::Literal(Literal::Float("0.016".to_string())))
            );
            assert!(f.body.is_empty());
        }
        other => panic!("not a function: {:?}", other),
    }
}

#[test]
fn a_system_attribute_with_constraints() {
    let program =
        parse_text("fn @system(render, after = physics, before = present, after = input) draw() { }")
            .unwrap();
    match &program.items[0] {
        Item::Function(f) => {
            assert_eq!(f.name, "draw");
            assert_eq!(
                f.attribute,
                Some(SystemAttribute {
                    name: "render".to_string(),
                    after: vec!["physics".to_string(), "input".to_string()],
                    before: vec!["present".to_string()],
                })
            );
        }
        other => panic!("not a function: {:?}", other),
    }
}

#[test]
fn an_attribute_other_than_system_is_unknown() {
    let e = syntax_error_of("fn @inline f() { }");
    assert_eq!(e.kind, SyntaxErrorKind::UnknownAttribute);
    assert_eq!(e.position, 2);
    assert_eq!(e.found, Some(Token::Ident("inline".to_string())));
    let e = syntax_error_of("fn @ 5 f() { }");
    assert_eq!(e.kind, SyntaxErrorKind::ExpectedAttributeName);
    let e = syntax_error_of("fn @system(a, during = b) f() { }");
    assert_eq!(e.kind, SyntaxErrorKind::ExpectedAfterOrBefore);
}

#[test]
fn types_of_every_shape() {
    let program = parse_text(
        "type A = [[i64]]; type B = query<Position, Velocity>; type C = VkBuffer; type D = Mesh;",
    )
    .unwrap();
    let targets: Vec<Type> = program
        .items
        .iter()
        .map(|item| match item {
            Item::TypeAlias(a) => a.target_type.clone(),
            other => panic!("not an alias: {:?}", other),
        })
        .collect();
    assert_eq!(
        targets,
        vec![
            Type::Array(Box::new(Type::Array(Box::new(Type::I64)))),
            Type::Query(vec![
                Type::Struct("Position".to_string()),
                Type::Struct("Velocity".to_string())
            ]),
            Type::VkBuffer,
            Type::Struct("Mesh".to_string()),
        ]
    );
}

#[test]
fn a_query_needs_a_component_type() {
    let e = syntax_error_of("type Q = query<>;");
    assert_eq!(e.kind, SyntaxErrorKind::UnexpectedInType);
    assert_eq!(e.found, Some(Token::Gt));
}

#[test]
fn an_extern_function_with_its_library() {
    let program =
        parse_text("extern fn puts(text: string): i32 from \"c\"; extern fn tick();").unwrap();
    match (&program.items[0], &program.items[1]) {
        (Item::ExternFunction(a), Item::ExternFunction(b)) => {
            assert_eq!(a.name, "puts");
            assert_eq!(a.return_type, Type::I32);
            assert_eq!(a.library, Some("c".to_string()));
            assert_eq!(b.name, "tick");
            assert_eq!(b.return_type, Type::Void);
            assert_eq!(b.library, None);
        }
        other => panic!("not extern functions: {:?}", other),
    }
}

#[test]
fn a_shader_with_and_without_a_block() {
    let program = parse_text(
        "shader vertex basic \"shaders/basic.vert\" shader compute sim \"sim.comp\" { a b 1 }",
    )
    .unwrap();
    match (&program.items[0], &program.items[1]) {
        (Item::Shader(a), Item::Shader(b)) => {
            assert_eq!(a.stage, ShaderStage::Vertex);
            assert_eq!(a.name, "basic");
            assert_eq!(a.path, "shaders/basic.vert");
            assert_eq!(b.stage, ShaderStage::Compute);
            assert_eq!(b.path, "sim.comp");
        }
        other => panic!("not shaders: {:?}", other),
    }
}

#[test]
fn a_shader_block_without_its_end_is_an_error() {
    let e = syntax_error_of("shader vertex basic \"b.vert\" { a b");
    assert_eq!(e.kind, SyntaxErrorKind::ExpectedToken(Token::RBrace));
    assert_eq!(e.found, None);
    assert_eq!(e.position, 7);
    let e = syntax_error_of("shader pixel basic \"b.vert\"");
    assert_eq!(e.kind, SyntaxErrorKind::ExpectedShaderStage);
    let e = syntax_error_of("shader vertex basic 5");
    assert_eq!(e.kind, SyntaxErrorKind::ExpectedShaderPath);
}

#[test]
fn a_system_holds_functions_only() {
    let program = parse_text("system physics { fn step() { } fn settle() { } }").unwrap();
    match &program.items[0] {
        Item::System(s) => {
            assert_eq!(s.name, "physics");
            assert_eq!(s.functions.len(), 2);
            assert_eq!(s.functions[1].name, "settle");
            assert_eq!(s.attribute, None);
        }
        other => panic!("not a system: {:?}", other),
    }
    let e = syntax_error_of("system physics { struct S { } }");
    assert_eq!(e.kind, SyntaxErrorKind::ExpectedFunctionInSystem);
}

#[test]
fn operators_bind_by_precedence() {
    assert_eq!(
        expression_of("a + b * c"),
        binary(BinaryOp::Add, var("a"), binary(BinaryOp::Mul, var("b"), var("c")))
    );
    assert_eq!(
        expression_of("a * b + c"),
        binary(BinaryOp::Add, binary(BinaryOp::Mul, var("a"), var("b")), var("c"))
    );
    assert_eq!(
        expression_of("a || b && c == d"),
        binary(
            BinaryOp::Or,
            var("a"),
            binary(BinaryOp::And, var("b"), binary(BinaryOp::Eq, var("c"), var("d")))
        )
    );
    assert_eq!(
        expression_of("a < b | c"),
        binary(BinaryOp::Lt, var("a"), binary(BinaryOp::BitwiseOr, var("b"), var("c")))
    );
}

#[test]
fn operators_of_one_level_group_from_the_left() {
    assert_eq!(
        expression_of("a - b - c"),
        binary(BinaryOp::Sub, binary(BinaryOp::Sub, var("a"), var("b")), var("c"))
    );
    assert_eq!(
        expression_of("a / b % c"),
        binary(BinaryOp::Mod, binary(BinaryOp::Div, var("a"), var("b")), var("c"))
    );
}

#[test]
fn parentheses_group() {
    assert_eq!(
        expression_of("(a + b) * c"),
        binary(BinaryOp::Mul, binary(BinaryOp::Add, var("a"), var("b")), var("c"))
    );
}

#[test]
fn the_pipe_binds_tighter_than_or_and_looser_than_and() {
    assert_eq!(
        expression_of("5 |> double()"),
        binary(
            BinaryOp::Pipe,
            number(5),
            Expression::Call { name: "double".to_string(), args: vec![] }
        )
    );
    assert_eq!(
        expression_of("a || b |> f && c"),
        binary(
            BinaryOp::Or,
            var("a"),
            binary(BinaryOp::Pipe, var("b"), binary(BinaryOp::And, var("f"), var("c")))
        )
    );
}

#[test]
fn a_bar_before_a_greater_than_is_no_operator() {
    let e = syntax_error_of("fn f() { a | > b; }");
    assert_eq!(e.kind, SyntaxErrorKind::ExpectedToken(Token::Semicolon));
    assert_eq!(e.found, Some(Token::Pipe));
}

#[test]
fn unary_operators_nest() {
    assert_eq!(
        expression_of("!!a"),
        Expression::UnaryOp {
            op: UnaryOp::Not,
            expr: Box::new(Expression::UnaryOp { op: UnaryOp::Not, expr: Box::new(var("a")) })
        }
    );
    assert_eq!(
        expression_of("- a * b"),
        binary(
            BinaryOp::Mul,
            Expression::UnaryOp { op: UnaryOp::Neg, expr: Box::new(var("a")) },
            var("b")
        )
    );
}

#[test]
fn calls_members_and_indexes_chain() {
    assert_eq!(
        expression_of("a.b[1].c(2, x)"),
        Expression::MethodCall {
            object: Box::new(Expression::Index {
                array: Box::new(Expression::MemberAccess {
                    object: Box::new(var("a")),
                    member: "b".to_string()
                }),
                index: Box::new(number(1)),
            }),
            method: "c".to_string(),
            type_args: None,
            args: vec![number(2), var("x")],
        }
    );
}

#[test]
fn a_method_call_with_type_arguments() {
    assert_eq!(
        expression_of("frame.alloc_array<Vec3>(count)"),
        Expression::MethodCall {
            object: Box::new(var("frame")),
            method: "alloc_array".to_string(),
            type_args: Some(vec![Type::Vec3]),
            args: vec![var("count")],
        }
    );
    let e = syntax_error_of("fn f() { frame.alloc_array<Vec3>; }");
    assert_eq!(e.kind, SyntaxErrorKind::ExpectedCallAfterTypeArguments);
    assert_eq!(e.found, Some(Token::Semicolon));
}

#[test]
fn named_arguments() {
    assert_eq!(
        expression_of("spawn(x = 1, y = a + 2)"),
        Expression::NamedCall {
            name: "spawn".to_string(),
            named_args: vec![
                ("x".to_string(), number(1)),
                ("y".to_string(), binary(BinaryOp::Add, var("a"), number(2))),
            ],
        }
    );
    assert_eq!(
        expression_of("spawn(x == 1)"),
        Expression::Call {
            name: "spawn".to_string(),
            args: vec![binary(BinaryOp::Eq, var("x"), number(1))]
        }
    );
}

#[test]
fn only_a_name_can_be_called() {
    let e = syntax_error_of("fn f() { a[0](1); }");
    assert_eq!(e.kind, SyntaxErrorKind::ExpectedFunctionName);
    let e = syntax_error_of("fn f() { a[0](x = 1); }");
    assert_eq!(e.kind, SyntaxErrorKind::ExpectedFunctionNameForNamedArguments);
}

#[test]
fn a_unit_suffix_in_any_case() {
    for (text, unit) in [("64.MiB", "MIB"), ("64.kib", "KIB"), ("64.GIB", "GIB")] {
        assert_eq!(
            expression_of(text),
            Expression::UnitSuffix { value: Box::new(number(64)), unit: unit.to_string() }
        );
    }
    assert_eq!(
        expression_of("1.5.MiB"),
        Expression::UnitSuffix {
            value: Box::new(Expression::Literal(Literal::Float("1.5".to_string()))),
            unit: "MIB".to_string()
        }
    );
}

#[test]
fn a_point_after_a_number_that_no_unit_follows_is_passed_over() {
    let e = syntax_error_of("fn f() { 5.len; }");
    assert_eq!(e.kind, SyntaxErrorKind::ExpectedToken(Token::Semicolon));
    assert_eq!(e.found, Some(Token::Ident("len".to_string())));
}

#[test]
fn statements_of_every_form() {
    let body = body_of(
        "let a = 1; let b: i64 = a; a = 2; if a { } if (a) { } else { b; } while (a < b) { a = a + 1; } while a { } loop { return; } return a;",
    );
    assert_eq!(
        body,
        vec![
            Statement::Let { name: "a".to_string(), ty: None, value: number(1) },
            Statement::Let { name: "b".to_string(), ty: Some(Type::I64), value: var("a") },
            Statement::Assign { target: var("a"), value: number(2) },
            Statement::If { condition: var("a"), then_block: vec![], else_block: None },
            Statement::If {
                condition: var("a"),
                then_block: vec![],
                else_block: Some(vec![Statement::Expression(var("b"))])
            },
            Statement::While {
                condition: binary(BinaryOp::Lt, var("a"), var("b")),
                body: vec![Statement::Assign {
                    target: var("a"),
                    value: binary(BinaryOp::Add, var("a"), number(1))
                }]
            },
            Statement::While { condition: var("a"), body: vec![] },
            Statement::Loop { body: vec![Statement::Return(None)] },
            Statement::Return(Some(var("a"))),
        ]
    );
}

#[test]
fn the_end_of_the_tokens_is_an_error_and_no_crash() {
    for source in [
        "struct",
        "struct S",
        "struct S {",
        "struct S { a",
        "struct S { a :",
        "fn",
        "fn f",
        "fn f(",
        "fn f()",
        "fn f() {",
        "fn f() { let",
        "fn f() { a(",
        "fn f() { a.",
        "fn f() { a[",
        "fn f() { 1 +",
        "fn f() { if",
        "fn @",
        "fn @system",
        "fn @system(",
        "fn @system(a,",
        "extern",
        "extern fn f() from",
        "type",
        "type A =",
        "include",
        "shader",
        "shader vertex",
        "shader vertex s",
        "system",
        "system s {",
    ] {
        let e = syntax_error_of(source);
        assert_eq!(e.found, None, "in {:?}", source);
        assert_eq!(e.position, tokens_of(source).len(), "in {:?}", source);
    }
}

#[test]
fn the_error_names_the_token_found_and_the_one_expected() {
    let e = syntax_error_of("struct S { a i32 }");
    assert_eq!(
        e,
        SyntaxError {
            kind: SyntaxErrorKind::ExpectedToken(Token::Colon),
            position: 4,
            found: Some(Token::I32),
        }
    );
    let e = syntax_error_of("let x = 1;");
    assert_eq!(e.kind, SyntaxErrorKind::UnexpectedItem);
    assert_eq!(e.position, 0);
    assert_eq!(e.found, Some(Token::Let));
    let e = syntax_error_of("struct 5 { }");
    assert_eq!(e.kind, SyntaxErrorKind::ExpectedIdentifier);
    let e = syntax_error_of("fn f() { let x = ; }");
    assert_eq!(e.kind, SyntaxErrorKind::UnexpectedInExpression);
    let e = syntax_error_of("include 5;");
    assert_eq!(e.kind, SyntaxErrorKind::ExpectedIncludePath);
}

#[test]
fn an_inclusion_stops_the_parser_until_the_file_is_handed_over() {
    let main = "struct A { } include \"lib/b.hd\"; struct C { }";
    let mut parser = Parser::new_with_file(
        tokens_of(main),
        "src/main.hd".to_string(),
        place("src", Some("."), Some(".")),
    );
    let step = parser.parse().unwrap();
    assert_eq!(
        step,
        ParseStep::Include(IncludeRequest {
            base: Some("src".to_string()),
            path: "lib/b.hd".to_string()
        })
    );
    let loaded = LoadedFile {
        source: "struct B1 { } struct B2 { }".to_string(),
        place: place("src/lib", Some("."), Some("src")),
    };
    assert_eq!(parser.resume("src/lib/b.hd".to_string(), Some(loaded)), Ok(()));
    match parser.parse().unwrap() {
        ParseStep::Done(program) => {
            let names: Vec<String> = program
                .items
                .iter()
                .map(|item| match item {
                    Item::Struct(s) => s.name.clone(),
                    other => panic!("not a struct: {:?}", other),
                })
                .collect();
            assert_eq!(names, vec!["A", "B1", "B2", "C"]);
        }
        other => panic!("not done: {:?}", other),
    }
    assert_eq!(parser.parse(), Ok(ParseStep::Done(Program { items: vec![] })));
}

#[test]
fn a_file_that_includes_itself_through_another_is_refused() {
    let mut parser = Parser::new_with_file(
        tokens_of("include \"b.hd\";"),
        "a.hd".to_string(),
        place(".", None, None),
    );
    assert!(matches!(parser.parse(), Ok(ParseStep::Include(_))));
    let b = LoadedFile { source: "include \"a.hd\";".to_string(), place: place(".", None, None) };
    assert_eq!(parser.resume("b.hd".to_string(), Some(b)), Ok(()));
    assert!(matches!(parser.parse(), Ok(ParseStep::Include(_))));
    let a = LoadedFile { source: "include \"b.hd\";".to_string(), place: place(".", None, None) };
    assert_eq!(
        parser.resume("a.hd".to_string(), Some(a)),
        Err(ParseError::CircularInclude("a.hd".to_string()))
    );
}

#[test]
fn a_file_that_includes_itself_is_refused_even_where_it_cannot_be_read() {
    let mut parser = Parser::new_with_file(
        tokens_of("include \"a.hd\";"),
        "a.hd".to_string(),
        place(".", None, None),
    );
    assert!(matches!(parser.parse(), Ok(ParseStep::Include(_))));
    assert_eq!(
        parser.resume("a.hd".to_string(), None),
        Err(ParseError::CircularInclude("a.hd".to_string()))
    );
}

#[test]
fn a_file_may_be_included_twice_side_by_side() {
    let mut parser = Parser::new_with_file(
        tokens_of("include \"b.hd\"; include \"b.hd\";"),
        "a.hd".to_string(),
        place(".", None, None),
    );
    for _ in 0..2 {
        assert!(matches!(parser.parse(), Ok(ParseStep::Include(_))));
        let b = LoadedFile { source: "struct B { }".to_string(), place: place(".", None, None) };
        assert_eq!(parser.resume("b.hd".to_string(), Some(b)), Ok(()));
    }
    match parser.parse().unwrap() {
        ParseStep::Done(program) => assert_eq!(program.items.len(), 2),
        other => panic!("not done: {:?}", other),
    }
}

#[test]
fn a_missing_file_and_a_file_that_does_not_lex() {
    let mut parser = Parser::new(tokens_of("include \"b.hd\";"));
    assert_eq!(
        parser.parse(),
        Ok(ParseStep::Include(IncludeRequest { base: None, path: "b.hd".to_string() }))
    );
    assert_eq!(
        parser.resume("b.hd".to_string(), None),
        Err(ParseError::MissingInclude("b.hd".to_string()))
    );
    let bad = LoadedFile { source: "struct $".to_string(), place: place(".", None, None) };
    assert_eq!(
        parser.resume("b.hd".to_string(), Some(bad)),
        Err(ParseError::Lexical(LexicalError { position: 7 }))
    );
}

#[test]
fn a_reply_that_was_not_asked_for_is_refused() {
    let mut parser = Parser::new(tokens_of("struct A { }"));
    assert_eq!(parser.resume("b.hd".to_string(), None), Err(ParseError::UnexpectedReply));
    let mut waiting = Parser::new(tokens_of("include \"b.hd\";"));
    assert!(matches!(waiting.parse(), Ok(ParseStep::Include(_))));
    assert_eq!(waiting.parse(), Err(ParseError::UnexpectedReply));
}

#[test]
fn a_syntax_error_in_an_included_file_stops_the_parser() {
    let mut parser = Parser::new(tokens_of("include \"b.hd\";"));
    assert!(matches!(parser.parse(), Ok(ParseStep::Include(_))));
    let b = LoadedFile { source: "struct".to_string(), place: place(".", None, None) };
    assert_eq!(parser.resume("b.hd".to_string(), Some(b)), Ok(()));
    match parser.parse() {
        Err(ParseError::Syntax(e)) => assert_eq!(e.kind, SyntaxErrorKind::ExpectedIdentifier),
        other => panic!("no syntax error: {:?}", other),
    }
}

#[test]
fn where_an_included_path_is_relative_to() {
    let here = Some(("game/src/main.hd".to_string(), place("game/src", Some("game"), Some("game"))));
    assert_eq!(include_base("util.hd", &here), Some("game/src".to_string()));
    assert_eq!(include_base("stdlib/math.hd", &here), Some("game".to_string()));
    let example =
        Some(("work/examples/demo.hd".to_string(), place("work/examples", None, Some("work"))));
    assert_eq!(include_base("stdlib/math.hd", &example), Some("work".to_string()));
    assert_eq!(include_base("util.hd", &example), Some("work/examples".to_string()));
    let lost = Some(("tmp/demo.hd".to_string(), place("tmp", None, Some("."))));
    assert_eq!(include_base("stdlib/math.hd", &lost), None);
    assert_eq!(include_base("stdlib/math.hd", &None), None);
    assert_eq!(include_base("util.hd", &None), None);
    assert_eq!(include_base("stdlibx/math.hd", &here), Some("game/src".to_string()));
}

#[test]
fn a_program_written_with_every_expression_in_parentheses_reads_back() {
    // Every node is written as its tokens with a space after each: expressions in
    // parentheses, the `after` constraints before the `before` constraints, the
    // return type after a colon.
    let written = "struct Body { mass : f32 = ( 1.5 ) , tags : [ string ] } \
        type Ids = query < Body , Mesh > ; \
        extern fn puts ( text : string ) : i32 from \"c\" ; \
        shader vertex basic \"basic.vert\" \
        system physics { fn step ( ) : void { } } \
        fn @ system ( render , after = physics , before = present ) draw ( n : i32 ) : i32 { \
        let x : i64 = ( ( n ) * ( ( 2 ) + ( n ) ) ) ; \
        ( x ) = ( - ( x ) ) ; \
        if ( ( x ) < ( 0 ) ) { return ( x ) ; } else { ( print ( ( x ) , ( \"s\" ) ) ) ; } \
        while ( ! ( true ) ) { loop { return ; } } \
        ( ( ( frame ) . alloc_array < Vec3 > ( ( 64 . MIB ) ) ) [ ( 0 ) ] ) ; \
        ( ( ( a ) . b ) |> ( f ( ) ) ) ; \
        ( spawn ( at = ( x ) ) ) ; \
        return ( ( ( a ) . m ( ) ) | ( b ) ) ; \
        } ";
    let plain = "struct Body { mass: f32 = 1.5, tags: [string] }
        type Ids = query<Body, Mesh>;
        extern fn puts(text: string): i32 from \"c\";
        shader vertex basic \"basic.vert\"
        system physics { fn step(): void { } }
        fn @system(render, after = physics, before = present) draw(n: i32): i32 {
            let x: i64 = n * (2 + n);
            x = - x;
            if x < 0 { return x; } else { print(x, \"s\"); }
            while !true { loop { return; } }
            frame.alloc_array<Vec3>(64.MIB)[0];
            a.b |> f();
            spawn(at = x);
            return a.m() | b;
        }";
    let first = parse_text(written).unwrap();
    assert_eq!(first.items.len(), 6);
    assert_eq!(first, parse_text(plain).unwrap());
    // The tokens of the written text are the text's words, one for one.
    let words: Vec<&str> = written.split(' ').filter(|w| !w.is_empty()).collect();
    assert_eq!(tokens_of(written).len(), words.len());
    // Written once more from its tokens, the text reads back as the same program.
    let again: String = words.iter().map(|w| format!("{} ", w)).collect();
    assert_eq!(parse_text(&again).unwrap(), first);
}

#[test]
fn an_extern_function_may_carry_an_attribute_which_is_dropped() {
    let with = parse_text("extern fn @system(io, after = clock) read(fd: i32): i32;").unwrap();
    let without = parse_text("extern fn read(fd: i32): i32;").unwrap();
    assert_eq!(with, without);
    let e = syntax_error_of("extern fn @inline read();");
    assert_eq!(e.kind, SyntaxErrorKind::UnknownAttribute);
}
