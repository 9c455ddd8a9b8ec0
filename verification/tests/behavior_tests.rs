use hilo_parser::ast;
use hilo_parser::ast::Expression;
use hilo_parser::ast::Item;
use hilo_parser::ast::Statement;
use hilo_parser::ast::TypeExpr;
use hilo_parser::parse_module;
use hilo_parser::texpr::parse_type_expr;
use hilo_parser::texpr::simple_type_text;
use hilo_parser::HiloParseError;

#[test]
fn module_name_alone() {
    let module = parse_module("module a.b.c").expect("parser should succeed");
    assert_eq!(
        module.name,
        Some(vec![
            String::from("a"),
            String::from("b"),
            String::from("c")
        ])
    );
    assert_eq!(module.imports.len(), 0);
    assert_eq!(module.items.len(), 0);
}

#[test]
fn single_import_alone() {
    let module = parse_module("import core.io").expect("parser should succeed");
    assert_eq!(module.name, None);
    assert_eq!(module.imports.len(), 1);
    assert_eq!(
        module.imports[0].path,
        vec![String::from("core"), String::from("io")]
    );
    assert!(module.imports[0].members.is_none());
    assert!(module.imports[0].alias.is_none());
    assert_eq!(module.items.len(), 0);
}

#[test]
fn import_tail_permutations_are_identical() {
    let a = parse_module("import core.text { trim, join } as text").expect("members-first order");
    let b = parse_module("import core.text as text { trim, join }").expect("alias-first order");
    assert_eq!(a.imports.len(), 1);
    assert_eq!(b.imports.len(), 1);
    assert_eq!(a.imports[0], b.imports[0]);
    assert_eq!(
        a.imports[0].path,
        vec![String::from("core"), String::from("text")]
    );
    assert_eq!(
        a.imports[0].members.as_ref().unwrap(),
        &vec![String::from("trim"), String::from("join")]
    );
    assert_eq!(a.imports[0].alias.as_deref(), Some("text"));
}

#[test]
fn record_field_optional_flags_and_types() {
    let src = "record R {\n  a: String\n  b?: List[Int]?\n  c: { k: String, v?: Int }\n}";
    let module = parse_module(src).expect("parser should succeed");
    let record = match &module.items[0] {
        Item::Record(r) => r,
        other => panic!("expected record, got {:?}", other),
    };
    assert_eq!(record.fields.len(), 3);

    assert_eq!(record.fields[0].name, "a");
    assert!(!record.fields[0].optional);
    assert_eq!(
        record.fields[0].ty,
        TypeExpr::Simple(vec![String::from("String")])
    );

    assert_eq!(record.fields[1].name, "b");
    assert!(record.fields[1].optional);
    // A trailing `?` outside the bracket wraps the whole atom.
    assert_eq!(
        record.fields[1].ty,
        TypeExpr::Optional(Box::new(TypeExpr::List(Box::new(TypeExpr::Simple(vec![
            String::from("Int")
        ])))))
    );

    assert_eq!(record.fields[2].name, "c");
    assert!(!record.fields[2].optional);
    match &record.fields[2].ty {
        TypeExpr::Struct(fs) => {
            assert_eq!(fs.len(), 2);
            assert_eq!(fs[0].name, "k");
            assert!(!fs[0].optional);
            assert_eq!(fs[0].ty, TypeExpr::Simple(vec![String::from("String")]));
            assert_eq!(fs[1].name, "v");
            assert!(fs[1].optional);
            assert_eq!(fs[1].ty, TypeExpr::Simple(vec![String::from("Int")]));
        }
        other => panic!("expected struct type, got {:?}", other),
    }
}

#[test]
fn task_with_default_param_and_binary_body() {
    let src = "task T(x: Int = 0) -> String { let y: Int = x + 1\nreturn y }";
    let module = parse_module(src).expect("parser should succeed");
    let task = match &module.items[0] {
        Item::Task(t) => t,
        other => panic!("expected task, got {:?}", other),
    };
    assert_eq!(task.name, "T");
    assert_eq!(task.params.len(), 1);
    assert_eq!(task.params[0].name, "x");
    assert_eq!(task.params[0].ty, TypeExpr::Simple(vec![String::from("Int")]));
    assert_eq!(task.params[0].default.as_deref(), Some("0"));
    assert_eq!(
        task.return_type,
        Some(TypeExpr::Simple(vec![String::from("String")]))
    );
    assert_eq!(task.body.statements.len(), 2);
    match &task.body.statements[0] {
        Statement::Let { name, ty, value } => {
            assert_eq!(name, "y");
            assert_eq!(ty, &Some(TypeExpr::Simple(vec![String::from("Int")])));
            assert_eq!(
                value,
                &Some(Expression::Binary {
                    left: Box::new(Expression::Identifier(String::from("x"))),
                    op: String::from("+"),
                    right: Box::new(Expression::Literal(String::from("1"))),
                })
            );
        }
        other => panic!("expected let statement, got {:?}", other),
    }
    match &task.body.statements[1] {
        Statement::Return { value } => {
            assert_eq!(value, &Some(Expression::Identifier(String::from("y"))));
        }
        other => panic!("expected return statement, got {:?}", other),
    }
}

#[test]
fn struct_literal_return_expression() {
    let src = "task P(topic: Topic) -> Brief { let r = Researcher.run(topic)\nreturn Brief { title: topic, sources: data[\"sources\"] } }";
    let module = parse_module(src).expect("parser should succeed");
    let task = match &module.items[0] {
        Item::Task(t) => t,
        other => panic!("expected task, got {:?}", other),
    };
    let ret = task
        .body
        .statements
        .iter()
        .find_map(|st| match st {
            Statement::Return { value: Some(e) } => Some(e),
            _ => None,
        })
        .expect("expected a return expression");
    match ret {
        Expression::StructLiteral { type_path, fields } => {
            assert_eq!(type_path, &vec![String::from("Brief")]);
            assert_eq!(fields.len(), 2);
            assert_eq!(fields[0].0, "title");
            assert_eq!(fields[0].1, Expression::Identifier(String::from("topic")));
            assert_eq!(fields[1].0, "sources");
            assert_eq!(
                fields[1].1,
                Expression::Index {
                    target: Box::new(Expression::Identifier(String::from("data"))),
                    index: Box::new(Expression::Literal(String::from("\"sources\""))),
                }
            );
        }
        other => panic!("expected struct literal, got {:?}", other),
    }
}

#[test]
fn block_raw_is_trimmed_body() {
    let src = "workflow W {\n  start(x)\n  stop(x)\n}";
    let module = parse_module(src).expect("parser should succeed");
    match &module.items[0] {
        Item::Workflow(w) => {
            assert_eq!(w.body.raw, "start(x)\n  stop(x)");
        }
        other => panic!("expected workflow, got {:?}", other),
    }
}

#[test]
fn simple_type_round_trip() {
    let q = vec![String::from("core"), String::from("net"), String::from("Url")];
    let text = simple_type_text(&q);
    assert_eq!(text, "core.net.Url");
    assert_eq!(parse_type_expr(&text), TypeExpr::Simple(q));

    let single = vec![String::from("Int")];
    assert_eq!(
        parse_type_expr(&simple_type_text(&single)),
        TypeExpr::Simple(single)
    );
}

#[test]
fn empty_source_is_empty_module() {
    let module = parse_module("").expect("empty source parses");
    assert_eq!(module.name, None);
    assert!(module.imports.is_empty());
    assert!(module.items.is_empty());
}

#[test]
fn comments_are_skipped() {
    let src = "// leading\n/* block\ncomment */ module a.b /// doc\nimport x.y // tail";
    let module = parse_module(src).expect("parser should succeed");
    assert_eq!(module.name, Some(vec![String::from("a"), String::from("b")]));
    assert_eq!(module.imports.len(), 1);
    assert_eq!(module.imports[0].path, vec![String::from("x"), String::from("y")]);
}

#[test]
fn unterminated_block_comment_consumes_to_end() {
    let module = parse_module("module a /* never closed").expect("parser should succeed");
    assert_eq!(module.name, Some(vec![String::from("a")]));
    assert!(module.items.is_empty());
}

#[test]
fn unrecognized_tail_becomes_other() {
    let module = parse_module("module m\nnot a declaration\nrecord R { }")
        .expect("parser should succeed");
    assert_eq!(module.items.len(), 1);
    match &module.items[0] {
        Item::Other(text) => {
            assert_eq!(text, "not a declaration\nrecord R { }");
        }
        other => panic!("expected other item, got {:?}", other),
    }
}

#[test]
fn module_without_name_is_parse_error() {
    let err = parse_module("module { }").expect_err("missing module name must fail");
    assert!(matches!(err, HiloParseError::Parse(_)));
    assert!(!err.message().is_empty());
}

#[test]
fn unclosed_member_list_is_parse_error() {
    let err = parse_module("import a.b { m1, m2").expect_err("unclosed member list must fail");
    assert!(matches!(err, HiloParseError::Parse(_)));
}

#[test]
fn alias_without_identifier_is_parse_error() {
    let err = parse_module("import a.b as").expect_err("alias without name must fail");
    assert!(matches!(err, HiloParseError::Parse(_)));
}

#[test]
fn trailing_comma_in_member_list() {
    let module = parse_module("import a.b { m1, m2, }").expect("trailing comma allowed");
    assert_eq!(
        module.imports[0].members.as_ref().unwrap(),
        &vec![String::from("m1"), String::from("m2")]
    );
}

#[test]
fn test_declaration_with_string_name() {
    let src = "test \"resolves \\\"names\\\"\" { check(x) }";
    let module = parse_module(src).expect("parser should succeed");
    match &module.items[0] {
        Item::Test(t) => {
            assert_eq!(t.name, "resolves \"names\"");
            assert_eq!(t.body.raw, "check(x)");
        }
        other => panic!("expected test declaration, got {:?}", other),
    }
}

#[test]
fn test_declaration_with_identifier_name() {
    let module = parse_module("test smoke { run() }").expect("parser should succeed");
    match &module.items[0] {
        Item::Test(t) => assert_eq!(t.name, "smoke"),
        other => panic!("expected test declaration, got {:?}", other),
    }
}

#[test]
fn empty_list_brackets_are_degenerate() {
    let module = parse_module("record F { x: List[] }").expect("parser should succeed");
    match &module.items[0] {
        Item::Record(r) => {
            assert_eq!(
                r.fields[0].ty,
                TypeExpr::List(Box::new(TypeExpr::Simple(vec![String::from("List")])))
            );
        }
        other => panic!("expected record, got {:?}", other),
    }
}

#[test]
fn angle_generics_parse_like_brackets() {
    let module = parse_module("record G {\n  m: Map<String, Int>\n  p: Pair[Int, Int]\n}")
        .expect("parser should succeed");
    let record = match &module.items[0] {
        Item::Record(r) => r,
        other => panic!("expected record, got {:?}", other),
    };
    match &record.fields[0].ty {
        TypeExpr::Generic { base, arguments } => {
            assert_eq!(base, &vec![String::from("Map")]);
            assert_eq!(arguments.len(), 2);
        }
        other => panic!("expected generic, got {:?}", other),
    }
    match &record.fields[1].ty {
        TypeExpr::Generic { base, arguments } => {
            assert_eq!(base, &vec![String::from("Pair")]);
            assert_eq!(arguments.len(), 2);
        }
        other => panic!("expected generic, got {:?}", other),
    }
}

#[test]
fn unparsable_type_text_is_kept_unknown() {
    let module = parse_module("record U { x: !!weird!! }").expect("parser should succeed");
    match &module.items[0] {
        Item::Record(r) => {
            assert_eq!(r.fields[0].ty, TypeExpr::Unknown(String::from("!!weird!!")));
        }
        other => panic!("expected record, got {:?}", other),
    }
}

#[test]
fn rightmost_operator_wins() {
    let src = "task B() { return a + b * c }";
    let module = parse_module(src).expect("parser should succeed");
    let task = match &module.items[0] {
        Item::Task(t) => t,
        other => panic!("expected task, got {:?}", other),
    };
    match &task.body.statements[0] {
        Statement::Return { value: Some(e) } => {
            assert_eq!(
                e,
                &Expression::Binary {
                    left: Box::new(Expression::Binary {
                        left: Box::new(Expression::Identifier(String::from("a"))),
                        op: String::from("+"),
                        right: Box::new(Expression::Identifier(String::from("b"))),
                    }),
                    op: String::from("*"),
                    right: Box::new(Expression::Identifier(String::from("c"))),
                }
            );
        }
        other => panic!("expected return, got {:?}", other),
    }
}

#[test]
fn two_character_operators_are_preferred() {
    let module = parse_module("task C() { return x <= y }").expect("parser should succeed");
    let task = match &module.items[0] {
        Item::Task(t) => t,
        other => panic!("expected task, got {:?}", other),
    };
    match &task.body.statements[0] {
        Statement::Return { value: Some(Expression::Binary { op, .. }) } => {
            assert_eq!(op, "<=");
        }
        other => panic!("expected binary return, got {:?}", other),
    }
}

#[test]
fn literal_and_raw_fallbacks() {
    let src = "task L() { return 3.5\ntrue\n\"quoted\"\n@@@ }";
    let module = parse_module(src).expect("parser should succeed");
    let task = match &module.items[0] {
        Item::Task(t) => t,
        other => panic!("expected task, got {:?}", other),
    };
    assert_eq!(task.body.statements.len(), 4);
    assert!(matches!(
        &task.body.statements[0],
        Statement::Return { value: Some(Expression::Literal(l)) } if l == "3.5"
    ));
    // A bare  matches the identifier rule, which has priority over
    // the literal rule.
    assert!(matches!(
        &task.body.statements[1],
        Statement::Expr(Expression::Identifier(l)) if l == "true"
    ));
    assert!(matches!(
        &task.body.statements[2],
        Statement::Expr(Expression::Literal(l)) if l == "\"quoted\""
    ));
    assert!(matches!(
        &task.body.statements[3],
        Statement::Expr(Expression::Raw(r)) if r == "@@@"
    ));
}

#[test]
fn return_without_value() {
    let module = parse_module("task R() { return }").expect("parser should succeed");
    let task = match &module.items[0] {
        Item::Task(t) => t,
        other => panic!("expected task, got {:?}", other),
    };
    assert!(matches!(
        &task.body.statements[0],
        Statement::Return { value: None }
    ));
}

#[test]
fn braces_inside_strings_do_not_disturb_extraction() {
    let src = "task S() { let a = emit(\"closing } brace\")\nreturn a }";
    let module = parse_module(src).expect("parser should succeed");
    let task = match &module.items[0] {
        Item::Task(t) => t,
        other => panic!("expected task, got {:?}", other),
    };
    assert!(task.body.raw.contains("closing } brace"));
    assert_eq!(task.body.statements.len(), 2);
}

#[test]
fn items_keep_source_order() {
    let src = "record A { }\nworkflow B { go() }\ntask C() { return }\ntest D { t() }";
    let module = parse_module(src).expect("parser should succeed");
    assert_eq!(module.items.len(), 4);
    assert!(matches!(&module.items[0], Item::Record(r) if r.name == "A"));
    assert!(matches!(&module.items[1], Item::Workflow(w) if w.name == "B"));
    assert!(matches!(&module.items[2], Item::Task(t) if t.name == "C"));
    assert!(matches!(&module.items[3], Item::Test(t) if t.name == "D"));
}

#[test]
fn error_message_renders() {
    assert_eq!(
        HiloParseError::Parse(String::from("boom")).message(),
        "boom"
    );
    assert_eq!(HiloParseError::Lex(String::from("lex")).message(), "lex");
    assert!(!HiloParseError::NotImplemented.message().is_empty());
}

#[test]
fn record_default_segment_is_discarded() {
    let module = parse_module("record D {\n  n: Int = 7\n}").expect("parser should succeed");
    match &module.items[0] {
        ast::Item::Record(r) => {
            assert_eq!(r.fields.len(), 1);
            assert_eq!(r.fields[0].name, "n");
            assert_eq!(r.fields[0].ty, TypeExpr::Simple(vec![String::from("Int")]));
        }
        other => panic!("expected record, got {:?}", other),
    }
}

#[test]
fn unparsable_type_arguments_fall_back_to_unknown() {
    let module = parse_module("record X { f: Foo[@] }").expect("parser should succeed");
    match &module.items[0] {
        Item::Record(r) => {
            assert_eq!(r.fields[0].ty, TypeExpr::Unknown(String::from("Foo[@]")));
        }
        other => panic!("expected record, got {:?}", other),
    }
}

#[test]
fn optional_chain_alone() {
    let module = parse_module("task O() { return user?.name }").expect("parser should succeed");
    let task = match &module.items[0] {
        Item::Task(t) => t,
        other => panic!("expected task, got {:?}", other),
    };
    match &task.body.statements[0] {
        Statement::Return { value: Some(Expression::OptionalChain { target, property }) } => {
            assert!(matches!(target.as_ref(), Expression::Identifier(id) if id == "user"));
            assert_eq!(property, "name");
        }
        other => panic!("expected optional chain, got {:?}", other),
    }
}

#[test]
fn optional_marker_on_simple_type() {
    let module = parse_module("record O {\n  x: Int?\n  y: a.b.C?\n}").expect("parser should succeed");
    let record = match &module.items[0] {
        Item::Record(r) => r,
        other => panic!("expected record, got {:?}", other),
    };
    assert_eq!(
        record.fields[0].ty,
        TypeExpr::Optional(Box::new(TypeExpr::Simple(vec![String::from("Int")])))
    );
    assert_eq!(
        record.fields[1].ty,
        TypeExpr::Optional(Box::new(TypeExpr::Simple(vec![
            String::from("a"),
            String::from("b"),
            String::from("C")
        ])))
    );
}

#[test]
fn optional_marker_inside_generic_argument() {
    let module = parse_module("record P {\n  m: Map[String, Int?]\n}").expect("parser should succeed");
    let record = match &module.items[0] {
        Item::Record(r) => r,
        other => panic!("expected record, got {:?}", other),
    };
    match &record.fields[0].ty {
        TypeExpr::Generic { base, arguments } => {
            assert_eq!(base, &vec![String::from("Map")]);
            assert_eq!(arguments.len(), 2);
            assert_eq!(arguments[0], TypeExpr::Simple(vec![String::from("String")]));
            assert_eq!(
                arguments[1],
                TypeExpr::Optional(Box::new(TypeExpr::Simple(vec![String::from("Int")])))
            );
        }
        other => panic!("expected generic, got {:?}", other),
    }
}

#[test]
fn params_split_at_depth_zero_commas() {
    let module = parse_module("task M(m: Map[Int, String], y: Int) { return }")
        .expect("parser should succeed");
    let task = match &module.items[0] {
        Item::Task(t) => t,
        other => panic!("expected task, got {:?}", other),
    };
    assert_eq!(task.params.len(), 2);
    assert_eq!(task.params[0].name, "m");
    match &task.params[0].ty {
        TypeExpr::Generic { base, arguments } => {
            assert_eq!(base, &vec![String::from("Map")]);
            assert_eq!(
                arguments,
                &vec![
                    TypeExpr::Simple(vec![String::from("Int")]),
                    TypeExpr::Simple(vec![String::from("String")]),
                ]
            );
        }
        other => panic!("expected generic parameter type, got {:?}", other),
    }
    assert_eq!(task.params[1].name, "y");
    assert_eq!(task.params[1].ty, TypeExpr::Simple(vec![String::from("Int")]));
}

#[test]
fn empty_member_list_is_parse_error() {
    let err = parse_module("import a.b { }").expect_err("empty member list must fail");
    assert!(matches!(err, HiloParseError::Parse(_)));
}
