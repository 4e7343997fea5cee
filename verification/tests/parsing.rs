use golem_rib::parser::{
    arguments, call, identifier, invoke_from_call, let_binding, literal, program, rib_expr,
    statements, type_annotation, type_parameter, worker_function_invoke,
};
use golem_rib::{
    CallType, DynamicParsedFunctionName, Expr, GenericTypeParameter, ParseFailure, RibParseError,
    SourceSpan, TypeName, VariableScope,
};

fn failure_of(text: &str) -> ParseFailure {
    match Expr::from_text(text) {
        Ok(e) => panic!("{:?} was read as {:?}", text, e),
        Err(f) => f,
    }
}

fn letters(text: &str) -> Vec<char> {
    text.chars().collect()
}

#[test]
fn an_identifier_is_read_with_its_span() {
    let expr = Expr::from_text("  worker-1_a  ").unwrap();
    assert_eq!(expr, Expr::identifier_global("worker-1_a", None));
    assert_eq!(expr.source_span().start, 2);
    assert_eq!(expr.source_span().end, 12);
    match expr {
        Expr::Identifier { name, scope, .. } => {
            assert_eq!(name, "worker-1_a");
            assert_eq!(scope, None);
        }
        other => panic!("{:?}", other),
    }
}

#[test]
fn an_identifier_differs_from_one_with_another_name_or_scope() {
    let expr = Expr::from_text("worker").unwrap();
    assert_ne!(expr, Expr::identifier_global("workers", None));
    assert_ne!(expr, Expr::identifier_global("worker", Some(VariableScope::Global)));
    assert_ne!(
        Expr::identifier_global("a", Some(VariableScope::Local)),
        Expr::identifier_global("a", Some(VariableScope::Global))
    );
}

#[test]
fn a_literal_is_read_with_its_span() {
    let expr = Expr::from_text("\"my worker, (1)\"").unwrap();
    assert_eq!(expr, Expr::literal("my worker, (1)"));
    assert_eq!(expr.source_span().start, 0);
    assert_eq!(expr.source_span().end, 16);
    assert_eq!(Expr::from_text("\"\"").unwrap(), Expr::literal(""));
}

#[test]
fn offsets_count_characters_not_bytes() {
    let expr = Expr::from_text("f(\"h\u{e9}llo\u{4e16}\", x)").unwrap();
    match &expr {
        Expr::Call { args, source_span, .. } => {
            assert_eq!(source_span.start, 0);
            assert_eq!(source_span.end, 14);
            assert_eq!(args[0], Expr::literal("h\u{e9}llo\u{4e16}"));
            assert_eq!(args[0].source_span().start, 2);
            assert_eq!(args[0].source_span().end, 10);
            assert_eq!(args[1].source_span().start, 12);
            assert_eq!(args[1].source_span().end, 13);
        }
        other => panic!("{:?}", other),
    }
}

#[test]
fn a_call_is_read_with_its_parts() {
    let expr = Expr::from_text("instance [ foo ] ( \"my-worker\" , bar )").unwrap();
    let expected = Expr::call_worker_function(
        DynamicParsedFunctionName::parse("instance").unwrap(),
        Some(GenericTypeParameter { value: "foo".to_string() }),
        None,
        vec![Expr::literal("my-worker"), Expr::identifier_global("bar", None)],
    );
    assert_eq!(expr, expected);
    assert_eq!(expr.source_span().start, 0);
    assert_eq!(expr.source_span().end, 38);
    match expr {
        Expr::Call { call_type: CallType::Function { function_name, worker }, .. } => {
            assert_eq!(function_name.to_string(), "instance");
            assert_eq!(worker, None);
        }
        other => panic!("{:?}", other),
    }
}

#[test]
fn calls_nest() {
    let expr = Expr::from_text("f(g(x), \"s\", w.h(y), k())").unwrap();
    let name = |n: &str| DynamicParsedFunctionName::parse(n).unwrap();
    let expected = Expr::call_worker_function(
        name("f"),
        None,
        None,
        vec![
            Expr::call_worker_function(
                name("g"),
                None,
                None,
                vec![Expr::identifier_global("x", None)],
            ),
            Expr::literal("s"),
            Expr::invoke_worker_function(
                Expr::identifier_global("w", None),
                "h".to_string(),
                None,
                vec![Expr::identifier_global("y", None)],
            ),
            Expr::call_worker_function(name("k"), None, None, vec![]),
        ],
    );
    assert_eq!(expr, expected);
}

#[test]
fn the_order_of_arguments_is_kept() {
    let expr = Expr::from_text("w.f(a, b)").unwrap();
    let swapped = Expr::invoke_worker_function(
        Expr::identifier_global("w", None),
        "f".to_string(),
        None,
        vec![Expr::identifier_global("b", None), Expr::identifier_global("a", None)],
    );
    assert_ne!(expr, swapped);
}

#[test]
fn a_binding_is_read_with_and_without_its_type() {
    let plain = Expr::from_text("let x = foo").unwrap();
    assert_eq!(plain, Expr::let_binding("x", Expr::identifier_global("foo", None), None));
    assert_eq!(plain.source_span().start, 0);
    assert_eq!(plain.source_span().end, 11);
    let typed = Expr::from_text("let x : u32 = \"1\"").unwrap();
    assert_eq!(
        typed,
        Expr::let_binding("x", Expr::literal("1"), Some(TypeName { value: "u32".to_string() }))
    );
    assert_ne!(typed, Expr::let_binding("x", Expr::literal("1"), None));
    let tight = Expr::from_text("let x:u32=y").unwrap();
    assert_eq!(
        tight,
        Expr::let_binding(
            "x",
            Expr::identifier_global("y", None),
            Some(TypeName { value: "u32".to_string() })
        )
    );
}

#[test]
fn a_word_that_starts_with_let_is_an_identifier() {
    assert_eq!(Expr::from_text("letter").unwrap(), Expr::identifier_global("letter", None));
    assert_eq!(Expr::from_text("let-it").unwrap(), Expr::identifier_global("let-it", None));
}

#[test]
fn one_statement_is_not_wrapped_and_several_make_a_block() {
    let one = Expr::from_text(" a ").unwrap();
    assert_eq!(one, Expr::identifier_global("a", None));
    let three = Expr::from_text(" a ;b;\n c ").unwrap();
    assert_eq!(
        three,
        Expr::expr_block(vec![
            Expr::identifier_global("a", None),
            Expr::identifier_global("b", None),
            Expr::identifier_global("c", None),
        ])
    );
    assert_eq!(three.source_span().start, 1);
    assert_eq!(three.source_span().end, 9);
}

#[test]
fn the_worker_spans_what_the_invocation_spans() {
    let expr = Expr::from_text("  worker . function-name[foo](foo, bar) ").unwrap();
    match expr {
        Expr::InvokeWorkerFunction { worker, source_span, args, .. } => {
            assert_eq!(source_span.start, 11);
            assert_eq!(source_span.end, 39);
            assert_eq!(worker.source_span().start, 11);
            assert_eq!(worker.source_span().end, 39);
            assert_eq!(*worker, Expr::identifier_global("worker", None));
            assert_eq!(args[0].source_span().start, 30);
            assert_eq!(args[0].source_span().end, 33);
        }
        other => panic!("{:?}", other),
    }
}

#[test]
fn each_type_parameter_stays_on_its_own_node() {
    let expr =
        Expr::from_text("let worker = instance[foo](\"my-worker\"); worker.f[bar](x)").unwrap();
    match expr {
        Expr::Block { exprs, .. } => {
            match &exprs[0] {
                Expr::LetBinding { expr, .. } => match &**expr {
                    Expr::Call { generic_type_parameter, .. } => {
                        assert_eq!(
                            generic_type_parameter,
                            &Some(GenericTypeParameter { value: "foo".to_string() })
                        );
                    }
                    other => panic!("{:?}", other),
                },
                other => panic!("{:?}", other),
            }
            match &exprs[1] {
                Expr::InvokeWorkerFunction { generic_type_parameter, .. } => {
                    assert_eq!(
                        generic_type_parameter,
                        &Some(GenericTypeParameter { value: "bar".to_string() })
                    );
                }
                other => panic!("{:?}", other),
            }
        }
        other => panic!("{:?}", other),
    }
}

#[test]
fn a_literal_right_of_the_dot_is_an_invalid_function_call() {
    let f = failure_of("w.\"literal\"");
    assert_eq!(f.error, RibParseError::InvalidFunctionCall);
    assert_eq!(f.position, 0);
    assert_eq!(f.message(), "Invalid function call");
}

#[test]
fn an_invocation_right_of_the_dot_is_an_invalid_function_call() {
    let f = failure_of("  w.g.h()");
    assert_eq!(f.error, RibParseError::InvalidFunctionCall);
    assert_eq!(f.position, 2);
    assert_eq!(f.message(), "Invalid function call");
    assert!(Expr::from_text("g.h()").is_ok());
}

#[test]
fn an_identifier_or_a_binding_right_of_the_dot_is_an_invalid_function_call() {
    let f = failure_of("w.x");
    assert_eq!(f, ParseFailure { error: RibParseError::InvalidFunctionCall, position: 0 });
    let f = failure_of("w.let x = f()");
    assert_eq!(f, ParseFailure { error: RibParseError::InvalidFunctionCall, position: 0 });
}

#[test]
fn a_failure_right_of_the_dot_is_an_invalid_function_call_where_it_was_found() {
    let f = failure_of("w. ");
    assert_eq!(f, ParseFailure { error: RibParseError::InvalidFunctionCall, position: 3 });
    let f = failure_of("w.f(a b)");
    assert_eq!(f, ParseFailure { error: RibParseError::InvalidFunctionCall, position: 6 });
    let f = failure_of("w.f(\"a)");
    assert_eq!(f, ParseFailure { error: RibParseError::InvalidFunctionCall, position: 4 });
}

#[test]
fn every_error_comes_from_some_text() {
    assert_eq!(
        failure_of(""),
        ParseFailure { error: RibParseError::ExpectedExpression, position: 0 }
    );
    assert_eq!(
        failure_of("  \n"),
        ParseFailure { error: RibParseError::ExpectedExpression, position: 3 }
    );
    assert_eq!(
        failure_of("1"),
        ParseFailure { error: RibParseError::ExpectedExpression, position: 0 }
    );
    assert_eq!(
        failure_of("a;"),
        ParseFailure { error: RibParseError::ExpectedExpression, position: 2 }
    );
    assert_eq!(
        failure_of("foo("),
        ParseFailure { error: RibParseError::ExpectedExpression, position: 4 }
    );
    assert_eq!(
        failure_of("foo(a,)"),
        ParseFailure { error: RibParseError::ExpectedExpression, position: 6 }
    );
    assert_eq!(
        failure_of("\"abc"),
        ParseFailure { error: RibParseError::UnterminatedLiteral, position: 0 }
    );
    assert_eq!(
        failure_of("a b"),
        ParseFailure { error: RibParseError::UnexpectedToken, position: 2 }
    );
    assert_eq!(
        failure_of("foo(a b)"),
        ParseFailure { error: RibParseError::UnexpectedToken, position: 6 }
    );
    assert_eq!(
        failure_of("foo[a)()"),
        ParseFailure { error: RibParseError::UnexpectedToken, position: 5 }
    );
    assert_eq!(
        failure_of("foo[a]"),
        ParseFailure { error: RibParseError::UnexpectedToken, position: 6 }
    );
    assert_eq!(
        failure_of("let x a"),
        ParseFailure { error: RibParseError::UnexpectedToken, position: 6 }
    );
    assert_eq!(
        failure_of("foo[1]()"),
        ParseFailure { error: RibParseError::ExpectedIdentifier, position: 4 }
    );
    assert_eq!(
        failure_of("let = a"),
        ParseFailure { error: RibParseError::ExpectedIdentifier, position: 4 }
    );
    assert_eq!(
        failure_of("let let = a"),
        ParseFailure { error: RibParseError::ExpectedIdentifier, position: 4 }
    );
    assert_eq!(
        failure_of("let x: = a"),
        ParseFailure { error: RibParseError::ExpectedIdentifier, position: 7 }
    );
    assert_eq!(
        failure_of("w.f"),
        ParseFailure { error: RibParseError::InvalidFunctionCall, position: 0 }
    );
}

#[test]
fn the_messages_are_worded_as_promised() {
    assert_eq!(RibParseError::InvalidFunctionCall.message(), "Invalid function call");
    assert_eq!(RibParseError::ExpectedIdentifier.message(), "expected identifier");
    assert_eq!(RibParseError::ExpectedExpression.message(), "expected expression");
    assert_eq!(RibParseError::UnterminatedLiteral.message(), "unterminated string literal");
    assert_eq!(RibParseError::UnexpectedToken.message(), "unexpected token");
}

#[test]
fn worker_function_invoke_reads_at_a_place() {
    let text = letters("x, worker .f[t](a) rest");
    let (expr, end) = worker_function_invoke(&text, 3).unwrap();
    assert_eq!(end, 18);
    assert_eq!(
        expr,
        Expr::invoke_worker_function(
            Expr::identifier_global("worker", None),
            "f".to_string(),
            Some(GenericTypeParameter { value: "t".to_string() }),
            vec![Expr::identifier_global("a", None)],
        )
    );
    assert_eq!(expr.source_span().start, 11);
    assert_eq!(expr.source_span().end, 18);
}

#[test]
fn worker_function_invoke_fails_with_one_message_only() {
    for text in ["", " w.f()", "w", "w f()", ".f()", "let.f()", "w.", "w.1", "w.f", "w.f(", "1.f()"] {
        let f = worker_function_invoke(&letters(text), 0).unwrap_err();
        assert_eq!(f.error, RibParseError::InvalidFunctionCall, "{:?}", text);
        assert_eq!(f.message(), "Invalid function call");
    }
    let at = |text: &str| worker_function_invoke(&letters(text), 0).unwrap_err().position;
    assert_eq!(at(""), 0);
    assert_eq!(at("w"), 1);
    assert_eq!(at("w  f()"), 3);
    assert_eq!(at("let.f()"), 0);
    assert_eq!(at("w.1"), 2);
    assert_eq!(at("w.f"), 0);
    assert_eq!(at("w.f("), 4);
    let past = worker_function_invoke(&letters("w.f()"), 9).unwrap_err();
    assert_eq!(past.position, 9);
}

#[test]
fn invoke_from_call_takes_calls_of_functions_only() {
    let span = SourceSpan::new(3, 9);
    let call = Expr::call_worker_function(
        DynamicParsedFunctionName::parse("f").unwrap(),
        Some(GenericTypeParameter { value: "t".to_string() }),
        Some(Expr::identifier_global("bound", None)),
        vec![Expr::literal("a")],
    )
    .with_source_span(span);
    let made = invoke_from_call(Expr::identifier_global("w", None), call).unwrap();
    assert_eq!(
        made,
        Expr::invoke_worker_function(
            Expr::identifier_global("w", None),
            "f".to_string(),
            Some(GenericTypeParameter { value: "t".to_string() }),
            vec![Expr::literal("a")],
        )
    );
    match made {
        Expr::InvokeWorkerFunction { worker, source_span, .. } => {
            assert_eq!((source_span.start, source_span.end), (3, 9));
            assert_eq!((worker.source_span().start, worker.source_span().end), (3, 9));
        }
        other => panic!("{:?}", other),
    }
    let refused = [
        Expr::identifier_global("x", None),
        Expr::literal("x"),
        Expr::let_binding("x", Expr::literal("1"), None),
        Expr::expr_block(vec![]),
        Expr::invoke_worker_function(
            Expr::identifier_global("g", None),
            "h".to_string(),
            None,
            vec![],
        ),
        Expr::Call {
            call_type: CallType::VariantConstructor("some".to_string()),
            generic_type_parameter: None,
            args: vec![],
            source_span: SourceSpan::default(),
        },
        Expr::Call {
            call_type: CallType::EnumConstructor("red".to_string()),
            generic_type_parameter: None,
            args: vec![],
            source_span: SourceSpan::default(),
        },
    ];
    for call in refused {
        assert_eq!(
            invoke_from_call(Expr::identifier_global("w", None), call),
            Err(RibParseError::InvalidFunctionCall)
        );
    }
}

#[test]
fn the_productions_read_at_a_place() {
    let text = letters("ab \"c\" f(x) let y = z ; [t] : u8 ");
    assert_eq!(identifier(&text, 0).unwrap().1, 2);
    assert_eq!(identifier(&text, 1).unwrap().0, Expr::identifier_global("b", None));
    assert_eq!(identifier(&text, 2).unwrap_err().error, RibParseError::ExpectedIdentifier);
    assert_eq!(identifier(&text, 12).unwrap_err().position, 12);
    assert_eq!(literal(&text, 3).unwrap(), (Expr::literal("c"), 6));
    assert_eq!(literal(&text, 0).unwrap_err().error, RibParseError::ExpectedExpression);
    assert_eq!(call(&text, 7).unwrap().1, 11);
    assert_eq!(call(&text, 0).unwrap_err().position, 3);
    assert_eq!(let_binding(&text, 12).unwrap().1, 21);
    assert_eq!(let_binding(&text, 0).unwrap_err().error, RibParseError::ExpectedExpression);
    assert_eq!(rib_expr(&text, 2).unwrap(), (Expr::literal("c"), 6));
    assert_eq!(rib_expr(&text, 100).unwrap_err().position, 100);
    let (tag, end) = type_parameter(&text, 24).unwrap();
    assert_eq!(tag, Some(GenericTypeParameter { value: "t".to_string() }));
    assert_eq!(end, 28);
    assert_eq!(type_parameter(&text, 0).unwrap(), (None, 0));
    let (tag, end) = type_annotation(&text, 28).unwrap();
    assert_eq!(tag, Some(TypeName { value: "u8".to_string() }));
    assert_eq!(end, 33);
    assert_eq!(type_annotation(&text, 0).unwrap(), (None, 0));
    let list = letters("a, b) c; d");
    let (read, end) = arguments(&list, 0, vec![Expr::literal("first")]).unwrap();
    assert_eq!(end, 5);
    assert_eq!(
        read,
        vec![
            Expr::literal("first"),
            Expr::identifier_global("a", None),
            Expr::identifier_global("b", None)
        ]
    );
    let (read, end) = statements(&list, 5, vec![]).unwrap();
    assert_eq!(end, 10);
    assert_eq!(read, vec![Expr::identifier_global("c", None), Expr::identifier_global("d", None)]);
    assert_eq!(program(&letters("c; d")).unwrap(), Expr::expr_block(read));
}

#[test]
fn function_names_are_identifiers() {
    for name in ["f", "function-name", "instance", "a_b-9", "Let", "lets"] {
        let parsed = DynamicParsedFunctionName::parse(name).unwrap();
        assert_eq!(parsed.to_string(), name);
        assert_eq!(parsed.clone(), parsed);
    }
    for name in ["", "let", "1a", "-a", "_a", "a b", "a.b", "a(", " a", "\u{e9}"] {
        assert_eq!(
            DynamicParsedFunctionName::parse(name),
            Err("invalid function name".to_string()),
            "{:?}",
            name
        );
    }
}

#[test]
fn a_span_can_be_put_on_any_node() {
    let span = SourceSpan::new(4, 8);
    let nodes = [
        Expr::identifier_global("a", None),
        Expr::literal("a"),
        Expr::let_binding("a", Expr::literal("b"), None),
        Expr::expr_block(vec![Expr::literal("a"), Expr::literal("b")]),
        Expr::call_worker_function(
            DynamicParsedFunctionName::parse("f").unwrap(),
            None,
            None,
            vec![],
        ),
        Expr::invoke_worker_function(
            Expr::identifier_global("w", None),
            "f".to_string(),
            None,
            vec![],
        ),
    ];
    for node in nodes {
        assert_eq!((node.source_span().start, node.source_span().end), (0, 0));
        let text = node.to_text();
        let moved = node.with_source_span(span);
        assert_eq!((moved.source_span().start, moved.source_span().end), (4, 8));
        assert_eq!(moved.to_text(), text);
    }
    assert_eq!(SourceSpan::new(1, 2), SourceSpan::new(5, 9));
    assert_eq!((SourceSpan::default().start, SourceSpan::default().end), (0, 0));
}
