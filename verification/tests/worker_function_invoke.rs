use golem_rib::{DynamicParsedFunctionName, Expr, GenericTypeParameter};

#[test]
fn test_worker_function_invoke_1() {
    let expr = Expr::from_text("worker.function-name()").unwrap();
    let worker_variable = Expr::identifier_global("worker", None);
    let function_name = "function-name".to_string();

    assert_eq!(
        expr,
        Expr::invoke_worker_function(worker_variable, function_name, None, vec![])
    );
}

#[test]
fn test_worker_function_invoke_2() {
    let expr = Expr::from_text("worker.function-name[foo]()").unwrap();
    let worker_variable = Expr::identifier_global("worker", None);
    let function_name = "function-name".to_string();
    let type_parameter = GenericTypeParameter {
        value: "foo".to_string(),
    };

    assert_eq!(
        expr,
        Expr::invoke_worker_function(
            worker_variable,
            function_name,
            Some(type_parameter),
            vec![]
        )
    );
}

#[test]
fn test_worker_function_invoke_3() {
    let expr = Expr::from_text(r#"worker.function-name[foo](foo, bar)"#).unwrap();
    let worker_variable = Expr::identifier_global("worker", None);
    let type_parameter = GenericTypeParameter {
        value: "foo".to_string(),
    };
    let function_name = "function-name".to_string();

    assert_eq!(
        expr,
        Expr::invoke_worker_function(
            worker_variable,
            function_name,
            Some(type_parameter),
            vec![
                Expr::identifier_global("foo", None),
                Expr::identifier_global("bar", None)
            ]
        )
    );
}

#[test]
fn test_worker_function_invoke_4() {
    let expr = Expr::from_text(r#"worker.function-name(foo, bar)"#).unwrap();
    let worker_variable = Expr::identifier_global("worker", None);
    let function_name = "function-name".to_string();

    assert_eq!(
        expr,
        Expr::invoke_worker_function(
            worker_variable,
            function_name,
            None,
            vec![
                Expr::identifier_global("foo", None),
                Expr::identifier_global("bar", None)
            ]
        )
    );
}

#[test]
fn test_worker_function_invoke_5() {
    let rib_expr = r#"
          let worker = instance("my-worker");
          worker.function-name(foo, bar, baz)
        "#;
    let expr = Expr::from_text(rib_expr).unwrap();
    let worker_variable = Expr::identifier_global("worker", None);
    let function_name = "function-name".to_string();

    let expected = Expr::expr_block(vec![
        Expr::let_binding(
            "worker",
            Expr::call_worker_function(
                DynamicParsedFunctionName::parse("instance").unwrap(),
                None,
                None,
                vec![Expr::literal("my-worker")],
            ),
            None,
        ),
        Expr::invoke_worker_function(
            worker_variable,
            function_name,
            None,
            vec![
                Expr::identifier_global("foo", None),
                Expr::identifier_global("bar", None),
                Expr::identifier_global("baz", None),
            ],
        ),
    ]);
    assert_eq!(expr, expected);
}

#[test]
fn test_worker_function_invoke_6() {
    let rib_expr = r#"
          let worker = instance("my-worker");
          worker.function-name[foo](foo, bar, baz)
        "#;
    let expr = Expr::from_text(rib_expr).unwrap();
    let worker_variable = Expr::identifier_global("worker", None);
    let function_name = "function-name".to_string();
    let type_parameter = GenericTypeParameter {
        value: "foo".to_string(),
    };

    let expected = Expr::expr_block(vec![
        Expr::let_binding(
            "worker",
            Expr::call_worker_function(
                DynamicParsedFunctionName::parse("instance").unwrap(),
                None,
                None,
                vec![Expr::literal("my-worker")],
            ),
            None,
        ),
        Expr::invoke_worker_function(
            worker_variable,
            function_name,
            Some(type_parameter),
            vec![
                Expr::identifier_global("foo", None),
                Expr::identifier_global("bar", None),
                Expr::identifier_global("baz", None),
            ],
        ),
    ]);
    assert_eq!(expr, expected);
}

#[test]
fn test_worker_function_invoke_7() {
    let rib_expr = r#"
          let worker = instance[foo]("my-worker");
          worker.function-name[bar](foo, bar, baz)
        "#;
    let expr = Expr::from_text(rib_expr).unwrap();
    let worker_variable = Expr::identifier_global("worker", None);
    let function_name = "function-name".to_string();
    let type_parameter1 = GenericTypeParameter {
        value: "foo".to_string(),
    };

    let type_parameter2 = GenericTypeParameter {
        value: "bar".to_string(),
    };

    let expected = Expr::expr_block(vec![
        Expr::let_binding(
            "worker",
            Expr::call_worker_function(
                DynamicParsedFunctionName::parse("instance").unwrap(),
                Some(type_parameter1),
                None,
                vec![Expr::literal("my-worker")],
            ),
            None,
        ),
        Expr::invoke_worker_function(
            worker_variable,
            function_name,
            Some(type_parameter2),
            vec![
                Expr::identifier_global("foo", None),
                Expr::identifier_global("bar", None),
                Expr::identifier_global("baz", None),
            ],
        ),
    ]);
    assert_eq!(expr, expected);
}
