use golem_rib::chars::{
    find_quote, is_name_char, is_name_start, is_white_space, skip_name, skip_spaces,
};
use golem_rib::text::{chars_of, push_text, text_of};
use golem_rib::{
    CallType, DefaultNamespace, DynamicParsedFunctionName, EmptyAuthCtx, Expr,
    GenericTypeParameter, SourceSpan, TypeName,
};

#[test]
fn white_space_is_what_std_calls_white_space() {
    let mut c = 0u32;
    while c <= 0x10ffff {
        if let Some(ch) = char::from_u32(c) {
            assert_eq!(is_white_space(ch), ch.is_whitespace(), "{:x}", c);
        }
        c += 1;
    }
}

#[test]
fn name_characters_are_ascii_letters_digits_hyphen_and_underscore() {
    let mut c = 0u32;
    while c <= 0x10ffff {
        if let Some(ch) = char::from_u32(c) {
            assert_eq!(is_name_start(ch), ch.is_ascii_alphabetic(), "{:x}", c);
            assert_eq!(
                is_name_char(ch),
                ch.is_ascii_alphanumeric() || ch == '-' || ch == '_',
                "{:x}",
                c
            );
        }
        c += 1;
    }
}

#[test]
fn the_scans_stop_where_their_run_ends() {
    let text: Vec<char> = " \t\u{a0}\nab-1_ \"x\"".chars().collect();
    assert_eq!(skip_spaces(&text, 0), 4);
    assert_eq!(skip_spaces(&text, 4), 4);
    assert_eq!(skip_spaces(&text, 99), 99);
    assert_eq!(skip_name(&text, 4), 9);
    assert_eq!(skip_name(&text, 0), 0);
    assert_eq!(find_quote(&text, 0), 10);
    assert_eq!(find_quote(&text, 11), 12);
    assert_eq!(find_quote(&text, 13), 13);
    assert_eq!(skip_spaces(&[], 0), 0);
}

#[test]
fn texts_and_character_sequences_convert() {
    let chars = chars_of("a\u{e9}\u{4e16}b");
    assert_eq!(chars, vec!['a', '\u{e9}', '\u{4e16}', 'b']);
    assert_eq!(text_of(&chars, 1, 3), "\u{e9}\u{4e16}");
    assert_eq!(text_of(&chars, 2, 2), "");
    assert_eq!(text_of(&chars, 0, 4), "a\u{e9}\u{4e16}b");
    let mut out = "x".to_string();
    push_text(&mut out, &"yz".to_string());
    assert_eq!(out, "xyz");
}

#[test]
fn each_node_is_written_in_its_form() {
    let name = |n: &str| DynamicParsedFunctionName::parse(n).unwrap();
    assert_eq!(Expr::identifier_global("worker", None).to_text(), "worker");
    assert_eq!(Expr::literal("my-worker").to_text(), "\"my-worker\"");
    assert_eq!(
        Expr::let_binding("x", Expr::literal("1"), None).to_text(),
        "let x = \"1\""
    );
    assert_eq!(
        Expr::let_binding(
            "x",
            Expr::identifier_global("y", None),
            Some(TypeName { value: "u32".to_string() })
        )
        .to_text(),
        "let x: u32 = y"
    );
    assert_eq!(Expr::call_worker_function(name("f"), None, None, vec![]).to_text(), "f()");
    assert_eq!(
        Expr::call_worker_function(
            name("f"),
            Some(GenericTypeParameter { value: "t".to_string() }),
            None,
            vec![Expr::identifier_global("a", None), Expr::literal("b"), Expr::literal("c")],
        )
        .to_text(),
        "f[t](a, \"b\", \"c\")"
    );
    assert_eq!(
        Expr::call_worker_function(
            name("f"),
            None,
            Some(Expr::identifier_global("w", None)),
            vec![Expr::identifier_global("a", None)],
        )
        .to_text(),
        "w.f(a)"
    );
    assert_eq!(
        Expr::invoke_worker_function(
            Expr::identifier_global("worker", None),
            "function-name".to_string(),
            Some(GenericTypeParameter { value: "foo".to_string() }),
            vec![Expr::identifier_global("foo", None), Expr::identifier_global("bar", None)],
        )
        .to_text(),
        "worker.function-name[foo](foo, bar)"
    );
    assert_eq!(
        Expr::expr_block(vec![
            Expr::let_binding("a", Expr::literal("1"), None),
            Expr::identifier_global("a", None),
            Expr::identifier_global("b", None),
        ])
        .to_text(),
        "let a = \"1\";\na;\nb"
    );
    assert_eq!(Expr::expr_block(vec![]).to_text(), "");
    let variant = Expr::Call {
        call_type: CallType::VariantConstructor("some".to_string()),
        generic_type_parameter: None,
        args: vec![Expr::literal("x")],
        source_span: SourceSpan::default(),
    };
    assert_eq!(variant.to_text(), "some(\"x\")");
    let case = Expr::Call {
        call_type: CallType::EnumConstructor("red".to_string()),
        generic_type_parameter: None,
        args: vec![],
        source_span: SourceSpan::default(),
    };
    assert_eq!(case.to_text(), "red()");
}

#[test]
fn an_invocation_is_read_as_it_is_written() {
    let workers = ["w", "worker", "my-worker_2", "lets"];
    let functions = ["f", "function-name", "Let"];
    let tags = [None, Some("foo"), Some("let")];
    let lists: [&[&str]; 4] = [&[], &["a"], &["a", "\"b c\"", "g(h)"], &["w.f(x)", "let y = z"]];
    for w in workers {
        for f in functions {
            for tag in tags {
                for list in lists {
                    let mut text = format!("{}.{}", w, f);
                    if let Some(t) = tag {
                        text.push_str(&format!("[{}]", t));
                    }
                    text.push_str(&format!("({})", list.join(", ")));
                    let args: Vec<Expr> =
                        list.iter().map(|a| Expr::from_text(a).unwrap()).collect();
                    let expected = Expr::invoke_worker_function(
                        Expr::identifier_global(w, None),
                        f.to_string(),
                        tag.map(|t| GenericTypeParameter { value: t.to_string() }),
                        args,
                    );
                    let read = Expr::from_text(&text).unwrap();
                    assert_eq!(read, expected, "{}", text);
                    assert_eq!(read.to_text(), text);
                }
            }
        }
    }
}

#[test]
fn reading_what_was_written_gives_the_same_tree() {
    let programs = [
        "worker.function-name()",
        "  worker .\n function-name [ foo ] ( foo ,bar )  ",
        "let worker = instance(\"my-worker\");\n worker.function-name(foo, bar, baz)",
        "let worker = instance[foo](\"my-worker\"); worker.function-name[bar](foo, bar, baz)",
        "let x: u32 = f(g(h(\"deep\")), w.k(let y = z)); x; \"done\"",
        "a",
        "\"\"",
        "f()",
    ];
    for program in programs {
        let first = Expr::from_text(program).unwrap();
        let written = first.to_text();
        let second = Expr::from_text(&written).unwrap();
        assert_eq!(second, first, "{}", program);
        assert_eq!(second.to_text(), written);
    }
}

#[test]
fn the_empty_context_carries_nothing() {
    let context = EmptyAuthCtx::default();
    assert_eq!(context, EmptyAuthCtx());
    assert_eq!(context.to_string(), "EmptyAuthCtx");
    assert_eq!(context.clone().into_iter(), Vec::<(String, String)>::new());
}

#[test]
fn the_default_namespace_is_spelled_default() {
    let namespace = DefaultNamespace::default();
    assert_eq!(namespace, DefaultNamespace());
    assert_eq!(namespace.to_string(), "default");
    assert_eq!(DefaultNamespace::try_from(namespace.to_string()), Ok(DefaultNamespace()));
    assert_eq!(DefaultNamespace::try_from("default".to_string()), Ok(namespace.clone()));
    for other in ["", "Default", "default ", "defaul", "other"] {
        assert_eq!(
            DefaultNamespace::try_from(other.to_string()),
            Err("Failed to parse empty namespace".to_string())
        );
    }
}
