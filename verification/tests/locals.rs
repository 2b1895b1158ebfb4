//! The local variables that can be seen from a position.
use java_analyzer::extractor::JavaContextExtractor;
use java_analyzer::locals::lambdas::extract_active_lambda_param_names;
use java_analyzer::locals::ranking::RankedLocal;
use java_analyzer::locals::{extract_locals, extract_locals_from_error_nodes};

#[test]
fn test_extract_standard_locals() {
    let src = r#"class A {
    void f() {
        int a = 1;
        String b = "hello";
        List<String> c = new ArrayList<>();
        // cursor here
    }
}
"#;
    let offset = src.find("// cursor").unwrap();
    let ctx = JavaContextExtractor::new(src, offset);
    let cursor_node = ctx.find_cursor_node();

    let vars = extract_locals(&ctx, 0, cursor_node);

    assert!(vars.iter().any(
        |v| v.name.as_str() == "a" && v.type_internal.erased_internal() == "int"
    ));
    assert!(
        vars.iter().any(|v| v.name.as_str() == "b"
            && v.type_internal.erased_internal() == "String")
    );
    assert!(
        vars.iter().any(|v| v.name.as_str() == "c"
            && v.type_internal.erased_internal() == "List<String>"),
        "Should preserve generics. Found types: {:?}",
        vars.iter()
            .map(|v| v.type_internal.erased_internal())
            .collect::<Vec<_>>()
    );
}

#[test]
fn test_extract_params() {
    let src = r#"class A {
    void f(int p1, String p2) {
        // cursor here
    }
}
"#;
    let offset = src.find("// cursor").unwrap();
    let ctx = JavaContextExtractor::new(src, offset);
    let cursor_node = ctx.find_cursor_node();

    let vars = extract_locals(&ctx, 0, cursor_node);

    assert!(vars.iter().any(
        |v| v.name.as_str() == "p1" && v.type_internal.erased_internal() == "int"
    ));
    assert!(
        vars.iter().any(|v| v.name.as_str() == "p2"
            && v.type_internal.erased_internal() == "String")
    );
}

#[test]
fn test_extract_varargs_params_as_array_type() {
    let src = r#"class A {
    void f(String sep, int... numbers) {
        // cursor here
    }
}
"#;
    let offset = src.find("// cursor").unwrap();
    let ctx = JavaContextExtractor::new(src, offset);
    let cursor_node = ctx.find_cursor_node();

    let vars = extract_locals(&ctx, 0, cursor_node);

    assert!(
        vars.iter().any(|v| v.name.as_str() == "numbers"
            && v.type_internal.erased_internal() == "int[]"),
        "vars={:?}",
        vars.iter()
            .map(|v| format!("{}:{}", v.name, v.type_internal.erased_internal()))
            .collect::<Vec<_>>()
    );
    assert!(
        vars.iter().any(|v| v.name.as_str() == "sep"
            && v.type_internal.erased_internal() == "String"),
        "vars={:?}",
        vars.iter()
            .map(|v| format!("{}:{}", v.name, v.type_internal.erased_internal()))
            .collect::<Vec<_>>()
    );
}

#[test]
fn test_var_capture_init_expr() {
    let src = r#"class A {
    void f() {
        var map = new HashMap<String, String>();
        var list = new ArrayList<>();
        // cursor here
    }
}
"#;
    let offset = src.find("// cursor").unwrap();
    let ctx = JavaContextExtractor::new(src, offset);
    let cursor_node = ctx.find_cursor_node();

    let vars = extract_locals(&ctx, 0, cursor_node);

    let map_var = vars
        .iter()
        .find(|v| v.name.as_str() == "map")
        .expect("Should find map");
    assert_eq!(map_var.type_internal.erased_internal(), "var");
    assert!(map_var.init_expr.as_ref().unwrap().contains("new HashMap"));
}

#[test]
fn test_var_inference_fallback() {
    let src = r#"class A {
    void f() {
        var unknown = someMethodCall();
        // cursor here
    }
}
"#;
    let offset = src.find("// cursor").unwrap();
    let ctx = JavaContextExtractor::new(src, offset);
    let cursor_node = ctx.find_cursor_node();

    let vars = extract_locals(&ctx, 0, cursor_node);

    let v = vars.iter().find(|v| v.name.as_str() == "unknown").unwrap();
    assert_eq!(v.type_internal.erased_internal(), "var");
    assert_eq!(v.init_expr.as_deref(), Some("someMethodCall()"));
}

#[test]
fn test_scope_visibility_ignore_future_vars() {
    let src = r#"class A {
    void f() {
        int visible = 1;
        // cursor here
        int invisible = 2;
    }
}
"#;
    let offset = src.find("// cursor").unwrap();
    let ctx = JavaContextExtractor::new(src, offset);
    let cursor_node = ctx.find_cursor_node();

    let vars = extract_locals(&ctx, 0, cursor_node);

    assert!(vars.iter().any(|v| v.name.as_str() == "visible"));
    assert!(!vars.iter().any(|v| v.name.as_str() == "invisible"));
}

#[test]
fn test_inner_block_local_does_not_leak_in_method_body() {
    let src = r#"class T {
    void m() {
        {
            String s1 = "";
        }
        s1
    }
}
"#;
    let offset = src.find("s1\n").unwrap();
    let ctx = JavaContextExtractor::new(src, offset);
    let cursor_node = ctx.find_cursor_node();

    let vars = extract_locals(&ctx, 0, cursor_node);

    assert!(
        !vars.iter().any(|v| v.name.as_str() == "s1"),
        "inner-block local must not leak: {:?}",
        vars.iter().map(|v| v.name.as_str()).collect::<Vec<_>>()
    );
}

#[test]
fn test_inner_block_local_stays_visible_inside_own_block() {
    let src = r#"class T {
    void m() {
        {
            String s1 = "";
            s1
        }
    }
}
"#;
    let offset = src.rfind("s1\n").unwrap();
    let ctx = JavaContextExtractor::new(src, offset);
    let cursor_node = ctx.find_cursor_node();

    let vars = extract_locals(&ctx, 0, cursor_node);

    assert!(
        vars.iter().any(|v| v.name.as_str() == "s1"),
        "inner-block local should stay visible inside block: {:?}",
        vars.iter().map(|v| v.name.as_str()).collect::<Vec<_>>()
    );
}

#[test]
fn test_lambda_inner_block_local_does_not_leak_after_block() {
    let src = r#"import java.util.function.Function;

class T {
    void m() {
        Function<String, Void> f = s -> {
            {
                String s1 = s.trim();
            }
            s1
            return null;
        };
    }
}
"#;
    let offset = src.find("s1\n").unwrap();
    let ctx = JavaContextExtractor::new(src, offset);
    let cursor_node = ctx.find_cursor_node();

    let vars = extract_locals(&ctx, 0, cursor_node);

    assert!(
        vars.iter().any(|v| v.name.as_str() == "s"),
        "lambda parameter should remain visible: {:?}",
        vars.iter().map(|v| v.name.as_str()).collect::<Vec<_>>()
    );
    assert!(
        !vars.iter().any(|v| v.name.as_str() == "s1"),
        "expired inner-block local must not leak out of lambda block: {:?}",
        vars.iter().map(|v| v.name.as_str()).collect::<Vec<_>>()
    );
}

#[test]
fn test_misread_declaration_missing_semicolon() {
    let src = r#"class A {
    void f() {
        String s = "incomplete"
        // cursor here
    }
}
"#;
    let offset = src.find("// cursor").unwrap();
    let ctx = JavaContextExtractor::new(src, offset);
    let cursor_node = ctx.find_cursor_node();

    let vars = extract_locals(&ctx, 0, cursor_node);

    assert!(
        vars.iter().any(|v| v.name.as_str() == "s"
            && v.type_internal.erased_internal() == "String"),
        "Should parse variable 's' even without semicolon. Found: {:?}",
        vars.iter().map(|v| v.name.as_str()).collect::<Vec<_>>()
    );
}

#[test]
fn test_misread_var_capture_init_expr() {
    let src = r#"class A {
    void f() {
        var x = new HashSet<>()
        // cursor here
    }
}
"#;
    let offset = src.find("// cursor").unwrap();
    let ctx = JavaContextExtractor::new(src, offset);
    let cursor_node = ctx.find_cursor_node();

    let vars = extract_locals(&ctx, 0, cursor_node);

    let x = vars
        .iter()
        .find(|v| v.name.as_str() == "x")
        .expect("Should find 'x'");
    assert_eq!(x.type_internal.erased_internal(), "var");
    assert!(x.init_expr.as_ref().unwrap().contains("new HashSet"));
}

#[test]
fn test_locals_inside_error_nodes() {
    // Recovery should keep locals from an open malformed block visible.
    let src = r#"class A {
    void f() {
        try {
            String insideError = "ok";
            call(
        // cursor
    }
}
"#;
    let offset = src.find("// cursor").unwrap();
    let ctx = JavaContextExtractor::new(src, offset);

    let mut vars: Vec<RankedLocal> = vec![];
    extract_locals_from_error_nodes(&ctx, 0, None, &mut vars);

    assert!(
        vars.iter().any(|v| v.local.name.as_str() == "insideError"),
        "Should recover locals from an open malformed block"
    );
}

#[test]
fn test_no_false_local_from_misread_method_decl() {
    // local_variable_declaration(type=str, declarator=func(...))
    let src = r#"class A {
    public static String str = "1234";

    public static void func() {
        str
        func(
            func("1234", 5678)
        );
        // cursor here
    }

    public static void func(Object o) {}
    public static Object func(String s, int i) { return null; }
}
"#;
    let offset = src.find("// cursor").unwrap();
    let ctx = JavaContextExtractor::new(src, offset);
    let cursor_node = ctx.find_cursor_node();

    let vars = extract_locals(&ctx, 0, cursor_node);

    assert!(
        !vars.iter().any(|v| v.name.as_str() == "func"),
        "`func` must not appear as a local variable (it's a method name misread as declarator). \
         Found: {:?}",
        vars.iter().map(|v| v.name.as_str()).collect::<Vec<_>>()
    );
    assert!(
        !vars.iter().any(|v| v.name.as_str() == "str"),
        "`str` must not appear as a local variable (it was a misread type annotation)"
    );
}

#[test]
fn test_incomplete_next_declaration_does_not_pollute_locals() {
    let src = r#"class A {
    void f() {
        var b = make();
        b nums = makeNums();
    }
}
"#;
    let marker = "b nums";
    let offset = src.find(marker).unwrap() + 1; // cursor right after the partial type token `b`
    let ctx = JavaContextExtractor::new(src, offset);
    let cursor_node = ctx.find_cursor_node();
    let vars = extract_locals(&ctx, 0, cursor_node);

    assert!(
        vars.iter().any(|v| v.name.as_str() == "b"),
        "previous declaration should still be visible"
    );
    assert!(
        !vars.iter().any(|v| v.name.as_str() == "nums"),
        "in-progress next declaration must not leak as local"
    );
}

#[test]
fn test_locals_from_error_nodes_are_included() {
    // The unified extractor should include recoverable locals from an open malformed block.
    let src = r#"class A {
    void f() {
        try {
            String trapped = "value";
            call(
        // cursor
    }
}
"#;
    let offset = src.find("// cursor").unwrap();
    let ctx = JavaContextExtractor::new(src, offset);
    let cursor_node = ctx.find_cursor_node();

    let vars = extract_locals(&ctx, 0, cursor_node);

    assert!(
        vars.iter().any(|v| v.name.as_str() == "trapped"),
        "extract_locals should include recoverable vars from ERROR nodes. \
         Found: {:?}",
        vars.iter().map(|v| v.name.as_str()).collect::<Vec<_>>()
    );
}

#[test]
fn test_misread_method_multiple_statements_before_cursor() {
    let src = r#"class A {
    void f() {
        int legit = 42;
        String also = "ok";
        badMethod   // 缺分号，下一行的调用会触发误读
        doSomething();
        // cursor here
    }
    void badMethod() {}
    void doSomething() {}
}
"#;
    let offset = src.find("// cursor").unwrap();
    let ctx = JavaContextExtractor::new(src, offset);
    let cursor_node = ctx.find_cursor_node();

    let vars = extract_locals(&ctx, 0, cursor_node);

    assert!(
        vars.iter().any(|v| v.name.as_str() == "legit"),
        "legit should be extracted"
    );
    assert!(
        vars.iter().any(|v| v.name.as_str() == "also"),
        "also should be extracted"
    );
    assert!(
        !vars.iter().any(|v| v.name.as_str() == "doSomething"),
        "method name must not appear as local var"
    );
}

#[test]
fn test_extract_standard_locals_with_generics() {
    let src = r#"class A {
    void f() {
        List<String> c = new ArrayList<>();
        // cursor here
    }
}
"#;
    let offset = src.find("// cursor").unwrap();
    let ctx = JavaContextExtractor::new(src, offset);
    let cursor_node = ctx.find_cursor_node();

    let vars = extract_locals(&ctx, 0, cursor_node);

    assert!(
        vars.iter().any(|v| v.name.as_str() == "c"
            && v.type_internal.erased_internal() == "List<String>"),
        "Should preserve generics exactly as in source. Found types: {:?}",
        vars.iter()
            .map(|v| v.type_internal.erased_internal())
            .collect::<Vec<_>>()
    );
}

#[test]
fn test_extract_single_lambda_param_as_local() {
    let src = r#"class A {
    void f() {
        java.util.function.Function<String, Integer> fn = s -> s/*caret*/;
    }
}
"#;
    let offset = src.find("/*caret*/").unwrap();
    let src = src.replacen("/*caret*/", "", 1);
    let ctx = JavaContextExtractor::new(&src, offset);
    let cursor_node = ctx.find_cursor_node();

    let vars = extract_locals(&ctx, 0, cursor_node);

    assert!(
        vars.iter().any(|v| {
            v.name.as_str() == "s" && v.type_internal.erased_internal() == "unknown"
        }),
        "lambda param should be visible as a placeholder local: {:?}",
        vars.iter()
            .map(|v| format!("{}:{}", v.name, v.type_internal.erased_internal()))
            .collect::<Vec<_>>()
    );
}

#[test]
fn test_extract_parenthesized_lambda_params_as_locals() {
    let src = r#"class A {
    void f() {
        java.util.function.BiFunction<String, String, Integer> fn = (left, right) -> left/*caret*/;
    }
}
"#;
    let offset = src.find("/*caret*/").unwrap();
    let src = src.replacen("/*caret*/", "", 1);
    let ctx = JavaContextExtractor::new(&src, offset);
    let cursor_node = ctx.find_cursor_node();

    let vars = extract_locals(&ctx, 0, cursor_node);

    assert!(
        vars.iter().any(|v| v.name.as_str() == "left"),
        "left should be visible: {:?}",
        vars.iter().map(|v| v.name.as_str()).collect::<Vec<_>>()
    );
    assert!(
        vars.iter().any(|v| v.name.as_str() == "right"),
        "right should be visible: {:?}",
        vars.iter().map(|v| v.name.as_str()).collect::<Vec<_>>()
    );
}

#[test]
fn test_zero_arg_lambda_does_not_add_fake_locals() {
    let src = r#"class A {
    void f() {
        Runnable r = () -> { System.out.println(); /*caret*/ };
    }
}
"#;
    let offset = src.find("/*caret*/").unwrap();
    let src = src.replacen("/*caret*/", "", 1);
    let ctx = JavaContextExtractor::new(&src, offset);
    let cursor_node = ctx.find_cursor_node();

    let vars = extract_locals(&ctx, 0, cursor_node);

    assert!(
        vars.iter().all(|v| v.name.as_str() != "()"),
        "zero-arg lambdas must not synthesize fake parameter locals: {:?}",
        vars.iter().map(|v| v.name.as_str()).collect::<Vec<_>>()
    );
}

#[test]
fn test_broken_member_access_does_not_pollute_following_local_type() {
    let src = r#"class T {
    void m() {
        RandomEnum.B.;

        RandomRecord rc;
        rc.
    }
}
"#;
    let offset = src.find("rc.\n").unwrap() + 2;
    let ctx = JavaContextExtractor::new(src, offset);
    let cursor_node = ctx.find_cursor_node();
    let vars = extract_locals(&ctx, 0, cursor_node);
    let rc = vars
        .iter()
        .find(|var| var.name.as_str() == "rc")
        .expect("rc local should be recovered");
    assert_eq!(
        rc.type_internal.erased_internal(),
        "RandomRecord",
        "vars={:?}",
        vars.iter()
            .map(|var| format!(
                "{}:{}",
                var.name,
                var.type_internal.erased_internal()
            ))
            .collect::<Vec<_>>()
    );
}

#[test]
fn test_extract_explicit_typed_lambda_param() {
    let src = r#"import java.util.function.Function;
class T {
    void m() {
        Function<String, Integer> f = (String x) -> x/*caret*/;
    }
}
"#;
    let offset = src.find("/*caret*/").unwrap();
    let src = src.replacen("/*caret*/", "", 1);
    let ctx = JavaContextExtractor::new(&src, offset);
    let cursor_node = ctx.find_cursor_node();
    let vars = extract_locals(&ctx, 0, cursor_node);
    let x = vars
        .iter()
        .find(|v| v.name.as_str() == "x")
        .expect("x should exist");
    assert_eq!(
        x.type_internal.erased_internal(),
        "String",
        "explicit typed lambda param should use declared type"
    );
}

#[test]
fn test_extract_var_lambda_param_stays_unknown_for_sam_binding() {
    let src = r#"import java.util.function.Function;
class T {
    void m() {
        Function<String, Integer> f = (var x) -> x/*caret*/;
    }
}
"#;
    let offset = src.find("/*caret*/").unwrap();
    let src = src.replacen("/*caret*/", "", 1);
    let ctx = JavaContextExtractor::new(&src, offset);
    let cursor_node = ctx.find_cursor_node();
    let vars = extract_locals(&ctx, 0, cursor_node);
    let x = vars
        .iter()
        .find(|v| v.name.as_str() == "x")
        .expect("x should exist");
    assert_eq!(
        x.type_internal.erased_internal(),
        "unknown",
        "var lambda param should remain unknown for SAM binding"
    );
}

#[test]
fn the_parameters_of_the_lambda_around_the_cursor_are_active() {
    let src = "class A { void f() { g((a, b) -> { use(a); }); } }";
    let names = |marker: &str| {
        let ctx = JavaContextExtractor::new(src, src.find(marker).unwrap() + 1);
        extract_active_lambda_param_names(&ctx, ctx.find_cursor_node())
    };
    assert_eq!(names("use(a)"), vec!["a", "b"]);
    assert!(names("g((").is_empty());
}

#[test]
fn later_declarations_and_other_scopes_are_out_of_sight() {
    let src = "class A { void f(int p) { int a = 1; { int b = 2; } use(); int c = 3; } }";
    let ctx = JavaContextExtractor::new(src, src.find("use()").unwrap() + 1);
    let names: Vec<String> = extract_locals(&ctx, 0, ctx.find_cursor_node())
        .into_iter()
        .map(|v| v.name)
        .collect();
    assert_eq!(names, vec!["a", "p"]);
}

#[test]
fn the_nearest_declaration_of_a_name_is_seen() {
    let src = "class A { void f(String x) { int x = 1; { long x = 2; use(); } } }";
    let ctx = JavaContextExtractor::new(src, src.find("use()").unwrap() + 1);
    let vars = extract_locals(&ctx, 0, ctx.find_cursor_node());
    assert_eq!(vars.len(), 1);
    assert_eq!(vars[0].type_internal.erased_internal(), "long");
}

#[test]
fn a_declaration_is_taken_for_a_call_where_a_bracket_follows() {
    let visible = |rest: &str| {
        let src = format!("class A {{ void f(Object o) {{ int x = 1; {rest} /* cursor */ }} }}");
        let ctx = JavaContextExtractor::new(&src, src.find("/* cursor").unwrap());
        extract_locals(&ctx, 0, ctx.find_cursor_node())
            .iter()
            .any(|v| v.name.as_str() == "x")
    };
    assert!(visible("o.toString();"));
    assert!(!visible("(o).toString();"));
}
