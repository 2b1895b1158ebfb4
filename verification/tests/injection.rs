//! Texts that are parsed again with a marker at the cursor.
use java_analyzer::extractor::{JavaContextExtractor, SENTINEL};
use java_analyzer::injection::{
    build_injected_source, close_open_brackets, inject_and_determine, strip_sentinel_from_location,
};
use java_analyzer::semantic::CursorLocation;

#[test]
fn test_build_injected_source_trailing_dot() {
    // ERROR node with trailing dot
    let src = r#"class A {
    void f() {
        cl.
    }
}
"#;
    // Find the end of `cl.`
    let offset = src.find("cl.").unwrap() + 3;
    let ctx = JavaContextExtractor::new(&src, offset);
    let cursor_node = ctx.find_cursor_node();

    let injected = build_injected_source(&ctx, cursor_node);

    // Expected behavior: Inject __KIRO__ after the dot and add a semicolon to close the statement,
    // and close_open_brackets will automatically complete the missing `}`.
    assert!(
        injected.contains(&format!("cl.{SENTINEL};")),
        "Injected source should contain sentinel and semicolon, got:\n{}",
        injected
    );
}

#[test]
fn test_build_injected_source_new_keyword_with_newline() {
    // A newline after the `new` keyword causes the AST to swallow the next line.
    let src = r#"class A {
    void f() {
        new 
        
        System.out.println("hello");
    }
}
"#;
    let offset = src.find("new ").unwrap() + 4;
    let ctx = JavaContextExtractor::new(&src, offset);
    let cursor_node = ctx.find_cursor_node();

    let injected = build_injected_source(&ctx, cursor_node);

    // Expectation: Because a newline character follows `new`, it's inferred that the user hasn't finished writing the code, so `__KIRO__()` is injected directly as an empty constructor.
    assert!(
        injected.contains(&format!("new  {SENTINEL}()")),
        "Injected source should treat separated new as complete call, got:\n{}",
        injected
    );
}

#[test]
fn test_build_injected_source_normal_identifier() {
    // Ordinary Identifiers
    let src = r#"class A {
    void f() {
        myVa
    }
}
"#;
    let offset = src.find("myVa").unwrap() + 4;
    let ctx = JavaContextExtractor::new(&src, offset);
    let cursor_node = ctx.find_cursor_node();

    let injected = build_injected_source(&ctx, cursor_node);

    // Expectation: Since there is no suffix, treat it as an expression statement and inject a semicolon.
    assert!(
        injected.contains(&format!("myVa{SENTINEL}")),
        "Injected source should append sentinel to identifier, got:\n{}",
        injected
    );
}

#[test]
fn test_build_injected_source_scoped_type() {
    // scoped_type_identifier (FQN)
    let src = r#"class A {
    void f() {
        java.util.A
    }
}
"#;
    let offset = src.find("java.util.A").unwrap() + 11;
    let ctx = JavaContextExtractor::new(&src, offset);
    let cursor_node = ctx.find_cursor_node();

    let injected = build_injected_source(&ctx, cursor_node);

    // Expectation: When injecting package name types, add a semicolon to convert it to a valid MemberAccess.
    assert!(
        injected.contains(&format!("java.util.A{SENTINEL};")),
        "Injected source should append semicolon for scoped types, got:\n{}",
        injected
    );
}

#[test]
fn test_inject_and_determine_member_access() {
    let src = r#"class A {
    void f() {
        cl.
    }
}
"#;
    let offset = src.find("cl.").unwrap() + 3;
    let ctx = JavaContextExtractor::new(&src, offset);
    let cursor_node = ctx.find_cursor_node();

    let result = inject_and_determine(&ctx, cursor_node, None);
    assert!(result.is_some(), "inject_and_determine should succeed");

    let (location, query) = result.unwrap();

    // Expected result: MemberAccess, receiver_expr is "cl", and query is empty.
    assert!(
        matches!(
            &location,
            CursorLocation::MemberAccess { member_prefix, receiver_expr, .. }
            if member_prefix.is_empty() && receiver_expr == "cl"
        ),
        "Expected MemberAccess for cl., got {:?}",
        location
    );
    assert_eq!(query, "", "Query should be empty");
}

#[test]
fn test_inject_and_determine_constructor() {
    let src = r#"class A {
    void f() {
        new RandomCla
    }
}
"#;
    let offset = src.find("RandomCla").unwrap() + 9;
    let ctx = JavaContextExtractor::new(&src, offset);
    let cursor_node = ctx.find_cursor_node();

    let result = inject_and_determine(&ctx, cursor_node, None);
    assert!(result.is_some(), "inject_and_determine should succeed");

    let (location, query) = result.unwrap();

    assert!(
        matches!(
            &location,
            CursorLocation::ConstructorCall { class_prefix, .. }
            if class_prefix == "RandomCla"
        ),
        "Expected ConstructorCall with prefix RandomCla, got {:?}",
        location
    );
    assert_eq!(query, "RandomCla", "Query should match the prefix");
}

#[test]
fn test_inject_and_determine_plain_identifier() {
    let src = r#"class A {
    public static void func() {}
    void f() {
        func
    }
}
"#;
    let offset = src.find("func\n").unwrap() + 4;
    let ctx = JavaContextExtractor::new(src, offset);
    let cursor_node = ctx.find_cursor_node();

    let result = inject_and_determine(&ctx, cursor_node, None);
    assert!(
        result.is_some(),
        "inject_and_determine should succeed for plain identifier"
    );

    let (location, query) = result.unwrap();
    assert_eq!(query, "func");
    println!("location: {:?}", location);
}

#[test]
fn test_build_injected_source_in_parameters() {
    let src = r#"class A {
    public static void func(Str) {
    }
}
"#;
    let offset = src.find("Str").unwrap() + 3;
    let ctx = JavaContextExtractor::new(src, offset);
    let cursor_node = ctx.find_cursor_node();

    let injected = build_injected_source(&ctx, cursor_node);

    assert!(!injected.contains(&format!("Str{SENTINEL};")));
    assert!(injected.contains(&format!("Str{SENTINEL}")));
}

#[test]
fn test_inject_and_determine_in_parameters() {
    let src = r#"class A {
    public static void func(Str) {
    }
}
"#;
    let offset = src.find("Str").unwrap() + 3;
    let ctx = JavaContextExtractor::new(src, offset);
    let cursor_node = ctx.find_cursor_node();

    let result = inject_and_determine(&ctx, cursor_node, None);
    assert!(
        result.is_some(),
        "inject_and_determine should succeed in parameters"
    );

    let (location, query) = result.unwrap();

    assert!(
        matches!(location, CursorLocation::TypeAnnotation { .. }),
        "Expected TypeAnnotation, got {:?}",
        location
    );
    assert_eq!(query, "Str");
}

#[test]
fn test_inject_and_determine_class_body_slot_after_nested_class_is_not_unknown() {
    let src_with_cursor = r#"public class VarargsExample {
    public static class Test implements Runnable {
        @Override
        public void run() {
            throw new RuntimeException("Not implemented yet");
        }
    }

    // cursor here
    |
}
"#;
    let offset = src_with_cursor.find('|').expect("cursor marker");
    let src = src_with_cursor.replacen('|', "", 1);
    let ctx = JavaContextExtractor::new(&src, offset);
    let cursor_node = ctx.find_cursor_node();
    let injected = build_injected_source(&ctx, cursor_node);

    assert!(
        injected.contains(&format!("void {SENTINEL}() {{}}")),
        "class-body injection should use valid member declaration, got:\n{}",
        injected
    );

    let result = inject_and_determine(&ctx, cursor_node, None)
        .expect("inject_and_determine should succeed in class member slot");
    let (location, query) = result;

    assert!(
        !matches!(location, CursorLocation::Unknown),
        "class-body slot after nested class must not be Unknown: {:?}",
        location
    );
    assert_eq!(query, "");
}

#[test]
fn test_inject_and_determine_class_body_partial_member_prefix_not_unknown() {
    let src_with_cursor = r#"public class A {
    prote|
}
"#;
    let offset = src_with_cursor.find('|').expect("cursor marker");
    let src = src_with_cursor.replacen('|', "", 1);
    let ctx = JavaContextExtractor::new(&src, offset);
    let cursor_node = ctx.find_cursor_node();
    let injected = build_injected_source(&ctx, cursor_node);

    assert!(
        injected.contains(&format!("void prote{SENTINEL}() {{}}")),
        "class-body partial declaration should use declaration-shaped injection, got:\n{}",
        injected
    );
    assert!(
        !injected.contains(&format!("prote{SENTINEL}();")),
        "must not inject expression-shaped call in class body: {}",
        injected
    );

    let (loc, query) = inject_and_determine(&ctx, cursor_node, None)
        .expect("inject_and_determine should succeed in class member prefix");
    assert!(!matches!(loc, CursorLocation::Unknown), "got {:?}", loc);
    assert_eq!(query, "prote");
}

fn chars(s: &str) -> Vec<char> {
    s.chars().collect()
}

#[test]
fn the_marker_is_in_every_injected_text() {
    let src = "class A { int x = new B(a.b, ; void f() { return y.";
    for offset in 0..=src.len() {
        let ctx = JavaContextExtractor::new(src, offset);
        let injected = build_injected_source(&ctx, ctx.find_cursor_node());
        assert!(injected.contains(SENTINEL), "{offset}: {injected}");
    }
}

#[test]
fn closing_brackets_close_what_is_open() {
    let open = "f(a[0, { \"(\" /* [ */ '{' // (\n";
    let close: String = close_open_brackets(&chars(open)).into_iter().collect();
    assert_eq!(close, "}])");
    let closed = format!("{open}{close}");
    assert!(close_open_brackets(&chars(&closed)).is_empty());
    assert!(close_open_brackets(&chars("a) b]")).is_empty());
    assert_eq!(close_open_brackets(&chars("\"(")), Vec::<char>::new());
}

#[test]
fn locations_lose_the_marker() {
    let marked = CursorLocation::MethodReference {
        qualifier_expr: format!("a{SENTINEL}b"),
        member_prefix: format!("{SENTINEL}c{SENTINEL}"),
        is_constructor: true,
    };
    let plain = CursorLocation::MethodReference {
        qualifier_expr: "ab".to_string(),
        member_prefix: "c".to_string(),
        is_constructor: true,
    };
    assert_eq!(strip_sentinel_from_location(marked), plain);
    assert_eq!(
        strip_sentinel_from_location(CursorLocation::Expression {
            prefix: "kept".to_string()
        }),
        CursorLocation::Expression {
            prefix: "kept".to_string()
        }
    );
}

#[test]
fn a_name_behind_new_is_not_taken_for_another_statement() {
    for (name, continues) in [("x", true), ("\u{e9}", true), ("\u{bf}", false), (";", false)] {
        let src = format!("class A {{ Object f() {{ return new {name}(); }} }}");
        let offset = src.find(name).unwrap();
        let ctx = JavaContextExtractor::new(&src, offset);
        let injected = build_injected_source(&ctx, ctx.find_cursor_node());
        let bare = format!("new  {SENTINEL}(){name}");
        assert_eq!(!injected.contains(&bare), continues, "{injected}");
    }
}
