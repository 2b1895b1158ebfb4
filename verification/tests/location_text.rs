//! What the text around the cursor tells.
use java_analyzer::extractor::JavaContextExtractor;
use java_analyzer::location::arguments::find_prefix_in_expr_subtree;
use java_analyzer::location::handlers::infer_annotation_target;
use java_analyzer::location::heuristics::DetectedConstructorCall;
use java_analyzer::location::hints::{count_top_level_commas, split_top_level_args};
use java_analyzer::location::names::handle_identifier;
use java_analyzer::location::text::extract_last_expr_from_text;
use java_analyzer::location::{heuristics, text};
use java_analyzer::parse::{build_tree, RawNode};
use java_analyzer::semantic::CursorLocation;

#[test]
fn text_test_extract_last_expr_simple_identifier() {
    assert_eq!(
        extract_last_expr_from_text("class A { void f() { this"),
        Some("this".to_string())
    );
}

#[test]
fn text_test_extract_last_expr_method_call() {
    assert_eq!(
        extract_last_expr_from_text("{ RealMain.getInstance()"),
        Some("RealMain.getInstance()".to_string())
    );
}

#[test]
fn text_test_extract_last_expr_after_semicolon() {
    assert_eq!(
        extract_last_expr_from_text("int x = 1; obj"),
        Some("obj".to_string())
    );
}

#[test]
fn text_test_detect_trailing_dot_simple() {
    assert_eq!(
        text::detect_trailing_dot_in_text("class A { void f() { cl."),
        Some(("cl".to_string(), String::new()))
    );
}

#[test]
fn text_test_detect_trailing_dot_with_prefix() {
    assert_eq!(
        text::detect_trailing_dot_in_text("class A { void f() { a.p"),
        Some(("a".to_string(), "p".to_string()))
    );
}

#[test]
fn test_detect_trailing_dot_this() {
    assert_eq!(
        text::detect_trailing_dot_in_text("class A { void f() { this."),
        Some(("this".to_string(), String::new()))
    );
}

#[test]
fn test_detect_trailing_dot_chained() {
    assert_eq!(
        text::detect_trailing_dot_in_text("class A { void f() { RealMain.getInstance()."),
        Some(("RealMain.getInstance()".to_string(), String::new()))
    );
}

#[test]
fn test_detect_new_simple() {
    assert_eq!(
        text::detect_new_keyword_before_cursor("class A { void f() { new RandomCla"),
        Some(("RandomCla".to_string(), None))
    );
}

#[test]
fn test_detect_new_empty() {
    assert_eq!(
        text::detect_new_keyword_before_cursor("class A { void f() { new "),
        Some((String::new(), None))
    );
}

#[test]
fn test_detect_new_with_newline_rejects() {
    // `new\nFoo` should not be treated as constructor
    assert_eq!(
        text::detect_new_keyword_before_cursor("class A { void f() { new\nFoo"),
        None
    );
}

#[test]
fn heuristics_test_extract_last_expr_simple_identifier() {
    assert_eq!(
        extract_last_expr_from_text("class A { void f() { this"),
        Some("this".to_string())
    );
}

#[test]
fn heuristics_test_extract_last_expr_method_call() {
    assert_eq!(
        extract_last_expr_from_text("{ RealMain.getInstance()"),
        Some("RealMain.getInstance()".to_string())
    );
}

#[test]
fn heuristics_test_extract_last_expr_after_semicolon() {
    assert_eq!(
        extract_last_expr_from_text("int x = 1; obj"),
        Some("obj".to_string())
    );
}

#[test]
fn heuristics_test_detect_trailing_dot_simple() {
    assert_eq!(
        heuristics::detect_trailing_dot_in_text("class A { void f() { cl."),
        Some(("cl".to_string(), String::new()))
    );
}

#[test]
fn heuristics_test_detect_trailing_dot_with_prefix() {
    assert_eq!(
        heuristics::detect_trailing_dot_in_text("class A { void f() { a.p"),
        Some(("a".to_string(), "p".to_string()))
    );
}

#[test]
fn test_detect_trailing_dot_with_this() {
    assert_eq!(
        heuristics::detect_trailing_dot_in_text("class A { void f() { this."),
        Some(("this".to_string(), String::new()))
    );
}

#[test]
fn test_detect_trailing_dot_with_super() {
    assert_eq!(
        heuristics::detect_trailing_dot_in_text("class A extends B { void f() { super."),
        Some(("super".to_string(), String::new()))
    );
}

#[test]
fn test_detect_trailing_dot_with_call() {
    assert_eq!(
        heuristics::detect_trailing_dot_in_text("class A { void f() { RealMain.getInstance()."),
        Some(("RealMain.getInstance()".to_string(), String::new()))
    );
}

#[test]
fn test_detect_trailing_dot_ignores_trailing_line_comment() {
    assert_eq!(
        heuristics::detect_trailing_dot_in_text("class A { void f() { list. // trailing comment"),
        Some(("list".to_string(), String::new()))
    );
}

#[test]
fn test_detect_new_keyword_before_cursor_with_prefix() {
    assert_eq!(
        heuristics::detect_new_keyword_before_cursor("class A { void f() { new RandomCla"),
        Some(DetectedConstructorCall {
            class_prefix: "RandomCla".to_string(),
            qualifier_expr: None,
        })
    );
}

#[test]
fn test_detect_new_keyword_before_cursor_no_prefix() {
    assert_eq!(
        heuristics::detect_new_keyword_before_cursor("class A { void f() { new "),
        Some(DetectedConstructorCall {
            class_prefix: String::new(),
            qualifier_expr: None,
        })
    );
}

#[test]
fn test_detect_new_keyword_before_cursor_with_qualified_inner_constructor() {
    assert_eq!(
        heuristics::detect_new_keyword_before_cursor("class A { void f() { Test.Inner value = t.new Inner"),
        Some(DetectedConstructorCall {
            class_prefix: "Inner".to_string(),
            qualifier_expr: Some("t".to_string()),
        })
    );
}

#[test]
fn test_detect_new_keyword_before_cursor_multiline() {
    assert_eq!(
        heuristics::detect_new_keyword_before_cursor("class A { void f() { new\nFoo"),
        None
    );
}

#[test]
fn test_split_top_level_args_keeps_lambda_arrow_from_hiding_commas() {
    let args = split_top_level_args(r##"s -> s.subs, "hello""##);
    assert_eq!(args, vec![r#"s -> s.subs"#, r#""hello""#]);
    assert_eq!(count_top_level_commas(r##"s -> s.subs, "hello""##), 1);
}

#[test]
fn test_dangling_annotation_in_error_context_returns_none() {
    let src = r#"class A {
    @Overr
}
"#;
    // Position cursor at the end of @Overr
    let offset = src.find("@Overr").unwrap() + 6;
    let ctx = JavaContextExtractor::new(src, offset);
    let cursor_node = ctx.find_cursor_node();

    // Traverse up to find the annotation node
    let mut n = cursor_node.expect("Node should exist");
    while ctx.tree.kind(n) != "marker_annotation" && ctx.tree.kind(n) != "annotation" {
        if let Some(parent) = ctx.tree.parent(n) {
            n = parent;
        } else {
            break;
        }
    }

    let target = infer_annotation_target(&ctx.tree, n);

    // Assert that we get None instead of "TYPE"
    assert!(
        target.is_none(),
        "Expected None for a dangling annotation inside an ERROR/class_body, but got {:?}",
        target
    );
}

#[test]
fn test_identifier_after_empty_array_initializer_is_expression_without_space() {
    let src = "Object[] o = new Object[]{};\nArrayList";
    let offset = src.find("ArrayList").unwrap();
    let ctx = JavaContextExtractor::new(src, offset);
    let cursor_node = ctx.find_cursor_node();
    let (location, _) = handle_identifier(&ctx, cursor_node.unwrap());
    assert!(
        matches!(location, CursorLocation::Expression { .. }),
        "Expected Expression without trailing space after complete array initializer, got {:?}",
        location
    );
}

#[test]
fn test_identifier_after_invalid_array_syntax_is_expression_without_space() {
    let src = "Object[] o = new Object[];\nArrayList";
    let offset = src.find("ArrayList").unwrap();
    let ctx = JavaContextExtractor::new(src, offset);
    let cursor_node = ctx.find_cursor_node();
    let (location, _) = handle_identifier(&ctx, cursor_node.unwrap());
    assert!(
        matches!(location, CursorLocation::Expression { .. }),
        "Expected Expression without trailing space after invalid array syntax, got {:?}",
        location
    );
}

#[test]
fn test_identifier_with_semicolon_after_type_is_expression() {
    let src = "Object[] o = new Object[]{};\nArrayList ;";
    let offset = src.find("ArrayList").unwrap() + "ArrayList".len();
    let ctx = JavaContextExtractor::new(src, offset);
    let cursor_node = ctx.find_cursor_node();
    let (location, _) = handle_identifier(&ctx, cursor_node.unwrap());
    assert!(
        matches!(location, CursorLocation::Expression { .. }),
        "Expected Expression for `ArrayList ;`, got {:?}",
        location
    );
}


#[test]
fn a_type_is_seen_behind_any_white_space() {
    for (src, ty) in [
        ("\tString ", "String"),
        ("\tMap<String,\tInteger>\t", "Map<String,\tInteger>"),
        ("String\u{2003}", "String"),
        ("\u{2003}int[]\n", ""),
    ] {
        let ctx = JavaContextExtractor::new(src, src.len());
        let found = heuristics::detect_variable_name_after_type_text(&ctx);
        if ty.is_empty() {
            assert_eq!(found, None, "{src:?}");
        } else {
            assert_eq!(found.as_deref(), Some(ty), "{src:?}");
        }
    }
}

#[test]
fn split_arguments_are_trimmed_and_split_again_to_themselves() {
    for (text, expected) in [
        (" a , f(b, c),  ,[1, 2] ", vec!["a", "f(b, c)", "[1, 2]"]),
        ("new A<B, C>(), x", vec!["new A<B, C>()", "x"]),
        ("", vec![]),
        (" , ", vec![]),
    ] {
        let args = split_top_level_args(text);
        assert_eq!(args, expected);
        for arg in &args {
            assert!(!arg.is_empty());
            assert_eq!(arg.trim(), arg.as_str());
            assert_eq!(count_top_level_commas(arg), 0);
        }
        assert_eq!(split_top_level_args(&args.join(",")), args);
    }
}

#[test]
fn an_identifier_is_completed_up_to_one_byte_behind_it() {
    for (gap, expected) in [("", "ab"), (" ", "ab"), ("  ", ""), ("\u{a0}", ""), ("\u{2003}", "")] {
        let head = format!("class A {{ void f() {{ g(ab{gap}");
        let src = format!("{head}); }} }}");
        let ctx = JavaContextExtractor::new(&src, head.len());
        let at = head.find("ab").unwrap();
        let id = (0..ctx.tree.nodes.len())
            .find(|n| ctx.tree.kind(*n) == "identifier" && ctx.tree.start(*n) == at)
            .unwrap();
        let prefix: String = find_prefix_in_expr_subtree(&ctx, id).iter().collect();
        assert_eq!(prefix, expected, "{gap:?}");
    }
}

fn reported(kind: &str, start_byte: usize, end_byte: usize, depth: u32, named: bool) -> RawNode {
    RawNode {
        kind: kind.to_string(),
        start_byte,
        end_byte,
        depth,
        named,
        extra: false,
        missing: false,
        field: None,
    }
}

#[test]
fn trees_are_built_from_the_nodes_in_their_order() {
    let source: Vec<char> = "\u{e9}(a)".chars().collect();
    let raw = vec![
        reported("program", 0, 5, 0, true),
        reported("identifier", 0, 2, 1, true),
        reported("list", 2, 5, 1, true),
        reported("(", 2, 3, 2, false),
        reported("identifier", 3, 4, 2, true),
        reported(")", 4, 5, 2, false),
    ];
    let tree = build_tree(&raw, &source);
    let spans: Vec<(usize, usize)> = tree.nodes.iter().map(|n| (n.start, n.end)).collect();
    assert_eq!(spans, vec![(0, 4), (0, 1), (1, 4), (1, 2), (2, 3), (3, 4)]);
    let parents: Vec<Option<usize>> = tree.nodes.iter().map(|n| n.parent).collect();
    assert_eq!(parents, vec![None, Some(0), Some(0), Some(2), Some(2), Some(2)]);
    assert_eq!(tree.nodes[0].children, vec![1, 2]);
    assert_eq!(tree.nodes[2].children, vec![3, 4, 5]);
    assert_eq!(tree.nodes[2].named_children, vec![4]);
    assert_eq!((tree.nodes[4].start_byte, tree.nodes[4].end_byte), (3, 4));
}
