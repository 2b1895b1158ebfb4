//! Where the cursor stands, on real code.
use java_analyzer::extractor::JavaContextExtractor;
use java_analyzer::injection::{inject_and_determine, should_force_injection};
use java_analyzer::location::determine_location;
use java_analyzer::location::hints::infer_functional_target_hint;
use java_analyzer::semantic::{
    CursorLocation, ExpectedTypeSource, FunctionalExprShape, FunctionalTargetHint,
    MethodRefQualifierKind, StatementLabelCompletionKind,
};
use java_analyzer::syntax::NodeId;

/// The location of the cursor, read again with the marker where the first reading is in doubt.
fn locate(ctx: &JavaContextExtractor, cursor: Option<NodeId>) -> (CursorLocation, String) {
    let (loc, query) = determine_location(ctx, cursor, None);
    if matches!(loc, CursorLocation::Unknown) || should_force_injection(ctx, cursor, &loc) {
        if let Some(found) = inject_and_determine(ctx, cursor, None) {
            return found;
        }
    }
    (loc, query)
}

fn location_at_offset(source: &str, offset: usize) -> CursorLocation {
    let ctx = JavaContextExtractor::new(source, offset);
    let cursor = ctx.find_cursor_node();
    locate(&ctx, cursor).0
}

#[test]
fn test_misread_type_as_expression() {
    // Missing semicolon can make tree-sitter misread `str\nfunc(...)` as a declaration.
    // Cursor at `str` must still be treated as Expression, not TypeAnnotation.
    let src = r#"class A {
    public static String str = "1234";
    public static void func() {
        str
        func(func("1234", 5678));
    }
}

"#;
    // Cursor sits at the end of method-body `str`.
    let marker = "func() {\n        str";
    let offset = src.find(marker).unwrap() + marker.len();
    let ctx = JavaContextExtractor::new(src, offset);
    let cursor_node = ctx.find_cursor_node();

    let (loc, query) = locate(&ctx, cursor_node);

    assert!(
        matches!(loc, CursorLocation::Expression { .. }),
        "Expected Expression (str is an expression, not a type annotation), got {:?}",
        loc
    );
    assert_eq!(query, "str");
}

#[test]
fn test_misread_before_super_call_stays_expression() {
    let src = r#"class Child extends Base {
    private void bar() {
        f
        super.foo();
        this.foo();
    }
}
"#;
    let marker = "        f";
    let offset = src.find(marker).unwrap() + marker.len();
    let ctx = JavaContextExtractor::new(src, offset);
    let cursor_node = ctx.find_cursor_node();

    let (loc, query) = locate(&ctx, cursor_node);

    assert!(
        matches!(loc, CursorLocation::Expression { .. }),
        "Expected Expression before recovered super.foo(), got {:?}",
        loc
    );
    assert_eq!(query, "f");
}

#[test]
fn test_misread_before_this_call_stays_expression() {
    let src = r#"class A {
    private void bar() {
        f
        this.foo();
    }
}
"#;
    let marker = "        f";
    let offset = src.find(marker).unwrap() + marker.len();
    let ctx = JavaContextExtractor::new(src, offset);
    let cursor_node = ctx.find_cursor_node();

    let (loc, query) = locate(&ctx, cursor_node);

    assert!(
        matches!(loc, CursorLocation::Expression { .. }),
        "Expected Expression before recovered this.foo(), got {:?}",
        loc
    );
    assert_eq!(query, "f");
}

#[test]
fn test_misread_before_real_local_decl_and_calls_stays_expression() {
    let src = r#"class A {
    private void bar() {
        fo
        String a = null;
        foo();
        this.foo();
    }
}
"#;
    let marker = "        fo";
    let offset = src.find(marker).unwrap() + marker.len();
    let ctx = JavaContextExtractor::new(src, offset);
    let cursor_node = ctx.find_cursor_node();
    let (loc, query) = locate(&ctx, cursor_node);

    assert!(
        matches!(loc, CursorLocation::Expression { .. }),
        "Expected Expression before recovered String a = null, got {:?}",
        loc
    );
    assert_eq!(query, "fo");
}

#[test]
fn test_misread_before_qualified_inner_constructor_stays_expression() {
    let src = r#"class Test {
    private void foo() {
        Test t = null;
        f // expected expression there
        Test.NestedNonStatic nns = t.new NestedNonStatic();
    }

    public class NestedNonStatic {}
}
"#;
    let marker = "        f";
    let offset = src.find(marker).unwrap() + marker.len();
    let ctx = JavaContextExtractor::new(src, offset);
    let cursor_node = ctx.find_cursor_node();

    let (loc, query) = locate(&ctx, cursor_node);

    assert!(
        matches!(loc, CursorLocation::Expression { .. }),
        "Expected Expression before recovered qualified inner constructor, got {:?}",
        loc
    );
    assert_eq!(query, "f");
}

#[test]
fn test_misread_before_qualified_inner_constructor_without_comment_stays_expression() {
    let src = r#"class Test {
    private void foo() {
        Test t = null;
        f
        Test.NestedNonStatic nns = t.new NestedNonStatic();
    }

    public class NestedNonStatic {}
}
"#;
    let marker = "        f";
    let offset = src.find(marker).unwrap() + marker.len();
    let ctx = JavaContextExtractor::new(src, offset);
    let cursor_node = ctx.find_cursor_node();

    let (loc, query) = locate(&ctx, cursor_node);

    assert!(
        matches!(loc, CursorLocation::Expression { .. }),
        "Expected Expression before recovered qualified inner constructor without comment, got {:?}",
        loc
    );
    assert_eq!(query, "f");
}

#[test]
fn test_break_routes_to_statement_label_location() {
    let src = r#"class A {
    void f() {
        outer: {
            break 
        }
    }
}
"#;
    let marker = "break ";
    let offset = src.find(marker).unwrap() + marker.len();
    let ctx = JavaContextExtractor::new(src, offset);
    let cursor_node = ctx.find_cursor_node();

    let (loc, query) = locate(&ctx, cursor_node);
    assert!(
        matches!(
            loc,
            CursorLocation::StatementLabel {
                kind: StatementLabelCompletionKind::Break,
                ref prefix
            } if prefix.is_empty()
        ),
        "Expected StatementLabel(Break), got {:?}",
        loc
    );
    assert!(
        query.is_empty(),
        "expected empty break label query, got {query:?}"
    );
}

#[test]
fn test_continue_partial_prefix_routes_to_statement_label_location() {
    let src = r#"class A {
    void f() {
        outer:
        while (true) {
            continue out
        }
    }
}
"#;
    let marker = "continue out";
    let offset = src.find(marker).unwrap() + marker.len();
    let ctx = JavaContextExtractor::new(src, offset);
    let cursor_node = ctx.find_cursor_node();

    let (loc, query) = locate(&ctx, cursor_node);
    assert!(
        matches!(
            loc,
            CursorLocation::StatementLabel {
                kind: StatementLabelCompletionKind::Continue,
                ref prefix
            } if prefix == "out"
        ),
        "Expected StatementLabel(Continue, \"out\"), got {:?}",
        loc
    );
    assert_eq!(query, "out");
}

#[test]
fn test_break_after_semicolon_is_not_statement_label_location() {
    let src = r#"class T {
    void m() {
        outer: {
            break outer;
        }
    }
}
"#;
    let marker = "break outer;";
    let offset = src.find(marker).unwrap() + marker.len();
    let ctx = JavaContextExtractor::new(src, offset);
    let cursor_node = ctx.find_cursor_node();

    let (loc, _query) = locate(&ctx, cursor_node);
    assert!(
        !matches!(loc, CursorLocation::StatementLabel { .. }),
        "completed break statement must not stay in StatementLabel, got {:?}",
        loc
    );
}

#[test]
fn test_continue_after_semicolon_is_not_statement_label_location() {
    let src = r#"class T {
    void m() {
        loop: while (true) {
            continue loop;
        }
    }
}
"#;
    let marker = "continue loop;";
    let offset = src.find(marker).unwrap() + marker.len();
    let ctx = JavaContextExtractor::new(src, offset);
    let cursor_node = ctx.find_cursor_node();

    let (loc, _query) = locate(&ctx, cursor_node);
    assert!(
        !matches!(loc, CursorLocation::StatementLabel { .. }),
        "completed continue statement must not stay in StatementLabel, got {:?}",
        loc
    );
}

#[test]
fn test_genuine_type_annotation_in_local_decl() {
    // Genuine local declaration: type-position completion must stay TypeAnnotation.
    let src = r#"class A {
    void f() {
        HashM map = null;
    }
}
"#;
    let offset = src.find("HashM").unwrap() + 5; // Cursor right after `HashM`.
    let ctx = JavaContextExtractor::new(src, offset);
    let cursor_node = ctx.find_cursor_node();

    let (loc, query) = locate(&ctx, cursor_node);

    assert!(
        matches!(loc, CursorLocation::TypeAnnotation { .. }),
        "Expected TypeAnnotation for genuine type position, got {:?}",
        loc
    );
    assert_eq!(query, "HashM");
}

#[test]
fn test_genuine_qualified_type_annotation_in_local_decl() {
    let src = r#"class Test {
    class NestedNonStatic {}

    void f() {
        Test.NestedNonStatic nns = null;
    }
}
"#;
    let marker = "Test.NestedNonStatic";
    let offset = src.find(marker).unwrap() + "Test".len();
    let ctx = JavaContextExtractor::new(src, offset);
    let cursor_node = ctx.find_cursor_node();

    let (loc, query) = locate(&ctx, cursor_node);

    assert!(
        matches!(loc, CursorLocation::TypeAnnotation { .. }),
        "Expected TypeAnnotation for genuine qualified type position, got {:?}",
        loc
    );
    assert_eq!(query, "Test");
}

#[test]
fn test_type_with_trailing_space_is_variable_name() {
    let src = r#"class A {
    void f() {
        ArrayList 
    }
}
"#;
    let marker = "ArrayList ";
    let offset = src.find(marker).unwrap() + marker.len();
    let ctx = JavaContextExtractor::new(src, offset);
    let cursor_node = ctx.find_cursor_node();

    let (loc, _query) = locate(&ctx, cursor_node);

    assert!(
        matches!(loc, CursorLocation::VariableName { .. }),
        "Expected VariableName for `ArrayList `, got {:?}",
        loc
    );
}

#[test]
fn test_type_with_trailing_space_after_previous_statement_is_variable_name() {
    let src = r#"class A {
    void f() {
        Object[] o = new Object[]{};
        ArrayList 
    }
}
"#;
    let marker = "ArrayList ";
    let offset = src.find(marker).unwrap() + marker.len();
    let ctx = JavaContextExtractor::new(src, offset);
    let cursor_node = ctx.find_cursor_node();

    let (loc, _query) = locate(&ctx, cursor_node);

    assert!(
        matches!(loc, CursorLocation::VariableName { .. }),
        "Expected VariableName for `ArrayList ` after previous statement, got {:?}",
        loc
    );
}

#[test]
fn test_type_with_trailing_space_after_invalid_array_syntax_is_variable_name() {
    let src = r#"class A {
    void f() {
        Object[] o = new Object[];
        ArrayList 
    }
}
"#;
    let marker = "ArrayList ";
    let offset = src.find(marker).unwrap() + marker.len();
    let ctx = JavaContextExtractor::new(src, offset);
    let cursor_node = ctx.find_cursor_node();

    let (loc, _query) = locate(&ctx, cursor_node);

    assert!(
        matches!(loc, CursorLocation::VariableName { .. }),
        "Expected VariableName for `ArrayList ` after invalid array syntax, got {:?}",
        loc
    );
}

#[test]
fn test_type_without_trailing_space_is_expression_in_block() {
    let src = r#"class A {
    void f() {
        ArrayList|
    }
}
"#;
    let marker = "|";
    let offset = src.find(marker).unwrap() + marker.len();
    let ctx = JavaContextExtractor::new(src, offset);
    let cursor_node = ctx.find_cursor_node();

    let (loc, _query) = locate(&ctx, cursor_node);

    assert!(
        matches!(loc, CursorLocation::Expression { .. }),
        "Expected Expression for `ArrayList` in block, got {:?}",
        loc
    );
}

#[test]
fn test_type_without_trailing_space_after_previous_statement_is_expression() {
    let src = r#"class A {
    void f() {
        Object[] o = new Object[]{};
        ArrayList|
    }
}
"#;
    let marker = "|";
    let offset = src.find(marker).unwrap() + marker.len();
    let ctx = JavaContextExtractor::new(src, offset);
    let cursor_node = ctx.find_cursor_node();

    let (loc, _query) = locate(&ctx, cursor_node);

    assert!(
        matches!(loc, CursorLocation::Expression { .. }),
        "Expected Expression for `ArrayList` after previous statement, got {:?}",
        loc
    );
}

#[test]
fn test_type_with_trailing_space_in_empty_source_is_variable_name() {
    let src = "ArrayList ";
    let offset = src.len();
    let ctx = JavaContextExtractor::new(src, offset);
    let cursor_node = ctx.find_cursor_node();

    let (loc, _query) = locate(&ctx, cursor_node);

    assert!(
        matches!(loc, CursorLocation::VariableName { .. }),
        "Expected VariableName for `ArrayList ` in empty source, got {:?}",
        loc
    );
}

#[test]
fn test_type_without_trailing_space_in_empty_source_is_expression() {
    let src = "ArrayList";
    let offset = src.len();
    let ctx = JavaContextExtractor::new(src, offset);
    let cursor_node = ctx.find_cursor_node();

    let (loc, _query) = locate(&ctx, cursor_node);

    assert!(
        matches!(loc, CursorLocation::Expression { .. }),
        "Expected Expression for `ArrayList` in empty source, got {:?}",
        loc
    );
}

#[test]
fn test_generic_type_argument_position_is_type_annotation() {
    let src = r#"class A {
    void f() {
        List<Bo> nums = null;
    }
}
"#;
    let offset = src.find("Bo").unwrap() + 2;
    let ctx = JavaContextExtractor::new(src, offset);
    let cursor_node = ctx.find_cursor_node();

    let (loc, query) = locate(&ctx, cursor_node);
    assert!(
        matches!(loc, CursorLocation::TypeAnnotation { .. }),
        "Expected TypeAnnotation in generic type argument, got {:?}",
        loc
    );
    assert_eq!(query, "Bo");
}

#[test]
fn test_nested_generic_type_argument_position_is_type_annotation() {
    let src = r#"class A {
    void f() {
        Map<String, In> m = null;
    }
}
"#;
    let offset = src.find("In").unwrap() + 2;
    let ctx = JavaContextExtractor::new(src, offset);
    let cursor_node = ctx.find_cursor_node();

    let (loc, query) = locate(&ctx, cursor_node);
    assert!(
        matches!(loc, CursorLocation::TypeAnnotation { .. }),
        "Expected TypeAnnotation in nested generic arg, got {:?}",
        loc
    );
    assert_eq!(query, "In");
}

#[test]
fn test_wildcard_bound_type_argument_position_is_type_annotation() {
    let src = r#"class A<T> {
    void f() {
        Function<? super T, ? extends Nu> fn = null;
    }
}
"#;
    let offset = src.find("Nu").unwrap() + 2;
    let ctx = JavaContextExtractor::new(src, offset);
    let cursor_node = ctx.find_cursor_node();

    let (loc, query) = locate(&ctx, cursor_node);
    assert!(
        matches!(loc, CursorLocation::TypeAnnotation { .. }),
        "Expected TypeAnnotation in wildcard bound arg, got {:?}",
        loc
    );
    assert_eq!(query, "Nu");
}

#[test]
fn test_misread_not_triggered_when_next_sibling_is_normal_statement() {
    // Misread guard should not trigger for a normal following statement.
    let src = r#"class A {
    void f() {
        ArrayL list = new ArrayList<>();
        int x = 1;
    }
}
"#;
    let offset = src.find("ArrayL").unwrap() + 6;
    let ctx = JavaContextExtractor::new(src, offset);
    let cursor_node = ctx.find_cursor_node();

    let (loc, _) = locate(&ctx, cursor_node);

    assert!(
        matches!(loc, CursorLocation::TypeAnnotation { .. }),
        "Expected TypeAnnotation, got {:?}",
        loc
    );
}

#[test]
fn test_cursor_inside_receiver_identifier() {
    // Cursor inside receiver identifier should remain Expression, not MemberAccess.
    let src = r#"class A {
    void f() {
        List<String> strings = new ArrayList<>();
        strings.addAll();
    }
}
"#;
    let marker = "strings.addAll";
    let offset = src.find(marker).unwrap() + 4; // `stri|ngs`
    let ctx = JavaContextExtractor::new(src, offset);
    let cursor_node = ctx.find_cursor_node();

    let (loc, query) = locate(&ctx, cursor_node);

    assert!(
        matches!(loc, CursorLocation::Expression { .. }),
        "Expected Expression because cursor is inside the receiver, got {:?}",
        loc
    );
    assert_eq!(query, "stri");
}

#[test]
fn test_cursor_exactly_before_dot_in_member_access() {
    // Cursor right before dot is still receiver completion (Expression).
    let src = r#"class A {
    void f() {
        List<String> strings = new ArrayList<>();
        strings.addAll();
    }
}
"#;
    let marker = "strings.addAll";
    let offset = src.find(marker).unwrap() + 7; // `strings|.addAll`
    let ctx = JavaContextExtractor::new(src, offset);
    let cursor_node = ctx.find_cursor_node();

    let (loc, query) = locate(&ctx, cursor_node);

    assert!(
        matches!(loc, CursorLocation::Expression { .. }),
        "Expected Expression when cursor is exactly before the dot, got {:?}",
        loc
    );
    assert_eq!(query, "strings");
}

#[test]
fn test_member_access_after_array_access_in_arg_list() {
    let src = r#"class A {
    void f(String[][] matrix) {
        System.out.println(matrix[0][1].);
    }
}
"#;
    // Cursor is after `.` and before `)`.
    let marker = "matrix[0][1].";
    let offset = src.find(marker).unwrap() + marker.len();
    let ctx = JavaContextExtractor::new(src, offset);
    let cursor_node = ctx.find_cursor_node();

    let (loc, query) = locate(&ctx, cursor_node);

    assert!(
        matches!(
            loc,
            CursorLocation::MemberAccess { ref receiver_expr, ref member_prefix, .. }
            if receiver_expr == "matrix[0][1]" && member_prefix.is_empty()
        ),
        "Expected MemberAccess with receiver_expr=matrix[0][1], got {:?}",
        loc
    );
    assert_eq!(query, "");
}

#[test]
fn test_misread_local_decl_dotted_tail_routes_to_member_access() {
    let src = r#"class A {
    void f() {
        var a = new HashMap<String, String>();
        a.put;
    }
}
"#;
    let marker = "a.put";
    let offset = src.find(marker).unwrap() + marker.len();
    let ctx = JavaContextExtractor::new(src, offset);
    let cursor_node = ctx.find_cursor_node();

    let (loc, query) = locate(&ctx, cursor_node);
    assert!(
        matches!(
            loc,
            CursorLocation::MemberAccess { ref receiver_expr, ref member_prefix, .. }
            if receiver_expr == "a" && member_prefix == "put"
        ),
        "Expected MemberAccess for dotted tail misread, got {:?}",
        loc
    );
    assert_eq!(query, "put");
}

#[test]
fn test_member_access_with_partial_member_in_arg_list() {
    // Partial member already typed; ensure existing field_access path still wins.
    let src = r#"class A {
    void f(String[][] matrix) {
        System.out.println(matrix[0][1].toS);
    }
}
"#;
    let marker = "matrix[0][1].toS";
    let offset = src.find(marker).unwrap() + marker.len();
    let ctx = JavaContextExtractor::new(src, offset);
    let cursor_node = ctx.find_cursor_node();

    let (loc, query) = locate(&ctx, cursor_node);

    assert!(
        matches!(loc, CursorLocation::MemberAccess { .. }),
        "Expected MemberAccess, got {:?}",
        loc
    );
    assert_eq!(query, "toS");
}

#[test]
fn test_normal_method_argument_not_affected() {
    // New logic must not regress ordinary method-argument completion.
    let src = r#"class A {
    void f(String[][] matrix) {
        System.out.println(matr);
    }
}
"#;
    let marker = "println(matr";
    let offset = src.find(marker).unwrap() + marker.len();
    let ctx = JavaContextExtractor::new(src, offset);
    let cursor_node = ctx.find_cursor_node();

    let (loc, query) = locate(&ctx, cursor_node);

    assert!(
        matches!(loc, CursorLocation::MethodArgument { .. }),
        "Expected MethodArgument, got {:?}",
        loc
    );
    assert_eq!(query, "matr");
}

#[test]
fn test_method_argument_concat_uses_identifier_local_prefix() {
    let src = r#"class A {
    void f(int intValue) {
        System.out.println("intValue = " + intVa);
    }
}
"#;
    let marker = "intVa";
    let offset = src.rfind(marker).unwrap() + marker.len();
    let ctx = JavaContextExtractor::new(src, offset);
    let cursor_node = ctx.find_cursor_node();

    let (loc, query) = locate(&ctx, cursor_node);

    assert!(
        matches!(&loc, CursorLocation::MethodArgument { prefix } if prefix == "intVa"),
        "Expected MethodArgument{{prefix:\"intVa\"}}, got {:?}",
        loc
    );
    assert_eq!(query, "intVa");
}

#[test]
fn test_method_argument_concat_empty_rhs_is_empty_prefix() {
    let src = r#"class A {
    void f(int testValue) {
        System.out.println("test = " + );
    }
}
"#;
    let marker = "\"test = \" + ";
    let offset = src.rfind(marker).unwrap() + marker.len();
    let ctx = JavaContextExtractor::new(src, offset);
    let cursor_node = ctx.find_cursor_node();

    let (loc, query) = locate(&ctx, cursor_node);

    assert!(
        matches!(&loc, CursorLocation::MethodArgument { prefix } if prefix.is_empty()),
        "Expected MethodArgument with empty prefix, got {:?}",
        loc
    );
    assert!(query.is_empty(), "query should be empty, got {query:?}");
}

#[test]
fn test_annotation_string_literal_location() {
    let src = r#"class A {
        @SuppressWarnings("not parsed as string lol")
        void f() {}
    }"#;

    // Cursor inside a string literal should stay StringLiteral location.
    let offset = src.find("not parsed").unwrap() + "not parsed".len();
    let ctx = JavaContextExtractor::new(src, offset);
    let cursor_node = ctx.find_cursor_node();

    let (loc, query) = locate(&ctx, cursor_node);

    assert!(
        matches!(loc, CursorLocation::StringLiteral { .. }),
        "Expected StringLiteral, got {:?}",
        loc
    );
    assert_eq!(query, "not parsed");
}

#[test]
fn test_annotation_partial_name_is_annotation_not_expression() {
    let src = r#"class A {
    @SuppressW
    void f() {}
}
"#;
    let offset = src.find("SuppressW").unwrap() + "SuppressW".len();
    let ctx = JavaContextExtractor::new(src, offset);
    let cursor_node = ctx.find_cursor_node();
    let (loc, query) = locate(&ctx, cursor_node);
    assert!(
        matches!(loc, CursorLocation::Annotation { .. }),
        "Expected Annotation, got {:?}",
        loc
    );
    assert_eq!(query, "SuppressW");
}

#[test]
fn test_annotation_partial_name_target_method() {
    let src = r#"class A {
    @Overri
    void f() {}
}
"#;
    let offset = src.find("Overri").unwrap() + "Overri".len();
    let ctx = JavaContextExtractor::new(src, offset);
    let cursor_node = ctx.find_cursor_node();
    let (loc, _) = locate(&ctx, cursor_node);
    assert!(
        matches!(
            loc,
            CursorLocation::Annotation { ref target_element_type, .. }
            if target_element_type.as_deref() == Some("METHOD")
        ),
        "Expected Annotation with METHOD target, got {:?}",
        loc
    );
}

#[test]
fn test_empty_arg_after_comma_should_not_return_comma_prefix() {
    let src = r#"class A {
    void f(String s, int a) {
        s.charAt(a, );
    }
}
"#;
    let marker = "charAt(a, ";
    let offset = src.find(marker).unwrap() + marker.len();
    let ctx = JavaContextExtractor::new(src, offset);
    let cursor_node = ctx.find_cursor_node();

    let (loc, query) = locate(&ctx, cursor_node);

    assert!(
        matches!(loc, CursorLocation::MethodArgument { ref prefix } if prefix.is_empty()),
        "Expected MethodArgument with empty prefix, got {:?}",
        loc
    );
    assert_eq!(query, "");
}

#[test]
fn test_constructor_prefix_normalizes_top_level_generic_suffix() {
    let src = r#"class A {
    void f() {
        new ArrayList<String>()
    }
}
"#;
    let marker = "ArrayList<String>";
    let offset = src.find(marker).unwrap() + marker.len();
    let ctx = JavaContextExtractor::new(src, offset);
    let cursor_node = ctx.find_cursor_node();

    let (loc, query) = locate(&ctx, cursor_node);

    assert!(
        matches!(
            loc,
            CursorLocation::ConstructorCall { ref class_prefix, .. } if class_prefix == "ArrayList"
        ),
        "Expected normalized constructor class_prefix=ArrayList, got {:?}",
        loc
    );
    assert_eq!(query, "ArrayList");
}

#[test]
fn test_constructor_prefix_non_generic_unchanged() {
    let src = r#"class A {
    void f() {
        new ArrayList()
    }
}
"#;
    let marker = "ArrayList";
    let offset = src.find(marker).unwrap() + marker.len();
    let ctx = JavaContextExtractor::new(src, offset);
    let cursor_node = ctx.find_cursor_node();

    let (loc, query) = locate(&ctx, cursor_node);

    assert!(
        matches!(
            loc,
            CursorLocation::ConstructorCall { ref class_prefix, .. } if class_prefix == "ArrayList"
        ),
        "Expected unchanged constructor class_prefix=ArrayList, got {:?}",
        loc
    );
    assert_eq!(query, "ArrayList");
}

#[test]
fn test_qualified_inner_constructor_captures_qualifier_expr() {
    let src = r#"class Test {
    void f() {
        Test t = null;
        Test.NestedNonStatic nns = t.new NestedNonStatic();
    }

    class NestedNonStatic {}
}
"#;
    let marker = "t.new NestedNonStatic";
    let offset = src.find(marker).unwrap() + marker.len();
    let ctx = JavaContextExtractor::new(src, offset);
    let cursor_node = ctx.find_cursor_node();

    let (loc, query) = locate(&ctx, cursor_node);

    assert!(
        matches!(
            loc,
            CursorLocation::ConstructorCall {
                ref class_prefix,
                expected_type: Some(_),
                qualifier_expr: Some(ref qualifier_expr),
                qualifier_owner_internal: None,
            } if class_prefix == "NestedNonStatic" && qualifier_expr == "t"
        ),
        "Expected qualified constructor call with qualifier t, got {:?}",
        loc
    );
    assert_eq!(query, "NestedNonStatic");
}

#[test]
fn test_qualified_inner_constructor_after_dot_before_new_is_member_access() {
    let src = r#"class Test {
    void f() {
        Test t = null;
        Test.NestedNonStatic nns = t.new NestedNonStatic();
    }

    class NestedNonStatic {}
}
"#;
    let marker = "t.new NestedNonStatic";
    let offset = src.find(marker).unwrap() + "t.".len();
    let ctx = JavaContextExtractor::new(src, offset);
    let cursor_node = ctx.find_cursor_node();

    let (loc, query) = locate(&ctx, cursor_node);

    assert!(
        matches!(
            loc,
            CursorLocation::MemberAccess {
                ref receiver_expr,
                ref member_prefix,
                ..
            } if receiver_expr == "t" && member_prefix.is_empty()
        ),
        "Expected MemberAccess after `t.` and before `new`, got {:?}",
        loc
    );
    assert_eq!(query, "");
}

#[test]
fn test_qualified_inner_constructor_before_dot_is_expression() {
    let src = r#"class Test {
    void f() {
        Test t = null;
        Test.NestedNonStatic nns = t.new NestedNonStatic();
    }

    class NestedNonStatic {}
}
"#;
    let marker = "t.new NestedNonStatic";
    let offset = src.find(marker).unwrap() + "t".len();
    let ctx = JavaContextExtractor::new(src, offset);
    let cursor_node = ctx.find_cursor_node();

    let (loc, query) = locate(&ctx, cursor_node);

    assert!(
        matches!(loc, CursorLocation::Expression { ref prefix } if prefix == "t"),
        "Expected Expression before the qualifier dot, got {:?}",
        loc
    );
    assert_eq!(query, "t");
}

#[test]
fn test_constructor_type_argument_identifier_is_type_annotation() {
    let src = r#"class A {
    void f() {
        new Box<In>(1);
    }
}
"#;
    let marker = "In";
    let offset = src.find(marker).unwrap() + marker.len();
    let ctx = JavaContextExtractor::new(src, offset);
    let cursor_node = ctx.find_cursor_node();

    let (loc, query) = locate(&ctx, cursor_node);
    assert!(
        matches!(loc, CursorLocation::TypeAnnotation { .. }),
        "Expected TypeAnnotation inside constructor generic arg, got {:?}",
        loc
    );
    assert_eq!(query, "In");
}

#[test]
fn test_constructor_nested_type_argument_identifier_is_type_annotation() {
    let src = r#"class A {
    void f() {
        new Box<Map<String, In>>(1);
    }
}
"#;
    let marker = "In";
    let offset = src.find(marker).unwrap() + marker.len();
    let ctx = JavaContextExtractor::new(src, offset);
    let cursor_node = ctx.find_cursor_node();

    let (loc, query) = locate(&ctx, cursor_node);
    assert!(
        matches!(loc, CursorLocation::TypeAnnotation { .. }),
        "Expected TypeAnnotation in nested constructor generic arg, got {:?}",
        loc
    );
    assert_eq!(query, "In");
}

#[test]
fn test_constructor_empty_type_argument_hole_is_type_annotation() {
    let src = r#"class A {
    void f() {
        new Box<>(1);
    }
}
"#;
    let marker = "<>";
    let offset = src.find(marker).unwrap() + 1; // cursor in <|>
    let ctx = JavaContextExtractor::new(src, offset);
    let cursor_node = ctx.find_cursor_node();

    let (loc, query) = locate(&ctx, cursor_node);
    assert!(
        matches!(loc, CursorLocation::TypeAnnotation { .. }),
        "Expected TypeAnnotation inside empty constructor generic hole, got {:?}",
        loc
    );
    assert_eq!(query, "");
}

#[test]
fn test_constructor_second_type_argument_hole_is_type_annotation() {
    let src = r#"class A {
    void f() {
        new HashMap<String, >(1);
    }
}
"#;
    let marker = "String, >";
    let offset = src.find(marker).unwrap() + "String, ".len(); // cursor in second arg hole
    let ctx = JavaContextExtractor::new(src, offset);
    let cursor_node = ctx.find_cursor_node();

    let (loc, query) = locate(&ctx, cursor_node);
    assert!(
        matches!(loc, CursorLocation::TypeAnnotation { .. }),
        "Expected TypeAnnotation in second constructor generic hole, got {:?}",
        loc
    );
    assert_eq!(query, "");
}

#[test]
fn test_method_reference_type_method_classification() {
    let src = r#"class A {
    void f() {
        List::size
    }
}
"#;
    let marker = "List::size";
    let offset = src.find(marker).unwrap() + marker.len();
    let ctx = JavaContextExtractor::new(src, offset);
    let cursor_node = ctx.find_cursor_node();

    let (loc, query) = locate(&ctx, cursor_node);

    assert!(
        matches!(
            loc,
            CursorLocation::MethodReference {
                ref qualifier_expr,
                ref member_prefix,
                is_constructor: false
            } if qualifier_expr == "List" && member_prefix == "size"
        ),
        "Expected MethodReference for List::size, got {:?}",
        loc
    );
    assert_eq!(query, "size");
}

#[test]
fn test_method_reference_expr_method_classification() {
    let src = r#"class A {
    void f() {
        this::toString
    }
}
"#;
    let marker = "this::toString";
    let offset = src.find(marker).unwrap() + marker.len();
    let ctx = JavaContextExtractor::new(src, offset);
    let cursor_node = ctx.find_cursor_node();

    let (loc, query) = locate(&ctx, cursor_node);

    assert!(
        matches!(
            loc,
            CursorLocation::MethodReference {
                ref qualifier_expr,
                ref member_prefix,
                is_constructor: false
            } if qualifier_expr == "this" && member_prefix == "toString"
        ),
        "Expected MethodReference for this::toString, got {:?}",
        loc
    );
    assert_eq!(query, "toString");
}

#[test]
fn test_method_reference_super_method_classification() {
    let src = r#"class Child extends Base {
    void f() {
        super::toString
    }
}
"#;
    let marker = "super::toString";
    let offset = src.find(marker).unwrap() + marker.len();
    let ctx = JavaContextExtractor::new(src, offset);
    let cursor_node = ctx.find_cursor_node();

    let (loc, query) = locate(&ctx, cursor_node);

    assert!(
        matches!(
            loc,
            CursorLocation::MethodReference {
                ref qualifier_expr,
                ref member_prefix,
                is_constructor: false
            } if qualifier_expr == "super" && member_prefix == "toString"
        ),
        "Expected MethodReference for super::toString, got {:?}",
        loc
    );
    assert_eq!(query, "toString");
}

#[test]
fn test_bare_super_is_expression() {
    let src = r#"class Child extends Base {
    void f() {
        super
    }
}
"#;
    let marker = "super";
    let offset = src.find(marker).unwrap() + marker.len();
    let ctx = JavaContextExtractor::new(src, offset);
    let cursor_node = ctx.find_cursor_node();

    let (loc, query) = locate(&ctx, cursor_node);

    assert!(
        matches!(loc, CursorLocation::Expression { ref prefix } if prefix == "super"),
        "Expected Expression for bare super, got {:?}",
        loc
    );
    assert_eq!(query, "super");
}

#[test]
fn test_method_reference_constructor_classification() {
    let src = r#"class A {
    void f() {
        ArrayList::new
    }
}
"#;
    let marker = "ArrayList::new";
    let offset = src.find(marker).unwrap() + marker.len();
    let ctx = JavaContextExtractor::new(src, offset);
    let cursor_node = ctx.find_cursor_node();

    let (loc, query) = locate(&ctx, cursor_node);

    assert!(
        matches!(
            loc,
            CursorLocation::MethodReference {
                ref qualifier_expr,
                ref member_prefix,
                is_constructor: true
            } if qualifier_expr == "ArrayList" && member_prefix == "new"
        ),
        "Expected constructor MethodReference for ArrayList::new, got {:?}",
        loc
    );
    assert_eq!(query, "ArrayList");
}

#[test]
fn test_functional_target_hint_assignment_rhs() {
    let src = r#"class A {
    void f() {
        Function<String, Integer> fn = String::length;
    }
}
"#;
    let marker = "String::length";
    let offset = src.find(marker).unwrap() + marker.len();
    let ctx = JavaContextExtractor::new(src, offset);
    let cursor_node = ctx.find_cursor_node();
    let hint = infer_functional_target_hint(&ctx, cursor_node);

    assert!(
        matches!(
            hint.as_ref(),
            Some(FunctionalTargetHint {
                expected_type_source: Some(ty),
                ..
            }) if ty == "Function<String, Integer>"
        ),
        "Expected assignment RHS target type hint, got {:?}",
        hint
    );
    assert!(matches!(
        hint.as_ref().and_then(|h| h.expr_shape.clone()),
        Some(FunctionalExprShape::MethodReference {
            qualifier_expr,
            member_name,
            is_constructor: false,
            qualifier_kind: MethodRefQualifierKind::Type,
        }) if qualifier_expr == "String" && member_name == "length"
    ));
    assert!(matches!(
        hint.as_ref().and_then(|h| h.expected_type_context.clone()),
        Some(ExpectedTypeSource::VariableInitializer)
    ));
}

#[test]
fn test_functional_target_hint_assignment_rhs_lhs_expr() {
    let src = r#"class A {
    void f() {
        int x = 0;
        x = fo;
    }
}
"#;
    let marker = "fo";
    let offset = src.rfind(marker).unwrap() + 1;
    let ctx = JavaContextExtractor::new(src, offset);
    let cursor_node = ctx.find_cursor_node();
    let hint = infer_functional_target_hint(&ctx, cursor_node);

    assert!(matches!(
        hint.as_ref().and_then(|h| h.assignment_lhs_expr.as_deref()),
        Some("x")
    ));
    assert!(matches!(
        hint.as_ref().and_then(|h| h.expected_type_context.clone()),
        Some(ExpectedTypeSource::AssignmentRhs)
    ));
}

#[test]
fn test_functional_target_hint_method_argument() {
    let src = r#"class A {
    void f(Stream<String> stream) {
        stream.map(String::trim);
    }
}
"#;
    let marker = "String::trim";
    let offset = src.find(marker).unwrap() + marker.len();
    let ctx = JavaContextExtractor::new(src, offset);
    let cursor_node = ctx.find_cursor_node();
    let hint = infer_functional_target_hint(&ctx, cursor_node);

    assert!(
        matches!(
            hint.as_ref(),
            Some(FunctionalTargetHint {
                method_call: Some(m),
                ..
            }) if m.method_name == "map" && m.arg_index == 0 && m.receiver_expr == "stream"
        ),
        "Expected method-argument functional target hint, got {:?}",
        hint
    );
    assert!(matches!(
        hint.as_ref().and_then(|h| h.expr_shape.clone()),
        Some(FunctionalExprShape::MethodReference {
            qualifier_expr,
            member_name,
            is_constructor: false,
            qualifier_kind: MethodRefQualifierKind::Type,
        }) if qualifier_expr == "String" && member_name == "trim"
    ));
}

#[test]
fn test_functional_target_hint_lambda_shape() {
    let src = r#"class A {
    void f() {
        Function<Integer, Integer> fn = x -> x + 1;
    }
}
"#;
    let marker = "x + 1";
    let offset = src.find(marker).unwrap() + marker.len();
    let ctx = JavaContextExtractor::new(src, offset);
    let cursor_node = ctx.find_cursor_node();
    let hint = infer_functional_target_hint(&ctx, cursor_node);

    assert!(matches!(
        hint.and_then(|h| h.expr_shape),
        Some(FunctionalExprShape::Lambda {
            param_count: 1,
            expression_body: Some(ref body),
        }) if body == "x + 1"
    ));
}

#[test]
fn test_plain_type_awaiting_variable_name() {
    let src = r#"class A {
    void f() {
        String 
    }
}
"#;
    let offset = src.find("String ").unwrap() + "String ".len();
    let ctx = JavaContextExtractor::new(src, offset);
    let cursor_node = ctx.find_cursor_node();
    let (loc, _) = locate(&ctx, cursor_node);
    assert!(
        matches!(loc, CursorLocation::VariableName { ref type_text } if type_text == "String"),
        "Expected VariableName{{String}}, got {:?}",
        loc
    );
}

#[test]
fn test_array_type_awaiting_variable_name() {
    let src = r#"class A {
    void f() {
        String[] 
    }
}
"#;
    let offset = src.find("String[] ").unwrap() + "String[] ".len();
    let ctx = JavaContextExtractor::new(src, offset);
    let cursor_node = ctx.find_cursor_node();
    let (loc, _) = locate(&ctx, cursor_node);
    assert!(
        matches!(loc, CursorLocation::VariableName { ref type_text } if type_text == "String[]"),
        "Expected VariableName{{String[]}}, got {:?}",
        loc
    );
}

#[test]
fn test_primitive_type_awaiting_variable_name() {
    let src = r#"class A {
    void f() {
        int 
    }
}
"#;
    let offset = src.find("int ").unwrap() + "int ".len();
    let ctx = JavaContextExtractor::new(src, offset);
    let cursor_node = ctx.find_cursor_node();
    let (loc, _) = locate(&ctx, cursor_node);
    assert!(
        matches!(loc, CursorLocation::VariableName { ref type_text } if type_text == "int"),
        "Expected VariableName{{int}}, got {:?}",
        loc
    );
}

#[test]
fn test_generic_type_awaiting_variable_name() {
    let src = r#"class A {
    void f() {
        List<String> 
    }
}
"#;
    let offset = src.find("List<String> ").unwrap() + "List<String> ".len();
    let ctx = JavaContextExtractor::new(src, offset);
    let cursor_node = ctx.find_cursor_node();
    let (loc, _) = locate(&ctx, cursor_node);
    assert!(
        matches!(loc, CursorLocation::VariableName { ref type_text } if type_text == "List<String>"),
        "Expected VariableName{{List<String>}}, got {:?}",
        loc
    );
}

#[test]
fn test_keyword_identifier_not_variable_name() {
    let src = r#"class A {
    void f() {
        return 
    }
}
"#;
    let offset = src.find("return ").unwrap() + "return ".len();
    let ctx = JavaContextExtractor::new(src, offset);
    let cursor_node = ctx.find_cursor_node();
    let (loc, _) = locate(&ctx, cursor_node);
    assert!(
        !matches!(loc, CursorLocation::VariableName { .. }),
        "return should NOT be VariableName, got {:?}",
        loc
    );
}

#[test]
fn test_array_creation_dimension_is_expression() {
    let src = r#"class A {
    void f() {
        new Object[]
    }
}
"#;
    let offset = src.find('[').unwrap() + 1; // cursor inside `[|]`
    let ctx = JavaContextExtractor::new(src, offset);
    let cursor_node = ctx.find_cursor_node();
    let (loc, _) = locate(&ctx, cursor_node);
    assert!(
        !matches!(loc, CursorLocation::Unknown),
        "new Object[|] should not be Unknown, got {:?}",
        loc
    );
}

#[test]
fn test_scoped_type_in_error_is_member_access() {
    let src = r#"class A {
    void f() {
        value.appe
    }
}
"#;
    let offset = src.find("appe").unwrap() + "appe".len();
    let ctx = JavaContextExtractor::new(src, offset);
    let cursor_node = ctx.find_cursor_node();
    let (loc, query) = locate(&ctx, cursor_node);
    assert!(
        matches!(
            loc,
            CursorLocation::MemberAccess { ref receiver_expr, ref member_prefix, .. }
            if receiver_expr == "value" && member_prefix == "appe"
        ),
        "Expected MemberAccess{{value, appe}}, got {:?}",
        loc
    );
    assert_eq!(query, "appe");
}

#[test]
fn test_unqualified_intersection_bounded_method_call_is_member_access() {
    let src = r#"interface Flyable {
    void fly();
}

interface Swimmable {
    void swim();
}

class Duck implements Flyable, Swimmable {
    @Override
    public void fly() {
        System.out.println("Duck is flying");
    }

    @Override
    public void swim() {
        System.out.println("Duck is swimming");
    }
}

public class IntersectionDemo {

    public static <T extends Flyable & Swimmable> void act(T animal) {
        animal.fly();
        animal.swim();
    }

    public static void main(String[] args) {
        Duck duck = new Duck();
        act(duck);
    }
}
"#;
    let marker = "act(duck)";
    let offset = src.find(marker).unwrap() + "act".len();
    let ctx = JavaContextExtractor::new(src, offset);
    let cursor_node = ctx.find_cursor_node();
    let (loc, query) = locate(&ctx, cursor_node);

    assert!(
        matches!(
            loc,
            CursorLocation::MemberAccess {
                ref receiver_expr,
                ref member_prefix,
                ref arguments,
                ..
            } if receiver_expr.is_empty()
                && member_prefix == "act"
                && arguments.as_deref() == Some("(duck)")
        ),
        "Expected unqualified call to be MemberAccess, got {:?}",
        loc
    );
    assert_eq!(query, "act");
}

#[test]
fn test_variable_name_after_simple_type_with_space() {
    let src = "String ";
    let offset = src.len();
    assert!(
        matches!(
            location_at_offset(src, offset),
            CursorLocation::VariableName { .. }
        ),
        "Should detect variable name position after 'String '"
    );
}

#[test]
fn test_variable_name_after_generic_type_with_space() {
    let src = "List<String> ";
    let offset = src.len();
    assert!(
        matches!(
            location_at_offset(src, offset),
            CursorLocation::VariableName { .. }
        ),
        "Should detect variable name position after 'List<String> '"
    );
}

#[test]
fn test_not_variable_name_without_space() {
    let src = "String";
    let offset = src.len();
    assert!(
        !matches!(
            location_at_offset(src, offset),
            CursorLocation::VariableName { .. }
        ),
        "Should NOT detect variable name position without space after 'String'"
    );
}

#[test]
fn test_not_variable_name_after_array_initializer_without_space() {
    let src = "Object[] o = new Object[]{};\nArrayList";
    let offset = src.find("ArrayList").unwrap() + "ArrayList".len();
    assert!(
        matches!(
            location_at_offset(src, offset),
            CursorLocation::Expression { .. }
        ),
        "Should NOT detect variable name position without trailing space"
    );
}

#[test]
fn test_not_variable_name_after_invalid_array_syntax_without_space() {
    let src = "Object[] o = new Object[];\nArrayList";
    let offset = src.find("ArrayList").unwrap() + "ArrayList".len();
    assert!(
        matches!(
            location_at_offset(src, offset),
            CursorLocation::Expression { .. }
        ),
        "Should NOT detect variable name position without trailing space"
    );
}

#[test]
fn test_variable_name_after_type_with_space_in_error() {
    let src = "ArrayList ";
    let offset = src.len();
    assert!(
        matches!(
            location_at_offset(src, offset),
            CursorLocation::VariableName { .. }
        ),
        "Should detect variable name position after 'ArrayList ' in error context"
    );
}

#[test]
fn test_not_variable_name_after_type_without_space_in_error() {
    let src = "ArrayList";
    let offset = src.len();
    assert!(
        !matches!(
            location_at_offset(src, offset),
            CursorLocation::VariableName { .. }
        ),
        "Should NOT detect variable name position without whitespace in error context"
    );
}

#[test]
fn test_not_variable_name_when_semicolon_follows_identifier() {
    let src = "Object[] o = new Object[]{};\nArrayList ;";
    let offset = src.find("ArrayList").unwrap() + "ArrayList".len();
    assert!(
        matches!(
            location_at_offset(src, offset),
            CursorLocation::Expression { .. }
        ),
        "Should not treat `ArrayList ;` as variable name position"
    );
}

#[test]
fn test_super_dot_location_in_error_context() {
    let src = r#"class Child extends Base {
    void f() {
        super.
    }
}
"#;
    let offset = src.find("super.").unwrap() + "super.".len();
    assert!(
        matches!(
            location_at_offset(src, offset),
            CursorLocation::MemberAccess {
                receiver_expr,
                member_prefix,
                ..
            } if receiver_expr == "super" && member_prefix.is_empty()
        ),
        "super. should stay on the member-access path in incomplete code"
    );
}


#[test]
fn a_receiver_on_the_line_above_has_no_dot() {
    let src = "class A {
    void f() {
        value.
            appe
    }
}
";
    let offset = src.find("appe").unwrap() + "appe".len();
    let loc = location_at_offset(src, offset);
    assert!(
        matches!(
            loc,
            CursorLocation::MemberAccess { ref receiver_expr, ref member_prefix, .. }
            if receiver_expr == "value" && member_prefix == "appe"
        ),
        "{loc:?}"
    );
}

#[test]
fn a_variable_name_is_awaited_on_a_line_indented_by_a_tab() {
    let src = "\tString ";
    let loc = location_at_offset(src, src.len());
    assert!(
        matches!(loc, CursorLocation::VariableName { ref type_text } if type_text == "String"),
        "{loc:?}"
    );
}
