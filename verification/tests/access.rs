//! Accesses that the language itself defines.
use java_analyzer::intrinsics::access::{
    class_literal_result_type, classify_intrinsic_access, is_class_literal_prefix,
    JavaAccessReceiverKind, JavaIntrinsicAccess, JavaIntrinsicAccessKind, SemanticContext,
};
use java_analyzer::semantic::CursorLocation;
use java_analyzer::type_facts::{LocalVar, LocalVarDeclKind, TypeFacts};
use java_analyzer::type_names::TypeName;

/// Facts in which the names of `java.lang.Object`, `java.lang.String` and two classes of a package
/// resolve.
fn make_facts() -> TypeFacts {
    let mut facts = TypeFacts::new();
    for (name, internal) in [
        ("Object", "java/lang/Object"),
        ("String", "java/lang/String"),
        ("java.lang.String", "java/lang/String"),
    ] {
        facts
            .symbols
            .insert(name.to_string(), TypeName::new(internal));
    }
    for (name, internal) in [
        ("pkg.Outer", "pkg/Outer"),
        ("pkg.Outer.Inner", "pkg/Outer$Inner"),
    ] {
        facts
            .types
            .insert(name.to_string(), TypeName::new(internal));
    }
    facts
}

fn member_access(
    receiver_semantic_type: Option<TypeName>,
    member_prefix: &str,
    receiver_expr: &str,
    arguments: Option<&str>,
) -> SemanticContext {
    SemanticContext {
        location: CursorLocation::MemberAccess {
            receiver_type: receiver_semantic_type.as_ref().map(|t| t.base.clone()),
            receiver_semantic_type,
            member_prefix: member_prefix.to_string(),
            receiver_expr: receiver_expr.to_string(),
            arguments: arguments.map(str::to_string),
        },
        local_variables: vec![],
    }
}

#[test]
fn classifies_class_literal_for_static_access() {
    let ctx = SemanticContext {
        location: CursorLocation::StaticAccess {
            class_internal_name: "java/lang/String".to_string(),
            member_prefix: "cl".to_string(),
        },
        local_variables: vec![],
    };

    assert_eq!(
        classify_intrinsic_access(&ctx, &make_facts()),
        Some(JavaIntrinsicAccess {
            kind: JavaIntrinsicAccessKind::ClassLiteral,
            receiver_kind: JavaAccessReceiverKind::Type,
        })
    );
}

#[test]
fn classifies_class_literal_for_primitive_and_array_type_receivers() {
    let facts = make_facts();
    let primitive_ctx = member_access(None, "", "int", None);
    let array_ctx = member_access(None, "cl", "String[]", None);

    assert_eq!(
        classify_intrinsic_access(&primitive_ctx, &facts).map(|a| a.kind),
        Some(JavaIntrinsicAccessKind::ClassLiteral)
    );
    assert_eq!(
        classify_intrinsic_access(&array_ctx, &facts).map(|a| a.kind),
        Some(JavaIntrinsicAccessKind::ClassLiteral)
    );
}

#[test]
fn rejects_class_literal_for_value_receivers_and_parameterized_types() {
    let facts = make_facts();
    let mut value_ctx = member_access(Some(TypeName::new("java/lang/String")), "", "obj", None);
    value_ctx.local_variables.push(LocalVar {
        name: "obj".to_string(),
        type_internal: TypeName::new("java/lang/String"),
        init_expr: None,
        decl_kind: LocalVarDeclKind::Explicit,
    });
    let generic_ctx = member_access(None, "cl", "List<String>", None);

    assert_eq!(classify_intrinsic_access(&value_ctx, &facts), None);
    assert_eq!(classify_intrinsic_access(&generic_ctx, &facts), None);
}

#[test]
fn classifies_array_length_and_object_get_class_separately() {
    let facts = make_facts();
    let array_ctx = member_access(
        Some(TypeName::new("java/lang/String").with_array_dims(1)),
        "length",
        "arr",
        None,
    );
    let get_class_ctx = member_access(
        Some(TypeName::new("java/lang/String")),
        "getClass",
        "obj",
        Some("()"),
    );

    assert_eq!(
        classify_intrinsic_access(&array_ctx, &facts).map(|a| a.kind),
        Some(JavaIntrinsicAccessKind::ArrayLength)
    );
    assert_eq!(
        classify_intrinsic_access(&get_class_ctx, &facts).map(|a| a.kind),
        Some(JavaIntrinsicAccessKind::ObjectGetClass)
    );
}

#[test]
fn qualified_types_and_void_take_class_literals() {
    let facts = make_facts();
    for receiver in ["pkg.Outer.Inner", "void", " long [] []", "pkg.Outer[]"] {
        assert_eq!(
            classify_intrinsic_access(&member_access(None, "class", receiver, None), &facts)
                .map(|a| a.receiver_kind),
            Some(JavaAccessReceiverKind::Type),
            "{receiver}"
        );
    }
    for receiver in ["", "this", "pkg.Missing", "f()", "..", "this.x"] {
        assert_eq!(
            classify_intrinsic_access(&member_access(None, "class", receiver, None), &facts),
            None,
            "{receiver}"
        );
    }
}

#[test]
fn get_class_needs_an_object_and_a_call() {
    let facts = make_facts();
    for (receiver, arguments) in [("int", Some("()")), ("null", Some("()")), ("java/lang/String", None)] {
        let ctx = member_access(Some(TypeName::new(receiver)), "getClass", "x()", arguments);
        assert_eq!(classify_intrinsic_access(&ctx, &facts), None);
    }
}

#[test]
fn class_literals_keep_their_operands() {
    assert!(is_class_literal_prefix(""));
    assert!(is_class_literal_prefix("clas"));
    assert!(!is_class_literal_prefix("classes"));
    let ty = class_literal_result_type(TypeName::new("int").with_array_dims(2));
    assert_eq!(ty.base, "java/lang/Class");
    assert_eq!(ty.args, vec![TypeName::new("int").with_array_dims(2)]);
}
