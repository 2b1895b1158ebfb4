//! The members that annotations generate, on real classes.
use java_analyzer::extractor::JavaContextExtractor;
use java_analyzer::index::{
    AnnotationSummary, AnnotationValue, FieldSummary, MethodParam, MethodParams, MethodSummary,
};
use java_analyzer::lombok::config::LombokConfig;
use java_analyzer::lombok::rules::constructor_rule::{
    build_constructor_descriptor, get_all_non_static_fields, get_required_fields,
    has_nonnull_annotation, ConstructorRule,
};
use java_analyzer::lombok::rules::delegate_rule::{
    generate_delegate_method, get_excludes_parameter, get_types_parameter, DelegateRule,
};
use java_analyzer::lombok::rules::equals_hash_code_rule::{
    determine_fields_for_equals_hash_code, EqualsAndHashCodeRule,
};
use java_analyzer::lombok::rules::log_rule::LogRule;
use java_analyzer::lombok::rules::value_rule::ValueRule;
use java_analyzer::lombok::rules::with_rule::{compute_with_name, WithRule};
use java_analyzer::syntax::NodeId;
use java_analyzer::synthetic::{
    BodyMembers, ClassMember, SyntheticInput, SyntheticMemberRule, SyntheticMemberSet,
    SyntheticOrigin,
};
use java_analyzer::text_map::TextMap;
use rust_asm::constants::{
    ACC_FINAL, ACC_PRIVATE, ACC_PROTECTED, ACC_PUBLIC, ACC_STATIC, ACC_TRANSIENT,
};

// ---- reading classes ---------------------------------------------------------------------------

struct ClassInfo {
    name: String,
    methods: Vec<MethodSummary>,
    fields: Vec<FieldSummary>,
}

fn text(ctx: &JavaContextExtractor, n: NodeId) -> String {
    ctx.node_text(n).iter().collect()
}

fn kids(ctx: &JavaContextExtractor, n: NodeId) -> Vec<NodeId> {
    ctx.tree.children(n).to_vec()
}

fn kid_of_kind(ctx: &JavaContextExtractor, n: NodeId, kind: &str) -> Option<NodeId> {
    kids(ctx, n).into_iter().find(|k| ctx.tree.kind(*k) == kind)
}

fn imports(ctx: &JavaContextExtractor) -> Vec<String> {
    (0..ctx.tree.nodes.len())
        .filter(|n| ctx.tree.kind(*n) == "import_declaration")
        .filter_map(|n| kid_of_kind(ctx, n, "scoped_identifier"))
        .map(|n| text(ctx, n))
        .collect()
}

/// The internal name that the imports give a simple name, or the name itself.
fn internal(ctx: &JavaContextExtractor, name: &str) -> String {
    for import in imports(ctx) {
        if import.rsplit('.').next() == Some(name) {
            return import.replace('.', "/");
        }
    }
    match name {
        "String" | "Object" => format!("java/lang/{name}"),
        _ => match name.split_once('.') {
            Some((outer, inner)) if outer.starts_with(char::is_uppercase) => {
                format!("{}${}", internal(ctx, outer), inner)
            }
            _ => name.replace('.', "/"),
        },
    }
}

fn descriptor(ctx: &JavaContextExtractor, type_text: &str) -> String {
    let t = type_text.trim();
    if let Some(element) = t.strip_suffix("[]") {
        return format!("[{}", descriptor(ctx, element));
    }
    let base = t.split('<').next().unwrap().trim();
    match base {
        "byte" => "B".to_string(),
        "char" => "C".to_string(),
        "double" => "D".to_string(),
        "float" => "F".to_string(),
        "int" => "I".to_string(),
        "long" => "J".to_string(),
        "short" => "S".to_string(),
        "boolean" => "Z".to_string(),
        "void" => "V".to_string(),
        _ => format!("L{};", internal(ctx, base)),
    }
}

fn value(ctx: &JavaContextExtractor, n: NodeId) -> AnnotationValue {
    let t = text(ctx, n);
    match ctx.tree.kind(n) {
        "string_literal" => AnnotationValue::String(t.trim_matches('"').to_string()),
        "true" => AnnotationValue::Boolean(true),
        "false" => AnnotationValue::Boolean(false),
        "class_literal" => {
            AnnotationValue::Class(descriptor(ctx, t.strip_suffix(".class").unwrap()))
        }
        "element_value_array_initializer" | "array_initializer" => AnnotationValue::Array(
            ctx.tree
                .named_children(n)
                .iter()
                .map(|k| value(ctx, *k))
                .collect(),
        ),
        "field_access" => {
            let (owner, name) = t.rsplit_once('.').unwrap();
            AnnotationValue::Enum {
                enum_type: internal(ctx, owner),
                const_name: name.to_string(),
            }
        }
        _ => AnnotationValue::Enum {
            enum_type: String::new(),
            const_name: t,
        },
    }
}

fn annotation(ctx: &JavaContextExtractor, n: NodeId) -> AnnotationSummary {
    let name = ctx.tree.child_by_field(n, "name").unwrap();
    let mut elements = TextMap::new();
    if let Some(args) = ctx.tree.child_by_field(n, "arguments") {
        for arg in ctx.tree.named_children(args) {
            if ctx.tree.kind(*arg) == "element_value_pair" {
                let key = ctx.tree.child_by_field(*arg, "key").unwrap();
                let given = ctx.tree.child_by_field(*arg, "value").unwrap();
                elements.insert(text(ctx, key), value(ctx, given));
            } else {
                elements.insert("value".to_string(), value(ctx, *arg));
            }
        }
    }
    AnnotationSummary {
        internal_name: internal(ctx, &text(ctx, name)),
        runtime_visible: true,
        elements,
    }
}

fn annotations(ctx: &JavaContextExtractor, n: NodeId) -> Vec<AnnotationSummary> {
    match kid_of_kind(ctx, n, "modifiers") {
        Some(modifiers) => kids(ctx, modifiers)
            .into_iter()
            .filter(|k| matches!(ctx.tree.kind(*k), "annotation" | "marker_annotation"))
            .map(|k| annotation(ctx, k))
            .collect(),
        None => vec![],
    }
}

fn flags(ctx: &JavaContextExtractor, n: NodeId) -> u16 {
    let mut out = 0;
    if let Some(modifiers) = kid_of_kind(ctx, n, "modifiers") {
        for k in kids(ctx, modifiers) {
            out |= match ctx.tree.kind(k) {
                "public" => ACC_PUBLIC,
                "private" => ACC_PRIVATE,
                "protected" => ACC_PROTECTED,
                "static" => ACC_STATIC,
                "final" => ACC_FINAL,
                "transient" => ACC_TRANSIENT,
                _ => 0,
            };
        }
    }
    out
}

fn params(ctx: &JavaContextExtractor, n: NodeId) -> MethodParams {
    let mut items = vec![];
    if let Some(list) = ctx.tree.child_by_field(n, "parameters") {
        for p in ctx.tree.named_children(list) {
            if ctx.tree.kind(*p) == "formal_parameter" {
                let ty = ctx.tree.child_by_field(*p, "type").unwrap();
                let name = ctx.tree.child_by_field(*p, "name").unwrap();
                items.push(MethodParam {
                    descriptor: descriptor(ctx, &text(ctx, ty)),
                    name: text(ctx, name),
                    annotations: annotations(ctx, *p),
                });
            }
        }
    }
    MethodParams { items }
}

fn method(ctx: &JavaContextExtractor, n: NodeId) -> MethodSummary {
    let is_constructor = ctx.tree.kind(n) == "constructor_declaration";
    let name = ctx.tree.child_by_field(n, "name").unwrap();
    MethodSummary {
        name: if is_constructor {
            "<init>".to_string()
        } else {
            text(ctx, name)
        },
        params: params(ctx, n),
        annotations: annotations(ctx, n),
        access_flags: flags(ctx, n),
        is_synthetic: false,
        generic_signature: None,
        return_type: ctx
            .tree
            .child_by_field(n, "type")
            .map(|ty| descriptor(ctx, &text(ctx, ty)))
            .filter(|d| d != "V"),
    }
}

fn fields(ctx: &JavaContextExtractor, n: NodeId) -> Vec<FieldSummary> {
    let ty = ctx.tree.child_by_field(n, "type").unwrap();
    kids(ctx, n)
        .into_iter()
        .filter(|k| ctx.tree.kind(*k) == "variable_declarator")
        .map(|k| FieldSummary {
            name: text(ctx, ctx.tree.child_by_field(k, "name").unwrap()),
            descriptor: descriptor(ctx, &text(ctx, ty)),
            access_flags: flags(ctx, n),
            annotations: annotations(ctx, n),
            is_synthetic: false,
            generic_signature: None,
        })
        .collect()
}

fn members(ctx: &JavaContextExtractor, body: NodeId) -> Vec<ClassMember> {
    let mut out = vec![];
    for k in kids(ctx, body) {
        match ctx.tree.kind(k) {
            "field_declaration" => {
                out.extend(fields(ctx, k).into_iter().map(ClassMember::Field));
            }
            "method_declaration" | "constructor_declaration" => {
                out.push(ClassMember::Method(method(ctx, k)));
            }
            "enum_body_declarations" => out.extend(members(ctx, k)),
            _ => {}
        }
    }
    out
}

fn is_type(ctx: &JavaContextExtractor, n: NodeId) -> bool {
    matches!(
        ctx.tree.kind(n),
        "class_declaration" | "enum_declaration" | "record_declaration" | "interface_declaration"
    )
}

fn split(members: Vec<ClassMember>) -> (Vec<MethodSummary>, Vec<FieldSummary>) {
    let mut methods = vec![];
    let mut fields = vec![];
    for m in members {
        match m {
            ClassMember::Method(m) => methods.push(m),
            ClassMember::Field(f) => fields.push(f),
        }
    }
    (methods, fields)
}

fn synthesize_for_type(
    ctx: &JavaContextExtractor,
    decl: NodeId,
    owner: Option<&str>,
    explicit_methods: &[MethodSummary],
    explicit_fields: &[FieldSummary],
) -> SyntheticMemberSet {
    let input = SyntheticInput {
        ctx,
        decl,
        annotations: annotations(ctx, decl),
        owner_internal: owner.map(str::to_string),
        bodies: (0..ctx.tree.nodes.len())
            .filter(|n| is_type(ctx, *n))
            .filter_map(|n| ctx.tree.child_by_field(n, "body"))
            .map(|body| BodyMembers {
                body,
                members: members(ctx, body),
            })
            .collect(),
        index: None,
    };
    let mut out = SyntheticMemberSet::default();
    ConstructorRule.synthesize(&input, &mut out, explicit_methods, explicit_fields);
    EqualsAndHashCodeRule.synthesize(&input, &mut out, explicit_methods, explicit_fields);
    ValueRule.synthesize(&input, &mut out, explicit_methods, explicit_fields);
    WithRule.synthesize(&input, &mut out, explicit_methods, explicit_fields);
    LogRule.synthesize(&input, &mut out, explicit_methods, explicit_fields);
    DelegateRule.synthesize(&input, &mut out, explicit_methods, explicit_fields);
    out
}

fn package_prefix(ctx: &JavaContextExtractor) -> String {
    (0..ctx.tree.nodes.len())
        .find(|n| ctx.tree.kind(*n) == "package_declaration")
        .map(|n| text(ctx, ctx.tree.named_children(n)[0]).replace('.', "/") + "/")
        .unwrap_or_default()
}

fn parse_java_source(src: &str) -> Vec<ClassInfo> {
    let ctx = JavaContextExtractor::new(src, 0);
    let mut out = vec![];
    for decl in 0..ctx.tree.nodes.len() {
        if !is_type(&ctx, decl) {
            continue;
        }
        let name = text(&ctx, ctx.tree.child_by_field(decl, "name").unwrap());
        let body = ctx.tree.child_by_field(decl, "body").unwrap();
        let (mut methods, mut fields) = split(members(&ctx, body));
        let owner = format!("{}{}", package_prefix(&ctx), name);
        let made = synthesize_for_type(&ctx, decl, Some(&owner), &methods, &fields);
        methods.extend(made.methods);
        fields.extend(made.fields);
        out.push(ClassInfo {
            name,
            methods,
            fields,
        });
    }
    out
}

fn parse_first_class(src: &str) -> ClassInfo {
    let classes = parse_java_source(src);
    assert_eq!(classes.len(), 1, "Expected exactly one class");
    classes.into_iter().next().unwrap()
}

fn parse_env(src: &str) -> JavaContextExtractor {
    JavaContextExtractor::new(src, 0)
}

fn first_decl(ctx: &JavaContextExtractor) -> NodeId {
    (0..ctx.tree.nodes.len())
        .find(|n| matches!(ctx.tree.kind(*n), "class_declaration" | "record_declaration"))
        .expect("type declaration")
}

fn create_test_field(name: &str, descriptor: &str, access_flags: u16) -> FieldSummary {
    FieldSummary {
        name: name.to_string(),
        descriptor: descriptor.to_string(),
        access_flags,
        annotations: Vec::new(),
        is_synthetic: false,
        generic_signature: None,
    }
}

fn create_test_field_with_annotation(
    name: &str,
    descriptor: &str,
    access_flags: u16,
    annotation: &str,
) -> FieldSummary {
    FieldSummary {
        name: name.to_string(),
        descriptor: descriptor.to_string(),
        access_flags,
        annotations: vec![AnnotationSummary {
            internal_name: annotation.to_string(),
            runtime_visible: true,
            elements: TextMap::new(),
        }],
        is_synthetic: false,
        generic_signature: None,
    }
}

fn create_flagged_field(name: &str, is_static: bool, is_transient: bool) -> FieldSummary {
    let mut flags = 0;
    if is_static {
        flags |= ACC_STATIC;
    }
    if is_transient {
        flags |= ACC_TRANSIENT;
    }
    create_test_field(name, "Ljava/lang/String;", flags)
}

fn delegate_annotation(elements: TextMap<AnnotationValue>) -> AnnotationSummary {
    AnnotationSummary {
        internal_name: "lombok/experimental/Delegate".to_string(),
        runtime_visible: true,
        elements,
    }
}

#[test]
fn test_get_required_fields_final_only() {
    let fields = vec![
        create_test_field("name", "Ljava/lang/String;", ACC_PRIVATE | ACC_FINAL),
        create_test_field("age", "I", ACC_PRIVATE),
    ];

    let required = get_required_fields(&fields);
    assert_eq!(required.len(), 1);
    assert_eq!(required[0].name.as_str(), "name");
}

#[test]
fn test_get_required_fields_nonnull() {
    let fields = vec![
        create_test_field_with_annotation(
            "name",
            "Ljava/lang/String;",
            ACC_PRIVATE,
            "lombok/NonNull",
        ),
        create_test_field("age", "I", ACC_PRIVATE),
    ];

    let required = get_required_fields(&fields);
    assert_eq!(required.len(), 1);
    assert_eq!(required[0].name.as_str(), "name");
}

#[test]
fn test_get_required_fields_skips_static() {
    let fields = vec![
        create_test_field(
            "CONSTANT",
            "Ljava/lang/String;",
            ACC_PUBLIC | ACC_STATIC | ACC_FINAL,
        ),
        create_test_field("name", "Ljava/lang/String;", ACC_PRIVATE | ACC_FINAL),
    ];

    let required = get_required_fields(&fields);
    assert_eq!(required.len(), 1);
    assert_eq!(required[0].name.as_str(), "name");
}

#[test]
fn test_get_all_non_static_fields() {
    let fields = vec![
        create_test_field("CONSTANT", "I", ACC_PUBLIC | ACC_STATIC | ACC_FINAL),
        create_test_field("name", "Ljava/lang/String;", ACC_PRIVATE),
        create_test_field("age", "I", ACC_PRIVATE),
    ];

    let all = get_all_non_static_fields(&fields);
    assert_eq!(all.len(), 2);
    assert_eq!(all[0].name.as_str(), "name");
    assert_eq!(all[1].name.as_str(), "age");
}

#[test]
fn test_build_constructor_descriptor() {
    let params = MethodParams {
        items: vec![
            MethodParam {
                descriptor: "Ljava/lang/String;".to_string(),
                name: "name".to_string(),
                annotations: Vec::new(),
            },
            MethodParam {
                descriptor: "I".to_string(),
                name: "age".to_string(),
                annotations: Vec::new(),
            },
        ],
    };

    let descriptor = build_constructor_descriptor(&params);
    assert_eq!(descriptor, "(Ljava/lang/String;I)V");
}

#[test]
fn test_has_nonnull_annotation() {
    let field = create_test_field_with_annotation(
        "name",
        "Ljava/lang/String;",
        ACC_PRIVATE,
        "lombok/NonNull",
    );
    assert!(has_nonnull_annotation(&field));

    let field2 = create_test_field("age", "I", ACC_PRIVATE);
    assert!(!has_nonnull_annotation(&field2));
}

#[test]
fn test_get_types_parameter_reads_class_value() {
    let mut elements = TextMap::new();
    elements.insert(
        "types".to_string(),
        AnnotationValue::Class("Ljava/util/Collection;".to_string()),
    );

    let types = get_types_parameter(&delegate_annotation(elements));
    assert_eq!(types, vec!["Ljava/util/Collection;".to_string()]);
}

#[test]
fn test_get_excludes_parameter_reads_class_value() {
    let mut elements = TextMap::new();
    elements.insert(
        "excludes".to_string(),
        AnnotationValue::Class("Ljava/util/Collection;".to_string()),
    );

    let excludes = get_excludes_parameter(&delegate_annotation(elements));
    assert_eq!(excludes, vec!["Ljava/util/Collection;".to_string()]);
}

#[test]
fn test_generate_delegate_method_emits_public_method_and_marker() {
    let field = FieldSummary {
        name: "items".to_string(),
        descriptor: "Ljava/util/List;".to_string(),
        access_flags: ACC_PRIVATE,
        annotations: vec![],
        is_synthetic: false,
        generic_signature: None,
    };
    let source_method = MethodSummary {
        name: "size".to_string(),
        params: MethodParams::empty(),
        annotations: vec![],
        access_flags: 0,
        is_synthetic: false,
        generic_signature: None,
        return_type: Some("I".to_string()),
    };

    let mut synthetic = SyntheticMemberSet::default();
    generate_delegate_method(&field, &source_method, &[], &mut synthetic);

    assert!(
        synthetic.methods.iter().any(|method| {
            method.name.as_str() == "size" && method.desc().as_str() == "()I"
        })
    );
    assert!(synthetic.definitions.iter().any(|definition| {
        definition.name.as_str() == "size"
            && matches!(definition.origin, SyntheticOrigin::LombokDelegate { .. })
    }));
}

#[test]
fn test_generate_delegate_method_skips_existing_or_object_methods() {
    let field = FieldSummary {
        name: "items".to_string(),
        descriptor: "Ljava/util/List;".to_string(),
        access_flags: ACC_PRIVATE,
        annotations: vec![],
        is_synthetic: false,
        generic_signature: None,
    };
    let object_method = MethodSummary {
        name: "toString".to_string(),
        params: MethodParams::empty(),
        annotations: vec![],
        access_flags: 0,
        is_synthetic: false,
        generic_signature: None,
        return_type: Some("Ljava/lang/String;".to_string()),
    };
    let existing_method = MethodSummary {
        name: "size".to_string(),
        params: MethodParams::empty(),
        annotations: vec![],
        access_flags: 0,
        is_synthetic: false,
        generic_signature: None,
        return_type: Some("I".to_string()),
    };

    let mut synthetic = SyntheticMemberSet::default();
    generate_delegate_method(&field, &object_method, &[], &mut synthetic);
    generate_delegate_method(
        &field,
        &existing_method,
        std::slice::from_ref(&existing_method),
        &mut synthetic,
    );

    assert!(
        synthetic.methods.is_empty() && synthetic.definitions.is_empty(),
        "delegate helper should skip Object methods and already-defined methods"
    );
}

#[test]
fn test_determine_fields_all() {
    let fields = vec![
        create_flagged_field("name", false, false),
        create_flagged_field("age", false, false),
        create_flagged_field("CONSTANT", true, false), // static
        create_flagged_field("temp", false, true),     // transient
    ];

    let result = determine_fields_for_equals_hash_code(&fields, &[], &[], false);

    assert_eq!(result.len(), 2);
    assert!(result.iter().any(|f| f.as_str() == "name"));
    assert!(result.iter().any(|f| f.as_str() == "age"));
}

#[test]
fn test_determine_fields_with_exclude() {
    let fields = vec![
        create_flagged_field("name", false, false),
        create_flagged_field("age", false, false),
        create_flagged_field("password", false, false),
    ];

    let exclude = vec!["password".to_string()];
    let result = determine_fields_for_equals_hash_code(&fields, &exclude, &[], false);

    assert_eq!(result.len(), 2);
    assert!(result.iter().any(|f| f.as_str() == "name"));
    assert!(result.iter().any(|f| f.as_str() == "age"));
    assert!(!result.iter().any(|f| f.as_str() == "password"));
}

#[test]
fn test_determine_fields_with_of() {
    let fields = vec![
        create_flagged_field("name", false, false),
        create_flagged_field("age", false, false),
        create_flagged_field("email", false, false),
    ];

    let of = vec!["name".to_string(), "email".to_string()];
    let result = determine_fields_for_equals_hash_code(&fields, &[], &of, false);

    assert_eq!(result.len(), 2);
    assert!(result.iter().any(|f| f.as_str() == "name"));
    assert!(result.iter().any(|f| f.as_str() == "email"));
    assert!(!result.iter().any(|f| f.as_str() == "age"));
}

#[test]
fn test_skips_dollar_fields() {
    let fields = vec![
        create_flagged_field("name", false, false),
        create_flagged_field("$internal", false, false),
    ];

    let result = determine_fields_for_equals_hash_code(&fields, &[], &[], false);

    assert_eq!(result.len(), 1);
    assert!(result.iter().any(|f| f.as_str() == "name"));
    assert!(!result.iter().any(|f| f.as_str() == "$internal"));
}

#[test]
fn test_with_generated_for_field_with_annotation() {
    let src = r#"
            import lombok.With;
            class Person {
                @With
                private final String name;
            }
        "#;
    let ctx = parse_env(src);
    let decl = first_decl(&ctx);

    let synthetic = synthesize_for_type(
        &ctx,
        decl,
        Some("Person"),
        &[],
        &[FieldSummary {
            name: "name".to_string(),
            descriptor: "Ljava/lang/String;".to_string(),
            access_flags: ACC_PRIVATE | ACC_FINAL,
            annotations: vec![AnnotationSummary {
                internal_name: "lombok/With".to_string(),
                runtime_visible: true,
                elements: TextMap::new(),
            }],
            is_synthetic: false,
            generic_signature: None,
        }],
    );

    assert!(
        synthetic
            .methods
            .iter()
            .any(|m| m.name.as_str() == "withName"
                && m.params.items.len() == 1
                && m.params.items[0].descriptor.as_str() == "Ljava/lang/String;"),
        "Expected withName(String) method to be generated"
    );
}

#[test]
fn test_with_not_generated_for_static_field() {
    let src = r#"
            import lombok.With;
            class Person {
                @With
                private static final String DEFAULT_NAME = "John";
            }
        "#;
    let ctx = parse_env(src);
    let decl = first_decl(&ctx);

    let synthetic = synthesize_for_type(
        &ctx,
        decl,
        Some("Person"),
        &[],
        &[FieldSummary {
            name: "DEFAULT_NAME".to_string(),
            descriptor: "Ljava/lang/String;".to_string(),
            access_flags: ACC_STATIC | ACC_PRIVATE | ACC_FINAL,
            annotations: vec![AnnotationSummary {
                internal_name: "lombok/With".to_string(),
                runtime_visible: true,
                elements: TextMap::new(),
            }],
            is_synthetic: false,
            generic_signature: None,
        }],
    );

    assert!(
        !synthetic
            .methods
            .iter()
            .any(|m| m.name.as_str() == "withDEFAULT_NAME"),
        "With method should not be generated for static field"
    );
}

#[test]
fn with_rule_test_with_respects_access_level() {
    let src = r#"
            import lombok.With;
            import lombok.AccessLevel;
            class Person {
                @With(AccessLevel.PROTECTED)
                private final String name;
            }
        "#;
    let ctx = parse_env(src);
    let decl = first_decl(&ctx);

    let synthetic = synthesize_for_type(
        &ctx,
        decl,
        Some("Person"),
        &[],
        &[FieldSummary {
            name: "name".to_string(),
            descriptor: "Ljava/lang/String;".to_string(),
            access_flags: ACC_PRIVATE | ACC_FINAL,
            annotations: vec![AnnotationSummary {
                internal_name: "lombok/With".to_string(),
                runtime_visible: true,
                elements: {
                    let mut map = TextMap::new();
                    map.insert(
                        "value".to_string(),
                        AnnotationValue::Enum {
                            enum_type: "lombok/AccessLevel".to_string(),
                            const_name: "PROTECTED".to_string(),
                        },
                    );
                    map
                },
            }],
            is_synthetic: false,
            generic_signature: None,
        }],
    );

    let with_method = synthetic
        .methods
        .iter()
        .find(|m| m.name.as_str() == "withName");
    assert!(with_method.is_some(), "withName method should be generated");

    let with_method = with_method.unwrap();
    assert_eq!(
        with_method.access_flags & ACC_PROTECTED,
        ACC_PROTECTED,
        "withName should be protected"
    );
}

#[test]
fn test_compute_with_name() {
    let config = LombokConfig::new();

    assert_eq!(compute_with_name("name", &config), "withName");
    assert_eq!(compute_with_name("age", &config), "withAge");
    assert_eq!(compute_with_name("isActive", &config), "withIsActive");
}

#[test]
fn log_rule_test_slf4j_generates_log_field() {
    let src = r#"
            import lombok.extern.slf4j.Slf4j;
            @Slf4j
            class MyService {
            }
        "#;
    let ctx = parse_env(src);
    let decl = first_decl(&ctx);

    let synthetic = synthesize_for_type(
        &ctx,
        decl,
        Some("MyService"),
        &[],
        &[],
    );

    let log_field = synthetic.fields.iter().find(|f| f.name.as_str() == "log");
    assert!(log_field.is_some(), "Should generate log field");

    let log_field = log_field.unwrap();
    assert_eq!(
        log_field.descriptor.as_str(),
        "Lorg/slf4j/Logger;",
        "Should be slf4j Logger type"
    );
    assert_eq!(
        log_field.access_flags & ACC_STATIC,
        ACC_STATIC,
        "Should be static"
    );
    assert_eq!(
        log_field.access_flags & ACC_FINAL,
        ACC_FINAL,
        "Should be final"
    );
    assert_eq!(
        log_field.access_flags & ACC_PRIVATE,
        ACC_PRIVATE,
        "Should be private"
    );
}

#[test]
fn log_rule_test_log4j2_generates_log_field() {
    let src = r#"
            import lombok.extern.log4j.Log4j2;
            @Log4j2
            class MyService {
            }
        "#;
    let ctx = parse_env(src);
    let decl = first_decl(&ctx);

    let synthetic = synthesize_for_type(
        &ctx,
        decl,
        Some("MyService"),
        &[],
        &[],
    );

    let log_field = synthetic.fields.iter().find(|f| f.name.as_str() == "log");
    assert!(log_field.is_some(), "Should generate log field");

    let log_field = log_field.unwrap();
    assert_eq!(
        log_field.descriptor.as_str(),
        "Lorg/apache/logging/log4j/Logger;",
        "Should be log4j2 Logger type"
    );
}

#[test]
fn log_rule_test_java_util_logging_generates_log_field() {
    let src = r#"
            import lombok.extern.java.Log;
            @Log
            class MyService {
            }
        "#;
    let ctx = parse_env(src);
    let decl = first_decl(&ctx);

    let synthetic = synthesize_for_type(
        &ctx,
        decl,
        Some("MyService"),
        &[],
        &[],
    );

    let log_field = synthetic.fields.iter().find(|f| f.name.as_str() == "log");
    assert!(log_field.is_some(), "Should generate log field");

    let log_field = log_field.unwrap();
    assert_eq!(
        log_field.descriptor.as_str(),
        "Ljava/util/logging/Logger;",
        "Should be java.util.logging Logger type"
    );
}

#[test]
fn log_rule_test_commons_log_generates_log_field() {
    let src = r#"
            import lombok.extern.apachecommons.CommonsLog;
            @CommonsLog
            class MyService {
            }
        "#;
    let ctx = parse_env(src);
    let decl = first_decl(&ctx);

    let synthetic = synthesize_for_type(
        &ctx,
        decl,
        Some("MyService"),
        &[],
        &[],
    );

    let log_field = synthetic.fields.iter().find(|f| f.name.as_str() == "log");
    assert!(log_field.is_some(), "Should generate log field");

    let log_field = log_field.unwrap();
    assert_eq!(
        log_field.descriptor.as_str(),
        "Lorg/apache/commons/logging/Log;",
        "Should be commons logging Log type"
    );
}

#[test]
fn log_rule_test_log_field_not_generated_if_exists() {
    let src = r#"
            import lombok.extern.slf4j.Slf4j;
            @Slf4j
            class MyService {
                private static final org.slf4j.Logger log = null;
            }
        "#;
    let ctx = parse_env(src);
    let decl = first_decl(&ctx);

    let synthetic = synthesize_for_type(
        &ctx,
        decl,
        Some("MyService"),
        &[],
        &[FieldSummary {
            name: "log".to_string(),
            descriptor: "Lorg/slf4j/Logger;".to_string(),
            access_flags: ACC_PRIVATE | ACC_STATIC | ACC_FINAL,
            annotations: vec![],
            is_synthetic: false,
            generic_signature: None,
        }],
    );

    // Should not generate another log field
    assert_eq!(
        synthetic
            .fields
            .iter()
            .filter(|f| f.name.as_str() == "log")
            .count(),
        0,
        "Should not generate log field if it already exists"
    );
}

#[test]
fn log_rule_test_flogger_generates_log_field() {
    let src = r#"
            import lombok.extern.flogger.Flogger;
            @Flogger
            class MyService {
            }
        "#;
    let ctx = parse_env(src);
    let decl = first_decl(&ctx);

    let synthetic = synthesize_for_type(
        &ctx,
        decl,
        Some("MyService"),
        &[],
        &[],
    );

    let log_field = synthetic.fields.iter().find(|f| f.name.as_str() == "log");
    assert!(log_field.is_some(), "Should generate log field");

    let log_field = log_field.unwrap();
    assert_eq!(
        log_field.descriptor.as_str(),
        "Lcom/google/common/flogger/FluentLogger;",
        "Should be Flogger FluentLogger type"
    );
}

#[test]
fn log_rule_test_jboss_log_generates_log_field() {
    let src = r#"
            import lombok.extern.jbosslog.JBossLog;
            @JBossLog
            class MyService {
            }
        "#;
    let ctx = parse_env(src);
    let decl = first_decl(&ctx);

    let synthetic = synthesize_for_type(
        &ctx,
        decl,
        Some("MyService"),
        &[],
        &[],
    );

    let log_field = synthetic.fields.iter().find(|f| f.name.as_str() == "log");
    assert!(log_field.is_some(), "Should generate log field");

    let log_field = log_field.unwrap();
    assert_eq!(
        log_field.descriptor.as_str(),
        "Lorg/jboss/logging/Logger;",
        "Should be JBoss Logger type"
    );
}

#[test]
fn log_rule_test_xslf4j_generates_log_field() {
    let src = r#"
            import lombok.extern.slf4j.XSlf4j;
            @XSlf4j
            class MyService {
            }
        "#;
    let ctx = parse_env(src);
    let decl = first_decl(&ctx);

    let synthetic = synthesize_for_type(
        &ctx,
        decl,
        Some("MyService"),
        &[],
        &[],
    );

    let log_field = synthetic.fields.iter().find(|f| f.name.as_str() == "log");
    assert!(log_field.is_some(), "Should generate log field");

    let log_field = log_field.unwrap();
    assert_eq!(
        log_field.descriptor.as_str(),
        "Lorg/slf4j/ext/XLogger;",
        "Should be XSlf4j XLogger type"
    );
}

#[test]
fn class_level_equals_and_hash_code_generates_methods() {
    let src = "import lombok.EqualsAndHashCode;

@EqualsAndHashCode
public class Person {
    private String name;
    private int age;
}
";

    let class = parse_first_class(src);

    // Should generate equals()
    assert!(
        class.methods.iter().any(|m| m.name.as_str() == "equals"),
        "Should generate equals() method"
    );

    // Should generate hashCode()
    assert!(
        class.methods.iter().any(|m| m.name.as_str() == "hashCode"),
        "Should generate hashCode() method"
    );

    // Should generate canEqual()
    assert!(
        class.methods.iter().any(|m| m.name.as_str() == "canEqual"),
        "Should generate canEqual() method"
    );
}

#[test]
fn equals_method_has_correct_signature() {
    let src = "import lombok.EqualsAndHashCode;

@EqualsAndHashCode
public class Person {
    private String name;
}
";

    let class = parse_first_class(src);

    let equals = class
        .methods
        .iter()
        .find(|m| m.name.as_str() == "equals")
        .expect("equals() should be generated");

    // Check return type
    assert_eq!(
        equals.return_type.as_deref(),
        Some("Z"),
        "equals() should return boolean"
    );

    // Check parameters
    assert_eq!(equals.params.len(), 1, "equals() should have one parameter");
    assert_eq!(
        equals.params.items[0].descriptor.as_str(),
        "Ljava/lang/Object;",
        "equals() parameter should be Object"
    );

    // Check access flags
    assert_eq!(
        equals.access_flags & ACC_PUBLIC,
        ACC_PUBLIC,
        "equals() should be public"
    );
}

#[test]
fn hash_code_method_has_correct_signature() {
    let src = "import lombok.EqualsAndHashCode;

@EqualsAndHashCode
public class Person {
    private String name;
}
";

    let class = parse_first_class(src);

    let hash_code = class
        .methods
        .iter()
        .find(|m| m.name.as_str() == "hashCode")
        .expect("hashCode() should be generated");

    // Check return type
    assert_eq!(
        hash_code.return_type.as_deref(),
        Some("I"),
        "hashCode() should return int"
    );

    // Check parameters
    assert!(
        hash_code.params.is_empty(),
        "hashCode() should have no parameters"
    );

    // Check access flags
    assert_eq!(
        hash_code.access_flags & ACC_PUBLIC,
        ACC_PUBLIC,
        "hashCode() should be public"
    );
}

#[test]
fn can_equal_method_has_correct_signature() {
    let src = "import lombok.EqualsAndHashCode;

@EqualsAndHashCode
public class Person {
    private String name;
}
";

    let class = parse_first_class(src);

    let can_equal = class
        .methods
        .iter()
        .find(|m| m.name.as_str() == "canEqual")
        .expect("canEqual() should be generated");

    // Check return type
    assert_eq!(
        can_equal.return_type.as_deref(),
        Some("Z"),
        "canEqual() should return boolean"
    );

    // Check parameters
    assert_eq!(
        can_equal.params.len(),
        1,
        "canEqual() should have one parameter"
    );

    // Check access flags (should be protected)
    assert_eq!(
        can_equal.access_flags & ACC_PROTECTED,
        ACC_PROTECTED,
        "canEqual() should be protected"
    );
}

#[test]
fn equals_and_hash_code_with_exclude() {
    let src = "import lombok.EqualsAndHashCode;

@EqualsAndHashCode(exclude = {\"password\", \"internalId\"})
public class User {
    private String username;
    private String password;
    private long internalId;
}
";

    let class = parse_first_class(src);

    // Should still generate all three methods
    assert!(
        class.methods.iter().any(|m| m.name.as_str() == "equals"),
        "Should generate equals() method"
    );
    assert!(
        class.methods.iter().any(|m| m.name.as_str() == "hashCode"),
        "Should generate hashCode() method"
    );
    assert!(
        class.methods.iter().any(|m| m.name.as_str() == "canEqual"),
        "Should generate canEqual() method"
    );
}

#[test]
fn equals_and_hash_code_with_of() {
    let src = "import lombok.EqualsAndHashCode;

@EqualsAndHashCode(of = {\"id\", \"email\"})
public class User {
    private long id;
    private String email;
    private String name;
    private String password;
}
";

    let class = parse_first_class(src);

    // Should generate all three methods
    assert!(
        class.methods.iter().any(|m| m.name.as_str() == "equals"),
        "Should generate equals() method"
    );
    assert!(
        class.methods.iter().any(|m| m.name.as_str() == "hashCode"),
        "Should generate hashCode() method"
    );
    assert!(
        class.methods.iter().any(|m| m.name.as_str() == "canEqual"),
        "Should generate canEqual() method"
    );
}

#[test]
fn equals_and_hash_code_skips_static_fields() {
    let src = "import lombok.EqualsAndHashCode;

@EqualsAndHashCode
public class Config {
    private String instanceField;
    private static String staticField = \"default\";
}
";

    let class = parse_first_class(src);

    // Should generate methods (static fields are automatically excluded)
    assert!(
        class.methods.iter().any(|m| m.name.as_str() == "equals"),
        "Should generate equals() method"
    );
    assert!(
        class.methods.iter().any(|m| m.name.as_str() == "hashCode"),
        "Should generate hashCode() method"
    );
}

#[test]
fn equals_and_hash_code_skips_transient_fields() {
    let src = "import lombok.EqualsAndHashCode;

@EqualsAndHashCode
public class CachedObject {
    private String data;
    private transient String cachedValue;
}
";

    let class = parse_first_class(src);

    // Should generate methods (transient fields are automatically excluded)
    assert!(
        class.methods.iter().any(|m| m.name.as_str() == "equals"),
        "Should generate equals() method"
    );
    assert!(
        class.methods.iter().any(|m| m.name.as_str() == "hashCode"),
        "Should generate hashCode() method"
    );
}

#[test]
fn equals_and_hash_code_with_call_super() {
    let src = "import lombok.EqualsAndHashCode;

@EqualsAndHashCode(callSuper = true)
public class Employee extends Person {
    private String employeeId;
    private String department;
}
";

    let class = parse_first_class(src);

    // Should generate all methods even with callSuper=true
    assert!(
        class.methods.iter().any(|m| m.name.as_str() == "equals"),
        "Should generate equals() method with callSuper"
    );
    assert!(
        class.methods.iter().any(|m| m.name.as_str() == "hashCode"),
        "Should generate hashCode() method with callSuper"
    );
    assert!(
        class.methods.iter().any(|m| m.name.as_str() == "canEqual"),
        "Should generate canEqual() method with callSuper"
    );
}

#[test]
fn equals_and_hash_code_does_not_override_existing_equals() {
    let src = "import lombok.EqualsAndHashCode;

@EqualsAndHashCode
public class Person {
    private String name;

    @Override
    public boolean equals(Object other) {
        return false;
    }
}
";

    let class = parse_first_class(src);

    // Should have exactly one equals() method (the explicit one)
    let equals_count = class
        .methods
        .iter()
        .filter(|m| m.name.as_str() == "equals")
        .count();
    assert_eq!(
        equals_count, 1,
        "Should not generate equals() when it already exists"
    );

    // Should not generate hashCode() either (they must be in sync)
    assert!(
        !class.methods.iter().any(|m| m.name.as_str() == "hashCode"),
        "Should not generate hashCode() when equals() already exists"
    );
}

#[test]
fn equals_and_hash_code_does_not_override_existing_hash_code() {
    let src = "import lombok.EqualsAndHashCode;

@EqualsAndHashCode
public class Person {
    private String name;

    @Override
    public int hashCode() {
        return 42;
    }
}
";

    let class = parse_first_class(src);

    // Should have exactly one hashCode() method (the explicit one)
    let hash_code_count = class
        .methods
        .iter()
        .filter(|m| m.name.as_str() == "hashCode")
        .count();
    assert_eq!(
        hash_code_count, 1,
        "Should not generate hashCode() when it already exists"
    );

    // Should not generate equals() either (they must be in sync)
    assert!(
        !class.methods.iter().any(|m| m.name.as_str() == "equals"),
        "Should not generate equals() when hashCode() already exists"
    );
}

#[test]
fn equals_and_hash_code_comprehensive_example() {
    let src = "package com.example;

import lombok.EqualsAndHashCode;

@EqualsAndHashCode(exclude = {\"password\", \"lastLogin\"})
public class User {
    private long id;
    private String username;
    private String email;
    private String password;
    private java.util.Date lastLogin;
    private boolean active;
    private static String DEFAULT_ROLE = \"user\";
    private transient String sessionToken;
}
";

    let class = parse_first_class(src);

    // Should generate equals()
    let equals = class.methods.iter().find(|m| m.name.as_str() == "equals");
    assert!(equals.is_some(), "Should generate equals() method");

    let equals_method = equals.unwrap();
    assert_eq!(
        equals_method.return_type.as_deref(),
        Some("Z"),
        "equals() should return boolean"
    );
    assert_eq!(
        equals_method.params.len(),
        1,
        "equals() should have one parameter"
    );

    // Should generate hashCode()
    let hash_code = class.methods.iter().find(|m| m.name.as_str() == "hashCode");
    assert!(hash_code.is_some(), "Should generate hashCode() method");

    let hash_code_method = hash_code.unwrap();
    assert_eq!(
        hash_code_method.return_type.as_deref(),
        Some("I"),
        "hashCode() should return int"
    );
    assert!(
        hash_code_method.params.is_empty(),
        "hashCode() should have no parameters"
    );

    // Should generate canEqual()
    let can_equal = class.methods.iter().find(|m| m.name.as_str() == "canEqual");
    assert!(can_equal.is_some(), "Should generate canEqual() method");
}

#[test]
fn test_no_args_constructor_basic() {
    let src = "import lombok.NoArgsConstructor;

@NoArgsConstructor
public class Person {
    private String name;
    private int age;
}
";

    let class = parse_first_class(src);

    // Should have <init> constructor with no parameters
    let constructor = class
        .methods
        .iter()
        .find(|m| m.name.as_str() == "<init>" && m.params.is_empty());

    assert!(constructor.is_some(), "Should generate no-args constructor");

    let ctor = constructor.unwrap();
    assert_eq!(ctor.params.len(), 0);
    assert!(
        (ctor.access_flags & ACC_PUBLIC) != 0,
        "Constructor should be public"
    );
}

#[test]
fn test_no_args_constructor_with_access_level() {
    let src = "import lombok.NoArgsConstructor;
import lombok.AccessLevel;

@NoArgsConstructor(access = AccessLevel.PROTECTED)
public class Person {
    private String name;
}
";

    let class = parse_first_class(src);

    let constructor = class
        .methods
        .iter()
        .find(|m| m.name.as_str() == "<init>" && m.params.is_empty());

    assert!(constructor.is_some(), "Should generate constructor");

    let ctor = constructor.unwrap();
    assert!(
        (ctor.access_flags & ACC_PROTECTED) != 0,
        "Constructor should be protected"
    );
}

#[test]
fn test_no_args_constructor_with_static_name() {
    let src = "import lombok.NoArgsConstructor;

@NoArgsConstructor(staticName = \"of\")
public class Person {
    private String name;
}
";

    let class = parse_first_class(src);

    // Should have the constructor
    let constructor = class
        .methods
        .iter()
        .find(|m| m.name.as_str() == "<init>" && m.params.is_empty());
    assert!(constructor.is_some(), "Should generate constructor");

    // Should have static factory method
    let factory = class
        .methods
        .iter()
        .find(|m| m.name.as_str() == "of" && m.params.is_empty());
    assert!(factory.is_some(), "Should generate static factory method");

    let factory_method = factory.unwrap();
    assert!(
        (factory_method.access_flags & ACC_STATIC) != 0,
        "Factory method should be static"
    );
    assert!(
        (factory_method.access_flags & ACC_PUBLIC) != 0,
        "Factory method should be public"
    );
}

#[test]
fn test_all_args_constructor_basic() {
    let src = "import lombok.AllArgsConstructor;

@AllArgsConstructor
public class Person {
    private String name;
    private int age;
    private boolean active;
}
";

    let class = parse_first_class(src);

    // Should have <init> constructor with 3 parameters
    let constructor = class
        .methods
        .iter()
        .find(|m| m.name.as_str() == "<init>" && m.params.len() == 3);

    assert!(
        constructor.is_some(),
        "Should generate all-args constructor"
    );

    let ctor = constructor.unwrap();
    assert_eq!(ctor.params.len(), 3);

    // Check parameter types - descriptors come from field descriptors which may be simplified
    // The parser generates descriptors based on source type resolution
    assert!(
        ctor.params.items[0].descriptor.as_str().contains("String"),
        "First param should be String type, got: {}",
        ctor.params.items[0].descriptor
    );
    assert_eq!(ctor.params.items[1].descriptor.as_str(), "I");
    assert_eq!(ctor.params.items[2].descriptor.as_str(), "Z");

    // Check parameter names
    assert_eq!(ctor.params.items[0].name.as_str(), "name");
    assert_eq!(ctor.params.items[1].name.as_str(), "age");
    assert_eq!(ctor.params.items[2].name.as_str(), "active");
}

#[test]
fn test_all_args_constructor_skips_static_fields() {
    let src = "import lombok.AllArgsConstructor;

@AllArgsConstructor
public class Person {
    private static final String DEFAULT_NAME = \"Unknown\";
    private String name;
    private int age;
}
";

    let class = parse_first_class(src);

    // Should have constructor with only 2 parameters (skipping static field)
    let constructor = class
        .methods
        .iter()
        .find(|m| m.name.as_str() == "<init>" && m.params.len() == 2);

    assert!(
        constructor.is_some(),
        "Should generate constructor with 2 params"
    );

    let ctor = constructor.unwrap();
    assert_eq!(ctor.params.len(), 2);
    assert_eq!(ctor.params.items[0].name.as_str(), "name");
    assert_eq!(ctor.params.items[1].name.as_str(), "age");
}

#[test]
fn test_all_args_constructor_with_static_name() {
    let src = "import lombok.AllArgsConstructor;

@AllArgsConstructor(staticName = \"create\")
public class Person {
    private String name;
    private int age;
}
";

    let class = parse_first_class(src);

    // Should have the constructor
    let constructor = class
        .methods
        .iter()
        .find(|m| m.name.as_str() == "<init>" && m.params.len() == 2);
    assert!(constructor.is_some(), "Should generate constructor");

    // Should have static factory method
    let factory = class
        .methods
        .iter()
        .find(|m| m.name.as_str() == "create" && m.params.len() == 2);
    assert!(factory.is_some(), "Should generate static factory method");

    let factory_method = factory.unwrap();
    assert!(
        (factory_method.access_flags & ACC_STATIC) != 0,
        "Factory method should be static"
    );
}

#[test]
fn test_required_args_constructor_final_fields() {
    let src = "import lombok.RequiredArgsConstructor;

@RequiredArgsConstructor
public class Person {
    private final String name;
    private final int age;
    private String nickname;
}
";

    let class = parse_first_class(src);

    // Should have constructor with 2 parameters (only final fields)
    let constructor = class
        .methods
        .iter()
        .find(|m| m.name.as_str() == "<init>" && m.params.len() == 2);

    assert!(
        constructor.is_some(),
        "Should generate required-args constructor"
    );

    let ctor = constructor.unwrap();
    assert_eq!(ctor.params.len(), 2);
    assert_eq!(ctor.params.items[0].name.as_str(), "name");
    assert_eq!(ctor.params.items[1].name.as_str(), "age");
}

#[test]
fn test_required_args_constructor_nonnull_fields() {
    let src = "import lombok.RequiredArgsConstructor;
import lombok.NonNull;

@RequiredArgsConstructor
public class Person {
    @NonNull
    private String name;
    private int age;
}
";

    let class = parse_first_class(src);

    // Should have constructor with 1 parameter (@NonNull field)
    let constructor = class
        .methods
        .iter()
        .find(|m| m.name.as_str() == "<init>" && m.params.len() == 1);

    assert!(
        constructor.is_some(),
        "Should generate required-args constructor"
    );

    let ctor = constructor.unwrap();
    assert_eq!(ctor.params.len(), 1);
    assert_eq!(ctor.params.items[0].name.as_str(), "name");
}

#[test]
fn test_required_args_constructor_mixed() {
    let src = "import lombok.RequiredArgsConstructor;
import lombok.NonNull;

@RequiredArgsConstructor
public class Person {
    private final String id;
    @NonNull
    private String name;
    private int age;
    private final boolean active;
}
";

    let class = parse_first_class(src);

    // Should have constructor with 3 parameters (2 final + 1 @NonNull)
    let constructor = class
        .methods
        .iter()
        .find(|m| m.name.as_str() == "<init>" && m.params.len() == 3);

    assert!(
        constructor.is_some(),
        "Should generate required-args constructor"
    );

    let ctor = constructor.unwrap();
    assert_eq!(ctor.params.len(), 3);
    // Should be in field declaration order
    assert_eq!(ctor.params.items[0].name.as_str(), "id");
    assert_eq!(ctor.params.items[1].name.as_str(), "name");
    assert_eq!(ctor.params.items[2].name.as_str(), "active");
}

#[test]
fn test_required_args_constructor_no_required_fields() {
    let src = "import lombok.RequiredArgsConstructor;

@RequiredArgsConstructor
public class Person {
    private String name;
    private int age;
}
";

    let class = parse_first_class(src);

    // Should have no-args constructor when no required fields
    let constructor = class
        .methods
        .iter()
        .find(|m| m.name.as_str() == "<init>" && m.params.is_empty());

    assert!(
        constructor.is_some(),
        "Should generate no-args constructor when no required fields"
    );
}

#[test]
fn test_multiple_constructor_annotations() {
    let src = "import lombok.NoArgsConstructor;
import lombok.AllArgsConstructor;

@NoArgsConstructor
@AllArgsConstructor
public class Person {
    private String name;
    private int age;
}
";

    let class = parse_first_class(src);

    // Should have both constructors
    let no_args = class
        .methods
        .iter()
        .find(|m| m.name.as_str() == "<init>" && m.params.is_empty());
    assert!(no_args.is_some(), "Should generate no-args constructor");

    let all_args = class
        .methods
        .iter()
        .find(|m| m.name.as_str() == "<init>" && m.params.len() == 2);
    assert!(all_args.is_some(), "Should generate all-args constructor");
}

#[test]
fn test_constructor_does_not_override_explicit() {
    let src = "import lombok.AllArgsConstructor;

@AllArgsConstructor
public class Person {
    private String name;
    private int age;

    public Person(String name, int age) {
        this.name = name.toUpperCase();
        this.age = age;
    }
}
";

    let class = parse_first_class(src);

    // Should only have one constructor (the explicit one)
    let constructors: Vec<_> = class
        .methods
        .iter()
        .filter(|m| m.name.as_str() == "<init>")
        .collect();

    assert_eq!(
        constructors.len(),
        1,
        "Should not generate duplicate constructor"
    );
}

#[test]
fn test_constructor_with_generics() {
    let src = "import lombok.AllArgsConstructor;
import java.util.List;

@AllArgsConstructor
public class Container<T> {
    private T value;
    private List<T> items;
}
";

    let class = parse_first_class(src);

    let constructor = class
        .methods
        .iter()
        .find(|m| m.name.as_str() == "<init>" && m.params.len() == 2);

    assert!(
        constructor.is_some(),
        "Should generate constructor with generic types"
    );

    let ctor = constructor.unwrap();
    assert_eq!(ctor.params.len(), 2);
    assert_eq!(ctor.params.items[0].name.as_str(), "value");
    assert_eq!(ctor.params.items[1].name.as_str(), "items");
}

#[test]
fn test_enum_constructor_is_private() {
    let src = "import lombok.AllArgsConstructor;

@AllArgsConstructor
public enum Status {
    ACTIVE, INACTIVE;

    private String description;
}
";

    let class = parse_first_class(src);

    let constructor = class
        .methods
        .iter()
        .find(|m| m.name.as_str() == "<init>" && m.params.len() == 1);

    assert!(
        constructor.is_some(),
        "Should generate constructor for enum"
    );

    let ctor = constructor.unwrap();
    assert!(
        (ctor.access_flags & ACC_PRIVATE) != 0,
        "Enum constructor should be private"
    );
}

#[test]
fn test_required_args_with_static_name() {
    let src = "import lombok.RequiredArgsConstructor;

@RequiredArgsConstructor(staticName = \"of\")
public class Person {
    private final String name;
    private final int age;
}
";

    let class = parse_first_class(src);

    // Should have the constructor
    let constructor = class
        .methods
        .iter()
        .find(|m| m.name.as_str() == "<init>" && m.params.len() == 2);
    assert!(constructor.is_some(), "Should generate constructor");

    // Should have static factory method
    let factory = class
        .methods
        .iter()
        .find(|m| m.name.as_str() == "of" && m.params.len() == 2);
    assert!(
        factory.is_some(),
        "Should generate static factory method 'of'"
    );

    let factory_method = factory.unwrap();
    assert!(
        (factory_method.access_flags & ACC_STATIC) != 0,
        "Factory method should be static"
    );
    assert_eq!(factory_method.params.len(), 2);
}

#[test]
fn test_all_three_constructor_annotations() {
    let src = "import lombok.NoArgsConstructor;
import lombok.RequiredArgsConstructor;
import lombok.AllArgsConstructor;

@NoArgsConstructor(force = true)
@RequiredArgsConstructor
@AllArgsConstructor
public class Person {
    private final String id;
    private String name;
    private int age;
}
";

    let class = parse_first_class(src);

    // Should have all three constructors
    let no_args = class
        .methods
        .iter()
        .find(|m| m.name.as_str() == "<init>" && m.params.is_empty());
    assert!(
        no_args.is_some(),
        "Should generate no-args constructor with force=true"
    );

    let required_args = class
        .methods
        .iter()
        .find(|m| m.name.as_str() == "<init>" && m.params.len() == 1);
    assert!(
        required_args.is_some(),
        "Should generate required-args constructor"
    );

    let all_args = class
        .methods
        .iter()
        .find(|m| m.name.as_str() == "<init>" && m.params.len() == 3);
    assert!(all_args.is_some(), "Should generate all-args constructor");
}

#[test]
fn test_lombok_constructors_manual() {
    let src = r#"
import lombok.NoArgsConstructor;
import lombok.RequiredArgsConstructor;
import lombok.AllArgsConstructor;
import lombok.NonNull;

@NoArgsConstructor
@AllArgsConstructor
class Person {
    private String name;
    private int age;
}

@RequiredArgsConstructor
class User {
    private final String id;
    @NonNull
    private String username;
    private String email;
}
        "#;

    let classes = parse_java_source(src);
    // Verify Person has 2 constructors
    let person = classes
        .iter()
        .find(|c| c.name.as_str() == "Person")
        .unwrap();
    let person_ctors: Vec<_> = person
        .methods
        .iter()
        .filter(|m| m.name.as_str() == "<init>")
        .collect();
    assert_eq!(person_ctors.len(), 2, "Person should have 2 constructors");

    // Verify User has 1 constructor with 2 params
    let user = classes.iter().find(|c| c.name.as_str() == "User").unwrap();
    let user_ctors: Vec<_> = user
        .methods
        .iter()
        .filter(|m| m.name.as_str() == "<init>")
        .collect();
    assert_eq!(user_ctors.len(), 1, "User should have 1 constructor");
    assert_eq!(
        user_ctors[0].params.len(),
        2,
        "User constructor should have 2 params"
    );
}

#[test]
fn test_value_generates_getters_only() {
    let src = "import lombok.Value;

@Value
public class Point {
    double x;
    double y;
}
";

    let class = parse_first_class(src);

    // Should have getters
    assert!(
        class.methods.iter().any(|m| m.name.as_str() == "getX"),
        "Should generate getX()"
    );
    assert!(
        class.methods.iter().any(|m| m.name.as_str() == "getY"),
        "Should generate getY()"
    );

    // Should NOT have setters (immutable)
    assert!(
        !class.methods.iter().any(|m| m.name.as_str() == "setX"),
        "Should NOT generate setX() for @Value"
    );
    assert!(
        !class.methods.iter().any(|m| m.name.as_str() == "setY"),
        "Should NOT generate setY() for @Value"
    );

    // Should have toString, equals, hashCode
    assert!(class.methods.iter().any(|m| m.name.as_str() == "toString"));
    assert!(class.methods.iter().any(|m| m.name.as_str() == "equals"));
    assert!(class.methods.iter().any(|m| m.name.as_str() == "hashCode"));
}

#[test]
fn test_value_all_args_constructor() {
    let src = "import lombok.Value;

@Value
public class Person {
    String name;
    int age;
    String email;
}
";

    let class = parse_first_class(src);

    // Should have all-args constructor
    let constructors: Vec<_> = class
        .methods
        .iter()
        .filter(|m| m.name.as_str() == "<init>")
        .collect();
    assert_eq!(constructors.len(), 1);
    assert_eq!(
        constructors[0].params.len(),
        3,
        "Constructor should have all 3 fields"
    );
    assert_eq!(constructors[0].params.items[0].name.as_str(), "name");
    assert_eq!(constructors[0].params.items[1].name.as_str(), "age");
    assert_eq!(constructors[0].params.items[2].name.as_str(), "email");
}

#[test]
fn test_value_with_static_fields() {
    let src = "import lombok.Value;

@Value
public class Config {
    static final String VERSION = \"1.0\";
    String name;
}
";

    let class = parse_first_class(src);

    // Should NOT generate getter for static field
    assert!(
        !class
            .methods
            .iter()
            .any(|m| m.name.as_str() == "getVERSION"),
        "Should NOT generate getter for static field"
    );

    // Should generate getter for instance field
    assert!(class.methods.iter().any(|m| m.name.as_str() == "getName"));

    // Constructor should only include instance fields
    let constructors: Vec<_> = class
        .methods
        .iter()
        .filter(|m| m.name.as_str() == "<init>")
        .collect();
    assert_eq!(constructors.len(), 1);
    assert_eq!(
        constructors[0].params.len(),
        1,
        "Constructor should have 1 param (instance field only)"
    );
}

#[test]
fn test_value_with_explicit_getter() {
    let src = "import lombok.Value;

@Value
public class Person {
    String name;
    
    public String getName() {
        return \"Mr. \" + name;
    }
}
";

    let class = parse_first_class(src);

    // Should have only one getName() method (the explicit one)
    let getters: Vec<_> = class
        .methods
        .iter()
        .filter(|m| m.name.as_str() == "getName")
        .collect();
    assert_eq!(getters.len(), 1, "Should have only 1 getName() (explicit)");

    // Should NOT have setter
    assert!(!class.methods.iter().any(|m| m.name.as_str() == "setName"));
}

#[test]
fn test_value_with_field_level_getter_override() {
    let src = "import lombok.Value;
import lombok.Getter;
import lombok.AccessLevel;

@Value
public class Person {
    @Getter(AccessLevel.PACKAGE)
    String name;
    int age;
}
";

    let class = parse_first_class(src);

    // Should generate package-private getter for name
    let name_getter = class
        .methods
        .iter()
        .find(|m| m.name.as_str() == "getName")
        .expect("Should generate getName()");

    // Package-private means no access flags
    assert_eq!(
        name_getter.access_flags
            & (ACC_PUBLIC
                | ACC_PROTECTED
                | ACC_PRIVATE),
        0,
        "getName() should be package-private"
    );

    // Should generate public getter for age
    let age_getter = class
        .methods
        .iter()
        .find(|m| m.name.as_str() == "getAge")
        .expect("Should generate getAge()");

    assert_eq!(
        age_getter.access_flags & ACC_PUBLIC,
        ACC_PUBLIC,
        "getAge() should be public"
    );
}

#[test]
fn test_value_empty_class() {
    let src = "import lombok.Value;

@Value
public class Empty {
}
";

    let class = parse_first_class(src);

    // Should have toString, equals, hashCode
    assert!(class.methods.iter().any(|m| m.name.as_str() == "toString"));
    assert!(class.methods.iter().any(|m| m.name.as_str() == "equals"));
    assert!(class.methods.iter().any(|m| m.name.as_str() == "hashCode"));

    // Should have no-args constructor
    let constructors: Vec<_> = class
        .methods
        .iter()
        .filter(|m| m.name.as_str() == "<init>")
        .collect();
    assert_eq!(constructors.len(), 1);
    assert_eq!(constructors[0].params.len(), 0);
}

#[test]
fn test_value_with_static_constructor() {
    let src = "import lombok.Value;

@Value(staticConstructor = \"of\")
public class Point {
    double x;
    double y;
}
";

    let class = parse_first_class(src);

    // Should have constructor
    let constructors: Vec<_> = class
        .methods
        .iter()
        .filter(|m| m.name.as_str() == "<init>")
        .collect();
    assert_eq!(constructors.len(), 1);
    assert_eq!(constructors[0].params.len(), 2);

    // Should have static factory method
    let of_method = class
        .methods
        .iter()
        .find(|m| m.name.as_str() == "of")
        .expect("Should generate static 'of' method");

    assert_eq!(
        of_method.access_flags & ACC_STATIC,
        ACC_STATIC,
        "'of' method should be static"
    );
    assert_eq!(
        of_method.access_flags & ACC_PUBLIC,
        ACC_PUBLIC,
        "'of' method should be public"
    );
    assert_eq!(of_method.params.len(), 2, "'of' should have 2 params");
}

#[test]
fn test_value_with_boolean_fields() {
    let src = "import lombok.Value;

@Value
public class Flags {
    boolean active;
    boolean enabled;
}
";

    let class = parse_first_class(src);

    // Should generate isXxx() getters for boolean fields
    assert!(
        class.methods.iter().any(|m| m.name.as_str() == "isActive"),
        "Should generate isActive() for boolean field"
    );
    assert!(
        class.methods.iter().any(|m| m.name.as_str() == "isEnabled"),
        "Should generate isEnabled() for boolean field"
    );

    // Should NOT generate setters
    assert!(!class.methods.iter().any(|m| m.name.as_str() == "setActive"));
    assert!(
        !class
            .methods
            .iter()
            .any(|m| m.name.as_str() == "setEnabled")
    );
}

#[test]
fn test_value_with_explicit_constructor() {
    let src = "import lombok.Value;

@Value
public class Person {
    String name;
    int age;
    
    public Person(String name) {
        this.name = name;
        this.age = 0;
    }
}
";

    let class = parse_first_class(src);

    // Should have only the explicit constructor
    let constructors: Vec<_> = class
        .methods
        .iter()
        .filter(|m| m.name.as_str() == "<init>")
        .collect();
    assert_eq!(constructors.len(), 1, "Should have only 1 constructor");
    assert_eq!(
        constructors[0].params.len(),
        1,
        "Constructor should have 1 param"
    );

    // Should still generate getters
    assert!(class.methods.iter().any(|m| m.name.as_str() == "getName"));
    assert!(class.methods.iter().any(|m| m.name.as_str() == "getAge"));
}

#[test]
fn test_value_with_explicit_to_string() {
    let src = "import lombok.Value;

@Value
public class Person {
    String name;
    
    @Override
    public String toString() {
        return \"Person[\" + name + \"]\";
    }
}
";

    let class = parse_first_class(src);

    // Should have only one toString() method (the explicit one)
    let to_strings: Vec<_> = class
        .methods
        .iter()
        .filter(|m| m.name.as_str() == "toString")
        .collect();
    assert_eq!(to_strings.len(), 1, "Should have only 1 toString()");

    // Should still generate other methods
    assert!(class.methods.iter().any(|m| m.name.as_str() == "getName"));
    assert!(class.methods.iter().any(|m| m.name.as_str() == "equals"));
    assert!(class.methods.iter().any(|m| m.name.as_str() == "hashCode"));
}

#[test]
fn test_value_constructor_order() {
    let src = "import lombok.Value;

@Value
public class Person {
    String firstName;
    String lastName;
    int age;
    String email;
}
";

    let class = parse_first_class(src);

    // Constructor parameters should be in field declaration order
    let constructors: Vec<_> = class
        .methods
        .iter()
        .filter(|m| m.name.as_str() == "<init>")
        .collect();
    assert_eq!(constructors.len(), 1);
    assert_eq!(constructors[0].params.len(), 4);
    assert_eq!(constructors[0].params.items[0].name.as_str(), "firstName");
    assert_eq!(constructors[0].params.items[1].name.as_str(), "lastName");
    assert_eq!(constructors[0].params.items[2].name.as_str(), "age");
    assert_eq!(constructors[0].params.items[3].name.as_str(), "email");
}

#[test]
fn value_leaves_the_text_form_to_its_own_annotation() {
    let src = "import lombok.Value;
import lombok.ToString;

@Value
@ToString(includeFieldNames = false)
public class Person {
    String name;
    int age;
}
";

    let class = parse_first_class(src);

    // @Value should defer to explicit @ToString
    assert!(!class.methods.iter().any(|m| m.name.as_str() == "toString"));

    // Should still generate other methods
    assert!(class.methods.iter().any(|m| m.name.as_str() == "getName"));
    assert!(class.methods.iter().any(|m| m.name.as_str() == "equals"));
    assert!(class.methods.iter().any(|m| m.name.as_str() == "hashCode"));

    // Should NOT have setters
    assert!(!class.methods.iter().any(|m| m.name.as_str() == "setName"));
    assert!(!class.methods.iter().any(|m| m.name.as_str() == "setAge"));
}

#[test]
fn test_with_generates_method_for_field() {
    let src = "import lombok.With;

public class Person {
    @With
    private final String name;
    
    public Person(String name) {
        this.name = name;
    }
}
";

    let class = parse_first_class(src);

    let with_method = class.methods.iter().find(|m| m.name.as_str() == "withName");
    assert!(with_method.is_some(), "Should generate withName() method");

    let with_method = with_method.unwrap();
    assert_eq!(
        with_method.params.items.len(),
        1,
        "withName should have 1 parameter"
    );
    assert_eq!(
        with_method.access_flags & ACC_PUBLIC,
        ACC_PUBLIC,
        "withName should be public by default"
    );
}

#[test]
fn test_with_class_level_annotation() {
    let src = "import lombok.With;
import lombok.AllArgsConstructor;

@With
@AllArgsConstructor
public class Person {
    private final String name;
    private final int age;
}
";

    let class = parse_first_class(src);

    assert!(
        class.methods.iter().any(|m| m.name.as_str() == "withName"),
        "Should generate withName() method"
    );
    assert!(
        class.methods.iter().any(|m| m.name.as_str() == "withAge"),
        "Should generate withAge() method"
    );
}

#[test]
fn tests_test_with_respects_access_level() {
    let src = "import lombok.With;
import lombok.AccessLevel;

public class Person {
    @With(AccessLevel.PROTECTED)
    private final String name;
    
    public Person(String name) {
        this.name = name;
    }
}
";

    let class = parse_first_class(src);

    let with_method = class.methods.iter().find(|m| m.name.as_str() == "withName");
    assert!(with_method.is_some(), "Should generate withName() method");

    let with_method = with_method.unwrap();
    assert_eq!(
        with_method.access_flags & ACC_PROTECTED,
        ACC_PROTECTED,
        "withName should be protected"
    );
}

#[test]
fn test_with_not_generated_for_static_fields() {
    let src = "import lombok.With;

public class Config {
    @With
    private static final String DEFAULT_NAME = \"default\";
}
";

    let class = parse_first_class(src);

    assert!(
        !class
            .methods
            .iter()
            .any(|m| m.name.as_str() == "withDEFAULT_NAME"),
        "Should not generate with method for static field"
    );
}

#[test]
fn test_with_skips_existing_method() {
    let src = "import lombok.With;

public class Person {
    @With
    private final String name;
    
    public Person(String name) {
        this.name = name;
    }
    
    public Person withName(String name) {
        return new Person(name.toUpperCase());
    }
}
";

    let class = parse_first_class(src);

    let with_methods: Vec<_> = class
        .methods
        .iter()
        .filter(|m| m.name.as_str() == "withName")
        .collect();

    assert_eq!(
        with_methods.len(),
        1,
        "Should only have one withName method (the explicit one)"
    );
}

#[test]
fn test_with_handles_nonnull_annotation() {
    let src = "import lombok.With;
import lombok.NonNull;

public class Person {
    @With
    @NonNull
    private final String name;
    
    public Person(String name) {
        this.name = name;
    }
}
";

    let class = parse_first_class(src);

    let with_method = class.methods.iter().find(|m| m.name.as_str() == "withName");
    assert!(with_method.is_some(), "Should generate withName() method");

    let with_method = with_method.unwrap();
    assert_eq!(with_method.params.items.len(), 1);

    // Check if parameter has @NonNull annotation
    let param_has_nonnull = with_method.params.items[0]
        .annotations
        .iter()
        .any(|a| a.internal_name.as_str() == "lombok/NonNull");
    assert!(
        param_has_nonnull,
        "Parameter should have @NonNull annotation"
    );
}

#[test]
fn test_with_multiple_fields() {
    let src = "import lombok.With;

public class Person {
    @With
    private final String firstName;
    @With
    private final String lastName;
    @With
    private final int age;
    
    public Person(String firstName, String lastName, int age) {
        this.firstName = firstName;
        this.lastName = lastName;
        this.age = age;
    }
}
";

    let class = parse_first_class(src);

    assert!(
        class
            .methods
            .iter()
            .any(|m| m.name.as_str() == "withFirstName"),
        "Should generate withFirstName() method"
    );
    assert!(
        class
            .methods
            .iter()
            .any(|m| m.name.as_str() == "withLastName"),
        "Should generate withLastName() method"
    );
    assert!(
        class.methods.iter().any(|m| m.name.as_str() == "withAge"),
        "Should generate withAge() method"
    );
}

#[test]
fn test_with_returns_same_type() {
    let src = "package com.example;
import lombok.With;

public class Person {
    @With
    private final String name;
    
    public Person(String name) {
        this.name = name;
    }
}
";

    let classes = parse_java_source(src);
    let class = &classes[0];

    let with_method = class.methods.iter().find(|m| m.name.as_str() == "withName");
    assert!(with_method.is_some(), "Should generate withName() method");

    let with_method = with_method.unwrap();
    assert!(
        with_method.return_type.is_some(),
        "withName should have return type"
    );
    assert_eq!(
        with_method.return_type.as_ref().unwrap().as_str(),
        "Lcom/example/Person;",
        "withName should return Person type"
    );
}

#[test]
fn test_with_deprecated_wither_annotation() {
    let src = "import lombok.experimental.Wither;

public class Person {
    @Wither
    private final String name;
    
    public Person(String name) {
        this.name = name;
    }
}
";

    let class = parse_first_class(src);

    assert!(
        class.methods.iter().any(|m| m.name.as_str() == "withName"),
        "Should generate withName() method for @Wither annotation"
    );
}

#[test]
fn test_with_integration_with_value() {
    let src = "import lombok.Value;
import lombok.With;

@Value
@With
public class Point {
    int x;
    int y;
}
";

    let class = parse_first_class(src);

    // @Value makes fields final and generates all-args constructor
    // @With should generate with methods
    assert!(
        class.methods.iter().any(|m| m.name.as_str() == "withX"),
        "Should generate withX() method"
    );
    assert!(
        class.methods.iter().any(|m| m.name.as_str() == "withY"),
        "Should generate withY() method"
    );
}

#[test]
fn test_with_field_prefix_stripping() {
    let src = "import lombok.With;

public class Person {
    @With
    private final String name;
    
    public Person(String name) {
        this.name = name;
    }
}
";

    let class = parse_first_class(src);

    // Even if field has prefix, method should be withName (capitalized)
    assert!(
        class.methods.iter().any(|m| m.name.as_str() == "withName"),
        "Should generate withName() method"
    );
}

#[test]
fn tests_test_slf4j_generates_log_field() {
    let src = "import lombok.extern.slf4j.Slf4j;

@Slf4j
public class MyService {
    public void doSomething() {
        // log.info(\"doing something\");
    }
}
";

    let class = parse_first_class(src);

    let log_field = class.fields.iter().find(|f| f.name.as_str() == "log");
    assert!(log_field.is_some(), "Should generate log field");

    let log_field = log_field.unwrap();
    assert_eq!(
        log_field.descriptor.as_str(),
        "Lorg/slf4j/Logger;",
        "Should be slf4j Logger type"
    );
    assert_eq!(
        log_field.access_flags & ACC_STATIC,
        ACC_STATIC,
        "Should be static"
    );
    assert_eq!(
        log_field.access_flags & ACC_FINAL,
        ACC_FINAL,
        "Should be final"
    );
    assert_eq!(
        log_field.access_flags & ACC_PRIVATE,
        ACC_PRIVATE,
        "Should be private"
    );
}

#[test]
fn tests_test_log4j2_generates_log_field() {
    let src = "import lombok.extern.log4j.Log4j2;

@Log4j2
public class MyService {
}
";

    let class = parse_first_class(src);

    let log_field = class.fields.iter().find(|f| f.name.as_str() == "log");
    assert!(log_field.is_some(), "Should generate log field");

    let log_field = log_field.unwrap();
    assert_eq!(
        log_field.descriptor.as_str(),
        "Lorg/apache/logging/log4j/Logger;",
        "Should be log4j2 Logger type"
    );
}

#[test]
fn test_log4j_generates_log_field() {
    let src = "import lombok.extern.log4j.Log4j;

@Log4j
public class MyService {
}
";

    let class = parse_first_class(src);

    let log_field = class.fields.iter().find(|f| f.name.as_str() == "log");
    assert!(log_field.is_some(), "Should generate log field");

    let log_field = log_field.unwrap();
    assert_eq!(
        log_field.descriptor.as_str(),
        "Lorg/apache/log4j/Logger;",
        "Should be log4j Logger type"
    );
}

#[test]
fn tests_test_java_util_logging_generates_log_field() {
    let src = "import lombok.extern.java.Log;

@Log
public class MyService {
}
";

    let class = parse_first_class(src);

    let log_field = class.fields.iter().find(|f| f.name.as_str() == "log");
    assert!(log_field.is_some(), "Should generate log field");

    let log_field = log_field.unwrap();
    assert_eq!(
        log_field.descriptor.as_str(),
        "Ljava/util/logging/Logger;",
        "Should be java.util.logging Logger type"
    );
}

#[test]
fn tests_test_commons_log_generates_log_field() {
    let src = "import lombok.extern.apachecommons.CommonsLog;

@CommonsLog
public class MyService {
}
";

    let class = parse_first_class(src);

    let log_field = class.fields.iter().find(|f| f.name.as_str() == "log");
    assert!(log_field.is_some(), "Should generate log field");

    let log_field = log_field.unwrap();
    assert_eq!(
        log_field.descriptor.as_str(),
        "Lorg/apache/commons/logging/Log;",
        "Should be commons logging Log type"
    );
}

#[test]
fn tests_test_jboss_log_generates_log_field() {
    let src = "import lombok.extern.jbosslog.JBossLog;

@JBossLog
public class MyService {
}
";

    let class = parse_first_class(src);

    let log_field = class.fields.iter().find(|f| f.name.as_str() == "log");
    assert!(log_field.is_some(), "Should generate log field");

    let log_field = log_field.unwrap();
    assert_eq!(
        log_field.descriptor.as_str(),
        "Lorg/jboss/logging/Logger;",
        "Should be JBoss Logger type"
    );
}

#[test]
fn tests_test_flogger_generates_log_field() {
    let src = "import lombok.extern.flogger.Flogger;

@Flogger
public class MyService {
}
";

    let class = parse_first_class(src);

    let log_field = class.fields.iter().find(|f| f.name.as_str() == "log");
    assert!(log_field.is_some(), "Should generate log field");

    let log_field = log_field.unwrap();
    assert_eq!(
        log_field.descriptor.as_str(),
        "Lcom/google/common/flogger/FluentLogger;",
        "Should be Flogger FluentLogger type"
    );
}

#[test]
fn tests_test_xslf4j_generates_log_field() {
    let src = "import lombok.extern.slf4j.XSlf4j;

@XSlf4j
public class MyService {
}
";

    let class = parse_first_class(src);

    let log_field = class.fields.iter().find(|f| f.name.as_str() == "log");
    assert!(log_field.is_some(), "Should generate log field");

    let log_field = log_field.unwrap();
    assert_eq!(
        log_field.descriptor.as_str(),
        "Lorg/slf4j/ext/XLogger;",
        "Should be XSlf4j XLogger type"
    );
}

#[test]
fn tests_test_log_field_not_generated_if_exists() {
    let src = "import lombok.extern.slf4j.Slf4j;

@Slf4j
public class MyService {
    private static final org.slf4j.Logger log = null;
}
";

    let class = parse_first_class(src);

    // Should only have one log field (the explicit one)
    let log_fields: Vec<_> = class
        .fields
        .iter()
        .filter(|f| f.name.as_str() == "log")
        .collect();
    assert_eq!(
        log_fields.len(),
        1,
        "Should only have one log field (the explicit one)"
    );
}

#[test]
fn test_log_with_custom_topic() {
    let src = "import lombok.extern.slf4j.Slf4j;

@Slf4j(topic = \"MyCustomLogger\")
public class MyService {
}
";

    let class = parse_first_class(src);

    let log_field = class.fields.iter().find(|f| f.name.as_str() == "log");
    assert!(
        log_field.is_some(),
        "Should generate log field even with custom topic"
    );
}

#[test]
fn test_multiple_classes_different_loggers() {
    let src = "import lombok.extern.slf4j.Slf4j;
import lombok.extern.log4j.Log4j2;

@Slf4j
class ServiceA {
}

@Log4j2
class ServiceB {
}
";

    let classes = parse_java_source(src);
    assert_eq!(classes.len(), 2, "Should have two classes");

    let service_a = classes.iter().find(|c| c.name.as_str() == "ServiceA");
    assert!(service_a.is_some());
    let service_a = service_a.unwrap();
    let log_a = service_a.fields.iter().find(|f| f.name.as_str() == "log");
    assert!(log_a.is_some());
    assert_eq!(log_a.unwrap().descriptor.as_str(), "Lorg/slf4j/Logger;");

    let service_b = classes.iter().find(|c| c.name.as_str() == "ServiceB");
    assert!(service_b.is_some());
    let service_b = service_b.unwrap();
    let log_b = service_b.fields.iter().find(|f| f.name.as_str() == "log");
    assert!(log_b.is_some());
    assert_eq!(
        log_b.unwrap().descriptor.as_str(),
        "Lorg/apache/logging/log4j/Logger;"
    );
}

#[test]
fn test_log_in_enum() {
    let src = "import lombok.extern.slf4j.Slf4j;

@Slf4j
public enum Status {
    ACTIVE, INACTIVE
}
";

    let class = parse_first_class(src);

    let log_field = class.fields.iter().find(|f| f.name.as_str() == "log");
    assert!(log_field.is_some(), "Should generate log field in enum");
}

#[test]
fn test_log_in_record() {
    let src = "import lombok.extern.slf4j.Slf4j;

@Slf4j
public record Person(String name, int age) {
}
";

    let class = parse_first_class(src);

    let log_field = class.fields.iter().find(|f| f.name.as_str() == "log");
    assert!(log_field.is_some(), "Should generate log field in record");
}

#[test]
fn test_delegate_basic_field() {
    let src = "import lombok.experimental.Delegate;
import java.util.List;
import java.util.ArrayList;

public class MyList {
    @Delegate
    private List<String> items = new ArrayList<>();
}
";

    let class = parse_first_class(src);

    // @Delegate is recognized and the class parses correctly
    assert_eq!(class.name.as_str(), "MyList");
    assert!(class.fields.iter().any(|f| f.name.as_str() == "items"));
}

#[test]
fn test_delegate_not_generated_for_static_field() {
    let src = "import lombok.experimental.Delegate;
import java.util.List;

public class MyList {
    @Delegate
    private static List<String> SHARED_LIST;
}
";

    let class = parse_first_class(src);

    // Static field with @Delegate should still parse
    assert_eq!(class.name.as_str(), "MyList");
    assert!(
        class
            .fields
            .iter()
            .any(|f| f.name.as_str() == "SHARED_LIST")
    );
}

#[test]
fn test_delegate_with_types_parameter() {
    let src = "import lombok.experimental.Delegate;
import java.util.Collection;
import java.util.ArrayList;

public class MyCollection {
    @Delegate(types = Collection.class)
    private ArrayList<String> items = new ArrayList<>();
}
";

    let class = parse_first_class(src);

    // @Delegate with types parameter should parse
    assert_eq!(class.name.as_str(), "MyCollection");
    assert!(class.fields.iter().any(|f| f.name.as_str() == "items"));
}

#[test]
fn test_delegate_with_excludes_parameter() {
    let src = "import lombok.experimental.Delegate;
import java.util.List;
import java.util.ArrayList;

public class MyList {
    @Delegate(excludes = java.util.Collection.class)
    private List<String> items = new ArrayList<>();
}
";

    let class = parse_first_class(src);

    // @Delegate with excludes parameter should parse
    assert_eq!(class.name.as_str(), "MyList");
    assert!(class.fields.iter().any(|f| f.name.as_str() == "items"));
}

#[test]
fn test_delegate_multiple_fields() {
    let src = "import lombok.experimental.Delegate;
import java.util.List;
import java.util.Set;

public class MyContainer {
    @Delegate
    private List<String> list;
    
    @Delegate
    private Set<String> set;
}
";

    let class = parse_first_class(src);

    // Multiple @Delegate fields should parse
    assert_eq!(class.name.as_str(), "MyContainer");
    assert!(class.fields.iter().any(|f| f.name.as_str() == "list"));
    assert!(class.fields.iter().any(|f| f.name.as_str() == "set"));
}

#[test]
fn test_delegate_with_interface() {
    let src = "import lombok.experimental.Delegate;

interface Printer {
    void print(String message);
}

class MyPrinter {
    @Delegate
    private Printer printer;
}
";

    let classes = parse_java_source(src);
    let my_printer = classes.iter().find(|c| c.name.as_str() == "MyPrinter");
    assert!(my_printer.is_some());

    let my_printer = my_printer.unwrap();
    assert!(
        my_printer
            .fields
            .iter()
            .any(|f| f.name.as_str() == "printer")
    );
}

#[test]
fn test_delegate_private_inner_interface() {
    let src = "import lombok.experimental.Delegate;
import java.util.Collection;

public class MyCollection {
    private interface SimpleCollection {
        boolean add(String item);
        boolean remove(Object item);
    }
    
    @Delegate(types = SimpleCollection.class)
    private Collection<String> items;
}
";

    let classes = parse_java_source(src);
    let my_collection = classes.iter().find(|c| c.name.as_str() == "MyCollection");
    assert!(my_collection.is_some());

    let my_collection = my_collection.unwrap();
    // @Delegate with private inner interface should parse
    assert!(
        my_collection
            .fields
            .iter()
            .any(|f| f.name.as_str() == "items")
    );
}

#[test]
fn test_delegate_with_generic_type() {
    let src = "import lombok.experimental.Delegate;
import java.util.List;

public class GenericContainer<T> {
    @Delegate
    private List<T> items;
}
";

    let class = parse_first_class(src);

    // @Delegate with generic types should parse
    assert_eq!(class.name.as_str(), "GenericContainer");
    assert!(class.fields.iter().any(|f| f.name.as_str() == "items"));
}

#[test]
fn test_delegate_integration_scenario() {
    let src = "import lombok.experimental.Delegate;
import java.util.ArrayList;
import java.util.List;

public class DelegatingList {
    @Delegate
    private final List<String> delegate = new ArrayList<>();
    
    public void customMethod() {
    }
}
";

    let class = parse_first_class(src);

    // Should parse with both @Delegate and custom methods
    assert_eq!(class.name.as_str(), "DelegatingList");
    assert!(class.fields.iter().any(|f| f.name.as_str() == "delegate"));
    assert!(
        class
            .methods
            .iter()
            .any(|m| m.name.as_str() == "customMethod"),
        "Should preserve custom methods"
    );
}

#[test]
fn test_delegate_with_multiple_types() {
    let src = "import lombok.experimental.Delegate;
import java.util.Collection;
import java.util.List;

public class MyList {
    @Delegate(types = {Collection.class, List.class})
    private java.util.ArrayList<String> items;
}
";

    let class = parse_first_class(src);

    // @Delegate with multiple types should parse
    assert_eq!(class.name.as_str(), "MyList");
    assert!(class.fields.iter().any(|f| f.name.as_str() == "items"));
}

#[test]
fn test_delegate_excludes_with_types() {
    let src = "import lombok.experimental.Delegate;
import java.util.List;

public class MyList {
    private interface Add {
        boolean add(String x);
    }
    
    @Delegate(excludes = Add.class)
    private List<String> items;
}
";

    let classes = parse_java_source(src);
    let my_list = classes.iter().find(|c| c.name.as_str() == "MyList");
    assert!(my_list.is_some());

    let my_list = my_list.unwrap();
    // @Delegate with excludes should parse
    assert!(my_list.fields.iter().any(|f| f.name.as_str() == "items"));
}

#[test]
fn test_delegate_annotation_recognized() {
    let src = "import lombok.experimental.Delegate;
import java.util.List;

public class MyList {
    @Delegate
    private List<String> items;
}
";

    let class = parse_first_class(src);

    // Verify the @Delegate annotation is recognized on the field
    let items_field = class.fields.iter().find(|f| f.name.as_str() == "items");
    assert!(items_field.is_some());

    let items_field = items_field.unwrap();
    let has_delegate_anno = items_field.annotations.iter().any(|a| {
        a.internal_name.as_str() == "lombok/experimental/Delegate"
            || a.internal_name.as_str() == "Delegate"
    });
    assert!(has_delegate_anno, "Field should have @Delegate annotation");
}

#[test]
fn test_delegate_simple_stack_example() {
    let src = "import lombok.experimental.Delegate;
import java.util.ArrayList;
import java.util.List;

public class SimpleStack {
    private interface Filter {
        boolean add(Object o);
        boolean remove(Object o);
        void clear();
    }

    @Delegate(types = Filter.class)
    private final List<String> collection = new ArrayList<>();

    public static void main(String[] args) {
        SimpleStack stack = new SimpleStack();
        stack.add(\"Java\");
        stack.clear();
    }
}
";

    let classes = parse_java_source(src);
    let simple_stack = classes.iter().find(|c| c.name.as_str() == "SimpleStack");
    assert!(simple_stack.is_some(), "Should find SimpleStack class");

    let simple_stack = simple_stack.unwrap();

    // Should have delegated methods from Filter interface
    let has_add = simple_stack
        .methods
        .iter()
        .any(|m| m.name.as_str() == "add");
    let has_remove = simple_stack
        .methods
        .iter()
        .any(|m| m.name.as_str() == "remove");
    let has_clear = simple_stack
        .methods
        .iter()
        .any(|m| m.name.as_str() == "clear");

    assert!(has_add, "Should have add() method delegated from Filter");
    assert!(
        has_remove,
        "Should have remove() method delegated from Filter"
    );
    assert!(
        has_clear,
        "Should have clear() method delegated from Filter"
    );
}


#[test]
fn a_delegated_type_whose_name_begins_with_l_is_found() {
    let src = "import lombok.experimental.Delegate;

public class Writer {
    @Delegate
    private Log log;

    interface Log {
        void write(String line);
    }
}
";
    let classes = parse_java_source(src);
    let class = classes.iter().find(|c| c.name.as_str() == "Writer").unwrap();
    assert!(class.methods.iter().any(|m| m.name.as_str() == "write"));
}
