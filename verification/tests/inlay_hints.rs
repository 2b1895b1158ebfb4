//! Hints between the characters of a text, and types that conditions narrow.
use java_analyzer::extractor::JavaContextExtractor;
use java_analyzer::flow::extract_instanceof_true_branch_overrides;
use java_analyzer::inlay_hints::{
    collect_java_inlay_hints, InlayContext, InlayFacts, InlayLocal, JavaInlayHint,
    JavaInlayHintKind, JavaInvocationSite, ResolvedCall,
};
use java_analyzer::type_facts::{LocalVar, LocalVarDeclKind, TypeFacts};
use java_analyzer::type_names::TypeName;

fn local(name: &str, ty: &str, decl_kind: LocalVarDeclKind) -> LocalVar {
    LocalVar {
        name: name.to_string(),
        type_internal: TypeName::new(ty),
        init_expr: None,
        decl_kind,
    }
}

fn shown(name: &str, ty: &str, rendered: &str, decl_kind: LocalVarDeclKind) -> InlayLocal {
    InlayLocal {
        local: local(name, ty, decl_kind),
        rendered: rendered.to_string(),
    }
}

const SOURCE: &str = "class A { void f(int count) { var x = g(1, count); var y = h(); int z = 0; } }";

fn facts() -> InlayFacts {
    let after_x = SOURCE.find("x =").unwrap() + 1;
    let after_y = SOURCE.find("y =").unwrap() + 1;
    InlayFacts {
        contexts: vec![
            InlayContext {
                offset: after_x,
                locals: vec![
                    shown("x", "int", "old", LocalVarDeclKind::Explicit),
                    shown("x", "java/lang/String", "String", LocalVarDeclKind::Explicit),
                ],
            },
            InlayContext {
                offset: after_y,
                locals: vec![shown("y", "var", "var", LocalVarDeclKind::VarSyntax)],
            },
        ],
        calls: vec![ResolvedCall {
            offset: SOURCE.find("(1").unwrap() + 1,
            site: JavaInvocationSite::Method {
                receiver_expr: "this".to_string(),
                method_name: "g".to_string(),
                arg_texts: vec!["1".to_string(), "count".to_string()],
            },
            parameter_names: vec![Some("first".to_string()), Some("count".to_string())],
        }],
    }
}

#[test]
fn hints_show_types_of_var_variables_and_names_of_parameters() {
    let ctx = JavaContextExtractor::new(SOURCE, 0);
    let hints = collect_java_inlay_hints(&ctx, &facts(), 0, 0, SOURCE.len());
    assert_eq!(
        hints,
        vec![
            JavaInlayHint {
                offset: SOURCE.find("x =").unwrap() + 1,
                label: ": String".to_string(),
                kind: JavaInlayHintKind::Type,
            },
            JavaInlayHint {
                offset: SOURCE.find("1, count").unwrap(),
                label: "first:".to_string(),
                kind: JavaInlayHintKind::Parameter,
            },
        ]
    );
}

#[test]
fn hints_come_in_the_order_of_their_positions() {
    let source = "class A { void f() { g(() -> { var x = 1; }); } }";
    let ctx = JavaContextExtractor::new(source, 0);
    let name_end = source.find("x =").unwrap() + 1;
    let facts = InlayFacts {
        contexts: vec![InlayContext {
            offset: name_end,
            locals: vec![shown("x", "int", "int", LocalVarDeclKind::Explicit)],
        }],
        calls: vec![ResolvedCall {
            offset: source.find("(() ->").unwrap() + 1,
            site: JavaInvocationSite::Method {
                receiver_expr: "this".to_string(),
                method_name: "g".to_string(),
                arg_texts: vec!["() -> { var x = 1; }".to_string()],
            },
            parameter_names: vec![Some("task".to_string())],
        }],
    };
    let hints = collect_java_inlay_hints(&ctx, &facts, 0, 0, source.len());
    let labels: Vec<&str> = hints.iter().map(|h| h.label.as_str()).collect();
    assert_eq!(labels, vec!["task:", ": int"]);
}

#[test]
fn hints_outside_of_the_range_are_left_out() {
    let ctx = JavaContextExtractor::new(SOURCE, 0);
    let from = SOURCE.find("g(1").unwrap();
    let hints = collect_java_inlay_hints(&ctx, &facts(), 0, from, SOURCE.len());
    assert_eq!(hints.len(), 1);
    assert_eq!(hints[0].label, "first:");
    assert!(collect_java_inlay_hints(&ctx, &facts(), 0, 0, 5).is_empty());
}

#[test]
fn hints_for_created_objects_name_the_constructor() {
    let source = "class A { Object o = new B(7); }";
    let ctx = JavaContextExtractor::new(source, 0);
    let facts = InlayFacts {
        contexts: vec![],
        calls: vec![ResolvedCall {
            offset: source.find("(7").unwrap() + 1,
            site: JavaInvocationSite::Constructor {
                call_text: "new B(7)".to_string(),
                arg_texts: vec!["7".to_string()],
            },
            parameter_names: vec![Some("size".to_string())],
        }],
    };
    let hints = collect_java_inlay_hints(&ctx, &facts, 0, 0, source.len());
    assert_eq!(hints.len(), 1);
    assert_eq!(hints[0].label, "size:");
    assert_eq!(hints[0].offset, source.find('7').unwrap());
}

const NARROWED: &str = "class A { void f(Object o, Object p) {
    if (o instanceof Outer) {
        if (o instanceof String) {
            use(o);
        } else {
            miss(o);
        }
    }
} }";

fn narrowed_at(marker: &str, names: &[&str]) -> Vec<(String, String)> {
    let offset = NARROWED.find(marker).unwrap();
    let ctx = JavaContextExtractor::new(NARROWED, offset);
    let mut facts = TypeFacts::new();
    facts
        .relaxed_types
        .insert("String".to_string(), TypeName::new("java/lang/String"));
    facts
        .relaxed_types
        .insert("Outer".to_string(), TypeName::new("pkg/Outer"));
    let locals: Vec<LocalVar> = names
        .iter()
        .map(|n| local(n, "java/lang/Object", LocalVarDeclKind::Explicit))
        .collect();
    let map = extract_instanceof_true_branch_overrides(
        &ctx,
        ctx.find_cursor_node(),
        &facts,
        &locals,
    );
    ["o", "p"]
        .iter()
        .filter_map(|n| map.get(n).map(|t| (n.to_string(), t.base.clone())))
        .collect()
}

fn told(name: &str, ty: &str) -> Vec<(String, String)> {
    vec![(name.to_string(), ty.to_string())]
}

#[test]
fn the_innermost_condition_narrows() {
    assert_eq!(narrowed_at("use(", &["o", "p"]), told("o", "java/lang/String"));
}

#[test]
fn the_other_branch_is_not_narrowed() {
    assert_eq!(narrowed_at("miss(", &["o"]), told("o", "pkg/Outer"));
}

#[test]
fn only_local_variables_are_narrowed() {
    assert_eq!(narrowed_at("use(", &["p"]), vec![]);
    assert_eq!(narrowed_at("void f", &["o"]), vec![]);
}

#[test]
fn hints_at_one_position_keep_their_order() {
    let source = "class A { void f() { g(h(1)); } }";
    let ctx = JavaContextExtractor::new(source, 0);
    let site = |name: &str, arg: &str| JavaInvocationSite::Method {
        receiver_expr: "this".to_string(),
        method_name: name.to_string(),
        arg_texts: vec![arg.to_string()],
    };
    let outer = ResolvedCall {
        offset: source.find("(h").unwrap() + 1,
        site: site("g", "h(1)"),
        parameter_names: vec![Some("outer".to_string())],
    };
    let inner = ResolvedCall {
        offset: source.find("(1").unwrap() + 1,
        site: site("h", "1"),
        parameter_names: vec![Some("inner".to_string())],
    };
    let facts = InlayFacts {
        contexts: vec![],
        calls: vec![inner, outer],
    };
    let hints = collect_java_inlay_hints(&ctx, &facts, 0, 0, source.len());
    let labels: Vec<&str> = hints.iter().map(|h| h.label.as_str()).collect();
    assert_eq!(labels, vec!["outer:", "inner:"]);
}

#[test]
fn hints_stand_at_byte_offsets() {
    let source = "class A { /* \u{e9}\u{1f600} */ void f() { var x = g(1); } }";
    let ctx = JavaContextExtractor::new(source, 0);
    let name_end = source.find("x =").unwrap() + 1;
    let argument = source.find("1)").unwrap();
    let facts = InlayFacts {
        contexts: vec![InlayContext {
            offset: name_end,
            locals: vec![shown("x", "int", "int", LocalVarDeclKind::Explicit)],
        }],
        calls: vec![ResolvedCall {
            offset: argument,
            site: JavaInvocationSite::Method {
                receiver_expr: "this".to_string(),
                method_name: "g".to_string(),
                arg_texts: vec!["1".to_string()],
            },
            parameter_names: vec![Some("size".to_string())],
        }],
    };
    let hints = collect_java_inlay_hints(&ctx, &facts, 0, 0, source.len());
    let found: Vec<(usize, &str)> = hints.iter().map(|h| (h.offset, h.label.as_str())).collect();
    assert_eq!(found, vec![(name_end, ": int"), (argument, "size:")]);
    assert!(source[name_end..].starts_with(" = g"));
    let near = collect_java_inlay_hints(&ctx, &facts, 0, argument, source.len());
    assert!(near.iter().any(|h| h.offset == argument));
}
