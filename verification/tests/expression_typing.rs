//! The types of expressions.
use java_analyzer::expression_typing::operators::{
    binary_result_type, choice_result_type, resolve_floating_point_literal_type,
    resolve_integer_literal_type, unary_result_type,
};
use java_analyzer::expression_typing::{
    evaluate_chain, find_matching_angle, resolve_expression_type,
    resolve_expression_type_with_target, resolve_var_init_expr, singleton_descriptor_to_type,
    Expected, Typing,
};
use java_analyzer::index::FieldSummary;
use java_analyzer::promotion::{
    promoted_integral_result, promoted_numeric_result, promoted_shift_result,
    unboxed_primitive_type_name, Numeric,
};
use java_analyzer::type_facts::{CallFact, ChainSegment, TypeFacts};
use java_analyzer::type_names::{same_type, TypeName};

const DEPTH: usize = 32;

fn chars(s: &str) -> Vec<char> {
    s.chars().collect()
}

fn step(name: &str, args: Option<Vec<&str>>) -> ChainSegment {
    ChainSegment {
        name: name.to_string(),
        arg_count: args.as_ref().map(|a| a.len() as i32),
        arg_texts: args
            .unwrap_or_default()
            .into_iter()
            .map(str::to_string)
            .collect(),
    }
}

fn call(receiver: &str, name: &str, args: Vec<(&str, &str)>, result: TypeName) -> CallFact {
    CallFact {
        receiver: TypeName::new(receiver),
        name: name.to_string(),
        arg_count: args.len() as i32,
        arg_types: args.iter().map(|(_, t)| TypeName::new(t)).collect(),
        arg_texts: args.iter().map(|(s, _)| s.to_string()).collect(),
        result,
    }
}

/// A class `Main` with a method `int getInt()`.
fn make_facts() -> TypeFacts {
    let mut facts = TypeFacts::new();
    facts.enclosing = Some("org/cubewhy/Main".to_string());
    facts.calls.push(call(
        "org/cubewhy/Main",
        "getInt",
        vec![],
        TypeName::new("int"),
    ));
    facts
        .chains
        .insert("getInt()".to_string(), vec![step("getInt", Some(vec![]))]);
    facts
}

fn function_type() -> TypeName {
    TypeName::with_args(
        "java/util/function/Function",
        vec![
            TypeName::new("java/lang/String"),
            TypeName::new("java/lang/Integer"),
        ],
    )
}

fn consumer_type() -> TypeName {
    TypeName::with_args(
        "java/util/function/Consumer",
        vec![TypeName::new("java/lang/String")],
    )
}

fn supplier_type() -> TypeName {
    TypeName::with_args(
        "java/util/function/Supplier",
        vec![TypeName::new("java/lang/String")],
    )
}

fn expect(interface: TypeName, arity: usize) -> Expected {
    Expected {
        interface: Some(interface),
        arity: Some(arity),
    }
}

fn known(t: Typing) -> TypeName {
    match t {
        Typing::Known(t) => t,
        other => panic!("{:?}", other),
    }
}

fn type_of(expr: &str, facts: &TypeFacts) -> Option<String> {
    match resolve_expression_type(expr, facts, DEPTH) {
        Typing::Known(t) => Some(format!("{}{}", t.base, "[]".repeat(t.array_dims))),
        _ => None,
    }
}

#[test]
fn test_var_init_expr_cast_and_numeric_promotion_infers_double() {
    let facts = make_facts();
    let expr = chars("(double) getInt() + 1 + 1 * 100");
    let ty = known(resolve_var_init_expr(&expr, &facts, DEPTH));
    assert_eq!(ty.erased_internal(), "double");
}

#[test]
fn test_assignment_expression_type_tracks_lhs() {
    let mut facts = make_facts();
    facts
        .names
        .insert("x".to_string(), TypeName::new("double"));
    let ty = known(resolve_expression_type("x = getInt()", &facts, DEPTH));
    assert_eq!(ty.erased_internal(), "double");
}

#[test]
fn test_lambda_expression_type_uses_expected_functional_target_in_initializer_position() {
    let facts = make_facts();
    let target = expect(function_type(), 1);
    let expr = chars("s -> s.length()");
    let ty = known(resolve_expression_type_with_target(
        &expr, &facts, &target, DEPTH,
    ));
    assert_eq!(ty, function_type());
}

#[test]
fn test_lambda_expression_type_uses_expected_functional_target_in_argument_position() {
    let facts = make_facts();
    let target = expect(function_type(), 1);
    let expr = chars("s -> s.length()");
    let ty = known(resolve_expression_type_with_target(
        &expr, &facts, &target, DEPTH,
    ));
    assert_eq!(ty, function_type());
}

#[test]
fn test_block_bodied_lambda_expression_type_uses_expected_functional_target() {
    let facts = make_facts();
    let target = expect(consumer_type(), 1);
    let expr = chars("value -> { System.out.println(value); }");
    let ty = known(resolve_expression_type_with_target(
        &expr, &facts, &target, DEPTH,
    ));
    assert_eq!(ty, consumer_type());
}

#[test]
fn test_lambda_expression_type_uses_expected_functional_target_in_return_position() {
    let facts = make_facts();
    let target = expect(supplier_type(), 0);
    let expr = chars("() -> \"x\"");
    let ty = known(resolve_expression_type_with_target(
        &expr, &facts, &target, DEPTH,
    ));
    assert_eq!(ty, supplier_type());
}

#[test]
fn test_lambda_expression_type_without_target_stays_conservative() {
    let facts = make_facts();
    let ty = resolve_expression_type("s -> s.length()", &facts, DEPTH);
    assert!(
        matches!(ty, Typing::Unknown),
        "lambda without target should stay unresolved"
    );
}

#[test]
fn lambda_with_another_number_of_parameters_has_no_type() {
    let facts = make_facts();
    let target = expect(function_type(), 1);
    let expr = chars("(a, b) -> a");
    assert_eq!(
        resolve_expression_type_with_target(&expr, &facts, &target, DEPTH),
        Typing::Unknown
    );
}

#[test]
fn literals_have_the_types_of_their_suffixes() {
    let facts = TypeFacts::new();
    assert_eq!(type_of("1_000", &facts).as_deref(), Some("int"));
    assert_eq!(type_of("10L", &facts).as_deref(), Some("long"));
    assert_eq!(type_of("0x1fl", &facts).as_deref(), Some("long"));
    assert_eq!(type_of("1.5", &facts).as_deref(), Some("double"));
    assert_eq!(type_of("1.5f", &facts).as_deref(), Some("float"));
    assert_eq!(type_of("'c'", &facts).as_deref(), Some("char"));
    assert_eq!(type_of("true", &facts), None);
    assert_eq!(type_of("null", &facts).as_deref(), Some("null"));
    assert_eq!(type_of("\"s\"", &facts).as_deref(), Some("java/lang/String"));
    assert!(resolve_integer_literal_type(&chars("__")).is_none());
    assert_eq!(resolve_integer_literal_type(&chars("l")).unwrap().base, "int");
    assert!(resolve_floating_point_literal_type(&chars(" ")).is_none());
}

#[test]
fn operators_promote_their_operands() {
    let mut facts = TypeFacts::new();
    facts
        .names
        .insert("n".to_string(), TypeName::new("java/lang/Long"));
    facts.names.insert("b".to_string(), TypeName::new("byte"));
    facts
        .names
        .insert("s".to_string(), TypeName::new("java/lang/String"));
    facts
        .names
        .insert("flag".to_string(), TypeName::new("boolean"));
    assert_eq!(type_of("n + 1", &facts).as_deref(), Some("long"));
    assert_eq!(type_of("b * b", &facts).as_deref(), Some("int"));
    assert_eq!(type_of("1 + 2.0f", &facts).as_deref(), Some("float"));
    assert_eq!(type_of("1 + s", &facts).as_deref(), Some("java/lang/String"));
    assert_eq!(type_of("b << n", &facts).as_deref(), Some("int"));
    assert_eq!(type_of("b & n", &facts).as_deref(), Some("long"));
    assert_eq!(type_of("b < n", &facts).as_deref(), Some("boolean"));
    assert_eq!(type_of("s == null", &facts).as_deref(), Some("boolean"));
    assert_eq!(type_of("flag && flag", &facts).as_deref(), Some("boolean"));
    assert_eq!(type_of("!flag", &facts).as_deref(), Some("boolean"));
    assert_eq!(type_of("~b", &facts).as_deref(), Some("int"));
    assert_eq!(type_of("-n", &facts).as_deref(), Some("long"));
    assert_eq!(type_of("flag + 1", &facts), None);
    assert_eq!(type_of("~1.0", &facts), None);
    assert_eq!(type_of("!b", &facts), None);
    assert_eq!(type_of("(b)", &facts).as_deref(), Some("byte"));
}

#[test]
fn choices_have_the_type_of_both_branches() {
    let mut facts = TypeFacts::new();
    facts
        .names
        .insert("s".to_string(), TypeName::new("java/lang/String"));
    facts.names.insert("c".to_string(), TypeName::new("boolean"));
    assert_eq!(type_of("c ? 1 : 2", &facts).as_deref(), Some("int"));
    assert_eq!(type_of("c ? 1 : 2L", &facts).as_deref(), Some("long"));
    assert_eq!(
        type_of("c ? null : s", &facts).as_deref(),
        Some("java/lang/String")
    );
    assert_eq!(type_of("c ? s : 1", &facts), None);
    let array = TypeName::new("int").with_array_dims(1);
    assert!(choice_result_type(array, TypeName::new("int")).is_some());
}

#[test]
fn promotion_follows_the_wider_operand_in_either_order() {
    assert_eq!(promoted_numeric_result("char", "float"), Some(Numeric::Float));
    assert_eq!(promoted_numeric_result("float", "char"), Some(Numeric::Float));
    assert_eq!(promoted_numeric_result("boolean", "int"), None);
    assert_eq!(promoted_integral_result("long", "short"), Some(Numeric::Long));
    assert_eq!(promoted_integral_result("double", "short"), None);
    assert_eq!(promoted_shift_result("short", "long"), Some(Numeric::Int));
    assert_eq!(unboxed_primitive_type_name("java/lang/Character"), Some("char"));
    assert_eq!(unboxed_primitive_type_name("java/lang/String"), None);
    let int = TypeName::new("int");
    assert_eq!(binary_result_type("%", &int, &int).unwrap().base, "int");
    assert!(binary_result_type("?", &int, &int).is_none());
    assert!(unary_result_type("++", &int).is_none());
}

#[test]
fn created_objects_and_arrays_have_their_types() {
    let mut facts = TypeFacts::new();
    facts
        .types
        .insert("ArrayList".to_string(), TypeName::new("java/util/ArrayList"));
    facts
        .types
        .insert("ArrayList<String>".to_string(), function_type());
    facts.qualified_types.insert(
        "Outer.Inner".to_string(),
        TypeName::new("pkg/Outer$Inner"),
    );
    let init = |s: &str| resolve_var_init_expr(&chars(s), &facts, DEPTH);
    assert_eq!(known(init("new ArrayList()")).base, "java/util/ArrayList");
    assert_eq!(known(init("new ArrayList<String>()")), function_type());
    assert_eq!(known(init("new Outer.Inner()")).base, "pkg/Outer$Inner");
    let cube = known(init("new int[2][3]"));
    assert_eq!((cube.base.as_str(), cube.array_dims), ("int", 2));
    let row = known(init("new int[]{1, 2}"));
    assert_eq!((row.base.as_str(), row.array_dims), ("int", 1));
    assert_eq!(init("new Missing()"), Typing::Unknown);
    assert_eq!(init("new ArrayList<String"), Typing::Unknown);
    assert_eq!(type_of("new ArrayList()", &facts).as_deref(), Some("java/util/ArrayList"));
    assert_eq!(find_matching_angle(&chars("A<B<C>>()"), 1), Some(6));
    assert_eq!(find_matching_angle(&chars("A<B"), 1), None);
}

#[test]
fn casts_name_their_types() {
    let mut facts = TypeFacts::new();
    facts
        .relaxed_types
        .insert("List".to_string(), TypeName::new("java/util/List"));
    facts
        .names
        .insert("o".to_string(), TypeName::new("java/lang/Object"));
    assert_eq!(type_of("(List) o", &facts).as_deref(), Some("java/util/List"));
    assert_eq!(type_of("(int) o", &facts).as_deref(), Some("int"));
    assert_eq!(type_of("(Missing) o", &facts), None);
}

#[test]
fn chains_are_followed_step_by_step() {
    let mut facts = TypeFacts::new();
    facts.enclosing = Some("pkg/Outer$Main".to_string());
    facts
        .names
        .insert("rows".to_string(), TypeName::new("pkg/Row").with_array_dims(2));
    facts
        .types
        .insert("Row".to_string(), TypeName::new("pkg/Row"));
    facts.fields.insert(
        "pkg/Row".to_string(),
        vec![
            FieldSummary {
                name: "size".to_string(),
                descriptor: "I".to_string(),
                access_flags: 0,
                annotations: vec![],
                is_synthetic: false,
                generic_signature: None,
            },
            FieldSummary {
                name: "next".to_string(),
                descriptor: "Lpkg/Row;".to_string(),
                access_flags: 0,
                annotations: vec![],
                is_synthetic: false,
                generic_signature: None,
            },
        ],
    );
    facts
        .descriptors
        .insert("Lpkg/Row;".to_string(), TypeName::new("pkg/Row"));
    facts.calls.push(call(
        "pkg/Row",
        "at",
        vec![("1", "int"), ("missing", "unknown")],
        TypeName::new("Row"),
    ));
    let eval = |chain: Vec<ChainSegment>| evaluate_chain(&chain, &facts, DEPTH);
    let size = known(eval(vec![step("rows[0][1]", None), step("size", None)]));
    assert_eq!(size.base, "int");
    let one = known(eval(vec![step("rows[0]", None)]));
    assert_eq!((one.base.as_str(), one.array_dims), ("pkg/Row", 1));
    assert_eq!(eval(vec![step("rows[0][1][2]", None)]), Typing::Unknown);
    let deep = known(eval(vec![
        step("rows[0][1]", None),
        step("at", Some(vec!["1", "missing"])),
        step("next", None),
        step("size", None),
    ]));
    assert_eq!(deep.base, "int");
    let own = known(eval(vec![step("Main", None)]));
    assert_eq!(own.base, "pkg/Outer$Main");
    let by_type = known(eval(vec![step("Row", None)]));
    assert_eq!(by_type.base, "pkg/Row");
    assert_eq!(
        eval(vec![step("Row", None), step("gone", None)]),
        Typing::Unknown
    );
    assert_eq!(singleton_descriptor_to_type("J"), Some("long"));
    assert_eq!(singleton_descriptor_to_type("L"), None);
}

#[test]
fn elements_of_arrays_have_their_types() {
    let mut facts = TypeFacts::new();
    facts
        .names
        .insert("a".to_string(), TypeName::new("int").with_array_dims(2));
    assert_eq!(type_of("a[0]", &facts).as_deref(), Some("int[]"));
    assert_eq!(type_of("a[0][1]", &facts).as_deref(), Some("int"));
    assert_eq!(type_of("a[0][1][2]", &facts), None);
}

#[test]
fn following_further_changes_nothing() {
    let mut facts = make_facts();
    facts.chains.insert(
        "f(f(1))".to_string(),
        vec![step("f", Some(vec!["f(1)"]))],
    );
    facts
        .chains
        .insert("f(1)".to_string(), vec![step("f", Some(vec!["1"]))]);
    facts.calls.push(call(
        "org/cubewhy/Main",
        "f",
        vec![("1", "int")],
        TypeName::new("int"),
    ));
    facts.calls.push(call(
        "org/cubewhy/Main",
        "f",
        vec![("f(1)", "int")],
        TypeName::new("long"),
    ));
    assert_eq!(resolve_expression_type("f(f(1))", &facts, 0), Typing::TooDeep);
    assert_eq!(resolve_expression_type("f(f(1))", &facts, 1), Typing::TooDeep);
    assert_eq!(resolve_expression_type("f(f(1))", &facts, 2), Typing::TooDeep);
    let first = known(resolve_expression_type("f(f(1))", &facts, 3));
    let later = known(resolve_expression_type("f(f(1))", &facts, 50));
    assert_eq!(first.base, "long");
    assert!(same_type(&first, &later));
}

#[test]
fn a_creation_that_its_own_text_does_not_begin_with_is_given_up() {
    let facts = TypeFacts::new();
    assert_eq!(
        resolve_expression_type("outer.new Inner()", &facts, 5),
        Typing::TooDeep
    );
}
