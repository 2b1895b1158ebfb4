//! Maps, settings, flags and the laws of generated members.
use java_analyzer::access_flags::{is_final, is_static, is_transient};
use java_analyzer::index::{
    build_descriptor, has_method, AnnotationSummary, AnnotationValue, FieldSummary, MethodParam,
    MethodParams, MethodSummary,
};
use java_analyzer::lombok::config::LombokConfig;
use java_analyzer::lombok::rules::delegate_rule::{resolve_delegate_type_internal, simple_name_of};
use java_analyzer::lombok::rules::equals_hash_code_rule::{self, fields_by_annotation};
use java_analyzer::lombok::rules::log_rule::LogRule;
use java_analyzer::lombok::rules::value_rule::generate_getter;
use java_analyzer::lombok::types::AccessLevel;
use java_analyzer::lombok::utils::{
    compute_getter_name, compute_setter_name, copy_annotations, get_bool_param, get_string_array_param, get_string_param,
    is_field_final, is_field_non_null, matches_pattern, replace_first, should_generate_for_field,
    strip_field_prefix,
};
use java_analyzer::synthetic::SyntheticMemberSet;
use java_analyzer::text_map::{Duplicate, TextMap};
use rust_asm::constants::{ACC_FINAL, ACC_STATIC, ACC_TRANSIENT};

fn annotation(name: &str, elements: Vec<(&str, AnnotationValue)>) -> AnnotationSummary {
    let mut map = TextMap::new();
    for (k, v) in elements {
        map.insert(k.to_string(), v);
    }
    AnnotationSummary {
        internal_name: name.to_string(),
        runtime_visible: true,
        elements: map,
    }
}

fn level(name: &str) -> AnnotationValue {
    AnnotationValue::Enum {
        enum_type: "lombok/AccessLevel".to_string(),
        const_name: name.to_string(),
    }
}

fn text(s: &str) -> AnnotationValue {
    AnnotationValue::String(s.to_string())
}

fn field(name: &str, flags: u16, annotations: Vec<AnnotationSummary>) -> FieldSummary {
    FieldSummary {
        name: name.to_string(),
        descriptor: "I".to_string(),
        access_flags: flags,
        annotations,
        is_synthetic: false,
        generic_signature: None,
    }
}

#[test]
fn a_text_map_keeps_the_last_value_of_a_key() {
    let mut map: TextMap<String> = TextMap::new();
    assert!(map.get("a").is_none());
    map.insert("a".to_string(), "1".to_string());
    map.insert("b".to_string(), "2".to_string());
    map.insert("a".to_string(), "3".to_string());
    assert_eq!(map.get("a").unwrap(), "3");
    let copy = map.duplicate();
    map.insert("b".to_string(), "4".to_string());
    assert_eq!(copy.get("b").unwrap(), "2");
    assert_eq!(map.get("b").unwrap(), "4");
}

#[test]
fn later_lines_of_settings_win() {
    let mut config = LombokConfig::new();
    config.merge_from_content("a = 1\r\n# a = 2\n a : b = 3\na=4\nnothing\n");
    assert_eq!(config.get("a"), Some("4"));
    assert_eq!(config.get("a : b"), Some("3"));
    assert_eq!(config.get("nothing"), None);
    assert_eq!(config.clone().get("a"), Some("4"));
    assert!(LombokConfig::default().get("a").is_none());
}

#[test]
fn a_directory_can_stop_the_search() {
    let mut config = LombokConfig::new();
    assert!(config.merge_level(None));
    assert!(config.merge_level(Some("lombok.accessors.chain = true")));
    assert!(config.accessors_chain());
    assert!(!config.merge_level(Some("config.stopBubbling = true")));
    assert!(config.has_stop_directive());
}

#[test]
fn settings_that_are_no_truth_values_fall_back() {
    let mut config = LombokConfig::new();
    config.merge_from_content(
        "lombok.log.fieldIsStatic = no\nlombok.accessors.prefix = ; m_ ;;\nlombok.log.fieldName = LOGGER",
    );
    assert_eq!(config.get_bool("lombok.log.fieldIsStatic"), None);
    assert!(config.log_field_is_static());
    assert_eq!(config.accessors_prefix(), vec!["m_".to_string()]);
    assert_eq!(config.log_field_name(), "LOGGER");
    assert!(!config.equals_and_hash_code_do_not_use_getters());
}

#[test]
fn a_prefix_never_takes_the_whole_name() {
    let mut config = LombokConfig::new();
    config.merge_from_content("lombok.accessors.prefix = m_;m");
    assert_eq!(strip_field_prefix("m_name", &config), "name");
    assert_eq!(strip_field_prefix("m_", &config), "_");
    assert_eq!(strip_field_prefix("m", &config), "m");
    assert_eq!(strip_field_prefix("other", &config), "other");
    assert_eq!(compute_setter_name("m_name", &config), "setName");
    assert_eq!(replace_first("SS", "\u{df}x"), "SSx");
}

#[test]
fn patterns_match_by_their_parts() {
    assert!(matches_pattern("a/b/c/d", "a*c*"));
    assert!(matches_pattern("a/b/c/d", "*b*d"));
    assert!(matches_pattern("a/b/c/d", "a*b*d"));
    assert!(!matches_pattern("a/b/c/d", "a*c*b*"));
    assert!(!matches_pattern("a/b/c/d", "b*c*"));
    assert!(!matches_pattern("abc", "abcd"));
    let mut config = LombokConfig::new();
    config.merge_from_content("lombok.copyableAnnotations = com.x.*; y.Z");
    let source = vec![
        annotation("com/x/A", vec![]),
        annotation("y/Z", vec![("k", text("v"))]),
        annotation("y/Zz", vec![]),
    ];
    let copied = copy_annotations(&source, &config);
    assert_eq!(copied.len(), 2);
    assert_eq!(copied[1].internal_name, "y/Z");
    assert!(matches!(copied[1].elements.get("k"), Some(AnnotationValue::String(s)) if s == "v"));
    assert!(copy_annotations(&source, &LombokConfig::new()).is_empty());
}

#[test]
fn parameters_of_annotations_are_read_by_their_kinds() {
    let a = annotation(
        "x/A",
        vec![
            ("flag", AnnotationValue::Boolean(true)),
            ("name", text("n")),
            (
                "names",
                AnnotationValue::Array(vec![text("p"), AnnotationValue::Int(3), text("q")]),
            ),
        ],
    );
    assert!(get_bool_param(&a, "flag", false));
    assert!(get_bool_param(&a, "missing", true));
    assert!(!get_bool_param(&a, "name", false));
    assert_eq!(get_string_param(&a, "name"), Some("n"));
    assert_eq!(get_string_param(&a, "names"), None);
    assert_eq!(get_string_array_param(&a, "names"), vec!["p", "q"]);
    assert_eq!(get_string_array_param(&a, "name"), vec!["n"]);
    assert!(get_string_array_param(&a, "flag").is_empty());
}

#[test]
fn levels_have_their_flags() {
    assert_eq!(AccessLevel::from_annotation_value(&level("PRIVATE")), Some(AccessLevel::Private));
    assert_eq!(AccessLevel::from_annotation_value(&level("MODULE")), Some(AccessLevel::Module));
    assert_eq!(AccessLevel::from_annotation_value(&level("PACKAGE")), Some(AccessLevel::Package));
    assert_eq!(AccessLevel::from_annotation_value(&level("NONE")), Some(AccessLevel::Never));
    assert_eq!(AccessLevel::from_annotation_value(&level("OTHER")), None);
    assert_eq!(AccessLevel::from_annotation_value(&text("PUBLIC")), None);
    assert_eq!(AccessLevel::Public.to_access_flags(), 1);
    assert_eq!(AccessLevel::Private.to_access_flags(), 2);
    assert_eq!(AccessLevel::Protected.to_access_flags(), 4);
    assert_eq!(AccessLevel::Package.to_access_flags(), 0);
    assert!(is_static(ACC_STATIC | ACC_FINAL) && !is_static(ACC_FINAL));
    assert!(is_final(ACC_FINAL) && !is_final(ACC_STATIC));
    assert!(is_transient(ACC_TRANSIENT) && !is_transient(ACC_STATIC));
}

#[test]
fn the_annotation_of_a_field_decides_before_that_of_the_class() {
    let class = annotation("lombok/Getter", vec![("exclude", text("hidden"))]);
    let never = annotation("lombok/Getter", vec![("value", level("NONE"))]);
    let plain = field("a", 0, vec![]);
    assert!(should_generate_for_field(&plain, Some(&class), None));
    assert!(!should_generate_for_field(&plain, Some(&class), Some(&never)));
    assert!(!should_generate_for_field(&plain, None, None));
    assert!(!should_generate_for_field(&field("hidden", 0, vec![]), Some(&class), None));
    let fixed = field("s", ACC_STATIC, vec![]);
    assert!(!should_generate_for_field(&fixed, Some(&class), None));
    assert!(should_generate_for_field(&fixed, None, Some(&class)));
    assert!(is_field_final(&field("f", ACC_FINAL, vec![])));
    assert!(is_field_non_null(&field("f", 0, vec![annotation("NonNull", vec![])])));
}

#[test]
fn generated_members_come_behind_those_that_were_there() {
    let mut out = SyntheticMemberSet::new();
    let config = LombokConfig::new();
    generate_getter(&field("a", 0, vec![]), None, &config, &[], &mut out);
    generate_getter(&field("b", ACC_STATIC, vec![]), None, &config, &[], &mut out);
    let never = annotation("lombok/Getter", vec![("value", level("NONE"))]);
    generate_getter(&field("c", 0, vec![]), Some(&never), &config, &[], &mut out);
    let names: Vec<&str> = out.methods.iter().map(|m| m.name.as_str()).collect();
    assert_eq!(names, vec!["getA", "getB"]);
    assert_eq!(out.methods[1].access_flags, 1 | ACC_STATIC);
    assert_eq!(out.definitions[0].descriptor.as_deref(), Some("()I"));
    assert!(out.fields.is_empty());
    let explicit: Vec<MethodSummary> = out.methods;
    let mut again = SyntheticMemberSet::new();
    generate_getter(&field("a", 0, vec![]), None, &config, &explicit, &mut again);
    assert!(again.methods.is_empty() && again.definitions.is_empty());
}

#[test]
fn descriptors_join_those_of_the_parameters() {
    let params = MethodParams {
        items: vec![
            MethodParam {
                descriptor: "[I".to_string(),
                name: "a".to_string(),
                annotations: vec![],
            },
            MethodParam {
                descriptor: "Lx/Y;".to_string(),
                name: "b".to_string(),
                annotations: vec![],
            },
        ],
    };
    assert_eq!(build_descriptor(&params, "J"), "([ILx/Y;)J");
    let m = MethodSummary {
        name: "m".to_string(),
        params,
        annotations: vec![],
        access_flags: 0,
        is_synthetic: false,
        generic_signature: None,
        return_type: None,
    };
    assert_eq!(m.desc(), "([ILx/Y;)V");
    let copy = m.duplicate();
    assert!(has_method(&[copy], "m", "([ILx/Y;)V"));
    assert!(!has_method(&[m], "m", "()V"));
}

#[test]
fn equality_methods_are_known_by_their_parameters() {
    let equals = MethodSummary {
        name: "equals".to_string(),
        params: MethodParams {
            items: vec![MethodParam {
                descriptor: "LObject;".to_string(),
                name: "o".to_string(),
                annotations: vec![],
            }],
        },
        annotations: vec![],
        access_flags: 1,
        is_synthetic: false,
        generic_signature: None,
        return_type: Some("Lboolean;".to_string()),
    };
    let methods = [equals];
    assert!(equals_hash_code_rule::has_method(&methods, "equals", "(Ljava/lang/Object;)Z"));
    assert!(!equals_hash_code_rule::has_method(&methods, "hashCode", "()I"));
    assert!(!equals_hash_code_rule::has_method(&methods, "canEqual", "(Ljava/lang/Object;)Z"));
}

#[test]
fn an_annotation_chooses_the_fields_that_take_part() {
    let fields = vec![
        field("a", 0, vec![annotation("EqualsAndHashCode$Include", vec![])]),
        field("b", 0, vec![annotation("lombok/EqualsAndHashCode$Exclude", vec![])]),
        field("$c", 0, vec![]),
        field("d", 0, vec![]),
    ];
    let plain = annotation("lombok/EqualsAndHashCode", vec![]);
    assert_eq!(fields_by_annotation(&plain, &fields), vec!["a", "d"]);
    let marked = annotation(
        "lombok/EqualsAndHashCode",
        vec![("onlyExplicitlyIncluded", AnnotationValue::Boolean(true))],
    );
    assert_eq!(fields_by_annotation(&marked, &fields), vec!["a"]);
    let of = annotation("lombok/EqualsAndHashCode", vec![("of", text("$c"))]);
    assert_eq!(fields_by_annotation(&of, &fields), vec!["$c"]);
    let exclude = annotation("lombok/EqualsAndHashCode", vec![("exclude", text("d"))]);
    assert_eq!(fields_by_annotation(&exclude, &fields), vec!["a"]);
}

#[test]
fn the_first_logging_annotation_in_the_list_of_frameworks_wins() {
    let annos = vec![
        annotation("Flogger", vec![]),
        annotation("lombok/extern/slf4j/Slf4j", vec![]),
    ];
    let (found, framework) = LogRule::find_log_annotation(&annos).unwrap();
    assert_eq!(found.internal_name, "lombok/extern/slf4j/Slf4j");
    assert_eq!(framework.logger_type, "Lorg/slf4j/Logger;");
    assert!(LogRule::find_log_annotation(&[]).is_none());
    assert_eq!(LogRule::frameworks().len(), 8);
}

#[test]
fn delegated_types_are_found_by_their_names() {
    assert_eq!(simple_name_of("Ljava/util/List;"), "List");
    assert_eq!(simple_name_of("LFilter;"), "Filter");
    assert_eq!(simple_name_of("Filter"), "Filter");
    assert_eq!(simple_name_of("LLog;"), "Log");
    assert_eq!(simple_name_of("Log"), "Log");
    assert_eq!(simple_name_of("LLLog;"), "LLog");
    assert_eq!(simple_name_of("Lx/Log;"), "Log");
    assert_eq!(simple_name_of("[La/Filter;"), "Filter");
    assert_eq!(simple_name_of("a/Filter;"), "Filter");
    assert_eq!(simple_name_of("La/Filter;;"), "Filter");
    assert_eq!(simple_name_of("[LFilter;"), "[LFilter");
    assert_eq!(simple_name_of(";"), "");
    let list = "java/util/List".to_string();
    let other = "x/Other".to_string();
    assert_eq!(
        resolve_delegate_type_internal("Ljava/util/List;", Some(&list), Some(&other)),
        Some(list.clone())
    );
    assert_eq!(
        resolve_delegate_type_internal(" a/B ", None, Some(&other)),
        Some("a/B".to_string())
    );
    assert_eq!(
        resolve_delegate_type_internal("B", None, Some(&other)),
        Some(other)
    );
    assert_eq!(resolve_delegate_type_internal("B", None, None), None);
}

#[test]
fn stars_of_patterns_stand_for_any_characters() {
    for fill in ["", "/", "b/", "a/b/c"] {
        assert!(matches_pattern(&format!("x{fill}y{fill}z"), "x*y*z"));
        assert!(matches_pattern(&format!("{fill}z"), "*z"));
        assert!(matches_pattern(&format!("x{fill}"), "x*"));
        assert!(matches_pattern(fill, "*"));
    }
}

#[test]
fn names_of_accessors_begin_with_upper_case() {
    let config = LombokConfig::new();
    assert_eq!(compute_getter_name("name", "I", &config), "getName");
    assert_eq!(compute_getter_name("open", "Z", &config), "isOpen");
    assert_eq!(compute_getter_name("_x", "I", &config), "get_x");
    assert_eq!(compute_getter_name("", "I", &config), "get");
    assert_eq!(compute_setter_name("\u{e9}t\u{e9}", &config), "set\u{c9}t\u{e9}");
    assert_eq!(compute_setter_name("\u{df}x", &config), "setSSx");
}

#[test]
fn the_parts_around_an_only_star_may_overlap() {
    assert!(matches_pattern("a", "a*a"));
    assert!(matches_pattern("aba", "ab*ba"));
    assert!(matches_pattern("abba", "ab*ba"));
    assert!(!matches_pattern("aba", "ab**ba"));
    assert!(!matches_pattern("a", "a*a*"));
}

#[test]
fn settings_above_a_stop_do_not_count() {
    let levels = |texts: &[Option<&str>]| {
        let levels: Vec<Option<String>> = texts.iter().map(|t| t.map(str::to_string)).collect();
        LombokConfig::from_levels(&levels)
    };
    let config = levels(&[
        Some("a = 1\nb = 1"),
        None,
        Some("b = 2\nconfig.stopBubbling = true"),
        Some("b = 3\nc = 3\nconfig.stopBubbling = false"),
    ]);
    assert_eq!(config.get("a"), Some("1"));
    assert_eq!(config.get("b"), Some("2"));
    assert_eq!(config.get("c"), None);
    let config = levels(&[None, Some("a = 1"), Some("a = 2"), None]);
    assert_eq!(config.get("a"), Some("2"));
    assert_eq!(levels(&[]).get("a"), None);
}
