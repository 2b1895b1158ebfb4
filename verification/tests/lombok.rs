//! Settings, annotations and the names of accessors.
use java_analyzer::index::{AnnotationSummary, AnnotationValue};
use java_analyzer::lombok::config::LombokConfig;
use java_analyzer::lombok::types::AccessLevel;
use java_analyzer::lombok::utils::{
    capitalize_first, compute_getter_name, has_lombok_annotation, is_field_excluded,
    matches_pattern, parse_access_level,
};
use java_analyzer::text_map::TextMap;

fn make_annotation(
    internal_name: &str,
    elements: Vec<(&str, AnnotationValue)>,
) -> AnnotationSummary {
    let mut map = TextMap::new();
    for (k, v) in elements {
        map.insert(k.to_string(), v);
    }
    AnnotationSummary {
        internal_name: internal_name.to_string(),
        runtime_visible: true,
        elements: map,
    }
}

fn parsed_line(line: &str) -> Option<(String, String)> {
    LombokConfig::parse_config_line(line)
}

fn pair(key: &str, value: &str) -> Option<(String, String)> {
    Some((key.to_string(), value.to_string()))
}

#[test]
fn test_parse_config_line() {
    assert_eq!(
        parsed_line("lombok.accessors.chain = true"),
        pair("lombok.accessors.chain", "true")
    );
    assert_eq!(
        parsed_line("lombok.log.fieldName: logger"),
        pair("lombok.log.fieldName", "logger")
    );
    assert_eq!(parsed_line("# comment"), None);
    assert_eq!(parsed_line(""), None);
}

#[test]
fn test_merge_from_content() {
    let mut config = LombokConfig::new();
    config.merge_from_content(
        r#"
            # This is a comment
            lombok.accessors.chain = true
            lombok.log.fieldName : logger
            
            // Another comment
            lombok.accessors.fluent = false
            "#,
    );

    assert_eq!(config.get("lombok.accessors.chain"), Some("true"));
    assert_eq!(config.get("lombok.log.fieldName"), Some("logger"));
    assert_eq!(config.get("lombok.accessors.fluent"), Some("false"));
}

#[test]
fn test_accessors_prefix() {
    let mut config = LombokConfig::new();
    config.merge_from_content("lombok.accessors.prefix = m_;f_;_");

    let prefixes = config.accessors_prefix();
    assert_eq!(prefixes, vec!["m_", "f_", "_"]);
}

#[test]
fn test_defaults() {
    let config = LombokConfig::new();
    assert!(!config.accessors_chain());
    assert!(!config.accessors_fluent());
    assert_eq!(config.log_field_name(), "log");
    assert!(config.log_field_is_static());
    assert!(config.to_string_include_field_names());
    assert!(!config.to_string_do_not_use_getters());
}

#[test]
fn test_has_lombok_annotation() {
    let annos = vec![
        make_annotation("lombok/Getter", vec![]),
        make_annotation("lombok/Setter", vec![]),
    ];

    assert!(has_lombok_annotation(&annos, "lombok/Getter"));
    assert!(has_lombok_annotation(&annos, "lombok/Setter"));
    assert!(!has_lombok_annotation(&annos, "lombok/ToString"));
}

#[test]
fn test_parse_access_level() {
    let anno = make_annotation(
        "lombok/Getter",
        vec![(
            "value",
            AnnotationValue::Enum {
                enum_type: "lombok/AccessLevel".to_string(),
                const_name: "PROTECTED".to_string(),
            },
        )],
    );

    assert_eq!(parse_access_level(&anno), AccessLevel::Protected);
}

#[test]
fn test_is_field_excluded() {
    let anno = make_annotation(
        "lombok/ToString",
        vec![(
            "exclude",
            AnnotationValue::Array(vec![
                AnnotationValue::String("password".to_string()),
                AnnotationValue::String("secret".to_string()),
            ]),
        )],
    );

    assert!(is_field_excluded("password", &anno));
    assert!(is_field_excluded("secret", &anno));
    assert!(!is_field_excluded("username", &anno));
}

#[test]
fn test_compute_getter_name() {
    let config = LombokConfig::new();

    assert_eq!(
        compute_getter_name("name", "Ljava/lang/String;", &config),
        "getName"
    );
    assert_eq!(compute_getter_name("active", "Z", &config), "isActive");
    assert_eq!(compute_getter_name("count", "I", &config), "getCount");
}

#[test]
fn test_compute_getter_name_with_prefix() {
    let mut config = LombokConfig::new();
    config.merge_from_content("lombok.accessors.prefix = m_");

    assert_eq!(
        compute_getter_name("m_name", "Ljava/lang/String;", &config),
        "getName"
    );
    assert_eq!(compute_getter_name("m_active", "Z", &config), "isActive");
}

#[test]
fn test_compute_getter_name_fluent() {
    let mut config = LombokConfig::new();
    config.merge_from_content("lombok.accessors.fluent = true");

    assert_eq!(
        compute_getter_name("name", "Ljava/lang/String;", &config),
        "name"
    );
    assert_eq!(compute_getter_name("active", "Z", &config), "active");
}

#[test]
fn test_capitalize_first() {
    assert_eq!(capitalize_first("hello"), "Hello");
    assert_eq!(capitalize_first("World"), "World");
    assert_eq!(capitalize_first(""), "");
    assert_eq!(capitalize_first("a"), "A");
}

#[test]
fn test_matches_pattern() {
    assert!(matches_pattern("java/lang/String", "java/lang/String"));
    assert!(matches_pattern("java/lang/String", "java/*"));
    assert!(matches_pattern("java/lang/String", "*/String"));
    assert!(matches_pattern("java/lang/String", "*lang*"));
    assert!(!matches_pattern("java/lang/String", "kotlin/*"));
}

