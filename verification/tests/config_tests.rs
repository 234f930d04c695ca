use module_pipeline::chain::ModuleLoader;
use module_pipeline::config::{
    validate_boolean_property, ConfigEntries, ConfigEntry, ConfigValue, ConfigurationError,
    Property, ServerConfiguration, ShapeViolation, UsedProperties,
};
use module_pipeline::example::ExampleModuleLoader;

fn entries(groups: Vec<Vec<ConfigValue>>) -> ConfigEntries {
    ConfigEntries { inner: groups.into_iter().map(|values| ConfigEntry { values }).collect() }
}

fn config_with(name: &str, groups: Vec<Vec<ConfigValue>>) -> ServerConfiguration {
    ServerConfiguration {
        properties: vec![Property { name: name.to_string(), entries: entries(groups) }],
    }
}

fn violation_of(result: Result<(), ConfigurationError>) -> Option<(ShapeViolation, String, String)> {
    match result {
        Ok(()) => None,
        Err(e) => Some((e.violation, e.property.clone(), e.message())),
    }
}

#[test]
fn two_values_fail_with_a_cardinality_error() {
    let config = config_with(
        "example_handler",
        vec![vec![ConfigValue::Bool(true), ConfigValue::Bool(false)]],
    );
    let mut used = UsedProperties::new();
    let result = ExampleModuleLoader::new().validate_configuration(&config, &mut used);
    assert_eq!(
        violation_of(result),
        Some((
            ShapeViolation::Cardinality,
            "example_handler".to_string(),
            "The `example_handler` configuration property must have exactly one value".to_string(),
        ))
    );
    assert!(used.contains("example_handler"));
}

#[test]
fn no_value_fails_with_a_cardinality_error() {
    let config = config_with("example_handler", vec![vec![]]);
    let mut used = UsedProperties::new();
    let result = validate_boolean_property(&config, "example_handler", &mut used);
    assert_eq!(violation_of(result).map(|v| v.0), Some(ShapeViolation::Cardinality));
}

#[test]
fn non_boolean_value_fails_with_a_type_error() {
    let config = config_with("example_handler", vec![vec![ConfigValue::Text("yes".to_string())]]);
    let mut used = UsedProperties::new();
    let result = ExampleModuleLoader::new().validate_configuration(&config, &mut used);
    assert_eq!(
        violation_of(result),
        Some((
            ShapeViolation::Type,
            "example_handler".to_string(),
            "The `example_handler` configuration property must be a boolean".to_string(),
        ))
    );
    assert!(used.contains("example_handler"));
}

#[test]
fn integer_and_null_are_not_booleans() {
    for value in [ConfigValue::Integer(1), ConfigValue::Null] {
        let config = config_with("flag", vec![vec![value]]);
        let mut used = UsedProperties::new();
        let result = validate_boolean_property(&config, "flag", &mut used);
        assert_eq!(violation_of(result).map(|v| v.0), Some(ShapeViolation::Type));
    }
}

#[test]
fn absent_property_is_valid_and_not_marked() {
    let config = config_with("other", vec![vec![ConfigValue::Integer(3)]]);
    let mut used = UsedProperties::new();
    used.mark("earlier");
    let result = ExampleModuleLoader::new().validate_configuration(&config, &mut used);
    assert!(result.is_ok());
    assert!(!used.contains("example_handler"));
    assert!(!used.contains("other"));
    assert!(used.contains("earlier"));
    assert_eq!(used.names.len(), 1);
}

#[test]
fn valid_property_is_marked() {
    let config = config_with(
        "example_handler",
        vec![vec![ConfigValue::Bool(true)], vec![ConfigValue::Bool(false)]],
    );
    let mut used = UsedProperties::new();
    let result = ExampleModuleLoader::new().validate_configuration(&config, &mut used);
    assert!(result.is_ok());
    assert!(used.contains("example_handler"));
}

#[test]
fn property_without_entries_is_valid_and_marked() {
    let config = config_with("example_handler", vec![]);
    let mut used = UsedProperties::new();
    assert!(validate_boolean_property(&config, "example_handler", &mut used).is_ok());
    assert!(used.contains("example_handler"));
}

#[test]
fn first_violation_is_reported() {
    let config = config_with(
        "flag",
        vec![
            vec![ConfigValue::Bool(true)],
            vec![ConfigValue::Null],
            vec![ConfigValue::Bool(true), ConfigValue::Bool(true)],
        ],
    );
    let mut used = UsedProperties::new();
    let result = validate_boolean_property(&config, "flag", &mut used);
    assert_eq!(violation_of(result).map(|v| v.0), Some(ShapeViolation::Type));
}

#[test]
fn validation_does_not_change_the_configuration() {
    let config = config_with("example_handler", vec![vec![ConfigValue::Bool(true)]]);
    let mut used = UsedProperties::new();
    let _ = validate_boolean_property(&config, "example_handler", &mut used);
    assert_eq!(config.properties.len(), 1);
    assert_eq!(config.properties[0].name, "example_handler");
    assert!(config.properties[0].entries.same(&entries(vec![vec![ConfigValue::Bool(true)]])));
}

#[test]
fn marking_twice_keeps_one_name() {
    let mut used = UsedProperties::new();
    assert!(!used.contains("a"));
    used.mark("a");
    used.mark("b");
    used.mark("a");
    assert!(used.contains("a"));
    assert!(used.contains("b"));
    assert!(!used.contains("c"));
    assert_eq!(used.names.len(), 2);
}

#[test]
fn get_entries_takes_the_first_occurrence() {
    let config = ServerConfiguration {
        properties: vec![
            Property { name: "a".to_string(), entries: entries(vec![vec![ConfigValue::Integer(1)]]) },
            Property { name: "b".to_string(), entries: entries(vec![]) },
            Property { name: "a".to_string(), entries: entries(vec![vec![ConfigValue::Integer(2)]]) },
        ],
    };
    let found = config.get_entries("a").map(|e| e.same(&entries(vec![vec![ConfigValue::Integer(1)]])));
    assert_eq!(found, Some(true));
    assert!(config.get_entries("b").is_some());
    assert!(config.get_entries("c").is_none());
    assert!(ServerConfiguration::new().get_entries("a").is_none());
}

#[test]
fn values_compare_structurally() {
    let text = ConfigValue::Text("x".to_string());
    assert!(text.same(&ConfigValue::Text("x".to_string())));
    assert!(!text.same(&ConfigValue::Text("y".to_string())));
    assert!(!text.same(&ConfigValue::Null));
    assert!(ConfigValue::Integer(-4).same(&ConfigValue::Integer(-4)));
    assert!(!ConfigValue::Integer(-4).same(&ConfigValue::Integer(4)));
    assert!(!ConfigValue::Bool(true).same(&ConfigValue::Bool(false)));
    assert!(ConfigValue::Null.same(&ConfigValue::Null));
    assert!(text.duplicate().same(&text));
    assert_eq!(ConfigValue::Bool(true).as_bool(), Some(true));
    assert_eq!(ConfigValue::Integer(1).as_bool(), None);
    assert!(ConfigValue::Bool(false).is_bool());
    assert!(!ConfigValue::Null.is_bool());
}

#[test]
fn entries_compare_structurally() {
    let a = entries(vec![vec![ConfigValue::Bool(true)], vec![ConfigValue::Integer(1), ConfigValue::Null]]);
    let b = entries(vec![vec![ConfigValue::Bool(true)], vec![ConfigValue::Integer(1), ConfigValue::Null]]);
    let shorter = entries(vec![vec![ConfigValue::Bool(true)]]);
    let reordered = entries(vec![vec![ConfigValue::Integer(1), ConfigValue::Null], vec![ConfigValue::Bool(true)]]);
    assert!(a.same(&b));
    assert!(!a.same(&shorter));
    assert!(!a.same(&reordered));
    assert!(a.duplicate().same(&a));
    assert!(a.inner[1].duplicate().same(&b.inner[1]));
    assert!(!a.inner[0].same(&a.inner[1]));
}

#[test]
fn loader_names_its_property() {
    assert_eq!(ExampleModuleLoader::new().get_requirements(), vec!["example_handler"]);
}
