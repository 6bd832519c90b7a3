use mcpjs::schema::{check_schema, free_of_refs, validate_schema, SchemaCheck};

#[test]
fn readme_example_reports_type_error() {
    let error = validate_schema(
        "{\"type\":\"object\",\"properties\":{\"name\":{\"type\":\"string\"}}}".to_string(),
        "{\"name\":123}".to_string(),
    );
    assert_eq!(error, Some("123 is not of type \"string\"".to_string()));
}

#[test]
fn valid_data_passes() {
    let error = validate_schema(
        "{\"type\":\"object\",\"properties\":{\"name\":{\"type\":\"string\"}}}".to_string(),
        "{\"name\":\"x\"}".to_string(),
    );
    assert_eq!(error, None);
}

#[test]
fn invalid_schema_text() {
    let error = validate_schema("{".to_string(), "1".to_string()).unwrap();
    assert!(error.starts_with("Invalid schema: "));
}

#[test]
fn invalid_data_text() {
    let error = validate_schema("{}".to_string(), "nope".to_string()).unwrap();
    let parse = serde_json::from_str::<serde_json::Value>("nope").unwrap_err().to_string();
    assert_eq!(error, format!("Invalid data: {}", parse));
}

#[test]
fn schema_that_does_not_compile() {
    let error = validate_schema("{\"type\":12}".to_string(), "1".to_string()).unwrap();
    assert!(error.starts_with("Invalid schema: "));
}

#[test]
fn schemas_with_references_are_told_apart() {
    assert!(!free_of_refs("{\"$ref\":\"#\"}"));
    assert!(!free_of_refs("{\"properties\":{\"a\":{\"$ref\":\"#/definitions/x\"}}}"));
    // an escaped `$` is still the key `$ref`
    assert!(!free_of_refs("{\"\\u0024ref\":\"#\"}"));
    assert!(free_of_refs("{\"type\":\"object\",\"properties\":{\"ref\":{}}}"));
    // `$ref` as a string, not a key
    assert!(free_of_refs("{\"enum\":[\"$ref\"],\"description\":\"$ref\"}"));
    // text that is not JSON holds no reference
    assert!(free_of_refs("{"));
}

#[test]
fn check_schema_stops_before_validating_with_references() {
    assert!(matches!(
        check_schema("{\"$ref\":\"#\"}".to_string(), "1".to_string()),
        SchemaCheck::ValidateWithRefs
    ));
    assert!(matches!(
        check_schema("{\"definitions\":{\"a\":{\"type\":\"string\"}},\"$ref\":\"#/definitions/a\"}".to_string(), "1".to_string()),
        SchemaCheck::ValidateWithRefs
    ));
    // data that is not JSON is answered before validation
    let parse = serde_json::from_str::<serde_json::Value>("nope").unwrap_err().to_string();
    assert!(matches!(
        check_schema("{\"$ref\":\"#\"}".to_string(), "nope".to_string()),
        SchemaCheck::Answer(Some(m)) if m == format!("Invalid data: {}", parse)
    ));
    assert!(matches!(
        check_schema("{\"$ref\":\"#\",\"type\":12}".to_string(), "1".to_string()),
        SchemaCheck::Answer(Some(m)) if m.starts_with("Invalid schema: ")
    ));
    assert!(matches!(
        check_schema("{\"type\":\"string\"}".to_string(), "1".to_string()),
        SchemaCheck::Answer(Some(m)) if m == "1 is not of type \"string\""
    ));
    assert!(matches!(
        check_schema("{\"type\":\"number\"}".to_string(), "1".to_string()),
        SchemaCheck::Answer(None)
    ));
}
