use rholang_language_server::semantic_node::{
    empty_metadata, get_metadata, insert_metadata, metadata_with, MetadataKind, MetadataValue,
    SemanticCategory,
};
use rholang_language_server::structured_documentation::StructuredDocumentation;
use rholang_language_server::symbol_resolution::{ResolutionConfidence, SymbolKind};

#[test]
fn test_semantic_category_display() {
    assert_eq!(SemanticCategory::Literal.to_string(), "Literal");
    assert_eq!(SemanticCategory::Variable.to_string(), "Variable");
    assert_eq!(SemanticCategory::LanguageSpecific.to_string(), "LanguageSpecific");
}

#[test]
fn test_metadata_helpers() {
    let mut metadata = empty_metadata();
    assert_eq!(metadata.len(), 0);

    insert_metadata(&mut metadata, "test_key", MetadataValue::I32(42));
    assert_eq!(get_metadata(&metadata, "test_key", MetadataKind::I32), Some(&MetadataValue::I32(42)));
    assert_eq!(get_metadata(&metadata, "test_key", MetadataKind::Str), None);
}

#[test]
fn test_metadata_with() {
    let metadata = metadata_with("count", MetadataValue::Usize(100));
    assert_eq!(get_metadata(&metadata, "count", MetadataKind::Usize), Some(&MetadataValue::Usize(100)));
}

#[test]
fn test_parse_simple_summary() {
    let docs = vec!["This is a simple summary"];
    let structured = StructuredDocumentation::parse(&docs);

    assert_eq!(structured.summary, "This is a simple summary");
    assert!(structured.params.is_empty());
    assert!(structured.returns.is_none());
}

#[test]
fn test_parse_multi_line_summary() {
    let docs = vec!["This is line 1", "This is line 2", "This is line 3"];
    let structured = StructuredDocumentation::parse(&docs);

    assert_eq!(structured.summary, "This is line 1\nThis is line 2\nThis is line 3");
}

#[test]
fn test_parse_with_params() {
    let docs = vec![
        "Authenticates a user",
        "@param username The user's name",
        "@param password The user's password",
    ];
    let structured = StructuredDocumentation::parse(&docs);

    assert_eq!(structured.summary, "Authenticates a user");
    assert_eq!(structured.params.len(), 2);
    assert_eq!(structured.params[0].name, "username");
    assert_eq!(structured.params[0].description, "The user's name");
    assert_eq!(structured.params[1].name, "password");
    assert_eq!(structured.params[1].description, "The user's password");
}

#[test]
fn test_parse_with_return() {
    let docs = vec!["Gets user info", "@return User information object"];
    let structured = StructuredDocumentation::parse(&docs);

    assert_eq!(structured.summary, "Gets user info");
    assert_eq!(structured.returns, Some("User information object".to_string()));
}

#[test]
fn test_parse_with_example() {
    let docs = vec!["Adds two numbers", "@example add!(1, 2)"];
    let structured = StructuredDocumentation::parse(&docs);

    assert_eq!(structured.summary, "Adds two numbers");
    assert_eq!(structured.examples.len(), 1);
    assert_eq!(structured.examples[0], "add!(1, 2)");
}

#[test]
fn test_parse_complete_documentation() {
    let docs = vec![
        "Authenticates a user with credentials",
        "",
        "This contract validates the provided username and password",
        "against the authentication service.",
        "",
        "@param username The user's login name",
        "@param password The user's password",
        "@return Authentication token on success",
        "@throws AuthenticationError if credentials are invalid",
        "@example authenticate!(\"alice\", \"secret123\")",
    ];
    let structured = StructuredDocumentation::parse(&docs);

    assert!(structured.summary.contains("Authenticates a user"));
    assert!(structured.summary.contains("authentication service"));
    assert_eq!(structured.params.len(), 2);
    assert_eq!(structured.params[0].name, "username");
    assert_eq!(structured.returns, Some("Authentication token on success".to_string()));
    assert_eq!(structured.throws.len(), 1);
    assert_eq!(structured.examples.len(), 1);
}

#[test]
fn test_to_plain_text() {
    let docs = vec![
        "Authenticates a user",
        "@param username The user's name",
        "@return Authentication token",
    ];
    let structured = StructuredDocumentation::parse(&docs);
    let plain_text = structured.to_plain_text();

    assert!(plain_text.contains("Authenticates a user"));
    assert!(plain_text.contains("Parameters:"));
    assert!(plain_text.contains("@username"));
    assert!(plain_text.contains("Returns:"));
}

#[test]
fn test_to_markdown() {
    let docs = vec![
        "Authenticates a user",
        "@param username The user's name",
        "@return Authentication token",
        "@example authenticate!(\"alice\", \"pass\")",
    ];
    let structured = StructuredDocumentation::parse(&docs);
    let markdown = structured.to_markdown();

    assert!(markdown.contains("Authenticates a user"));
    assert!(markdown.contains("## Parameters"));
    assert!(markdown.contains("**username**"));
    assert!(markdown.contains("## Returns"));
    assert!(markdown.contains("## Examples"));
    assert!(markdown.contains("```rholang"));
}

#[test]
fn test_confidence_ordering() {
    assert!(ResolutionConfidence::Exact > ResolutionConfidence::Fuzzy);
    assert!(ResolutionConfidence::Fuzzy > ResolutionConfidence::Ambiguous);
}

#[test]
fn test_symbol_kind_equality() {
    assert_eq!(SymbolKind::Function, SymbolKind::Function);
    assert_ne!(SymbolKind::Function, SymbolKind::Variable);
}
