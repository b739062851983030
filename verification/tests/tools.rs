use rust_analyzer_mcp::json::{Json, JsonNumber};
use rust_analyzer_mcp::mcp::tools::get_tools;
use rust_analyzer_mcp::version;

/// The same value as the wire type, so that its size on the wire can be measured.
fn wire(value: &Json) -> serde_json::Value {
    match value {
        Json::Null => serde_json::Value::Null,
        Json::Bool(b) => serde_json::Value::Bool(*b),
        Json::Number(JsonNumber::Unsigned(n)) => serde_json::Value::from(*n),
        Json::Number(JsonNumber::Negative(n)) => serde_json::Value::from(*n),
        Json::Number(JsonNumber::Other(t)) => serde_json::from_str(t).unwrap(),
        Json::Str(s) => serde_json::Value::String(s.clone()),
        Json::Array(items) => serde_json::Value::Array(items.iter().map(wire).collect()),
        Json::Object(members) => serde_json::Value::Object(
            members.iter().map(|(k, v)| (k.clone(), wire(v))).collect(),
        ),
    }
}

const ANNOTATED_NAMES: [&str; 21] = [
    "rust_analyzer_hover",
    "rust_analyzer_definition",
    "rust_analyzer_references",
    "rust_analyzer_blast_radius",
    "rust_analyzer_completion",
    "rust_analyzer_symbols",
    "rust_analyzer_workspace_symbols",
    "rust_analyzer_type_definition",
    "rust_analyzer_implementation",
    "rust_analyzer_expand_macro",
    "rust_analyzer_related_tests",
    "rust_analyzer_runnables",
    "rust_analyzer_ssr",
    "rust_analyzer_incoming_calls",
    "rust_analyzer_outgoing_calls",
    "rust_analyzer_format",
    "rust_analyzer_code_actions",
    "rust_analyzer_rename",
    "rust_analyzer_diagnostics",
    "rust_analyzer_workspace_diagnostics",
    "rust_analyzer_set_workspace",
];

#[test]
fn every_tool_is_annotated_and_every_annotation_names_a_tool() {
    let tools = get_tools();

    let unannotated: Vec<&str> = tools
        .iter()
        .filter(|tool| tool.annotations.is_none())
        .map(|tool| tool.name.as_str())
        .collect();
    assert!(
        unannotated.is_empty(),
        "these tools would show their wire name and be assumed to write: {unannotated:?}"
    );

    let stale: Vec<&str> = ANNOTATED_NAMES
        .iter()
        .copied()
        .filter(|name| !tools.iter().any(|tool| tool.name == *name))
        .collect();
    assert!(stale.is_empty(), "these name no tool: {stale:?}");
}

#[test]
fn the_tool_that_changes_something_says_so() {
    let writes: Vec<String> = get_tools()
        .iter()
        .filter(|tool| {
            tool.annotations
                .as_ref()
                .is_some_and(|annotations| !annotations.read_only_hint)
        })
        .map(|tool| tool.name.clone())
        .collect();

    assert_eq!(writes, ["rust_analyzer_set_workspace"]);
}

#[test]
fn the_listing_stays_terse_enough_to_send_every_session() {
    let tools = get_tools();
    let sizes: Vec<(usize, &str)> = tools
        .iter()
        .map(|tool| {
            (
                tool.description.len() + wire(&tool.input_schema).to_string().len(),
                tool.name.as_str(),
            )
        })
        .collect();

    let listing: usize = sizes.iter().map(|(size, _)| size).sum();
    let average = listing / tools.len();

    let mut biggest = sizes.clone();
    biggest.sort_by_key(|(size, _)| std::cmp::Reverse(*size));
    assert!(
        average <= 715,
        "the tool listing averages {average} bytes over {} tools ({listing} total) and goes \
         out on every session. Trim a description rather than raising this; the heaviest are \
         {:?}",
        tools.len(),
        &biggest[..3]
    );
}

#[test]
fn the_version_says_which_build_this_is() {
    let version = version("0.1.0", "3f2a9c1");

    assert!(version.contains("fork"), "{version}");
    assert!(
        version.contains(&format!("{} tools", get_tools().len())),
        "{version}"
    );
    assert!(
        !version.contains("rev unknown"),
        "a build from a git checkout is expected to know its revision: {version}"
    );
}

#[test]
fn the_version_line_is_spelled_out_in_full() {
    assert_eq!(
        version("0.1.0", "3f2a9c1"),
        "rust-analyzer-mcp 0.1.0 (fork, rev 3f2a9c1, 21 tools)"
    );
}

#[test]
fn the_schemas_say_what_each_tool_takes() {
    let tools = get_tools();
    let hover = tools.iter().find(|tool| tool.name == "rust_analyzer_hover").unwrap();
    assert_eq!(
        wire(&hover.input_schema),
        serde_json::from_str::<serde_json::Value>(
            r#"{"type":"object","properties":{"workspace_path":{"type":"string","description":"This call's workspace; others' default untouched. Needs Cargo.toml."},"file_path":{"type":"string","description":"Rust file: relative, absolute, or file:// URI."},"line":{"type":"number","description":"0-based."},"character":{"type":"number","description":"0-based."}},"required":["file_path","line","character"]}"#
        )
        .unwrap()
    );
    let diagnostics = tools
        .iter()
        .find(|tool| tool.name == "rust_analyzer_workspace_diagnostics")
        .unwrap();
    assert!(diagnostics.input_schema.get("required").is_none());
    assert_eq!(tools.len(), 21);
    assert_eq!(
        hover.annotations.as_ref().map(|a| a.title.as_str()),
        Some("Hover")
    );
}
