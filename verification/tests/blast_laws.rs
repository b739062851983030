use rust_analyzer_mcp::blast::{
    assemble, enclosing_item, hover_signature, innermost, test_spans, FileContext, FileContexts,
    TestSpan, UNPLACED_NOTE,
};
use rust_analyzer_mcp::json::{Json, JsonNumber};

fn text(s: &str) -> Json {
    Json::Str(s.to_string())
}

fn num(n: u64) -> Json {
    Json::Number(JsonNumber::Unsigned(n))
}

fn obj(members: Vec<(&str, Json)>) -> Json {
    Json::Object(members.into_iter().map(|(k, v)| (k.to_string(), v)).collect())
}

fn span(label: &str, start_line: u64, end_line: u64) -> TestSpan {
    TestSpan { label: label.to_string(), start_line, end_line }
}

fn line_range(start: u64, end: u64) -> Json {
    obj(vec![
        ("start", obj(vec![("line", num(start)), ("character", num(0))])),
        ("end", obj(vec![("line", num(end)), ("character", num(0))])),
    ])
}

fn hit(file: &str, line: u64) -> Json {
    obj(vec![("file", text(file)), ("line", num(line))])
}

fn known(spans: Vec<TestSpan>, symbols: Json) -> FileContext {
    FileContext { test_spans: Some(spans), symbols }
}

fn count(answer: &Json, side: &str) -> u64 {
    answer.get(side).and_then(|s| s.get("count")).and_then(|c| c.as_u64()).unwrap()
}

#[test]
fn between_equally_narrow_spans_the_first_wins() {
    let spans = vec![span("test a", 0, 10), span("test b", 5, 15), span("test c", 20, 30)];
    assert_eq!(innermost(&spans, 7).map(|s| s.label.as_str()), Some("test a"));
    assert_eq!(innermost(&spans, 12).map(|s| s.label.as_str()), Some("test b"));
    assert!(innermost(&spans, 17).is_none());
    assert!(innermost(&[], 1).is_none());
}

#[test]
fn a_span_that_ends_before_it_starts_holds_no_line() {
    let spans = vec![span("test backwards", 9, 3)];
    assert!(innermost(&spans, 5).is_none());
}

#[test]
fn a_flat_symbol_list_is_read_by_its_locations() {
    let symbols = Json::Array(vec![
        obj(vec![
            ("name", text("outer")),
            ("location", obj(vec![("range", line_range(0, 50))])),
        ]),
        obj(vec![
            ("name", text("inner")),
            ("location", obj(vec![("range", line_range(10, 20))])),
        ]),
    ]);
    assert_eq!(enclosing_item(&symbols, 15).as_deref(), Some("inner"));
    assert_eq!(enclosing_item(&symbols, 30).as_deref(), Some("outer"));
    assert_eq!(enclosing_item(&text("not a tree"), 1), None);
}

#[test]
fn a_covering_symbol_without_a_name_adds_nothing_to_the_path() {
    let symbols = Json::Array(vec![obj(vec![
        ("range", line_range(0, 9)),
        (
            "children",
            Json::Array(vec![obj(vec![("name", text("f")), ("range", line_range(2, 4))])]),
        ),
    ])]);
    assert_eq!(enclosing_item(&symbols, 3).as_deref(), Some("f"));
    assert_eq!(enclosing_item(&symbols, 7), None);
}

#[test]
fn a_hover_given_as_plain_text_is_kept_whole() {
    let hover = obj(vec![("contents", text("  fn plain()  "))]);
    assert_eq!(hover_signature(&hover).as_deref(), Some("fn plain()"));
    let rust_only = obj(vec![("contents", text("```rust\n  fn f()  \n```\nprose"))]);
    assert_eq!(hover_signature(&rust_only).as_deref(), Some("fn f()"));
}

#[test]
fn a_label_with_no_location_gives_no_span() {
    let runnables = Json::Array(vec![obj(vec![("label", text("test lonely"))])]);
    assert!(test_spans(&runnables).is_empty());
    assert!(test_spans(&Json::Null).is_empty());
}

#[test]
fn the_unclassified_warning_counts_them() {
    let mut contexts = FileContexts::new();
    contexts.insert("a.rs".to_string(), FileContext { test_spans: None, symbols: Json::Null });
    let annotated = obj(vec![(
        "locations",
        Json::Array(vec![hit("a.rs", 1), hit("a.rs", 2), hit("b.rs", 3), obj(vec![("file", text("a.rs"))])]),
    )]);
    let answer = assemble(Json::Null, &annotated, &contexts, &Json::Array(vec![]));
    let warnings = answer.get("warnings").and_then(|w| w.as_array()).unwrap();
    assert_eq!(warnings.len(), 1);
    assert_eq!(warnings[0].as_str().unwrap(), format!("4{UNPLACED_NOTE}"));
    assert_eq!(answer.get("unclassified").and_then(|u| u.as_array()).unwrap().len(), 4);
}

#[test]
fn every_hit_lands_in_exactly_one_place() {
    let mut contexts = FileContexts::new();
    contexts.insert(
        "a.rs".to_string(),
        known(vec![span("test-mod a::tests", 100, 200)], Json::Array(vec![])),
    );
    let mut declaration = hit("a.rs", 5);
    declaration.insert("declaration".to_string(), Json::Bool(true));
    let hits = vec![
        declaration,
        hit("a.rs", 10),
        hit("a.rs", 150),
        hit("c.rs", 1),
        hit("a.rs", 300),
    ];
    let total = hits.len() as u64;
    let answer = assemble(
        Json::Null,
        &obj(vec![("locations", Json::Array(hits))]),
        &contexts,
        &Json::Null,
    );
    let unclassified = answer.get("unclassified").and_then(|u| u.as_array()).unwrap().len() as u64;
    let declarations = if answer.get("declaration").is_some() { 1 } else { 0 };
    assert_eq!(count(&answer, "production"), 2);
    assert_eq!(count(&answer, "tests"), 1);
    assert_eq!(count(&answer, "production") + count(&answer, "tests") + unclassified + declarations, total);
    assert_eq!(answer.get("complete").and_then(|c| c.as_bool()), Some(false));
}

#[test]
fn files_are_listed_once_in_the_order_first_met() {
    let contexts = FileContexts::new();
    let annotated = obj(vec![(
        "locations",
        Json::Array(vec![hit("b.rs", 1), hit("a.rs", 2), hit("b.rs", 3)]),
    )]);
    let answer = assemble(Json::Null, &annotated, &contexts, &Json::Array(vec![]));
    let files: Vec<&str> = answer
        .get("files_touched")
        .and_then(|f| f.as_array())
        .unwrap()
        .iter()
        .map(|f| f.as_str().unwrap())
        .collect();
    assert_eq!(files, ["b.rs", "a.rs"]);
}

#[test]
fn the_last_declaration_is_the_one_reported() {
    let mut first = hit("a.rs", 1);
    first.insert("declaration".to_string(), Json::Bool(true));
    let mut second = hit("a.rs", 2);
    second.insert("declaration".to_string(), Json::Bool(true));
    let answer = assemble(
        Json::Null,
        &obj(vec![("locations", Json::Array(vec![first, second]))]),
        &FileContexts::new(),
        &Json::Array(vec![]),
    );
    assert_eq!(
        answer.get("declaration").and_then(|d| d.get("line")).and_then(|l| l.as_u64()),
        Some(2)
    );
    assert_eq!(answer.get("complete").and_then(|c| c.as_bool()), Some(true));
    let warnings = answer.get("warnings").and_then(|w| w.as_array()).unwrap();
    assert_eq!(warnings.len(), 1, "nothing refers to the symbol but its declaration");
}

#[test]
fn a_file_known_again_replaces_what_was_known() {
    let mut contexts = FileContexts::new();
    contexts.insert("a.rs".to_string(), FileContext::default());
    contexts.insert("b.rs".to_string(), FileContext::default());
    contexts.insert("a.rs".to_string(), known(vec![span("test t", 0, 3)], Json::Null));
    assert_eq!(contexts.len(), 2);
    let a = contexts.get("a.rs").unwrap();
    assert_eq!(a.test_spans.as_ref().map(|s| s.len()), Some(1));
    assert!(contexts.get("c.rs").is_none());
    assert!(contexts.get("b.rs").unwrap().test_spans.is_none());
}

#[test]
fn spans_compare_by_their_label_and_lines() {
    assert_eq!(span("test a", 1, 2), span("test a", 1, 2));
    assert_ne!(span("test a", 1, 2), span("test b", 1, 2));
    assert_ne!(span("test a", 1, 2), span("test a", 1, 3));
    let copy = span("bench b", 4, 8).clone();
    assert_eq!(copy, span("bench b", 4, 8));
}
