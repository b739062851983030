use rust_analyzer_mcp::blast::{
    assemble, enclosing_item, hover_signature, innermost, test_spans, FileContext, FileContexts,
    TestSpan,
};
use rust_analyzer_mcp::json::{Json, JsonNumber};

fn text(s: &str) -> Json {
    Json::Str(s.to_string())
}

fn num(n: u64) -> Json {
    Json::Number(JsonNumber::Unsigned(n))
}

fn obj(members: Vec<(&str, Json)>) -> Json {
    Json::Object(members.into_iter().map(|(k, v)| (k.to_string(), v)).collect())
}

fn arr(items: Vec<Json>) -> Json {
    Json::Array(items)
}

fn position(line: u64, character: u64) -> Json {
    obj(vec![("line", num(line)), ("character", num(character))])
}

fn runnable(label: &str, start: (u64, u64), end: (u64, u64)) -> Json {
    obj(vec![
        ("kind", text("cargo")),
        ("label", text(label)),
        (
            "location",
            obj(vec![(
                "targetRange",
                obj(vec![
                    ("start", position(start.0, start.1)),
                    ("end", position(end.0, end.1)),
                ]),
            )]),
        ),
    ])
}

/// The shape rust-analyzer sends for `src/uri.rs`: a `test-mod` runnable spanning the whole
/// test module, a `test` runnable per function inside it, and two package-level runnables
/// carrying no location at all.
fn runnables() -> Json {
    arr(vec![
        runnable("test-mod uri::tests", (121, 0), (261, 1)),
        runnable("test uri::tests::unix_paths_round_trip", (196, 4), (211, 5)),
        obj(vec![
            ("kind", text("cargo")),
            ("label", text("cargo check -p rust-analyzer-mcp --all-targets")),
        ]),
        obj(vec![
            ("kind", text("cargo")),
            ("label", text("cargo test -p rust-analyzer-mcp --all-targets")),
        ]),
    ])
}

fn one_runnable(label: &str, start: (u64, u64), end: (u64, u64)) -> Json {
    arr(vec![obj(vec![
        ("label", text(label)),
        (
            "location",
            obj(vec![(
                "targetRange",
                obj(vec![
                    ("start", position(start.0, start.1)),
                    ("end", position(end.0, end.1)),
                ]),
            )]),
        ),
    ])])
}

fn range(start: (u64, u64), end: (u64, u64)) -> Json {
    obj(vec![("start", position(start.0, start.1)), ("end", position(end.0, end.1))])
}

fn symbol(name: &str, kind: u64, r: Json, selection: Json, children: Vec<Json>) -> Json {
    obj(vec![
        ("name", text(name)),
        ("kind", num(kind)),
        ("range", r),
        ("selectionRange", selection),
        ("children", arr(children)),
    ])
}

fn symbols() -> Json {
    arr(vec![symbol(
        "Calculator",
        23,
        range((10, 0), (40, 1)),
        range((10, 7), (10, 17)),
        vec![symbol("add", 6, range((14, 4), (20, 5)), range((15, 11), (15, 14)), vec![])],
    )])
}

fn hit(file: &str, line: u64) -> Json {
    obj(vec![
        ("file", text(file)),
        ("line", num(line)),
        ("character", num(8)),
        ("text", text("    greet(name)")),
    ])
}

fn context() -> FileContexts {
    let mut contexts = FileContexts::new();
    contexts.insert(
        "src/uri.rs".to_string(),
        FileContext { test_spans: Some(test_spans(&runnables())), symbols: symbols() },
    );
    contexts
}

fn locations(hits: Vec<Json>) -> Json {
    obj(vec![("locations", arr(hits))])
}

/// Follows member names down from `value`.
fn at<'a>(value: &'a Json, keys: &[&str]) -> Option<&'a Json> {
    let mut cur = value;
    for key in keys {
        cur = cur.get(key)?;
    }
    Some(cur)
}

fn count(answer: &Json, side: &str) -> Option<u64> {
    at(answer, &[side, "count"]).and_then(|c| c.as_u64())
}

fn references<'a>(answer: &'a Json, side: &str) -> &'a Vec<Json> {
    at(answer, &[side, "references"]).and_then(|r| r.as_array()).unwrap()
}

fn labels(spans: &[TestSpan]) -> Vec<&str> {
    spans.iter().map(|span| span.label.as_str()).collect()
}

#[test]
fn package_wide_runnables_are_not_spans() {
    let spans = test_spans(&runnables());
    assert_eq!(spans.len(), 2, "the two `cargo …` entries have no range");
    assert!(spans.iter().all(|span| span.end_line > span.start_line));
}

#[test]
fn running_a_binary_is_not_a_test() {
    let spans = test_spans(&one_runnable("run main", (3, 0), (9, 1)));
    assert!(spans.is_empty());
}

#[test]
fn a_bench_is_not_production() {
    let spans = test_spans(&one_runnable("bench parse", (1, 0), (5, 1)));
    assert_eq!(
        spans.len(),
        1,
        "a benchmark constrains the production API the way a test does"
    );
}

#[test]
fn a_doctests_range_is_the_documented_item_so_it_is_not_a_test_span() {
    let spans = test_spans(&one_runnable("doctest documented_caller", (0, 0), (7, 1)));
    assert!(
        spans.is_empty(),
        "a doctest's span covers the documented function's own body, so every hit it could \
         capture is production"
    );
}

#[test]
fn the_narrower_test_wins_over_the_module_containing_it() {
    let spans = test_spans(&runnables());
    let named = innermost(&spans, 200).map(|span| span.label.as_str());
    assert_eq!(named, Some("test uri::tests::unix_paths_round_trip"));
}

#[test]
fn a_line_in_the_test_module_but_in_no_test_is_still_a_test_line() {
    let spans = test_spans(&runnables());
    let named = innermost(&spans, 130).map(|span| span.label.as_str());
    assert_eq!(named, Some("test-mod uri::tests"));
}

#[test]
fn a_line_outside_every_test_is_production() {
    let spans = test_spans(&runnables());
    assert!(innermost(&spans, 40).is_none());
}

#[test]
fn a_hit_is_named_by_the_deepest_item_holding_it() {
    assert_eq!(enclosing_item(&symbols(), 17).as_deref(), Some("Calculator::add"));
}

#[test]
fn a_hit_between_the_children_is_named_by_the_parent() {
    assert_eq!(enclosing_item(&symbols(), 12).as_deref(), Some("Calculator"));
}

#[test]
fn a_hit_in_no_item_is_named_by_nothing() {
    assert_eq!(enclosing_item(&symbols(), 90), None);
}

#[test]
fn callers_in_one_file_land_on_both_sides_of_the_split() {
    let annotated = locations(vec![
        hit("src/uri.rs", 17),
        hit("src/uri.rs", 200),
        hit("src/uri.rs", 130),
    ]);

    let answer = assemble(obj(vec![("name", text("absolute"))]), &annotated, &context(), &arr(vec![]));

    assert_eq!(count(&answer, "production"), Some(1));
    assert_eq!(count(&answer, "tests"), Some(2));
    assert_eq!(answer.get("complete").and_then(|c| c.as_bool()), Some(true));
    assert_eq!(
        references(&answer, "production")[0].get("item").and_then(|i| i.as_str()),
        Some("Calculator::add")
    );
    assert_eq!(
        references(&answer, "tests")[0].get("test").and_then(|t| t.as_str()),
        Some("test uri::tests::unix_paths_round_trip")
    );
}

/// Two callers of one private helper, one carrying a doctest and the other carrying rustdoc
/// with no code fence.
fn documented_callers() -> FileContexts {
    let runnables = one_runnable("doctest documented_caller", (0, 0), (7, 1));
    let symbols = arr(vec![
        symbol(
            "documented_caller",
            12,
            range((0, 0), (7, 1)),
            range((5, 7), (5, 24)),
            vec![],
        ),
        symbol(
            "undocumented_caller",
            12,
            range((9, 0), (14, 1)),
            range((12, 7), (12, 26)),
            vec![],
        ),
    ]);
    let mut contexts = FileContexts::new();
    contexts.insert(
        "src/lib.rs".to_string(),
        FileContext { test_spans: Some(test_spans(&runnables)), symbols },
    );
    contexts
}

#[test]
fn a_caller_that_carries_a_doctest_is_still_a_production_caller() {
    let annotated = locations(vec![hit("src/lib.rs", 6), hit("src/lib.rs", 13)]);

    let answer = assemble(
        obj(vec![("name", text("helper"))]),
        &annotated,
        &documented_callers(),
        &arr(vec![]),
    );

    assert_eq!(count(&answer, "production"), Some(2), "{answer:?}");
    assert_eq!(
        count(&answer, "tests"),
        Some(0),
        "no reference edge reaches doctest code, so no hit here belongs to one: {answer:?}"
    );

    let named: Vec<&str> = references(&answer, "production")
        .iter()
        .filter_map(|hit| hit.get("item").and_then(|i| i.as_str()))
        .collect();
    assert_eq!(named, ["documented_caller", "undocumented_caller"]);
}

#[test]
fn the_declaration_is_counted_as_neither() {
    let mut declaration = hit("src/uri.rs", 17);
    declaration.insert("declaration".to_string(), Json::Bool(true));
    let annotated = locations(vec![declaration, hit("src/uri.rs", 200)]);

    let answer = assemble(obj(vec![("name", text("absolute"))]), &annotated, &context(), &arr(vec![]));

    assert_eq!(count(&answer, "production"), Some(0));
    assert_eq!(count(&answer, "tests"), Some(1));
    assert_eq!(at(&answer, &["declaration", "line"]).and_then(|l| l.as_u64()), Some(17));
}

#[test]
fn a_file_that_would_not_say_is_reported_as_unknown_not_as_production() {
    let mut contexts = FileContexts::new();
    contexts.insert(
        "src/uri.rs".to_string(),
        FileContext { test_spans: None, symbols: symbols() },
    );
    let annotated = locations(vec![hit("src/uri.rs", 200)]);

    let answer = assemble(obj(vec![("name", text("absolute"))]), &annotated, &contexts, &arr(vec![]));

    assert_eq!(count(&answer, "production"), Some(0));
    assert_eq!(count(&answer, "tests"), Some(0));
    assert_eq!(answer.get("complete").and_then(|c| c.as_bool()), Some(false));
    let unclassified = answer.get("unclassified").and_then(|u| u.as_array()).unwrap();
    assert_eq!(unclassified[0].get("line").and_then(|l| l.as_u64()), Some(200));
    assert!(!answer.get("warnings").and_then(|w| w.as_array()).unwrap().is_empty());
}

#[test]
fn a_symbol_nothing_refers_to_says_so_rather_than_saying_nothing() {
    let answer = assemble(
        obj(vec![("name", text("absolute"))]),
        &locations(vec![]),
        &context(),
        &arr(vec![]),
    );

    assert_eq!(answer.get("complete").and_then(|c| c.as_bool()), Some(true));
    assert_eq!(count(&answer, "production"), Some(0));
    let warnings = answer.get("warnings").and_then(|w| w.as_array()).unwrap();
    let warning = warnings[0].as_str().unwrap();
    assert!(warning.contains("copy"), "the text-sweep half is named");
}

fn markdown_hover(value: &str) -> Json {
    obj(vec![("contents", obj(vec![("kind", text("markdown")), ("value", text(value))]))])
}

#[test]
fn a_hover_is_reduced_to_its_code_blocks_signature_included() {
    let hover = markdown_hover(
        "```rust\nrust_analyzer_mcp::uri\n```\n\n```rust\npub fn absolute(path: &Path) -> PathBuf\n```\n\n---\n\nProse nobody needs here.",
    );
    assert_eq!(
        hover_signature(&hover).as_deref(),
        Some("rust_analyzer_mcp::uri\npub fn absolute(path: &Path) -> PathBuf")
    );
}

#[test]
fn the_prose_under_a_hover_is_left_where_it_is_written() {
    let hover = markdown_hover(
        "```rust\npub fn absolute(path: &Path) -> PathBuf\n```\n\n---\n\nParagraphs of rustdoc.\n\n```sh\nnot rust\n```",
    );
    let signature = hover_signature(&hover).unwrap();
    assert!(!signature.contains("Paragraphs"));
    assert!(!signature.contains("not rust"), "only rust blocks are kept");
}

#[test]
fn a_hover_that_said_nothing_is_none_rather_than_an_empty_string() {
    assert_eq!(hover_signature(&Json::Null), None);
    assert_eq!(hover_signature(&markdown_hover("  \n ")), None);
}

#[test]
fn impls_are_reported_only_when_there_are_any() {
    let annotated = locations(vec![hit("src/uri.rs", 17)]);

    let none = assemble(obj(vec![]), &annotated, &context(), &arr(vec![]));
    assert!(none.get("implementations").is_none());

    let some = assemble(
        obj(vec![]),
        &annotated,
        &context(),
        &arr(vec![obj(vec![("uri", text("file:///x.rs"))])]),
    );
    assert_eq!(
        some.get("implementations").and_then(|i| i.as_array()).unwrap().len(),
        1
    );
}

#[test]
fn spans_keep_the_labels_of_tests_and_modules() {
    let spans = test_spans(&runnables());
    assert_eq!(labels(&spans), ["test-mod uri::tests", "test uri::tests::unix_paths_round_trip"]);
    assert_eq!((spans[0].start_line, spans[0].end_line), (121, 261));
}
