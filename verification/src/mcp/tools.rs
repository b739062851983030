//! The tools the server offers: what each is called, what it does, what it takes, and how a
//! client may show it.
use vstd::prelude::*;
use crate::json::{Json, JsonView, json_view, key_index, key_index_from, members_view, lemma_members_view};
use crate::protocol::mcp::{AnnotationsView, ToolAnnotations, ToolDefinition, ToolView};
use crate::text::same_text;

verus! {

/// The descriptions of the parameters nearly every tool takes. The whole listing goes to a
/// model at the start of every session, so each word here is paid for on every call.
pub const WORKSPACE: &'static str =
    "This call's workspace; others' default untouched. Needs Cargo.toml.";

pub const FILE: &'static str = "Rust file: relative, absolute, or file:// URI.";

pub const LINE: &'static str = "0-based.";

pub const CHARACTER: &'static str = "0-based.";

/// What `rust_analyzer_hover` says it does.
pub const HOVER_DESCRIPTION: &'static str =
    "Type signature and docs at a position. Also the coordinate check: a signature back means \
    the position is on a symbol, so an empty references/implementation there is real; nothing \
    back means the position is wrong.";

/// What `rust_analyzer_definition` says it does.
pub const DEFINITION_DESCRIPTION: &'static str =
    "Where the symbol at a position is defined. May land outside the workspace, in a \
    dependency's or std's own sources.";

/// What `rust_analyzer_references` says it does.
pub const REFERENCES_DESCRIPTION: &'static str =
    "Every mention of the symbol at a position, each with the line of source at it. Returns \
    {count, locations[{file, line, character, text, declaration?}]}. `count` INCLUDES the \
    declaration, marked `declaration: true` -- two call sites report 3. Not a caller count. The \
    mark is absent if the declaration resolves outside the workspace, and then there is no \
    extra hit to subtract. For \"what breaks if I change this\", use blast_radius.";

/// What `rust_analyzer_blast_radius` says it does.
pub const BLAST_RADIUS_DESCRIPTION: &'static str =
    "What breaks if the symbol at a position changes -- what a reference list usually stands in \
    for, in one call. Returns {target, complete, production{count, references}, tests{count, \
    references}, files_touched, warnings} plus declaration?, unclassified?, implementations?. \
    Production hits are named by the item holding them, test hits by the test to rerun, and \
    implementations are the impls that must change whether or not anything calls them. The test \
    split comes from runnables, not filenames, so a `#[cfg(test)] mod tests` in the file it \
    tests lands on the test side. The declaration counts as NEITHER side. Hovers first, so \
    empty is never a wrong coordinate. Read `complete` first: false puts hits under \
    `unclassified` and makes both counts lower bounds. Blind to COPIES, which have no reference \
    edge -- a text sweep is the other half.";

/// What `rust_analyzer_completion` says it does.
pub const COMPLETION_DESCRIPTION: &'static str = "Completion candidates at a position.";

/// What `rust_analyzer_symbols` says it does.
pub const SYMBOLS_DESCRIPTION: &'static str =
    "Every symbol in one file, as nested DocumentSymbols. Take a position from \
    `selectionRange.start`, which is the identifier -- `range.start` is the doc comment, lines \
    earlier. `detail` carries the signature. Syntactic, so it answers before the index is ready \
    and for a file no workspace has loaded.";

/// What `rust_analyzer_implementation` says it does.
pub const IMPLEMENTATION_DESCRIPTION: &'static str =
    "What implements the trait, or the trait method, at a position. No text search can answer \
    this even in principle: which type an impl belongs to is decided by dispatch, not by \
    anything written at the position. On a trait, the implementing types; on a trait method, \
    the bodies implementing it.";

/// What `rust_analyzer_type_definition` says it does.
pub const TYPE_DEFINITION_DESCRIPTION: &'static str =
    "Definition of the TYPE of the thing at a position, not of the thing. On a variable or field \
    this lands on the type it holds; `definition` would land on its own declaration.";

/// What `rust_analyzer_incoming_calls` says it does.
pub const INCOMING_CALLS_DESCRIPTION: &'static str =
    "The FUNCTIONS that call the function at a position, each with its call sites inside them. \
    References lists every mention and leaves you to work out what contains each one; this \
    groups them. Returns {item, calls}, where `item` is what the position resolved to. Errors \
    if the position is not on something callable.";

/// What `rust_analyzer_outgoing_calls` says it does.
pub const OUTGOING_CALLS_DESCRIPTION: &'static str =
    "The functions called BY the function at a position. Returns {item, calls}. Expect hits \
    outside the workspace: a call into a dependency or std resolves to that crate's sources.";

/// What `rust_analyzer_expand_macro` says it does.
pub const EXPAND_MACRO_DESCRIPTION: &'static str =
    "The code the macro call at a position expands to. Macro-generated code is in no file, so \
    reading, grep and structural search all miss it, and hover does not show it either. Use it \
    when a type, method or impl seems to come from nowhere. Position goes on the macro's name; \
    errors if nothing there expands.";

/// What `rust_analyzer_related_tests` says it does.
pub const RELATED_TESTS_DESCRIPTION: &'static str =
    "The tests that exercise the symbol at a position. Worked out from calls, so a test reaching \
    it only through a trait object or a macro may not appear: empty means none was found, not \
    that none exists.";

/// What `rust_analyzer_runnables` says it does.
pub const RUNNABLES_DESCRIPTION: &'static str =
    "The exact cargo commands that run what is in a file -- tests, binary, doctests -- with the \
    args and env rust-analyzer would use, so a test filter or package name need not be guessed. \
    Omit the position for the whole file; give BOTH line and character to narrow to one item.";

/// What `rust_analyzer_workspace_symbols` says it does.
pub const WORKSPACE_SYMBOLS_DESCRIPTION: &'static str =
    "Name to position, across the workspace -- the only way here to turn a name into the file, \
    line and character the other tools need. DISCOVERY, NOT A CENSUS: matched fuzzily (letters \
    need only appear in order), scored, and capped at a few dozen. A name missing from the \
    results is NOT evidence it does not exist, and unrelated symbols scoring on scattered \
    letters are expected. Never count from it. An empty query returns nothing.";

/// What `rust_analyzer_ssr` says it does.
pub const SSR_DESCRIPTION: &'static str =
    "Structural search and replace whose patterns are resolved by TYPE, not by text. `query` is \
    rust-analyzer's `pattern ==>> replacement` form and `$name` binds an expression: \
    `Foo::bar($a) ==>> Foo::baz($a)`. The paths are resolved from the module at the position, \
    so it matches that `Foo` alone where a syntactic rewriter matches every type spelled `Foo` \
    in the workspace. WRITES NOTHING: the answer is a workspace edit handed back, so an \
    unfamiliar query is safe to ask and read. `parse_only` checks a pattern is well formed \
    without searching.";

/// What `rust_analyzer_format` says it does.
pub const FORMAT_DESCRIPTION: &'static str =
    "The rustfmt edits for a file. RETURNS EDITS AND WRITES NOTHING -- the file is unchanged \
    until you apply them. An empty answer means it is already formatted.";

/// What `rust_analyzer_code_actions` says it does.
pub const CODE_ACTIONS_DESCRIPTION: &'static str =
    "The code actions offered for a range: quickfixes, refactors, assists. Returns the actions \
    and applies none. Empty means none is offered there, which is ordinary.";

/// What `rust_analyzer_rename` says it does.
pub const RENAME_DESCRIPTION: &'static str =
    "Rename the symbol at a position across the workspace. RETURNS EDITS AND WRITES NOTHING: \
    {applied: false, old_name, new_name, position_encoding, summary, changes, file_operations, \
    workspace_edit}. Each edit carries `byte_range` and `old_text`, and a file's edits are \
    ordered last-first so applying them in order needs no re-offsetting. Renaming a module \
    renames its file, under `file_operations`. Errors if nothing is renameable there, the \
    symbol comes from a dependency, or the workspace is still loading -- a rename worked out \
    early can miss references.";

/// What `rust_analyzer_set_workspace` says it does.
pub const SET_WORKSPACE_DESCRIPTION: &'static str =
    "Move the default workspace for every later call, and shut down the rust-analyzer of every \
    other workspace this server holds. Respawns and reindexes, which costs seconds and \
    gigabytes on a large repo, and it is shared state: it moves the default out from under \
    everyone else on this server. Prefer `workspace_path` on the call itself, which answers \
    from the named workspace and moves nobody's default. Refuses a directory with no \
    Cargo.toml.";

/// What `rust_analyzer_diagnostics` says it does.
pub const DIAGNOSTICS_DESCRIPTION: &'static str =
    "Errors, warnings and hints for one file: {summary, diagnostics[], note?}. `summary` IS the \
    fault count -- rust-analyzer and rustc both report a fault and it is counted once -- and \
    each entry carries `sources` with the compiler's wording preferred. A `note` means the \
    report is incomplete and the counts are a floor. A superset of `cargo check` rather than a \
    second opinion, so cargo remains the authority on whether the build is broken.";

/// What `rust_analyzer_workspace_diagnostics` says it does.
pub const WORKSPACE_DIAGNOSTICS_DESCRIPTION: &'static str =
    "Errors and warnings across the whole workspace, from one cargo check -- no file need be \
    open. Returns {workspace, summary, complete, files{}, note?}. READ `complete` FIRST: a zero \
    means the workspace is clean only when it is true; with false nothing was analysed and the \
    zero means nothing.";

/// A parameter of a tool: its JSON type and what it means.
pub open spec fn property(kind: Seq<char>, description: Seq<char>) -> JsonView {
    JsonView::Object(
        seq![("type"@, JsonView::Str(kind)), ("description"@, JsonView::Str(description))],
    )
}

/// The schema of an object with the given properties and, when there is a list of them,
/// the properties it requires.
pub open spec fn schema_of(
    properties: Seq<(Seq<char>, JsonView)>,
    required: Option<Seq<Seq<char>>>,
) -> JsonView {
    let members = seq![
        ("type"@, JsonView::Str("object"@)),
        ("properties"@, JsonView::Object(properties)),
    ];
    match required {
        Some(names) => JsonView::Object(
            members.push(("required"@, JsonView::Array(names.map_values(|n| JsonView::Str(n))))),
        ),
        None => JsonView::Object(members),
    }
}

/// The schema of a tool that asks about one position in one file, which is most of them.
pub open spec fn position_schema() -> JsonView {
    schema_of(
        seq![
            ("workspace_path"@, property("string"@, WORKSPACE@)),
            ("file_path"@, property("string"@, FILE@)),
            ("line"@, property("number"@, LINE@)),
            ("character"@, property("number"@, CHARACTER@)),
        ],
        Some(seq!["file_path"@, "line"@, "character"@]),
    )
}

/// The schema of a tool that asks about a whole file.
pub open spec fn file_schema() -> JsonView {
    schema_of(
        seq![
            ("workspace_path"@, property("string"@, WORKSPACE@)),
            ("file_path"@, property("string"@, FILE@)),
        ],
        Some(seq!["file_path"@]),
    )
}

/// What `rust_analyzer_runnables` takes.
pub open spec fn runnables_schema() -> JsonView {
    schema_of(
        seq![
            ("workspace_path"@, property("string"@, WORKSPACE@)),
            ("file_path"@, property("string"@, FILE@)),
            ("line"@, property("number"@, "0-based line. Optional, but only with `character`: line alone is an error, not a \
            whole-file answer."@)),
            ("character"@, property("number"@, "0-based character. Optional, but only with `line`."@)),
        ],
        Some(seq!["file_path"@]),
    )
}

/// What `rust_analyzer_workspace_symbols` takes.
pub open spec fn workspace_symbols_schema() -> JsonView {
    schema_of(
        seq![
            ("workspace_path"@, property("string"@, WORKSPACE@)),
            ("query"@, property("string"@, "Name, or part of one."@)),
        ],
        Some(seq!["query"@]),
    )
}

/// What `rust_analyzer_ssr` takes.
pub open spec fn ssr_schema() -> JsonView {
    schema_of(
        seq![
            ("workspace_path"@, property("string"@, WORKSPACE@)),
            ("query"@, property("string"@, "`pattern ==>> replacement`; `$name` binds an expression."@)),
            ("file_path"@, property("string"@, "Rust file whose module the pattern's paths resolve from."@)),
            ("line"@, property("number"@, "0-based line to resolve from. Defaults to the top of the file."@)),
            ("character"@, property("number"@, "0-based character. Defaults to the top of the file."@)),
            ("parse_only"@, property("boolean"@, "Check the query parses, without searching. Default false."@)),
        ],
        Some(seq!["query"@, "file_path"@]),
    )
}

/// What `rust_analyzer_code_actions` takes.
pub open spec fn code_actions_schema() -> JsonView {
    schema_of(
        seq![
            ("workspace_path"@, property("string"@, WORKSPACE@)),
            ("file_path"@, property("string"@, FILE@)),
            ("line"@, property("number"@, "0-based start line."@)),
            ("character"@, property("number"@, "0-based start character."@)),
            ("end_line"@, property("number"@, "0-based end line."@)),
            ("end_character"@, property("number"@, "0-based end character."@)),
        ],
        Some(seq!["file_path"@, "line"@, "character"@, "end_line"@, "end_character"@]),
    )
}

/// What `rust_analyzer_rename` takes.
pub open spec fn rename_schema() -> JsonView {
    schema_of(
        seq![
            ("workspace_path"@, property("string"@, WORKSPACE@)),
            ("file_path"@, property("string"@, FILE@)),
            ("line"@, property("number"@, LINE@)),
            ("character"@, property("number"@, CHARACTER@)),
            ("new_name"@, property("string"@, "New name. For a lifetime, include the apostrophe."@)),
        ],
        Some(seq!["file_path"@, "line"@, "character"@, "new_name"@]),
    )
}

/// What `rust_analyzer_set_workspace` takes.
pub open spec fn set_workspace_schema() -> JsonView {
    schema_of(
        seq![
            ("workspace_path"@, property("string"@, "New default workspace root: path or file:// URI. Must contain Cargo.toml."@)),
        ],
        Some(seq!["workspace_path"@]),
    )
}

/// What `rust_analyzer_workspace_diagnostics` takes.
pub open spec fn workspace_diagnostics_schema() -> JsonView {
    schema_of(
        seq![
            ("workspace_path"@, property("string"@, WORKSPACE@)),
        ],
        None,
    )
}

/// A parameter of a tool, as JSON.
fn property_json(kind: &str, description: &str) -> (r: Json)
    ensures
        r@ == property(kind@, description@),
{
    let members = vec![
        (String::from_str("type"), Json::text(kind)),
        (String::from_str("description"), Json::text(description)),
    ];
    proof {
        lemma_members_view(members@);
    }
    assert(members_view(members@) =~= property(kind@, description@)->Object_0);
    Json::Object(members)
}

/// A named member of an object.
fn member(name: &str, value: Json) -> (r: (String, Json))
    ensures
        r.0@ == name@,
        r.1@ == value@,
{
    (String::from_str(name), value)
}

/// The views of a list of names.
pub open spec fn names_view(names: Seq<&str>) -> Seq<Seq<char>> {
    names.map_values(|n: &str| n@)
}

/// The schema of an object with the given properties and required properties, as JSON.
fn schema_json(properties: Vec<(String, Json)>, required: Option<&[&str]>) -> (r: Json)
    ensures
        r@ == schema_of(
            members_view(properties@),
            match required {
                Some(names) => Some(names_view(names@)),
                None => None,
            },
        ),
{
    let ghost pv = members_view(properties@);
    let mut members = vec![
        (String::from_str("type"), Json::text("object")),
        (String::from_str("properties"), Json::Object(properties)),
    ];
    proof {
        lemma_members_view(members@);
    }
    assert(members_view(members@) =~= seq![
        ("type"@, JsonView::Str("object"@)),
        ("properties"@, JsonView::Object(pv)),
    ]);
    match required {
        Some(names) => {
            let mut list: Vec<Json> = Vec::new();
            let mut i: usize = 0;
            while i < names.len()
                invariant
                    i <= names@.len(),
                    list@.len() == i,
                    forall|j: int|
                        0 <= j < i ==> json_view(#[trigger] list@[j]) == JsonView::Str(names@[j]@),
                decreases names@.len() - i,
            {
                list.push(Json::text(names[i]));
                i = i + 1;
            }
            proof {
                crate::json::lemma_array_view(list@);
            }
            assert(crate::json::array_view(list@) =~= names_view(names@).map_values(
                |n| JsonView::Str(n),
            ));
            let ghost before = members@;
            members.push((String::from_str("required"), Json::Array(list)));
            proof {
                lemma_members_view(members@);
                lemma_members_view(before);
            }
            assert(members_view(members@) =~= members_view(before).push(
                ("required"@, JsonView::Array(names_view(names@).map_values(|n| JsonView::Str(n)))),
            ));
        },
        None => {},
    }
    Json::Object(members)
}

/// The schema of a tool that asks about one position in one file, which is most of them.
fn at_position() -> (r: Json)
    ensures
        r@ == position_schema(),
{
    let properties = vec![
        member("workspace_path", property_json("string", WORKSPACE)),
        member("file_path", property_json("string", FILE)),
        member("line", property_json("number", LINE)),
        member("character", property_json("number", CHARACTER)),
    ];
    proof {
        lemma_members_view(properties@);
    }
    let required = ["file_path", "line", "character"];
    assert(members_view(properties@) =~= position_schema()->Object_0[1].1->Object_0);
    assert(names_view(required@) =~= seq!["file_path"@, "line"@, "character"@]);
    schema_json(properties, Some(&required))
}

/// The schema of a tool that asks about a whole file.
fn in_file() -> (r: Json)
    ensures
        r@ == file_schema(),
{
    let properties = vec![
        member("workspace_path", property_json("string", WORKSPACE)),
        member("file_path", property_json("string", FILE)),
    ];
    proof {
        lemma_members_view(properties@);
    }
    let required = ["file_path"];
    assert(members_view(properties@) =~= file_schema()->Object_0[1].1->Object_0);
    assert(names_view(required@) =~= seq!["file_path"@]);
    schema_json(properties, Some(&required))
}

/// What `rust_analyzer_runnables` takes.
fn runnables_input() -> (r: Json)
    ensures
        r@ == runnables_schema(),
{
    let properties = vec![
        member("workspace_path", property_json("string", WORKSPACE)),
        member("file_path", property_json("string", FILE)),
        member("line", property_json("number", "0-based line. Optional, but only with `character`: line alone is an error, not a \
            whole-file answer.")),
        member("character", property_json("number", "0-based character. Optional, but only with `line`.")),
    ];
    proof {
        lemma_members_view(properties@);
    }
    let required = ["file_path"];
    assert(members_view(properties@) =~= runnables_schema()->Object_0[1].1->Object_0);
    assert(names_view(required@) =~= seq!["file_path"@]);
    schema_json(properties, Some(&required))
}

/// What `rust_analyzer_workspace_symbols` takes.
fn workspace_symbols_input() -> (r: Json)
    ensures
        r@ == workspace_symbols_schema(),
{
    let properties = vec![
        member("workspace_path", property_json("string", WORKSPACE)),
        member("query", property_json("string", "Name, or part of one.")),
    ];
    proof {
        lemma_members_view(properties@);
    }
    let required = ["query"];
    assert(members_view(properties@) =~= workspace_symbols_schema()->Object_0[1].1->Object_0);
    assert(names_view(required@) =~= seq!["query"@]);
    schema_json(properties, Some(&required))
}

/// What `rust_analyzer_ssr` takes.
fn ssr_input() -> (r: Json)
    ensures
        r@ == ssr_schema(),
{
    let properties = vec![
        member("workspace_path", property_json("string", WORKSPACE)),
        member("query", property_json("string", "`pattern ==>> replacement`; `$name` binds an expression.")),
        member("file_path", property_json("string", "Rust file whose module the pattern's paths resolve from.")),
        member("line", property_json("number", "0-based line to resolve from. Defaults to the top of the file.")),
        member("character", property_json("number", "0-based character. Defaults to the top of the file.")),
        member("parse_only", property_json("boolean", "Check the query parses, without searching. Default false.")),
    ];
    proof {
        lemma_members_view(properties@);
    }
    let required = ["query", "file_path"];
    assert(members_view(properties@) =~= ssr_schema()->Object_0[1].1->Object_0);
    assert(names_view(required@) =~= seq!["query"@, "file_path"@]);
    schema_json(properties, Some(&required))
}

/// What `rust_analyzer_code_actions` takes.
fn code_actions_input() -> (r: Json)
    ensures
        r@ == code_actions_schema(),
{
    let properties = vec![
        member("workspace_path", property_json("string", WORKSPACE)),
        member("file_path", property_json("string", FILE)),
        member("line", property_json("number", "0-based start line.")),
        member("character", property_json("number", "0-based start character.")),
        member("end_line", property_json("number", "0-based end line.")),
        member("end_character", property_json("number", "0-based end character.")),
    ];
    proof {
        lemma_members_view(properties@);
    }
    let required = ["file_path", "line", "character", "end_line", "end_character"];
    assert(members_view(properties@) =~= code_actions_schema()->Object_0[1].1->Object_0);
    assert(names_view(required@) =~= seq!["file_path"@, "line"@, "character"@, "end_line"@, "end_character"@]);
    schema_json(properties, Some(&required))
}

/// What `rust_analyzer_rename` takes.
fn rename_input() -> (r: Json)
    ensures
        r@ == rename_schema(),
{
    let properties = vec![
        member("workspace_path", property_json("string", WORKSPACE)),
        member("file_path", property_json("string", FILE)),
        member("line", property_json("number", LINE)),
        member("character", property_json("number", CHARACTER)),
        member("new_name", property_json("string", "New name. For a lifetime, include the apostrophe.")),
    ];
    proof {
        lemma_members_view(properties@);
    }
    let required = ["file_path", "line", "character", "new_name"];
    assert(members_view(properties@) =~= rename_schema()->Object_0[1].1->Object_0);
    assert(names_view(required@) =~= seq!["file_path"@, "line"@, "character"@, "new_name"@]);
    schema_json(properties, Some(&required))
}

/// What `rust_analyzer_set_workspace` takes.
fn set_workspace_input() -> (r: Json)
    ensures
        r@ == set_workspace_schema(),
{
    let properties = vec![
        member("workspace_path", property_json("string", "New default workspace root: path or file:// URI. Must contain Cargo.toml.")),
    ];
    proof {
        lemma_members_view(properties@);
    }
    let required = ["workspace_path"];
    assert(members_view(properties@) =~= set_workspace_schema()->Object_0[1].1->Object_0);
    assert(names_view(required@) =~= seq!["workspace_path"@]);
    schema_json(properties, Some(&required))
}

/// What `rust_analyzer_workspace_diagnostics` takes.
fn workspace_diagnostics_input() -> (r: Json)
    ensures
        r@ == workspace_diagnostics_schema(),
{
    let properties = vec![
        member("workspace_path", property_json("string", WORKSPACE)),
    ];
    proof {
        lemma_members_view(properties@);
    }
    assert(members_view(properties@) =~= workspace_diagnostics_schema()->Object_0[1].1->Object_0);
    schema_json(properties, None)
}

/// Each tool's wire name, description and input schema, in the order they are listed.
pub open spec fn tool_table() -> Seq<(Seq<char>, Seq<char>, JsonView)> {
    seq![
        ("rust_analyzer_hover"@, HOVER_DESCRIPTION@, position_schema()),
        ("rust_analyzer_definition"@, DEFINITION_DESCRIPTION@, position_schema()),
        ("rust_analyzer_references"@, REFERENCES_DESCRIPTION@, position_schema()),
        ("rust_analyzer_blast_radius"@, BLAST_RADIUS_DESCRIPTION@, position_schema()),
        ("rust_analyzer_completion"@, COMPLETION_DESCRIPTION@, position_schema()),
        ("rust_analyzer_symbols"@, SYMBOLS_DESCRIPTION@, file_schema()),
        ("rust_analyzer_implementation"@, IMPLEMENTATION_DESCRIPTION@, position_schema()),
        ("rust_analyzer_type_definition"@, TYPE_DEFINITION_DESCRIPTION@, position_schema()),
        ("rust_analyzer_incoming_calls"@, INCOMING_CALLS_DESCRIPTION@, position_schema()),
        ("rust_analyzer_outgoing_calls"@, OUTGOING_CALLS_DESCRIPTION@, position_schema()),
        ("rust_analyzer_expand_macro"@, EXPAND_MACRO_DESCRIPTION@, position_schema()),
        ("rust_analyzer_related_tests"@, RELATED_TESTS_DESCRIPTION@, position_schema()),
        ("rust_analyzer_runnables"@, RUNNABLES_DESCRIPTION@, runnables_schema()),
        ("rust_analyzer_workspace_symbols"@, WORKSPACE_SYMBOLS_DESCRIPTION@, workspace_symbols_schema()),
        ("rust_analyzer_ssr"@, SSR_DESCRIPTION@, ssr_schema()),
        ("rust_analyzer_format"@, FORMAT_DESCRIPTION@, file_schema()),
        ("rust_analyzer_code_actions"@, CODE_ACTIONS_DESCRIPTION@, code_actions_schema()),
        ("rust_analyzer_rename"@, RENAME_DESCRIPTION@, rename_schema()),
        ("rust_analyzer_set_workspace"@, SET_WORKSPACE_DESCRIPTION@, set_workspace_schema()),
        ("rust_analyzer_diagnostics"@, DIAGNOSTICS_DESCRIPTION@, file_schema()),
        ("rust_analyzer_workspace_diagnostics"@, WORKSPACE_DIAGNOSTICS_DESCRIPTION@, workspace_diagnostics_schema()),
    ]
}

/// The name a person reads for each tool, and whether the tool leaves everything as it found
/// it. `format`, `rename` and `ssr` return an edit and write nothing; `set_workspace` moves
/// the default workspace for everyone sharing the server.
pub open spec fn annotation_table() -> Seq<(Seq<char>, Seq<char>, bool)> {
    seq![
        ("rust_analyzer_hover"@, "Hover"@, true),
        ("rust_analyzer_definition"@, "Go to definition"@, true),
        ("rust_analyzer_references"@, "Find references"@, true),
        ("rust_analyzer_blast_radius"@, "Blast radius"@, true),
        ("rust_analyzer_completion"@, "Completions"@, true),
        ("rust_analyzer_symbols"@, "File symbols"@, true),
        ("rust_analyzer_workspace_symbols"@, "Find symbol by name"@, true),
        ("rust_analyzer_type_definition"@, "Go to type definition"@, true),
        ("rust_analyzer_implementation"@, "Find implementations"@, true),
        ("rust_analyzer_expand_macro"@, "Expand macro"@, true),
        ("rust_analyzer_related_tests"@, "Related tests"@, true),
        ("rust_analyzer_runnables"@, "Runnable commands"@, true),
        ("rust_analyzer_ssr"@, "Structural search and replace"@, true),
        ("rust_analyzer_incoming_calls"@, "Incoming calls"@, true),
        ("rust_analyzer_outgoing_calls"@, "Outgoing calls"@, true),
        ("rust_analyzer_format"@, "Format"@, true),
        ("rust_analyzer_code_actions"@, "Code actions"@, true),
        ("rust_analyzer_rename"@, "Rename"@, true),
        ("rust_analyzer_diagnostics"@, "Diagnostics"@, true),
        ("rust_analyzer_workspace_diagnostics"@, "Workspace diagnostics"@, true),
        ("rust_analyzer_set_workspace"@, "Set workspace"@, false),
    ]
}

/// A tool as `definitions` lists it: not yet annotated.
pub open spec fn unannotated(t: (Seq<char>, Seq<char>, JsonView)) -> ToolView {
    ToolView { name: t.0, description: t.1, input_schema: t.2, annotations: None }
}

/// The views of a list of tools.
pub open spec fn tool_views(tools: Seq<ToolDefinition>) -> Seq<ToolView> {
    tools.map_values(|t: ToolDefinition| t@)
}

fn tool(name: &str, description: &str, input_schema: Json) -> (r: ToolDefinition)
    ensures
        r@ == unannotated((name@, description@, input_schema@)),
{
    ToolDefinition {
        name: String::from_str(name),
        description: String::from_str(description),
        input_schema,
        annotations: None,
    }
}

/// Every tool, before annotation.
fn definitions() -> (r: Vec<ToolDefinition>)
    ensures
        tool_views(r@) == tool_table().map_values(|t| unannotated(t)),
{
    let tools = vec![
        tool("rust_analyzer_hover", HOVER_DESCRIPTION, at_position()),
        tool("rust_analyzer_definition", DEFINITION_DESCRIPTION, at_position()),
        tool("rust_analyzer_references", REFERENCES_DESCRIPTION, at_position()),
        tool("rust_analyzer_blast_radius", BLAST_RADIUS_DESCRIPTION, at_position()),
        tool("rust_analyzer_completion", COMPLETION_DESCRIPTION, at_position()),
        tool("rust_analyzer_symbols", SYMBOLS_DESCRIPTION, in_file()),
        tool("rust_analyzer_implementation", IMPLEMENTATION_DESCRIPTION, at_position()),
        tool("rust_analyzer_type_definition", TYPE_DEFINITION_DESCRIPTION, at_position()),
        tool("rust_analyzer_incoming_calls", INCOMING_CALLS_DESCRIPTION, at_position()),
        tool("rust_analyzer_outgoing_calls", OUTGOING_CALLS_DESCRIPTION, at_position()),
        tool("rust_analyzer_expand_macro", EXPAND_MACRO_DESCRIPTION, at_position()),
        tool("rust_analyzer_related_tests", RELATED_TESTS_DESCRIPTION, at_position()),
        tool("rust_analyzer_runnables", RUNNABLES_DESCRIPTION, runnables_input()),
        tool("rust_analyzer_workspace_symbols", WORKSPACE_SYMBOLS_DESCRIPTION, workspace_symbols_input()),
        tool("rust_analyzer_ssr", SSR_DESCRIPTION, ssr_input()),
        tool("rust_analyzer_format", FORMAT_DESCRIPTION, in_file()),
        tool("rust_analyzer_code_actions", CODE_ACTIONS_DESCRIPTION, code_actions_input()),
        tool("rust_analyzer_rename", RENAME_DESCRIPTION, rename_input()),
        tool("rust_analyzer_set_workspace", SET_WORKSPACE_DESCRIPTION, set_workspace_input()),
        tool("rust_analyzer_diagnostics", DIAGNOSTICS_DESCRIPTION, in_file()),
        tool("rust_analyzer_workspace_diagnostics", WORKSPACE_DIAGNOSTICS_DESCRIPTION, workspace_diagnostics_input()),
    ];
    assert(tool_views(tools@) =~= tool_table().map_values(|t| unannotated(t)));
    tools
}

/// The annotation table, as the program holds it.
fn annotation_rows() -> (r: Vec<(&'static str, &'static str, bool)>)
    ensures
        r@.map_values(|row: (&str, &str, bool)| (row.0@, row.1@, row.2)) == annotation_table(),
{
    let rows = vec![
        ("rust_analyzer_hover", "Hover", true),
        ("rust_analyzer_definition", "Go to definition", true),
        ("rust_analyzer_references", "Find references", true),
        ("rust_analyzer_blast_radius", "Blast radius", true),
        ("rust_analyzer_completion", "Completions", true),
        ("rust_analyzer_symbols", "File symbols", true),
        ("rust_analyzer_workspace_symbols", "Find symbol by name", true),
        ("rust_analyzer_type_definition", "Go to type definition", true),
        ("rust_analyzer_implementation", "Find implementations", true),
        ("rust_analyzer_expand_macro", "Expand macro", true),
        ("rust_analyzer_related_tests", "Related tests", true),
        ("rust_analyzer_runnables", "Runnable commands", true),
        ("rust_analyzer_ssr", "Structural search and replace", true),
        ("rust_analyzer_incoming_calls", "Incoming calls", true),
        ("rust_analyzer_outgoing_calls", "Outgoing calls", true),
        ("rust_analyzer_format", "Format", true),
        ("rust_analyzer_code_actions", "Code actions", true),
        ("rust_analyzer_rename", "Rename", true),
        ("rust_analyzer_diagnostics", "Diagnostics", true),
        ("rust_analyzer_workspace_diagnostics", "Workspace diagnostics", true),
        ("rust_analyzer_set_workspace", "Set workspace", false),
    ];
    assert(rows@.map_values(|row: (&str, &str, bool)| (row.0@, row.1@, row.2)) =~= annotation_table());
    rows
}


/// The index of the first row of `table` at or after `i` for the tool `name`.
pub open spec fn row_index_from(table: Seq<(Seq<char>, Seq<char>, bool)>, name: Seq<char>, i: int) -> Option<int>
    decreases table.len() - i,
{
    if i < 0 || i >= table.len() {
        None
    } else if table[i].0 == name {
        Some(i)
    } else {
        row_index_from(table, name, i + 1)
    }
}

pub proof fn lemma_row_index_from(table: Seq<(Seq<char>, Seq<char>, bool)>, name: Seq<char>, i: int)
    requires
        0 <= i,
    ensures
        row_index_from(table, name, i) matches Some(k) ==> {
            &&& i <= k < table.len()
            &&& table[k].0 == name
            &&& forall|j: int| i <= j < k ==> table[j].0 != name
        },
        row_index_from(table, name, i) is None ==> forall|j: int|
            i <= j < table.len() ==> table[j].0 != name,
    decreases table.len() - i,
{
    if i < table.len() && table[i].0 != name {
        lemma_row_index_from(table, name, i + 1);
    }
}

/// The annotation of the tool `name`: the first row of the table for it.
pub open spec fn annotation_for(name: Seq<char>) -> Option<AnnotationsView> {
    match row_index_from(annotation_table(), name, 0) {
        Some(k) => Some(
            AnnotationsView {
                title: annotation_table()[k].1,
                read_only_hint: annotation_table()[k].2,
            },
        ),
        None => None,
    }
}

/// A tool as `get_tools` lists it: annotated from the table.
pub open spec fn annotated(t: (Seq<char>, Seq<char>, JsonView)) -> ToolView {
    ToolView { name: t.0, description: t.1, input_schema: t.2, annotations: annotation_for(t.0) }
}

/// The listing of every tool, annotated.
pub open spec fn tool_listing() -> Seq<ToolView> {
    tool_table().map_values(|t| annotated(t))
}

/// The annotation of the tool `name`, looked up in `rows`.
fn find_annotation(rows: &Vec<(&'static str, &'static str, bool)>, name: &str) -> (r: Option<ToolAnnotations>)
    requires
        rows@.map_values(|row: (&str, &str, bool)| (row.0@, row.1@, row.2)) == annotation_table(),
    ensures
        match r {
            Some(a) => annotation_for(name@) == Some(a@),
            None => annotation_for(name@) is None,
        },
{
    let ghost table = annotation_table();
    proof {
        lemma_row_index_from(table, name@, 0);
    }
    let mut i: usize = 0;
    while i < rows.len()
        invariant
            i <= rows@.len(),
            rows@.map_values(|row: (&str, &str, bool)| (row.0@, row.1@, row.2)) == table,
            table == annotation_table(),
            row_index_from(table, name@, 0) == row_index_from(table, name@, i as int),
        decreases rows@.len() - i,
    {
        assert(table[i as int] == (rows@[i as int].0@, rows@[i as int].1@, rows@[i as int].2));
        let (row_name, title, read_only) = rows[i];
        if same_text(row_name, name) {
            return Some(ToolAnnotations { title: String::from_str(title), read_only_hint: read_only });
        }
        i = i + 1;
    }
    None
}

/// Every tool the server offers, each with the name a person reads and whether it leaves
/// everything as it found it.
pub fn get_tools() -> (r: Vec<ToolDefinition>)
    ensures
        tool_views(r@) == tool_listing(),
{
    let rows = annotation_rows();
    let mut tools = definitions();
    let ghost table = tool_table();
    assert(tool_views(tools@).len() == tools@.len());
    assert forall|j: int| 0 <= j < tools@.len() implies #[trigger] tools@[j]@ == unannotated(
        table[j],
    ) by {
        assert(tool_views(tools@)[j] == tools@[j]@);
    }
    let mut i: usize = 0;
    while i < tools.len()
        invariant
            i <= tools@.len(),
            rows@.map_values(|row: (&str, &str, bool)| (row.0@, row.1@, row.2)) == annotation_table(),
            table == tool_table(),
            tools@.len() == table.len(),
            forall|j: int| 0 <= j < i ==> #[trigger] tools@[j]@ == annotated(table[j]),
            forall|j: int| i <= j < tools@.len() ==> #[trigger] tools@[j]@ == unannotated(table[j]),
        decreases tools@.len() - i,
    {
        assert(tools@[i as int]@ == unannotated(table[i as int]));
        let annotation = find_annotation(&rows, tools[i].name.as_str());
        tools[i].annotations = annotation;
        assert(tools@[i as int]@ == annotated(table[i as int]));
        i = i + 1;
    }
    assert(tool_views(tools@) =~= tool_listing());
    tools
}





/// Every listed tool has an annotation: none would show its wire name and be assumed to write.
pub proof fn lemma_every_tool_is_annotated()
    ensures
        forall|i: int|
            0 <= i < tool_listing().len() ==> (#[trigger] tool_listing()[i]).annotations is Some,
{
    let table = annotation_table();
    assert forall|i: int| 0 <= i < tool_listing().len() implies (
    #[trigger] tool_listing()[i]).annotations is Some by {
        let name = tool_table()[i].0;
        lemma_row_index_from(table, name, 0);
        if i == 0 {
            assert(table[0].0 == name);
        } else if i == 1 {
            assert(table[1].0 == name);
        } else if i == 2 {
            assert(table[2].0 == name);
        } else if i == 3 {
            assert(table[3].0 == name);
        } else if i == 4 {
            assert(table[4].0 == name);
        } else if i == 5 {
            assert(table[5].0 == name);
        } else if i == 6 {
            assert(table[8].0 == name);
        } else if i == 7 {
            assert(table[7].0 == name);
        } else if i == 8 {
            assert(table[13].0 == name);
        } else if i == 9 {
            assert(table[14].0 == name);
        } else if i == 10 {
            assert(table[9].0 == name);
        } else if i == 11 {
            assert(table[10].0 == name);
        } else if i == 12 {
            assert(table[11].0 == name);
        } else if i == 13 {
            assert(table[6].0 == name);
        } else if i == 14 {
            assert(table[12].0 == name);
        } else if i == 15 {
            assert(table[15].0 == name);
        } else if i == 16 {
            assert(table[16].0 == name);
        } else if i == 17 {
            assert(table[17].0 == name);
        } else if i == 18 {
            assert(table[20].0 == name);
        } else if i == 19 {
            assert(table[18].0 == name);
        } else if i == 20 {
            assert(table[19].0 == name);
        }
    }
}

/// Every row of the annotation table names a listed tool: none is left behind by a rename.
pub proof fn lemma_every_annotation_names_a_tool()
    ensures
        forall|k: int|
            0 <= k < annotation_table().len() ==> exists|i: int|
                0 <= i < tool_listing().len() && tool_listing()[i].name == (
                #[trigger] annotation_table()[k]).0,
{
    assert forall|k: int| 0 <= k < annotation_table().len() implies exists|i: int|
        0 <= i < tool_listing().len() && tool_listing()[i].name == (
        #[trigger] annotation_table()[k]).0 by {
        if k == 0 {
            assert(tool_listing()[0].name == annotation_table()[k].0);
        } else if k == 1 {
            assert(tool_listing()[1].name == annotation_table()[k].0);
        } else if k == 2 {
            assert(tool_listing()[2].name == annotation_table()[k].0);
        } else if k == 3 {
            assert(tool_listing()[3].name == annotation_table()[k].0);
        } else if k == 4 {
            assert(tool_listing()[4].name == annotation_table()[k].0);
        } else if k == 5 {
            assert(tool_listing()[5].name == annotation_table()[k].0);
        } else if k == 6 {
            assert(tool_listing()[13].name == annotation_table()[k].0);
        } else if k == 7 {
            assert(tool_listing()[7].name == annotation_table()[k].0);
        } else if k == 8 {
            assert(tool_listing()[6].name == annotation_table()[k].0);
        } else if k == 9 {
            assert(tool_listing()[10].name == annotation_table()[k].0);
        } else if k == 10 {
            assert(tool_listing()[11].name == annotation_table()[k].0);
        } else if k == 11 {
            assert(tool_listing()[12].name == annotation_table()[k].0);
        } else if k == 12 {
            assert(tool_listing()[14].name == annotation_table()[k].0);
        } else if k == 13 {
            assert(tool_listing()[8].name == annotation_table()[k].0);
        } else if k == 14 {
            assert(tool_listing()[9].name == annotation_table()[k].0);
        } else if k == 15 {
            assert(tool_listing()[15].name == annotation_table()[k].0);
        } else if k == 16 {
            assert(tool_listing()[16].name == annotation_table()[k].0);
        } else if k == 17 {
            assert(tool_listing()[17].name == annotation_table()[k].0);
        } else if k == 18 {
            assert(tool_listing()[19].name == annotation_table()[k].0);
        } else if k == 19 {
            assert(tool_listing()[20].name == annotation_table()[k].0);
        } else if k == 20 {
            assert(tool_listing()[18].name == annotation_table()[k].0);
        }
    }
}

/// The one tool that does not leave everything as it found it is `rust_analyzer_set_workspace`:
/// every other tool is marked read-only.
pub proof fn lemma_only_set_workspace_writes()
    ensures
        forall|i: int|
            0 <= i < tool_listing().len() ==> ((#[trigger] tool_listing()[i]).annotations matches Some(a)
                && (!a.read_only_hint <==> tool_listing()[i].name == "rust_analyzer_set_workspace"@)),
{
    let table = annotation_table();
    reveal_strlit("rust_analyzer_hover");
    reveal_strlit("rust_analyzer_definition");
    reveal_strlit("rust_analyzer_references");
    reveal_strlit("rust_analyzer_blast_radius");
    reveal_strlit("rust_analyzer_completion");
    reveal_strlit("rust_analyzer_symbols");
    reveal_strlit("rust_analyzer_workspace_symbols");
    reveal_strlit("rust_analyzer_type_definition");
    reveal_strlit("rust_analyzer_implementation");
    reveal_strlit("rust_analyzer_expand_macro");
    reveal_strlit("rust_analyzer_related_tests");
    reveal_strlit("rust_analyzer_runnables");
    reveal_strlit("rust_analyzer_ssr");
    reveal_strlit("rust_analyzer_incoming_calls");
    reveal_strlit("rust_analyzer_outgoing_calls");
    reveal_strlit("rust_analyzer_format");
    reveal_strlit("rust_analyzer_code_actions");
    reveal_strlit("rust_analyzer_rename");
    reveal_strlit("rust_analyzer_diagnostics");
    reveal_strlit("rust_analyzer_workspace_diagnostics");
    reveal_strlit("rust_analyzer_set_workspace");
    assert forall|i: int| 0 <= i < tool_listing().len() implies ((#[trigger] tool_listing()[i]).annotations matches Some(a)
        && (!a.read_only_hint <==> tool_listing()[i].name == "rust_analyzer_set_workspace"@)) by {
        let name = tool_table()[i].0;
        lemma_row_index_from(table, name, 0);
        if i == 0 {
            assert(table[0].0 == name);
            assert(row_index_from(table, name, 0) == Some(0int));
        } else if i == 1 {
            assert(table[1].0 == name);
            assert(row_index_from(table, name, 0) == Some(1int));
        } else if i == 2 {
            assert(table[1].0[14] != name[14]);
            assert(table[2].0 == name);
            assert(row_index_from(table, name, 0) == Some(2int));
        } else if i == 3 {
            assert(table[3].0 == name);
            assert(row_index_from(table, name, 0) == Some(3int));
        } else if i == 4 {
            assert(table[1].0[14] != name[14]);
            assert(table[2].0[14] != name[14]);
            assert(table[4].0 == name);
            assert(row_index_from(table, name, 0) == Some(4int));
        } else if i == 5 {
            assert(table[5].0 == name);
            assert(row_index_from(table, name, 0) == Some(5int));
        } else if i == 6 {
            assert(table[8].0 == name);
            assert(row_index_from(table, name, 0) == Some(8int));
        } else if i == 7 {
            assert(table[7].0 == name);
            assert(row_index_from(table, name, 0) == Some(7int));
        } else if i == 8 {
            assert(table[8].0[15] != name[15]);
            assert(table[13].0 == name);
            assert(row_index_from(table, name, 0) == Some(13int));
        } else if i == 9 {
            assert(table[8].0[14] != name[14]);
            assert(table[13].0[14] != name[14]);
            assert(table[14].0 == name);
            assert(row_index_from(table, name, 0) == Some(14int));
        } else if i == 10 {
            assert(table[3].0[14] != name[14]);
            assert(table[9].0 == name);
            assert(row_index_from(table, name, 0) == Some(9int));
        } else if i == 11 {
            assert(table[10].0 == name);
            assert(row_index_from(table, name, 0) == Some(10int));
            assert(name[14] != "rust_analyzer_set_workspace"@[14]);
        } else if i == 12 {
            assert(table[11].0 == name);
            assert(row_index_from(table, name, 0) == Some(11int));
        } else if i == 13 {
            assert(table[6].0 == name);
            assert(row_index_from(table, name, 0) == Some(6int));
        } else if i == 14 {
            assert(table[12].0 == name);
            assert(row_index_from(table, name, 0) == Some(12int));
        } else if i == 15 {
            assert(table[15].0 == name);
            assert(row_index_from(table, name, 0) == Some(15int));
        } else if i == 16 {
            assert(table[3].0[14] != name[14]);
            assert(table[9].0[14] != name[14]);
            assert(table[16].0 == name);
            assert(row_index_from(table, name, 0) == Some(16int));
        } else if i == 17 {
            assert(table[15].0[14] != name[14]);
            assert(table[17].0 == name);
            assert(row_index_from(table, name, 0) == Some(17int));
        } else if i == 18 {
            assert(table[10].0[14] != name[14]);
            assert(table[20].0 == name);
            assert(row_index_from(table, name, 0) == Some(20int));
        } else if i == 19 {
            assert(table[18].0 == name);
            assert(row_index_from(table, name, 0) == Some(18int));
        } else if i == 20 {
            assert(table[19].0 == name);
            assert(row_index_from(table, name, 0) == Some(19int));
        }
    }
}



/// What the position schema asks for: `file_path`, `line` and `character`, the first a
/// string and the other two numbers.
pub proof fn lemma_position_schema_fields()
    ensures
        position_schema().get("required"@) == Some(
            JsonView::Array(
                seq![JsonView::Str("file_path"@), JsonView::Str("line"@), JsonView::Str("character"@)],
            ),
        ),
        position_schema().at(seq!["properties"@, "file_path"@, "type"@]) == Some(JsonView::Str("string"@)),
        position_schema().at(seq!["properties"@, "line"@, "type"@]) == Some(JsonView::Str("number"@)),
        position_schema().at(seq!["properties"@, "character"@, "type"@]) == Some(JsonView::Str("number"@)),
{
    reveal_strlit("type");
    reveal_strlit("properties");
    reveal_strlit("required");
    reveal_strlit("description");
    reveal_strlit("workspace_path");
    reveal_strlit("file_path");
    reveal_strlit("line");
    reveal_strlit("character");
    reveal_strlit("object");
    reveal_strlit("string");
    reveal_strlit("number");
    reveal_with_fuel(key_index_from, 5);
    reveal_with_fuel(JsonView::at, 4);
    let names: Seq<Seq<char>> = seq!["file_path"@, "line"@, "character"@];
    assert(names.map_values(|n| JsonView::Str(n)) =~= seq![
        JsonView::Str("file_path"@),
        JsonView::Str("line"@),
        JsonView::Str("character"@),
    ]);
    let schema = position_schema();
    let members = schema->Object_0;
    let props = members[1].1->Object_0;
    assert("type"@.len() == 4);
    assert("properties"@.len() == 10);
    assert("required"@.len() == 8);
    assert(members.len() == 3);
    assert(members[0].0 == "type"@);
    assert(members[1].0 == "properties"@);
    assert(members[2].0 == "required"@);
    assert(key_index_from(members, "required"@, 2) == Some(2int));
    assert(key_index_from(members, "required"@, 1) == Some(2int));
    assert(key_index_from(members, "properties"@, 1) == Some(1int));
    assert(key_index(members, "required"@) == Some(2int));
    assert(key_index(members, "properties"@) == Some(1int));
    assert("workspace_path"@.len() == 14);
    assert("file_path"@.len() == 9);
    assert("line"@.len() == 4);
    assert("character"@.len() == 9);
    assert("file_path"@[0] != "character"@[0]);
    assert(props.len() == 4);
    assert(props[0].0 == "workspace_path"@);
    assert(props[1].0 == "file_path"@);
    assert(props[2].0 == "line"@);
    assert(props[3].0 == "character"@);
    assert(key_index_from(props, "file_path"@, 1) == Some(1int));
    assert(key_index_from(props, "line"@, 2) == Some(2int));
    assert(key_index_from(props, "line"@, 1) == Some(2int));
    assert(key_index_from(props, "character"@, 3) == Some(3int));
    assert(key_index_from(props, "character"@, 2) == Some(3int));
    assert(key_index_from(props, "character"@, 1) == Some(3int));
    assert(key_index(props, "file_path"@) == Some(1int));
    assert(key_index(props, "line"@) == Some(2int));
    assert(key_index(props, "character"@) == Some(3int));
    assert(key_index(property("string"@, FILE@)->Object_0, "type"@) == Some(0int));
    assert(key_index(property("number"@, LINE@)->Object_0, "type"@) == Some(0int));
    assert(key_index(property("number"@, CHARACTER@)->Object_0, "type"@) == Some(0int));
    let k1: Seq<Seq<char>> = seq!["properties"@, "file_path"@, "type"@];
    let k2: Seq<Seq<char>> = seq!["properties"@, "line"@, "type"@];
    let k3: Seq<Seq<char>> = seq!["properties"@, "character"@, "type"@];
    assert(k1.subrange(1, 3) =~= seq!["file_path"@, "type"@]);
    assert(k2.subrange(1, 3) =~= seq!["line"@, "type"@]);
    assert(k3.subrange(1, 3) =~= seq!["character"@, "type"@]);
    assert(seq!["file_path"@, "type"@].subrange(1, 2) =~= seq!["type"@]);
    assert(seq!["line"@, "type"@].subrange(1, 2) =~= seq!["type"@]);
    assert(seq!["character"@, "type"@].subrange(1, 2) =~= seq!["type"@]);
    assert(seq!["type"@].subrange(1, 1) =~= Seq::<Seq<char>>::empty());
}

/// Whether `name` is one of the tools that act at one place in a file: the hover, the
/// definition, the references, the blast radius, the completions, the implementations, the
/// type definition, the calls in and out, the macro expansion and the related tests.
pub open spec fn acts_at_a_position(name: Seq<char>) -> bool {
    ||| name == "rust_analyzer_hover"@
    ||| name == "rust_analyzer_definition"@
    ||| name == "rust_analyzer_references"@
    ||| name == "rust_analyzer_blast_radius"@
    ||| name == "rust_analyzer_completion"@
    ||| name == "rust_analyzer_implementation"@
    ||| name == "rust_analyzer_type_definition"@
    ||| name == "rust_analyzer_incoming_calls"@
    ||| name == "rust_analyzer_outgoing_calls"@
    ||| name == "rust_analyzer_expand_macro"@
    ||| name == "rust_analyzer_related_tests"@
}

/// Every tool that acts at one place in a file is listed, and is listed with a schema that
/// asks for that place: `file_path`, `line` and `character` are required, and `line` and
/// `character` are numbers. None of them can be called without the position it works on.
pub proof fn lemma_position_tools_take_a_position()
    ensures
        forall|name: Seq<char>| #[trigger] acts_at_a_position(name) ==> exists|i: int|
            0 <= i < tool_listing().len() && (#[trigger] tool_listing()[i]).name == name,
        forall|i: int|
            0 <= i < tool_listing().len() && acts_at_a_position((#[trigger] tool_listing()[i]).name)
                ==> {
                let schema = tool_listing()[i].input_schema;
                &&& schema.get("required"@) == Some(
                    JsonView::Array(
                        seq![
                            JsonView::Str("file_path"@),
                            JsonView::Str("line"@),
                            JsonView::Str("character"@),
                        ],
                    ),
                )
                &&& schema.at(seq!["properties"@, "file_path"@, "type"@]) == Some(JsonView::Str("string"@))
                &&& schema.at(seq!["properties"@, "line"@, "type"@]) == Some(JsonView::Str("number"@))
                &&& schema.at(seq!["properties"@, "character"@, "type"@]) == Some(JsonView::Str("number"@))
            },
{
    lemma_position_schema_fields();
    reveal_strlit("rust_analyzer_hover");
    reveal_strlit("rust_analyzer_definition");
    reveal_strlit("rust_analyzer_references");
    reveal_strlit("rust_analyzer_blast_radius");
    reveal_strlit("rust_analyzer_completion");
    reveal_strlit("rust_analyzer_symbols");
    reveal_strlit("rust_analyzer_implementation");
    reveal_strlit("rust_analyzer_type_definition");
    reveal_strlit("rust_analyzer_incoming_calls");
    reveal_strlit("rust_analyzer_outgoing_calls");
    reveal_strlit("rust_analyzer_expand_macro");
    reveal_strlit("rust_analyzer_related_tests");
    reveal_strlit("rust_analyzer_runnables");
    reveal_strlit("rust_analyzer_workspace_symbols");
    reveal_strlit("rust_analyzer_ssr");
    reveal_strlit("rust_analyzer_format");
    reveal_strlit("rust_analyzer_code_actions");
    reveal_strlit("rust_analyzer_rename");
    reveal_strlit("rust_analyzer_set_workspace");
    reveal_strlit("rust_analyzer_diagnostics");
    reveal_strlit("rust_analyzer_workspace_diagnostics");
    assert("rust_analyzer_hover"@.len() == 19);
    assert("rust_analyzer_definition"@.len() == 24);
    assert("rust_analyzer_references"@.len() == 24);
    assert("rust_analyzer_blast_radius"@.len() == 26);
    assert("rust_analyzer_completion"@.len() == 24);
    assert("rust_analyzer_symbols"@.len() == 21);
    assert("rust_analyzer_implementation"@.len() == 28);
    assert("rust_analyzer_type_definition"@.len() == 29);
    assert("rust_analyzer_incoming_calls"@.len() == 28);
    assert("rust_analyzer_outgoing_calls"@.len() == 28);
    assert("rust_analyzer_expand_macro"@.len() == 26);
    assert("rust_analyzer_related_tests"@.len() == 27);
    assert("rust_analyzer_runnables"@.len() == 23);
    assert("rust_analyzer_workspace_symbols"@.len() == 31);
    assert("rust_analyzer_ssr"@.len() == 17);
    assert("rust_analyzer_format"@.len() == 20);
    assert("rust_analyzer_code_actions"@.len() == 26);
    assert("rust_analyzer_rename"@.len() == 20);
    assert("rust_analyzer_set_workspace"@.len() == 27);
    assert("rust_analyzer_diagnostics"@.len() == 25);
    assert("rust_analyzer_workspace_diagnostics"@.len() == 35);
    assert forall|name: Seq<char>| #[trigger] acts_at_a_position(name) implies exists|i: int|
        0 <= i < tool_listing().len() && (#[trigger] tool_listing()[i]).name == name by {
        if name == "rust_analyzer_hover"@ {
            assert(tool_listing()[0].name == name);
        } else if name == "rust_analyzer_definition"@ {
            assert(tool_listing()[1].name == name);
        } else if name == "rust_analyzer_references"@ {
            assert(tool_listing()[2].name == name);
        } else if name == "rust_analyzer_blast_radius"@ {
            assert(tool_listing()[3].name == name);
        } else if name == "rust_analyzer_completion"@ {
            assert(tool_listing()[4].name == name);
        } else if name == "rust_analyzer_implementation"@ {
            assert(tool_listing()[6].name == name);
        } else if name == "rust_analyzer_type_definition"@ {
            assert(tool_listing()[7].name == name);
        } else if name == "rust_analyzer_incoming_calls"@ {
            assert(tool_listing()[8].name == name);
        } else if name == "rust_analyzer_outgoing_calls"@ {
            assert(tool_listing()[9].name == name);
        } else if name == "rust_analyzer_expand_macro"@ {
            assert(tool_listing()[10].name == name);
        } else if name == "rust_analyzer_related_tests"@ {
            assert(tool_listing()[11].name == name);
        }
    }
    assert forall|i: int|
        0 <= i < tool_listing().len() && acts_at_a_position((#[trigger] tool_listing()[i]).name)
        implies tool_listing()[i].input_schema == position_schema() by {
        let name = tool_listing()[i].name;
        if i == 0 {
            assert(tool_table()[0].2 == position_schema());
        } else if i == 1 {
            assert(tool_table()[1].2 == position_schema());
        } else if i == 2 {
            assert(tool_table()[2].2 == position_schema());
        } else if i == 3 {
            assert(tool_table()[3].2 == position_schema());
        } else if i == 4 {
            assert(tool_table()[4].2 == position_schema());
        } else if i == 5 {
            assert(name == "rust_analyzer_symbols"@);
            assert(!acts_at_a_position(name));
        } else if i == 6 {
            assert(tool_table()[6].2 == position_schema());
        } else if i == 7 {
            assert(tool_table()[7].2 == position_schema());
        } else if i == 8 {
            assert(tool_table()[8].2 == position_schema());
        } else if i == 9 {
            assert(tool_table()[9].2 == position_schema());
        } else if i == 10 {
            assert(tool_table()[10].2 == position_schema());
        } else if i == 11 {
            assert(tool_table()[11].2 == position_schema());
        } else if i == 12 {
            assert(name == "rust_analyzer_runnables"@);
            assert(!acts_at_a_position(name));
        } else if i == 13 {
            assert(name == "rust_analyzer_workspace_symbols"@);
            assert(!acts_at_a_position(name));
        } else if i == 14 {
            assert(name == "rust_analyzer_ssr"@);
            assert(!acts_at_a_position(name));
        } else if i == 15 {
            assert(name == "rust_analyzer_format"@);
            assert(!acts_at_a_position(name));
        } else if i == 16 {
            assert(name == "rust_analyzer_code_actions"@);
            assert(name[14] != "rust_analyzer_blast_radius"@[14]);
            assert(name[14] != "rust_analyzer_expand_macro"@[14]);
            assert(!acts_at_a_position(name));
        } else if i == 17 {
            assert(name == "rust_analyzer_rename"@);
            assert(!acts_at_a_position(name));
        } else if i == 18 {
            assert(name == "rust_analyzer_set_workspace"@);
            assert(name[14] != "rust_analyzer_related_tests"@[14]);
            assert(!acts_at_a_position(name));
        } else if i == 19 {
            assert(name == "rust_analyzer_diagnostics"@);
            assert(!acts_at_a_position(name));
        } else if i == 20 {
            assert(name == "rust_analyzer_workspace_diagnostics"@);
            assert(!acts_at_a_position(name));
        }
    }
}



/// What the file schema asks for: `file_path` alone, a string, and no position.
pub proof fn lemma_file_schema_fields()
    ensures
        file_schema().get("required"@) == Some(JsonView::Array(seq![JsonView::Str("file_path"@)])),
        file_schema().at(seq!["properties"@, "file_path"@, "type"@]) == Some(JsonView::Str("string"@)),
        file_schema().at(seq!["properties"@, "line"@]) is None,
        file_schema().at(seq!["properties"@, "character"@]) is None,
{
    reveal_strlit("type");
    reveal_strlit("properties");
    reveal_strlit("required");
    reveal_strlit("workspace_path");
    reveal_strlit("file_path");
    reveal_strlit("line");
    reveal_strlit("character");
    reveal_strlit("string");
    reveal_with_fuel(key_index_from, 5);
    reveal_with_fuel(JsonView::at, 4);
    let names: Seq<Seq<char>> = seq!["file_path"@];
    assert(names.map_values(|n| JsonView::Str(n)) =~= seq![JsonView::Str("file_path"@)]);
    let members = file_schema()->Object_0;
    let props = members[1].1->Object_0;
    assert("type"@.len() == 4);
    assert("properties"@.len() == 10);
    assert("required"@.len() == 8);
    assert("workspace_path"@.len() == 14);
    assert("file_path"@.len() == 9);
    assert("line"@.len() == 4);
    assert("character"@.len() == 9);
    assert("file_path"@[0] != "character"@[0]);
    assert(members.len() == 3);
    assert(members[0].0 == "type"@);
    assert(members[1].0 == "properties"@);
    assert(members[2].0 == "required"@);
    assert(key_index_from(members, "required"@, 2) == Some(2int));
    assert(key_index_from(members, "required"@, 1) == Some(2int));
    assert(key_index_from(members, "properties"@, 1) == Some(1int));
    assert(key_index(members, "required"@) == Some(2int));
    assert(key_index(members, "properties"@) == Some(1int));
    assert(props.len() == 2);
    assert(props[0].0 == "workspace_path"@);
    assert(props[1].0 == "file_path"@);
    assert(key_index_from(props, "file_path"@, 1) == Some(1int));
    assert(key_index(props, "file_path"@) == Some(1int));
    assert(key_index_from(props, "line"@, 2) is None);
    assert(key_index_from(props, "line"@, 1) is None);
    assert(key_index(props, "line"@) is None);
    assert(key_index_from(props, "character"@, 2) is None);
    assert(key_index_from(props, "character"@, 1) is None);
    assert(key_index(props, "character"@) is None);
    assert(key_index(property("string"@, FILE@)->Object_0, "type"@) == Some(0int));
    let k1: Seq<Seq<char>> = seq!["properties"@, "file_path"@, "type"@];
    let k2: Seq<Seq<char>> = seq!["properties"@, "line"@];
    let k3: Seq<Seq<char>> = seq!["properties"@, "character"@];
    assert(k1.subrange(1, 3) =~= seq!["file_path"@, "type"@]);
    assert(k2.subrange(1, 2) =~= seq!["line"@]);
    assert(k3.subrange(1, 2) =~= seq!["character"@]);
    assert(seq!["file_path"@, "type"@].subrange(1, 2) =~= seq!["type"@]);
    assert(seq!["type"@].subrange(1, 1) =~= Seq::<Seq<char>>::empty());
}

/// Whether `name` is one of the tools that work on a whole file: the symbols, the formatting
/// and the diagnostics of one file.
pub open spec fn acts_on_a_file(name: Seq<char>) -> bool {
    ||| name == "rust_analyzer_symbols"@
    ||| name == "rust_analyzer_format"@
    ||| name == "rust_analyzer_diagnostics"@
}

/// Every tool that works on a whole file is listed, and is listed with a schema that asks for
/// the file alone: `file_path` is the one required parameter, and there is no `line` or
/// `character` to give.
pub proof fn lemma_file_tools_take_a_file()
    ensures
        forall|name: Seq<char>| #[trigger] acts_on_a_file(name) ==> exists|i: int|
            0 <= i < tool_listing().len() && (#[trigger] tool_listing()[i]).name == name,
        forall|i: int|
            0 <= i < tool_listing().len() && acts_on_a_file((#[trigger] tool_listing()[i]).name) ==> {
                let schema = tool_listing()[i].input_schema;
                &&& schema.get("required"@) == Some(JsonView::Array(seq![JsonView::Str("file_path"@)]))
                &&& schema.at(seq!["properties"@, "file_path"@, "type"@]) == Some(JsonView::Str("string"@))
                &&& schema.at(seq!["properties"@, "line"@]) is None
                &&& schema.at(seq!["properties"@, "character"@]) is None
            },
{
    lemma_file_schema_fields();
    reveal_strlit("rust_analyzer_hover");
    reveal_strlit("rust_analyzer_definition");
    reveal_strlit("rust_analyzer_references");
    reveal_strlit("rust_analyzer_blast_radius");
    reveal_strlit("rust_analyzer_completion");
    reveal_strlit("rust_analyzer_symbols");
    reveal_strlit("rust_analyzer_implementation");
    reveal_strlit("rust_analyzer_type_definition");
    reveal_strlit("rust_analyzer_incoming_calls");
    reveal_strlit("rust_analyzer_outgoing_calls");
    reveal_strlit("rust_analyzer_expand_macro");
    reveal_strlit("rust_analyzer_related_tests");
    reveal_strlit("rust_analyzer_runnables");
    reveal_strlit("rust_analyzer_workspace_symbols");
    reveal_strlit("rust_analyzer_ssr");
    reveal_strlit("rust_analyzer_format");
    reveal_strlit("rust_analyzer_code_actions");
    reveal_strlit("rust_analyzer_rename");
    reveal_strlit("rust_analyzer_set_workspace");
    reveal_strlit("rust_analyzer_diagnostics");
    reveal_strlit("rust_analyzer_workspace_diagnostics");
    assert("rust_analyzer_hover"@.len() == 19);
    assert("rust_analyzer_definition"@.len() == 24);
    assert("rust_analyzer_references"@.len() == 24);
    assert("rust_analyzer_blast_radius"@.len() == 26);
    assert("rust_analyzer_completion"@.len() == 24);
    assert("rust_analyzer_symbols"@.len() == 21);
    assert("rust_analyzer_implementation"@.len() == 28);
    assert("rust_analyzer_type_definition"@.len() == 29);
    assert("rust_analyzer_incoming_calls"@.len() == 28);
    assert("rust_analyzer_outgoing_calls"@.len() == 28);
    assert("rust_analyzer_expand_macro"@.len() == 26);
    assert("rust_analyzer_related_tests"@.len() == 27);
    assert("rust_analyzer_runnables"@.len() == 23);
    assert("rust_analyzer_workspace_symbols"@.len() == 31);
    assert("rust_analyzer_ssr"@.len() == 17);
    assert("rust_analyzer_format"@.len() == 20);
    assert("rust_analyzer_code_actions"@.len() == 26);
    assert("rust_analyzer_rename"@.len() == 20);
    assert("rust_analyzer_set_workspace"@.len() == 27);
    assert("rust_analyzer_diagnostics"@.len() == 25);
    assert("rust_analyzer_workspace_diagnostics"@.len() == 35);
    assert forall|name: Seq<char>| #[trigger] acts_on_a_file(name) implies exists|i: int|
        0 <= i < tool_listing().len() && (#[trigger] tool_listing()[i]).name == name by {
        if name == "rust_analyzer_symbols"@ {
            assert(tool_listing()[5].name == name);
        } else if name == "rust_analyzer_format"@ {
            assert(tool_listing()[15].name == name);
        } else if name == "rust_analyzer_diagnostics"@ {
            assert(tool_listing()[19].name == name);
        }
    }
    assert forall|i: int|
        0 <= i < tool_listing().len() && acts_on_a_file((#[trigger] tool_listing()[i]).name)
        implies tool_listing()[i].input_schema == file_schema() by {
        let name = tool_listing()[i].name;
        if i == 0 {
            assert(name == "rust_analyzer_hover"@);
            assert(!acts_on_a_file(name));
        } else if i == 1 {
            assert(name == "rust_analyzer_definition"@);
            assert(!acts_on_a_file(name));
        } else if i == 2 {
            assert(name == "rust_analyzer_references"@);
            assert(!acts_on_a_file(name));
        } else if i == 3 {
            assert(name == "rust_analyzer_blast_radius"@);
            assert(!acts_on_a_file(name));
        } else if i == 4 {
            assert(name == "rust_analyzer_completion"@);
            assert(!acts_on_a_file(name));
        } else if i == 5 {
            assert(tool_table()[5].2 == file_schema());
        } else if i == 6 {
            assert(name == "rust_analyzer_implementation"@);
            assert(!acts_on_a_file(name));
        } else if i == 7 {
            assert(name == "rust_analyzer_type_definition"@);
            assert(!acts_on_a_file(name));
        } else if i == 8 {
            assert(name == "rust_analyzer_incoming_calls"@);
            assert(!acts_on_a_file(name));
        } else if i == 9 {
            assert(name == "rust_analyzer_outgoing_calls"@);
            assert(!acts_on_a_file(name));
        } else if i == 10 {
            assert(name == "rust_analyzer_expand_macro"@);
            assert(!acts_on_a_file(name));
        } else if i == 11 {
            assert(name == "rust_analyzer_related_tests"@);
            assert(!acts_on_a_file(name));
        } else if i == 12 {
            assert(name == "rust_analyzer_runnables"@);
            assert(!acts_on_a_file(name));
        } else if i == 13 {
            assert(name == "rust_analyzer_workspace_symbols"@);
            assert(!acts_on_a_file(name));
        } else if i == 14 {
            assert(name == "rust_analyzer_ssr"@);
            assert(!acts_on_a_file(name));
        } else if i == 15 {
            assert(tool_table()[15].2 == file_schema());
        } else if i == 16 {
            assert(name == "rust_analyzer_code_actions"@);
            assert(!acts_on_a_file(name));
        } else if i == 17 {
            assert(name == "rust_analyzer_rename"@);
            assert(name[14] != "rust_analyzer_format"@[14]);
            assert(!acts_on_a_file(name));
        } else if i == 18 {
            assert(name == "rust_analyzer_set_workspace"@);
            assert(!acts_on_a_file(name));
        } else if i == 19 {
            assert(tool_table()[19].2 == file_schema());
        } else if i == 20 {
            assert(name == "rust_analyzer_workspace_diagnostics"@);
            assert(!acts_on_a_file(name));
        }
    }
}


} // verus!
