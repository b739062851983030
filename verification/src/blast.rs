//! What breaks if the symbol at a position changes: the references to it, split into the hits
//! that are production code and the hits that are tests, each named by what holds it.
//!
//! The split is made by the spans rust-analyzer offers to run (`test`, `test-mod`, `bench`),
//! not by file names, so unit tests in a `#[cfg(test)] mod tests` beside the code they test land
//! on the test side. A doctest's span is the documented item itself, so it is not a test span.
use vstd::prelude::*;
use vstd::std_specs::cmp::PartialEqSpecImpl;
use crate::json::{
    lemma_get_inserted, lemma_get_inserted_other, key_index_from,
    Json, JsonView, NumberView, json_view, array_view, members_view, lemma_array_view,
    lemma_array_view_push, lemma_get_member, lemma_members_view,
};
use crate::text::{
    first_word, first_word_of, same_text, joined, texts, join, has_prefix, lines, trimmed, trim,
    split_lines, starts_with, decimal, decimal_string,
};

verus! {

/// A span of one file that rust-analyzer offers to run as a test, a test module or a bench.
///
/// `label` is rust-analyzer's own wording (`test uri::tests::unix_paths_round_trip`,
/// `test-mod uri::tests`), kept verbatim because it says both which test and what kind.
#[derive(Debug, Clone)]
pub struct TestSpan {
    pub label: String,
    pub start_line: u64,
    pub end_line: u64,
}

/// The mathematical value of a `TestSpan`.
pub struct SpanView {
    pub label: Seq<char>,
    pub start_line: u64,
    pub end_line: u64,
}

impl View for TestSpan {
    type V = SpanView;

    open spec fn view(&self) -> SpanView {
        SpanView { label: self.label@, start_line: self.start_line, end_line: self.end_line }
    }
}

impl SpanView {
    /// Whether `line` lies within the span, both ends included.
    pub open spec fn contains(self, line: u64) -> bool {
        self.start_line <= line && line <= self.end_line
    }

    /// How many lines the span runs over past its first (zero when it ends before it starts).
    pub open spec fn lines(self) -> u64 {
        if self.end_line >= self.start_line {
            (self.end_line - self.start_line) as u64
        } else {
            0
        }
    }
}

/// The views of a sequence of spans.
pub open spec fn span_views(s: Seq<TestSpan>) -> Seq<SpanView> {
    s.map_values(|x: TestSpan| x@)
}

impl TestSpan {
    fn contains(&self, line: u64) -> (r: bool)
        ensures
            r == self@.contains(line),
    {
        self.start_line <= line && line <= self.end_line
    }

    fn lines(&self) -> (r: u64)
        ensures
            r == self@.lines(),
    {
        self.end_line.saturating_sub(self.start_line)
    }
}

impl PartialEq for TestSpan {
    fn eq(&self, other: &Self) -> (r: bool) {
        self.label == other.label && self.start_line == other.start_line && self.end_line
            == other.end_line
    }
}

impl Eq for TestSpan {}

impl PartialEqSpecImpl for TestSpan {
    open spec fn obeys_eq_spec() -> bool {
        true
    }

    open spec fn eq_spec(&self, other: &TestSpan) -> bool {
        self@ == other@
    }
}

/// Whether a runnable's label names code that ships with the crate but does not run in it: its
/// first word is `test`, `test-mod` or `bench`. `doctest` is not among them.
pub open spec fn is_test_kind(label: Seq<char>) -> bool {
    let kind = first_word(label);
    kind == "test"@ || kind == "test-mod"@ || kind == "bench"@
}

/// Whether a runnable's label describes something that is not production code.
fn is_test_label(label: &str) -> (r: bool)
    ensures
        r == is_test_kind(label@),
{
    let kind = first_word_of(label);
    same_text(kind.as_str(), "test") || same_text(kind.as_str(), "test-mod") || same_text(
        kind.as_str(),
        "bench",
    )
}

/// The text at the end of `keys`, when there is text there.
pub open spec fn text_at(j: JsonView, keys: Seq<Seq<char>>) -> Option<Seq<char>> {
    match j.at(keys) {
        Some(v) => v.as_str(),
        None => None,
    }
}

/// The unsigned integer at the end of `keys`, when there is one there.
pub open spec fn number_at(j: JsonView, keys: Seq<Seq<char>>) -> Option<u64> {
    match j.at(keys) {
        Some(v) => v.as_u64(),
        None => None,
    }
}

/// The test span a runnable stands for: one whose label is of a test kind and whose location
/// gives both ends of its target range.
pub open spec fn runnable_span(item: JsonView) -> Option<SpanView> {
    match text_at(item, seq!["label"@]) {
        Some(label) => if is_test_kind(label) {
            match (
                number_at(item, seq!["location"@, "targetRange"@, "start"@, "line"@]),
                number_at(item, seq!["location"@, "targetRange"@, "end"@, "line"@]),
            ) {
                (Some(start_line), Some(end_line)) => Some(
                    SpanView { label, start_line, end_line },
                ),
                _ => None,
            }
        } else {
            None
        },
        None => None,
    }
}

/// The test spans among `items`, in order.
pub open spec fn spans_among(items: Seq<JsonView>) -> Seq<SpanView>
    decreases items.len(),
{
    if items.len() == 0 {
        Seq::empty()
    } else {
        spans_among(items.drop_last()) + match runnable_span(items.last()) {
            Some(span) => seq![span],
            None => Seq::empty(),
        }
    }
}

/// The test spans of a file's runnables; none when the runnables are not an array.
pub open spec fn test_spans_of(runnables: JsonView) -> Seq<SpanView> {
    match runnables.as_array() {
        Some(items) => spans_among(items),
        None => Seq::empty(),
    }
}

/// The unsigned integer at the end of `keys` in `item`.
fn number_at_path(item: &Json, keys: &[&str]) -> (r: Option<u64>)
    ensures
        r == number_at(item@, keys@.map_values(|k: &str| k@)),
{
    match item.at(keys) {
        Some(v) => v.as_u64(),
        None => None,
    }
}

/// The test span a runnable stands for.
fn runnable_to_span(item: &Json) -> (r: Option<TestSpan>)
    ensures
        r matches Some(s) ==> runnable_span(item@) == Some(s@),
        r is None <==> runnable_span(item@) is None,
{
    let label_keys = ["label"];
    let start_keys = ["location", "targetRange", "start", "line"];
    let end_keys = ["location", "targetRange", "end", "line"];
    assert(label_keys@.map_values(|k: &str| k@) =~= seq!["label"@]);
    assert(start_keys@.map_values(|k: &str| k@) =~= seq![
        "location"@,
        "targetRange"@,
        "start"@,
        "line"@,
    ]);
    assert(end_keys@.map_values(|k: &str| k@) =~= seq![
        "location"@,
        "targetRange"@,
        "end"@,
        "line"@,
    ]);
    let label = match item.at(&label_keys) {
        Some(v) => match v.as_str() {
            Some(t) => t,
            None => return None,
        },
        None => return None,
    };
    if !is_test_label(label) {
        return None;
    }
    let start_line = match number_at_path(item, &start_keys) {
        Some(n) => n,
        None => return None,
    };
    let end_line = match number_at_path(item, &end_keys) {
        Some(n) => n,
        None => return None,
    };
    Some(TestSpan { label: String::from_str(label), start_line, end_line })
}

/// The runnables of one file, reduced to the spans that are tests.
///
/// Runnables with no location (those that stand for the whole package) give no span, and
/// neither do runnables whose label is not of a test kind: a `run` of `main` is not a test, and
/// a doctest's range is the documented item rather than the doctest.
pub fn test_spans(runnables: &Json) -> (r: Vec<TestSpan>)
    ensures
        span_views(r@) == test_spans_of(runnables@),
{
    let mut out: Vec<TestSpan> = Vec::new();
    let items = match runnables.as_array() {
        Some(items) => items,
        None => {
            assert(span_views(out@) =~= Seq::<SpanView>::empty());
            return out;
        },
    };
    let ghost iv = array_view(items@);
    proof {
        lemma_array_view(items@);
    }
    let mut i: usize = 0;
    while i < items.len()
        invariant
            i <= items@.len(),
            iv == array_view(items@),
            iv.len() == items@.len(),
            forall|j: int| 0 <= j < iv.len() ==> #[trigger] iv[j] == json_view(items@[j]),
            runnables@.as_array() == Some(iv),
            span_views(out@) == spans_among(iv.take(i as int)),
        decreases items@.len() - i,
    {
        assert(iv.take(i + 1).drop_last() =~= iv.take(i as int));
        assert(iv.take(i + 1).last() == json_view(items@[i as int]));
        let ghost before = out@;
        match runnable_to_span(&items[i]) {
            Some(span) => {
                out.push(span);
                assert(span_views(out@) =~= span_views(before).push(span@));
            },
            None => {},
        }
        assert(span_views(out@) =~= spans_among(iv.take(i + 1)));
        i = i + 1;
    }
    assert(iv.take(items@.len() as int) =~= iv);
    out
}


/// The index of the narrowest span holding `line`, the first of them on a tie; `None` when no
/// span holds it.
pub open spec fn innermost_index(spans: Seq<SpanView>, line: u64) -> Option<int>
    decreases spans.len(),
{
    if spans.len() == 0 {
        None
    } else {
        let prev = innermost_index(spans.drop_last(), line);
        let last = spans.len() - 1;
        if spans[last].contains(line) && (prev matches Some(p) ==> spans[last].lines()
            < spans[p].lines()) {
            Some(last)
        } else {
            prev
        }
    }
}

/// The innermost test span covering a line, or `None` if the line is not in a test.
///
/// A `#[test]` function inside a `#[cfg(test)] mod tests` is covered by two spans, the
/// module's and its own; the narrower one names the single test to run, so ties go to the
/// shorter span (and, between equal ones, to the first).
pub fn innermost(spans: &[TestSpan], line: u64) -> (r: Option<&TestSpan>)
    ensures
        r is None <==> innermost_index(span_views(spans@), line) is None,
        r matches Some(s) ==> innermost_index(span_views(spans@), line) matches Some(i) && *s
            == spans@[i],
{
    let ghost sv = span_views(spans@);
    let mut best: Option<usize> = None;
    let mut i: usize = 0;
    while i < spans.len()
        invariant
            i <= spans@.len(),
            sv == span_views(spans@),
            sv.len() == spans@.len(),
            best matches Some(b) ==> b < i,
            innermost_index(sv.take(i as int), line) == match best {
                Some(b) => Some(b as int),
                None => None::<int>,
            },
        decreases spans@.len() - i,
    {
        let ghost prefix = sv.take(i + 1);
        assert(prefix.drop_last() =~= sv.take(i as int));
        assert(prefix[i as int] == spans@[i as int]@);
        if spans[i].contains(line) {
            match best {
                Some(b) => {
                    assert(prefix[b as int] == spans@[b as int]@);
                    if spans[i].lines() < spans[b].lines() {
                        best = Some(i);
                    }
                },
                None => {
                    best = Some(i);
                },
            }
        }
        i = i + 1;
    }
    assert(sv.take(spans@.len() as int) =~= sv);
    match best {
        Some(b) => Some(&spans[b]),
        None => None,
    }
}

/// The span `innermost` picks holds the line, no span holding the line is narrower, and every
/// span before it that holds the line is wider; when it picks none, no span holds the line.
pub proof fn lemma_innermost_is_narrowest(spans: Seq<SpanView>, line: u64)
    ensures
        innermost_index(spans, line) matches Some(i) ==> {
            &&& 0 <= i < spans.len()
            &&& spans[i].contains(line)
            &&& forall|j: int|
                0 <= j < spans.len() && #[trigger] spans[j].contains(line) ==> spans[i].lines()
                    <= spans[j].lines()
            &&& forall|j: int|
                0 <= j < i && #[trigger] spans[j].contains(line) ==> spans[i].lines()
                    < spans[j].lines()
        },
        innermost_index(spans, line) is None ==> forall|j: int|
            0 <= j < spans.len() ==> !(#[trigger] spans[j].contains(line)),
    decreases spans.len(),
{
    if spans.len() > 0 {
        let init = spans.drop_last();
        lemma_innermost_is_narrowest(init, line);
        assert forall|j: int| 0 <= j < init.len() implies init[j] == spans[j] by {}
    }
}


/// The first of two lookups that found something.
pub open spec fn either(a: Option<JsonView>, b: Option<JsonView>) -> Option<JsonView> {
    match a {
        Some(v) => Some(v),
        None => b,
    }
}

/// The unsigned integer a lookup found, if it found one.
pub open spec fn unsigned_of(o: Option<JsonView>) -> Option<u64> {
    match o {
        Some(v) => v.as_u64(),
        None => None,
    }
}

/// The first and last line of a symbol, from either shape rust-analyzer may send: `range` on
/// a hierarchical `DocumentSymbol`, `location.range` on a flat `SymbolInformation`.
pub open spec fn symbol_range_of(sym: JsonView) -> Option<(u64, u64)> {
    let start = unsigned_of(
        either(
            sym.at(seq!["range"@, "start"@, "line"@]),
            sym.at(seq!["location"@, "range"@, "start"@, "line"@]),
        ),
    );
    let end = unsigned_of(
        either(
            sym.at(seq!["range"@, "end"@, "line"@]),
            sym.at(seq!["location"@, "range"@, "end"@, "line"@]),
        ),
    );
    match (start, end) {
        (Some(s), Some(e)) => Some((s, e)),
        _ => None,
    }
}

/// Whether a symbol's range holds `line`.
pub open spec fn covers_line(sym: JsonView, line: u64) -> bool {
    symbol_range_of(sym) matches Some((s, e)) && s <= line && line <= e
}

/// How many lines a symbol runs over past its first, when its range is known.
pub open spec fn span_lines_of(sym: JsonView) -> Option<u64> {
    match symbol_range_of(sym) {
        Some((s, e)) => Some(
            if e >= s {
                (e - s) as u64
            } else {
                0
            },
        ),
        None => None,
    }
}

/// The size a symbol is ranked by: its line count, or the largest `u64` when unknown.
pub open spec fn symbol_size(sym: JsonView) -> u64 {
    match span_lines_of(sym) {
        Some(n) => n,
        None => u64::MAX,
    }
}

/// The index of the smallest symbol of `level` covering `line`, the first of them on a tie.
pub open spec fn deepest_index(level: Seq<JsonView>, line: u64) -> Option<int>
    decreases level.len(),
{
    if level.len() == 0 {
        None
    } else {
        let prev = deepest_index(level.drop_last(), line);
        let last = level.len() - 1;
        if covers_line(level[last], line) && (prev matches Some(p) ==> symbol_size(level[last])
            < symbol_size(level[p])) {
            Some(last)
        } else {
            prev
        }
    }
}

pub proof fn lemma_deepest_index_bounds(level: Seq<JsonView>, line: u64)
    ensures
        deepest_index(level, line) matches Some(d) ==> 0 <= d < level.len() && covers_line(
            level[d],
            line,
        ),
    decreases level.len(),
{
    if level.len() > 0 {
        lemma_deepest_index_bounds(level.drop_last(), line);
    }
}

/// The children of a symbol, when it has at least one.
pub open spec fn child_level(sym: JsonView) -> Option<Seq<JsonView>> {
    match sym.get("children"@) {
        Some(c) => match c.as_array() {
            Some(ch) => if ch.len() > 0 {
                Some(ch)
            } else {
                None
            },
            None => None,
        },
        None => None,
    }
}

/// The names on the way down from `level` to the deepest symbol covering `line`: at each level
/// the smallest covering symbol is taken, its name (if it has one) is kept, and the walk goes on
/// into its children until none of them covers the line.
pub open spec fn enclosing_path(level: Seq<JsonView>, line: u64) -> Seq<Seq<char>>
    decreases level,
{
    match deepest_index(level, line) {
        None => Seq::empty(),
        Some(d) => {
            proof {
                lemma_deepest_index_bounds(level, line);
            }
            let sym = level[d];
            let here = match text_at(sym, seq!["name"@]) {
                Some(name) => seq![name],
                None => Seq::empty(),
            };
            match child_level(sym) {
                Some(ch) => {
                    proof {
                        let k = lemma_get_member(sym, "children"@);
                        let es = sym->Object_0;
                        assert(decreases_to!(level => level[d]));
                        assert(decreases_to!(level[d] => es));
                        assert(decreases_to!(es => es[k]));
                        assert(decreases_to!(es[k] => es[k].1));
                        assert(decreases_to!(es[k].1 => es[k].1->Array_0));
                    }
                    here + enclosing_path(ch, line)
                },
                None => here,
            }
        },
    }
}

/// The path of named items enclosing `line` in a symbol tree, joined with `::`.
pub open spec fn enclosing_item_of(symbols: JsonView, line: u64) -> Option<Seq<char>> {
    match symbols.as_array() {
        Some(level) => {
            let path = enclosing_path(level, line);
            if path.len() == 0 {
                None
            } else {
                Some(joined(path, "::"@))
            }
        },
        None => None,
    }
}


/// The range of a symbol.
fn symbol_range(sym: &Json) -> (r: Option<(u64, u64)>)
    ensures
        r == symbol_range_of(sym@),
{
    let range_start = ["range", "start", "line"];
    let location_start = ["location", "range", "start", "line"];
    let range_end = ["range", "end", "line"];
    let location_end = ["location", "range", "end", "line"];
    assert(range_start@.map_values(|k: &str| k@) =~= seq!["range"@, "start"@, "line"@]);
    assert(location_start@.map_values(|k: &str| k@) =~= seq![
        "location"@,
        "range"@,
        "start"@,
        "line"@,
    ]);
    assert(range_end@.map_values(|k: &str| k@) =~= seq!["range"@, "end"@, "line"@]);
    assert(location_end@.map_values(|k: &str| k@) =~= seq![
        "location"@,
        "range"@,
        "end"@,
        "line"@,
    ]);
    let start = match sym.at(&range_start) {
        Some(v) => v.as_u64(),
        None => match sym.at(&location_start) {
            Some(v) => v.as_u64(),
            None => None,
        },
    };
    let end = match sym.at(&range_end) {
        Some(v) => v.as_u64(),
        None => match sym.at(&location_end) {
            Some(v) => v.as_u64(),
            None => None,
        },
    };
    match (start, end) {
        (Some(s), Some(e)) => Some((s, e)),
        _ => None,
    }
}

fn covers(sym: &Json, line: u64) -> (r: bool)
    ensures
        r == covers_line(sym@, line),
{
    match symbol_range(sym) {
        Some((start, end)) => start <= line && line <= end,
        None => false,
    }
}

fn span_lines(sym: &Json) -> (r: Option<u64>)
    ensures
        r == span_lines_of(sym@),
{
    match symbol_range(sym) {
        Some((start, end)) => Some(end.saturating_sub(start)),
        None => None,
    }
}

/// The index of the smallest symbol of `level` covering `line`.
fn deepest_covering(level: &Vec<Json>, line: u64) -> (r: Option<usize>)
    ensures
        r matches Some(d) ==> deepest_index(array_view(level@), line) == Some(d as int),
        r is None ==> deepest_index(array_view(level@), line) is None,
{
    let ghost lv = array_view(level@);
    proof {
        lemma_array_view(level@);
    }
    let mut best: Option<(usize, u64)> = None;
    let mut i: usize = 0;
    while i < level.len()
        invariant
            i <= level@.len(),
            lv == array_view(level@),
            lv.len() == level@.len(),
            forall|j: int| 0 <= j < lv.len() ==> #[trigger] lv[j] == json_view(level@[j]),
            best matches Some((b, size)) ==> b < i && size == symbol_size(lv[b as int]),
            deepest_index(lv.take(i as int), line) == match best {
                Some((b, _)) => Some(b as int),
                None => None::<int>,
            },
        decreases level@.len() - i,
    {
        let ghost prefix = lv.take(i + 1);
        assert(prefix.drop_last() =~= lv.take(i as int));
        assert(prefix[i as int] == lv[i as int]);
        if covers(&level[i], line) {
            let size = match span_lines(&level[i]) {
                Some(n) => n,
                None => u64::MAX,
            };
            match best {
                Some((b, best_size)) => {
                    assert(prefix[b as int] == lv[b as int]);
                    if size < best_size {
                        best = Some((i, size));
                    }
                },
                None => {
                    best = Some((i, size));
                },
            }
        }
        i = i + 1;
    }
    assert(lv.take(level@.len() as int) =~= lv);
    match best {
        Some((b, _)) => Some(b),
        None => None,
    }
}

/// Appends to `path` the names on the way down from `level` to the deepest symbol covering
/// `line`.
fn descend(level: &Vec<Json>, line: u64, path: &mut Vec<String>)
    ensures
        texts(final(path)@) == texts(old(path)@) + enclosing_path(array_view(level@), line),
    decreases level,
{
    let ghost lv = array_view(level@);
    let ghost start = texts(path@);
    proof {
        lemma_array_view(level@);
        lemma_deepest_index_bounds(lv, line);
    }
    let d = match deepest_covering(level, line) {
        Some(d) => d,
        None => {
            assert(texts(path@) =~= start + Seq::<Seq<char>>::empty());
            return ;
        },
    };
    let sym = &level[d];
    assert(lv[d as int] == sym@);
    let name_keys = ["name"];
    assert(name_keys@.map_values(|k: &str| k@) =~= seq!["name"@]);
    let ghost here: Seq<Seq<char>> = match text_at(sym@, seq!["name"@]) {
        Some(name) => seq![name],
        None => Seq::empty(),
    };
    match sym.at(&name_keys) {
        Some(v) => match v.as_str() {
            Some(name) => {
                path.push(String::from_str(name));
            },
            None => {},
        },
        None => {},
    }
    assert(texts(path@) =~= start + here);
    match sym.get("children") {
        Some(c) => match c.as_array() {
            Some(ch) => {
                if ch.len() > 0 {
                    proof {
                        lemma_array_view(ch@);
                        let k = choose|k: int|
                            0 <= k < sym->Object_0.len() && sym->Object_0@[k].1 == *c;
                        let es = sym->Object_0;
                        assert(decreases_to!(*level => level[d as int]));
                        assert(decreases_to!(level[d as int] => es));
                        assert(decreases_to!(es => es[k]));
                        assert(decreases_to!(es[k] => es[k].1));
                        assert(decreases_to!(es[k].1 => es[k].1->Array_0));
                    }
                    descend(ch, line, path);
                    assert(texts(path@) =~= start + (here + enclosing_path(array_view(ch@), line)));
                }
            },
            None => {},
        },
        None => {},
    }
}

/// The path of named items enclosing a line, from a hierarchical `DocumentSymbol` tree, joined
/// the way Rust writes it.
///
/// This walks to the deepest item whose range covers the line, so a method inside an impl
/// inside a module comes back fully qualified; a line between two methods is inside the impl and
/// inside neither of them, and the impl is the answer. Doc comments are inside `range`, so a
/// mention in the doc comment of a function is a mention from that function.
pub fn enclosing_item(symbols: &Json, line: u64) -> (r: Option<String>)
    ensures
        r matches Some(s) ==> enclosing_item_of(symbols@, line) == Some(s@),
        r is None <==> enclosing_item_of(symbols@, line) is None,
{
    let level = match symbols.as_array() {
        Some(level) => level,
        None => return None,
    };
    let mut path: Vec<String> = Vec::new();
    descend(level, line, &mut path);
    assert(texts(path@) =~= enclosing_path(array_view(level@), line));
    if path.len() == 0 {
        None
    } else {
        Some(join(&path, "::"))
    }
}


/// The text of a hover: `contents.value` (markup), or `contents` itself when that is text.
pub open spec fn hover_text(hover: JsonView) -> Option<Seq<char>> {
    match text_at(hover, seq!["contents"@, "value"@]) {
        Some(t) => Some(t),
        None => text_at(hover, seq!["contents"@]),
    }
}

/// The lines inside fenced `rust` blocks, reading `lines` in order from a state that is
/// `inside` a rust block or not. A fence line (one starting with three backticks) opens a rust
/// block when it starts with them followed by `rust`, and otherwise closes or opens another kind.
pub open spec fn fenced_from(lines: Seq<Seq<char>>, inside: bool) -> Seq<Seq<char>>
    decreases lines.len(),
{
    if lines.len() == 0 {
        Seq::empty()
    } else {
        let line = lines[0];
        let rest = lines.subrange(1, lines.len() as int);
        if has_prefix(line, "```"@) {
            fenced_from(rest, has_prefix(line, "```rust"@))
        } else if inside {
            seq![line] + fenced_from(rest, inside)
        } else {
            fenced_from(rest, inside)
        }
    }
}

/// The declaration a hover shows: the lines of its rust code blocks, joined and trimmed, or
/// the whole trimmed text when it has no such block; `None` when the hover says nothing.
pub open spec fn hover_signature_of(hover: JsonView) -> Option<Seq<char>> {
    match hover_text(hover) {
        Some(text) => if trimmed(text).len() == 0 {
            None
        } else {
            let fenced = fenced_from(lines(text), false);
            let signature = if fenced.len() == 0 {
                trimmed(text)
            } else {
                trimmed(joined(fenced, seq!['\n']))
            };
            if signature.len() == 0 {
                None
            } else {
                Some(signature)
            }
        },
        None => None,
    }
}

/// The declaration rust-analyzer shows on hover, without the prose under it.
///
/// A hover is one or more fenced `rust` blocks followed by rustdoc. Every rust block is kept,
/// in order: the first is usually the module path and the signature comes after it. `None`
/// means the hover said nothing, which is not to be read as a symbol nothing uses.
pub fn hover_signature(hover: &Json) -> (r: Option<String>)
    ensures
        r matches Some(s) ==> hover_signature_of(hover@) == Some(s@),
        r is None <==> hover_signature_of(hover@) is None,
{
    let value_keys = ["contents", "value"];
    let contents_keys = ["contents"];
    assert(value_keys@.map_values(|k: &str| k@) =~= seq!["contents"@, "value"@]);
    assert(contents_keys@.map_values(|k: &str| k@) =~= seq!["contents"@]);
    let from_value = match hover.at(&value_keys) {
        Some(v) => v.as_str(),
        None => None,
    };
    let text = match from_value {
        Some(t) => t,
        None => match hover.at(&contents_keys) {
            Some(v) => match v.as_str() {
                Some(t) => t,
                None => return None,
            },
            None => return None,
        },
    };
    let whole = trim(text);
    if whole.as_str().is_empty() {
        return None;
    }
    let all = split_lines(text);
    let ghost lv = texts(all@);
    let mut fenced: Vec<String> = Vec::new();
    let mut inside = false;
    let mut i: usize = 0;
    assert(lv.subrange(0, lv.len() as int) =~= lv);
    while i < all.len()
        invariant
            i <= all@.len(),
            lv == texts(all@),
            lv.len() == all@.len(),
            fenced_from(lv, false) == texts(fenced@) + fenced_from(
                lv.subrange(i as int, lv.len() as int),
                inside,
            ),
        decreases all@.len() - i,
    {
        let ghost rest = lv.subrange(i as int, lv.len() as int);
        assert(rest[0] == all@[i as int]@);
        assert(rest.subrange(1, rest.len() as int) =~= lv.subrange(i + 1, lv.len() as int));
        let line = all[i].as_str();
        if starts_with(line, "```") {
            inside = starts_with(line, "```rust");
        } else if inside {
            let ghost before = fenced@;
            fenced.push(all[i].clone());
            assert(texts(fenced@) =~= texts(before).push(line@));
            assert(texts(fenced@) + fenced_from(lv.subrange(i + 1, lv.len() as int), inside)
                =~= texts(before) + (seq![line@] + fenced_from(
                lv.subrange(i + 1, lv.len() as int),
                inside,
            )));
        }
        i = i + 1;
    }
    assert(lv.subrange(i as int, lv.len() as int) =~= Seq::<Seq<char>>::empty());
    assert(texts(fenced@) =~= texts(fenced@) + Seq::<Seq<char>>::empty());
    proof {
        reveal_strlit("\n");
    }
    let signature = if fenced.len() == 0 {
        whole
    } else {
        let together = join(&fenced, "\n");
        trim(together.as_str())
    };
    assert("\n"@ == seq!['\n']);
    if signature.as_str().is_empty() {
        None
    } else {
        Some(signature)
    }
}


/// Everything known about one file that references are being classified against.
#[derive(Debug)]
pub struct FileContext {
    /// The test spans of the file, or `None` if rust-analyzer would not say: an empty list
    /// means the file has no tests in it, and `None` means nobody knows.
    pub test_spans: Option<Vec<TestSpan>>,
    /// The file's symbol tree, used to name what each hit is inside.
    pub symbols: Json,
}

impl Default for FileContext {
    /// Nothing known: no test spans, and no symbols.
    fn default() -> (r: FileContext)
        ensures
            r@ == (FileContextView { test_spans: None, symbols: JsonView::Null }),
    {
        FileContext { test_spans: None, symbols: Json::Null }
    }
}

/// The mathematical value of a `FileContext`.
pub struct FileContextView {
    pub test_spans: Option<Seq<SpanView>>,
    pub symbols: JsonView,
}

impl View for FileContext {
    type V = FileContextView;

    open spec fn view(&self) -> FileContextView {
        FileContextView {
            test_spans: match self.test_spans {
                Some(v) => Some(span_views(v@)),
                None => None,
            },
            symbols: self.symbols@,
        }
    }
}

/// The map from each file's path to what is known about it, built from `entries` in order.
pub open spec fn contexts_map(entries: Seq<(String, FileContext)>) -> Map<
    Seq<char>,
    FileContextView,
>
    decreases entries.len(),
{
    if entries.len() == 0 {
        Map::empty()
    } else {
        contexts_map(entries.drop_last()).insert(entries.last().0@, entries.last().1@)
    }
}

/// Whether no two of `entries` have the same path.
pub open spec fn paths_distinct(entries: Seq<(String, FileContext)>) -> bool {
    forall|i: int, j: int|
        0 <= i < entries.len() && 0 <= j < entries.len() && i != j ==> entries[i].0@
            != entries[j].0@
}

/// In a map built from entries with distinct paths, each entry's path maps to its context,
/// and the paths it holds are exactly theirs.
pub proof fn lemma_contexts_map(entries: Seq<(String, FileContext)>)
    requires
        paths_distinct(entries),
    ensures
        forall|i: int|
            0 <= i < entries.len() ==> #[trigger] contexts_map(entries).contains_key(entries[i].0@)
                && contexts_map(entries)[entries[i].0@] == entries[i].1@,
        forall|k: Seq<char>|
            #[trigger] contexts_map(entries).contains_key(k) ==> exists|i: int|
                0 <= i < entries.len() && entries[i].0@ == k,
    decreases entries.len(),
{
    if entries.len() > 0 {
        let init = entries.drop_last();
        assert(paths_distinct(init)) by {
            assert forall|i: int, j: int|
                0 <= i < init.len() && 0 <= j < init.len() && i != j implies init[i].0@
                != init[j].0@ by {
                assert(init[i] == entries[i] && init[j] == entries[j]);
            }
        }
        lemma_contexts_map(init);
        assert forall|i: int| 0 <= i < entries.len() implies #[trigger] contexts_map(
            entries,
        ).contains_key(entries[i].0@) && contexts_map(entries)[entries[i].0@] == entries[i].1@ by {
            if i < entries.len() - 1 {
                assert(init[i] == entries[i]);
                assert(contexts_map(init).contains_key(init[i].0@));
                assert(entries[i].0@ != entries.last().0@);
            }
        }
        assert forall|k: Seq<char>| #[trigger]
            contexts_map(entries).contains_key(k) implies exists|i: int|
            0 <= i < entries.len() && entries[i].0@ == k by {
            if k != entries.last().0@ {
                assert(contexts_map(init).contains_key(k));
                let i = choose|i: int| 0 <= i < init.len() && init[i].0@ == k;
                assert(entries[i] == init[i]);
            } else {
                assert(entries[entries.len() - 1].0@ == k);
            }
        }
    }
}

/// The contexts of the files that references are classified against, one per path.
pub struct FileContexts {
    entries: Vec<(String, FileContext)>,
}

impl View for FileContexts {
    type V = Map<Seq<char>, FileContextView>;

    closed spec fn view(&self) -> Map<Seq<char>, FileContextView> {
        contexts_map(self.entries@)
    }
}

impl FileContexts {
    #[verifier::type_invariant]
    spec fn well_formed(self) -> bool {
        paths_distinct(self.entries@)
    }

    /// No file known yet.
    pub fn new() -> (r: FileContexts)
        ensures
            r@ == Map::<Seq<char>, FileContextView>::empty(),
    {
        FileContexts { entries: Vec::new() }
    }

    /// How many files are known.
    pub fn len(&self) -> (r: usize)
        ensures
            r == self@.len(),
    {
        proof {
            use_type_invariant(self);
            self.lemma_len();
        }
        self.entries.len()
    }

    proof fn lemma_len(&self)
        requires
            paths_distinct(self.entries@),
        ensures
            self@.len() == self.entries@.len(),
            self@.dom().finite(),
    {
        let es = self.entries@;
        lemma_contexts_map(es);
        let keys = es.map_values(|e: (String, FileContext)| e.0@);
        assert(keys.no_duplicates()) by {
            assert forall|i: int, j: int|
                0 <= i < keys.len() && 0 <= j < keys.len() && i != j implies keys[i]
                != keys[j] by {}
        }
        assert(self@.dom() =~= keys.to_set()) by {
            assert forall|k: Seq<char>| self@.dom().contains(k) <==> keys.to_set().contains(k) by {
                if self@.dom().contains(k) {
                    let i = choose|i: int| 0 <= i < es.len() && es[i].0@ == k;
                    assert(keys[i] == k);
                }
                if keys.to_set().contains(k) {
                    let i = choose|i: int| 0 <= i < keys.len() && keys[i] == k;
                    assert(self@.contains_key(es[i].0@));
                }
            }
        }
        keys.unique_seq_to_set();
    }

    /// The index of the entry for `path`.
    fn index_of(&self, path: &str) -> (r: Option<usize>)
        ensures
            r matches Some(i) ==> i < self.entries@.len() && self.entries@[i as int].0@ == path@,
            r is None ==> forall|i: int|
                0 <= i < self.entries@.len() ==> self.entries@[i].0@ != path@,
    {
        let mut i: usize = 0;
        while i < self.entries.len()
            invariant
                i <= self.entries@.len(),
                forall|j: int| 0 <= j < i ==> self.entries@[j].0@ != path@,
            decreases self.entries@.len() - i,
        {
            if same_text(self.entries[i].0.as_str(), path) {
                return Some(i);
            }
            i = i + 1;
        }
        None
    }

    /// What is known about the file at `path`.
    pub fn get(&self, path: &str) -> (r: Option<&FileContext>)
        ensures
            r matches Some(c) ==> self@.contains_key(path@) && self@[path@] == c@,
            r is None ==> !self@.contains_key(path@),
    {
        proof {
            use_type_invariant(self);
            lemma_contexts_map(self.entries@);
        }
        match self.index_of(path) {
            Some(i) => {
                assert(contexts_map(self.entries@).contains_key(self.entries@[i as int].0@));
                Some(&self.entries[i].1)
            },
            None => None,
        }
    }

    /// Records what is known about the file at `path`, replacing what was known before.
    pub fn insert(&mut self, path: String, context: FileContext)
        ensures
            final(self)@ == old(self)@.insert(path@, context@),
    {
        proof {
            use_type_invariant(&*self);
            lemma_contexts_map(self.entries@);
        }
        let ghost before = self.entries@;
        let ghost pv = path@;
        let ghost cv = context@;
        let found = self.index_of(path.as_str());
        let mut entries: Vec<(String, FileContext)> = Vec::new();
        std::mem::swap(&mut entries, &mut self.entries);
        match found {
            Some(i) => {
                entries.set(i, (path, context));
                proof {
                    let after = entries@;
                    assert(paths_distinct(after)) by {
                        assert forall|a: int, b: int|
                            0 <= a < after.len() && 0 <= b < after.len() && a != b implies after[a].0@
                            != after[b].0@ by {
                            if a != i && b != i {
                                assert(after[a] == before[a] && after[b] == before[b]);
                            } else if a == i {
                                assert(after[b] == before[b]);
                            } else {
                                assert(after[a] == before[a]);
                            }
                        }
                    }
                    lemma_contexts_map(after);
                    assert(contexts_map(after) =~= contexts_map(before).insert(pv, cv)) by {
                        assert forall|k: Seq<char>| #[trigger]
                            contexts_map(after).contains_key(k) <==> contexts_map(
                                before,
                            ).insert(pv, cv).contains_key(k) by {
                            if contexts_map(after).contains_key(k) {
                                let j = choose|j: int| 0 <= j < after.len() && after[j].0@ == k;
                                if j != i {
                                    assert(after[j] == before[j]);
                                }
                            }
                            if contexts_map(before).contains_key(k) {
                                let j = choose|j: int| 0 <= j < before.len() && before[j].0@ == k;
                                if j != i {
                                    assert(after[j] == before[j]);
                                } else {
                                    assert(after[j].0@ == k);
                                }
                            }
                        }
                        assert forall|k: Seq<char>| #[trigger]
                            contexts_map(after).contains_key(k) implies contexts_map(after)[k]
                            == contexts_map(before).insert(pv, cv)[k] by {
                            let j = choose|j: int| 0 <= j < after.len() && after[j].0@ == k;
                            if j != i {
                                assert(after[j] == before[j]);
                            }
                        }
                    }
                }
            },
            None => {
                entries.push((path, context));
                proof {
                    let after = entries@;
                    assert(after.drop_last() =~= before);
                    assert(paths_distinct(after)) by {
                        assert forall|a: int, b: int|
                            0 <= a < after.len() && 0 <= b < after.len() && a != b implies after[a].0@
                            != after[b].0@ by {
                            if a < before.len() && b < before.len() {
                                assert(after[a] == before[a] && after[b] == before[b]);
                            } else if a < before.len() {
                                assert(after[a] == before[a]);
                            } else {
                                assert(after[b] == before[b]);
                            }
                        }
                    }
                }
            },
        }
        self.entries = entries;
    }
}


/// The rest of the warning given when some references could not be classified; it follows
/// their number.
pub const UNPLACED_NOTE: &'static str = " reference(s) could not be placed on either side of the \
    test/production split, because rust-analyzer would not say which parts of their file it \
    would run. They are listed under `unclassified`; treat the production count as a lower \
    bound.";

/// The warning given when nothing refers to the symbol.
pub const NOTHING_REFERS_NOTE: &'static str = "Nothing refers to this symbol anywhere in the loaded \
    workspace. That is a real answer, not an empty one -- the position was checked against \
    rust-analyzer before the search -- but it is about reference edges only: a copy of this code \
    pasted elsewhere has no edge to it and would not appear here. A repo-wide text sweep for the \
    name is the other half of that question.";

/// Where one reference lands.
pub enum Placement {
    /// The declaration of the symbol, which is no use of it.
    Declaration,
    /// A hit in a file whose tests nobody could say: it is on neither side.
    Unclassified,
    /// A hit inside a test span, carrying the label of the innermost such span as `test`.
    Test(JsonView),
    /// A hit outside every test span, carrying the item that holds it as `item` when known.
    Production(JsonView),
}

/// The file a hit is in (empty when it does not say).
pub open spec fn hit_file(hit: JsonView) -> Seq<char> {
    match text_at(hit, seq!["file"@]) {
        Some(f) => f,
        None => Seq::empty(),
    }
}

/// Whether a hit is marked as the declaration.
pub open spec fn is_declaration(hit: JsonView) -> bool {
    match hit.get("declaration"@) {
        Some(d) => d.as_bool() == Some(true),
        None => false,
    }
}

/// Where a hit lands, given what is known about each file.
pub open spec fn placement(hit: JsonView, contexts: Map<Seq<char>, FileContextView>) -> Placement {
    if is_declaration(hit) {
        Placement::Declaration
    } else {
        match number_at(hit, seq!["line"@]) {
            None => Placement::Unclassified,
            Some(line) => if !contexts.contains_key(hit_file(hit)) {
                Placement::Unclassified
            } else {
                let known = contexts[hit_file(hit)];
                match known.test_spans {
                    None => Placement::Unclassified,
                    Some(spans) => match innermost_index(spans, line) {
                        Some(i) => Placement::Test(
                            hit.inserted("test"@, JsonView::Str(spans[i].label)),
                        ),
                        None => Placement::Production(
                            match enclosing_item_of(known.symbols, line) {
                                Some(item) => hit.inserted("item"@, JsonView::Str(item)),
                                None => hit,
                            },
                        ),
                    },
                }
            },
        }
    }
}

/// The production references among `hits`, in order.
pub open spec fn production_among(
    hits: Seq<JsonView>,
    contexts: Map<Seq<char>, FileContextView>,
) -> Seq<JsonView>
    decreases hits.len(),
{
    if hits.len() == 0 {
        Seq::empty()
    } else {
        production_among(hits.drop_last(), contexts) + match placement(hits.last(), contexts) {
            Placement::Production(h) => seq![h],
            _ => Seq::empty(),
        }
    }
}

/// The test references among `hits`, in order.
pub open spec fn tests_among(hits: Seq<JsonView>, contexts: Map<Seq<char>, FileContextView>) -> Seq<
    JsonView,
>
    decreases hits.len(),
{
    if hits.len() == 0 {
        Seq::empty()
    } else {
        tests_among(hits.drop_last(), contexts) + match placement(hits.last(), contexts) {
            Placement::Test(h) => seq![h],
            _ => Seq::empty(),
        }
    }
}

/// The hits among `hits` that could not be classified, in order.
pub open spec fn unclassified_among(
    hits: Seq<JsonView>,
    contexts: Map<Seq<char>, FileContextView>,
) -> Seq<JsonView>
    decreases hits.len(),
{
    if hits.len() == 0 {
        Seq::empty()
    } else {
        unclassified_among(hits.drop_last(), contexts) + match placement(hits.last(), contexts) {
            Placement::Unclassified => seq![hits.last()],
            _ => Seq::empty(),
        }
    }
}

/// The last hit among `hits` marked as the declaration.
pub open spec fn declaration_among(hits: Seq<JsonView>) -> Option<JsonView>
    decreases hits.len(),
{
    if hits.len() == 0 {
        None
    } else if is_declaration(hits.last()) {
        Some(hits.last())
    } else {
        declaration_among(hits.drop_last())
    }
}

/// The files of `hits`, each once, in the order they first appear.
pub open spec fn files_among(hits: Seq<JsonView>) -> Seq<Seq<char>>
    decreases hits.len(),
{
    if hits.len() == 0 {
        Seq::empty()
    } else {
        let seen = files_among(hits.drop_last());
        let file = hit_file(hits.last());
        if seen.contains(file) {
            seen
        } else {
            seen.push(file)
        }
    }
}

/// The references an annotated reference list holds (none when it holds no array of them).
pub open spec fn locations_of(annotated: JsonView) -> Seq<JsonView> {
    match annotated.get("locations"@) {
        Some(l) => match l.as_array() {
            Some(hits) => hits,
            None => Seq::empty(),
        },
        None => Seq::empty(),
    }
}

/// The warning given when `n` references could not be classified.
pub open spec fn unplaced_warning(n: nat) -> Seq<char> {
    decimal(n) + UNPLACED_NOTE@
}

/// The warnings of an answer: one when some references could not be classified, and one when
/// nothing refers to the symbol at all.
pub open spec fn warnings_of(
    production: Seq<JsonView>,
    tests: Seq<JsonView>,
    unclassified: Seq<JsonView>,
) -> Seq<JsonView> {
    (if unclassified.len() > 0 {
        seq![JsonView::Str(unplaced_warning(unclassified.len()))]
    } else {
        Seq::empty()
    }) + (if production.len() == 0 && tests.len() == 0 && unclassified.len() == 0 {
        seq![JsonView::Str(NOTHING_REFERS_NOTE@)]
    } else {
        Seq::empty()
    })
}

/// A side of the split: how many references it has, and the references.
pub open spec fn side_of(refs: Seq<JsonView>) -> JsonView {
    JsonView::Object(
        seq![
            ("count"@, JsonView::Number(NumberView::Unsigned(refs.len() as u64))),
            ("references"@, JsonView::Array(refs)),
        ],
    )
}

/// The answer to "what breaks if this symbol changes".
pub open spec fn blast_radius(
    target: JsonView,
    annotated: JsonView,
    contexts: Map<Seq<char>, FileContextView>,
    implementations: JsonView,
) -> JsonView {
    let hits = locations_of(annotated);
    let production = production_among(hits, contexts);
    let tests = tests_among(hits, contexts);
    let unclassified = unclassified_among(hits, contexts);
    let base = JsonView::Object(
        seq![
            ("target"@, target),
            ("complete"@, JsonView::Bool(unclassified.len() == 0)),
            ("production"@, side_of(production)),
            ("tests"@, side_of(tests)),
            ("files_touched"@, JsonView::Array(files_among(hits).map_values(|f| JsonView::Str(f)))),
            ("warnings"@, JsonView::Array(warnings_of(production, tests, unclassified))),
        ],
    );
    let with_declaration = match declaration_among(hits) {
        Some(d) => base.inserted("declaration"@, d),
        None => base,
    };
    let with_unclassified = if unclassified.len() > 0 {
        with_declaration.inserted("unclassified"@, JsonView::Array(unclassified))
    } else {
        with_declaration
    };
    match implementations.as_array() {
        Some(items) => if items.len() > 0 {
            with_unclassified.inserted("implementations"@, implementations)
        } else {
            with_unclassified
        },
        None => with_unclassified,
    }
}


/// A hit, placed.
enum Placed {
    Declaration(Json),
    Unclassified(Json),
    Test(Json),
    Production(Json),
}

/// Whether the placed hit is where `placement` puts `hit`, carrying what it says.
spec fn placed_as(p: Placed, hit: JsonView, contexts: Map<Seq<char>, FileContextView>) -> bool {
    match p {
        Placed::Declaration(h) => placement(hit, contexts) is Declaration && h@ == hit,
        Placed::Unclassified(h) => placement(hit, contexts) is Unclassified && h@ == hit,
        Placed::Test(h) => placement(hit, contexts) == Placement::Test(h@),
        Placed::Production(h) => placement(hit, contexts) == Placement::Production(h@),
    }
}

/// The file a hit is in, as text (empty when it does not say).
fn file_of(hit: &Json) -> (r: String)
    ensures
        r@ == hit_file(hit@),
{
    let keys = ["file"];
    assert(keys@.map_values(|k: &str| k@) =~= seq!["file"@]);
    match hit.at(&keys) {
        Some(v) => match v.as_str() {
            Some(f) => String::from_str(f),
            None => String::new(),
        },
        None => String::new(),
    }
}

/// Places one hit.
fn place(hit: Json, contexts: &FileContexts) -> (r: Placed)
    ensures
        placed_as(r, hit@, contexts@),
{
    let declared = match hit.get("declaration") {
        Some(d) => d.as_bool(),
        None => None,
    };
    if declared == Some(true) {
        return Placed::Declaration(hit);
    }
    let line_keys = ["line"];
    assert(line_keys@.map_values(|k: &str| k@) =~= seq!["line"@]);
    let line = match hit.at(&line_keys) {
        Some(v) => match v.as_u64() {
            Some(n) => n,
            None => return Placed::Unclassified(hit),
        },
        None => return Placed::Unclassified(hit),
    };
    assert(hit@.get("line"@) is Some);
    let file = file_of(&hit);
    let known = match contexts.get(file.as_str()) {
        Some(known) => known,
        None => return Placed::Unclassified(hit),
    };
    let spans = match &known.test_spans {
        Some(spans) => spans,
        None => return Placed::Unclassified(hit),
    };
    proof {
        lemma_get_member(hit@, "line"@);
    }
    let ghost sv = span_views(spans@);
    match innermost(spans.as_slice(), line) {
        Some(span) => {
            let ghost i = innermost_index(sv, line)->0;
            proof {
                lemma_innermost_is_narrowest(sv, line);
            }
            assert(span@ == sv[i]);
            let mut hit = hit;
            hit.insert(String::from_str("test"), Json::Str(span.label.clone()));
            Placed::Test(hit)
        },
        None => match enclosing_item(&known.symbols, line) {
            Some(item) => {
                let mut hit = hit;
                hit.insert(String::from_str("item"), Json::Str(item));
                Placed::Production(hit)
            },
            None => Placed::Production(hit),
        },
    }
}

/// Whether `v` holds the text `t`.
fn holds_text(v: &Vec<String>, t: &str) -> (r: bool)
    ensures
        r == texts(v@).contains(t@),
{
    let mut i: usize = 0;
    while i < v.len()
        invariant
            i <= v@.len(),
            forall|j: int| 0 <= j < i ==> v@[j]@ != t@,
        decreases v@.len() - i,
    {
        if same_text(v[i].as_str(), t) {
            assert(texts(v@)[i as int] == t@);
            return true;
        }
        i = i + 1;
    }
    assert forall|j: int| 0 <= j < texts(v@).len() implies texts(v@)[j] != t@ by {}
    false
}

/// One side of the split as a JSON object: its count and its references.
fn side(refs: Vec<Json>) -> (r: Json)
    ensures
        r@ == side_of(array_view(refs@)),
{
    proof {
        lemma_array_view(refs@);
    }
    let count = Json::unsigned(refs.len() as u64);
    let members = vec![
        (String::from_str("count"), count),
        (String::from_str("references"), Json::Array(refs)),
    ];
    proof {
        lemma_members_view(members@);
    }
    assert(members_view(members@) =~= side_of(array_view(refs@))->Object_0);
    Json::Object(members)
}

/// The answer to "what breaks if the symbol changes": the references of `annotated`, split into
/// production and tests, with the declaration lifted out of both.
///
/// `complete` is false when any file could not be classified, and then the hits of that file
/// are listed under `unclassified` and both counts are lower bounds. Implementations are
/// reported only when there are some.
#[verifier::spinoff_prover]
#[verifier::rlimit(50)]
pub fn assemble(target: Json, annotated: &Json, contexts: &FileContexts, implementations: &Json) -> (answer: Json)
    ensures
        answer@ == blast_radius(target@, annotated@, contexts@, implementations@),
{
    let no_hits: Vec<Json> = Vec::new();
    let hits: &Vec<Json> = match annotated.get("locations") {
        Some(l) => match l.as_array() {
            Some(a) => a,
            None => &no_hits,
        },
        None => &no_hits,
    };
    let ghost hv = array_view(hits@);
    let ghost cv = contexts@;
    proof {
        lemma_array_view(hits@);
        lemma_array_view(no_hits@);
        assert(hv =~= locations_of(annotated@));
    }
    let mut declaration: Option<Json> = None;
    let mut production: Vec<Json> = Vec::new();
    let mut tests: Vec<Json> = Vec::new();
    let mut unclassified: Vec<Json> = Vec::new();
    let mut files: Vec<String> = Vec::new();
    proof {
        lemma_array_view(production@);
        lemma_array_view(tests@);
        lemma_array_view(unclassified@);
        assert(texts(files@) =~= Seq::<Seq<char>>::empty());
    }
    let mut i: usize = 0;
    while i < hits.len()
        invariant
            i <= hits@.len(),
            hv == array_view(hits@),
            hv.len() == hits@.len(),
            forall|j: int| 0 <= j < hv.len() ==> #[trigger] hv[j] == json_view(hits@[j]),
            cv == contexts@,
            array_view(production@) == production_among(hv.take(i as int), cv),
            array_view(tests@) == tests_among(hv.take(i as int), cv),
            array_view(unclassified@) == unclassified_among(hv.take(i as int), cv),
            texts(files@) == files_among(hv.take(i as int)),
            match declaration {
                Some(d) => declaration_among(hv.take(i as int)) == Some(d@),
                None => declaration_among(hv.take(i as int)) is None,
            },
        decreases hits@.len() - i,
    {
        let ghost prefix = hv.take(i + 1);
        assert(prefix.drop_last() =~= hv.take(i as int));
        assert(prefix.last() == hv[i as int]);
        let hit = hits[i].copy();
        let file = file_of(&hit);
        let ghost files_before = files@;
        if !holds_text(&files, file.as_str()) {
            files.push(file);
            assert(texts(files@) =~= texts(files_before).push(hit_file(hv[i as int])));
        }
        let ghost pb = production@;
        let ghost tb = tests@;
        let ghost ub = unclassified@;
        match place(hit, contexts) {
            Placed::Declaration(h) => {
                declaration = Some(h);
            },
            Placed::Unclassified(h) => {
                proof {
                    lemma_array_view_push(ub, h);
                }
                unclassified.push(h);
            },
            Placed::Test(h) => {
                proof {
                    lemma_array_view_push(tb, h);
                }
                tests.push(h);
            },
            Placed::Production(h) => {
                proof {
                    lemma_array_view_push(pb, h);
                }
                production.push(h);
            },
        }
        i = i + 1;
    }
    proof {
        assert(hv.take(hits@.len() as int) =~= hv);
    }
    let ghost pv = array_view(production@);
    let ghost tv = array_view(tests@);
    let ghost uv = array_view(unclassified@);
    proof {
        lemma_array_view(production@);
        lemma_array_view(tests@);
        lemma_array_view(unclassified@);
    }
    let unclassified_count = unclassified.len();
    let nothing = production.len() == 0 && tests.len() == 0 && unclassified_count == 0;
    let mut warnings: Vec<Json> = Vec::new();
    if unclassified_count > 0 {
        let mut text = decimal_string(unclassified_count);
        text.append(UNPLACED_NOTE);
        warnings.push(Json::Str(text));
    }
    if nothing {
        warnings.push(Json::text(NOTHING_REFERS_NOTE));
    }
    proof {
        lemma_array_view(warnings@);
    }
    assert(array_view(warnings@) =~= warnings_of(pv, tv, uv));
    let mut touched: Vec<Json> = Vec::new();
    let mut k: usize = 0;
    while k < files.len()
        invariant
            k <= files@.len(),
            touched@.len() == k,
            forall|j: int| 0 <= j < k ==> json_view(#[trigger] touched@[j]) == JsonView::Str(files@[j]@),
        decreases files@.len() - k,
    {
        touched.push(Json::text(files[k].as_str()));
        k = k + 1;
    }
    proof {
        lemma_array_view(touched@);
    }
    assert(array_view(touched@) =~= files_among(hv).map_values(|f| JsonView::Str(f)));
    let complete = unclassified_count == 0;
    let members = vec![
        (String::from_str("target"), target),
        (String::from_str("complete"), Json::Bool(complete)),
        (String::from_str("production"), side(production)),
        (String::from_str("tests"), side(tests)),
        (String::from_str("files_touched"), Json::Array(touched)),
        (String::from_str("warnings"), Json::Array(warnings)),
    ];
    proof {
        lemma_members_view(members@);
    }
    let ghost hits_v = locations_of(annotated@);
    let ghost base = JsonView::Object(
        seq![
            ("target"@, target@),
            ("complete"@, JsonView::Bool(uv.len() == 0)),
            ("production"@, side_of(pv)),
            ("tests"@, side_of(tv)),
            ("files_touched"@, JsonView::Array(files_among(hits_v).map_values(|f| JsonView::Str(f)))),
            ("warnings"@, JsonView::Array(warnings_of(pv, tv, uv))),
        ],
    );
    assert(members_view(members@) =~= base->Object_0);
    let mut answer = Json::Object(members);
    assert(answer@ == base);
    match declaration {
        Some(d) => {
            answer.insert(String::from_str("declaration"), d);
        },
        None => {},
    }
    if unclassified_count > 0 {
        answer.insert(String::from_str("unclassified"), Json::Array(unclassified));
    }
    match implementations.as_array() {
        Some(items) => {
            if items.len() > 0 {
                answer.insert(String::from_str("implementations"), implementations.copy());
            }
        },
        None => {},
    }
    answer
}


/// How many of `hits` are marked as the declaration.
pub open spec fn declarations_among(hits: Seq<JsonView>) -> nat
    decreases hits.len(),
{
    if hits.len() == 0 {
        0
    } else {
        declarations_among(hits.drop_last()) + if is_declaration(hits.last()) {
            1nat
        } else {
            0nat
        }
    }
}

/// Every reference lands in exactly one place: on the production side, on the test side,
/// among the unclassified, or, for the declaration, on neither side.
pub proof fn lemma_every_hit_lands_once(
    hits: Seq<JsonView>,
    contexts: Map<Seq<char>, FileContextView>,
)
    ensures
        production_among(hits, contexts).len() + tests_among(hits, contexts).len()
            + unclassified_among(hits, contexts).len() + declarations_among(hits) == hits.len(),
    decreases hits.len(),
{
    if hits.len() > 0 {
        lemma_every_hit_lands_once(hits.drop_last(), contexts);
    }
}

/// A hit in a file whose test spans nobody could say is never counted as production (or as a
/// test): unless it is the declaration, it is unclassified.
pub proof fn lemma_unknown_file_is_unclassified(
    hit: JsonView,
    contexts: Map<Seq<char>, FileContextView>,
)
    requires
        !is_declaration(hit),
        !contexts.contains_key(hit_file(hit)) || contexts[hit_file(hit)].test_spans is None,
    ensures
        placement(hit, contexts) is Unclassified,
{
}

/// A hit inside some test span of its file is a test hit, named by the innermost of them; a hit
/// outside all of them is a production hit.
pub proof fn lemma_test_spans_decide_the_side(
    hit: JsonView,
    contexts: Map<Seq<char>, FileContextView>,
    line: u64,
    spans: Seq<SpanView>,
)
    requires
        !is_declaration(hit),
        number_at(hit, seq!["line"@]) == Some(line),
        contexts.contains_key(hit_file(hit)),
        contexts[hit_file(hit)].test_spans == Some(spans),
    ensures
        (exists|j: int| 0 <= j < spans.len() && #[trigger] spans[j].contains(line)) ==> placement(hit, contexts) is Test,
        (forall|j: int| 0 <= j < spans.len() ==> !(#[trigger] spans[j].contains(line))) ==> placement(hit, contexts) is Production,
{
    lemma_innermost_is_narrowest(spans, line);
}

/// Every span `test_spans` gives comes from a runnable whose label is a test, a test module or
/// a bench: never a doctest and never a `run`.
pub proof fn lemma_spans_are_test_kinds(items: Seq<JsonView>)
    ensures
        forall|k: int|
            0 <= k < spans_among(items).len() ==> is_test_kind(#[trigger] spans_among(items)[k].label),
    decreases items.len(),
{
    if items.len() > 0 {
        lemma_spans_are_test_kinds(items.drop_last());
        let init = spans_among(items.drop_last());
        assert forall|k: int| 0 <= k < spans_among(items).len() implies is_test_kind(
            #[trigger] spans_among(items)[k].label,
        ) by {
            if k < init.len() {
                assert(spans_among(items)[k] == init[k]);
            }
        }
    }
}

/// The symbol `enclosing_item` descends into at each level covers the line, and no covering
/// symbol of that level is smaller; among equally small ones it is the first.
pub proof fn lemma_deepest_is_smallest(level: Seq<JsonView>, line: u64)
    ensures
        deepest_index(level, line) matches Some(d) ==> {
            &&& 0 <= d < level.len()
            &&& covers_line(level[d], line)
            &&& forall|j: int|
                0 <= j < level.len() && #[trigger] covers_line(level[j], line) ==> symbol_size(level[d])
                    <= symbol_size(level[j])
            &&& forall|j: int|
                0 <= j < d && #[trigger] covers_line(level[j], line) ==> symbol_size(level[d])
                    < symbol_size(level[j])
        },
        deepest_index(level, line) is None ==> forall|j: int|
            0 <= j < level.len() ==> !(#[trigger] covers_line(level[j], line)),
    decreases level.len(),
{
    if level.len() > 0 {
        let init = level.drop_last();
        lemma_deepest_is_smallest(init, line);
        assert forall|j: int| 0 <= j < init.len() implies init[j] == level[j] by {}
    }
}


/// The members of an answer before the optional ones are added.
pub open spec fn answer_base(
    target: JsonView,
    annotated: JsonView,
    contexts: Map<Seq<char>, FileContextView>,
) -> JsonView {
    let hits = locations_of(annotated);
    let production = production_among(hits, contexts);
    let tests = tests_among(hits, contexts);
    let unclassified = unclassified_among(hits, contexts);
    JsonView::Object(
        seq![
            ("target"@, target),
            ("complete"@, JsonView::Bool(unclassified.len() == 0)),
            ("production"@, side_of(production)),
            ("tests"@, side_of(tests)),
            ("files_touched"@, JsonView::Array(files_among(hits).map_values(|f| JsonView::Str(f)))),
            ("warnings"@, JsonView::Array(warnings_of(production, tests, unclassified))),
        ],
    )
}

/// What an answer says under each of its keys: the target as given; `complete` exactly when no
/// reference went unclassified; each side with its references; the warnings; the declaration
/// when there is one; the unclassified references when there are any; and the implementations
/// when there are any.
pub proof fn lemma_reading_the_answer(
    target: JsonView,
    annotated: JsonView,
    contexts: Map<Seq<char>, FileContextView>,
    implementations: JsonView,
)
    ensures
        ({
            let answer = blast_radius(target, annotated, contexts, implementations);
            let hits = locations_of(annotated);
            let production = production_among(hits, contexts);
            let tests = tests_among(hits, contexts);
            let unclassified = unclassified_among(hits, contexts);
            &&& answer.get("target"@) == Some(target)
            &&& answer.get("complete"@) == Some(JsonView::Bool(unclassified.len() == 0))
            &&& answer.get("production"@) == Some(side_of(production))
            &&& answer.get("tests"@) == Some(side_of(tests))
            &&& answer.get("files_touched"@) == Some(
                JsonView::Array(files_among(hits).map_values(|f| JsonView::Str(f))),
            )
            &&& answer.get("warnings"@) == Some(
                JsonView::Array(warnings_of(production, tests, unclassified)),
            )
            &&& answer.get("declaration"@) == declaration_among(hits)
            &&& answer.get("unclassified"@) == if unclassified.len() > 0 {
                Some(JsonView::Array(unclassified))
            } else {
                None
            }
            &&& answer.get("implementations"@) == match implementations.as_array() {
                Some(items) => if items.len() > 0 {
                    Some(implementations)
                } else {
                    None
                },
                None => None,
            }
        }),
{
    reveal_strlit("target");
    reveal_strlit("complete");
    reveal_strlit("production");
    reveal_strlit("tests");
    reveal_strlit("files_touched");
    reveal_strlit("warnings");
    reveal_strlit("declaration");
    reveal_strlit("unclassified");
    reveal_strlit("implementations");
    let hits = locations_of(annotated);
    let unclassified = unclassified_among(hits, contexts);
    let base = answer_base(target, annotated, contexts);
    let es = base->Object_0;
    assert("target"@.len() == 6);
    assert("complete"@.len() == 8);
    assert("production"@.len() == 10);
    assert("tests"@.len() == 5);
    assert("files_touched"@.len() == 13);
    assert("warnings"@.len() == 8);
    assert("declaration"@.len() == 11);
    assert("unclassified"@.len() == 12);
    assert("implementations"@.len() == 15);
    assert("complete"@[0] != "warnings"@[0]);
    assert(key_index_from(es, "target"@, 0) == Some(0int));

    assert(key_index_from(es, "complete"@, 1) == Some(1int));
    assert(key_index_from(es, "complete"@, 0) == Some(1int));
    assert(key_index_from(es, "production"@, 2) == Some(2int));
    assert(key_index_from(es, "production"@, 1) == Some(2int));
    assert(key_index_from(es, "production"@, 0) == Some(2int));
    assert(key_index_from(es, "tests"@, 3) == Some(3int));
    assert(key_index_from(es, "tests"@, 2) == Some(3int));
    assert(key_index_from(es, "tests"@, 1) == Some(3int));
    assert(key_index_from(es, "tests"@, 0) == Some(3int));
    assert(key_index_from(es, "files_touched"@, 4) == Some(4int));
    assert(key_index_from(es, "files_touched"@, 3) == Some(4int));
    assert(key_index_from(es, "files_touched"@, 2) == Some(4int));
    assert(key_index_from(es, "files_touched"@, 1) == Some(4int));
    assert(key_index_from(es, "files_touched"@, 0) == Some(4int));
    assert(key_index_from(es, "warnings"@, 5) == Some(5int));
    assert(key_index_from(es, "warnings"@, 4) == Some(5int));
    assert(key_index_from(es, "warnings"@, 3) == Some(5int));
    assert(key_index_from(es, "warnings"@, 2) == Some(5int));
    assert(key_index_from(es, "warnings"@, 1) == Some(5int));
    assert(key_index_from(es, "warnings"@, 0) == Some(5int));
    assert(key_index_from(es, "declaration"@, 6) is None);
    assert(key_index_from(es, "declaration"@, 5) is None);
    assert(key_index_from(es, "declaration"@, 4) is None);
    assert(key_index_from(es, "declaration"@, 3) is None);
    assert(key_index_from(es, "declaration"@, 2) is None);
    assert(key_index_from(es, "declaration"@, 1) is None);
    assert(key_index_from(es, "declaration"@, 0) is None);
    assert(key_index_from(es, "unclassified"@, 6) is None);
    assert(key_index_from(es, "unclassified"@, 5) is None);
    assert(key_index_from(es, "unclassified"@, 4) is None);
    assert(key_index_from(es, "unclassified"@, 3) is None);
    assert(key_index_from(es, "unclassified"@, 2) is None);
    assert(key_index_from(es, "unclassified"@, 1) is None);
    assert(key_index_from(es, "unclassified"@, 0) is None);
    assert(key_index_from(es, "implementations"@, 6) is None);
    assert(key_index_from(es, "implementations"@, 5) is None);
    assert(key_index_from(es, "implementations"@, 4) is None);
    assert(key_index_from(es, "implementations"@, 3) is None);
    assert(key_index_from(es, "implementations"@, 2) is None);
    assert(key_index_from(es, "implementations"@, 1) is None);
    assert(key_index_from(es, "implementations"@, 0) is None);
    let keys = seq![
        "target"@,
        "complete"@,
        "production"@,
        "tests"@,
        "files_touched"@,
        "warnings"@,
        "declaration"@,
        "unclassified"@,
        "implementations"@,
    ];
    let with_declaration = match declaration_among(hits) {
        Some(d) => base.inserted("declaration"@, d),
        None => base,
    };
    let with_unclassified = if unclassified.len() > 0 {
        with_declaration.inserted("unclassified"@, JsonView::Array(unclassified))
    } else {
        with_declaration
    };
    assert forall|k: int| 0 <= k < keys.len() && keys[k] != "declaration"@ implies
        #[trigger] with_declaration.get(keys[k]) == base.get(keys[k]) by {
        if let Some(d) = declaration_among(hits) {
            lemma_get_inserted_other(base, "declaration"@, d, keys[k]);
        }
    }
    if let Some(d) = declaration_among(hits) {
        lemma_get_inserted(base, "declaration"@, d);
    }
    assert forall|k: int| 0 <= k < keys.len() && keys[k] != "unclassified"@ implies
        #[trigger] with_unclassified.get(keys[k]) == with_declaration.get(keys[k]) by {
        if unclassified.len() > 0 {
            lemma_get_inserted_other(
                with_declaration,
                "unclassified"@,
                JsonView::Array(unclassified),
                keys[k],
            );
        }
    }
    if unclassified.len() > 0 {
        lemma_get_inserted(with_declaration, "unclassified"@, JsonView::Array(unclassified));
    }
    if let Some(items) = implementations.as_array() {
        if items.len() > 0 {
            assert forall|k: int| 0 <= k < keys.len() && keys[k] != "implementations"@ implies
                #[trigger] with_unclassified.inserted("implementations"@, implementations).get(
                keys[k],
            ) == with_unclassified.get(keys[k]) by {
                lemma_get_inserted_other(
                    with_unclassified,
                    "implementations"@,
                    implementations,
                    keys[k],
                );
            }
            lemma_get_inserted(with_unclassified, "implementations"@, implementations);
        }
    }
    assert(keys[0] == "target"@);
    assert(keys[1] == "complete"@);
    assert(keys[2] == "production"@);
    assert(keys[3] == "tests"@);
    assert(keys[4] == "files_touched"@);
    assert(keys[5] == "warnings"@);
    assert(keys[6] == "declaration"@);
    assert(keys[7] == "unclassified"@);
    assert(keys[8] == "implementations"@);
    let answer = blast_radius(target, annotated, contexts, implementations);
    assert(answer == match implementations.as_array() {
        Some(items) => if items.len() > 0 {
            with_unclassified.inserted("implementations"@, implementations)
        } else {
            with_unclassified
        },
        None => with_unclassified,
    });
    assert(with_unclassified.get("target"@) == Some(target));
    assert(answer.get("target"@) == Some(target));
}


/// Every line `fenced_from` keeps is one of the lines it was given, and none of them is a fence
/// line.
pub proof fn lemma_fenced_lines_are_code(lines: Seq<Seq<char>>, inside: bool)
    ensures
        forall|k: int|
            0 <= k < fenced_from(lines, inside).len() ==> lines.contains(
                #[trigger] fenced_from(lines, inside)[k],
            ) && !has_prefix(fenced_from(lines, inside)[k], "```"@),
    decreases lines.len(),
{
    if lines.len() > 0 {
        let line = lines[0];
        let rest = lines.subrange(1, lines.len() as int);
        let next = if has_prefix(line, "```"@) {
            has_prefix(line, "```rust"@)
        } else {
            inside
        };
        lemma_fenced_lines_are_code(rest, next);
        let kept = fenced_from(rest, next);
        assert forall|k: int| 0 <= k < fenced_from(lines, inside).len() implies lines.contains(
            #[trigger] fenced_from(lines, inside)[k],
        ) && !has_prefix(fenced_from(lines, inside)[k], "```"@) by {
            if !has_prefix(line, "```"@) && inside {
                if k == 0 {
                    assert(lines[0] == line);
                } else {
                    assert(fenced_from(lines, inside)[k] == kept[k - 1]);
                    let j = choose|j: int| 0 <= j < rest.len() && rest[j] == kept[k - 1];
                    assert(lines[j + 1] == rest[j]);
                }
            } else {
                let j = choose|j: int| 0 <= j < rest.len() && rest[j] == kept[k];
                assert(lines[j + 1] == rest[j]);
            }
        }
    }
}

/// A signature is never the empty string: a hover that says nothing gives `None`.
pub proof fn lemma_signature_is_never_empty(hover: JsonView)
    ensures
        hover_signature_of(hover) matches Some(s) ==> s.len() > 0,
{
}


/// The files listed as touched are the files of the hits: each hit's file is among them (the
/// declaration's too), each of them is some hit's file, and none is listed twice.
pub proof fn lemma_files_among(hits: Seq<JsonView>)
    ensures
        forall|k: int| 0 <= k < hits.len() ==> files_among(hits).contains(hit_file(#[trigger] hits[k])),
        forall|j: int|
            0 <= j < files_among(hits).len() ==> exists|k: int|
                0 <= k < hits.len() && #[trigger] files_among(hits)[j] == hit_file(hits[k]),
        files_among(hits).no_duplicates(),
    decreases hits.len(),
{
    if hits.len() > 0 {
        let init = hits.drop_last();
        lemma_files_among(init);
        let seen = files_among(init);
        let file = hit_file(hits.last());
        assert forall|k: int| 0 <= k < hits.len() implies files_among(hits).contains(
            hit_file(#[trigger] hits[k]),
        ) by {
            if k < hits.len() - 1 {
                assert(init[k] == hits[k]);
                let j = choose|j: int| 0 <= j < seen.len() && seen[j] == hit_file(init[k]);
                if !seen.contains(file) {
                    assert(seen.push(file)[j] == seen[j]);
                }
            } else if !seen.contains(file) {
                assert(seen.push(file)[seen.len() as int] == file);
            }
        }
        assert forall|j: int| 0 <= j < files_among(hits).len() implies exists|k: int|
            0 <= k < hits.len() && #[trigger] files_among(hits)[j] == hit_file(hits[k]) by {
            if j < seen.len() {
                let k = choose|k: int| 0 <= k < init.len() && seen[j] == hit_file(init[k]);
                assert(init[k] == hits[k]);
                if !seen.contains(file) {
                    assert(seen.push(file)[j] == seen[j]);
                }
            } else {
                assert(files_among(hits)[j] == hit_file(hits[hits.len() - 1]));
            }
        }
    }
}

/// Whether one of the first `k` hits names the file `f`.
pub open spec fn named_before(hits: Seq<JsonView>, k: int, f: Seq<char>) -> bool {
    exists|m: int| 0 <= m < k && #[trigger] hit_file(hits[m]) == f
}

/// The files come in the order in which the hits first name them: wherever a hit names a
/// file, each file listed ahead of it was named by an earlier hit.
pub proof fn lemma_files_in_first_seen_order(hits: Seq<JsonView>)
    ensures
        forall|a: int, b: int, k: int|
            #![trigger files_among(hits)[a], files_among(hits)[b], hits[k]]
            0 <= a < b < files_among(hits).len() && 0 <= k < hits.len() && hit_file(hits[k])
                == files_among(hits)[b] ==> named_before(hits, k, files_among(hits)[a]),
    decreases hits.len(),
{
    if hits.len() > 0 {
        let init = hits.drop_last();
        lemma_files_in_first_seen_order(init);
        lemma_files_among(init);
        let seen = files_among(init);
        let file = hit_file(hits.last());
        let files = files_among(hits);
        let n = hits.len() - 1;
        assert forall|a: int, b: int, k: int|
            #![trigger files[a], files[b], hits[k]]
            0 <= a < b < files.len() && 0 <= k < hits.len() && hit_file(hits[k]) == files[b]
            implies named_before(hits, k, files[a]) by {
            assert(a < seen.len());
            if !seen.contains(file) {
                assert(seen.push(file)[a] == seen[a]);
            }
            assert(files[a] == seen[a]);
            if k < n {
                assert(init[k] == hits[k]);
                if b < seen.len() {
                    if !seen.contains(file) {
                        assert(seen.push(file)[b] == seen[b]);
                    }
                    assert(files[b] == seen[b]);
                    assert(named_before(init, k, seen[a]));
                    let m = choose|m: int| 0 <= m < k && #[trigger] hit_file(init[m]) == seen[a];
                    assert(init[m] == hits[m]);
                    assert(hit_file(hits[m]) == files[a]);
                } else {
                    assert(files[b] == file);
                    assert(seen.contains(hit_file(init[k])));
                }
            } else {
                let m = choose|m: int| 0 <= m < init.len() && #[trigger] seen[a] == hit_file(init[m]);
                assert(init[m] == hits[m]);
                assert(hit_file(hits[m]) == files[a]);
            }
        }
    }
}

/// Every hit's file is listed under `files_touched`, the declaration's included, and nothing
/// else is: each listed file is some hit's file, none is listed twice, and they come in the
/// order in which the hits first name them.
pub proof fn lemma_files_touched_are_the_files_of_the_hits(
    target: JsonView,
    annotated: JsonView,
    contexts: Map<Seq<char>, FileContextView>,
    implementations: JsonView,
)
    ensures
        ({
            let answer = blast_radius(target, annotated, contexts, implementations);
            let hits = locations_of(annotated);
            &&& answer.get("files_touched"@) matches Some(JsonView::Array(files))
            &&& forall|k: int|
                0 <= k < hits.len() ==> files.contains(JsonView::Str(hit_file(#[trigger] hits[k])))
            &&& forall|j: int|
                0 <= j < files.len() ==> exists|k: int|
                    0 <= k < hits.len() && #[trigger] files[j] == JsonView::Str(hit_file(hits[k]))
            &&& files.no_duplicates()
            &&& forall|a: int, b: int, k: int|
                #![trigger files[a], files[b], hits[k]]
                0 <= a < b < files.len() && 0 <= k < hits.len() && files[b] == JsonView::Str(
                    hit_file(hits[k]),
                ) ==> exists|m: int|
                    0 <= m < k && files[a] == JsonView::Str(hit_file(#[trigger] hits[m]))
        }),
{
    lemma_reading_the_answer(target, annotated, contexts, implementations);
    let hits = locations_of(annotated);
    lemma_files_among(hits);
    lemma_files_in_first_seen_order(hits);
    let names = files_among(hits);
    let files = names.map_values(|f| JsonView::Str(f));
    assert forall|k: int| 0 <= k < hits.len() implies files.contains(
        JsonView::Str(hit_file(#[trigger] hits[k])),
    ) by {
        let j = choose|j: int| 0 <= j < names.len() && names[j] == hit_file(hits[k]);
        assert(files[j] == JsonView::Str(names[j]));
    }
    assert forall|j: int| 0 <= j < files.len() implies exists|k: int|
        0 <= k < hits.len() && #[trigger] files[j] == JsonView::Str(hit_file(hits[k])) by {
        assert(files[j] == JsonView::Str(names[j]));
        let k = choose|k: int| 0 <= k < hits.len() && #[trigger] names[j] == hit_file(hits[k]);
    }
    assert forall|a: int, b: int| 0 <= a < files.len() && 0 <= b < files.len() && a != b implies
        files[a] != files[b] by {
        assert(files[a] == JsonView::Str(names[a]));
        assert(files[b] == JsonView::Str(names[b]));
    }
    assert forall|a: int, b: int, k: int|
        #![trigger files[a], files[b], hits[k]]
        0 <= a < b < files.len() && 0 <= k < hits.len() && files[b] == JsonView::Str(
            hit_file(hits[k]),
        ) implies exists|m: int|
        0 <= m < k && files[a] == JsonView::Str(hit_file(#[trigger] hits[m])) by {
        assert(files[a] == JsonView::Str(names[a]));
        assert(files[b] == JsonView::Str(names[b]));
        assert(hit_file(hits[k]) == names[b]);
        let m = choose|m: int| 0 <= m < k && #[trigger] hit_file(hits[m]) == names[a];
    }
}

/// Reading runnables in two parts gives the spans of the first part followed by those of the
/// second: one runnable never hides another.
pub proof fn lemma_spans_among_concat(a: Seq<JsonView>, b: Seq<JsonView>)
    ensures
        spans_among(a + b) == spans_among(a) + spans_among(b),
    decreases b.len(),
{
    if b.len() == 0 {
        assert(a + b =~= a);
        assert(spans_among(a) + spans_among(b) =~= spans_among(a));
    } else {
        lemma_spans_among_concat(a, b.drop_last());
        assert((a + b).drop_last() =~= a + b.drop_last());
        assert((a + b).last() == b.last());
        assert(spans_among(a + b) =~= spans_among(a) + spans_among(b));
    }
}

/// Every runnable that stands for a test span gives it, whatever runnables come before or after
/// it; and the spans of two lists of runnables, one after the other, are the spans of each.
pub proof fn lemma_every_test_runnable_gives_its_span(a: Seq<JsonView>, b: Seq<JsonView>)
    ensures
        test_spans_of(JsonView::Array(a + b)) == test_spans_of(JsonView::Array(a)) + test_spans_of(
            JsonView::Array(b),
        ),
        forall|k: int|
            0 <= k < a.len() && (#[trigger] runnable_span(a[k])) is Some ==> test_spans_of(
                JsonView::Array(a),
            ).contains(runnable_span(a[k])->0),
{
    lemma_spans_among_concat(a, b);
    assert forall|k: int|
        0 <= k < a.len() && (#[trigger] runnable_span(a[k])) is Some implies test_spans_of(
        JsonView::Array(a),
    ).contains(runnable_span(a[k])->0) by {
        let front = a.take(k);
        let one = seq![a[k]];
        let back = a.skip(k + 1);
        assert(a =~= front + one + back);
        lemma_spans_among_concat(front + one, back);
        lemma_spans_among_concat(front, one);
        assert(one.drop_last() =~= Seq::<JsonView>::empty());
        assert(spans_among(one.drop_last()) =~= Seq::<SpanView>::empty());
        assert(one.last() == a[k]);
        assert(spans_among(one) =~= seq![runnable_span(a[k])->0]);
        let at = spans_among(front).len() as int;
        assert(spans_among(a)[at] == runnable_span(a[k])->0);
    }
}


/// Joining a name in front of a non-empty path puts the separator between them.
pub proof fn lemma_joined_prepend(x: Seq<char>, parts: Seq<Seq<char>>, sep: Seq<char>)
    requires
        parts.len() > 0,
    ensures
        joined(seq![x] + parts, sep) == x + sep + joined(parts, sep),
    decreases parts.len(),
{
    let all = seq![x] + parts;
    if parts.len() == 1 {
        assert(all.drop_last() =~= seq![x]);
        assert(all.last() == parts[0]);
        assert(joined(seq![x], sep) == x);
        assert(joined(parts, sep) == parts[0]);
        assert(joined(all, sep) == joined(all.drop_last(), sep) + sep + all.last());
    } else {
        lemma_joined_prepend(x, parts.drop_last(), sep);
        assert(all.drop_last() =~= seq![x] + parts.drop_last());
        assert(all.last() == parts.last());
        assert(joined(all, sep) =~= x + sep + joined(parts, sep));
    }
}

/// The item holding a line is named all the way down: when the smallest symbol covering the
/// line has a name and children, the answer is that name, `::`, and the whole answer for its
/// children (or just the name when none of them covers the line). A method in an impl in a
/// module therefore comes back with all three names, however deep the tree.
pub proof fn lemma_enclosing_item_descends(level: Seq<JsonView>, line: u64, d: int, name: Seq<char>, children: Seq<JsonView>)
    requires
        deepest_index(level, line) == Some(d),
        text_at(level[d], seq!["name"@]) == Some(name),
        child_level(level[d]) == Some(children),
    ensures
        enclosing_item_of(JsonView::Array(children), line) matches Some(inner) ==> enclosing_item_of(
            JsonView::Array(level),
            line,
        ) == Some(name + "::"@ + inner),
        enclosing_item_of(JsonView::Array(children), line) is None ==> enclosing_item_of(
            JsonView::Array(level),
            line,
        ) == Some(name),
{
    let below = enclosing_path(children, line);
    assert(enclosing_path(level, line) == seq![name] + below);
    if below.len() > 0 {
        lemma_joined_prepend(name, below, "::"@);
    } else {
        assert(seq![name] + below =~= seq![name]);
    }
}

/// None of `lines` is a fence line (one that starts with three backticks).
pub open spec fn no_fence(lines: Seq<Seq<char>>) -> bool {
    forall|i: int| 0 <= i < lines.len() ==> !has_prefix(#[trigger] lines[i], "```"@)
}

/// Inside a rust block every line up to the next fence is kept, in order; outside one, none
/// is. Lines with no fence among them are kept whole when read inside a block.
pub proof fn lemma_block_lines_are_all_kept(body: Seq<Seq<char>>, rest: Seq<Seq<char>>)
    requires
        no_fence(body),
    ensures
        fenced_from(body, true) == body,
        fenced_from(body + rest, true) == body + fenced_from(rest, true),
        fenced_from(body + rest, false) == fenced_from(rest, false),
    decreases body.len(),
{
    if body.len() == 0 {
        assert(body + rest =~= rest);
        assert(body + fenced_from(rest, true) =~= fenced_from(rest, true));
        assert(fenced_from(body, true) =~= body);
    } else {
        let tail = body.subrange(1, body.len() as int);
        assert(no_fence(tail)) by {
            assert forall|i: int| 0 <= i < tail.len() implies !has_prefix(#[trigger] tail[i], "```"@) by {
                assert(tail[i] == body[i + 1]);
            }
        }
        lemma_block_lines_are_all_kept(tail, rest);
        let all = body + rest;
        assert(all[0] == body[0]);
        assert(!has_prefix(body[0], "```"@));
        assert(all.subrange(1, all.len() as int) =~= tail + rest);
        assert(fenced_from(all, true) =~= body + fenced_from(rest, true));
        assert(!has_prefix(body[0], "```"@));
        assert(fenced_from(body, true) =~= seq![body[0]] + tail);
    }
}

/// A whole rust block — an opening "```rust" fence, lines with no fence among them, and a
/// closing "```" fence — contributes all of its lines, in order, and nothing after it is kept
/// until the next rust fence.
pub proof fn lemma_rust_block_is_kept_whole(body: Seq<Seq<char>>, rest: Seq<Seq<char>>)
    requires
        no_fence(body),
    ensures
        fenced_from(seq!["```rust"@] + body + seq!["```"@] + rest, false) == body + fenced_from(
            rest,
            false,
        ),
{
    reveal_strlit("```rust");
    reveal_strlit("```");
    let open = "```rust"@;
    let close = "```"@;
    let all = seq![open] + body + seq![close] + rest;
    assert(open.subrange(0, 3) =~= close);
    assert(has_prefix(open, close));
    assert(open.subrange(0, open.len() as int) =~= open);
    assert(has_prefix(open, "```rust"@));
    assert(!has_prefix(close, "```rust"@));
    assert(all[0] == open);
    assert(all.subrange(1, all.len() as int) =~= body + (seq![close] + rest));
    lemma_block_lines_are_all_kept(body, seq![close] + rest);
    let after = seq![close] + rest;
    assert(close.subrange(0, close.len() as int) =~= close);
    assert(has_prefix(close, "```"@));
    assert(after[0] == close);
    assert(after.subrange(1, after.len() as int) =~= rest);
    assert(fenced_from(after, true) == fenced_from(rest, false));
}

} // verus!
