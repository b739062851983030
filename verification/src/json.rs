//! A JSON value as the library holds it, with the view that contracts speak of.
//!
//! Object members are kept in the order they were written; a lookup finds the first member
//! with the key, and an insertion replaces that member or adds one at the end.
use vstd::prelude::*;

verus! {

broadcast use vstd::std_specs::vec::group_vec_axioms;

/// A JSON number: an integer that fits a `u64`, a negative integer that fits an `i64`, or the
/// text of any other number (a fraction, or an integer too large for either).
#[derive(Debug)]
pub enum JsonNumber {
    /// A non-negative integer.
    Unsigned(u64),
    /// A negative integer; a non-negative one is `Unsigned`.
    Negative(i64),
    /// Any other number, as it is written.
    Other(String),
}

/// A JSON value.
#[derive(Debug)]
pub enum Json {
    Null,
    Bool(bool),
    Number(JsonNumber),
    Str(String),
    Array(Vec<Json>),
    Object(Vec<(String, Json)>),
}

/// The mathematical value of a `JsonNumber`.
pub enum NumberView {
    Unsigned(u64),
    Negative(i64),
    Other(Seq<char>),
}

/// The mathematical value of a `Json`: strings as `Seq<char>`, arrays and objects as `Seq`s.
pub enum JsonView {
    Null,
    Bool(bool),
    Number(NumberView),
    Str(Seq<char>),
    Array(Seq<JsonView>),
    Object(Seq<(Seq<char>, JsonView)>),
}

pub open spec fn number_view(n: JsonNumber) -> NumberView {
    match n {
        JsonNumber::Unsigned(u) => NumberView::Unsigned(u),
        JsonNumber::Negative(i) => NumberView::Negative(i),
        JsonNumber::Other(s) => NumberView::Other(s@),
    }
}

pub open spec fn json_view(j: Json) -> JsonView
    decreases j,
{
    match j {
        Json::Null => JsonView::Null,
        Json::Bool(b) => JsonView::Bool(b),
        Json::Number(n) => JsonView::Number(number_view(n)),
        Json::Str(s) => JsonView::Str(s@),
        Json::Array(v) => JsonView::Array(array_view(v@)),
        Json::Object(es) => JsonView::Object(members_view(es@)),
    }
}

pub open spec fn array_view(s: Seq<Json>) -> Seq<JsonView>
    decreases s,
{
    if s.len() == 0 {
        Seq::empty()
    } else {
        seq![json_view(s[0])] + array_view(s.subrange(1, s.len() as int))
    }
}

pub open spec fn members_view(s: Seq<(String, Json)>) -> Seq<(Seq<char>, JsonView)>
    decreases s,
{
    if s.len() == 0 {
        Seq::empty()
    } else {
        seq![(s[0].0@, json_view(s[0].1))] + members_view(s.subrange(1, s.len() as int))
    }
}

impl View for Json {
    type V = JsonView;

    open spec fn view(&self) -> JsonView {
        json_view(*self)
    }
}


/// The view of an array holds the view of each of its elements, in order.
pub broadcast proof fn lemma_array_view(s: Seq<Json>)
    ensures
        #[trigger] array_view(s).len() == s.len(),
        forall|i: int| 0 <= i < s.len() ==> #[trigger] array_view(s)[i] == json_view(s[i]),
    decreases s.len(),
{
    if s.len() > 0 {
        lemma_array_view(s.subrange(1, s.len() as int));
        assert forall|i: int| 0 <= i < s.len() implies array_view(s)[i] == json_view(s[i]) by {
            if i > 0 {
                assert(s.subrange(1, s.len() as int)[i - 1] == s[i]);
            }
        }
    }
}

/// The view of an object holds the view of each of its members, in order.
pub broadcast proof fn lemma_members_view(s: Seq<(String, Json)>)
    ensures
        #[trigger] members_view(s).len() == s.len(),
        forall|i: int|
            0 <= i < s.len() ==> #[trigger] members_view(s)[i] == (s[i].0@, json_view(s[i].1)),
    decreases s.len(),
{
    if s.len() > 0 {
        lemma_members_view(s.subrange(1, s.len() as int));
        assert forall|i: int| 0 <= i < s.len() implies members_view(s)[i] == (
        s[i].0@,
        json_view(s[i].1),
        ) by {
            if i > 0 {
                assert(s.subrange(1, s.len() as int)[i - 1] == s[i]);
            }
        }
    }
}

/// Adding an element to an array adds its view to the array's view.
pub proof fn lemma_array_view_push(s: Seq<Json>, x: Json)
    ensures
        array_view(s.push(x)) == array_view(s).push(json_view(x)),
{
    lemma_array_view(s.push(x));
    lemma_array_view(s);
    assert(array_view(s.push(x)) =~= array_view(s).push(json_view(x))) by {
        assert forall|i: int| 0 <= i < s.len() implies array_view(s.push(x))[i] == array_view(
            s,
        )[i] by {
            assert(s.push(x)[i] == s[i]);
        }
        assert(s.push(x)[s.len() as int] == x);
    }
}

/// The index of the first member at or after `i` whose key is `key`.
pub open spec fn key_index_from(es: Seq<(Seq<char>, JsonView)>, key: Seq<char>, i: int) -> Option<
    int,
>
    decreases es.len() - i,
{
    if i < 0 || i >= es.len() {
        None
    } else if es[i].0 == key {
        Some(i)
    } else {
        key_index_from(es, key, i + 1)
    }
}

/// The index of the first member whose key is `key`.
pub open spec fn key_index(es: Seq<(Seq<char>, JsonView)>, key: Seq<char>) -> Option<int> {
    key_index_from(es, key, 0)
}

/// What `key_index_from` finds: the first match at or after `i`, or no match at all.
pub proof fn lemma_key_index_from(es: Seq<(Seq<char>, JsonView)>, key: Seq<char>, i: int)
    requires
        0 <= i,
    ensures
        key_index_from(es, key, i) matches Some(k) ==> {
            &&& i <= k < es.len()
            &&& es[k].0 == key
            &&& forall|j: int| i <= j < k ==> es[j].0 != key
        },
        key_index_from(es, key, i) is None ==> forall|j: int| i <= j < es.len() ==> es[j].0 != key,
    decreases es.len() - i,
{
    if i < es.len() && es[i].0 != key {
        lemma_key_index_from(es, key, i + 1);
    }
}

impl JsonView {
    /// The value of the member `key` of an object; `None` for anything else.
    pub open spec fn get(self, key: Seq<char>) -> Option<JsonView> {
        match self {
            JsonView::Object(es) => match key_index(es, key) {
                Some(k) => Some(es[k].1),
                None => None,
            },
            _ => None,
        }
    }

    /// The value found by following `keys` from one object member into the next.
    pub open spec fn at(self, keys: Seq<Seq<char>>) -> Option<JsonView>
        decreases keys.len(),
    {
        if keys.len() == 0 {
            Some(self)
        } else {
            match self.get(keys[0]) {
                Some(v) => v.at(keys.subrange(1, keys.len() as int)),
                None => None,
            }
        }
    }

    pub open spec fn as_str(self) -> Option<Seq<char>> {
        match self {
            JsonView::Str(s) => Some(s),
            _ => None,
        }
    }

    pub open spec fn as_u64(self) -> Option<u64> {
        match self {
            JsonView::Number(NumberView::Unsigned(n)) => Some(n),
            _ => None,
        }
    }

    pub open spec fn as_bool(self) -> Option<bool> {
        match self {
            JsonView::Bool(b) => Some(b),
            _ => None,
        }
    }

    pub open spec fn as_array(self) -> Option<Seq<JsonView>> {
        match self {
            JsonView::Array(v) => Some(v),
            _ => None,
        }
    }

    /// The value after `key` is set to `value`, as indexing a JSON value for assignment does:
    /// an object has the member replaced or added at the end, and `null` becomes an object
    /// holding just that member.
    pub open spec fn inserted(self, key: Seq<char>, value: JsonView) -> JsonView {
        match self {
            JsonView::Object(es) => match key_index(es, key) {
                Some(k) => JsonView::Object(es.update(k, (key, value))),
                None => JsonView::Object(es.push((key, value))),
            },
            _ => JsonView::Object(seq![(key, value)]),
        }
    }

    /// Whether a member can be set on this value: it is an object or `null`.
    pub open spec fn accepts_members(self) -> bool {
        self is Object || self is Null
    }
}


/// Where the member `key` is among `es`: the first member with that key.
fn member_index(es: &Vec<(String, Json)>, key: &str) -> (r: Option<usize>)
    ensures
        r matches Some(i) ==> key_index(members_view(es@), key@) == Some(i as int) && i < es@.len(),
        r is None ==> key_index(members_view(es@), key@) is None,
{
    let wanted = String::from_str(key);
    let ghost ev = members_view(es@);
    proof {
        lemma_members_view(es@);
        lemma_key_index_from(ev, key@, 0);
    }
    let mut i: usize = 0;
    while i < es.len()
        invariant
            i <= es@.len(),
            wanted@ == key@,
            ev == members_view(es@),
            ev.len() == es@.len(),
            forall|j: int| 0 <= j < es@.len() ==> #[trigger] ev[j] == (es@[j].0@, json_view(es@[j].1)),
            key_index_from(ev, key@, 0) == key_index_from(ev, key@, i as int),
        decreases es@.len() - i,
    {
        if es[i].0 == wanted {
            assert(ev[i as int].0 == key@);
            return Some(i);
        }
        assert(ev[i as int].0 != key@);
        i = i + 1;
    }
    None
}

/// A member found by `get` is one of the object's members: the one at the returned index.
pub proof fn lemma_get_member(j: JsonView, key: Seq<char>) -> (k: int)
    requires
        j.get(key) is Some,
    ensures
        j is Object,
        0 <= k < j->Object_0.len(),
        j->Object_0[k].1 == j.get(key)->0,
{
    let es = j->Object_0;
    lemma_key_index_from(es, key, 0);
    key_index(es, key)->0
}

/// Reading a member back after setting it gives the value that was set.
pub proof fn lemma_get_inserted(j: JsonView, key: Seq<char>, value: JsonView)
    requires
        j.accepts_members(),
    ensures
        j.inserted(key, value).get(key) == Some(value),
{
    if let JsonView::Object(es) = j {
        lemma_key_index_from(es, key, 0);
        match key_index(es, key) {
            Some(k) => {
                let es2 = es.update(k, (key, value));
                lemma_key_index_from(es2, key, 0);
                if key_index(es2, key) != Some(k) {
                    assert(es2[k].0 == key);
                }
            },
            None => {
                let es2 = es.push((key, value));
                lemma_key_index_from(es2, key, 0);
                if key_index(es2, key) != Some(es.len() as int) {
                    assert(es2[es.len() as int].0 == key);
                }
            },
        }
    } else {
        lemma_key_index_from(seq![(key, value)], key, 0);
    }
}

/// Setting one member leaves every other member as it was.
pub proof fn lemma_get_inserted_other(
    j: JsonView,
    key: Seq<char>,
    value: JsonView,
    other: Seq<char>,
)
    requires
        j.accepts_members(),
        other != key,
    ensures
        j.inserted(key, value).get(other) == j.get(other),
{
    if let JsonView::Object(es) = j {
        lemma_key_index_from(es, key, 0);
        lemma_key_index_from(es, other, 0);
        let es2 = match key_index(es, key) {
            Some(k) => es.update(k, (key, value)),
            None => es.push((key, value)),
        };
        lemma_key_index_from(es2, other, 0);
        match key_index(es, other) {
            Some(k) => {
                assert(es2[k] == es[k]);
                if key_index(es2, other) != Some(k) {
                    assert(es2[k].0 == other);
                }
            },
            None => {},
        }
    } else {
        lemma_key_index_from(seq![(key, value)], other, 0);
    }
}

impl Json {
    /// Whether `x` is the value of one of this object's members.
    pub open spec fn holds_member(self, x: Json) -> bool {
        match self {
            Json::Object(es) => exists|k: int| 0 <= k < es.len() && es@[k].1 == x,
            _ => false,
        }
    }

    /// The value of the member `key`, when this is an object that has one.
    pub fn get(&self, key: &str) -> (r: Option<&Json>)
        ensures
            r matches Some(x) ==> self@.get(key@) == Some(x@) && self.holds_member(*x),
            r is None <==> self@.get(key@) is None,
    {
        match self {
            Json::Object(es) => {
                proof {
                    lemma_members_view(es@);
                }
                match member_index(es, key) {
                    Some(i) => {
                        assert(self.holds_member(es@[i as int].1));
                        Some(&es[i].1)
                    },
                    None => None,
                }
            },
            _ => None,
        }
    }

    /// Sets the member `key` to `value`: an existing member with that key is replaced, or a
    /// new one is added at the end; `null` becomes an object with just that member.
    pub fn insert(&mut self, key: String, value: Json)
        requires
            old(self)@.accepts_members(),
        ensures
            final(self)@ == old(self)@.inserted(key@, value@),
    {
        if self.is_null() {
            let ghost kv = key@;
            let ghost vv = value@;
            let members = vec![(key, value)];
            proof {
                lemma_members_view(members@);
            }
            assert(members_view(members@) =~= seq![(kv, vv)]);
            *self = Json::Object(members);
            return ;
        }
        match self {
            Json::Object(es) => {
                let ghost before = es@;
                proof {
                    lemma_members_view(es@);
                }
                let found = member_index(es, key.as_str());
                let ghost kv = key@;
                let ghost vv = value@;
                match found {
                    Some(i) => {
                        es.set(i, (key, value));
                        proof {
                            lemma_members_view(es@);
                        }
                        assert(members_view(es@) =~= members_view(before).update(
                            i as int,
                            (kv, vv),
                        ));
                    },
                    None => {
                        es.push((key, value));
                        proof {
                            lemma_members_view(es@);
                        }
                        assert(members_view(es@) =~= members_view(before).push((kv, vv)));
                    },
                }
            },
            _ => {},
        }
    }

    /// A copy of this value, equal to it in every part.
    pub fn copy(&self) -> (r: Json)
        ensures
            r@ == self@,
        decreases self,
    {
        match self {
            Json::Null => Json::Null,
            Json::Bool(b) => Json::Bool(*b),
            Json::Number(n) => Json::Number(
                match n {
                    JsonNumber::Unsigned(u) => JsonNumber::Unsigned(*u),
                    JsonNumber::Negative(i) => JsonNumber::Negative(*i),
                    JsonNumber::Other(t) => JsonNumber::Other(t.clone()),
                },
            ),
            Json::Str(t) => Json::Str(t.clone()),
            Json::Array(v) => {
                let mut out: Vec<Json> = Vec::new();
                let mut i: usize = 0;
                while i < v.len()
                    invariant
                        *self == Json::Array(*v),
                        i <= v@.len(),
                        out@.len() == i,
                        forall|j: int| 0 <= j < i ==> json_view(#[trigger] out@[j]) == json_view(v@[j]),
                    decreases v@.len() - i,
                {
                    assert(decreases_to!(*self => self->Array_0));
                    assert(decreases_to!(*v => v[i as int]));
                    let c = v[i].copy();
                    out.push(c);
                    i = i + 1;
                }
                proof {
                    lemma_array_view(out@);
                    lemma_array_view(v@);
                }
                assert(array_view(out@) =~= array_view(v@));
                Json::Array(out)
            },
            Json::Object(es) => {
                let mut out: Vec<(String, Json)> = Vec::new();
                let mut i: usize = 0;
                while i < es.len()
                    invariant
                        *self == Json::Object(*es),
                        i <= es@.len(),
                        out@.len() == i,
                        forall|j: int|
                            0 <= j < i ==> #[trigger] out@[j].0@ == es@[j].0@ && out@[j].1@
                                == es@[j].1@,
                    decreases es@.len() - i,
                {
                    assert(decreases_to!(*self => self->Object_0));
                    assert(decreases_to!(*es => es[i as int]));
                    assert(decreases_to!(es[i as int] => es[i as int].1));
                    let c = es[i].1.copy();
                    out.push((es[i].0.clone(), c));
                    i = i + 1;
                }
                proof {
                    lemma_members_view(out@);
                    lemma_members_view(es@);
                }
                assert(members_view(out@) =~= members_view(es@));
                Json::Object(out)
            },
        }
    }

    /// The value reached by following `keys` from one object member into the next, as a
    /// JSON pointer made only of member names does.
    pub fn at(&self, keys: &[&str]) -> (r: Option<&Json>)
        ensures
            r matches Some(x) ==> self@.at(keys@.map_values(|k: &str| k@)) == Some(x@),
            r is None <==> self@.at(keys@.map_values(|k: &str| k@)) is None,
    {
        let ghost kv = keys@.map_values(|k: &str| k@);
        let mut cur: &Json = self;
        let mut i: usize = 0;
        assert(kv.subrange(0, kv.len() as int) =~= kv);
        while i < keys.len()
            invariant
                i <= keys@.len(),
                kv == keys@.map_values(|k: &str| k@),
                self@.at(kv) == cur@.at(kv.subrange(i as int, kv.len() as int)),
            decreases keys@.len() - i,
        {
            let ghost rest = kv.subrange(i as int, kv.len() as int);
            assert(rest[0] == keys@[i as int]@);
            assert(rest.subrange(1, rest.len() as int) =~= kv.subrange(i + 1, kv.len() as int));
            match cur.get(keys[i]) {
                Some(next) => {
                    cur = next;
                },
                None => {
                    return None;
                },
            }
            i = i + 1;
        }
        assert(kv.subrange(i as int, kv.len() as int) =~= Seq::<Seq<char>>::empty());
        Some(cur)
    }

    /// The text of a string.
    pub fn as_str(&self) -> (r: Option<&str>)
        ensures
            r matches Some(t) ==> self@.as_str() == Some(t@),
            r is None <==> self@.as_str() is None,
    {
        match self {
            Json::Str(s) => Some(s.as_str()),
            _ => None,
        }
    }

    /// The value of an unsigned integer.
    pub fn as_u64(&self) -> (r: Option<u64>)
        ensures
            r == self@.as_u64(),
    {
        match self {
            Json::Number(JsonNumber::Unsigned(n)) => Some(*n),
            _ => None,
        }
    }

    /// The value of a boolean.
    pub fn as_bool(&self) -> (r: Option<bool>)
        ensures
            r == self@.as_bool(),
    {
        match self {
            Json::Bool(b) => Some(*b),
            _ => None,
        }
    }

    /// The elements of an array.
    pub fn as_array(&self) -> (r: Option<&Vec<Json>>)
        ensures
            r matches Some(v) ==> *self == Json::Array(*v) && self@.as_array() == Some(
                array_view(v@),
            ),
            r is None <==> self@.as_array() is None,
    {
        match self {
            Json::Array(v) => Some(v),
            _ => None,
        }
    }

    /// Whether this is `null`.
    pub fn is_null(&self) -> (r: bool)
        ensures
            r == (self@ is Null),
    {
        match self {
            Json::Null => true,
            _ => false,
        }
    }

    /// A string value.
    pub fn text(s: &str) -> (r: Json)
        ensures
            r@ == JsonView::Str(s@),
    {
        Json::Str(String::from_str(s))
    }

    /// An unsigned integer value.
    pub fn unsigned(n: u64) -> (r: Json)
        ensures
            r@ == JsonView::Number(NumberView::Unsigned(n)),
    {
        Json::Number(JsonNumber::Unsigned(n))
    }
}

} // verus!
