//! A JSON value held as plain data, with its mathematical view.
use vstd::prelude::*;
use crate::text::{str_eq, views};

verus! {

/// A JSON number: a non-negative integer, a negative integer, or any other
/// number kept as its decimal text.
pub enum JsonNumber {
    PosInt(u64),
    NegInt(i64),
    Float(String),
}

/// A JSON value. An object is a list of entries in which a later entry for a
/// key replaces an earlier one.
pub enum Json {
    Null,
    Bool(bool),
    Number(JsonNumber),
    Str(String),
    Array(Vec<Json>),
    Object(Vec<(String, Json)>),
}

/// The view of a JSON number.
pub enum NumV {
    PosInt(u64),
    NegInt(i64),
    Float(Seq<char>),
}

/// The view of a JSON value: strings as character sequences, objects as maps.
pub enum JsonV {
    Null,
    Bool(bool),
    Number(NumV),
    Str(Seq<char>),
    Array(Seq<JsonV>),
    Object(Map<Seq<char>, JsonV>),
}

pub open spec fn num_view(n: JsonNumber) -> NumV {
    match n {
        JsonNumber::PosInt(u) => NumV::PosInt(u),
        JsonNumber::NegInt(i) => NumV::NegInt(i),
        JsonNumber::Float(s) => NumV::Float(s@),
    }
}

pub open spec fn json_view(j: Json) -> JsonV
    decreases j, 0nat,
{
    match j {
        Json::Null => JsonV::Null,
        Json::Bool(b) => JsonV::Bool(b),
        Json::Number(n) => JsonV::Number(num_view(n)),
        Json::Str(s) => JsonV::Str(s@),
        Json::Array(v) => JsonV::Array(seq_view(v@)),
        Json::Object(v) => JsonV::Object(entries_view(v@)),
    }
}

pub open spec fn seq_view(s: Seq<Json>) -> Seq<JsonV>
    decreases s, s.len(),
{
    if s.len() == 0 {
        Seq::empty()
    } else {
        seq_view(s.drop_last()).push(json_view(s.last()))
    }
}

pub open spec fn entries_view(s: Seq<(String, Json)>) -> Map<Seq<char>, JsonV>
    decreases s, s.len(),
{
    if s.len() == 0 {
        Map::empty()
    } else {
        entries_view(s.drop_last()).insert(s.last().0@, json_view(s.last().1))
    }
}

impl View for Json {
    type V = JsonV;

    open spec fn view(&self) -> JsonV {
        json_view(*self)
    }
}

// ----- operations on views -------------------------------------------------

/// The empty object.
pub open spec fn jobj() -> JsonV {
    JsonV::Object(Map::empty())
}

/// `value.get(key)`: the member `key` of an object; nothing for other values.
pub open spec fn jget(j: JsonV, key: Seq<char>) -> Option<JsonV> {
    match j {
        JsonV::Object(m) => if m.contains_key(key) { Some(m[key]) } else { None },
        _ => None,
    }
}

/// `value[key] = v` on a null or an object: a null becomes an object first.
pub open spec fn jset(j: JsonV, key: Seq<char>, v: JsonV) -> JsonV {
    match j {
        JsonV::Object(m) => JsonV::Object(m.insert(key, v)),
        _ => JsonV::Object(Map::empty().insert(key, v)),
    }
}

/// Whether `value[key] = ..` is defined on `j` (it panics on other values).
pub open spec fn settable(j: JsonV) -> bool {
    j is Null || j is Object
}

pub open spec fn jstr_of(j: Option<JsonV>) -> Option<Seq<char>> {
    match j {
        Some(JsonV::Str(s)) => Some(s),
        _ => None,
    }
}

pub open spec fn jbool_of(j: Option<JsonV>) -> Option<bool> {
    match j {
        Some(JsonV::Bool(b)) => Some(b),
        _ => None,
    }
}

pub open spec fn jarray_of(j: Option<JsonV>) -> Option<Seq<JsonV>> {
    match j {
        Some(JsonV::Array(a)) => Some(a),
        _ => None,
    }
}

/// `as_i64` of a number view.
pub open spec fn ji64_of(j: Option<JsonV>) -> Option<i64> {
    match j {
        Some(JsonV::Number(NumV::PosInt(u))) => if u <= i64::MAX { Some(u as i64) } else { None },
        Some(JsonV::Number(NumV::NegInt(i))) => Some(i),
        _ => None,
    }
}

/// The string members of an array, in order (`filter_map(as_str)`).
pub open spec fn strings_of(a: Seq<JsonV>) -> Seq<Seq<char>>
    decreases a.len(),
{
    if a.len() == 0 {
        Seq::empty()
    } else {
        let rest = strings_of(a.drop_last());
        match a.last() {
            JsonV::Str(s) => rest.push(s),
            _ => rest,
        }
    }
}

/// The strings of the array member `key` of `j` (`[]` when it is not an array).
pub open spec fn string_list_member(j: JsonV, key: Seq<char>) -> Seq<Seq<char>> {
    match jarray_of(jget(j, key)) {
        Some(a) => strings_of(a),
        None => Seq::empty(),
    }
}

/// The string member `key` of `j`, or `default`.
pub open spec fn str_member_or(j: JsonV, key: Seq<char>, default: Seq<char>) -> Seq<char> {
    match jstr_of(jget(j, key)) {
        Some(s) => s,
        None => default,
    }
}

// ----- lemmas ----------------------------------------------------------------

pub proof fn lemma_seq_view(s: Seq<Json>)
    ensures
        seq_view(s).len() == s.len(),
        forall|i: int| 0 <= i < s.len() ==> #[trigger] seq_view(s)[i] == json_view(s[i]),
    decreases s.len(),
{
    if s.len() > 0 {
        lemma_seq_view(s.drop_last());
    }
}

pub proof fn lemma_seq_view_push(s: Seq<Json>, x: Json)
    ensures
        seq_view(s.push(x)) == seq_view(s).push(json_view(x)),
{
    assert(s.push(x).drop_last() =~= s);
}

pub proof fn lemma_entries_view_push(s: Seq<(String, Json)>, e: (String, Json))
    ensures
        entries_view(s.push(e)) == entries_view(s).insert(e.0@, json_view(e.1)),
{
    assert(s.push(e).drop_last() =~= s);
}

/// Entries after index `n` whose key differs from `k` do not change what `k` maps to.
pub proof fn lemma_entries_view_prefix(s: Seq<(String, Json)>, n: int, k: Seq<char>)
    requires
        0 <= n <= s.len(),
        forall|j: int| n <= j < s.len() ==> #[trigger] s[j].0@ != k,
    ensures
        entries_view(s).contains_key(k) == entries_view(s.take(n)).contains_key(k),
        entries_view(s).contains_key(k) ==> entries_view(s)[k] == entries_view(s.take(n))[k],
    decreases s.len() - n,
{
    if n < s.len() {
        let t = s.take(n + 1);
        assert(t.drop_last() =~= s.take(n));
        lemma_entries_view_prefix(s, n + 1, k);
    } else {
        assert(s.take(n) =~= s);
    }
}

// ----- executable operations -------------------------------------------------

/// A deep copy of a string.
pub fn copy_string(s: &String) -> (r: String)
    ensures
        r@ == s@,
{
    String::from_str(s.as_str())
}

fn clone_number(n: &JsonNumber) -> (r: JsonNumber)
    ensures
        num_view(r) == num_view(*n),
{
    match n {
        JsonNumber::PosInt(u) => JsonNumber::PosInt(*u),
        JsonNumber::NegInt(i) => JsonNumber::NegInt(*i),
        JsonNumber::Float(s) => JsonNumber::Float(copy_string(s)),
    }
}

impl Json {
    /// A deep copy with the same view.
    pub fn deep_clone(&self) -> (r: Json)
        ensures
            r@ == self@,
        decreases self,
    {
        match self {
            Json::Null => Json::Null,
            Json::Bool(b) => Json::Bool(*b),
            Json::Number(n) => Json::Number(clone_number(n)),
            Json::Str(s) => Json::Str(copy_string(s)),
            Json::Array(v) => {
                let mut out: Vec<Json> = Vec::new();
                let mut i: usize = 0;
                while i < v.len()
                    invariant
                        i <= v.len(),
                        *self == Json::Array(*v),
                        seq_view(out@) == seq_view(v@.take(i as int)),
                    decreases v.len() - i,
                {
                    assert(decreases_to!(*self => (*self)->Array_0));
                    assert(decreases_to!(*v => v@));
                    assert(decreases_to!(v@ => v@[i as int]));
                    assert(decreases_to!(*self => v@[i as int]));
                    let c = v[i].deep_clone();
                    proof {
                        lemma_seq_view_push(out@, c);
                        lemma_seq_view_push(v@.take(i as int), v@[i as int]);
                        assert(v@.take(i as int).push(v@[i as int]) =~= v@.take(i + 1));
                    }
                    out.push(c);
                    i += 1;
                }
                assert(v@.take(v.len() as int) =~= v@);
                Json::Array(out)
            },
            Json::Object(v) => {
                let mut out: Vec<(String, Json)> = Vec::new();
                let mut i: usize = 0;
                while i < v.len()
                    invariant
                        i <= v.len(),
                        *self == Json::Object(*v),
                        entries_view(out@) == entries_view(v@.take(i as int)),
                    decreases v.len() - i,
                {
                    assert(decreases_to!(*self => (*self)->Object_0));
                    assert(decreases_to!(*v => v@));
                    assert(decreases_to!(v@ => v@[i as int]));
                    assert(decreases_to!(v@[i as int] => v@[i as int].1));
                    assert(decreases_to!(*self => v@[i as int].1));
                    let k = copy_string(&v[i].0);
                    let c = v[i].1.deep_clone();
                    proof {
                        lemma_entries_view_push(out@, (k, c));
                        lemma_entries_view_push(v@.take(i as int), v@[i as int]);
                        assert(v@.take(i as int).push(v@[i as int]) =~= v@.take(i + 1));
                    }
                    out.push((k, c));
                    i += 1;
                }
                assert(v@.take(v.len() as int) =~= v@);
                Json::Object(out)
            },
        }
    }

    /// An empty object.
    pub fn empty_object() -> (r: Json)
        ensures
            r@ == jobj(),
    {
        let r = Json::Object(Vec::new());
        assert(entries_view(Seq::<(String, Json)>::empty()) =~= Map::<Seq<char>, JsonV>::empty());
        r
    }

    /// A string value.
    pub fn string(s: &str) -> (r: Json)
        ensures
            r@ == JsonV::Str(s@),
    {
        Json::Str(String::from_str(s))
    }

    /// An array value.
    pub fn array(v: Vec<Json>) -> (r: Json)
        ensures
            r@ == JsonV::Array(seq_view(v@)),
    {
        Json::Array(v)
    }

    /// `self.get(key)`.
    pub fn get(&self, key: &str) -> (r: Option<&Json>)
        ensures
            r is Some <==> jget(self@, key@) is Some,
            r matches Some(x) ==> jget(self@, key@) == Some(x@),
    {
        match self {
            Json::Object(entries) => {
                let mut i: usize = entries.len();
                while i > 0
                    invariant
                        i <= entries@.len(),
                        *self == Json::Object(*entries),
                        forall|j: int| i <= j < entries@.len() ==> #[trigger] entries@[j].0@ != key@,
                    decreases i,
                {
                    if str_eq(entries[i - 1].0.as_str(), key) {
                        proof {
                            lemma_entries_view_prefix(entries@, i as int, key@);
                            assert(entries@.take(i as int).drop_last() =~= entries@.take(i - 1));
                        }
                        return Some(&entries[i - 1].1);
                    }
                    i -= 1;
                }
                proof {
                    lemma_entries_view_prefix(entries@, 0, key@);
                    assert(entries@.take(0) =~= Seq::<(String, Json)>::empty());
                }
                None
            },
            _ => None,
        }
    }

    /// `self[key] = value`; `self` must be null or an object.
    pub fn set(&mut self, key: &str, value: Json)
        requires
            settable(old(self)@),
        ensures
            final(self)@ == jset(old(self)@, key@, value@),
    {
        let mut taken = Json::Null;
        std::mem::swap(self, &mut taken);
        let mut entries: Vec<(String, Json)> = match taken {
            Json::Object(e) => e,
            _ => Vec::new(),
        };
        let ghost before = entries@;
        let k = String::from_str(key);
        proof {
            lemma_entries_view_push(before, (k, value));
            assert(entries_view(Seq::<(String, Json)>::empty()) =~= Map::<Seq<char>, JsonV>::empty());
        }
        entries.push((k, value));
        *self = Json::Object(entries);
    }

    pub fn as_str(&self) -> (r: Option<&str>)
        ensures
            r is Some <==> self@ is Str,
            r matches Some(s) ==> self@ == JsonV::Str(s@),
    {
        match self {
            Json::Str(s) => Some(s.as_str()),
            _ => None,
        }
    }

    pub fn as_bool(&self) -> (r: Option<bool>)
        ensures
            r == jbool_of(Some(self@)),
    {
        match self {
            Json::Bool(b) => Some(*b),
            _ => None,
        }
    }

    pub fn as_array(&self) -> (r: Option<&Vec<Json>>)
        ensures
            r is Some <==> self@ is Array,
            r matches Some(v) ==> self@ == JsonV::Array(seq_view(v@)),
    {
        match self {
            Json::Array(v) => Some(v),
            _ => None,
        }
    }

    pub fn as_i64(&self) -> (r: Option<i64>)
        ensures
            r == ji64_of(Some(self@)),
    {
        match self {
            Json::Number(JsonNumber::PosInt(u)) => if *u <= i64::MAX as u64 { Some(*u as i64) } else { None },
            Json::Number(JsonNumber::NegInt(i)) => Some(*i),
            _ => None,
        }
    }

    pub fn is_null(&self) -> (r: bool)
        ensures
            r == (self@ is Null),
    {
        match self {
            Json::Null => true,
            _ => false,
        }
    }
}

/// The string members of `a`, copied (`filter_map(|v| v.as_str().map(String::from))`).
pub fn collect_strings(a: &Vec<Json>) -> (r: Vec<String>)
    ensures
        views(r@) == strings_of(seq_view(a@)),
{
    let mut out: Vec<String> = Vec::new();
    let mut i: usize = 0;
    proof { lemma_seq_view(a@); }
    while i < a.len()
        invariant
            i <= a.len(),
            seq_view(a@).len() == a@.len(),
            forall|j: int| 0 <= j < a@.len() ==> #[trigger] seq_view(a@)[j] == json_view(a@[j]),
            views(out@) == strings_of(seq_view(a@).take(i as int)),
        decreases a.len() - i,
    {
        let ghost pre = seq_view(a@).take(i as int);
        assert(seq_view(a@).take(i + 1).drop_last() =~= pre);
        match a[i].as_str() {
            Some(s) => {
                let c = String::from_str(s);
                let ghost before = out@;
                out.push(c);
                assert(views(out@) =~= views(before).push(c@));
            },
            None => {},
        }
        i += 1;
    }
    assert(seq_view(a@).take(a.len() as int) =~= seq_view(a@));
    out
}

/// The strings of the array member `key` of `j`, or none when it is absent or
/// not an array.
pub fn string_list(j: &Json, key: &str) -> (r: Vec<String>)
    ensures
        views(r@) == string_list_member(j@, key@),
{
    match j.get(key) {
        Some(v) => match v.as_array() {
            Some(a) => collect_strings(a),
            None => {
                assert(views(Seq::<String>::empty()) =~= Seq::<Seq<char>>::empty());
                Vec::new()
            },
        },
        None => {
            assert(views(Seq::<String>::empty()) =~= Seq::<Seq<char>>::empty());
            Vec::new()
        },
    }
}

/// The string member `key` of `j`, or `default`.
pub fn str_or<'a>(j: &'a Json, key: &str, default: &'a str) -> (r: &'a str)
    ensures
        r@ == str_member_or(j@, key@, default@),
{
    match j.get(key) {
        Some(v) => match v.as_str() {
            Some(s) => s,
            None => default,
        },
        None => default,
    }
}

} // verus!
