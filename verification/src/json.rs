//! JSON documents as plain values, with their mathematical view.

use vstd::prelude::*;

use crate::order::{add_ascending, ascending, lemma_ascending_exists, lemma_ascending_unique};
use crate::text::{same, texts};

verus! {

/// A JSON value. A number that is not an integer is held as its decimal text.
#[derive(Debug)]
pub enum Json {
    Null,
    Bool(bool),
    Unsigned(u64),
    Negative(i64),
    Float(String),
    Text(String),
    Array(Vec<Json>),
    Object(JsonMap),
}

/// The members of a JSON object. Of several entries under one key the last one counts.
#[derive(Debug)]
pub struct JsonMap {
    pub entries: Vec<(String, Json)>,
}

/// What a JSON value stands for.
pub enum JsonV {
    Null,
    Bool(bool),
    Unsigned(u64),
    Negative(i64),
    Float(Seq<char>),
    Text(Seq<char>),
    Array(Seq<JsonV>),
    Object(Map<Seq<char>, JsonV>),
}

impl Json {
    pub open spec fn view(&self) -> JsonV
        decreases self,
    {
        match *self {
            Json::Null => JsonV::Null,
            Json::Bool(b) => JsonV::Bool(b),
            Json::Unsigned(n) => JsonV::Unsigned(n),
            Json::Negative(n) => JsonV::Negative(n),
            Json::Float(t) => JsonV::Float(t@),
            Json::Text(t) => JsonV::Text(t@),
            Json::Array(v) => JsonV::Array(array_view(v@)),
            Json::Object(m) => JsonV::Object(object_view(m.entries@)),
        }
    }
}

impl JsonMap {
    pub open spec fn view(&self) -> Map<Seq<char>, JsonV> {
        object_view(self.entries@)
    }
}

/// What the items of an array stand for.
pub open spec fn array_view(s: Seq<Json>) -> Seq<JsonV>
    decreases s,
{
    if s.len() == 0 {
        Seq::empty()
    } else {
        array_view(s.drop_last()).push(s.last().view())
    }
}

/// What the entries of an object stand for.
pub open spec fn object_view(s: Seq<(String, Json)>) -> Map<Seq<char>, JsonV>
    decreases s,
{
    if s.len() == 0 {
        Map::empty()
    } else {
        object_view(s.drop_last()).insert(s.last().0@, s.last().1.view())
    }
}

/// The members of an object; a value of another kind has none.
pub open spec fn members(v: JsonV) -> Map<Seq<char>, JsonV> {
    match v {
        JsonV::Object(m) => m,
        _ => Map::empty(),
    }
}

/// The member of a value under a key; `None` where it is no object or has no such member.
pub open spec fn member(v: JsonV, k: Seq<char>) -> Option<JsonV> {
    if members(v).contains_key(k) {
        Some(members(v)[k])
    } else {
        None
    }
}

/// The view of an optional borrowed value.
pub open spec fn json_of(o: Option<&Json>) -> Option<JsonV> {
    match o {
        Some(v) => Some(v@),
        None => None,
    }
}

/// The view of an optional value.
pub open spec fn owned_json_of(o: Option<Json>) -> Option<JsonV> {
    match o {
        Some(v) => Some(v@),
        None => None,
    }
}

/// The view of an array item by item.
pub broadcast proof fn lemma_array_view(s: Seq<Json>)
    ensures
        #![trigger array_view(s)]
        array_view(s).len() == s.len(),
        forall|i: int| 0 <= i < s.len() ==> #[trigger] array_view(s)[i] == s[i].view(),
    decreases s.len(),
{
    if s.len() > 0 {
        lemma_array_view(s.drop_last());
        assert forall|i: int| 0 <= i < s.len() implies #[trigger] array_view(s)[i] == s[i].view() by {
            if i < s.len() - 1 {
                assert(array_view(s.drop_last())[i] == s.drop_last()[i].view());
            }
        }
    }
}

/// The keys of an object's view are finitely many.
pub proof fn lemma_object_finite(s: Seq<(String, Json)>)
    ensures
        object_view(s).dom().finite(),
    decreases s.len(),
{
    if s.len() > 0 {
        lemma_object_finite(s.drop_last());
    }
}

/// An entry that no later one shadows is the member under its key.
proof fn lemma_object_at(s: Seq<(String, Json)>, i: int)
    requires
        0 <= i < s.len(),
        forall|j: int| i < j < s.len() ==> (#[trigger] s[j]).0@ != s[i].0@,
    ensures
        object_view(s).contains_key(s[i].0@),
        object_view(s)[s[i].0@] == s[i].1.view(),
    decreases s.len(),
{
    if i < s.len() - 1 {
        let front = s.drop_last();
        assert(s[s.len() - 1].0@ != s[i].0@);
        assert forall|j: int| i < j < front.len() implies (#[trigger] front[j]).0@ != front[i].0@ by {
            assert(front[j] == s[j]);
        }
        lemma_object_at(front, i);
    }
}

/// A key that no entry has is not among the members.
proof fn lemma_object_absent(s: Seq<(String, Json)>, k: Seq<char>)
    requires
        forall|j: int| 0 <= j < s.len() ==> (#[trigger] s[j]).0@ != k,
    ensures
        !object_view(s).contains_key(k),
    decreases s.len(),
{
    if s.len() > 0 {
        let front = s.drop_last();
        assert forall|j: int| 0 <= j < front.len() implies (#[trigger] front[j]).0@ != k by {
            assert(front[j] == s[j]);
        }
        assert(s[s.len() - 1].0@ != k);
        lemma_object_absent(front, k);
    }
}

/// Replacing the last entry under a key replaces the member.
proof fn lemma_object_update(s: Seq<(String, Json)>, i: int, e: (String, Json))
    requires
        0 <= i < s.len(),
        e.0@ == s[i].0@,
        forall|j: int| i < j < s.len() ==> (#[trigger] s[j]).0@ != s[i].0@,
    ensures
        object_view(s.update(i, e)) == object_view(s).insert(e.0@, e.1.view()),
    decreases s.len(),
{
    let front = s.drop_last();
    if i == s.len() - 1 {
        assert(s.update(i, e).drop_last() =~= front);
        assert(object_view(s.update(i, e)) =~= object_view(s).insert(e.0@, e.1.view()));
    } else {
        assert(s[s.len() - 1].0@ != s[i].0@);
        assert forall|j: int| i < j < front.len() implies (#[trigger] front[j]).0@ != front[i].0@ by {
            assert(front[j] == s[j]);
        }
        lemma_object_update(front, i, e);
        assert(s.update(i, e).drop_last() =~= front.update(i, e));
        assert(object_view(s.update(i, e)) =~= object_view(s).insert(e.0@, e.1.view()));
    }
}

impl Clone for Json {
    fn clone(&self) -> (r: Json)
        ensures
            r@ == self@,
        decreases self,
    {
        match self {
            Json::Null => Json::Null,
            Json::Bool(b) => Json::Bool(*b),
            Json::Unsigned(n) => Json::Unsigned(*n),
            Json::Negative(n) => Json::Negative(*n),
            Json::Float(t) => Json::Float(t.clone()),
            Json::Text(t) => Json::Text(t.clone()),
            Json::Array(v) => {
                let mut out: Vec<Json> = Vec::new();
                let mut i: usize = 0;
                while i < v.len()
                    invariant
                        *self == Json::Array(*v),
                        i <= v@.len(),
                        array_view(out@) == array_view(v@.take(i as int)),
                    decreases v@.len() - i,
                {
                    assert(decreases_to!(*self => self->Array_0));
                    assert(decreases_to!(*v => v@[i as int]));
                    let item = v[i].clone();
                    let ghost done = out@;
                    out.push(item);
                    i = i + 1;
                    assert(out@.drop_last() =~= done);
                    assert(v@.take(i as int).drop_last() =~= v@.take(i - 1));
                }
                assert(v@.take(i as int) =~= v@);
                Json::Array(out)
            },
            Json::Object(m) => {
                let mut out: Vec<(String, Json)> = Vec::new();
                let mut i: usize = 0;
                while i < m.entries.len()
                    invariant
                        *self == Json::Object(*m),
                        i <= m.entries@.len(),
                        object_view(out@) == object_view(m.entries@.take(i as int)),
                    decreases m.entries@.len() - i,
                {
                    let key = m.entries[i].0.clone();
                    assert(decreases_to!(*self => self->Object_0));
                    assert(decreases_to!(*m => m.entries));
                    assert(decreases_to!(m.entries => m.entries@[i as int]));
                    assert(decreases_to!(m.entries@[i as int] => m.entries@[i as int].1));
                    let item = m.entries[i].1.clone();
                    let ghost done = out@;
                    out.push((key, item));
                    i = i + 1;
                    assert(out@.drop_last() =~= done);
                    assert(m.entries@.take(i as int).drop_last() =~= m.entries@.take(i - 1));
                }
                assert(m.entries@.take(i as int) =~= m.entries@);
                Json::Object(JsonMap { entries: out })
            },
        }
    }
}

impl Clone for JsonMap {
    fn clone(&self) -> (r: JsonMap)
        ensures
            r@ == self@,
    {
        let mut out: Vec<(String, Json)> = Vec::new();
        let mut i: usize = 0;
        while i < self.entries.len()
            invariant
                i <= self.entries@.len(),
                object_view(out@) == object_view(self.entries@.take(i as int)),
            decreases self.entries@.len() - i,
        {
            let key = self.entries[i].0.clone();
            let item = self.entries[i].1.clone();
            let ghost done = out@;
            out.push((key, item));
            i = i + 1;
            assert(out@.drop_last() =~= done);
            assert(self.entries@.take(i as int).drop_last() =~= self.entries@.take(i - 1));
        }
        assert(self.entries@.take(i as int) =~= self.entries@);
        JsonMap { entries: out }
    }
}

impl JsonMap {
    /// An object without members.
    pub fn new() -> (r: JsonMap)
        ensures
            r@ == Map::<Seq<char>, JsonV>::empty(),
    {
        JsonMap { entries: Vec::new() }
    }

    /// The position of the entry that counts for a key.
    fn position(&self, key: &str) -> (r: Option<usize>)
        ensures
            match r {
                Some(i) => i < self.entries@.len() && self.entries@[i as int].0@ == key@ && forall|j: int|
                    i < j < self.entries@.len() ==> (#[trigger] self.entries@[j]).0@ != key@,
                None => forall|j: int| 0 <= j < self.entries@.len() ==> (#[trigger] self.entries@[j]).0@ != key@,
            },
    {
        let mut i: usize = self.entries.len();
        while i > 0
            invariant
                i <= self.entries@.len(),
                forall|j: int| i <= j < self.entries@.len() ==> (#[trigger] self.entries@[j]).0@ != key@,
            decreases i,
        {
            i = i - 1;
            if same(self.entries[i].0.as_str(), key) {
                return Some(i);
            }
        }
        None
    }

    /// The member under a key.
    pub fn get(&self, key: &str) -> (r: Option<&Json>)
        ensures
            json_of(r) == member(JsonV::Object(self@), key@),
            match r {
                Some(v) => self@.contains_key(key@) && self@[key@] == v@ && decreases_to!(*self => *v),
                None => !self@.contains_key(key@),
            },
    {
        match self.position(key) {
            Some(i) => {
                proof {
                    lemma_object_at(self.entries@, i as int);
                    let pair = self.entries@[i as int];
                    assert(decreases_to!(*self => self.entries));
                    assert(decreases_to!(self.entries => self.entries@[i as int]));
                    assert(decreases_to!(pair => pair.1));
                }
                Some(&self.entries[i].1)
            },
            None => {
                proof {
                    lemma_object_absent(self.entries@, key@);
                }
                None
            },
        }
    }

    /// Whether there is a member under a key.
    pub fn contains_key(&self, key: &str) -> (r: bool)
        ensures
            r == self@.contains_key(key@),
    {
        match self.get(key) {
            Some(_) => true,
            None => false,
        }
    }

    /// Sets the member under a key.
    pub fn insert(&mut self, key: String, value: Json)
        ensures
            final(self)@ == old(self)@.insert(key@, value@),
    {
        match self.position(key.as_str()) {
            Some(i) => {
                proof {
                    lemma_object_update(self.entries@, i as int, (key, value));
                }
                self.entries.set(i, (key, value));
            },
            None => {
                let ghost before = self.entries@;
                self.entries.push((key, value));
                assert(self.entries@.drop_last() =~= before);
            },
        }
    }

    /// Whether there are no members.
    pub fn is_empty(&self) -> (r: bool)
        ensures
            r == (self@ == Map::<Seq<char>, JsonV>::empty()),
    {
        proof {
            if self.entries@.len() > 0 {
                let last = self.entries@.last();
                assert(self@.contains_key(last.0@));
                assert(!Map::<Seq<char>, JsonV>::empty().contains_key(last.0@));
            }
        }
        self.entries.len() == 0
    }

    /// The object with one member.
    pub fn single(key: String, value: Json) -> (r: JsonMap)
        ensures
            r@ == Map::<Seq<char>, JsonV>::empty().insert(key@, value@),
    {
        let mut out = JsonMap::new();
        out.insert(key, value);
        out
    }

    /// Removes the member under a key.
    pub fn remove(&mut self, key: &str)
        ensures
            final(self)@ == old(self)@.remove(key@),
    {
        let mut out: Vec<(String, Json)> = Vec::new();
        let mut i: usize = 0;
        assert(object_view(out@) =~= object_view(self.entries@.take(0)).remove(key@));
        while i < self.entries.len()
            invariant
                i <= self.entries@.len(),
                object_view(out@) == object_view(self.entries@.take(i as int)).remove(key@),
            decreases self.entries@.len() - i,
        {
            assert(self.entries@.take(i + 1).drop_last() =~= self.entries@.take(i as int));
            if !same(self.entries[i].0.as_str(), key) {
                let k = self.entries[i].0.clone();
                let item = self.entries[i].1.clone();
                let ghost done = out@;
                out.push((k, item));
                assert(out@.drop_last() =~= done);
            }
            i = i + 1;
            assert(object_view(out@) =~= object_view(self.entries@.take(i as int)).remove(key@));
        }
        assert(self.entries@.take(i as int) =~= self.entries@);
        self.entries = out;
    }
}

/// Whether a list of keys holds the keys of an object, in ascending order.
pub open spec fn lists_keys(ks: Seq<Seq<char>>, m: Map<Seq<char>, JsonV>) -> bool {
    ascending(ks) && forall|k: Seq<char>| #[trigger] ks.contains(k) <==> m.contains_key(k)
}

/// The keys of an object in ascending order.
pub open spec fn key_list(m: Map<Seq<char>, JsonV>) -> Seq<Seq<char>> {
    choose|ks: Seq<Seq<char>>| lists_keys(ks, m)
}

/// There is only one list of the keys of an object in ascending order.
pub proof fn lemma_key_list(ks: Seq<Seq<char>>, m: Map<Seq<char>, JsonV>)
    requires
        lists_keys(ks, m),
    ensures
        key_list(m) == ks,
{
    let c = key_list(m);
    assert(lists_keys(c, m));
    assert forall|t: Seq<char>| #[trigger] ks.contains(t) <==> c.contains(t) by {
        assert(ks.contains(t) <==> m.contains_key(t));
        assert(c.contains(t) <==> m.contains_key(t));
    }
    lemma_ascending_unique(ks, c);
}

/// The keys of every object with finitely many members can be listed.
pub proof fn lemma_key_list_exists(m: Map<Seq<char>, JsonV>)
    requires
        m.dom().finite(),
    ensures
        lists_keys(key_list(m), m),
{
    let ks = lemma_ascending_exists(m.dom());
    assert(lists_keys(ks, m));
}

impl JsonMap {
    /// The keys in ascending order.
    pub fn keys(&self) -> (r: Vec<String>)
        ensures
            lists_keys(texts(r@), self@),
            texts(r@) == key_list(self@),
    {
        let mut out: Vec<String> = Vec::new();
        let mut i: usize = 0;
        assert(ascending(texts(out@)));
        while i < self.entries.len()
            invariant
                i <= self.entries@.len(),
                lists_keys(texts(out@), object_view(self.entries@.take(i as int))),
            decreases self.entries@.len() - i,
        {
            assert(self.entries@.take(i + 1).drop_last() =~= self.entries@.take(i as int));
            add_ascending(&mut out, self.entries[i].0.clone());
            i = i + 1;
        }
        assert(self.entries@.take(i as int) =~= self.entries@);
        proof {
            lemma_key_list(texts(out@), self@);
        }
        out
    }
}

impl Json {
    /// The text, where the value is one.
    pub fn as_str(&self) -> (r: Option<&str>)
        ensures
            match r {
                Some(s) => self@ == JsonV::Text(s@),
                None => !(self@ is Text),
            },
    {
        match self {
            Json::Text(s) => Some(s.as_str()),
            _ => None,
        }
    }

    /// The truth value, where the value is one.
    pub fn as_bool(&self) -> (r: Option<bool>)
        ensures
            match r {
                Some(b) => self@ == JsonV::Bool(b),
                None => !(self@ is Bool),
            },
    {
        match self {
            Json::Bool(b) => Some(*b),
            _ => None,
        }
    }

    /// The number, where the value is an unsigned integer.
    pub fn as_u64(&self) -> (r: Option<u64>)
        ensures
            match r {
                Some(n) => self@ == JsonV::Unsigned(n),
                None => !(self@ is Unsigned),
            },
    {
        match self {
            Json::Unsigned(n) => Some(*n),
            _ => None,
        }
    }

    /// The members, where the value is an object.
    pub fn as_object(&self) -> (r: Option<&JsonMap>)
        ensures
            match r {
                Some(m) => self@ == JsonV::Object(m@) && *self == Json::Object(*m),
                None => !(self@ is Object),
            },
    {
        match self {
            Json::Object(m) => Some(m),
            _ => None,
        }
    }

    /// The items, where the value is an array.
    pub fn as_array(&self) -> (r: Option<&Vec<Json>>)
        ensures
            match r {
                Some(v) => self@ == JsonV::Array(array_view(v@)) && *self == Json::Array(*v),
                None => !(self@ is Array),
            },
    {
        match self {
            Json::Array(v) => Some(v),
            _ => None,
        }
    }

    /// Whether the value is `null`.
    pub fn is_null(&self) -> (r: bool)
        ensures
            r == (self@ is Null),
    {
        match self {
            Json::Null => true,
            _ => false,
        }
    }

    /// The member under a key, where the value is an object that has it.
    pub fn get(&self, key: &str) -> (r: Option<&Json>)
        ensures
            json_of(r) == member(self@, key@),
    {
        match self {
            Json::Object(m) => m.get(key),
            _ => None,
        }
    }
}

/// A text as a JSON value.
pub fn text(s: &str) -> (r: Json)
    ensures
        r@ == JsonV::Text(s@),
{
    Json::Text(s.to_owned())
}

/// An optional text as a JSON value: `null` where there is none.
pub open spec fn text_or_null(o: Option<Seq<char>>) -> JsonV {
    match o {
        Some(s) => JsonV::Text(s),
        None => JsonV::Null,
    }
}

/// Whether a value holds no number that is not an integer, and its negative numbers are below zero.
pub open spec fn exact(v: JsonV) -> bool
    decreases v,
{
    match v {
        JsonV::Float(_) => false,
        JsonV::Negative(n) => n < 0,
        JsonV::Array(s) => forall|i: int| 0 <= i < s.len() ==> exact(#[trigger] s[i]),
        JsonV::Object(m) => m.dom().finite() && forall|k: Seq<char>| #[trigger] m.contains_key(k) ==> exact(m[k]),
        _ => true,
    }
}

/// Whether arrays and objects are nested in a value at most `n` deep.
pub open spec fn nested_within(v: JsonV, n: nat) -> bool
    decreases n,
{
    match v {
        JsonV::Array(s) => n > 0 && forall|i: int|
            0 <= i < s.len() ==> nested_within(#[trigger] s[i], (n - 1) as nat),
        JsonV::Object(m) => n > 0 && forall|k: Seq<char>| #[trigger]
            m.contains_key(k) ==> nested_within(m[k], (n - 1) as nat),
        _ => true,
    }
}

/// Whether no object in a value has the member by which serde_json marks a text of JSON.
pub open spec fn unmarked(v: JsonV) -> bool
    decreases v,
{
    match v {
        JsonV::Array(s) => forall|i: int| 0 <= i < s.len() ==> unmarked(#[trigger] s[i]),
        JsonV::Object(m) => m.dom().finite() && !m.contains_key("$serde_json::private::RawValue"@) && forall|
            k: Seq<char>,
        | #[trigger] m.contains_key(k) ==> unmarked(m[k]),
        _ => true,
    }
}

/// Whether a value keeps its identity when it is written and read again.
pub open spec fn writable(v: JsonV) -> bool {
    exact(v) && unmarked(v) && nested_within(v, 127)
}

/// What reading a text as JSON gives: the value, or the words of the error.
pub uninterp spec fn json_read(text: Seq<char>) -> Result<JsonV, Seq<char>>;

/// Whether reading a text gives a value.
pub open spec fn reads_as(text: Seq<char>, v: JsonV) -> bool {
    json_read(text) == Ok::<JsonV, Seq<char>>(v)
}

/// The view of what reading a text returned.
pub open spec fn read_result(r: Result<Json, String>) -> Result<JsonV, Seq<char>> {
    match r {
        Ok(v) => Ok(v@),
        Err(e) => Err(e@),
    }
}

/// The compact text of a value.
pub uninterp spec fn json_written(v: JsonV) -> Seq<char>;

/// The indented text of a value.
pub uninterp spec fn json_written_pretty(v: JsonV) -> Seq<char>;

/// `serde_json::Value`, carried from the parser to the conversion and back, never looked into
/// by verified code.
#[verifier::external_type_specification]
#[verifier::external_body]
pub struct ExValue(serde_json::Value);

/// Turns a `serde_json::Value` into a `Json`, variant by variant. Nothing is stated of it:
/// what reading a text gives is named as a whole by `json_read`.
#[verifier::external_body]
fn import(v: serde_json::Value) -> Json {
    match v {
        serde_json::Value::Null => Json::Null,
        serde_json::Value::Bool(b) => Json::Bool(b),
        serde_json::Value::Number(n) => match (n.as_u64(), n.as_i64()) {
            (Some(u), _) => Json::Unsigned(u),
            (None, Some(i)) => Json::Negative(i),
            (None, None) => Json::Float(n.to_string()),
        },
        serde_json::Value::String(s) => Json::Text(s),
        serde_json::Value::Array(a) => Json::Array(a.into_iter().map(import).collect()),
        serde_json::Value::Object(m) => Json::Object(
            JsonMap { entries: m.into_iter().map(|e| (e.0, import(e.1))).collect() },
        ),
    }
}

/// Turns a `Json` into a `serde_json::Value`, variant by variant. Nothing is stated of it:
/// what writing a value gives is named as a whole by `json_written`.
#[verifier::external_body]
pub(crate) fn export(v: &Json) -> serde_json::Value {
    match v {
        Json::Null => serde_json::Value::Null,
        Json::Bool(b) => serde_json::Value::Bool(*b),
        Json::Unsigned(n) => serde_json::Value::from(*n),
        Json::Negative(n) => serde_json::Value::from(*n),
        Json::Float(t) => t.parse::<serde_json::Number>().map(serde_json::Value::Number).unwrap_or_default(),
        Json::Text(t) => serde_json::Value::from(t.as_str()),
        Json::Array(a) => serde_json::Value::Array(a.iter().map(export).collect()),
        Json::Object(m) => serde_json::Value::Object(
            m.entries.iter().map(|e| (e.0.clone(), export(&e.1))).collect(),
        ),
    }
}

/// Calls `serde_json::from_str`: reads a text as one JSON value. What comes out is left to the
/// name `json_read`; the error is the words of serde_json's error.
#[verifier::external_body]
pub(crate) fn read_json(text: &str) -> (r: Result<Json, String>)
    ensures
        read_result(r) == json_read(text@),
{
    match serde_json::from_str::<serde_json::Value>(text) {
        Ok(v) => Ok(import(v)),
        Err(e) => Err(e.to_string()),
    }
}

/// Whether a text stands in braces.
pub open spec fn in_braces(s: Seq<char>) -> bool {
    s.len() >= 2 && s[0] == '{' && s.last() == '}'
}

/// Calls the `Display` of `serde_json::Value`: the compact text of a value. Reading that text
/// gives the value back where it holds no number other than integers, is not nested deeper than
/// serde_json reads, and has no object with the member `$serde_json::private::RawValue`, which
/// serde_json reads as a text of JSON. The text of an object stands in braces, an object without
/// members and no other value has the text `{}`, and no text holds a line break.
#[verifier::external_body]
pub(crate) fn write_json(v: &Json) -> (r: String)
    ensures
        r@ == json_written(v@),
        v@ is Object ==> in_braces(r@),
        r@ == "{}"@ <==> v@ == JsonV::Object(Map::empty()),
        !r@.contains('\n'),
        writable(v@) ==> reads_as(r@, v@),
{
    export(v).to_string()
}

/// Calls `serde_json::to_string_pretty`: the text of a value over several lines. Reading that
/// text gives the value back under the same conditions as for the compact text.
#[verifier::external_body]
pub(crate) fn write_json_pretty(v: &Json) -> (r: String)
    ensures
        r@ == json_written_pretty(v@),
        writable(v@) ==> reads_as(r@, v@),
{
    serde_json::to_string_pretty(&export(v)).unwrap_or_default()
}

} // verus!
