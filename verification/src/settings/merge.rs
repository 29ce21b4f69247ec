//! Laying sparse settings documents over each other.

use vstd::prelude::*;

use crate::json::{lists_keys, member, members, Json, JsonMap, JsonV};
use crate::text::texts;

verus! {

/// One document laid over another: objects are joined member by member, anything else replaces.
pub open spec fn merged(base: JsonV, over: JsonV) -> JsonV
    decreases over,
{
    match (base, over) {
        (JsonV::Object(b), JsonV::Object(o)) => JsonV::Object(
            Map::new(
                |k: Seq<char>| b.contains_key(k) || o.contains_key(k),
                |k: Seq<char>|
                    if o.contains_key(k) && b.contains_key(k) {
                        merged(b[k], o[k])
                    } else if o.contains_key(k) {
                        o[k]
                    } else {
                        b[k]
                    },
            ),
        ),
        _ => over,
    }
}

/// What a merge leaves under one key.
pub open spec fn merged_member(b: Map<Seq<char>, JsonV>, o: Map<Seq<char>, JsonV>, k: Seq<char>) -> Option<JsonV> {
    if o.contains_key(k) {
        if b.contains_key(k) {
            Some(merged(b[k], o[k]))
        } else {
            Some(o[k])
        }
    } else if b.contains_key(k) {
        Some(b[k])
    } else {
        None
    }
}

/// A merge of two objects is an object, and it can be read key by key.
pub proof fn lemma_merged_member(b: Map<Seq<char>, JsonV>, o: Map<Seq<char>, JsonV>, k: Seq<char>)
    ensures
        merged(JsonV::Object(b), JsonV::Object(o)) is Object,
        member(merged(JsonV::Object(b), JsonV::Object(o)), k) == merged_member(b, o, k),
{
}

/// Lays `over` over `base`.
pub fn merge_json(base: &mut Json, over: &Json)
    ensures
        final(base)@ == merged(old(base)@, over@),
    decreases over,
{
    match over {
        Json::Object(o) => {
            match base {
                Json::Object(b) => {
                    merge_members(b, o);
                },
                _ => {
                    *base = over.clone();
                },
            }
        },
        _ => {
            *base = over.clone();
        },
    }
}

/// Lays the members of one object over those of another.
fn merge_members(b: &mut JsonMap, o: &JsonMap)
    ensures
        JsonV::Object(final(b)@) == merged(JsonV::Object(old(b)@), JsonV::Object(o@)),
    decreases o,
{
    let keys = o.keys();
    let ghost b0 = b@;
    let mut i: usize = 0;
    while i < keys.len()
        invariant
            lists_keys(texts(keys@), o@),
            i <= keys@.len(),
            forall|k: Seq<char>| #[trigger]
                member(JsonV::Object(b@), k) == if texts(keys@).take(i as int).contains(k) {
                    merged_member(b0, o@, k)
                } else {
                    member(JsonV::Object(b0), k)
                },
        decreases keys@.len() - i,
    {
        let ghost before = b@;
        let ghost key = keys@[i as int]@;
        let key_text = keys[i].clone();
        proof {
            assert(texts(keys@)[i as int] == key);
            assert(texts(keys@).contains(key));
            assert(o@.contains_key(key));
            assert(!texts(keys@).take(i as int).contains(key)) by {
                if texts(keys@).take(i as int).contains(key) {
                    let j = choose|j: int| 0 <= j < i && texts(keys@).take(i as int)[j] == key;
                    assert(crate::order::text_lt(texts(keys@)[j], texts(keys@)[i as int]));
                    crate::order::lemma_lt_irreflexive(key);
                }
            }
            assert(member(JsonV::Object(b@), key) == member(JsonV::Object(b0), key));
        }
        if let Some(value) = o.get(key_text.as_str()) {
            let merged_value = match b.get(key_text.as_str()) {
                Some(present) => {
                    let mut copy = present.clone();
                    merge_json(&mut copy, value);
                    copy
                },
                None => value.clone(),
            };
            b.insert(key_text, merged_value);
        }
        proof {
            assert(texts(keys@).take(i + 1) =~= texts(keys@).take(i as int).push(key));
            assert forall|k: Seq<char>| #[trigger]
                member(JsonV::Object(b@), k) == if texts(keys@).take(i + 1).contains(k) {
                    merged_member(b0, o@, k)
                } else {
                    member(JsonV::Object(b0), k)
                } by {
                let old_take = texts(keys@).take(i as int);
                assert(member(JsonV::Object(before), k) == if old_take.contains(k) {
                    merged_member(b0, o@, k)
                } else {
                    member(JsonV::Object(b0), k)
                });
                if k == key {
                    assert(old_take.push(key)[i as int] == k);
                } else {
                    assert(old_take.push(key).contains(k) == old_take.contains(k)) by {
                        if old_take.contains(k) {
                            let j = choose|j: int| 0 <= j < old_take.len() && old_take[j] == k;
                            assert(old_take.push(key)[j] == k);
                        }
                    }
                }
            }
        }
        i = i + 1;
    }
    proof {
        assert(texts(keys@).take(i as int) =~= texts(keys@));
        let want = members(merged(JsonV::Object(b0), JsonV::Object(o@)));
        assert forall|k: Seq<char>| #[trigger] b@.contains_key(k) == want.contains_key(k) && (want.contains_key(k)
            ==> b@[k] == want[k]) by {
            lemma_merged_member(b0, o@, k);
            assert(member(JsonV::Object(b@), k) == merged_member(b0, o@, k));
        }
        assert(b@ =~= want);
    }
}

/// The object with one member.
pub open spec fn single(k: Seq<char>, v: JsonV) -> JsonV {
    JsonV::Object(Map::empty().insert(k, v))
}

/// The member under a key of a value that may be missing.
pub open spec fn step(o: Option<JsonV>, k: Seq<char>) -> Option<JsonV> {
    match o {
        Some(v) => member(v, k),
        None => None,
    }
}

/// What laying a value over a place leaves there.
pub open spec fn laid_over(present: Option<JsonV>, v: JsonV) -> JsonV {
    match present {
        Some(p) => merged(p, v),
        None => v,
    }
}

/// Builds the object with one member.
pub fn nest(key: &str, value: Json) -> (r: Json)
    ensures
        r@ == single(key@, value@),
{
    Json::Object(JsonMap::single(key.to_owned(), value))
}

/// Merging an object with one member changes that member and keeps all others.
pub proof fn lemma_merge_single(base: JsonV, k: Seq<char>, v: JsonV)
    ensures
        merged(base, single(k, v)) is Object,
        member(merged(base, single(k, v)), k) == Some(laid_over(member(base, k), v)),
        base is Object ==> forall|l: Seq<char>|
            l != k ==> #[trigger] member(merged(base, single(k, v)), l) == member(base, l),
{
    let o = Map::<Seq<char>, JsonV>::empty().insert(k, v);
    assert(o.contains_key(k) && o[k] == v);
}

/// An override that sets nothing leaves the document as it is.
pub proof fn law_merge_empty(m: Map<Seq<char>, JsonV>)
    ensures
        merged(JsonV::Object(m), JsonV::Object(Map::empty())) == JsonV::Object(m),
{
    assert(members(merged(JsonV::Object(m), JsonV::Object(Map::empty()))) =~= m);
}

/// A key that the overriding document does not have keeps the value of the base.
pub proof fn law_merge_inherits(b: Map<Seq<char>, JsonV>, o: Map<Seq<char>, JsonV>, k: Seq<char>)
    requires
        !o.contains_key(k),
    ensures
        member(merged(JsonV::Object(b), JsonV::Object(o)), k) == member(JsonV::Object(b), k),
{
}

/// A value other than an object replaces what the base has under its key.
pub proof fn law_merge_replaces(b: Map<Seq<char>, JsonV>, o: Map<Seq<char>, JsonV>, k: Seq<char>)
    requires
        o.contains_key(k),
        !(o[k] is Object),
    ensures
        member(merged(JsonV::Object(b), JsonV::Object(o)), k) == Some(o[k]),
{
    if b.contains_key(k) {
        assert(merged(b[k], o[k]) == o[k]);
    }
}

/// Laying the same document over a base twice is the same as doing it once.
pub proof fn law_merge_idempotent(base: JsonV, over: JsonV)
    ensures
        merged(merged(base, over), over) == merged(base, over),
    decreases over,
{
    if over is Object && base is Object {
        let o = over->Object_0;
        let b = base->Object_0;
        let once = merged(base, over);
        let twice = merged(once, over);
        assert forall|k: Seq<char>| #[trigger] members(twice).contains_key(k) == members(once).contains_key(k)
            && (members(once).contains_key(k) ==> members(twice)[k] == members(once)[k]) by {
            lemma_merged_member(b, o, k);
            lemma_merged_member(members(once), o, k);
            if o.contains_key(k) {
                if b.contains_key(k) {
                    law_merge_idempotent(b[k], o[k]);
                } else {
                    law_merge_self(o[k]);
                }
            }
        }
        assert(members(twice) =~= members(once));
    } else {
        law_merge_self(over);
    }
}

/// A document laid over itself stays as it is.
pub proof fn law_merge_self(v: JsonV)
    ensures
        merged(v, v) == v,
    decreases v,
{
    if v is Object {
        let m = v->Object_0;
        let w = merged(v, v);
        assert forall|k: Seq<char>| #[trigger] members(w).contains_key(k) == m.contains_key(k) && (m.contains_key(k)
            ==> members(w)[k] == m[k]) by {
            lemma_merged_member(m, m, k);
            if m.contains_key(k) {
                law_merge_self(m[k]);
            }
        }
        assert(members(w) =~= m);
    }
}

/// A field that the overriding document does not set keeps the value of the base.
pub proof fn law_merge_inherits_field(
    base: Map<Seq<char>, JsonV>,
    over: Map<Seq<char>, JsonV>,
    section: Seq<char>,
    field: Seq<char>,
)
    requires
        over.contains_key(section) ==> over[section] is Object,
        base.contains_key(section) ==> base[section] is Object,
        step(member(JsonV::Object(over), section), field) is None,
    ensures
        step(member(merged(JsonV::Object(base), JsonV::Object(over)), section), field) == step(
            member(JsonV::Object(base), section),
            field,
        ),
{
    lemma_merged_member(base, over, section);
    if over.contains_key(section) && base.contains_key(section) {
        lemma_merged_member(members(base[section]), members(over[section]), field);
    }
}

/// A field that the overriding document sets to anything but an object has that value.
pub proof fn law_merge_overrides_field(
    base: Map<Seq<char>, JsonV>,
    over: Map<Seq<char>, JsonV>,
    section: Seq<char>,
    field: Seq<char>,
    v: JsonV,
)
    requires
        step(member(JsonV::Object(over), section), field) == Some(v),
        !(v is Object),
    ensures
        step(member(merged(JsonV::Object(base), JsonV::Object(over)), section), field) == Some(v),
{
    lemma_merged_member(base, over, section);
    if base.contains_key(section) && base[section] is Object {
        law_merge_replaces(members(base[section]), members(over[section]), field);
    }
}

} // verus!
