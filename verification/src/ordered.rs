//! JSON objects that are written with their members in a given order.

use vstd::prelude::*;

use crate::json::{export, in_braces, json_written, reads_as, writable, Json, JsonV};
use crate::text::joined;

verus! {

/// What a member is written as: a value, or an object with its members in a given order.
#[derive(Debug)]
pub enum Part {
    Value(Json),
    Members(Vec<(String, Json)>),
}

/// What a part stands for.
pub enum PartV {
    Value(JsonV),
    Members(Seq<(Seq<char>, JsonV)>),
}

/// The keys and values of members.
pub open spec fn member_views(v: Seq<(String, Json)>) -> Seq<(Seq<char>, JsonV)> {
    Seq::new(v.len(), |i: int| (v[i].0@, v[i].1@))
}

impl View for Part {
    type V = PartV;

    open spec fn view(&self) -> PartV {
        match self {
            Part::Value(v) => PartV::Value(v@),
            Part::Members(m) => PartV::Members(member_views(m@)),
        }
    }
}

/// The keys and parts of members.
pub open spec fn part_views(v: Seq<(String, Part)>) -> Seq<(Seq<char>, PartV)> {
    Seq::new(v.len(), |i: int| (v[i].0@, v[i].1@))
}

/// The object that members make up. Of several under one key the last one counts.
pub open spec fn object_of(s: Seq<(Seq<char>, JsonV)>) -> Map<Seq<char>, JsonV>
    decreases s.len(),
{
    if s.len() == 0 {
        Map::empty()
    } else {
        object_of(s.drop_last()).insert(s.last().0, s.last().1)
    }
}

/// The value of a part.
pub open spec fn part_value(p: PartV) -> JsonV {
    match p {
        PartV::Value(v) => v,
        PartV::Members(m) => JsonV::Object(object_of(m)),
    }
}

/// The keys and values of parts.
pub open spec fn part_values(s: Seq<(Seq<char>, PartV)>) -> Seq<(Seq<char>, JsonV)> {
    Seq::new(s.len(), |i: int| (s[i].0, part_value(s[i].1)))
}

/// Whether no key stands twice.
pub open spec fn keys_differ<V>(s: Seq<(Seq<char>, V)>) -> bool {
    forall|i: int, j: int| 0 <= i < j < s.len() ==> (#[trigger] s[i]).0 != (#[trigger] s[j]).0
}

/// Whether no key stands twice, in the object itself and in its parts.
pub open spec fn all_keys_differ(s: Seq<(Seq<char>, PartV)>) -> bool {
    keys_differ(s) && forall|i: int|
        0 <= i < s.len() ==> ((#[trigger] s[i]).1 matches PartV::Members(m) ==> keys_differ(m))
}

/// The text of an object, given the texts of its members.
pub open spec fn object_text(members: Seq<Seq<char>>) -> Seq<char> {
    "{"@ + joined(members, ","@) + "}"@
}

/// The text of a member, given the text of its value.
pub open spec fn member_text(k: Seq<char>, value: Seq<char>) -> Seq<char> {
    json_written(JsonV::Text(k)) + ":"@ + value
}

/// The text of a part.
pub open spec fn part_text(p: PartV) -> Seq<char> {
    match p {
        PartV::Value(v) => json_written(v),
        PartV::Members(m) => object_text(Seq::new(m.len(), |i: int| member_text(m[i].0, json_written(m[i].1)))),
    }
}

/// The compact text of an object with its members in their order.
pub open spec fn parts_text(s: Seq<(Seq<char>, PartV)>) -> Seq<char> {
    object_text(Seq::new(s.len(), |i: int| member_text(s[i].0, part_text(s[i].1))))
}

/// The indented text of an object with its members in their order.
pub uninterp spec fn members_written_pretty(s: Seq<(Seq<char>, JsonV)>) -> Seq<char>;

/// Calls the `Display` of `serde_json::Value`, or serde's `Serializer::collect_map` with serde_json's
/// compact serializer: the text of a part. Nothing is stated of it: what the text of the whole object
/// is says `write_parts`.
#[verifier::external_body]
fn write_part(p: &Part) -> String {
    match p {
        Part::Value(v) => export(v).to_string(),
        Part::Members(m) => {
            let mut out: Vec<u8> = Vec::new();
            let members = m.iter().map(|e| (e.0.as_str(), export(&e.1)));
            let _ = serde::Serializer::collect_map(&mut serde_json::Serializer::new(&mut out), members);
            String::from_utf8(out).unwrap_or_default()
        },
    }
}

/// Calls serde's `Serializer::collect_map` with serde_json's compact serializer, on the parts' texts as
/// `serde_json::value::RawValue`: the members in the order given, between braces and parted by commas,
/// each as its key, a colon and its value. No text holds a line break. Where no key stands twice,
/// reading the text gives the object back under the same conditions as for any compact text.
#[verifier::external_body]
pub(crate) fn write_parts(v: &Vec<(String, Part)>) -> (r: String)
    ensures
        r@ == parts_text(part_views(v@)),
        !r@.contains('\n'),
        all_keys_differ(part_views(v@)) && writable(JsonV::Object(object_of(part_values(part_views(v@)))))
            ==> reads_as(r@, JsonV::Object(object_of(part_values(part_views(v@))))),
{
    let mut out: Vec<u8> = Vec::new();
    let members = v.iter().map(|e| (e.0.as_str(), serde_json::value::RawValue::from_string(write_part(&e.1)).ok()));
    let _ = serde::Serializer::collect_map(&mut serde_json::Serializer::new(&mut out), members);
    String::from_utf8(out).unwrap_or_default()
}

/// Calls serde's `Serializer::collect_map` with serde_json's indenting serializer: the members in the
/// order given, over several lines. What the text is is left to the name `members_written_pretty`.
/// Where no key stands twice, reading it gives the object back under the same conditions as for the
/// compact text.
#[verifier::external_body]
pub(crate) fn write_members_pretty(v: &Vec<(String, Json)>) -> (r: String)
    ensures
        r@ == members_written_pretty(member_views(v@)),
        keys_differ(member_views(v@)) && writable(JsonV::Object(object_of(member_views(v@)))) ==> reads_as(
            r@,
            JsonV::Object(object_of(member_views(v@))),
        ),
{
    let mut out: Vec<u8> = Vec::new();
    let members = v.iter().map(|e| (e.0.as_str(), export(&e.1)));
    let _ = serde::Serializer::collect_map(&mut serde_json::Serializer::pretty(&mut out), members);
    String::from_utf8(out).unwrap_or_default()
}

/// One member more is one insertion more.
pub proof fn lemma_object_of_take(s: Seq<(Seq<char>, JsonV)>, i: int)
    requires
        0 <= i < s.len(),
    ensures
        object_of(s.take(i + 1)) == object_of(s.take(i)).insert(s[i].0, s[i].1),
{
    assert(s.take(i + 1).drop_last() =~= s.take(i));
}

/// The text of an object stands in braces.
pub proof fn lemma_parts_text_in_braces(s: Seq<(Seq<char>, PartV)>)
    ensures
        in_braces(parts_text(s)),
{
    reveal_strlit("{");
    reveal_strlit("}");
}

} // verus!
