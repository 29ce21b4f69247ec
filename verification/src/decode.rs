//! The words about JSON values that are not what was expected.

use vstd::prelude::*;

use crate::json::{Json, JsonV};
use crate::text::{debug, debug_text, decimal, join3, join_texts, joined, show, show_signed, signed_decimal, texts};

verus! {

/// What a value is called where another one was expected.
pub open spec fn called(v: JsonV) -> Seq<char> {
    match v {
        JsonV::Null => "null"@,
        JsonV::Bool(b) => if b {
            "boolean `true`"@
        } else {
            "boolean `false`"@
        },
        JsonV::Unsigned(n) => "integer `"@ + decimal(n as nat) + "`"@,
        JsonV::Negative(n) => "integer `"@ + signed_decimal(n as int) + "`"@,
        JsonV::Float(t) => "floating point `"@ + t + "`"@,
        JsonV::Text(s) => "string "@ + debug_text(s),
        JsonV::Array(_) => "sequence"@,
        JsonV::Object(_) => "map"@,
    }
}

/// What a value is called where another one was expected.
pub fn name_of(v: &Json) -> (r: String)
    ensures
        r@ == called(v@),
{
    match v {
        Json::Null => "null".to_owned(),
        Json::Bool(b) => if *b {
            "boolean `true`".to_owned()
        } else {
            "boolean `false`".to_owned()
        },
        Json::Unsigned(n) => join3("integer `", show(*n).as_str(), "`"),
        Json::Negative(n) => join3("integer `", show_signed(*n).as_str(), "`"),
        Json::Float(t) => join3("floating point `", t.as_str(), "`"),
        Json::Text(s) => "string ".to_owned().concat(debug(s.as_str()).as_str()),
        Json::Array(_) => "sequence".to_owned(),
        Json::Object(_) => "map".to_owned(),
    }
}

/// The words about a value of another type.
pub open spec fn invalid_type(v: JsonV, expected: Seq<char>) -> Seq<char> {
    "invalid type: "@ + called(v) + ", expected "@ + expected
}

/// The words about a value of another type.
pub fn invalid_type_words(v: &Json, expected: &str) -> (r: String)
    ensures
        r@ == invalid_type(v@, expected@),
{
    join3("invalid type: ", name_of(v).as_str(), ", expected ").concat(expected)
}

/// The words about a field that is not there.
pub open spec fn missing_field(k: Seq<char>) -> Seq<char> {
    "missing field `"@ + k + "`"@
}

/// The names of a list, each between backticks.
pub open spec fn quoted(names: Seq<Seq<char>>) -> Seq<Seq<char>> {
    Seq::new(names.len(), |i: int| "`"@ + names[i] + "`"@)
}

/// The words about a field that is not known.
pub open spec fn unknown_field(k: Seq<char>, names: Seq<Seq<char>>) -> Seq<char> {
    "unknown field `"@ + k + if names.len() == 0 {
        "`, there are no fields"@
    } else if names.len() == 1 {
        "`, expected `"@ + names[0] + "`"@
    } else if names.len() == 2 {
        "`, expected `"@ + names[0] + "` or `"@ + names[1] + "`"@
    } else {
        "`, expected one of "@ + joined(quoted(names), ", "@)
    }
}

/// The words about a field that is not known.
pub fn unknown_field_words(k: &str, names: &Vec<String>) -> (r: String)
    ensures
        r@ == unknown_field(k@, texts(names@)),
{
    let tail = if names.len() == 0 {
        "`, there are no fields".to_owned()
    } else if names.len() == 1 {
        join3("`, expected `", names[0].as_str(), "`")
    } else if names.len() == 2 {
        join3("`, expected `", names[0].as_str(), "` or `").concat(names[1].as_str()).concat("`")
    } else {
        let mut marked: Vec<String> = Vec::new();
        let mut i: usize = 0;
        while i < names.len()
            invariant
                i <= names@.len(),
                marked@.len() == i,
                forall|j: int| 0 <= j < i ==> (#[trigger] marked@[j])@ == "`"@ + names@[j]@ + "`"@,
            decreases names@.len() - i,
        {
            marked.push(join3("`", names[i].as_str(), "`"));
            i = i + 1;
        }
        assert(texts(marked@) =~= quoted(texts(names@)));
        "`, expected one of ".to_owned().concat(join_texts(&marked, ", ").as_str())
    };
    join3("unknown field `", k, tail.as_str())
}

} // verus!
