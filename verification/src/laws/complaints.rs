//! What a refusal says: the bound that was missed, the choices there are, the number that was found, the
//! words of the error below it.

use vstd::prelude::*;

use crate::automation::admit_windowed;
use crate::host_api::DispatchError;
use crate::json::{array_view, Json, JsonV};
use crate::session_api::{map_create_error, map_send_error};
use crate::session_spawn::CreateError;
use crate::settings::schema::ValidationKind;
use crate::settings::validate::{validate_cron, validate_value, ValidationError};
use crate::text::{join_texts, show, split_white, texts};
use crate::turns::{SendTurnError, SupervisorError};

verus! {

/// A number that is too small or too large is refused with the bound that it misses.
pub proof fn law_bound_is_named(
    min: u64,
    max: u64,
    n: u64,
    v: &Json,
    r: Result<(), ValidationError>,
    low: String,
    high: String,
)
    requires
        v@ == JsonV::Unsigned(n),
        call_ensures(validate_value, (&ValidationKind::RangeU64 { min, max: Some(max) }, v), r),
        call_ensures(show, (min,), low),
        call_ensures(show, (max,), high),
    ensures
        n < min ==> r is Err && r->Err_0.reason@ == "must be at least "@ + low@,
        min <= n && n > max ==> r is Err && r->Err_0.reason@ == "must be at most "@ + high@,
        min <= n <= max ==> r is Ok,
{
}

/// A text that is none of the choices is refused with the choices, in their order.
pub proof fn law_choices_are_named(
    options: Vec<String>,
    v: &Json,
    s: Seq<char>,
    r: Result<(), ValidationError>,
    sep: &str,
    all: String,
)
    requires
        v@ == JsonV::Text(s),
        call_ensures(validate_value, (&ValidationKind::OneOf { options }, v), r),
        sep@ == ", "@,
        call_ensures(join_texts, (&options, sep), all),
    ensures
        r is Ok <==> exists|i: int| 0 <= i < options@.len() && (#[trigger] options@[i])@ == s,
        r matches Err(e) ==> e.reason@ == "must be one of: "@ + all@,
{
    let t = texts(options@);
    if t.contains(s) {
        let i = choose|i: int| 0 <= i < t.len() && t[i] == s;
        assert(options@[i]@ == s);
    }
    if exists|i: int| 0 <= i < options@.len() && (#[trigger] options@[i])@ == s {
        let i = choose|i: int| 0 <= i < options@.len() && (#[trigger] options@[i])@ == s;
        assert(t[i] == s);
    }
}

/// A schedule that does not have five fields is refused with the number of fields it has.
pub proof fn law_field_count_is_named(s: &str, fields: Vec<String>, n: u64, count: String, r: Result<(), String>)
    requires
        call_ensures(split_white, (s,), fields),
        fields@.len() == n,
        n != 5,
        call_ensures(show, (n,), count),
        call_ensures(validate_cron, (s,), r),
    ensures
        r is Err,
        r->Err_0@ == "cron must have 5 fields (got "@ + count@ + "); e.g. \"0 9 * * 1-5\""@,
{
    assert(texts(fields@).len() == n);
}

/// A list of items that is too short or too long is refused with the number that is asked for.
pub proof fn law_item_count_is_named(
    kind: ValidationKind,
    low: u32,
    high: u32,
    items: Vec<Json>,
    v: &Json,
    r: Result<(), ValidationError>,
    least: String,
    most: String,
)
    requires
        kind matches ValidationKind::ObjectList { min_items, max_items, .. } && min_items == Some(low) && max_items
            == Some(high),
        v@ == JsonV::Array(array_view(items@)),
        array_view(items@).len() == items@.len(),
        call_ensures(validate_value, (&kind, v), r),
        call_ensures(show, (low as u64,), least),
        call_ensures(show, (high as u64,), most),
    ensures
        items@.len() < low ==> r is Err && r->Err_0.reason@ == "needs at least "@ + least@ + " item(s)"@,
        low <= items@.len() && items@.len() > high ==> r is Err && r->Err_0.reason@ == "allows at most "@ + most@
            + " item(s)"@,
{
}

/// A plugin that does something too often is told which limit it reached, and at what.
pub proof fn law_limit_is_named(
    operation: &str,
    plugin: &str,
    limit: u64,
    used: u64,
    r: Result<(), DispatchError>,
    shown: String,
)
    requires
        call_ensures(admit_windowed, (operation, plugin, limit, Ok(used)), r),
        call_ensures(show, (limit,), shown),
    ensures
        r is Ok <==> used < limit,
        r matches Err(e) ==> e.code == -32004 && e.message@ == "plugin "@ + plugin@ + " exceeded "@ + shown@
            + " admitted "@ + operation@ + " operations in the rolling hour"@,
{
}

/// The error of a call carries the words of the error below it.
pub proof fn law_words_are_passed_on(
    e: CreateError,
    d: DispatchError,
    t: SendTurnError,
    m: String,
    f: DispatchError,
    s: SupervisorError,
    words: &str,
)
    requires
        call_ensures(map_create_error, (e,), d),
        call_ensures(map_send_error, (t,), f),
        call_ensures(SendTurnError::message, (&t,), m),
        call_ensures(SupervisorError::message, (&s,), words),
    ensures
        e matches CreateError::Failed(w) ==> d.message@ == "session create failed: "@ + w@,
        e matches CreateError::BuildPanicked(w) ==> d.message@ == "session create failed: "@ + w@,
        s matches SupervisorError::UnknownSession(w) ==> words@ == w@,
        s matches SupervisorError::Other(w) ==> words@ == w@,
        t == SendTurnError::ModeApplication(s) ==> m@ == "mode application failed: "@ + words@ && f.message@ == m@,
        t == SendTurnError::ResumeFailed(s) ==> m@ == "worker resume failed: "@ + words@ && f.message@ == m@,
        t == SendTurnError::Send(s) ==> m@ == "prompt forward failed: "@ + words@ && f.message@ == m@,
{
}

} // verus!
