//! The checks a value has to pass before it is merged into a settings document. A value that
//! fails is refused with a reason; nothing is silently adjusted.

use vstd::prelude::*;

use crate::json::{
    array_view, lemma_array_view, lemma_object_finite, lists_keys, member, members, Json, JsonMap, JsonV,
};
use crate::order::{lemma_least, lemma_lt_irreflexive, lemma_lt_total, text_lt};
use crate::profile_config::{
    env_check, memory_check, network_check, outcome, port_check, validate_env_format, validate_memory_limit,
    validate_network_format, validate_port_mapping_format, validate_volume_format, volume_check,
};
use crate::settings::schema::{ObjectFieldDescriptor, ValidationKind};
use crate::text::{
    cut, debug, debug_text, decimal, has_text, is_blank, is_empty, join2, join_texts, joined, number, parse_number, pieces, same, show,
    split, split_once, split_white, texts, trimmed, words,
};

verus! {

broadcast use lemma_array_view;

/// Why a value was refused.
#[derive(Debug, Clone)]
pub struct ValidationError {
    pub reason: String,
}

impl ValidationError {
    pub fn new(reason: String) -> (r: ValidationError)
        ensures
            r.reason@ == reason@,
    {
        ValidationError { reason }
    }
}

/// The outcome of a check, with the characters of its reason.
pub open spec fn verdict(r: Result<(), ValidationError>) -> Result<(), Seq<char>> {
    match r {
        Ok(_) => Ok(()),
        Err(e) => Err(e.reason@),
    }
}

fn to_verdict(r: Result<(), String>) -> (v: Result<(), ValidationError>)
    ensures
        verdict(v) == outcome(r),
{
    match r {
        Ok(_) => Ok(()),
        Err(e) => Err(ValidationError::new(e)),
    }
}

/// The first error among `n` checks in order.
pub open spec fn first_error(n: nat, check: spec_fn(int) -> Result<(), Seq<char>>) -> Result<(), Seq<char>>
    decreases n,
{
    if n == 0 {
        Ok(())
    } else {
        match first_error((n - 1) as nat, check) {
            Ok(_) => check(n - 1),
            Err(e) => Err(e),
        }
    }
}

/// An error stays the first one whatever checks follow.
pub proof fn lemma_first_error_stays(m: nat, n: nat, check: spec_fn(int) -> Result<(), Seq<char>>)
    requires
        m <= n,
        first_error(m, check) is Err,
    ensures
        first_error(n, check) == first_error(m, check),
    decreases n,
{
    if m < n {
        lemma_first_error_stays(m, (n - 1) as nat, check);
    }
}

/// All checks pass exactly when there is no first error.
pub proof fn lemma_first_error_ok(n: nat, check: spec_fn(int) -> Result<(), Seq<char>>)
    ensures
        first_error(n, check) is Ok <==> forall|i: int| 0 <= i < n ==> (#[trigger] check(i)) is Ok,
    decreases n,
{
    if n > 0 {
        lemma_first_error_ok((n - 1) as nat, check);
    }
}

/// A number of a cron field: it fits into 32 bits.
pub open spec fn cron_number(s: Seq<char>) -> Option<nat> {
    match number(s) {
        Some(n) => if n <= u32::MAX {
            Some(n)
        } else {
            None
        },
        None => None,
    }
}

/// How the part of a cron item before its step is checked: `*`, a range or a number.
pub open spec fn cron_range_check(range: Seq<char>, lo: nat, hi: nat) -> Result<(), Seq<char>> {
    if range == "*"@ {
        Ok(())
    } else {
        match cut(range, '-') {
            Some((a, b)) => match (cron_number(a), cron_number(b)) {
                (None, _) => Err("invalid cron value "@ + debug_text(a)),
                (_, None) => Err("invalid cron value "@ + debug_text(b)),
                (Some(x), Some(y)) => if !(lo <= x <= hi && lo <= y <= hi) {
                    Err("cron value out of range "@ + decimal(lo) + "-"@ + decimal(hi))
                } else if x > y {
                    Err("cron range "@ + decimal(x) + "-"@ + decimal(y) + " is reversed"@)
                } else {
                    Ok(())
                },
            },
            None => match cron_number(range) {
                None => Err("invalid cron value "@ + debug_text(range)),
                Some(x) => if !(lo <= x <= hi) {
                    Err("cron value "@ + decimal(x) + " out of range "@ + decimal(lo) + "-"@ + decimal(hi))
                } else {
                    Ok(())
                },
            },
        }
    }
}

/// How one item of a cron field is checked against the bounds of the field.
pub open spec fn cron_item_check(item: Seq<char>, lo: nat, hi: nat) -> Result<(), Seq<char>> {
    if item.len() == 0 {
        Err("empty cron field item"@)
    } else {
        match cut(item, '/') {
            Some((range, step)) => match cron_number(step) {
                None => Err("invalid cron step "@ + debug_text(step)),
                Some(n) => if n == 0 {
                    Err("cron step must be positive"@)
                } else {
                    cron_range_check(range, lo, hi)
                },
            },
            None => cron_range_check(item, lo, hi),
        }
    }
}

/// The bounds of the five fields: minute, hour, day of the month, month, day of the week.
pub open spec fn cron_bounds(i: int) -> (nat, nat) {
    if i == 0 {
        (0, 59)
    } else if i == 1 {
        (0, 23)
    } else if i == 2 {
        (1, 31)
    } else if i == 3 {
        (1, 12)
    } else {
        (0, 6)
    }
}

/// How the comma list of one cron field is checked.
pub open spec fn cron_field_check(field: Seq<char>, lo: nat, hi: nat) -> Result<(), Seq<char>> {
    first_error(pieces(field, ',').len(), cron_item_checks(field, lo, hi))
}

/// The checks of the items of a cron field.
pub open spec fn cron_item_checks(field: Seq<char>, lo: nat, hi: nat) -> spec_fn(int) -> Result<(), Seq<char>> {
    |i: int| cron_item_check(pieces(field, ',')[i], lo, hi)
}

/// How a cron expression is checked.
pub open spec fn cron_check(expr: Seq<char>) -> Result<(), Seq<char>> {
    let fields = words(expr);
    if fields.len() != 5 {
        Err("cron must have 5 fields (got "@ + decimal(fields.len()) + "); e.g. \"0 9 * * 1-5\""@)
    } else {
        first_error(5, cron_field_checks(fields))
    }
}

/// The checks of the fields of a cron expression.
pub open spec fn cron_field_checks(fields: Seq<Seq<char>>) -> spec_fn(int) -> Result<(), Seq<char>> {
    |i: int| cron_field_check(fields[i], cron_bounds(i).0, cron_bounds(i).1)
}

fn parse_cron_number(s: &str) -> (r: Option<u32>)
    ensures
        match r {
            Some(n) => cron_number(s@) == Some(n as nat),
            None => cron_number(s@) is None,
        },
{
    match parse_number(s) {
        Some(n) => if n <= 0xFFFF_FFFF {
            Some(n as u32)
        } else {
            None
        },
        None => None,
    }
}

/// Checks one item of a cron field.
fn validate_cron_item(item: &str, lo: u32, hi: u32) -> (r: Result<(), String>)
    ensures
        outcome(r) == cron_item_check(item@, lo as nat, hi as nat),
{
    if is_empty(item) {
        return Err("empty cron field item".to_owned());
    }
    match split_once(item, '/') {
        Some((range, step_text)) => {
            match parse_cron_number(step_text.as_str()) {
                Some(step) => {
                    if step == 0 {
                        return Err("cron step must be positive".to_owned());
                    }
                    validate_cron_range(range.as_str(), lo, hi)
                },
                None => Err(join2("invalid cron step ", debug(step_text.as_str()).as_str())),
            }
        },
        None => validate_cron_range(item, lo, hi),
    }
}

fn validate_cron_range(range: &str, lo: u32, hi: u32) -> (r: Result<(), String>)
    ensures
        outcome(r) == cron_range_check(range@, lo as nat, hi as nat),
{
    if same(range, "*") {
        return Ok(());
    }
    match split_once(range, '-') {
        Some((a, b)) => {
            let x: u32 = match parse_cron_number(a.as_str()) {
                Some(x) => x,
                None => {
                    return Err(join2("invalid cron value ", debug(a.as_str()).as_str()));
                },
            };
            let y: u32 = match parse_cron_number(b.as_str()) {
                Some(y) => y,
                None => {
                    return Err(join2("invalid cron value ", debug(b.as_str()).as_str()));
                },
            };
            if !(lo <= x && x <= hi) || !(lo <= y && y <= hi) {
                return Err(
                    "cron value out of range ".to_owned().concat(show(lo as u64).as_str()).concat("-").concat(
                        show(hi as u64).as_str(),
                    ),
                );
            }
            if x > y {
                return Err(
                    "cron range ".to_owned().concat(show(x as u64).as_str()).concat("-").concat(
                        show(y as u64).as_str(),
                    ).concat(" is reversed"),
                );
            }
            Ok(())
        },
        None => {
            let x: u32 = match parse_cron_number(range) {
                Some(x) => x,
                None => {
                    return Err(join2("invalid cron value ", debug(range).as_str()));
                },
            };
            if !(lo <= x && x <= hi) {
                return Err(
                    "cron value ".to_owned().concat(show(x as u64).as_str()).concat(" out of range ").concat(
                        show(lo as u64).as_str(),
                    ).concat("-").concat(show(hi as u64).as_str()),
                );
            }
            Ok(())
        },
    }
}

fn validate_cron_field(field: &str, lo: u32, hi: u32) -> (r: Result<(), String>)
    ensures
        outcome(r) == cron_field_check(field@, lo as nat, hi as nat),
{
    let items = split(field, ',');
    let ghost parts = pieces(field@, ',');
    let ghost check = cron_item_checks(field@, lo as nat, hi as nat);
    let mut i: usize = 0;
    while i < items.len()
        invariant
            i <= items@.len(),
            parts == texts(items@),
            parts == pieces(field@, ','),
            check == cron_item_checks(field@, lo as nat, hi as nat),
            first_error(i as nat, check) == Ok::<(), Seq<char>>(()),
        decreases items@.len() - i,
    {
        assert(parts[i as int] == items@[i as int]@);
        let checked = validate_cron_item(items[i].as_str(), lo, hi);
        assert(outcome(checked) == check(i as int));
        if checked.is_err() {
            proof {
                lemma_first_error_stays((i + 1) as nat, parts.len(), check);
            }
            return checked;
        }
        i = i + 1;
    }
    Ok(())
}

/// Checks a cron expression of five fields.
pub fn validate_cron(expr: &str) -> (r: Result<(), String>)
    ensures
        outcome(r) == cron_check(expr@),
{
    let fields = split_white(expr);
    let ghost parts = words(expr@);
    assert(parts.len() == fields@.len());
    if fields.len() != 5 {
        return Err(
            "cron must have 5 fields (got ".to_owned().concat(show(fields.len() as u64).as_str()).concat(
                "); e.g. \"0 9 * * 1-5\"",
            ),
        );
    }
    let ghost check = cron_field_checks(parts);
    let mut i: usize = 0;
    while i < 5
        invariant
            i <= 5,
            fields@.len() == 5,
            parts == texts(fields@),
            parts == words(expr@),
            check == cron_field_checks(parts),
            first_error(i as nat, check) == Ok::<(), Seq<char>>(()),
        decreases 5 - i,
    {
        assert(parts[i as int] == fields@[i as int]@);
        let (lo, hi): (u32, u32) = if i == 0 {
            (0, 59)
        } else if i == 1 {
            (0, 23)
        } else if i == 2 {
            (1, 31)
        } else if i == 3 {
            (1, 12)
        } else {
            (0, 6)
        };
        let checked = validate_cron_field(fields[i].as_str(), lo, hi);
        assert(outcome(checked) == check(i as int));
        if checked.is_err() {
            proof {
                lemma_first_error_stays((i + 1) as nat, 5, check);
            }
            return checked;
        }
        i = i + 1;
    }
    Ok(())
}

/// The formats that the entries of a list can be held to.
#[derive(Debug, Clone, Copy, PartialEq, Eq, Structural)]
pub enum EntryFormat {
    Volume,
    Env,
    PortMapping,
}

/// How one entry of a list is checked.
pub open spec fn entry_check(format: EntryFormat, s: Seq<char>) -> Result<(), Seq<char>> {
    match format {
        EntryFormat::Volume => volume_check(s),
        EntryFormat::Env => env_check(s),
        EntryFormat::PortMapping => port_check(s),
    }
}

/// The checks of the entries of a list.
pub open spec fn entry_checks(format: EntryFormat, items: Seq<JsonV>) -> spec_fn(int) -> Result<(), Seq<char>> {
    |i: int|
        match items[i] {
            JsonV::Text(s) => entry_check(format, s),
            _ => Err("list entries must be strings"@),
        }
}

/// How a list of strings is checked.
pub open spec fn string_list_check(format: EntryFormat, v: JsonV) -> Result<(), Seq<char>> {
    match v {
        JsonV::Array(items) => first_error(items.len(), entry_checks(format, items)),
        _ => Err("expected a list"@),
    }
}

fn validate_entry(format: EntryFormat, s: &str) -> (r: Result<(), String>)
    ensures
        outcome(r) == entry_check(format, s@),
{
    match format {
        EntryFormat::Volume => validate_volume_format(s),
        EntryFormat::Env => validate_env_format(s),
        EntryFormat::PortMapping => validate_port_mapping_format(s),
    }
}

/// Checks that a value is a list of strings of a format.
fn validate_string_list(value: &Json, format: EntryFormat) -> (r: Result<(), ValidationError>)
    ensures
        verdict(r) == string_list_check(format, value@),
{
    let items = match value.as_array() {
        Some(items) => items,
        None => {
            return Err(ValidationError::new("expected a list".to_owned()));
        },
    };
    let ghost views = array_view(items@);
    let ghost check = entry_checks(format, views);
    let mut i: usize = 0;
    while i < items.len()
        invariant
            i <= items@.len(),
            value@ == JsonV::Array(views),
            views == array_view(items@),
            check == entry_checks(format, views),
            first_error(i as nat, check) == Ok::<(), Seq<char>>(()),
        decreases items@.len() - i,
    {
        assert(views[i as int] == items@[i as int]@);
        let checked = match items[i].as_str() {
            Some(s) => to_verdict(validate_entry(format, s)),
            None => Err(ValidationError::new("list entries must be strings".to_owned())),
        };
        assert(verdict(checked) == check(i as int));
        if checked.is_err() {
            proof {
                lemma_first_error_stays((i + 1) as nat, views.len(), check);
            }
            return checked;
        }
        i = i + 1;
    }
    Ok(())
}

/// The id of an object-list item: the text under the id field, unless it is blank.
pub open spec fn item_id(v: JsonV, id_field: Seq<char>) -> Option<Seq<char>> {
    match member(v, id_field) {
        Some(JsonV::Text(s)) => if trimmed(s).len() > 0 {
            Some(s)
        } else {
            None
        },
        _ => None,
    }
}

/// Whether a key is the id field or that of a declared field.
pub open spec fn declared(k: Seq<char>, id_field: Seq<char>, fields: Seq<ObjectFieldDescriptor>) -> bool {
    k == id_field || exists|j: int| 0 <= j < fields.len() && (#[trigger] fields[j]).field@ == k
}

/// Whether a key of an item is the first one, in ascending order, that is not declared.
pub open spec fn is_first_undeclared(
    k: Seq<char>,
    m: Map<Seq<char>, JsonV>,
    id_field: Seq<char>,
    fields: Seq<ObjectFieldDescriptor>,
) -> bool {
    m.contains_key(k) && !declared(k, id_field, fields) && forall|l: Seq<char>| #[trigger]
        m.contains_key(l) && !declared(l, id_field, fields) ==> !text_lt(l, k)
}

/// The first key of an item that is not declared.
pub open spec fn first_undeclared(
    m: Map<Seq<char>, JsonV>,
    id_field: Seq<char>,
    fields: Seq<ObjectFieldDescriptor>,
) -> Option<Seq<char>> {
    if exists|k: Seq<char>| is_first_undeclared(k, m, id_field, fields) {
        Some(choose|k: Seq<char>| is_first_undeclared(k, m, id_field, fields))
    } else {
        None
    }
}

/// How the first `n` declared fields of an item are checked.
pub open spec fn fields_check(
    fields: Seq<ObjectFieldDescriptor>,
    n: nat,
    m: Map<Seq<char>, JsonV>,
    i: nat,
) -> Result<(), Seq<char>>
    decreases fields, 0nat, n,
{
    if n == 0 || n > fields.len() {
        Ok(())
    } else {
        match fields_check(fields, (n - 1) as nat, m, i) {
            Err(e) => Err(e),
            Ok(_) => {
                let f = fields[n - 1];
                if m.contains_key(f.field@) {
                    match value_check(f.validation, m[f.field@]) {
                        Ok(_) => Ok(()),
                        Err(e) => Err("item "@ + decimal(i) + " field "@ + debug_text(f.field@) + ": "@ + e),
                    }
                } else if f.required {
                    Err("item "@ + decimal(i) + " is missing required field "@ + debug_text(f.field@))
                } else {
                    Ok(())
                }
            },
        }
    }
}

/// How the item at an index is checked, given those before it.
pub open spec fn item_check(
    fields: Seq<ObjectFieldDescriptor>,
    id_field: Seq<char>,
    items: Seq<JsonV>,
    i: nat,
) -> Result<(), Seq<char>>
    decreases fields, 1nat, 0nat,
{
    match items[i as int] {
        JsonV::Object(m) => match item_id(items[i as int], id_field) {
            None => Err("item "@ + decimal(i) + " is missing a non-empty "@ + debug_text(id_field)),
            Some(id) => if exists|j: int| 0 <= j < i && #[trigger] item_id(items[j], id_field) == Some(id) {
                Err("duplicate item id "@ + debug_text(id))
            } else {
                match first_undeclared(m, id_field, fields) {
                    Some(k) => Err("item "@ + decimal(i) + " has an undeclared field "@ + debug_text(k)),
                    None => fields_check(fields, fields.len(), m, i),
                }
            },
        },
        _ => Err("item "@ + decimal(i) + " must be an object"@),
    }
}

/// How the first `n` items are checked.
pub open spec fn items_check(
    fields: Seq<ObjectFieldDescriptor>,
    id_field: Seq<char>,
    items: Seq<JsonV>,
    n: nat,
) -> Result<(), Seq<char>>
    decreases fields, 2nat, n,
{
    if n == 0 {
        Ok(())
    } else {
        match items_check(fields, id_field, items, (n - 1) as nat) {
            Err(e) => Err(e),
            Ok(_) => item_check(fields, id_field, items, (n - 1) as nat),
        }
    }
}

/// How a list of objects is checked.
pub open spec fn object_list_check(
    v: JsonV,
    id_field: Seq<char>,
    fields: Seq<ObjectFieldDescriptor>,
    min_items: Option<u32>,
    max_items: Option<u32>,
) -> Result<(), Seq<char>>
    decreases fields, 3nat, 0nat,
{
    match v {
        JsonV::Array(items) => if min_items is Some && items.len() < min_items->0 {
            Err("needs at least "@ + decimal(min_items->0 as nat) + " item(s)"@)
        } else if max_items is Some && items.len() > max_items->0 {
            Err("allows at most "@ + decimal(max_items->0 as nat) + " item(s)"@)
        } else {
            items_check(fields, id_field, items, items.len())
        },
        _ => Err("expected a list of items"@),
    }
}

/// How a value is checked against the rule of its field.
pub open spec fn value_check(kind: ValidationKind, v: JsonV) -> Result<(), Seq<char>>
    decreases kind, 0nat, 0nat,
{
    match kind {
        ValidationKind::Unchecked => Ok(()),
        ValidationKind::RangeU64 { min, max } => match v {
            JsonV::Unsigned(n) => if n < min {
                Err("must be at least "@ + decimal(min as nat))
            } else if max is Some && n > max->0 {
                Err("must be at most "@ + decimal(max->0 as nat))
            } else {
                Ok(())
            },
            _ => Err("expected a non-negative integer"@),
        },
        ValidationKind::VolumeList => string_list_check(EntryFormat::Volume, v),
        ValidationKind::EnvList => string_list_check(EntryFormat::Env, v),
        ValidationKind::PortMappingList => string_list_check(EntryFormat::PortMapping, v),
        ValidationKind::ObjectList { id_field, fields, min_items, max_items } => object_list_check(
            v,
            id_field@,
            fields@,
            min_items,
            max_items,
        ),
        _ => match v {
            JsonV::Text(s) => text_check(kind, s),
            _ => Err("expected a string"@),
        },
    }
}

/// How a text is checked against the rules that ask for one.
pub open spec fn text_check(kind: ValidationKind, s: Seq<char>) -> Result<(), Seq<char>> {
    match kind {
        ValidationKind::NonEmptyString => if trimmed(s).len() == 0 {
            Err("must not be empty"@)
        } else {
            Ok(())
        },
        ValidationKind::MemoryLimit => memory_check(s),
        ValidationKind::Network => network_check(s),
        ValidationKind::OneOf { options } => if texts(options@).contains(s) {
            Ok(())
        } else {
            Err("must be one of: "@ + joined(texts(options@), ", "@))
        },
        ValidationKind::Cron => cron_check(s),
        _ => Ok(()),
    }
}

proof fn lemma_fields_error_stays(
    fields: Seq<ObjectFieldDescriptor>,
    a: nat,
    b: nat,
    m: Map<Seq<char>, JsonV>,
    i: nat,
)
    requires
        a <= b <= fields.len(),
        fields_check(fields, a, m, i) is Err,
    ensures
        fields_check(fields, b, m, i) == fields_check(fields, a, m, i),
    decreases b,
{
    if a < b {
        lemma_fields_error_stays(fields, a, (b - 1) as nat, m, i);
    }
}

proof fn lemma_items_error_stays(
    fields: Seq<ObjectFieldDescriptor>,
    id_field: Seq<char>,
    items: Seq<JsonV>,
    a: nat,
    b: nat,
)
    requires
        a <= b,
        items_check(fields, id_field, items, a) is Err,
    ensures
        items_check(fields, id_field, items, b) == items_check(fields, id_field, items, a),
    decreases b,
{
    if a < b {
        lemma_items_error_stays(fields, id_field, items, a, (b - 1) as nat);
    }
}

/// Checks a text against the rules that ask for one.
fn validate_text(kind: &ValidationKind, s: &str) -> (r: Result<(), ValidationError>)
    ensures
        verdict(r) == text_check(*kind, s@),
{
    match kind {
        ValidationKind::NonEmptyString => {
            if is_blank(s) {
                Err(ValidationError::new("must not be empty".to_owned()))
            } else {
                Ok(())
            }
        },
        ValidationKind::MemoryLimit => to_verdict(validate_memory_limit(s)),
        ValidationKind::Network => to_verdict(validate_network_format(s)),
        ValidationKind::OneOf { options } => {
            if has_text(options, s) {
                Ok(())
            } else {
                Err(ValidationError::new(join2("must be one of: ", join_texts(options, ", ").as_str())))
            }
        },
        ValidationKind::Cron => to_verdict(validate_cron(s)),
        _ => Ok(()),
    }
}

/// Checks a value against the rule of its field.
pub fn validate_value(kind: &ValidationKind, value: &Json) -> (r: Result<(), ValidationError>)
    ensures
        verdict(r) == value_check(*kind, value@),
    decreases *kind, 0nat,
{
    match kind {
        ValidationKind::Unchecked => Ok(()),
        ValidationKind::RangeU64 { min, max } => {
            let n: u64 = match value.as_u64() {
                Some(n) => n,
                None => {
                    return Err(ValidationError::new("expected a non-negative integer".to_owned()));
                },
            };
            if n < *min {
                return Err(ValidationError::new(join2("must be at least ", show(*min).as_str())));
            }
            if let Some(max) = max {
                if n > *max {
                    return Err(ValidationError::new(join2("must be at most ", show(*max).as_str())));
                }
            }
            Ok(())
        },
        ValidationKind::VolumeList => validate_string_list(value, EntryFormat::Volume),
        ValidationKind::EnvList => validate_string_list(value, EntryFormat::Env),
        ValidationKind::PortMappingList => validate_string_list(value, EntryFormat::PortMapping),
        ValidationKind::ObjectList { id_field, fields, min_items, max_items } => validate_object_list(
            value,
            id_field.as_str(),
            fields,
            *min_items,
            *max_items,
        ),
        _ => match value.as_str() {
            Some(s) => validate_text(kind, s),
            None => Err(ValidationError::new("expected a string".to_owned())),
        },
    }
}

/// Checks a list of objects: the bounds on its length, a unique id per item, declared fields
/// only, and each field against its own rule.
fn validate_object_list(
    value: &Json,
    id_field: &str,
    fields: &Vec<ObjectFieldDescriptor>,
    min_items: Option<u32>,
    max_items: Option<u32>,
) -> (r: Result<(), ValidationError>)
    ensures
        verdict(r) == object_list_check(value@, id_field@, fields@, min_items, max_items),
    decreases *fields, 2nat,
{
    let items = match value.as_array() {
        Some(items) => items,
        None => {
            return Err(ValidationError::new("expected a list of items".to_owned()));
        },
    };
    let ghost views = array_view(items@);
    if let Some(min) = min_items {
        if items.len() < min as usize {
            return Err(
                ValidationError::new(
                    "needs at least ".to_owned().concat(show(min as u64).as_str()).concat(" item(s)"),
                ),
            );
        }
    }
    if let Some(max) = max_items {
        if items.len() > max as usize {
            return Err(
                ValidationError::new(
                    "allows at most ".to_owned().concat(show(max as u64).as_str()).concat(" item(s)"),
                ),
            );
        }
    }
    let mut i: usize = 0;
    while i < items.len()
        invariant
            i <= items@.len(),
            views == array_view(items@),
            value@ == JsonV::Array(views),
            min_items is Some ==> views.len() >= min_items->0,
            max_items is Some ==> views.len() <= max_items->0,
            items_check(fields@, id_field@, views, i as nat) == Ok::<(), Seq<char>>(()),
        decreases items@.len() - i,
    {
        let checked = validate_item(items, i, id_field, fields);
        if checked.is_err() {
            proof {
                lemma_items_error_stays(fields@, id_field@, views, (i + 1) as nat, views.len());
            }
            return checked;
        }
        i = i + 1;
    }
    Ok(())
}

/// The id of an item.
fn find_item_id(item: &Json, id_field: &str) -> (r: Option<String>)
    ensures
        match r {
            Some(id) => item_id(item@, id_field@) == Some(id@),
            None => item_id(item@, id_field@) is None,
        },
{
    match item.get(id_field) {
        Some(v) => match v.as_str() {
            Some(s) => if is_blank(s) {
                None
            } else {
                Some(s.to_owned())
            },
            None => None,
        },
        None => None,
    }
}

/// Whether a key is declared.
fn is_declared(key: &str, id_field: &str, fields: &Vec<ObjectFieldDescriptor>) -> (r: bool)
    ensures
        r == declared(key@, id_field@, fields@),
{
    if same(key, id_field) {
        return true;
    }
    let mut j: usize = 0;
    while j < fields.len()
        invariant
            j <= fields@.len(),
            forall|k: int| 0 <= k < j ==> (#[trigger] fields@[k]).field@ != key@,
        decreases fields@.len() - j,
    {
        if same(fields[j].field.as_str(), key) {
            assert(fields@[j as int].field@ == key@);
            return true;
        }
        j = j + 1;
    }
    false
}

/// The first key of an item that is not declared.
fn find_undeclared(m: &JsonMap, id_field: &str, fields: &Vec<ObjectFieldDescriptor>) -> (r: Option<String>)
    ensures
        match r {
            Some(k) => first_undeclared(m@, id_field@, fields@) == Some(k@),
            None => first_undeclared(m@, id_field@, fields@) is None,
        },
{
    let keys = m.keys();
    let ghost ks = texts(keys@);
    let mut i: usize = 0;
    while i < keys.len()
        invariant
            i <= keys@.len(),
            ks == texts(keys@),
            lists_keys(ks, m@),
            forall|j: int| 0 <= j < i ==> declared(#[trigger] ks[j], id_field@, fields@),
        decreases keys@.len() - i,
    {
        let key = keys[i].clone();
        if !is_declared(key.as_str(), id_field, fields) {
            proof {
                let k = key@;
                assert(ks[i as int] == k);
                assert(ks.contains(k));
                assert forall|l: Seq<char>| #[trigger]
                    m@.contains_key(l) && !declared(l, id_field@, fields@) implies !text_lt(l, k) by {
                    assert(ks.contains(l));
                    let j = choose|j: int| 0 <= j < ks.len() && ks[j] == l;
                    if j == i {
                        lemma_lt_irreflexive(k);
                    } else {
                        assert(j > i);
                        assert(text_lt(ks[i as int], ks[j]));
                        if text_lt(l, k) {
                            crate::order::lemma_lt_transitive(l, k, l);
                            lemma_lt_irreflexive(l);
                        }
                    }
                }
                assert(is_first_undeclared(k, m@, id_field@, fields@));
                let c = choose|c: Seq<char>| is_first_undeclared(c, m@, id_field@, fields@);
                assert(is_first_undeclared(c, m@, id_field@, fields@));
                lemma_lt_total(c, k);
                assert(!text_lt(c, k) && !text_lt(k, c));
            }
            return Some(key);
        }
        assert(ks[i as int] == key@);
        i = i + 1;
    }
    assert forall|k: Seq<char>| !is_first_undeclared(k, m@, id_field@, fields@) by {
        if m@.contains_key(k) {
            assert(ks.contains(k));
            let j = choose|j: int| 0 <= j < ks.len() && ks[j] == k;
            assert(declared(ks[j], id_field@, fields@));
        }
    }
    None
}

/// Checks one item of a list of objects.
fn validate_item(
    items: &Vec<Json>,
    i: usize,
    id_field: &str,
    fields: &Vec<ObjectFieldDescriptor>,
) -> (r: Result<(), ValidationError>)
    requires
        i < items@.len(),
    ensures
        verdict(r) == item_check(fields@, id_field@, array_view(items@), i as nat),
    decreases *fields, 1nat,
{
    let ghost views = array_view(items@);
    let item = &items[i];
    let number = show(i as u64);
    assert(views[i as int] == item@);
    let obj = match item.as_object() {
        Some(m) => m,
        None => {
            return Err(
                ValidationError::new("item ".to_owned().concat(number.as_str()).concat(" must be an object")),
            );
        },
    };
    let id = match find_item_id(item, id_field) {
        Some(id) => id,
        None => {
            return Err(
                ValidationError::new(
                    "item ".to_owned().concat(number.as_str()).concat(" is missing a non-empty ").concat(
                        debug(id_field).as_str(),
                    ),
                ),
            );
        },
    };
    let mut j: usize = 0;
    while j < i
        invariant
            j <= i < items@.len(),
            views == array_view(items@),
            views[i as int] is Object,
            item_id(views[i as int], id_field@) == Some(id@),
            forall|k: int| 0 <= k < j ==> #[trigger] item_id(views[k], id_field@) != Some(id@),
        decreases i - j,
    {
        assert(views[j as int] == items@[j as int]@);
        if let Some(other) = find_item_id(&items[j], id_field) {
            if same(other.as_str(), id.as_str()) {
                assert(item_id(views[j as int], id_field@) == Some(id@));
                assert(views[i as int] == items@[i as int]@);
                return Err(
                    ValidationError::new(join2("duplicate item id ", debug(id.as_str()).as_str())),
                );
            }
        }
        j = j + 1;
    }
    match find_undeclared(obj, id_field, fields) {
        Some(key) => Err(
            ValidationError::new(
                "item ".to_owned().concat(number.as_str()).concat(" has an undeclared field ").concat(
                    debug(key.as_str()).as_str(),
                ),
            ),
        ),
        None => validate_item_fields(obj, i, fields),
    }
}

/// Checks the declared fields of one item.
fn validate_item_fields(obj: &JsonMap, i: usize, fields: &Vec<ObjectFieldDescriptor>) -> (r: Result<
    (),
    ValidationError,
>)
    ensures
        verdict(r) == fields_check(fields@, fields@.len(), obj@, i as nat),
    decreases *fields, 0nat,
{
    let number = show(i as u64);
    let mut j: usize = 0;
    while j < fields.len()
        invariant
            j <= fields@.len(),
            number@ == decimal(i as nat),
            fields_check(fields@, j as nat, obj@, i as nat) == Ok::<(), Seq<char>>(()),
        decreases fields@.len() - j,
    {
        let f = &fields[j];
        let checked: Result<(), ValidationError> = match obj.get(f.field.as_str()) {
            Some(v) => {
                assert(decreases_to!(*fields => fields@[j as int]));
                assert(decreases_to!(fields@[j as int] => fields@[j as int].validation));
                match validate_value(&f.validation, v) {
                    Ok(_) => Ok(()),
                    Err(e) => Err(
                        ValidationError::new(
                            "item ".to_owned().concat(number.as_str()).concat(" field ").concat(
                                debug(f.field.as_str()).as_str(),
                            ).concat(": ").concat(e.reason.as_str()),
                        ),
                    ),
                }
            },
            None => if f.required {
                Err(
                    ValidationError::new(
                        "item ".to_owned().concat(number.as_str()).concat(" is missing required field ").concat(
                            debug(f.field.as_str()).as_str(),
                        ),
                    ),
                )
            } else {
                Ok(())
            },
        };
        assert(verdict(checked) == fields_check(fields@, (j + 1) as nat, obj@, i as nat));
        if checked.is_err() {
            proof {
                lemma_fields_error_stays(fields@, (j + 1) as nat, fields@.len(), obj@, i as nat);
            }
            return checked;
        }
        j = j + 1;
    }
    Ok(())
}

/// Whether an item of an object list is in order: an object with an id of its own, declared
/// fields only, every required field present and every present field valid.
pub open spec fn good_item(
    fields: Seq<ObjectFieldDescriptor>,
    id_field: Seq<char>,
    items: Seq<JsonV>,
    i: int,
) -> bool {
    &&& items[i] is Object
    &&& item_id(items[i], id_field) is Some
    &&& forall|j: int| 0 <= j < i ==> #[trigger] item_id(items[j], id_field) != item_id(items[i], id_field)
    &&& forall|k: Seq<char>| #[trigger] members(items[i]).contains_key(k) ==> declared(k, id_field, fields)
    &&& forall|f: int| 0 <= f < fields.len() ==> good_field(#[trigger] fields[f], members(items[i]))
}

/// Whether a field of an item is valid where it is present, and present where it is required.
pub open spec fn good_field(f: ObjectFieldDescriptor, m: Map<Seq<char>, JsonV>) -> bool {
    if m.contains_key(f.field@) {
        value_check(f.validation, m[f.field@]) is Ok
    } else {
        !f.required
    }
}

proof fn lemma_fields_ok(fields: Seq<ObjectFieldDescriptor>, n: nat, m: Map<Seq<char>, JsonV>, i: nat)
    requires
        n <= fields.len(),
    ensures
        fields_check(fields, n, m, i) is Ok <==> forall|f: int| 0 <= f < n ==> good_field(#[trigger] fields[f], m),
    decreases n,
{
    if n > 0 {
        lemma_fields_ok(fields, (n - 1) as nat, m, i);
        assert(fields_check(fields, n, m, i) is Ok <==> fields_check(fields, (n - 1) as nat, m, i) is Ok && good_field(
            fields[n - 1],
            m,
        ));
    }
}

proof fn lemma_undeclared_found(m: Map<Seq<char>, JsonV>, id_field: Seq<char>, fields: Seq<ObjectFieldDescriptor>)
    requires
        m.dom().finite(),
    ensures
        first_undeclared(m, id_field, fields) is None <==> forall|k: Seq<char>| #[trigger]
            m.contains_key(k) ==> declared(k, id_field, fields),
{
    let undeclared = |k: Seq<char>| !declared(k, id_field, fields);
    let odd = m.dom().filter(undeclared);
    m.dom().lemma_len_filter(undeclared);
    if exists|k: Seq<char>| #[trigger] m.contains_key(k) && !declared(k, id_field, fields) {
        let k = choose|k: Seq<char>| #[trigger] m.contains_key(k) && !declared(k, id_field, fields);
        assert(odd.contains(k));
        if odd.len() == 0 {
            odd.lemma_len0_is_empty();
            assert(!Set::<Seq<char>>::empty().contains(k));
        }
        let least = lemma_least(odd);
        assert forall|l: Seq<char>| #[trigger]
            m.contains_key(l) && !declared(l, id_field, fields) implies !text_lt(l, least) by {
            assert(odd.contains(l));
        }
        assert(is_first_undeclared(least, m, id_field, fields));
    }
}

/// An object list passes exactly when its length is within the bounds and every item is in order.
pub proof fn law_object_list_accepts(
    items: Seq<Json>,
    id_field: Seq<char>,
    fields: Seq<ObjectFieldDescriptor>,
    min_items: Option<u32>,
    max_items: Option<u32>,
)
    ensures
        object_list_check(JsonV::Array(array_view(items)), id_field, fields, min_items, max_items) is Ok <==> {
            &&& min_items is Some ==> items.len() >= min_items->0
            &&& max_items is Some ==> items.len() <= max_items->0
            &&& forall|i: int| 0 <= i < items.len() ==> #[trigger] good_item(fields, id_field, array_view(items), i)
        },
{
    let views = array_view(items);
    assert forall|i: int| 0 <= i < views.len() implies members(#[trigger] views[i]).dom().finite() by {
        assert(views[i] == items[i]@);
        if let Json::Object(m) = items[i] {
            lemma_object_finite(m.entries@);
        }
    }
    lemma_items_ok(views, id_field, fields, views.len());
}

proof fn lemma_items_ok(items: Seq<JsonV>, id_field: Seq<char>, fields: Seq<ObjectFieldDescriptor>, n: nat)
    requires
        n <= items.len(),
        forall|i: int| 0 <= i < items.len() ==> members(#[trigger] items[i]).dom().finite(),
    ensures
        items_check(fields, id_field, items, n) is Ok <==> forall|i: int|
            0 <= i < n ==> #[trigger] good_item(fields, id_field, items, i),
    decreases n,
{
    if n > 0 {
        let i = n - 1;
        lemma_items_ok(items, id_field, fields, i as nat);
        let m = members(items[i]);
        lemma_undeclared_found(m, id_field, fields);
        lemma_fields_ok(fields, fields.len(), m, i as nat);
        assert(item_check(fields, id_field, items, i as nat) is Ok <==> good_item(fields, id_field, items, i));
    }
}

} // verus!
