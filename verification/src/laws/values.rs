//! Settings: which values are accepted, and which configuration is in effect.

use vstd::prelude::*;

use crate::json::{array_view, lemma_array_view, member, members, Json, JsonV};
use crate::profile_config::{
    cityhall, load_profile_config, resolve_config, resolve_config_or_warn, validate_check_interval,
    validate_env_format, validate_memory_limit, validate_network_format, validate_port_mapping_format,
    validate_volume_format, lemma_with_leaf, with_leaf, ProfileConfig,
};
use crate::settings::merge::{
    law_merge_inherits_field, law_merge_overrides_field, lemma_merge_single, merged, single, step,
};
use crate::settings::schema::{ObjectFieldDescriptor, ValidationKind};
use crate::settings::validate::{
    entry_check, entry_checks, good_field, good_item, item_id, law_object_list_accepts, lemma_first_error_ok,
    validate_cron, validate_value, EntryFormat, ValidationError,
};
use crate::text::{joined, lemma_split_joined, lower, texts, trim_end, trim_start, trimmed, white};

verus! {

broadcast use lemma_array_view;

/// Whether something other than white space stands in a text.
pub open spec fn says_something(s: Seq<char>) -> bool {
    exists|i: int| 0 <= i < s.len() && !white(#[trigger] s[i])
}

proof fn lemma_start(s: Seq<char>)
    ensures
        says_something(trim_start(s)) <==> says_something(s),
        trim_start(s).len() > 0 ==> !white(trim_start(s)[0]),
    decreases s.len(),
{
    if s.len() > 0 && white(s[0]) {
        let t = s.skip(1);
        lemma_start(t);
        if says_something(s) {
            let i = choose|i: int| 0 <= i < s.len() && !white(#[trigger] s[i]);
            assert(t[i - 1] == s[i]);
        }
        if says_something(t) {
            let i = choose|i: int| 0 <= i < t.len() && !white(#[trigger] t[i]);
            assert(s[i + 1] == t[i]);
        }
    }
}

proof fn lemma_end(s: Seq<char>)
    ensures
        says_something(trim_end(s)) <==> says_something(s),
        trim_end(s).len() > 0 ==> !white(trim_end(s).last()),
    decreases s.len(),
{
    if s.len() > 0 && white(s.last()) {
        let t = s.drop_last();
        lemma_end(t);
        if says_something(s) {
            let i = choose|i: int| 0 <= i < s.len() && !white(#[trigger] s[i]);
            assert(t[i] == s[i]);
        }
        if says_something(t) {
            let i = choose|i: int| 0 <= i < t.len() && !white(#[trigger] t[i]);
            assert(s[i] == t[i]);
        }
    }
}

/// A trimmed text is empty exactly where nothing but white space stands in the text.
proof fn lemma_blank(s: Seq<char>)
    ensures
        trimmed(s).len() > 0 <==> says_something(s),
{
    lemma_start(s);
    lemma_end(trim_start(s));
    let t = trimmed(s);
    if t.len() > 0 {
        assert(!white(t[t.len() - 1]));
    }
}

/// A number is accepted exactly where it is whole, not negative, and within its bounds; a text that must
/// not be empty where something stands in it; one of several where it is one of them; anything where
/// nothing is checked.
pub proof fn law_simple_rules(kind: &ValidationKind, value: &Json, r: Result<(), ValidationError>)
    requires
        call_ensures(validate_value, (kind, value), r),
    ensures
        *kind is Unchecked ==> r is Ok,
        *kind matches ValidationKind::RangeU64 { min, max } ==> (r is Ok <==> (value@ matches JsonV::Unsigned(n) && min
            <= n && (max is None || n <= max->0))),
        *kind is NonEmptyString ==> (r is Ok <==> (value@ matches JsonV::Text(s) && says_something(s))),
        *kind matches ValidationKind::OneOf { options } ==> (r is Ok <==> (value@ matches JsonV::Text(s) && exists|i: int|
            0 <= i < options@.len() && (#[trigger] options@[i])@ == s)),
{
    if let JsonV::Text(s) = value@ {
        lemma_blank(s);
        if let ValidationKind::OneOf { options } = *kind {
            let t = texts(options@);
            if t.contains(s) {
                let i = choose|i: int| 0 <= i < t.len() && t[i] == s;
                assert(options@[i]@ == s);
            }
            if exists|i: int| 0 <= i < options@.len() && (#[trigger] options@[i])@ == s {
                let i = choose|i: int| 0 <= i < options@.len() && (#[trigger] options@[i])@ == s;
                assert(t[i] == s);
            }
        }
    }
}

/// A text under a rule of its own is accepted exactly where that rule accepts it, and nothing but a text
/// is.
pub proof fn law_text_rules(
    kind: &ValidationKind,
    value: &Json,
    t: &str,
    memory: Result<(), String>,
    network: Result<(), String>,
    cron: Result<(), String>,
    r: Result<(), ValidationError>,
)
    requires
        value@ matches JsonV::Text(s) ==> t@ == s,
        call_ensures(validate_memory_limit, (t,), memory),
        call_ensures(validate_network_format, (t,), network),
        call_ensures(validate_cron, (t,), cron),
        call_ensures(validate_value, (kind, value), r),
    ensures
        *kind is MemoryLimit ==> (r is Ok <==> value@ is Text && memory is Ok),
        *kind is Network ==> (r is Ok <==> value@ is Text && network is Ok),
        *kind is Cron ==> (r is Ok <==> value@ is Text && cron is Ok),
{
}

/// A list of texts is accepted exactly where every entry is a text and accepted by the rule of the list.
pub proof fn law_list_rules(kind: &ValidationKind, value: &Json, r: Result<(), ValidationError>)
    requires
        call_ensures(validate_value, (kind, value), r),
    ensures
        *kind is VolumeList ==> (r is Ok <==> each_entry(EntryFormat::Volume, value@)),
        *kind is EnvList ==> (r is Ok <==> each_entry(EntryFormat::Env, value@)),
        *kind is PortMappingList ==> (r is Ok <==> each_entry(EntryFormat::PortMapping, value@)),
{
    if let JsonV::Array(items) = value@ {
        lemma_entries(EntryFormat::Volume, items);
        lemma_entries(EntryFormat::Env, items);
        lemma_entries(EntryFormat::PortMapping, items);
    }
}

/// Whether a value is a list of texts that each have a format.
pub open spec fn each_entry(format: EntryFormat, v: JsonV) -> bool {
    v matches JsonV::Array(items) && forall|i: int|
        0 <= i < items.len() ==> (#[trigger] items[i]) is Text && entry_check(format, items[i]->Text_0) is Ok
}

proof fn lemma_entries(format: EntryFormat, items: Seq<JsonV>)
    ensures
        crate::settings::validate::first_error(items.len(), entry_checks(format, items)) is Ok <==> each_entry(
            format,
            JsonV::Array(items),
        ),
{
    let check = entry_checks(format, items);
    lemma_first_error_ok(items.len(), check);
    assert forall|i: int| 0 <= i < items.len() implies (#[trigger] check(i) is Ok <==> items[i] is Text && entry_check(
        format,
        items[i]->Text_0,
    ) is Ok) by {}
    if each_entry(format, JsonV::Array(items)) {
        assert forall|i: int| 0 <= i < items.len() implies (#[trigger] check(i)) is Ok by {
            assert(items[i] is Text);
        }
    }
    if forall|i: int| 0 <= i < items.len() ==> (#[trigger] check(i)) is Ok {
        assert forall|i: int| 0 <= i < items.len() implies (#[trigger] items[i]) is Text && entry_check(
            format,
            items[i]->Text_0,
        ) is Ok by {
            assert(check(i) is Ok);
        }
    }
}

/// The rules of the entries of lists are those of volumes, of the environment and of ports.
pub proof fn law_entry_formats(
    s: &str,
    volume: Result<(), String>,
    env: Result<(), String>,
    port: Result<(), String>,
)
    requires
        call_ensures(validate_volume_format, (s,), volume),
        call_ensures(validate_env_format, (s,), env),
        call_ensures(validate_port_mapping_format, (s,), port),
    ensures
        entry_check(EntryFormat::Volume, s@) is Ok <==> volume is Ok,
        entry_check(EntryFormat::Env, s@) is Ok <==> env is Ok,
        entry_check(EntryFormat::PortMapping, s@) is Ok <==> port is Ok,
{
}

/// A list of objects is accepted exactly where it is as long as asked for; every item is an object with an
/// id of its own, different from those before it, and with declared fields only; and every field is valid
/// where it is there, and there where it is required.
pub proof fn law_object_rules(
    kind: &ValidationKind,
    value: &Json,
    id_field: String,
    fields: Vec<ObjectFieldDescriptor>,
    min_items: Option<u32>,
    max_items: Option<u32>,
    r: Result<(), ValidationError>,
)
    requires
        *kind == (ValidationKind::ObjectList { id_field, fields, min_items, max_items }),
        call_ensures(validate_value, (kind, value), r),
    ensures
        r is Ok <==> (value@ matches JsonV::Array(items) && {
            &&& min_items is Some ==> items.len() >= min_items->0
            &&& max_items is Some ==> items.len() <= max_items->0
            &&& forall|i: int|
                0 <= i < items.len() ==> {
                    &&& (#[trigger] items[i]) is Object
                    &&& id_at(items[i], id_field@) is Some
                    &&& forall|j: int| 0 <= j < i ==> id_at(#[trigger] items[j], id_field@) != id_at(items[i], id_field@)
                    &&& forall|k: Seq<char>| #[trigger]
                        items[i]->Object_0.contains_key(k) ==> k == id_field@ || exists|f: int|
                            0 <= f < fields@.len() && (#[trigger] fields@[f]).field@ == k
                    &&& forall|f: int| 0 <= f < fields@.len() ==> good_field(#[trigger] fields@[f], items[i]->Object_0)
                }
        }),
{
    if let Json::Array(v) = *value {
        law_object_list_accepts(v@, id_field@, fields@, min_items, max_items);
        let items = array_view(v@);
        assert(value@ == JsonV::Array(items));
        assert forall|i: int| 0 <= i < items.len() implies #[trigger] id_at(items[i], id_field@) == item_id(
            items[i],
            id_field@,
        ) by {
            if let JsonV::Text(s) = members(items[i])[id_field@] {
                lemma_blank(s);
            }
        }
        assert forall|i: int| 0 <= i < items.len() implies (#[trigger] good_item(fields@, id_field@, items, i) <==> {
            &&& items[i] is Object
            &&& id_at(items[i], id_field@) is Some
            &&& forall|j: int| 0 <= j < i ==> id_at(#[trigger] items[j], id_field@) != id_at(items[i], id_field@)
            &&& forall|k: Seq<char>| #[trigger]
                items[i]->Object_0.contains_key(k) ==> k == id_field@ || exists|f: int|
                    0 <= f < fields@.len() && (#[trigger] fields@[f]).field@ == k
            &&& forall|f: int| 0 <= f < fields@.len() ==> good_field(#[trigger] fields@[f], items[i]->Object_0)
        }) by {
            lemma_good_item(fields@, id_field@, items, i);
        }
        if r is Ok {
            assert forall|i: int| 0 <= i < items.len() implies {
                &&& (#[trigger] items[i]) is Object
                &&& id_at(items[i], id_field@) is Some
                &&& forall|j: int| 0 <= j < i ==> id_at(#[trigger] items[j], id_field@) != id_at(items[i], id_field@)
                &&& forall|k: Seq<char>| #[trigger]
                    items[i]->Object_0.contains_key(k) ==> k == id_field@ || exists|f: int|
                        0 <= f < fields@.len() && (#[trigger] fields@[f]).field@ == k
                &&& forall|f: int| 0 <= f < fields@.len() ==> good_field(#[trigger] fields@[f], items[i]->Object_0)
            } by {
                assert(good_item(fields@, id_field@, items, i));
            }
        }
    }
}

/// The id that an object has: the text in its id field, unless it is blank.
pub open spec fn id_at(v: JsonV, id_field: Seq<char>) -> Option<Seq<char>> {
    match v {
        JsonV::Object(m) => if m.contains_key(id_field) && m[id_field] is Text && says_something(m[id_field]->Text_0) {
            Some(m[id_field]->Text_0)
        } else {
            None
        },
        _ => None,
    }
}

proof fn lemma_good_item(fields: Seq<ObjectFieldDescriptor>, id_field: Seq<char>, items: Seq<JsonV>, i: int)
    requires
        0 <= i < items.len(),
        forall|j: int| 0 <= j < items.len() ==> #[trigger] id_at(items[j], id_field) == item_id(items[j], id_field),
    ensures
        good_item(fields, id_field, items, i) <==> {
            &&& items[i] is Object
            &&& id_at(items[i], id_field) is Some
            &&& forall|j: int| 0 <= j < i ==> id_at(#[trigger] items[j], id_field) != id_at(items[i], id_field)
            &&& forall|k: Seq<char>| #[trigger]
                items[i]->Object_0.contains_key(k) ==> k == id_field || exists|f: int|
                    0 <= f < fields.len() && (#[trigger] fields[f]).field@ == k
            &&& forall|f: int| 0 <= f < fields.len() ==> good_field(#[trigger] fields[f], items[i]->Object_0)
        },
{
    assert(id_at(items[i], id_field) == item_id(items[i], id_field));
    if items[i] is Object {
        assert(members(items[i]) == items[i]->Object_0);
        if good_item(fields, id_field, items, i) {
            assert forall|j: int| 0 <= j < i implies id_at(#[trigger] items[j], id_field) != id_at(items[i], id_field) by {
                assert(id_at(items[j], id_field) == item_id(items[j], id_field));
            }
            assert forall|k: Seq<char>| #[trigger] items[i]->Object_0.contains_key(k) implies k == id_field || exists|f: int|
                0 <= f < fields.len() && (#[trigger] fields[f]).field@ == k by {
                assert(members(items[i]).contains_key(k));
            }
        } else if {
            &&& id_at(items[i], id_field) is Some
            &&& forall|j: int| 0 <= j < i ==> id_at(#[trigger] items[j], id_field) != id_at(items[i], id_field)
            &&& forall|k: Seq<char>| #[trigger]
                items[i]->Object_0.contains_key(k) ==> k == id_field || exists|f: int|
                    0 <= f < fields.len() && (#[trigger] fields[f]).field@ == k
            &&& forall|f: int| 0 <= f < fields.len() ==> good_field(#[trigger] fields[f], items[i]->Object_0)
        } {
            assert forall|j: int| 0 <= j < i implies #[trigger] item_id(items[j], id_field) != item_id(
                items[i],
                id_field,
            ) by {
                assert(id_at(items[j], id_field) != id_at(items[i], id_field));
            }
            assert forall|k: Seq<char>| #[trigger] members(items[i]).contains_key(k) implies crate::settings::validate::declared(
                k,
                id_field,
                fields,
            ) by {
                assert(items[i]->Object_0.contains_key(k));
            }
            assert(good_item(fields, id_field, items, i));
        }
    }
}

/// A volume is accepted exactly where it has two or three parts between colons, and the first two are not
/// empty.
pub proof fn law_volume_has_two_paths(s: &str, parts: Seq<Seq<char>>, r: Result<(), String>)
    requires
        parts.len() > 0,
        forall|i: int| 0 <= i < parts.len() ==> !(#[trigger] parts[i]).contains(':'),
        s@ == joined(parts, seq![':']),
        call_ensures(validate_volume_format, (s,), r),
    ensures
        r is Ok <==> (parts.len() == 2 || parts.len() == 3) && parts[0].len() > 0 && parts[1].len() > 0,
{
    lemma_split_joined(parts, ':');
    if parts.len() == 2 || parts.len() == 3 {
        assert(s@.len() > 0) by {
            assert(joined(parts, seq![':']) == joined(parts.drop_last(), seq![':']) + seq![':'] + parts.last());
        }
    }
}

/// Whether a character may stand in the name of a variable.
pub open spec fn name_char(c: char) -> bool {
    'a' <= c <= 'z' || 'A' <= c <= 'Z' || '0' <= c <= '9' || c == '_'
}

/// Whether a text is the name of a variable.
pub open spec fn variable_name(s: Seq<char>) -> bool {
    s.len() > 0 && !('0' <= s[0] <= '9') && forall|i: int| 0 <= i < s.len() ==> name_char(#[trigger] s[i])
}

/// An entry of the environment is accepted exactly where it is the name of a variable, or begins with one
/// and an equals sign.
pub proof fn law_environment_entry(s: &str, r: Result<(), String>)
    requires
        call_ensures(validate_env_format, (s,), r),
    ensures
        r is Ok <==> variable_name(s@) || exists|k: Seq<char>, v: Seq<char>|
            s@ == #[trigger] (k + seq!['='] + v) && variable_name(k),
{
    assert forall|k: Seq<char>| variable_name(k) <==> #[trigger] crate::profile_config::env_key(k) by {}
    assert(variable_name(s@) <==> crate::profile_config::env_key(s@));
    if crate::profile_config::env_entry(s@) && !crate::profile_config::env_key(s@) {
        let n = choose|n: int|
            0 <= n < s@.len() && #[trigger] s@[n] == '=' && crate::profile_config::env_key(s@.take(n));
        let k = s@.take(n);
        let v = s@.skip(n + 1);
        assert(s@ =~= k + seq!['='] + v);
    }
    if exists|k: Seq<char>, v: Seq<char>| s@ == #[trigger] (k + seq!['='] + v) && variable_name(k) {
        let (k, v) = choose|k: Seq<char>, v: Seq<char>| s@ == #[trigger] (k + seq!['='] + v) && variable_name(k);
        let n = k.len() as int;
        assert(s@[n] == '=');
        assert(s@.take(n) =~= k);
        assert(crate::profile_config::env_key(k));
    }
}

/// A network is accepted exactly where it is empty, or a name of letters, digits, underscores, dots and
/// hyphens that begins with a letter or a digit, and is not `host` in whatever letters.
pub proof fn law_network_is_never_host(s: &str, r: Result<(), String>)
    requires
        call_ensures(validate_network_format, (s,), r),
    ensures
        r is Ok <==> s@.len() == 0 || (lower(s@) != "host"@ && s@[0] != '_' && name_char(s@[0]) && forall|i: int|
            0 <= i < s@.len() ==> name_char(#[trigger] s@[i]) || s@[i] == '.' || s@[i] == '-'),
{
    reveal_strlit("host");
    assert(lower("host"@) =~= "host"@);
    if s@.len() > 0 {
        assert(crate::profile_config::network_name(s@) <==> s@[0] != '_' && name_char(s@[0]) && forall|i: int|
            0 <= i < s@.len() ==> name_char(#[trigger] s@[i]) || s@[i] == '.' || s@[i] == '-');
    }
}

/// A mapping of ports in ASCII is accepted where it is two numbers with a colon between them; a limit of
/// memory where it is empty or a number with a unit.
pub proof fn law_ports_and_memory(
    s: &str,
    a: Seq<char>,
    b: Seq<char>,
    port: Result<(), String>,
    t: &str,
    u: char,
    memory: Result<(), String>,
)
    requires
        crate::laws::numbers::digits(a),
        crate::laws::numbers::digits(b),
        s@ == a + seq![':'] + b,
        call_ensures(validate_port_mapping_format, (s,), port),
        t@ == a.push(u),
        u as u32 <= 127,
        call_ensures(validate_memory_limit, (t,), memory),
    ensures
        port is Ok,
        memory is Ok <==> u == 'b' || u == 'k' || u == 'm' || u == 'g' || u == 'B' || u == 'K' || u == 'M' || u == 'G',
{
    let n = a.len() as int;
    assert forall|i: int| 0 <= i < s@.len() implies (#[trigger] s@[i]) as u32 <= 127 by {
        if i < n {
            assert(s@[i] == a[i]);
        } else if i > n {
            assert(s@[i] == b[i - n - 1]);
        }
    }
    assert(s@[n] == ':');
    assert(s@.take(n) =~= a);
    assert(s@.skip(n + 1) =~= b);
    assert(crate::profile_config::digits(a));
    assert(crate::profile_config::digits(b));
    assert(crate::profile_config::port_mapping(s@));
    assert forall|i: int| 0 <= i < t@.len() implies (#[trigger] t@[i]) as u32 <= 127 by {
        if i < n {
            assert(t@[i] == a[i]);
        }
    }
    assert(t@.drop_last() =~= a);
    assert(t@.last() == u);
}

/// An interval is accepted exactly where it is at least an hour.
pub proof fn law_interval_is_positive(hours: u64, r: Result<(), String>)
    requires
        call_ensures(validate_check_interval, (hours,), r),
    ensures
        r is Ok <==> hours >= 1,
{
}

/// What stands in a field of a section of a document.
pub open spec fn leaf(v: JsonV, section: Seq<char>, field: Seq<char>) -> Option<JsonV> {
    match v {
        JsonV::Object(m) => if m.contains_key(section) && m[section] is Object
            && m[section]->Object_0.contains_key(field) {
            Some(m[section]->Object_0[field])
        } else {
            None
        },
        _ => None,
    }
}

/// What stands in a field of a section.
pub proof fn lemma_leaf(v: JsonV, section: Seq<char>, field: Seq<char>)
    ensures
        leaf(v, section, field) == step(member(v, section), field),
{
}

/// In effect is what a profile sets, and else what the global configuration has. The client mode pins
/// fifty workers, two resumes at a time and worktrees, and nothing else.
pub proof fn law_profile_is_in_effect(
    global: Json,
    profile: ProfileConfig,
    mode: bool,
    c: Json,
    section: Seq<char>,
    field: Seq<char>,
)
    requires
        global@ is Object,
        call_ensures(
            resolve_config,
            (Ok::<Json, String>(global), Ok::<ProfileConfig, String>(profile), mode),
            Ok::<Json, String>(c),
        ),
        forall|s: Seq<char>| #[trigger] profile.overrides@.contains_key(s) ==> profile.overrides@[s] is Object,
        forall|s: Seq<char>| #[trigger] members(global@).contains_key(s) ==> members(global@)[s] is Object,
    ensures
        mode ==> leaf(c@, "acp"@, "max_concurrent_workers"@) == Some(JsonV::Unsigned(50)),
        mode ==> leaf(c@, "acp"@, "max_concurrent_resumes"@) == Some(JsonV::Unsigned(2)),
        mode ==> leaf(c@, "worktree"@, "enabled"@) == Some(JsonV::Bool(true)),
        !mode || !((section == "acp"@ && (field == "max_concurrent_workers"@ || field == "max_concurrent_resumes"@))
            || (section == "worktree"@ && field == "enabled"@)) ==> {
            let set = leaf(JsonV::Object(profile.overrides@), section, field);
            &&& set is None ==> leaf(c@, section, field) == leaf(global@, section, field)
            &&& set is Some && !(set->0 is Object) ==> leaf(c@, section, field) == set
        },
{
    let over = profile.overrides@;
    let base = members(global@);
    let m = merged(global@, JsonV::Object(over));
    let set = leaf(JsonV::Object(over), section, field);
    assert(global@ == JsonV::Object(base));
    lemma_leaf(JsonV::Object(over), section, field);
    lemma_leaf(global@, section, field);
    lemma_leaf(m, section, field);
    lemma_leaf(c@, section, field);
    if set is None {
        law_merge_inherits_field(base, over, section, field);
    } else if !(set->0 is Object) {
        law_merge_overrides_field(base, over, section, field, set->0);
    }
    if mode {
        crate::profile_config::law_cityhall_pins(m);
        lemma_leaf(c@, "acp"@, "max_concurrent_workers"@);
        lemma_leaf(c@, "acp"@, "max_concurrent_resumes"@);
        lemma_leaf(c@, "worktree"@, "enabled"@);
        assert(m is Object);
        assert forall|s: Seq<char>| #[trigger] members(m).contains_key(s) implies members(m)[s] is Object by {
            lemma_section(base, over, s);
        }
        if !((section == "acp"@ && (field == "max_concurrent_workers"@ || field == "max_concurrent_resumes"@)) || (section
            == "worktree"@ && field == "enabled"@)) {
            lemma_pins_keep(m, section, field);
        }
    }
}

proof fn lemma_section(base: Map<Seq<char>, JsonV>, over: Map<Seq<char>, JsonV>, s: Seq<char>)
    requires
        members(merged(JsonV::Object(base), JsonV::Object(over))).contains_key(s),
        forall|t: Seq<char>| #[trigger] over.contains_key(t) ==> over[t] is Object,
        forall|t: Seq<char>| #[trigger] base.contains_key(t) ==> base[t] is Object,
    ensures
        members(merged(JsonV::Object(base), JsonV::Object(over)))[s] is Object,
{
    crate::settings::merge::lemma_merged_member(base, over, s);
}

/// Pinning values keeps the others.
proof fn lemma_pins_keep(m: JsonV, section: Seq<char>, field: Seq<char>)
    requires
        m is Object,
        forall|s: Seq<char>| #[trigger] members(m).contains_key(s) ==> members(m)[s] is Object,
        !((section == "acp"@ && (field == "max_concurrent_workers"@ || field == "max_concurrent_resumes"@)) || (section
            == "worktree"@ && field == "enabled"@)),
    ensures
        leaf(cityhall(m), section, field) == leaf(m, section, field),
{
    let w = "max_concurrent_workers"@;
    let q = "max_concurrent_resumes"@;
    let c1 = with_leaf(m, "acp"@, w, JsonV::Unsigned(50));
    let c2 = with_leaf(c1, "acp"@, q, JsonV::Unsigned(2));
    lemma_pin(m, "acp"@, w, JsonV::Unsigned(50), section, field);
    lemma_pin(c1, "acp"@, q, JsonV::Unsigned(2), section, field);
    lemma_pin(c2, "worktree"@, "enabled"@, JsonV::Bool(true), section, field);
}

proof fn lemma_pin(v: JsonV, s: Seq<char>, f: Seq<char>, x: JsonV, section: Seq<char>, field: Seq<char>)
    requires
        v is Object,
        forall|t: Seq<char>| #[trigger] members(v).contains_key(t) ==> members(v)[t] is Object,
        section != s || field != f,
        !(x is Object),
    ensures
        with_leaf(v, s, f, x) is Object,
        forall|t: Seq<char>| #[trigger]
            members(with_leaf(v, s, f, x)).contains_key(t) ==> members(with_leaf(v, s, f, x))[t] is Object,
        leaf(with_leaf(v, s, f, x), section, field) == leaf(v, section, field),
{
    let r = with_leaf(v, s, f, x);
    let one = crate::settings::merge::single(f, x);
    lemma_with_leaf(v, s, f, x);
    crate::settings::merge::lemma_merge_single(v, s, one);
    lemma_leaf(r, section, field);
    lemma_leaf(v, section, field);
    assert(r is Object);
    assert forall|t: Seq<char>| #[trigger] members(r).contains_key(t) implies members(r)[t] is Object by {
        if t != s {
            assert(member(r, t) == member(v, t));
            assert(members(v).contains_key(t));
        } else {
            assert(step(member(r, s), f) is Some);
        }
    }
    if section == s {
        if members(v).contains_key(s) {
            assert(member(v, s) == Some(members(v)[s]));
            assert(step(member(r, s), field) == step(member(v, s), field));
        } else {
            assert(member(r, s) == Some(one));
        }
    } else {
        assert(member(r, section) == member(v, section));
    }
}

/// A profile that is written and read back is the same profile.
pub proof fn law_profile_is_read_back(p: &ProfileConfig, v: Json, w: &Json, r: Option<ProfileConfig>)
    requires
        !p.overrides@.contains_key("description"@),
        call_ensures(ProfileConfig::to_json, (p,), v),
        w@ == v@,
        call_ensures(ProfileConfig::from_json, (w,), r),
    ensures
        r is Some,
        r->0.overrides@ == p.overrides@,
        crate::text::text_of(r->0.description) == crate::text::text_of(p.description),
{
    let m = p.document();
    assert(members(v@) == m);
    assert(r is Some);
    crate::profile_config::law_profile_round_trips(*p, r->0);
}

/// Where there is no profile file, or a blank one, the profile sets nothing; else it is what the file was
/// read as, and an error where it could not be, or where its values do not fit.
pub proof fn law_profile_is_loaded(
    content: Option<&str>,
    parsed: Result<ProfileConfig, String>,
    fits: Result<(), String>,
    r: Result<ProfileConfig, String>,
)
    requires
        call_ensures(load_profile_config, (content, parsed, fits), r),
    ensures
        ({
            let blank = content is None || !says_something(content->0@);
            &&& blank ==> r is Ok && r->Ok_0.description is None && r->Ok_0.overrides@.len() == 0
            &&& !blank ==> (r is Ok <==> parsed is Ok && fits is Ok)
            &&& !blank && r is Ok ==> r == parsed
            &&& !blank && parsed is Err ==> r == parsed
        }),
{
    if let Some(t) = content {
        lemma_blank(t@);
    }
    assert(Map::<Seq<char>, JsonV>::empty().len() == 0) by {
        assert(Map::<Seq<char>, JsonV>::empty().dom() =~= Set::empty());
    }
}

/// Where the configuration cannot be had, the default one is in effect; the client mode pins its values
/// there too.
pub proof fn law_default_is_the_fallback(
    resolved: Result<Json, String>,
    default: Json,
    r: Json,
    pinned: Json,
    section: Seq<char>,
    field: Seq<char>,
)
    requires
        call_ensures(resolve_config_or_warn, (resolved, default, false), r),
        call_ensures(resolve_config_or_warn, (resolved, default, true), pinned),
    ensures
        resolved matches Ok(c) ==> r@ == c@ && pinned@ == c@,
        resolved is Err ==> r@ == default@,
        resolved is Err ==> leaf(pinned@, "acp"@, "max_concurrent_workers"@) == Some(JsonV::Unsigned(50)),
        resolved is Err ==> leaf(pinned@, "acp"@, "max_concurrent_resumes"@) == Some(JsonV::Unsigned(2)),
        resolved is Err ==> leaf(pinned@, "worktree"@, "enabled"@) == Some(JsonV::Bool(true)),
        resolved is Err && default@ is Object && section != "acp"@ && section != "worktree"@ ==> leaf(
            pinned@,
            section,
            field,
        ) == leaf(default@, section, field),
{
    let c = default@;
    crate::profile_config::law_cityhall_pins(c);
    lemma_leaf(pinned@, "acp"@, "max_concurrent_workers"@);
    lemma_leaf(pinned@, "acp"@, "max_concurrent_resumes"@);
    lemma_leaf(pinned@, "worktree"@, "enabled"@);
    lemma_leaf(pinned@, section, field);
    lemma_leaf(c, section, field);
    if resolved is Err && c is Object && section != "acp"@ && section != "worktree"@ {
        let c1 = with_leaf(c, "acp"@, "max_concurrent_workers"@, JsonV::Unsigned(50));
        let c2 = with_leaf(c1, "acp"@, "max_concurrent_resumes"@, JsonV::Unsigned(2));
        lemma_with_leaf(c, "acp"@, "max_concurrent_workers"@, JsonV::Unsigned(50));
        lemma_merge_single(c, "acp"@, single("max_concurrent_workers"@, JsonV::Unsigned(50)));
        lemma_with_leaf(c1, "acp"@, "max_concurrent_resumes"@, JsonV::Unsigned(2));
        lemma_merge_single(c1, "acp"@, single("max_concurrent_resumes"@, JsonV::Unsigned(2)));
        lemma_with_leaf(c2, "worktree"@, "enabled"@, JsonV::Bool(true));
    }
}

} // verus!
