//! Settings rows: what they show, what they write, and where it goes.

use vstd::prelude::*;

use crate::fields::apply::{
    apply_field_to_config, clear_override, field_value_to_json, law_apply_global_reads_back, law_apply_stores_override,
    law_clear_removes_override,
};
use crate::fields::rows::{FieldKind, HookField, SettingField, SettingsScope};
use crate::fields::values::{
    custom_value_from_json, custom_value_to_json, installed_oneshot_agents, key_values, law_value_round_trips, marked,
    of_widget, parse_key_value_object, schema_value_to_json, validate_field_value, value_display_string,
    value_from_json, FieldValue, HostChoices, SoundChoice,
};
use crate::json::{Json, JsonV};
use crate::laws::create::kept;
use crate::laws::numbers::{digits, lemma_decimal, worth};
use crate::laws::projects::under_key;
use crate::laws::sections::at;
use crate::laws::values::leaf;
use crate::profile_config::ProfileConfig;
use crate::settings::schema::{ValidationKind, WidgetKind};
use crate::settings::validate::{validate_value, ValidationError};
use crate::text::{decimal, index_in, lemma_find_char_at, lemma_index_in, text_of, texts, trimmed};

verus! {

/// A row of a plain widget writes its value: a switch whether it is on, a text its characters, a number
/// itself, a select the value of the choice and not its label, a list its texts in their order.
pub proof fn law_row_writes_its_value(
    w: &WidgetKind,
    section: &str,
    field: &str,
    value: &FieldValue,
    host: &HostChoices,
    r: Json,
)
    requires
        call_ensures(schema_value_to_json, (w, section, field, value, host), r),
    ensures
        *w is Toggle ==> (*value matches FieldValue::Bool(b) ==> r@ == JsonV::Bool(b)),
        *w is Text || *w is DynamicSelect || *w is Cron ==> (*value matches FieldValue::Text(s) ==> r@ == JsonV::Text(
            s@,
        )),
        *w is Number || *w is Slider ==> (*value matches FieldValue::Number(n) ==> r@ == JsonV::Unsigned(n)),
        *w is OptionalText ==> (*value matches FieldValue::OptionalText(o) ==> (o is Some ==> r@ == JsonV::Text(o->0@))
            && (o is None ==> r@ is Null)),
        *w matches WidgetKind::Select { options } ==> (*value matches FieldValue::Select { selected, .. } ==> selected
            < options@.len() ==> r@ == JsonV::Text(options@[selected as int].value@)),
        *w is List && section@ != "session"@ ==> (*value matches FieldValue::List(items) ==> r@ is Array
            && r@->Array_0.len() == items@.len() && forall|i: int|
            0 <= i < items@.len() ==> #[trigger] r@->Array_0[i] == JsonV::Text(items@[i]@)),
        *w is List && section@ == "session"@ && (field@ == "agent_extra_args"@ || field@ == "agent_command_override"@
            || field@ == "custom_agents"@ || field@ == "agent_detect_as"@ || field@ == "agent_acp_cmd"@) ==> (
        *value is List ==> r@ is Object),
{
    if let FieldValue::List(items) = *value {
        if *w is List && section@ != "session"@ {
            assert forall|i: int| 0 <= i < items@.len() implies #[trigger] r@->Array_0[i] == JsonV::Text(items@[i]@) by {
                assert(texts(items@)[i] == items@[i]@);
            }
        }
    }
}

/// Lines of keys and values write an object: each key has the value of its last line.
pub proof fn law_lines_write_an_object(
    items: &Vec<String>,
    r: Json,
    i: int,
    k: Seq<char>,
    v: Seq<char>,
)
    requires
        call_ensures(parse_key_value_object, (items,), r),
        0 <= i < items@.len(),
        items@[i]@ == k + seq!['='] + v,
        !k.contains('='),
        forall|j: int, x: Seq<char>| i < j < items@.len() ==> (#[trigger] items@[j])@ != #[trigger] (k + seq!['='] + x),
    ensures
        under_key(r@, k) == Some(JsonV::Text(v)),
{
    let all = texts(items@);
    assert(all[i] == items@[i]@);
    assert forall|j: int, x: Seq<char>| i < j < all.len() implies #[trigger] all[j] != #[trigger] (k + seq!['='] + x) by {
        assert(all[j] == items@[j]@);
        assert(items@[j]@ != k + seq!['='] + x);
    }
    lemma_lines(all, i, k, v);
}

proof fn lemma_lines(s: Seq<Seq<char>>, i: int, k: Seq<char>, v: Seq<char>)
    requires
        0 <= i < s.len(),
        s[i] == k + seq!['='] + v,
        !k.contains('='),
        forall|j: int, x: Seq<char>| i < j < s.len() ==> #[trigger] s[j] != #[trigger] (k + seq!['='] + x),
    ensures
        key_values(s).contains_key(k),
        key_values(s)[k] == JsonV::Text(v),
    decreases s.len(),
{
    let line = s.last();
    if i == s.len() - 1 {
        assert forall|j: int| 0 <= j < k.len() implies line[j] != '=' by {
            if line[j] == '=' {
                assert(k[j] == '=');
            }
        }
        lemma_find_char_at(line, '=', k.len() as int);
        assert(line.take(k.len() as int) =~= k);
        assert(line.skip(k.len() as int + 1) =~= v);
    } else {
        let front = s.drop_last();
        assert forall|j: int, x: Seq<char>| i < j < front.len() implies #[trigger] front[j] != #[trigger] (k + seq![
            '=',
        ] + x) by {
            assert(front[j] == s[j]);
        }
        lemma_lines(front, i, k, v);
        crate::text::lemma_find_char(line, '=');
        if let Some(n) = crate::text::find_char(line, '=') {
            if line.take(n) == k {
                let x = line.skip(n + 1);
                assert(line =~= k + seq!['='] + x);
                assert(s[s.len() - 1] != k + seq!['='] + x);
            }
        }
    }
}

/// A value that is shown in a row and written back without an edit stays what it is.
pub proof fn law_shown_value_is_written_back(
    w: &WidgetKind,
    section: &str,
    field: &str,
    current: &Json,
    host: &HostChoices,
    sound: &SoundChoice,
    shown: FieldValue,
    again: &FieldValue,
    r: Json,
)
    requires
        call_ensures(value_from_json, (w, Some(current), host, sound), shown),
        *again == shown,
        call_ensures(schema_value_to_json, (w, section, field, again, host), r),
        of_widget(*w, section@, field@, current@),
    ensures
        r@ == current@,
        *w is Toggle ==> (shown matches FieldValue::Bool(b) && current@ == JsonV::Bool(b)),
        *w is Text ==> (shown matches FieldValue::Text(s) && current@ == JsonV::Text(s@)),
        *w is Number ==> (shown matches FieldValue::Number(n) && current@ == JsonV::Unsigned(n)),
{
    law_value_round_trips(*w, section@, field@, current@, *host, *sound);
}

/// Whether a text is the one at an index of a list, and at none before it.
pub open spec fn first_at(v: Seq<String>, i: int, x: Seq<char>) -> bool {
    0 <= i < v.len() && v[i]@ == x && forall|j: int| 0 <= j < i ==> (#[trigger] v[j])@ != x
}

proof fn lemma_first_at(v: Seq<String>, i: int, x: Seq<char>)
    requires
        first_at(v, i, x),
    ensures
        index_in(texts(v), x) == Some(i),
{
    let t = texts(v);
    lemma_index_in(t, x);
    assert(t[i] == x);
    match index_in(t, x) {
        Some(k) => {
            if k < i {
                assert(v[k]@ == t[k]);
            }
        },
        None => {},
    }
}

/// A choice of the host's is shown as chosen and written back: a theme by its name; a tool, and an agent
/// that renames, behind the choice that leaves it open, which is written as nothing.
pub proof fn law_host_choices_are_written_back(
    id: &str,
    current: &Json,
    host: &HostChoices,
    sound: &SoundChoice,
    shown: FieldValue,
    again: &FieldValue,
    r: Json,
    i: int,
)
    requires
        call_ensures(custom_value_from_json, (id, current, host, sound), shown),
        *again == shown,
        call_ensures(custom_value_to_json, (id, again, host), r),
        host.themes@.len() < usize::MAX && host.agent_names@.len() < usize::MAX && host.oneshot_agents@.len()
            < usize::MAX,
    ensures
        id@ == "theme-name"@ && (current@ matches JsonV::Text(s) && first_at(host.themes@, i, s)) ==> r@ == current@ && (
        shown matches FieldValue::Select { selected, .. } && selected == i),
        id@ == "default-tool"@ && (current@ matches JsonV::Text(s) && first_at(host.agent_names@, i, s)) ==> r@
            == current@ && (shown matches FieldValue::Select { selected, .. } && selected == i + 1),
        id@ == "default-tool"@ && !(current@ is Text) ==> r@ is Null && (shown matches FieldValue::Select {
            selected,
            ..
        } && selected == 0),
        id@ == "smart-rename-agent"@ && (current@ matches JsonV::Text(s) && trimmed(s) == s && s.len() > 0 && first_at(
            host.oneshot_agents@,
            i,
            s,
        )) ==> r@ == current@ && (shown matches FieldValue::Select { selected, .. } && selected == i + 1),
        id@ == "sound-mode"@ && sound.specific ==> r@ == host.specific_sound@,
        id@ == "sound-mode"@ && !sound.specific ==> r@ == host.random_sound@,
{
    lemma_ids();
    if let JsonV::Text(s) = current@ {
        if first_at(host.themes@, i, s) {
            lemma_first_at(host.themes@, i, s);
        }
        if first_at(host.agent_names@, i, s) {
            lemma_first_at(host.agent_names@, i, s);
        }
        if first_at(host.oneshot_agents@, i, s) {
            lemma_first_at(host.oneshot_agents@, i, s);
        }
    }
}

proof fn lemma_ids()
    ensures
        "theme-name"@.len() == 10 && "theme-name"@[0] == 't',
        "default-tool"@.len() == 12 && "default-tool"@[0] == 'd',
        "smart-rename-agent"@.len() == 18,
        "sound-mode"@.len() == 10 && "sound-mode"@[0] == 's',
        "sound-volume"@.len() == 12 && "sound-volume"@[0] == 's',
        "acp-defaults"@.len() == 12 && "acp-defaults"@[0] == 'a',
{
    reveal_strlit("theme-name");
    reveal_strlit("default-tool");
    reveal_strlit("smart-rename-agent");
    reveal_strlit("sound-mode");
    reveal_strlit("sound-volume");
    reveal_strlit("acp-defaults");
}

/// A value is shown as what it is: on or off, its text, its digits, its choice, how many items it has.
pub proof fn law_value_is_displayed(value: &FieldValue, r: String)
    requires
        call_ensures(value_display_string, (value,), r),
    ensures
        *value matches FieldValue::Bool(b) ==> r@ == if b {
            "on"@
        } else {
            "off"@
        },
        *value matches FieldValue::Text(s) ==> (s@.len() > 0 ==> r@ == s@) && (s@.len() == 0 ==> r@ == "(empty)"@),
        *value matches FieldValue::Number(n) ==> digits(r@) && worth(r@) == n,
        *value matches FieldValue::Select { selected, options } ==> selected < options@.len() ==> r@
            == options@[selected as int]@,
        *value matches FieldValue::OptionalText(o) ==> (o is Some ==> r@ == o->0@) && (o is None ==> r@ == "(empty)"@),
        *value matches FieldValue::List(items) ==> exists|d: Seq<char>|
            digits(d) && worth(d) == items@.len() && r@ == #[trigger] ("["@ + d + " items]"@),
{
    if let FieldValue::Number(n) = *value {
        lemma_decimal(n as nat);
    }
    if let FieldValue::List(items) = *value {
        let d = decimal(items@.len());
        lemma_decimal(items@.len());
        assert(r@ == "["@ + d + " items]"@);
    }
    if let FieldValue::Select { selected, options } = *value {
        if selected < options@.len() {
            assert(texts(options@)[selected as int] == options@[selected as int]@);
        }
    }
}

/// A row is checked by the rule of its field on what it holds, of a select on its label; a cleared row
/// passes.
pub proof fn law_row_is_checked(
    kind: &ValidationKind,
    value: &FieldValue,
    json: &Json,
    checked: Result<(), ValidationError>,
    r: Result<(), String>,
)
    requires
        call_ensures(validate_field_value, (kind, value), r),
        call_ensures(validate_value, (kind, json), checked),
    ensures
        *value == FieldValue::OptionalText(None) ==> r is Ok,
        *value matches FieldValue::Bool(b) ==> json@ == JsonV::Bool(b) ==> (r is Ok <==> checked is Ok),
        *value matches FieldValue::Text(s) ==> json@ == JsonV::Text(s@) ==> (r is Ok <==> checked is Ok),
        *value matches FieldValue::Number(n) ==> json@ == JsonV::Unsigned(n) ==> (r is Ok <==> checked is Ok),
        *value matches FieldValue::OptionalText(Some(s)) ==> json@ == JsonV::Text(s@) ==> (r is Ok <==> checked is Ok),
        *value matches FieldValue::Select { selected, options } ==> selected < options@.len() && json@ == JsonV::Text(
            options@[selected as int]@,
        ) ==> (r is Ok <==> checked is Ok),
{
    if let FieldValue::Select { selected, options } = *value {
        if selected < options@.len() {
            assert(texts(options@)[selected as int] == options@[selected as int]@);
        }
    }
}

/// A row of the schema that is applied to the global configuration writes its leaf there and leaves the
/// profile; applied to a profile it writes the leaf among its overrides and leaves the global
/// configuration.
pub proof fn law_row_is_applied(
    row: &SettingField,
    scope: SettingsScope,
    global: &Json,
    profile: &mut ProfileConfig,
    host: &HostChoices,
    written: Option<Json>,
    r: Option<Json>,
    section: String,
    field: String,
)
    requires
        row.kind matches FieldKind::Schema { section: s, field: f, .. } && s == section && f == field,
        call_ensures(field_value_to_json, (&row.kind, &row.value, host), written),
        call_ensures(apply_field_to_config, (row, scope, global, profile, host), r),
        !old(profile).overrides@.contains_key("description"@),
        section@ != "description"@,
        forall|x: Seq<char>| section@ != #[trigger] ("plugin:"@ + x),
    ensures
        written is Some,
        scope == SettingsScope::Global ==> {
            &&& r is Some
            &&& *final(profile) == *old(profile)
            &&& !(written->0@ is Object) ==> leaf(r->0@, section@, field@) == Some(written->0@)
        },
        scope != SettingsScope::Global ==> {
            &&& r is None
            &&& text_of(final(profile).description) == text_of(old(profile).description)
            &&& !(written->0@ is Object) ==> leaf(JsonV::Object(final(profile).overrides@), section@, field@) == Some(
                written->0@,
            )
        },
{
    if scope == SettingsScope::Global {
        law_apply_global_reads_back(*row, global@, *host, r, *old(profile), *final(profile));
        if crate::text::begins(section@, "plugin:"@) {
            let x = section@.skip("plugin:"@.len() as int);
            assert(section@ =~= "plugin:"@ + x);
        }
    } else {
        law_apply_stores_override(*row, scope, global@, *host, r, *old(profile), *final(profile));
        let a = JsonV::Object(final(profile).document());
        let b = JsonV::Object(final(profile).overrides@);
        assert(leaf(a, section@, field@) == leaf(b, section@, field@));
    }
}

/// Clearing a row takes its override out of the profile and nothing else: a field of the schema from its
/// section, a hook from `hooks`. A field that profiles cannot override stays.
pub proof fn law_row_is_cleared(
    row: &SettingField,
    profile: &mut ProfileConfig,
    u: (),
    section: Seq<char>,
    field: Seq<char>,
    other: Seq<char>,
)
    requires
        call_ensures(clear_override, (row, profile), u),
        !old(profile).overrides@.contains_key("description"@),
        section != "description"@,
        other != field,
        match row.kind {
            FieldKind::Schema { section: s, field: f, profile_overridable, .. } => s@ == section && f@ == field
                && profile_overridable,
            FieldKind::Hook(HookField::OnCreate) => section == "hooks"@ && field == "on_create"@,
            FieldKind::Hook(HookField::OnLaunch) => section == "hooks"@ && field == "on_launch"@,
            FieldKind::Hook(HookField::OnDestroy) => section == "hooks"@ && field == "on_destroy"@,
            _ => false,
        },
    ensures
        leaf(JsonV::Object(final(profile).overrides@), section, field) is None,
        leaf(JsonV::Object(final(profile).overrides@), section, other) == leaf(
            JsonV::Object(old(profile).overrides@),
            section,
            other,
        ),
        text_of(final(profile).description) == text_of(old(profile).description),
{
    law_clear_removes_override(*row, section, field, *old(profile), *final(profile));
    let a = JsonV::Object(final(profile).document());
    let b = JsonV::Object(final(profile).overrides@);
    let c = JsonV::Object(old(profile).document());
    let d = JsonV::Object(old(profile).overrides@);
    crate::laws::values::lemma_leaf(a, section, field);
    crate::laws::values::lemma_leaf(a, section, other);
    crate::laws::values::lemma_leaf(c, section, other);
    assert(crate::fields::rows::leaf_at(a, section, other) == crate::fields::rows::leaf_at(c, section, other));
    assert(leaf(a, section, field) == leaf(b, section, field));
    assert(leaf(a, section, other) == leaf(b, section, other));
    assert(leaf(c, section, other) == leaf(d, section, other));
}

/// The description of a profile is set without the blanks around it, only in a profile, and cleared where
/// it is cleared.
pub proof fn law_description_is_edited(
    row: &SettingField,
    scope: SettingsScope,
    global: &Json,
    profile: &mut ProfileConfig,
    host: &HostChoices,
    r: Option<Json>,
    text: Option<String>,
)
    requires
        row.kind is ProfileDescription,
        row.value == FieldValue::OptionalText(text),
        call_ensures(apply_field_to_config, (row, scope, global, profile, host), r),
    ensures
        r is None,
        scope == SettingsScope::Global ==> *final(profile) == *old(profile),
        scope != SettingsScope::Global ==> text_of(final(profile).description) == kept(text_of(text))
            && final(profile).overrides == old(profile).overrides,
{
}

/// The agents that are offered for renaming are those that can and are installed, in their order.
pub proof fn law_installed_agents_are_offered(
    capable: &Vec<String>,
    installed: &Vec<bool>,
    r: Vec<String>,
    i: int,
)
    requires
        capable@.len() == installed@.len(),
        call_ensures(installed_oneshot_agents, (capable, installed), r),
        0 <= i < capable@.len(),
    ensures
        installed@[i] ==> r@.contains(capable@[i]),
        r@.len() <= capable@.len(),
{
    lemma_marked(capable@, installed@, capable@.len(), i);
}

proof fn lemma_marked(names: Seq<String>, marks: Seq<bool>, n: nat, i: int)
    requires
        n <= names.len(),
        names.len() == marks.len(),
    ensures
        0 <= i < n && marks[i] ==> marked(names, marks, n).contains(names[i]),
        marked(names, marks, n).len() <= n,
    decreases n,
{
    if n > 0 {
        let before = marked(names, marks, (n - 1) as nat);
        lemma_marked(names, marks, (n - 1) as nat, i);
        let all = marked(names, marks, n);
        if 0 <= i < n && marks[i] {
            if i == n - 1 {
                assert(all[before.len() as int] == names[i]);
            } else {
                let k = choose|k: int| 0 <= k < before.len() && before[k] == names[i];
                assert(all[k] == names[i]);
            }
        }
    }
}

} // verus!
