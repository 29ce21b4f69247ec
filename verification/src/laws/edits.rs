//! What an edit of a row leaves alone, and the rows that stand outside of the sections.

use vstd::prelude::*;

use crate::fields::apply::apply_field_to_config;
use crate::fields::rows::{FieldKind, HookField, SettingField, SettingsScope};
use crate::fields::values::{installed_oneshot_agents, marked, FieldValue, HostChoices};
use crate::json::{member, members, Json, JsonV};
use crate::laws::values::{leaf, lemma_leaf};
use crate::profile_config::{lemma_with_leaf, ProfileConfig};
use crate::settings::merge::{lemma_merge_single, merged, single, step};
use crate::text::{begins, texts};

verus! {

proof fn lemma_rest_is_kept(v: JsonV, section: Seq<char>, field: Seq<char>, x: JsonV, s: Seq<char>, f: Seq<char>)
    requires
        v is Object,
        s != section || f != field,
        s == section && member(v, section) is Some ==> member(v, section)->0 is Object,
    ensures
        leaf(crate::profile_config::with_leaf(v, section, field, x), s, f) == leaf(v, s, f),
{
    let w = crate::profile_config::with_leaf(v, section, field, x);
    lemma_with_leaf(v, section, field, x);
    lemma_leaf(v, s, f);
    lemma_leaf(w, s, f);
    if s == section && member(v, section) is None {
        lemma_merge_single(v, section, single(field, x));
        assert(member(w, section) == Some(single(field, x)));
    }
}

/// Applying a row changes its own field and no other, in the global configuration or in the profile.
pub proof fn law_edit_keeps_the_rest(
    row: &SettingField,
    scope: SettingsScope,
    global: &Json,
    profile: &mut ProfileConfig,
    host: &HostChoices,
    r: Option<Json>,
    section: Seq<char>,
    field: Seq<char>,
    s: Seq<char>,
    f: Seq<char>,
)
    requires
        call_ensures(apply_field_to_config, (row, scope, global, profile, host), r),
        match row.kind {
            FieldKind::Schema { section: a, field: b, .. } => a@ == section && b@ == field,
            FieldKind::Hook(HookField::OnCreate) => section == "hooks"@ && field == "on_create"@,
            FieldKind::Hook(HookField::OnLaunch) => section == "hooks"@ && field == "on_launch"@,
            FieldKind::Hook(HookField::OnDestroy) => section == "hooks"@ && field == "on_destroy"@,
            _ => false,
        },
        !begins(section, "plugin:"@),
        s != section || f != field,
        section != "description"@ && s != "description"@,
        global@ is Object,
        member(global@, section) is Some ==> member(global@, section)->0 is Object,
        old(profile).overrides@.contains_key(section) ==> old(profile).overrides@[section] is Object,
    ensures
        r matches Some(g) ==> leaf(g@, s, f) == leaf(global@, s, f),
        leaf(JsonV::Object(final(profile).overrides@), s, f) == leaf(JsonV::Object(old(profile).overrides@), s, f),
        scope == SettingsScope::Global ==> *final(profile) == *old(profile),
        scope != SettingsScope::Global ==> r is None,
{
    let written = crate::fields::apply::written_leaf(row.kind, row.value@, *host);
    if let Some(x) = written {
        if scope == SettingsScope::Global {
            lemma_rest_is_kept(global@, section, field, x, s, f);
        } else {
            let d = JsonV::Object(old(profile).document());
            assert(member(d, section) is Some ==> member(d, section)->0 is Object);
            lemma_rest_is_kept(d, section, field, x, s, f);
            let w = crate::profile_config::with_leaf(d, section, field, x);
            lemma_merge_single(d, section, single(field, x));
            assert(w is Object);
            assert(leaf(JsonV::Object(members(w).remove("description"@)), s, f) == leaf(w, s, f));
            assert(leaf(d, s, f) == leaf(JsonV::Object(old(profile).overrides@), s, f));
        }
    }
}

/// The environment of the host is a list at the root of the configuration or of the profile, and nothing
/// else changes with it.
pub proof fn law_environment_is_applied(
    row: &SettingField,
    scope: SettingsScope,
    global: &Json,
    profile: &mut ProfileConfig,
    host: &HostChoices,
    r: Option<Json>,
    items: Vec<String>,
    k: Seq<char>,
)
    requires
        call_ensures(apply_field_to_config, (row, scope, global, profile, host), r),
        row.kind is HostEnvironment,
        row.value == FieldValue::List(items),
        global@ is Object,
        k != "environment"@ && k != "description"@,
        !old(profile).overrides@.contains_key("description"@),
    ensures
        scope == SettingsScope::Global ==> {
            &&& r is Some
            &&& *final(profile) == *old(profile)
            &&& member(r->0@, "environment"@) matches Some(JsonV::Array(v)) && v.len() == items@.len() && forall|i: int|
                0 <= i < v.len() ==> #[trigger] v[i] == JsonV::Text(items@[i]@)
            &&& member(r->0@, k) == member(global@, k)
        },
        scope != SettingsScope::Global ==> {
            let after = JsonV::Object(final(profile).overrides@);
            &&& r is None
            &&& member(after, "environment"@) matches Some(JsonV::Array(v)) && v.len() == items@.len() && forall|i: int|
                0 <= i < v.len() ==> #[trigger] v[i] == JsonV::Text(items@[i]@)
            &&& member(after, k) == member(JsonV::Object(old(profile).overrides@), k)
        },
{
    reveal_strlit("environment");
    reveal_strlit("description");
    assert("environment"@[0] != "description"@[0]);
    let t = texts(items@);
    let list = Seq::new(t.len(), |i: int| JsonV::Text(t[i]));
    assert forall|i: int| 0 <= i < list.len() implies #[trigger] list[i] == JsonV::Text(items@[i]@) by {
        assert(t[i] == items@[i]@);
    }
    assert(crate::fields::values::text_array(t) == JsonV::Array(list));
    if scope != SettingsScope::Global {
        let m = old(profile).document().insert("environment"@, JsonV::Array(list));
        let d = JsonV::Object(m);
        let o = JsonV::Object(old(profile).document());
        assert(member(d, "description"@) == member(o, "description"@));
        assert(final(profile).overrides@ == m.remove("description"@));
    }
}

/// A logging target gets the level that is chosen for it, and the first choice takes its level away. The
/// other targets keep theirs.
pub proof fn law_logging_level_is_applied(
    row: &SettingField,
    scope: SettingsScope,
    global: &Json,
    profile: &mut ProfileConfig,
    host: &HostChoices,
    r: Option<Json>,
    i: usize,
    k: usize,
    options: Vec<String>,
    set: Map<Seq<char>, JsonV>,
    other: Seq<char>,
)
    requires
        call_ensures(apply_field_to_config, (row, scope, global, profile, host), r),
        row.kind == FieldKind::LoggingTarget(i),
        row.value == (FieldValue::Select { selected: k, options }),
        i < host.logging_targets@.len(),
        k < options@.len(),
        leaf(global@, "logging"@, "targets"@) == Some(JsonV::Object(set)),
        other != host.logging_targets@[i as int]@,
    ensures
        r is Some,
        *final(profile) == *old(profile),
        leaf(r->0@, "logging"@, "targets"@) is Some && leaf(r->0@, "logging"@, "targets"@)->0 is Object,
        ({
            let after = leaf(r->0@, "logging"@, "targets"@)->0->Object_0;
            let target = host.logging_targets@[i as int]@;
            let level = options@[k as int]@;
            &&& level == "(default)"@ || level.len() == 0 ==> !after.contains_key(target)
            &&& level != "(default)"@ && level.len() > 0 ==> after.contains_key(target) && after[target] == JsonV::Text(
                level,
            )
            &&& after.contains_key(other) == set.contains_key(other)
            &&& set.contains_key(other) ==> after[other] == set[other]
        }),
{
    let v = global@;
    let target = host.logging_targets@[i as int]@;
    assert(texts(options@)[k as int] == options@[k as int]@);
    let level = options@[k as int]@;
    lemma_leaf(v, "logging"@, "targets"@);
    let w = r->0@;
    lemma_leaf(w, "logging"@, "targets"@);
    let l = member(v, "logging"@)->0;
    let t = JsonV::Object(set);
    if level != "(default)"@ && level.len() > 0 {
        let x = JsonV::Text(level);
        lemma_merge_single(v, "logging"@, single("targets"@, single(target, x)));
        lemma_merge_single(l, "targets"@, single(target, x));
        lemma_merge_single(t, target, x);
        let after = merged(t, single(target, x));
        assert(step(member(w, "logging"@), "targets"@) == Some(after));
        assert(member(after, target) == Some(x));
        assert(member(after, other) == member(t, other));
    }
}

/// An agent more is offered for renaming exactly where it is installed, behind the others.
pub proof fn law_installed_agent_is_added(
    capable: &Vec<String>,
    installed: &Vec<bool>,
    r: Vec<String>,
    more: &Vec<String>,
    marks: &Vec<bool>,
    q: Vec<String>,
    x: String,
    b: bool,
)
    requires
        capable@.len() == installed@.len(),
        more@ == capable@.push(x),
        marks@ == installed@.push(b),
        call_ensures(installed_oneshot_agents, (capable, installed), r),
        call_ensures(installed_oneshot_agents, (more, marks), q),
    ensures
        b ==> q@ == r@.push(x),
        !b ==> q@ == r@,
        capable@.len() == 0 ==> r@.len() == 0,
{
    lemma_marked_front(capable@, installed@, capable@.len(), x, b);
}

proof fn lemma_marked_front(names: Seq<String>, marks: Seq<bool>, n: nat, x: String, b: bool)
    requires
        n <= names.len(),
        names.len() == marks.len(),
    ensures
        marked(names.push(x), marks.push(b), n) == marked(names, marks, n),
    decreases n,
{
    if n > 0 {
        lemma_marked_front(names, marks, (n - 1) as nat, x, b);
    }
}

} // verus!
