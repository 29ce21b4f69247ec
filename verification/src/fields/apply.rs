//! Applying an edited row to the configuration, and clearing an override.

use vstd::prelude::*;

use crate::fields::rows::{leaf_at, FieldKind, SettingField, SettingsScope};
use crate::fields::values::{
    chosen, list_to_json, option_at, schema_json, schema_value_to_json, text_array, FieldV, FieldValue, HostChoices,
};
use crate::json::{member, members, owned_json_of, text_or_null, Json, JsonMap, JsonV};
use crate::profile_config::{describable, lemma_with_leaf, set_leaf, with_leaf, ProfileConfig};
use crate::settings::merge::{laid_over, merge_json, merged, nest, single};
use crate::settings::plugin::{
    law_storage_round_trips, plugin_prefix, section_plugin_id, storage_leaf, stored, stored_leaf,
};
use crate::text::{after_prefix, is_empty, same, text_of, trim_text, trimmed_text};

verus! {

/// What an edit changes.
pub enum Edit {
    /// Nothing.
    Nothing,
    /// The global configuration becomes this document.
    Global(JsonV),
    /// The profile gets this description.
    Description(Option<Seq<char>>),
    /// The profile becomes the one that this document holds.
    Profile(Map<Seq<char>, JsonV>),
}

/// The JSON leaf that a row writes; none for a row that never writes one.
pub open spec fn written_leaf(kind: FieldKind, v: FieldV, host: HostChoices) -> Option<JsonV> {
    match (kind, v) {
        (FieldKind::ProfileDescription, FieldV::OptionalText(o)) => Some(text_or_null(trimmed_text(o))),
        (FieldKind::Hook(_), FieldV::List(items)) => Some(text_array(items)),
        (FieldKind::HostEnvironment, FieldV::List(items)) => Some(text_array(items)),
        (FieldKind::Schema { widget, section, field, .. }, v) => Some(
            schema_json(widget, section@, field@, v, host),
        ),
        _ => None,
    }
}

/// The JSON leaf that a row writes.
pub fn field_value_to_json(kind: &FieldKind, value: &FieldValue, host: &HostChoices) -> (r: Option<Json>)
    ensures
        owned_json_of(r) == written_leaf(*kind, value@, *host),
{
    match (kind, value) {
        (FieldKind::ProfileDescription, FieldValue::OptionalText(o)) => match trim_text(o) {
            Some(s) => Some(Json::Text(s)),
            None => Some(Json::Null),
        },
        (FieldKind::Hook(_), FieldValue::List(items)) => Some(list_to_json(items)),
        (FieldKind::HostEnvironment, FieldValue::List(items)) => Some(list_to_json(items)),
        (FieldKind::Schema { widget, section, field, .. }, v) => Some(
            schema_value_to_json(widget, section.as_str(), field.as_str(), v, host),
        ),
        _ => None,
    }
}

/// A configuration without the log level of a target.
pub open spec fn without_level(v: JsonV, target: Seq<char>) -> JsonV {
    match v {
        JsonV::Object(m) => match member(v, "logging"@) {
            Some(JsonV::Object(l)) => match member(JsonV::Object(l), "targets"@) {
                Some(JsonV::Object(t)) => JsonV::Object(
                    m.insert("logging"@, JsonV::Object(l.insert("targets"@, JsonV::Object(t.remove(target))))),
                ),
                _ => v,
            },
            _ => v,
        },
        _ => v,
    }
}

/// A configuration with the log level of a target set, or left to the baseline.
pub open spec fn with_level(v: JsonV, target: Seq<char>, level: Seq<char>) -> JsonV {
    if level.len() == 0 || level == "(default)"@ {
        without_level(v, target)
    } else {
        merged(v, single("logging"@, single("targets"@, single(target, JsonV::Text(level)))))
    }
}

/// What setting a logging row changes.
pub open spec fn logging_edit(global: JsonV, i: int, v: FieldV, host: HostChoices) -> Edit {
    if 0 <= i < host.logging_targets@.len() {
        match v {
            FieldV::Select { selected, options } => Edit::Global(
                with_level(global, host.logging_targets@[i]@, option_at(options, selected as int)),
            ),
            _ => Edit::Nothing,
        }
    } else {
        Edit::Nothing
    }
}

/// A document with a member at its root set; what is no object stays as it is.
pub open spec fn with_root(v: JsonV, field: Seq<char>, leaf: JsonV) -> JsonV {
    match v {
        JsonV::Object(m) => JsonV::Object(m.insert(field, leaf)),
        _ => v,
    }
}

/// What setting a leaf of a section changes.
pub open spec fn leaf_edit(
    scope: SettingsScope,
    global: JsonV,
    profile: Map<Seq<char>, JsonV>,
    section: Seq<char>,
    field: Seq<char>,
    leaf: JsonV,
) -> Edit {
    match scope {
        SettingsScope::Global => Edit::Global(
            match after_prefix(section, plugin_prefix()) {
                Some(id) => merged(global, stored_leaf(id, field, leaf)),
                None => with_leaf(global, section, field, leaf),
            },
        ),
        _ => Edit::Profile(members(with_leaf(JsonV::Object(profile), section, field, leaf))),
    }
}

/// What applying a row changes.
pub open spec fn edit_of(
    kind: FieldKind,
    v: FieldV,
    scope: SettingsScope,
    global: JsonV,
    profile: Map<Seq<char>, JsonV>,
    host: HostChoices,
) -> Edit {
    match kind {
        FieldKind::LoggingTarget(i) => logging_edit(global, i as int, v, host),
        FieldKind::ProfileDescription => match v {
            FieldV::OptionalText(o) => if scope == SettingsScope::Global {
                Edit::Nothing
            } else {
                Edit::Description(trimmed_text(o))
            },
            _ => Edit::Nothing,
        },
        _ => match written_leaf(kind, v, host) {
            None => Edit::Nothing,
            Some(leaf) => match kind {
                FieldKind::Schema { section, field, .. } => leaf_edit(scope, global, profile, section@, field@, leaf),
                FieldKind::Hook(h) => leaf_edit(scope, global, profile, "hooks"@, h.name(), leaf),
                FieldKind::HostEnvironment => match scope {
                    SettingsScope::Global => Edit::Global(with_root(global, "environment"@, leaf)),
                    _ => Edit::Profile(profile.insert("environment"@, leaf)),
                },
                _ => Edit::Nothing,
            },
        },
    }
}

/// Whether an edit was carried out: `global` is the new global configuration where it changes,
/// and the profile went from `before` to `after`.
pub open spec fn carried_out(edit: Edit, global: Option<Json>, before: ProfileConfig, after: ProfileConfig) -> bool {
    match edit {
        Edit::Nothing => global is None && after == before,
        Edit::Global(v) => owned_json_of(global) == Some(v) && after == before,
        Edit::Description(d) => global is None && text_of(after.description) == d && after.overrides
            == before.overrides,
        Edit::Profile(m) => global is None && replaced(m, before, after),
    }
}

/// Whether a profile became the one that a document holds; it stays as it is where the document
/// holds none.
pub open spec fn replaced(m: Map<Seq<char>, JsonV>, before: ProfileConfig, after: ProfileConfig) -> bool {
    if describable(JsonV::Object(m)) {
        after.holds(m)
    } else {
        after == before
    }
}

/// Replaces a profile by the one that a document holds.
fn replace_profile(profile: &mut ProfileConfig, doc: &Json)
    requires
        doc@ is Object,
    ensures
        replaced(doc@->Object_0, *old(profile), *final(profile)),
{
    if let Some(updated) = ProfileConfig::from_json(doc) {
        *profile = updated;
    }
}

/// Sets or removes the log level of a target.
fn apply_logging_target(global: &Json, i: usize, value: &FieldValue, host: &HostChoices) -> (r: Option<Json>)
    ensures
        owned_json_of(r) == match logging_edit(global@, i as int, value@, *host) {
            Edit::Global(v) => Some(v),
            _ => None,
        },
{
    if i >= host.logging_targets.len() {
        return None;
    }
    let target = host.logging_targets[i].as_str();
    match value {
        FieldValue::Select { selected, options } => {
            let level = chosen(options, *selected);
            if is_empty(level.as_str()) || same(level.as_str(), "(default)") {
                Some(remove_level(global, target))
            } else {
                let mut updated = global.clone();
                merge_json(&mut updated, &nest("logging", nest("targets", nest(target, Json::Text(level)))));
                Some(updated)
            }
        },
        _ => None,
    }
}

fn remove_level(global: &Json, target: &str) -> (r: Json)
    ensures
        r@ == without_level(global@, target@),
{
    if let Json::Object(m) = global {
        if let Some(logging) = m.get("logging") {
            if let Json::Object(l) = logging {
                if let Some(targets) = l.get("targets") {
                    if let Json::Object(t) = targets {
                        let mut fewer = t.clone();
                        fewer.remove(target);
                        let mut section = l.clone();
                        section.insert("targets".to_owned(), Json::Object(fewer));
                        let mut updated = m.clone();
                        updated.insert("logging".to_owned(), Json::Object(section));
                        return Json::Object(updated);
                    }
                }
            }
        }
    }
    global.clone()
}

/// Sets a member at the root of a document.
fn set_root(v: &mut Json, field: &str, leaf: Json)
    ensures
        final(v)@ == with_root(old(v)@, field@, leaf@),
{
    if let Json::Object(m) = v {
        m.insert(field.to_owned(), leaf);
    }
}

/// Sets a leaf of a section in the global configuration, or in a profile.
fn apply_leaf(
    scope: SettingsScope,
    global: &Json,
    profile: &mut ProfileConfig,
    section: &str,
    field: &str,
    leaf: Json,
) -> (r: Option<Json>)
    ensures
        carried_out(
            leaf_edit(scope, global@, old(profile).document(), section@, field@, leaf@),
            r,
            *old(profile),
            *final(profile),
        ),
{
    match scope {
        SettingsScope::Global => {
            let mut updated = global.clone();
            match section_plugin_id(section) {
                Some(id) => {
                    merge_json(&mut updated, &storage_leaf(id, field, leaf));
                },
                None => {
                    set_leaf(&mut updated, section, field, leaf);
                },
            }
            Some(updated)
        },
        _ => {
            let mut doc = profile.to_json();
            set_leaf(&mut doc, section, field, leaf);
            replace_profile(profile, &doc);
            None
        },
    }
}

/// Applies a row to the configuration in a scope. What comes back is the new global
/// configuration, where the edit changes it.
pub fn apply_field_to_config(
    field: &SettingField,
    scope: SettingsScope,
    global: &Json,
    profile: &mut ProfileConfig,
    host: &HostChoices,
) -> (r: Option<Json>)
    ensures
        carried_out(
            edit_of(field.kind, field.value@, scope, global@, old(profile).document(), *host),
            r,
            *old(profile),
            *final(profile),
        ),
{
    match &field.kind {
        FieldKind::LoggingTarget(i) => {
            return apply_logging_target(global, *i, &field.value, host);
        },
        FieldKind::ProfileDescription => {
            if !matches!(scope, SettingsScope::Global) {
                if let FieldValue::OptionalText(o) = &field.value {
                    profile.description = trim_text(o);
                }
            }
            return None;
        },
        _ => {},
    }
    let leaf = match field_value_to_json(&field.kind, &field.value, host) {
        Some(leaf) => leaf,
        None => {
            return None;
        },
    };
    match &field.kind {
        FieldKind::Schema { section, field, .. } => apply_leaf(
            scope,
            global,
            profile,
            section.as_str(),
            field.as_str(),
            leaf,
        ),
        FieldKind::Hook(h) => apply_leaf(scope, global, profile, "hooks", h.field(), leaf),
        FieldKind::HostEnvironment => match scope {
            SettingsScope::Global => {
                let mut updated = global.clone();
                set_root(&mut updated, "environment", leaf);
                Some(updated)
            },
            _ => {
                let mut doc = profile.to_json();
                set_root(&mut doc, "environment", leaf);
                replace_profile(profile, &doc);
                None
            },
        },
        _ => None,
    }
}

/// A document without a leaf of a section.
pub open spec fn without_leaf(m: Map<Seq<char>, JsonV>, section: Seq<char>, field: Seq<char>) -> Map<
    Seq<char>,
    JsonV,
> {
    match member(JsonV::Object(m), section) {
        Some(JsonV::Object(s)) => m.insert(section, JsonV::Object(s.remove(field))),
        _ => m,
    }
}

/// Removes a leaf of a section from a document.
pub fn clear_path(v: &mut Json, section: &str, field: &str)
    ensures
        final(v)@ == match old(v)@ {
            JsonV::Object(m) => JsonV::Object(without_leaf(m, section@, field@)),
            other => other,
        },
{
    if let Json::Object(m) = v {
        let mut cleared: Option<JsonMap> = None;
        if let Some(s) = m.get(section) {
            if let Json::Object(o) = s {
                let mut fewer = o.clone();
                fewer.remove(field);
                cleared = Some(fewer);
            }
        }
        if let Some(fewer) = cleared {
            m.insert(section.to_owned(), Json::Object(fewer));
        }
    }
}

/// What clearing the override of a row changes.
pub open spec fn clear_of(kind: FieldKind, profile: Map<Seq<char>, JsonV>) -> Edit {
    match kind {
        FieldKind::ProfileDescription => Edit::Description(None),
        FieldKind::HostEnvironment => Edit::Profile(profile.remove("environment"@)),
        FieldKind::Hook(h) => Edit::Profile(without_leaf(profile, "hooks"@, h.name())),
        FieldKind::Schema { section, field, profile_overridable, .. } => if profile_overridable {
            Edit::Profile(without_leaf(profile, section@, field@))
        } else {
            Edit::Nothing
        },
        _ => Edit::Nothing,
    }
}

fn clear_override_path(profile: &mut ProfileConfig, section: &str, field: &str)
    ensures
        replaced(without_leaf(old(profile).document(), section@, field@), *old(profile), *final(profile)),
{
    let mut doc = profile.to_json();
    clear_path(&mut doc, section, field);
    replace_profile(profile, &doc);
}

/// Clears the override of a row, so that it inherits again.
pub fn clear_override(field: &SettingField, profile: &mut ProfileConfig)
    ensures
        carried_out(clear_of(field.kind, old(profile).document()), None, *old(profile), *final(profile)),
{
    match &field.kind {
        FieldKind::ProfileDescription => {
            profile.description = None;
        },
        FieldKind::HostEnvironment => {
            let mut m = match profile.to_json() {
                Json::Object(m) => m,
                _ => JsonMap::new(),
            };
            m.remove("environment");
            replace_profile(profile, &Json::Object(m));
        },
        FieldKind::Hook(h) => {
            clear_override_path(profile, "hooks", h.field());
        },
        FieldKind::Schema { section, field, profile_overridable, .. } => {
            if *profile_overridable {
                clear_override_path(profile, section.as_str(), field.as_str());
            }
        },
        _ => {},
    }
}

/// The document of a profile that holds `m` agrees with `m` on every section but the description.
proof fn lemma_held_document(p: ProfileConfig, m: Map<Seq<char>, JsonV>, section: Seq<char>)
    requires
        p.holds(m),
        section != "description"@,
    ensures
        member(JsonV::Object(p.document()), section) == member(JsonV::Object(m), section),
{
}

/// Applying a field of the schema to a profile always stores an override: the field's leaf is in
/// the profile's document afterwards, even where it equals the inherited value. A section in the
/// place of the description cannot be stored: the profile then stays as it is.
pub proof fn law_apply_stores_override(
    field: SettingField,
    scope: SettingsScope,
    global: JsonV,
    host: HostChoices,
    r: Option<Json>,
    before: ProfileConfig,
    after: ProfileConfig,
)
    requires
        scope != SettingsScope::Global,
        field.kind is Schema,
        !before.overrides@.contains_key("description"@),
        carried_out(edit_of(field.kind, field.value@, scope, global, before.document(), host), r, before, after),
    ensures
        field.kind->section@ == "description"@ ==> after == before,
        field.kind->section@ != "description"@ ==> leaf_at(
            JsonV::Object(after.document()),
            field.kind->section@,
            field.kind->field@,
        ) == Some(
            laid_over(
                leaf_at(JsonV::Object(before.document()), field.kind->section@, field.kind->field@),
                written_leaf(field.kind, field.value@, host)->0,
            ),
        ),
        text_of(after.description) == text_of(before.description),
        r is None,
{
    let section = field.kind->section@;
    let sub = field.kind->field@;
    let leaf = written_leaf(field.kind, field.value@, host)->0;
    let doc = JsonV::Object(before.document());
    let m = members(with_leaf(doc, section, sub, leaf));
    lemma_with_leaf(doc, section, sub, leaf);
    crate::settings::merge::lemma_merge_single(doc, section, single(sub, leaf));
    if section == "description"@ {
        assert(!describable(JsonV::Object(m)));
    } else {
        assert(member(JsonV::Object(m), "description"@) == member(doc, "description"@));
        assert(describable(JsonV::Object(m)));
        lemma_held_document(after, m, section);
    }
}

/// The section and the field of the leaf that a row overrides, where it overrides one.
pub open spec fn overridden_leaf(kind: FieldKind) -> Option<(Seq<char>, Seq<char>)> {
    match kind {
        FieldKind::Hook(h) => Some(("hooks"@, h.name())),
        FieldKind::Schema { section, field, profile_overridable, .. } => if profile_overridable {
            Some((section@, field@))
        } else {
            None
        },
        _ => None,
    }
}

/// Clearing an override removes it: the leaf of the row is no longer in the profile's document.
/// Every other leaf of the section, every other section and the description stay as they are.
pub proof fn law_clear_removes_override(
    field: SettingField,
    section: Seq<char>,
    leaf: Seq<char>,
    before: ProfileConfig,
    after: ProfileConfig,
)
    requires
        overridden_leaf(field.kind) == Some((section, leaf)),
        !before.overrides@.contains_key("description"@),
        carried_out(clear_of(field.kind, before.document()), None, before, after),
    ensures
        leaf_at(JsonV::Object(after.document()), section, leaf) is None,
        forall|f: Seq<char>|
            f != leaf ==> #[trigger] leaf_at(JsonV::Object(after.document()), section, f) == leaf_at(
                JsonV::Object(before.document()),
                section,
                f,
            ),
        forall|s: Seq<char>|
            s != section && s != "description"@ ==> #[trigger] member(JsonV::Object(after.document()), s) == member(
                JsonV::Object(before.document()),
                s,
            ),
        text_of(after.description) == text_of(before.description),
{
    let doc = before.document();
    let m = without_leaf(doc, section, leaf);
    assert(member(JsonV::Object(m), "description"@) == member(JsonV::Object(doc), "description"@));
    assert(describable(JsonV::Object(m)));
    if section != "description"@ {
        lemma_held_document(after, m, section);
    }
    assert forall|s: Seq<char>| s != section && s != "description"@ implies #[trigger] member(
        JsonV::Object(after.document()),
        s,
    ) == member(JsonV::Object(doc), s) by {
        lemma_held_document(after, m, s);
    }
}

/// Clearing the override of a row a second time changes nothing, whatever the row.
pub proof fn law_clear_twice_is_clear_once(
    field: SettingField,
    before: ProfileConfig,
    after: ProfileConfig,
    again: ProfileConfig,
)
    requires
        !before.overrides@.contains_key("description"@),
        carried_out(clear_of(field.kind, before.document()), None, before, after),
        carried_out(clear_of(field.kind, after.document()), None, after, again),
    ensures
        again.overrides@ == after.overrides@,
        text_of(again.description) == text_of(after.description),
{
    let doc = after.document();
    match clear_of(field.kind, doc) {
        Edit::Profile(m) => {
            assert(!after.overrides@.contains_key("description"@));
            assert(doc.remove("description"@) =~= after.overrides@);
            assert(m =~= doc) by {
                if let Some((section, sub)) = overridden_leaf(field.kind) {
                    let n = without_leaf(before.document(), section, sub);
                    if section != "description"@ {
                        lemma_held_document(after, n, section);
                    }
                    if let Some(JsonV::Object(s)) = member(JsonV::Object(doc), section) {
                        assert(s.remove(sub) =~= s);
                    }
                } else {
                    reveal_strlit("environment");
                    reveal_strlit("description");
                    assert("environment"@[0] == 'e' && "description"@[0] == 'd');
                }
            }
        },
        _ => {},
    }
}

/// Applying a field of the schema to the global configuration writes it where it is read: a
/// plugin's setting into its store, any other into its section.
pub proof fn law_apply_global_reads_back(
    field: SettingField,
    global: JsonV,
    host: HostChoices,
    r: Option<Json>,
    before: ProfileConfig,
    after: ProfileConfig,
)
    requires
        field.kind is Schema,
        carried_out(
            edit_of(field.kind, field.value@, SettingsScope::Global, global, before.document(), host),
            r,
            before,
            after,
        ),
    ensures
        after == before,
        r is Some,
        match after_prefix(field.kind->section@, plugin_prefix()) {
            Some(id) => stored(r->0@, id, field.kind->field@) == Some(
                laid_over(
                    stored(global, id, field.kind->field@),
                    written_leaf(field.kind, field.value@, host)->0,
                ),
            ),
            None => leaf_at(r->0@, field.kind->section@, field.kind->field@) == Some(
                laid_over(
                    leaf_at(global, field.kind->section@, field.kind->field@),
                    written_leaf(field.kind, field.value@, host)->0,
                ),
            ),
        },
{
    let leaf = written_leaf(field.kind, field.value@, host)->0;
    match after_prefix(field.kind->section@, plugin_prefix()) {
        Some(id) => {
            law_storage_round_trips(global, id, field.kind->field@, leaf);
        },
        None => {
            lemma_with_leaf(global, field.kind->section@, field.kind->field@, leaf);
        },
    }
}

} // verus!
