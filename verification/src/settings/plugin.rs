//! Plugin settings as sections of their own.
//!
//! A plugin's settings are read and written under the section `plugin:<id>`, and stored under
//! `plugins.<id>.settings` of the configuration document. This module translates between the
//! two, and turns the settings that a plugin declares into field descriptors.

use vstd::prelude::*;

use crate::json::{lists_keys, member, members, owned_json_of, Json, JsonMap, JsonV, json_of};
use crate::order::{lemma_lt_irreflexive, text_lt};
use crate::settings::merge::{laid_over, lemma_merge_single, merged, nest, single, step};
use crate::settings::schema::{
    FieldDescriptor, ObjectFieldDescriptor, ObjectFieldWidget, OptionSource, SelectOption, ValidationKind,
    WebWritePolicy, WidgetKind,
};
use crate::text::{
    after_prefix, begins, copy_texts, is_empty, join2, lemma_after_prefix, str_of, strip_prefix, texts,
};

verus! {

/// What the settings section of a plugin begins with.
pub const PLUGIN_SECTION_PREFIX: &'static str = "plugin:";

/// The tab that the settings of plugins are under.
pub const PLUGIN_CATEGORY: &'static str = "Plugins";

/// What the section of a plugin begins with.
pub open spec fn plugin_prefix() -> Seq<char> {
    PLUGIN_SECTION_PREFIX@
}

/// The settings section of a plugin.
pub fn plugin_section_id(plugin_id: &str) -> (r: String)
    ensures
        r@ == plugin_prefix() + plugin_id@,
{
    join2(PLUGIN_SECTION_PREFIX, plugin_id)
}

/// The plugin whose section this is, if it is one.
pub fn section_plugin_id(section: &str) -> (r: Option<&str>)
    ensures
        str_of(r) == after_prefix(section@, plugin_prefix()),
{
    strip_prefix(section, PLUGIN_SECTION_PREFIX)
}

/// The section of a plugin names that plugin.
pub proof fn law_section_id_round_trips(plugin_id: Seq<char>)
    ensures
        after_prefix(plugin_prefix() + plugin_id, plugin_prefix()) == Some(plugin_id),
{
    lemma_after_prefix(plugin_prefix(), plugin_id);
}

/// Only the section of a plugin names it.
pub proof fn law_section_id_unique(section: Seq<char>, plugin_id: Seq<char>)
    requires
        after_prefix(section, plugin_prefix()) == Some(plugin_id),
    ensures
        section == plugin_prefix() + plugin_id,
{
    assert(section =~= section.take(plugin_prefix().len() as int) + section.skip(plugin_prefix().len() as int));
}

/// Where the value of a plugin setting is stored.
pub open spec fn stored(root: JsonV, plugin_id: Seq<char>, field: Seq<char>) -> Option<JsonV> {
    step(step(step(member(root, "plugins"@), plugin_id), "settings"@), field)
}

/// The stored value of a plugin setting in a configuration document.
pub fn storage_value<'a>(root: &'a Json, plugin_id: &str, field: &str) -> (r: Option<&'a Json>)
    ensures
        json_of(r) == stored(root@, plugin_id@, field@),
{
    match root.get("plugins") {
        Some(plugins) => match plugins.get(plugin_id) {
            Some(entry) => match entry.get("settings") {
                Some(settings) => settings.get(field),
                None => None,
            },
            None => None,
        },
        None => None,
    }
}

/// The document that sets one plugin setting and nothing else.
pub open spec fn stored_leaf(plugin_id: Seq<char>, field: Seq<char>, leaf: JsonV) -> JsonV {
    single("plugins"@, single(plugin_id, single("settings"@, single(field, leaf))))
}

/// The document that sets one plugin setting and nothing else.
pub fn storage_leaf(plugin_id: &str, field: &str, leaf: Json) -> (r: Json)
    ensures
        r@ == stored_leaf(plugin_id@, field@, leaf@),
{
    nest("plugins", nest(plugin_id, nest("settings", nest(field, leaf))))
}

/// Merging the document that sets a plugin setting into a configuration stores the value: what
/// is read back is the value laid over what was stored before.
pub proof fn law_storage_round_trips(root: JsonV, plugin_id: Seq<char>, field: Seq<char>, leaf: JsonV)
    ensures
        stored(merged(root, stored_leaf(plugin_id, field, leaf)), plugin_id, field) == Some(
            laid_over(stored(root, plugin_id, field), leaf),
        ),
        !(leaf is Object) ==> stored(merged(root, stored_leaf(plugin_id, field, leaf)), plugin_id, field) == Some(
            leaf,
        ),
{
    let d3 = single(field, leaf);
    let d2 = single("settings"@, d3);
    let d1 = single(plugin_id, d2);
    let plugins = member(root, "plugins"@);
    let entry = step(plugins, plugin_id);
    let settings = step(entry, "settings"@);
    lemma_merge_single(root, "plugins"@, d1);
    lemma_laid_single(plugins, plugin_id, d2);
    lemma_laid_single(entry, "settings"@, d3);
    lemma_laid_single(settings, field, leaf);
}

/// Laying an object with one member over a place that may be empty.
proof fn lemma_laid_single(present: Option<JsonV>, k: Seq<char>, v: JsonV)
    ensures
        member(laid_over(present, single(k, v)), k) == Some(laid_over(step(present, k), v)),
{
    match present {
        Some(p) => {
            lemma_merge_single(p, k, v);
        },
        None => {},
    }
}

/// The settings of a plugin with a section laid over them key by key. What is no object is
/// left alone.
pub open spec fn overlaid(settings: JsonV, section: JsonV) -> JsonV {
    match (settings, section) {
        (JsonV::Object(a), JsonV::Object(b)) => JsonV::Object(a.union_prefer_right(b)),
        _ => settings,
    }
}

/// An empty object, where there is no value.
pub open spec fn or_empty(o: Option<JsonV>) -> JsonV {
    match o {
        Some(v) => v,
        None => JsonV::Object(Map::empty()),
    }
}

/// The stored entry of a plugin with a section folded into its settings.
pub open spec fn folded_entry(entry: JsonV, section: JsonV) -> JsonV {
    match entry {
        JsonV::Object(e) => JsonV::Object(
            e.insert("settings"@, overlaid(or_empty(member(entry, "settings"@)), section)),
        ),
        _ => entry,
    }
}

/// The stored entries of all plugins with the sections of a document folded in, of those that
/// `taken` holds of.
pub open spec fn folded_plugins(
    plugins: JsonV,
    body: Map<Seq<char>, JsonV>,
    taken: spec_fn(Seq<char>) -> bool,
) -> JsonV {
    match plugins {
        JsonV::Object(p) => JsonV::Object(
            Map::new(
                |id: Seq<char>| p.contains_key(id) || taken(plugin_prefix() + id),
                |id: Seq<char>|
                    if taken(plugin_prefix() + id) {
                        folded_entry(or_empty(member(plugins, id)), body[plugin_prefix() + id])
                    } else {
                        p[id]
                    },
            ),
        ),
        _ => plugins,
    }
}

/// A document without the sections that `taken` holds of.
pub open spec fn without(body: Map<Seq<char>, JsonV>, taken: spec_fn(Seq<char>) -> bool) -> Map<Seq<char>, JsonV> {
    Map::new(|k: Seq<char>| body.contains_key(k) && !taken(k), |k: Seq<char>| body[k])
}

/// Whether a key of a document is the section of a plugin.
pub open spec fn is_plugin_key(body: Map<Seq<char>, JsonV>) -> spec_fn(Seq<char>) -> bool {
    |k: Seq<char>| body.contains_key(k) && begins(k, plugin_prefix())
}

/// A document whose plugin sections have been folded into the stored entries.
pub open spec fn rewritten(body: JsonV) -> JsonV {
    match body {
        JsonV::Object(m) => if exists|k: Seq<char>| #[trigger] m.contains_key(k) && begins(k, plugin_prefix()) {
            JsonV::Object(
                without(m, is_plugin_key(m)).insert(
                    "plugins"@,
                    folded_plugins(or_empty(member(body, "plugins"@)), m, is_plugin_key(m)),
                ),
            )
        } else {
            body
        },
        _ => body,
    }
}

/// Lays a section over the settings of a plugin.
fn overlay(settings: &mut Json, section: &Json)
    ensures
        final(settings)@ == overlaid(old(settings)@, section@),
{
    if let Json::Object(b) = section {
        if let Json::Object(a) = settings {
            let keys = b.keys();
            let ghost a0 = a@;
            let mut i: usize = 0;
            while i < keys.len()
                invariant
                    i <= keys@.len(),
                    lists_keys(texts(keys@), b@),
                    forall|k: Seq<char>| #[trigger]
                        member(JsonV::Object(a@), k) == if texts(keys@).take(i as int).contains(k) {
                            member(JsonV::Object(b@), k)
                        } else {
                            member(JsonV::Object(a0), k)
                        },
                decreases keys@.len() - i,
            {
                let ghost before = a@;
                let ghost done = texts(keys@).take(i as int);
                let key = keys[i].clone();
                let ghost kv = key@;
                assert(texts(keys@)[i as int] == kv);
                assert(texts(keys@).contains(kv));
                if let Some(v) = b.get(key.as_str()) {
                    a.insert(key, v.clone());
                }
                i = i + 1;
                proof {
                    assert(texts(keys@).take(i as int) =~= done.push(kv));
                    assert forall|k: Seq<char>| #[trigger]
                        member(JsonV::Object(a@), k) == if done.push(kv).contains(k) {
                            member(JsonV::Object(b@), k)
                        } else {
                            member(JsonV::Object(a0), k)
                        } by {
                        assert(member(JsonV::Object(before), k) == if done.contains(k) {
                            member(JsonV::Object(b@), k)
                        } else {
                            member(JsonV::Object(a0), k)
                        });
                        lemma_push_contains(done, kv, k);
                    }
                }
            }
            proof {
                assert(texts(keys@).take(i as int) =~= texts(keys@));
                let want = a0.union_prefer_right(b@);
                assert forall|k: Seq<char>| #[trigger] a@.contains_key(k) == want.contains_key(k) && (
                want.contains_key(k) ==> a@[k] == want[k]) by {
                    assert(member(JsonV::Object(a@), k) == if b@.contains_key(k) {
                        member(JsonV::Object(b@), k)
                    } else {
                        member(JsonV::Object(a0), k)
                    });
                }
                assert(a@ =~= want);
            }
        }
    }
}

/// What a list holds after one more item.
pub proof fn lemma_push_contains(s: Seq<Seq<char>>, x: Seq<char>, k: Seq<char>)
    ensures
        s.push(x).contains(k) == (s.contains(k) || k == x),
{
    if s.contains(k) {
        let j = choose|j: int| 0 <= j < s.len() && s[j] == k;
        assert(s.push(x)[j] == k);
    }
    if k == x {
        assert(s.push(x)[s.len() as int] == k);
    }
    if s.push(x).contains(k) {
        let j = choose|j: int| 0 <= j < s.push(x).len() && s.push(x)[j] == k;
        if j < s.len() {
            assert(s[j] == k);
        }
    }
}

/// Folds a section into the stored entry of a plugin.
fn fold_entry(entry: &mut Json, section: &Json)
    ensures
        final(entry)@ == folded_entry(old(entry)@, section@),
{
    if let Json::Object(e) = entry {
        let mut settings = match e.get("settings") {
            Some(s) => s.clone(),
            None => Json::Object(JsonMap::new()),
        };
        overlay(&mut settings, section);
        e.insert("settings".to_owned(), settings);
    }
}

/// Folds the section of one plugin into the stored entries.
fn fold_plugin(plugins: &mut Json, id: &str, section: &Json)
    ensures
        match old(plugins)@ {
            JsonV::Object(p) => final(plugins)@ == JsonV::Object(
                p.insert(id@, folded_entry(or_empty(member(old(plugins)@, id@)), section@)),
            ),
            _ => final(plugins)@ == old(plugins)@,
        },
{
    if let Json::Object(p) = plugins {
        let mut entry = match p.get(id) {
            Some(e) => e.clone(),
            None => Json::Object(JsonMap::new()),
        };
        fold_entry(&mut entry, section);
        p.insert(id.to_owned(), entry);
    }
}

/// Whether a key is among the first plugin sections of a list of keys.
spec fn among(ks: Seq<Seq<char>>) -> spec_fn(Seq<char>) -> bool {
    |k: Seq<char>| ks.contains(k) && begins(k, plugin_prefix())
}

/// Folds every plugin section of a settings document into the stored entries. Other sections
/// are left as they are.
pub fn rewrite_plugin_sections(body: &mut Json)
    ensures
        final(body)@ == rewritten(old(body)@),
{
    if let Json::Object(m) = body {
        let ghost m0 = m@;
        let keys = m.keys();
        let ghost ks = texts(keys@);
        let mut plugins = match m.get("plugins") {
            Some(p) => p.clone(),
            None => Json::Object(JsonMap::new()),
        };
        let ghost p0 = plugins@;
        let mut any = false;
        let mut i: usize = 0;
        proof {
            assert(m@ =~= without(m0, among(ks.take(0))));
            lemma_folded_none(p0, m0, among(ks.take(0)));
        }
        while i < keys.len()
            invariant
                i <= keys@.len(),
                ks == texts(keys@),
                lists_keys(ks, m0),
                m@ == without(m0, among(ks.take(i as int))),
                plugins@ == folded_plugins(p0, m0, among(ks.take(i as int))),
                any == exists|j: int| 0 <= j < i && begins(#[trigger] ks[j], plugin_prefix()),
            decreases keys@.len() - i,
        {
            let key = keys[i].clone();
            let ghost kv = key@;
            let ghost done = ks.take(i as int);
            let ghost mb = m@;
            let ghost pb = plugins@;
            proof {
                assert(ks[i as int] == kv);
                assert(ks.contains(kv));
                assert(!done.contains(kv)) by {
                    if done.contains(kv) {
                        let j = choose|j: int| 0 <= j < done.len() && done[j] == kv;
                        assert(text_lt(ks[j], ks[i as int]));
                        lemma_lt_irreflexive(kv);
                    }
                }
                assert(ks.take(i + 1) =~= done.push(kv));
            }
            match strip_prefix(key.as_str(), PLUGIN_SECTION_PREFIX) {
                Some(id) => {
                    proof {
                        law_section_id_unique(kv, id@);
                    }
                    any = true;
                    if let Some(section) = m.get(key.as_str()) {
                        fold_plugin(&mut plugins, id, section);
                    }
                    m.remove(key.as_str());
                    proof {
                        assert(m@ =~= without(m0, among(done.push(kv)))) by {
                            assert forall|k: Seq<char>| #[trigger] among(done.push(kv))(k) == (among(done)(k) || k
                                == kv) by {
                                lemma_push_contains(done, kv, k);
                            }
                        }
                        lemma_folded_step(p0, m0, done, kv, id@);
                        assert(begins(ks[i as int], plugin_prefix()));
                    }
                },
                None => {
                    proof {
                        assert forall|k: Seq<char>| #[trigger] among(done.push(kv))(k) == among(done)(k) by {
                            lemma_push_contains(done, kv, k);
                        }
                        assert(among(done.push(kv)) =~= among(done));
                    }
                },
            }
            i = i + 1;
        }
        proof {
            assert(ks.take(i as int) =~= ks);
            assert forall|k: Seq<char>| #[trigger] among(ks)(k) == is_plugin_key(m0)(k) by {
                assert(ks.contains(k) == m0.contains_key(k));
            }
            assert(among(ks) =~= is_plugin_key(m0));
            if any {
                let j = choose|j: int| 0 <= j < i && begins(#[trigger] ks[j], plugin_prefix());
                assert(ks.contains(ks[j]));
                assert(m0.contains_key(ks[j]));
            } else {
                assert forall|k: Seq<char>| #[trigger] m0.contains_key(k) implies !begins(k, plugin_prefix()) by {
                    assert(ks.contains(k));
                    let j = choose|j: int| 0 <= j < ks.len() && ks[j] == k;
                    assert(!begins(ks[j], plugin_prefix()));
                }
                assert(m@ =~= m0);
            }
        }
        if any {
            m.insert("plugins".to_owned(), plugins);
        }
    }
}

proof fn lemma_folded_none(p: JsonV, body: Map<Seq<char>, JsonV>, taken: spec_fn(Seq<char>) -> bool)
    requires
        forall|k: Seq<char>| !(#[trigger] taken(k)),
    ensures
        folded_plugins(p, body, taken) == p,
{
    if p is Object {
        assert(members(folded_plugins(p, body, taken)) =~= p->Object_0);
    }
}

proof fn lemma_folded_step(
    p0: JsonV,
    body: Map<Seq<char>, JsonV>,
    done: Seq<Seq<char>>,
    key: Seq<char>,
    id: Seq<char>,
)
    requires
        key == plugin_prefix() + id,
        !done.contains(key),
        begins(key, plugin_prefix()),
    ensures
        match folded_plugins(p0, body, among(done)) {
            JsonV::Object(p) => folded_plugins(p0, body, among(done.push(key))) == JsonV::Object(
                p.insert(id, folded_entry(or_empty(member(JsonV::Object(p), id)), body[key])),
            ),
            _ => folded_plugins(p0, body, among(done.push(key))) == folded_plugins(p0, body, among(done)),
        },
{
    if p0 is Object {
        let before = members(folded_plugins(p0, body, among(done)));
        let after = members(folded_plugins(p0, body, among(done.push(key))));
        let want = before.insert(id, folded_entry(or_empty(member(JsonV::Object(before), id)), body[key]));
        assert forall|l: Seq<char>| #[trigger] after.contains_key(l) == want.contains_key(l) && (want.contains_key(l)
            ==> after[l] == want[l]) by {
            lemma_push_contains(done, key, plugin_prefix() + l);
            if l != id {
                lemma_after_prefix(plugin_prefix(), l);
                lemma_after_prefix(plugin_prefix(), id);
                assert(plugin_prefix() + l != key);
            } else {
                assert(!among(done)(plugin_prefix() + l));
            }
        }
        assert(after =~= want);
    }
}

/// Rewriting leaves no plugin section behind.
pub proof fn law_rewrite_clears(m: Map<Seq<char>, JsonV>, k: Seq<char>)
    requires
        begins(k, plugin_prefix()),
    ensures
        member(rewritten(JsonV::Object(m)), k) is None,
{
    lemma_plugins_is_no_section();
    if exists|k: Seq<char>| #[trigger] m.contains_key(k) && begins(k, plugin_prefix()) {
        assert(!without(m, is_plugin_key(m)).contains_key(k));
    } else {
        assert(!m.contains_key(k));
    }
}

/// Rewriting keeps every section that is not a plugin's and not the store of plugins.
pub proof fn law_rewrite_keeps(m: Map<Seq<char>, JsonV>, k: Seq<char>)
    requires
        !begins(k, plugin_prefix()),
        k != "plugins"@,
    ensures
        member(rewritten(JsonV::Object(m)), k) == member(JsonV::Object(m), k),
{
    assert(without(m, is_plugin_key(m)).contains_key(k) == m.contains_key(k));
}

/// Whether what is stored in a place, if anything, is an object.
pub open spec fn open_place(o: Option<JsonV>) -> bool {
    match o {
        Some(v) => v is Object,
        None => true,
    }
}

/// Rewriting stores every value of a plugin section where the setting is read.
pub proof fn law_rewrite_stores(
    m: Map<Seq<char>, JsonV>,
    plugin_id: Seq<char>,
    s: Map<Seq<char>, JsonV>,
    field: Seq<char>,
)
    requires
        member(JsonV::Object(m), plugin_prefix() + plugin_id) == Some(JsonV::Object(s)),
        s.contains_key(field),
        open_place(member(JsonV::Object(m), "plugins"@)),
        open_place(step(member(JsonV::Object(m), "plugins"@), plugin_id)),
        open_place(step(step(member(JsonV::Object(m), "plugins"@), plugin_id), "settings"@)),
    ensures
        stored(rewritten(JsonV::Object(m)), plugin_id, field) == Some(s[field]),
{
    let key = plugin_prefix() + plugin_id;
    lemma_after_prefix(plugin_prefix(), plugin_id);
    assert(m.contains_key(key) && begins(key, plugin_prefix()));
    let p0 = or_empty(member(JsonV::Object(m), "plugins"@));
    let entry = or_empty(member(p0, plugin_id));
    let settings = or_empty(member(entry, "settings"@));
    let p1 = folded_plugins(p0, m, is_plugin_key(m));
    assert(member(rewritten(JsonV::Object(m)), "plugins"@) == Some(p1));
    assert(member(p1, plugin_id) == Some(folded_entry(entry, JsonV::Object(s))));
    assert(member(folded_entry(entry, JsonV::Object(s)), "settings"@) == Some(overlaid(settings, JsonV::Object(s))));
}

proof fn lemma_plugins_is_no_section()
    ensures
        !begins("plugins"@, plugin_prefix()),
{
    reveal_strlit("plugins");
    reveal_strlit("plugin:");
    if begins("plugins"@, plugin_prefix()) {
        assert("plugins"@.take(7)[6] == plugin_prefix()[6]);
    }
}

/// The type of a declared setting.
#[derive(Debug, Clone, Copy, PartialEq, Eq, Structural)]
pub enum SettingType {
    Bool,
    String,
    Integer,
    Select,
    DynamicSelect,
    Cron,
    ObjectList,
}

/// The type of a field of an object-list item.
#[derive(Debug, Clone, Copy, PartialEq, Eq, Structural)]
pub enum ObjectFieldType {
    Bool,
    String,
    Integer,
    Select,
    DynamicSelect,
    Cron,
}

/// A field of an object-list item as a plugin declares it.
#[derive(Debug)]
pub struct ObjectFieldContribution {
    pub key: String,
    pub label: String,
    pub description: String,
    pub value_type: ObjectFieldType,
    pub required: bool,
    pub options: Vec<String>,
    pub min: Option<i64>,
    pub max: Option<i64>,
    pub default: Option<Json>,
    pub option_source: Option<OptionSource>,
    pub depends_on: Vec<String>,
}

/// A setting as a plugin declares it.
#[derive(Debug)]
pub struct SettingContribution {
    pub key: String,
    pub label: String,
    pub description: String,
    pub value_type: SettingType,
    pub options: Vec<String>,
    pub min: Option<i64>,
    pub max: Option<i64>,
    pub default: Option<Json>,
    pub advanced: bool,
    pub option_source: Option<OptionSource>,
    pub depends_on: Vec<String>,
    pub fields: Vec<ObjectFieldContribution>,
    pub item_id_key: Option<String>,
    pub min_items: Option<u32>,
    pub max_items: Option<u32>,
}

/// The label, or the key where there is none.
pub open spec fn label_or_key(label: Seq<char>, key: Seq<char>) -> Seq<char> {
    if label.len() == 0 {
        key
    } else {
        label
    }
}

/// Whether the choices of a select are the given texts, each its own label.
pub open spec fn plain_choices(options: Seq<SelectOption>, values: Seq<Seq<char>>) -> bool {
    options.len() == values.len() && forall|i: int|
        0 <= i < values.len() ==> (#[trigger] options[i]).value@ == values[i] && options[i].label@ == values[i]
}

/// The rule for an integer between declared bounds. Bounds below zero are left unchecked.
pub open spec fn integer_rule(min: Option<i64>, max: Option<i64>) -> ValidationKind {
    if (min is Some ==> min->0 >= 0) && (max is Some ==> max->0 >= 0) {
        ValidationKind::RangeU64 {
            min: match min {
                Some(m) => m as u64,
                None => 0,
            },
            max: match max {
                Some(m) => Some(m as u64),
                None => None,
            },
        }
    } else {
        ValidationKind::Unchecked
    }
}

/// The source of a dynamic select; the agents where none is declared.
pub open spec fn source_or_agents(o: Option<OptionSource>) -> OptionSource {
    match o {
        Some(s) => s,
        None => OptionSource::AcpAgents,
    }
}

/// The rule for a text: it has to be there where the field is required.
pub open spec fn presence_rule(required: bool) -> ValidationKind {
    if required {
        ValidationKind::NonEmptyString
    } else {
        ValidationKind::Unchecked
    }
}

/// Whether a descriptor is that of a declared field of an object-list item.
pub open spec fn describes_field(d: ObjectFieldDescriptor, f: ObjectFieldContribution) -> bool {
    &&& d.field@ == f.key@
    &&& d.label@ == label_or_key(f.label@, f.key@)
    &&& d.description@ == f.description@
    &&& d.required == f.required
    &&& owned_json_of(d.default) == owned_json_of(f.default)
    &&& match f.value_type {
        ObjectFieldType::Bool => d.widget is Toggle && d.validation is Unchecked,
        ObjectFieldType::String => d.widget == (ObjectFieldWidget::Text { multiline: false, mono: false })
            && d.validation == presence_rule(f.required),
        ObjectFieldType::Integer => d.widget == (ObjectFieldWidget::Number { min: f.min, max: f.max })
            && d.validation == integer_rule(f.min, f.max),
        ObjectFieldType::Select => d.widget matches ObjectFieldWidget::Select { options } && plain_choices(
            options@,
            texts(f.options@),
        ) && (d.validation matches ValidationKind::OneOf { options: allowed } && allowed@ == f.options@),
        ObjectFieldType::DynamicSelect => d.widget matches ObjectFieldWidget::DynamicSelect { source, depends_on }
            && source == source_or_agents(f.option_source) && depends_on@ == f.depends_on@ && d.validation
            == presence_rule(f.required),
        ObjectFieldType::Cron => d.widget is Cron && d.validation is Cron,
    }
}

/// Whether descriptors are those of the declared fields, in order.
pub open spec fn describes_fields(ds: Seq<ObjectFieldDescriptor>, fs: Seq<ObjectFieldContribution>) -> bool {
    ds.len() == fs.len() && forall|i: int| 0 <= i < fs.len() ==> describes_field(#[trigger] ds[i], fs[i])
}

/// The id field of an object list; `_id` where none is declared.
pub open spec fn id_field_of(o: Option<String>) -> Seq<char> {
    match o {
        Some(s) => s@,
        None => "_id"@,
    }
}

/// Whether a widget and a rule are those of a declared setting.
pub open spec fn fits(w: WidgetKind, v: ValidationKind, s: SettingContribution) -> bool {
    match s.value_type {
        SettingType::Bool => w is Toggle && v is Unchecked,
        SettingType::String => w == (WidgetKind::Text { multiline: false, mono: false }) && v is Unchecked,
        SettingType::Integer => w == (WidgetKind::Number { min: s.min, max: s.max }) && v == integer_rule(
            s.min,
            s.max,
        ),
        SettingType::Select => w matches WidgetKind::Select { options } && plain_choices(options@, texts(s.options@))
            && (v matches ValidationKind::OneOf { options: allowed } && allowed@ == s.options@),
        SettingType::DynamicSelect => w matches WidgetKind::DynamicSelect { source, depends_on } && source
            == source_or_agents(s.option_source) && depends_on@ == s.depends_on@ && v is Unchecked,
        SettingType::Cron => w is Cron && v is Cron,
        SettingType::ObjectList => {
            &&& w matches WidgetKind::ObjectList { id_field, fields, min_items, max_items } && id_field@
                == id_field_of(s.item_id_key) && describes_fields(fields@, s.fields@) && min_items == s.min_items
                && max_items == s.max_items
            &&& v matches ValidationKind::ObjectList { id_field, fields, min_items, max_items } && id_field@
                == id_field_of(s.item_id_key) && describes_fields(fields@, s.fields@) && min_items == s.min_items
                && max_items == s.max_items
        },
    }
}

/// Whether a descriptor is that of a declared setting of a plugin.
pub open spec fn describes(d: FieldDescriptor, plugin_id: Seq<char>, s: SettingContribution) -> bool {
    &&& d.section@ == plugin_prefix() + plugin_id
    &&& d.field@ == s.key@
    &&& d.category@ == PLUGIN_CATEGORY@
    &&& d.label@ == label_or_key(s.label@, s.key@)
    &&& d.description@ == s.description@
    &&& fits(d.widget, d.validation, s)
    &&& d.web_write == WebWritePolicy::Allow
    &&& !d.profile_overridable
    &&& d.advanced == s.advanced
    &&& owned_json_of(d.default) == owned_json_of(s.default)
}

fn copy_label(label: &String, key: &String) -> (r: String)
    ensures
        r@ == label_or_key(label@, key@),
{
    if is_empty(label.as_str()) {
        key.clone()
    } else {
        label.clone()
    }
}

fn copy_default(o: &Option<Json>) -> (r: Option<Json>)
    ensures
        owned_json_of(r) == owned_json_of(*o),
{
    match o {
        Some(v) => Some(v.clone()),
        None => None,
    }
}

fn choices(values: &Vec<String>) -> (r: Vec<SelectOption>)
    ensures
        plain_choices(r@, texts(values@)),
{
    let mut out: Vec<SelectOption> = Vec::new();
    let mut i: usize = 0;
    while i < values.len()
        invariant
            i <= values@.len(),
            out@.len() == i,
            forall|j: int|
                0 <= j < i ==> (#[trigger] out@[j]).value@ == values@[j]@ && out@[j].label@ == values@[j]@,
        decreases values@.len() - i,
    {
        out.push(SelectOption::new(values[i].as_str(), values[i].as_str()));
        i = i + 1;
    }
    out
}

fn range_rule(min: Option<i64>, max: Option<i64>) -> (r: ValidationKind)
    ensures
        r == integer_rule(min, max),
{
    let low: i64 = match min {
        Some(m) => m,
        None => 0,
    };
    let high: i64 = match max {
        Some(m) => m,
        None => 0,
    };
    if low >= 0 && high >= 0 {
        ValidationKind::RangeU64 {
            min: low as u64,
            max: match max {
                Some(m) => Some(m as u64),
                None => None,
            },
        }
    } else {
        ValidationKind::Unchecked
    }
}

fn source_of(o: Option<OptionSource>) -> (r: OptionSource)
    ensures
        r == source_or_agents(o),
{
    match o {
        Some(s) => s,
        None => OptionSource::AcpAgents,
    }
}

fn text_rule(required: bool) -> (r: ValidationKind)
    ensures
        r == presence_rule(required),
{
    if required {
        ValidationKind::NonEmptyString
    } else {
        ValidationKind::Unchecked
    }
}

/// The descriptor of one declared field of an object-list item.
fn object_field_descriptor(f: &ObjectFieldContribution) -> (r: ObjectFieldDescriptor)
    ensures
        describes_field(r, *f),
{
    let (widget, validation) = match f.value_type {
        ObjectFieldType::Bool => (ObjectFieldWidget::Toggle, ValidationKind::Unchecked),
        ObjectFieldType::String => (
            ObjectFieldWidget::Text { multiline: false, mono: false },
            text_rule(f.required),
        ),
        ObjectFieldType::Integer => (
            ObjectFieldWidget::Number { min: f.min, max: f.max },
            range_rule(f.min, f.max),
        ),
        ObjectFieldType::Select => (
            ObjectFieldWidget::Select { options: choices(&f.options) },
            ValidationKind::OneOf { options: copy_texts(&f.options) },
        ),
        ObjectFieldType::DynamicSelect => (
            ObjectFieldWidget::DynamicSelect {
                source: source_of(f.option_source),
                depends_on: copy_texts(&f.depends_on),
            },
            text_rule(f.required),
        ),
        ObjectFieldType::Cron => (ObjectFieldWidget::Cron, ValidationKind::Cron),
    };
    ObjectFieldDescriptor {
        field: f.key.clone(),
        label: copy_label(&f.label, &f.key),
        description: f.description.clone(),
        required: f.required,
        widget,
        validation,
        default: copy_default(&f.default),
    }
}

fn object_field_descriptors(fs: &Vec<ObjectFieldContribution>) -> (r: Vec<ObjectFieldDescriptor>)
    ensures
        describes_fields(r@, fs@),
{
    let mut out: Vec<ObjectFieldDescriptor> = Vec::new();
    let mut i: usize = 0;
    while i < fs.len()
        invariant
            i <= fs@.len(),
            out@.len() == i,
            forall|j: int| 0 <= j < i ==> describes_field(#[trigger] out@[j], fs@[j]),
        decreases fs@.len() - i,
    {
        out.push(object_field_descriptor(&fs[i]));
        i = i + 1;
    }
    out
}

fn id_field(o: &Option<String>) -> (r: String)
    ensures
        r@ == id_field_of(*o),
{
    match o {
        Some(s) => s.clone(),
        None => "_id".to_owned(),
    }
}

/// The widget and the rule of a declared setting.
fn widget_and_validation(s: &SettingContribution) -> (r: (WidgetKind, ValidationKind))
    ensures
        fits(r.0, r.1, *s),
{
    match s.value_type {
        SettingType::Bool => (WidgetKind::Toggle, ValidationKind::Unchecked),
        SettingType::String => (
            WidgetKind::Text { multiline: false, mono: false },
            ValidationKind::Unchecked,
        ),
        SettingType::Integer => (
            WidgetKind::Number { min: s.min, max: s.max },
            range_rule(s.min, s.max),
        ),
        SettingType::Select => (
            WidgetKind::Select { options: choices(&s.options) },
            ValidationKind::OneOf { options: copy_texts(&s.options) },
        ),
        SettingType::DynamicSelect => (
            WidgetKind::DynamicSelect {
                source: source_of(s.option_source),
                depends_on: copy_texts(&s.depends_on),
            },
            ValidationKind::Unchecked,
        ),
        SettingType::Cron => (WidgetKind::Cron, ValidationKind::Cron),
        SettingType::ObjectList => (
            WidgetKind::ObjectList {
                id_field: id_field(&s.item_id_key),
                fields: object_field_descriptors(&s.fields),
                min_items: s.min_items,
                max_items: s.max_items,
            },
            ValidationKind::ObjectList {
                id_field: id_field(&s.item_id_key),
                fields: object_field_descriptors(&s.fields),
                min_items: s.min_items,
                max_items: s.max_items,
            },
        ),
    }
}

/// The descriptors of the settings that a plugin declares, in order.
pub fn plugin_field_descriptors(plugin_id: &str, settings: &Vec<SettingContribution>) -> (r: Vec<FieldDescriptor>)
    ensures
        r@.len() == settings@.len(),
        forall|i: int| 0 <= i < r@.len() ==> describes(#[trigger] r@[i], plugin_id@, settings@[i]),
{
    let mut out: Vec<FieldDescriptor> = Vec::new();
    let mut i: usize = 0;
    while i < settings.len()
        invariant
            i <= settings@.len(),
            out@.len() == i,
            forall|j: int| 0 <= j < i ==> describes(#[trigger] out@[j], plugin_id@, settings@[j]),
        decreases settings@.len() - i,
    {
        let s = &settings[i];
        let (widget, validation) = widget_and_validation(s);
        let d = FieldDescriptor {
            section: plugin_section_id(plugin_id),
            field: s.key.clone(),
            category: PLUGIN_CATEGORY.to_owned(),
            label: copy_label(&s.label, &s.key),
            description: s.description.clone(),
            widget,
            web_write: WebWritePolicy::Allow,
            profile_overridable: false,
            validation,
            advanced: s.advanced,
            default: copy_default(&s.default),
        };
        assert(describes(d, plugin_id@, settings@[i as int]));
        out.push(d);
        i = i + 1;
    }
    out
}

} // verus!
