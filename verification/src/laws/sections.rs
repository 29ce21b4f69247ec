//! Settings of plugins: where they are stored, and how they are described and checked.

use vstd::prelude::*;

use crate::json::{owned_json_of, Json, JsonV};
use crate::laws::values::law_simple_rules;
use crate::settings::merge::merge_json;
use crate::settings::plugin::{
    law_rewrite_clears, law_rewrite_keeps, law_rewrite_stores, law_storage_round_trips, open_place,
    plugin_field_descriptors, plugin_section_id, rewrite_plugin_sections, section_plugin_id, storage_leaf,
    storage_value, SettingContribution,
};
use crate::settings::schema::{
    FieldDescriptor, ObjectFieldDescriptor, ObjectFieldWidget, OptionSource, ValidationKind, WebWritePolicy,
    WidgetKind,
};
use crate::settings::validate::{validate_cron, validate_value, ValidationError};
use crate::text::begins;

verus! {

/// The section of a plugin is its id behind `plugin:`, and names that plugin; another section names none.
pub proof fn law_sections_name_plugins(id: &str, section: String, s: &str, r: Option<&str>)
    requires
        call_ensures(plugin_section_id, (id,), section),
        call_ensures(section_plugin_id, (s,), r),
    ensures
        section@ == "plugin:"@ + id@,
        s@ == section@ ==> r is Some && r->0@ == id@,
        r is Some ==> s@ == "plugin:"@ + r->0@,
        r is None ==> forall|x: Seq<char>| s@ != #[trigger] ("plugin:"@ + x),
{
    crate::text::lemma_after_prefix("plugin:"@, id@);
    if let Some(x) = r {
        assert(s@ =~= "plugin:"@ + x@);
    } else {
        assert forall|x: Seq<char>| s@ != #[trigger] ("plugin:"@ + x) by {
            crate::text::lemma_after_prefix("plugin:"@, x);
        }
    }
}

/// What stands in a document where a setting of a plugin is stored: under `plugins`, the plugin,
/// `settings` and the field.
pub open spec fn at(v: JsonV, path: Seq<Seq<char>>) -> Option<JsonV>
    decreases path.len(),
{
    if path.len() == 0 {
        Some(v)
    } else {
        match v {
            JsonV::Object(m) => if m.contains_key(path[0]) {
                at(m[path[0]], path.skip(1))
            } else {
                None
            },
            _ => None,
        }
    }
}

proof fn lemma_at(v: JsonV, id: Seq<char>, field: Seq<char>)
    ensures
        at(v, seq!["plugins"@, id, "settings"@, field]) == crate::settings::plugin::stored(v, id, field),
{
    let p = seq!["plugins"@, id, "settings"@, field];
    reveal_with_fuel(at, 5);
    assert(p.skip(1) =~= seq![id, "settings"@, field]);
    assert(p.skip(1).skip(1) =~= seq!["settings"@, field]);
    assert(p.skip(1).skip(1).skip(1) =~= seq![field]);
    assert(p.skip(1).skip(1).skip(1).skip(1) =~= Seq::<Seq<char>>::empty());
}

/// A setting that is written, merged into a document and read back has the value that was written.
pub proof fn law_setting_is_stored_and_read(
    root: &mut Json,
    id: &str,
    field: &str,
    leaf: Json,
    doc: Json,
    over: &Json,
    u: (),
    after: &Json,
    r: Option<&Json>,
)
    requires
        call_ensures(storage_leaf, (id, field, leaf), doc),
        over@ == doc@,
        call_ensures(merge_json, (root, over), u),
        after@ == final(root)@,
        call_ensures(storage_value, (after, id, field), r),
        !(leaf@ is Object),
    ensures
        r is Some,
        r->0@ == leaf@,
        at(after@, seq!["plugins"@, id@, "settings"@, field@]) == Some(leaf@),
{
    law_storage_round_trips(old(root)@, id@, field@, leaf@);
    lemma_at(after@, id@, field@);
}

/// The sections of plugins in a document are moved to where they are stored, value by value; none is left
/// behind, and the other sections stay as they are.
pub proof fn law_sections_are_moved(
    body: &mut Json,
    u: (),
    id: Seq<char>,
    field: Seq<char>,
    value: JsonV,
    other: Seq<char>,
)
    requires
        call_ensures(rewrite_plugin_sections, (body,), u),
        at(old(body)@, seq!["plugin:"@ + id, field]) == Some(value),
        open_place(at(old(body)@, seq!["plugins"@])),
        open_place(at(old(body)@, seq!["plugins"@, id])),
        open_place(at(old(body)@, seq!["plugins"@, id, "settings"@])),
        other != "plugins"@,
        forall|x: Seq<char>| other != #[trigger] ("plugin:"@ + x),
    ensures
        at(final(body)@, seq!["plugins"@, id, "settings"@, field]) == Some(value),
        at(final(body)@, seq!["plugin:"@ + id]) is None,
        at(final(body)@, seq![other]) == at(old(body)@, seq![other]),
{
    let before = old(body)@;
    let m = before->Object_0;
    let key = "plugin:"@ + id;
    reveal_with_fuel(at, 5);
    let p = seq![key, field];
    assert(p.skip(1) =~= seq![field]);
    assert(p.skip(1).skip(1) =~= Seq::<Seq<char>>::empty());
    assert(before is Object);
    let s = m[key]->Object_0;
    let a = seq!["plugins"@];
    assert(a.skip(1) =~= Seq::<Seq<char>>::empty());
    let b = seq!["plugins"@, id];
    assert(b.skip(1) =~= seq![id]);
    assert(b.skip(1).skip(1) =~= Seq::<Seq<char>>::empty());
    let c = seq!["plugins"@, id, "settings"@];
    assert(c.skip(1) =~= seq![id, "settings"@]);
    assert(c.skip(1).skip(1) =~= seq!["settings"@]);
    assert(c.skip(1).skip(1).skip(1) =~= Seq::<Seq<char>>::empty());
    law_rewrite_stores(m, id, s, field);
    lemma_at(final(body)@, id, field);
    crate::text::lemma_after_prefix("plugin:"@, id);
    law_rewrite_clears(m, key);
    let d = seq![key];
    assert(d.skip(1) =~= Seq::<Seq<char>>::empty());
    if begins(other, "plugin:"@) {
        let x = other.skip("plugin:"@.len() as int);
        assert(other =~= "plugin:"@ + x);
    }
    law_rewrite_keeps(m, other);
    let o = seq![other];
    assert(o.skip(1) =~= Seq::<Seq<char>>::empty());
    assert(final(body)@ is Object);
}

/// A declared setting is described as it is declared, in the section of its plugin and on the tab of
/// plugins. Profiles cannot override it.
pub proof fn law_setting_is_described(
    id: &str,
    settings: &Vec<SettingContribution>,
    r: Vec<FieldDescriptor>,
    i: int,
)
    requires
        call_ensures(plugin_field_descriptors, (id, settings), r),
        0 <= i < settings@.len(),
    ensures
        r@.len() == settings@.len(),
        ({
            let d = r@[i];
            let s = settings@[i];
            &&& d.section@ == "plugin:"@ + id@
            &&& d.field@ == s.key@
            &&& d.category@ == "Plugins"@
            &&& s.label@.len() > 0 ==> d.label@ == s.label@
            &&& s.label@.len() == 0 ==> d.label@ == s.key@
            &&& d.description@ == s.description@
            &&& d.web_write == WebWritePolicy::Allow
            &&& !d.profile_overridable
            &&& d.advanced == s.advanced
            &&& owned_json_of(d.default) == owned_json_of(s.default)
            &&& s.value_type is Bool <==> d.widget is Toggle
            &&& s.value_type is String <==> d.widget is Text
            &&& s.value_type is Integer <==> d.widget is Number
            &&& s.value_type is Select <==> d.widget is Select
            &&& s.value_type is DynamicSelect <==> d.widget is DynamicSelect
            &&& s.value_type is Cron <==> d.widget is Cron
            &&& s.value_type is ObjectList <==> d.widget is ObjectList
            &&& d.widget matches WidgetKind::Number { min, max } ==> min == s.min && max == s.max
            &&& d.widget matches WidgetKind::Select { options } ==> options@.len() == s.options@.len() && forall|j: int|
                0 <= j < options@.len() ==> (#[trigger] options@[j]).value@ == s.options@[j]@ && options@[j].label@
                    == s.options@[j]@
            &&& d.widget matches WidgetKind::DynamicSelect { source, depends_on } ==> depends_on@ == s.depends_on@ && (
            s.option_source is Some ==> source == s.option_source->0) && (s.option_source is None ==> source
                == OptionSource::AcpAgents)
            &&& d.widget matches WidgetKind::ObjectList { id_field, fields, min_items, max_items } ==> min_items
                == s.min_items && max_items == s.max_items && fields@.len() == s.fields@.len() && (s.item_id_key is Some
                ==> id_field@ == s.item_id_key->0@) && (s.item_id_key is None ==> id_field@ == "_id"@)
        }),
{
    let d = r@[i];
    assert(crate::settings::plugin::describes(d, id@, settings@[i]));
}

/// A value of a declared setting is accepted by what was declared: an integer within its bounds, a choice
/// among its options, a schedule where it is one, and anything for the rest.
pub proof fn law_setting_is_checked_as_declared(
    id: &str,
    settings: &Vec<SettingContribution>,
    r: Vec<FieldDescriptor>,
    i: int,
    kind: &ValidationKind,
    value: &Json,
    t: &str,
    cron: Result<(), String>,
    v: Result<(), ValidationError>,
)
    requires
        call_ensures(plugin_field_descriptors, (id, settings), r),
        0 <= i < settings@.len(),
        *kind == r@[i].validation,
        value@ matches JsonV::Text(s) ==> t@ == s,
        call_ensures(validate_cron, (t,), cron),
        call_ensures(validate_value, (kind, value), v),
    ensures
        ({
            let s = settings@[i];
            &&& s.value_type is Bool || s.value_type is String || s.value_type is DynamicSelect ==> v is Ok
            &&& s.value_type is Integer && (s.min is None || s.min->0 >= 0) && (s.max is None || s.max->0 >= 0) ==> (v
                is Ok <==> (value@ matches JsonV::Unsigned(n) && (s.min is None || s.min->0 <= n) && (s.max is None || n
                <= s.max->0)))
            &&& s.value_type is Select ==> (v is Ok <==> (value@ matches JsonV::Text(x) && exists|j: int|
                0 <= j < s.options@.len() && (#[trigger] s.options@[j])@ == x))
            &&& s.value_type is Cron ==> (v is Ok <==> value@ is Text && cron is Ok)
        }),
{
    let d = r@[i];
    assert(crate::settings::plugin::describes(d, id@, settings@[i]));
    law_simple_rules(kind, value, v);
}

/// The fields of the items of a declared list are described as they are declared, in order, both for
/// editing and for checking; a text that is required must not be empty.
pub proof fn law_item_fields_are_described(
    id: &str,
    settings: &Vec<SettingContribution>,
    r: Vec<FieldDescriptor>,
    i: int,
    fields: Seq<ObjectFieldDescriptor>,
    j: int,
)
    requires
        call_ensures(plugin_field_descriptors, (id, settings), r),
        0 <= i < settings@.len(),
        settings@[i].value_type is ObjectList,
        fields == r@[i].validation->fields@ || fields == r@[i].widget->fields@,
        0 <= j < settings@[i].fields@.len(),
    ensures
        r@[i].validation is ObjectList,
        r@[i].validation->min_items == settings@[i].min_items,
        r@[i].validation->max_items == settings@[i].max_items,
        fields.len() == settings@[i].fields@.len(),
        ({
            let d = fields[j];
            let f = settings@[i].fields@[j];
            &&& d.field@ == f.key@
            &&& f.label@.len() > 0 ==> d.label@ == f.label@
            &&& f.label@.len() == 0 ==> d.label@ == f.key@
            &&& d.required == f.required
            &&& owned_json_of(d.default) == owned_json_of(f.default)
            &&& f.value_type is Cron <==> d.widget is Cron
            &&& f.value_type is Cron ==> d.validation is Cron
            &&& f.value_type is Select ==> (d.validation matches ValidationKind::OneOf { options } && options@
                == f.options@)
            &&& f.value_type is String || f.value_type is DynamicSelect ==> (d.validation is NonEmptyString <==> f.required)
            &&& f.value_type is Bool ==> d.validation is Unchecked && d.widget is Toggle
            &&& f.value_type is Integer ==> d.widget == (ObjectFieldWidget::Number { min: f.min, max: f.max })
            &&& f.value_type is Integer && f.min is Some && f.min->0 >= 0 && f.max is Some && f.max->0 >= 0
                ==> d.validation == (ValidationKind::RangeU64 { min: f.min->0 as u64, max: Some(f.max->0 as u64) })
        }),
{
    let d = r@[i];
    assert(crate::settings::plugin::describes(d, id@, settings@[i]));
    assert(crate::settings::plugin::describes_fields(fields, settings@[i].fields@));
    assert(crate::settings::plugin::describes_field(fields[j], settings@[i].fields@[j]));
}

} // verus!
