//! The values of settings rows, read from JSON and written to it.

use vstd::prelude::*;

use crate::json::{
    array_view, key_list, lemma_array_view, lists_keys, json_of, json_read, json_written, json_written_pretty,
    read_json, read_result, text_or_null, writable, write_json, write_json_pretty, Json, JsonMap, JsonV,
};
use crate::order::{indices, sort_order, sorted_order, sorted_texts};
use crate::profile_config::outcome;
use crate::settings::schema::{SelectOption, ValidationKind, WidgetKind};
use crate::settings::validate::{validate_value, value_check};
use crate::text::{
    blank, copy_texts, cut, decimal, index_in, is_empty, join3, lemma_texts_push, position, same, show, split_once,
    text_of, texts, trim, trimmed, white,
};

verus! {

broadcast use {lemma_array_view, lemma_texts_push};

/// The value of a settings row.
#[derive(Debug, Clone)]
pub enum FieldValue {
    Bool(bool),
    Text(String),
    Number(u64),
    Select { selected: usize, options: Vec<String> },
    List(Vec<String>),
    OptionalText(Option<String>),
    SectionHeader,
}

/// What the value of a row stands for.
pub enum FieldV {
    Bool(bool),
    Text(Seq<char>),
    Number(u64),
    Select { selected: usize, options: Seq<Seq<char>> },
    List(Seq<Seq<char>>),
    OptionalText(Option<Seq<char>>),
    SectionHeader,
}

impl FieldValue {
    pub open spec fn view(&self) -> FieldV {
        match *self {
            FieldValue::Bool(b) => FieldV::Bool(b),
            FieldValue::Text(s) => FieldV::Text(s@),
            FieldValue::Number(n) => FieldV::Number(n),
            FieldValue::Select { selected, options } => FieldV::Select { selected, options: texts(options@) },
            FieldValue::List(items) => FieldV::List(texts(items@)),
            FieldValue::OptionalText(o) => FieldV::OptionalText(text_of(o)),
            FieldValue::SectionHeader => FieldV::SectionHeader,
        }
    }
}

/// The choices that the host offers, and how it writes those that are no plain texts.
#[derive(Debug)]
pub struct HostChoices {
    pub themes: Vec<String>,
    pub agent_names: Vec<String>,
    pub oneshot_agents: Vec<String>,
    pub random_sound: Json,
    pub specific_sound: Json,
    pub volume_labels: Vec<String>,
    pub volume_values: Vec<Json>,
    pub logging_targets: Vec<String>,
}

/// How the host reads the sound settings of a document: whether a specific sound is chosen, and
/// which of the volumes is nearest.
#[derive(Debug, Clone, Copy)]
pub struct SoundChoice {
    pub specific: bool,
    pub volume: usize,
}

/// The option at an index; the empty text where there is none.
pub open spec fn option_at(options: Seq<Seq<char>>, i: int) -> Seq<char> {
    if 0 <= i < options.len() {
        options[i]
    } else {
        Seq::empty()
    }
}

/// The option at an index; the empty text where there is none.
pub fn chosen(options: &Vec<String>, i: usize) -> (r: String)
    ensures
        r@ == option_at(texts(options@), i as int),
{
    if i < options.len() {
        options[i].clone()
    } else {
        blank()
    }
}

/// How a value is shown.
pub open spec fn shown_value(v: FieldV) -> Seq<char> {
    match v {
        FieldV::Bool(b) => if b {
            "on"@
        } else {
            "off"@
        },
        FieldV::Text(s) => if s.len() == 0 {
            "(empty)"@
        } else {
            s
        },
        FieldV::Number(n) => decimal(n as nat),
        FieldV::Select { selected, options } => option_at(options, selected as int),
        FieldV::List(items) => "["@ + decimal(items.len()) + " items]"@,
        FieldV::OptionalText(o) => match o {
            Some(s) => s,
            None => "(empty)"@,
        },
        FieldV::SectionHeader => Seq::empty(),
    }
}

/// Shows a value as text.
pub fn value_display_string(value: &FieldValue) -> (r: String)
    ensures
        r@ == shown_value(value@),
{
    match value {
        FieldValue::Bool(b) => if *b {
            "on".to_owned()
        } else {
            "off".to_owned()
        },
        FieldValue::Text(s) => if is_empty(s.as_str()) {
            "(empty)".to_owned()
        } else {
            s.clone()
        },
        FieldValue::Number(n) => show(*n),
        FieldValue::Select { selected, options } => chosen(options, *selected),
        FieldValue::List(items) => join3("[", show(items.len() as u64).as_str(), " items]"),
        FieldValue::OptionalText(o) => match o {
            Some(s) => s.clone(),
            None => "(empty)".to_owned(),
        },
        FieldValue::SectionHeader => blank(),
    }
}

/// A list of texts as a JSON array.
pub open spec fn text_array(s: Seq<Seq<char>>) -> JsonV {
    JsonV::Array(Seq::new(s.len(), |i: int| JsonV::Text(s[i])))
}

/// A list of strings as a JSON array.
pub fn list_to_json(items: &Vec<String>) -> (r: Json)
    ensures
        r@ == text_array(texts(items@)),
{
    let mut out: Vec<Json> = Vec::new();
    let mut i: usize = 0;
    while i < items.len()
        invariant
            i <= items@.len(),
            out@.len() == i,
            forall|j: int| 0 <= j < i ==> (#[trigger] out@[j])@ == JsonV::Text(items@[j]@),
        decreases items@.len() - i,
    {
        out.push(Json::Text(items[i].clone()));
        i = i + 1;
    }
    assert(array_view(out@) =~= Seq::new(texts(items@).len(), |i: int| JsonV::Text(texts(items@)[i])));
    Json::Array(out)
}

/// The JSON that a value is validated as: of a select its label.
pub open spec fn validated_as(v: FieldV) -> JsonV {
    match v {
        FieldV::Bool(b) => JsonV::Bool(b),
        FieldV::Text(s) => JsonV::Text(s),
        FieldV::Number(n) => JsonV::Unsigned(n),
        FieldV::OptionalText(o) => text_or_null(o),
        FieldV::Select { selected, options } => JsonV::Text(option_at(options, selected as int)),
        FieldV::List(items) => text_array(items),
        FieldV::SectionHeader => JsonV::Null,
    }
}

/// The JSON that a value is validated as.
fn field_value_to_json_for_validation(value: &FieldValue) -> (r: Json)
    ensures
        r@ == validated_as(value@),
{
    match value {
        FieldValue::Bool(b) => Json::Bool(*b),
        FieldValue::Text(s) => Json::Text(s.clone()),
        FieldValue::Number(n) => Json::Unsigned(*n),
        FieldValue::OptionalText(o) => match o {
            Some(s) => Json::Text(s.clone()),
            None => Json::Null,
        },
        FieldValue::Select { selected, options } => Json::Text(chosen(options, *selected)),
        FieldValue::List(items) => list_to_json(items),
        FieldValue::SectionHeader => Json::Null,
    }
}

/// How the value of a row is checked: a cleared value passes, any other by the rule.
pub open spec fn field_check(kind: ValidationKind, v: FieldV) -> Result<(), Seq<char>> {
    if validated_as(v) is Null {
        Ok(())
    } else {
        value_check(kind, validated_as(v))
    }
}

/// Checks the value of a row by the rule of its field.
pub fn validate_field_value(kind: &ValidationKind, value: &FieldValue) -> (r: Result<(), String>)
    ensures
        outcome(r) == field_check(*kind, value@),
{
    let json = field_value_to_json_for_validation(value);
    if json.is_null() {
        return Ok(());
    }
    match validate_value(kind, &json) {
        Ok(_) => Ok(()),
        Err(e) => Err(e.reason),
    }
}

/// The object that `key=value` lines write. A later line wins over an earlier one, and a line
/// without an equals sign is passed over.
pub open spec fn key_values(items: Seq<Seq<char>>) -> Map<Seq<char>, JsonV>
    decreases items.len(),
{
    if items.len() == 0 {
        Map::empty()
    } else {
        match cut(items.last(), '=') {
            Some((k, v)) => key_values(items.drop_last()).insert(k, JsonV::Text(v)),
            None => key_values(items.drop_last()),
        }
    }
}

/// The object that `key=value` lines write.
pub fn parse_key_value_object(items: &Vec<String>) -> (r: Json)
    ensures
        r@ == JsonV::Object(key_values(texts(items@))),
{
    let mut map = JsonMap::new();
    let mut i: usize = 0;
    while i < items.len()
        invariant
            i <= items@.len(),
            map@ == key_values(texts(items@).take(i as int)),
        decreases items@.len() - i,
    {
        assert(texts(items@).take(i + 1).drop_last() =~= texts(items@).take(i as int));
        assert(texts(items@).take(i + 1).last() == items@[i as int]@);
        if let Some((k, v)) = split_once(items[i].as_str(), '=') {
            map.insert(k, Json::Text(v));
        }
        i = i + 1;
    }
    assert(texts(items@).take(i as int) =~= texts(items@));
    Json::Object(map)
}

/// Whether a field holds a map although it is edited as a list.
pub open spec fn map_list(section: Seq<char>, field: Seq<char>) -> bool {
    section == "session"@ && (field == "agent_extra_args"@ || field == "agent_command_override"@ || field
        == "custom_agents"@ || field == "agent_detect_as"@ || field == "agent_acp_cmd"@)
}

/// Whether a field holds a map although it is edited as a list.
pub fn is_map_list(section: &str, field: &str) -> (r: bool)
    ensures
        r == map_list(section@, field@),
{
    same(section, "session") && (same(field, "agent_extra_args") || same(field, "agent_command_override") || same(
        field,
        "custom_agents",
    ) || same(field, "agent_detect_as") || same(field, "agent_acp_cmd"))
}

/// A text as it is; the empty text for any other value.
pub open spec fn text_or_empty(v: JsonV) -> Seq<char> {
    match v {
        JsonV::Text(s) => s,
        _ => Seq::empty(),
    }
}

/// A text as it is; the empty string for any other value.
pub fn string_or_empty(v: &Json) -> (r: String)
    ensures
        r@ == text_or_empty(v@),
{
    match v.as_str() {
        Some(s) => s.to_owned(),
        None => blank(),
    }
}

/// The `key=value` lines of an object, in the order of its keys.
pub open spec fn key_value_lines(m: Map<Seq<char>, JsonV>) -> Seq<Seq<char>> {
    Seq::new(key_list(m).len(), |i: int| key_list(m)[i] + "="@ + text_or_empty(m[key_list(m)[i]]))
}

/// The lines that a value is edited as in a list: sorted `key=value` lines of an object, the
/// texts of an array, nothing else.
pub open spec fn list_lines(v: JsonV) -> Seq<Seq<char>> {
    match v {
        JsonV::Object(m) => sorted_texts(key_value_lines(m)),
        JsonV::Array(s) => Seq::new(s.len(), |i: int| text_or_empty(s[i])),
        _ => Seq::empty(),
    }
}

/// A list of strings in ascending order.
pub fn sort_texts(v: &Vec<String>) -> (r: Vec<String>)
    ensures
        texts(r@) == sorted_texts(texts(v@)),
{
    let order = sort_order(v);
    let ghost o = sorted_order(texts(v@), v@.len());
    let mut out: Vec<String> = Vec::new();
    let mut i: usize = 0;
    while i < order.len()
        invariant
            i <= order@.len(),
            out@.len() == i,
            o == indices(order@),
            forall|k: int| 0 <= k < order@.len() ==> (#[trigger] order@[k]) < v@.len(),
            forall|j: int| 0 <= j < i ==> (#[trigger] out@[j])@ == texts(v@)[o[j]],
        decreases order@.len() - i,
    {
        assert(o[i as int] == order@[i as int]);
        out.push(v[order[i]].clone());
        i = i + 1;
    }
    assert(texts(out@) =~= sorted_texts(texts(v@)));
    out
}

/// The lines that a value is edited as in a list.
pub fn json_to_list(current: &Json) -> (r: Vec<String>)
    ensures
        texts(r@) == list_lines(current@),
{
    match current {
        Json::Object(m) => {
            let keys = m.keys();
            let ghost ks = key_list(m@);
            let mut lines: Vec<String> = Vec::new();
            let mut i: usize = 0;
            while i < keys.len()
                invariant
                    i <= keys@.len(),
                    ks == texts(keys@),
                    ks == key_list(m@),
                    lists_keys(ks, m@),
                    lines@.len() == i,
                    forall|j: int| 0 <= j < i ==> (#[trigger] lines@[j])@ == key_value_lines(m@)[j],
                decreases keys@.len() - i,
            {
                assert(ks[i as int] == keys@[i as int]@);
                assert(ks.contains(ks[i as int]));
                let value = match m.get(keys[i].as_str()) {
                    Some(v) => string_or_empty(v),
                    None => String::new(),
                };
                lines.push(join3(keys[i].as_str(), "=", value.as_str()));
                i = i + 1;
            }
            assert(texts(lines@) =~= key_value_lines(m@));
            sort_texts(&lines)
        },
        Json::Array(items) => {
            let mut out: Vec<String> = Vec::new();
            let mut i: usize = 0;
            while i < items.len()
                invariant
                    i <= items@.len(),
                    out@.len() == i,
                    forall|j: int| 0 <= j < i ==> (#[trigger] out@[j])@ == text_or_empty(items@[j]@),
                decreases items@.len() - i,
            {
                out.push(string_or_empty(&items[i]));
                i = i + 1;
            }
            let ghost views = array_view(items@);
            assert(current@ == JsonV::Array(views));
            assert(forall|j: int| 0 <= j < views.len() ==> #[trigger] views[j] == items@[j]@);
            assert(texts(out@) =~= Seq::new(views.len(), |i: int| text_or_empty(views[i])));
            out
        },
        _ => {
            let out: Vec<String> = Vec::new();
            assert(texts(out@) =~= Seq::<Seq<char>>::empty());
            out
        },
    }
}

/// The labels of the choices of a select.
pub open spec fn labels_of(options: Seq<SelectOption>) -> Seq<Seq<char>> {
    Seq::new(options.len(), |i: int| options[i].label@)
}

/// The values of the choices of a select.
pub open spec fn values_of(options: Seq<SelectOption>) -> Seq<Seq<char>> {
    Seq::new(options.len(), |i: int| options[i].value@)
}

/// The index of a text in a list; the first index where it is not in it.
pub open spec fn index_or_first(s: Seq<Seq<char>>, x: Seq<char>) -> usize {
    match index_in(s, x) {
        Some(i) => i as usize,
        None => 0,
    }
}

/// The index of a choice behind a leading one that stands for "none of these".
pub open spec fn index_behind(s: Seq<Seq<char>>, x: Seq<char>) -> usize {
    match index_in(s, x) {
        Some(i) => (i + 1) as usize,
        None => 0,
    }
}

/// A text that stands before a list of others.
pub open spec fn led_by(first: Seq<char>, rest: Seq<Seq<char>>) -> Seq<Seq<char>> {
    seq![first] + rest
}

fn with_lead(first: &str, rest: &Vec<String>) -> (r: Vec<String>)
    ensures
        texts(r@) == led_by(first@, texts(rest@)),
{
    let mut out: Vec<String> = Vec::new();
    out.push(first.to_owned());
    let mut i: usize = 0;
    while i < rest.len()
        invariant
            i <= rest@.len(),
            out@.len() == i + 1,
            out@[0]@ == first@,
            forall|j: int| 0 <= j < i ==> (#[trigger] out@[j + 1])@ == rest@[j]@,
        decreases rest@.len() - i,
    {
        out.push(rest[i].clone());
        i = i + 1;
    }
    assert forall|k: int| 0 <= k < out@.len() implies #[trigger] texts(out@)[k] == led_by(
        first@,
        texts(rest@),
    )[k] by {
        if k > 0 {
            assert(out@[k - 1 + 1]@ == rest@[k - 1]@);
        }
    }
    assert(texts(out@) =~= led_by(first@, texts(rest@)));
    out
}

/// The value that a field with a widget of its own shows for a JSON value.
pub open spec fn custom_value(id: Seq<char>, v: JsonV, host: HostChoices, sound: SoundChoice) -> FieldV {
    let text = text_or_empty(v);
    if id == "theme-name"@ {
        FieldV::Select { selected: index_or_first(texts(host.themes@), text), options: texts(host.themes@) }
    } else if id == "default-tool"@ {
        FieldV::Select {
            selected: if v is Text {
                index_behind(texts(host.agent_names@), text)
            } else {
                0
            },
            options: led_by("Auto (first available)"@, texts(host.agent_names@)),
        }
    } else if id == "smart-rename-agent"@ {
        FieldV::Select {
            selected: if trimmed(text).len() == 0 {
                0
            } else {
                index_behind(texts(host.oneshot_agents@), trimmed(text))
            },
            options: led_by("Same as session"@, texts(host.oneshot_agents@)),
        }
    } else if id == "sound-mode"@ {
        FieldV::Select {
            selected: if sound.specific {
                1
            } else {
                0
            },
            options: seq!["Random"@, "Specific"@],
        }
    } else if id == "sound-volume"@ {
        FieldV::Select { selected: sound.volume, options: texts(host.volume_labels@) }
    } else if id == "acp-defaults"@ {
        FieldV::Text(
            if v is Null {
                "{}"@
            } else {
                json_written(v)
            },
        )
    } else {
        FieldV::Text(Seq::empty())
    }
}

fn two_texts(a: &str, b: &str) -> (r: Vec<String>)
    ensures
        texts(r@) == seq![a@, b@],
{
    let mut out: Vec<String> = Vec::new();
    out.push(a.to_owned());
    out.push(b.to_owned());
    assert(texts(out@) =~= seq![a@, b@]);
    out
}

fn position_or_first(v: &Vec<String>, x: &str) -> (r: usize)
    ensures
        r == index_or_first(texts(v@), x@),
{
    match position(v, x) {
        Some(i) => i,
        None => 0,
    }
}

fn position_behind(v: &Vec<String>, x: &str) -> (r: usize)
    ensures
        r == index_behind(texts(v@), x@),
{
    match position(v, x) {
        Some(i) => {
            let n: usize = v.len();
            assert(i < n);
            i + 1
        },
        None => 0,
    }
}

proof fn lemma_custom_names_differ()
    ensures
        "acp-defaults"@ != "theme-name"@,
        "acp-defaults"@ != "default-tool"@,
        "acp-defaults"@ != "smart-rename-agent"@,
        "acp-defaults"@ != "sound-mode"@,
        "acp-defaults"@ != "sound-volume"@,
{
    reveal_strlit("acp-defaults");
    reveal_strlit("theme-name");
    reveal_strlit("default-tool");
    reveal_strlit("smart-rename-agent");
    reveal_strlit("sound-mode");
    reveal_strlit("sound-volume");
    assert("acp-defaults"@[0] == 'a');
    assert("theme-name"@[0] == 't' && "default-tool"@[0] == 'd' && "smart-rename-agent"@[0] == 's' && "sound-mode"@[0]
        == 's' && "sound-volume"@[0] == 's');
}

/// The value that a field with a widget of its own shows for a JSON value.
pub fn custom_value_from_json(id: &str, current: &Json, host: &HostChoices, sound: &SoundChoice) -> (r: FieldValue)
    ensures
        r@ == custom_value(id@, current@, *host, *sound),
        id@ == "acp-defaults"@ && current@ is Object && writable(current@) ==> custom_json(id@, r@, *host)
            == current@,
{
    proof {
        lemma_custom_names_differ();
    }
    let text = string_or_empty(current);
    if same(id, "theme-name") {
        FieldValue::Select {
            selected: position_or_first(&host.themes, text.as_str()),
            options: copy_texts(&host.themes),
        }
    } else if same(id, "default-tool") {
        let selected: usize = match current.as_str() {
            Some(name) => position_behind(&host.agent_names, name),
            None => 0,
        };
        FieldValue::Select { selected, options: with_lead("Auto (first available)", &host.agent_names) }
    } else if same(id, "smart-rename-agent") {
        let name = trim(text.as_str());
        let selected: usize = if is_empty(name.as_str()) {
            0
        } else {
            position_behind(&host.oneshot_agents, name.as_str())
        };
        FieldValue::Select { selected, options: with_lead("Same as session", &host.oneshot_agents) }
    } else if same(id, "sound-mode") {
        let selected: usize = if sound.specific {
            1
        } else {
            0
        };
        FieldValue::Select { selected, options: two_texts("Random", "Specific") }
    } else if same(id, "sound-volume") {
        FieldValue::Select { selected: sound.volume, options: copy_texts(&host.volume_labels) }
    } else if same(id, "acp-defaults") {
        if current.is_null() {
            FieldValue::Text("{}".to_owned())
        } else {
            let text = write_json(current);
            assert(current@ is Object ==> trimmed(text@) == text@) by {
                if current@ is Object {
                    assert(!white('{') && !white('}'));
                }
            }
            FieldValue::Text(text)
        }
    } else {
        FieldValue::Text(blank())
    }
}

/// A value that may be missing, as `null` where it is.
pub open spec fn or_null(o: Option<JsonV>) -> JsonV {
    match o {
        Some(v) => v,
        None => JsonV::Null,
    }
}

/// The value that a field shows for its JSON.
pub open spec fn field_value(w: WidgetKind, v: JsonV, host: HostChoices, sound: SoundChoice) -> FieldV {
    match w {
        WidgetKind::Toggle => FieldV::Bool(v == JsonV::Bool(true)),
        WidgetKind::OptionalText { .. } => FieldV::OptionalText(
            match v {
                JsonV::Text(s) => Some(s),
                _ => None,
            },
        ),
        WidgetKind::Number { .. } | WidgetKind::Slider { .. } => FieldV::Number(
            match v {
                JsonV::Unsigned(n) => n,
                _ => 0,
            },
        ),
        WidgetKind::Select { options } => FieldV::Select {
            selected: if v is Text {
                index_or_first(values_of(options@), text_or_empty(v))
            } else {
                0
            },
            options: labels_of(options@),
        },
        WidgetKind::List => FieldV::List(list_lines(v)),
        WidgetKind::Text { .. } | WidgetKind::DynamicSelect { .. } | WidgetKind::Cron => FieldV::Text(
            text_or_empty(v),
        ),
        WidgetKind::ObjectList { .. } => FieldV::Text(
            if v is Null {
                "[]"@
            } else {
                json_written_pretty(v)
            },
        ),
        WidgetKind::Custom { id } => custom_value(id@, v, host, sound),
    }
}

fn option_labels(options: &Vec<SelectOption>) -> (r: Vec<String>)
    ensures
        texts(r@) == labels_of(options@),
{
    let mut out: Vec<String> = Vec::new();
    let mut i: usize = 0;
    while i < options.len()
        invariant
            i <= options@.len(),
            out@.len() == i,
            forall|j: int| 0 <= j < i ==> (#[trigger] out@[j])@ == options@[j].label@,
        decreases options@.len() - i,
    {
        out.push(options[i].label.clone());
        i = i + 1;
    }
    assert(texts(out@) =~= labels_of(options@));
    out
}

fn option_values(options: &Vec<SelectOption>) -> (r: Vec<String>)
    ensures
        texts(r@) == values_of(options@),
{
    let mut out: Vec<String> = Vec::new();
    let mut i: usize = 0;
    while i < options.len()
        invariant
            i <= options@.len(),
            out@.len() == i,
            forall|j: int| 0 <= j < i ==> (#[trigger] out@[j])@ == options@[j].value@,
        decreases options@.len() - i,
    {
        out.push(options[i].value.clone());
        i = i + 1;
    }
    assert(texts(out@) =~= values_of(options@));
    out
}

/// The value that a field shows for its JSON.
pub fn value_from_json(w: &WidgetKind, current: Option<&Json>, host: &HostChoices, sound: &SoundChoice) -> (r:
    FieldValue)
    ensures
        r@ == field_value(*w, or_null(json_of(current)), *host, *sound),
        *w is ObjectList && current is Some && !(current->0@ is Null) && writable(current->0@) ==> (r@ matches FieldV::Text(
            s,
        ) && read_or_null(s) == current->0@),
{
    let null = Json::Null;
    let v = match current {
        Some(v) => v,
        None => &null,
    };
    match w {
        WidgetKind::Toggle => match v.as_bool() {
            Some(b) => FieldValue::Bool(b),
            None => FieldValue::Bool(false),
        },
        WidgetKind::OptionalText { .. } => match v.as_str() {
            Some(s) => FieldValue::OptionalText(Some(s.to_owned())),
            None => FieldValue::OptionalText(None),
        },
        WidgetKind::Number { .. } | WidgetKind::Slider { .. } => match v.as_u64() {
            Some(n) => FieldValue::Number(n),
            None => FieldValue::Number(0),
        },
        WidgetKind::Select { options } => {
            let selected: usize = match v.as_str() {
                Some(s) => position_or_first(&option_values(options), s),
                None => 0,
            };
            FieldValue::Select { selected, options: option_labels(options) }
        },
        WidgetKind::List => FieldValue::List(json_to_list(v)),
        WidgetKind::Text { .. } | WidgetKind::DynamicSelect { .. } | WidgetKind::Cron => FieldValue::Text(
            string_or_empty(v),
        ),
        WidgetKind::ObjectList { .. } => if v.is_null() {
            FieldValue::Text("[]".to_owned())
        } else {
            FieldValue::Text(write_json_pretty(v))
        },
        WidgetKind::Custom { id } => custom_value_from_json(id.as_str(), v, host, sound),
    }
}

/// The JSON value of the volume with a label; `null` where there is none.
pub open spec fn volume_value(host: HostChoices, label: Seq<char>) -> JsonV {
    match index_in(texts(host.volume_labels@), label) {
        Some(i) => if i < host.volume_values@.len() {
            host.volume_values@[i]@
        } else {
            JsonV::Null
        },
        None => JsonV::Null,
    }
}

/// The object that a text writes; an empty one where it writes none.
pub open spec fn object_or_empty(s: Seq<char>) -> JsonV {
    match json_read(s) {
        Ok(JsonV::Object(m)) => JsonV::Object(m),
        _ => JsonV::Object(Map::empty()),
    }
}

/// The JSON that a field with a widget of its own writes.
pub open spec fn custom_json(id: Seq<char>, v: FieldV, host: HostChoices) -> JsonV {
    match v {
        FieldV::Select { selected, options } => if id == "theme-name"@ {
            JsonV::Text(option_at(options, selected as int))
        } else if id == "default-tool"@ {
            if 0 < selected <= host.agent_names@.len() {
                JsonV::Text(host.agent_names@[selected - 1]@)
            } else {
                JsonV::Null
            }
        } else if id == "smart-rename-agent"@ {
            if selected == 0 {
                JsonV::Text(""@)
            } else {
                JsonV::Text(option_at(options, selected as int))
            }
        } else if id == "sound-mode"@ {
            if selected == 1 {
                host.specific_sound@
            } else {
                host.random_sound@
            }
        } else if id == "sound-volume"@ {
            if selected < options.len() {
                volume_value(host, options[selected as int])
            } else {
                JsonV::Null
            }
        } else {
            JsonV::Null
        },
        FieldV::Text(s) => if id == "acp-defaults"@ {
            if trimmed(s).len() == 0 || trimmed(s) == "{}"@ {
                JsonV::Object(Map::empty())
            } else {
                object_or_empty(trimmed(s))
            }
        } else {
            JsonV::Null
        },
        _ => JsonV::Null,
    }
}

fn read_object(text: &str) -> (r: Json)
    ensures
        r@ == object_or_empty(text@),
{
    let read = read_json(text);
    assert(read_result(read) == json_read(text@));
    match read {
        Ok(v) => match v {
            Json::Object(m) => Json::Object(m),
            _ => Json::Object(JsonMap::new()),
        },
        Err(_) => Json::Object(JsonMap::new()),
    }
}

/// The JSON that a field with a widget of its own writes.
pub fn custom_value_to_json(id: &str, value: &FieldValue, host: &HostChoices) -> (r: Json)
    ensures
        r@ == custom_json(id@, value@, *host),
{
    match value {
        FieldValue::Select { selected, options } => {
            let selected: usize = *selected;
            if same(id, "theme-name") {
                Json::Text(chosen(options, selected))
            } else if same(id, "default-tool") {
                if 0 < selected && selected <= host.agent_names.len() {
                    Json::Text(host.agent_names[selected - 1].clone())
                } else {
                    Json::Null
                }
            } else if same(id, "smart-rename-agent") {
                if selected == 0 {
                    Json::Text("".to_owned())
                } else {
                    Json::Text(chosen(options, selected))
                }
            } else if same(id, "sound-mode") {
                if selected == 1 {
                    host.specific_sound.clone()
                } else {
                    host.random_sound.clone()
                }
            } else if same(id, "sound-volume") {
                if selected < options.len() {
                    match position(&host.volume_labels, options[selected].as_str()) {
                        Some(i) => if i < host.volume_values.len() {
                            host.volume_values[i].clone()
                        } else {
                            Json::Null
                        },
                        None => Json::Null,
                    }
                } else {
                    Json::Null
                }
            } else {
                Json::Null
            }
        },
        FieldValue::Text(s) => {
            if same(id, "acp-defaults") {
                let t = trim(s.as_str());
                if is_empty(t.as_str()) || same(t.as_str(), "{}") {
                    Json::Object(JsonMap::new())
                } else {
                    read_object(t.as_str())
                }
            } else {
                Json::Null
            }
        },
        _ => Json::Null,
    }
}

/// The value that a text writes; `null` where it writes none.
pub open spec fn read_or_null(s: Seq<char>) -> JsonV {
    match json_read(s) {
        Ok(v) => v,
        Err(_) => JsonV::Null,
    }
}

/// The JSON that a field of the schema writes.
pub open spec fn schema_json(
    w: WidgetKind,
    section: Seq<char>,
    field: Seq<char>,
    v: FieldV,
    host: HostChoices,
) -> JsonV {
    match (w, v) {
        (WidgetKind::Toggle, FieldV::Bool(b)) => JsonV::Bool(b),
        (WidgetKind::Text { .. }, FieldV::Text(s)) => JsonV::Text(s),
        (WidgetKind::OptionalText { .. }, FieldV::OptionalText(o)) => text_or_null(o),
        (WidgetKind::Number { .. }, FieldV::Number(n)) => JsonV::Unsigned(n),
        (WidgetKind::Slider { .. }, FieldV::Number(n)) => JsonV::Unsigned(n),
        (WidgetKind::Select { options }, FieldV::Select { selected, .. }) => if selected < options@.len() {
            JsonV::Text(options@[selected as int].value@)
        } else {
            JsonV::Null
        },
        (WidgetKind::List, FieldV::List(items)) => if map_list(section, field) {
            JsonV::Object(key_values(items))
        } else {
            text_array(items)
        },
        (WidgetKind::DynamicSelect { .. }, FieldV::Text(s)) => JsonV::Text(s),
        (WidgetKind::Cron, FieldV::Text(s)) => JsonV::Text(s),
        (WidgetKind::ObjectList { .. }, FieldV::Text(s)) => read_or_null(s),
        (WidgetKind::Custom { id }, v) => custom_json(id@, v, host),
        _ => JsonV::Null,
    }
}

/// The JSON that a field of the schema writes.
pub fn schema_value_to_json(
    w: &WidgetKind,
    section: &str,
    field: &str,
    value: &FieldValue,
    host: &HostChoices,
) -> (r: Json)
    ensures
        r@ == schema_json(*w, section@, field@, value@, *host),
{
    match (w, value) {
        (WidgetKind::Toggle, FieldValue::Bool(b)) => Json::Bool(*b),
        (WidgetKind::Text { .. }, FieldValue::Text(s)) => Json::Text(s.clone()),
        (WidgetKind::OptionalText { .. }, FieldValue::OptionalText(o)) => match o {
            Some(s) => Json::Text(s.clone()),
            None => Json::Null,
        },
        (WidgetKind::Number { .. }, FieldValue::Number(n)) => Json::Unsigned(*n),
        (WidgetKind::Slider { .. }, FieldValue::Number(n)) => Json::Unsigned(*n),
        (WidgetKind::Select { options }, FieldValue::Select { selected, .. }) => {
            if *selected < options.len() {
                Json::Text(options[*selected].value.clone())
            } else {
                Json::Null
            }
        },
        (WidgetKind::List, FieldValue::List(items)) => {
            if is_map_list(section, field) {
                parse_key_value_object(items)
            } else {
                list_to_json(items)
            }
        },
        (WidgetKind::DynamicSelect { .. }, FieldValue::Text(s)) => Json::Text(s.clone()),
        (WidgetKind::Cron, FieldValue::Text(s)) => Json::Text(s.clone()),
        (WidgetKind::ObjectList { .. }, FieldValue::Text(s)) => {
            let read = read_json(s.as_str());
            assert(read_result(read) == json_read(s@));
            match read {
                Ok(v) => v,
                Err(_) => Json::Null,
            }
        },
        (WidgetKind::Custom { id }, v) => custom_value_to_json(id.as_str(), v, host),
        _ => Json::Null,
    }
}

/// The defaults of the agents are always written as an object: a text that is blank, that writes
/// nothing or that writes anything but an object gives an empty one, and any other the object that
/// it writes.
pub proof fn law_acp_defaults_are_an_object(s: Seq<char>, host: HostChoices)
    ensures
        custom_json("acp-defaults"@, FieldV::Text(s), host) is Object,
        trimmed(s).len() == 0 ==> custom_json("acp-defaults"@, FieldV::Text(s), host) == JsonV::Object(Map::empty()),
        !(json_read(trimmed(s)) matches Ok(v) && v is Object) ==> custom_json("acp-defaults"@, FieldV::Text(s), host)
            == JsonV::Object(Map::empty()),
        json_read(trimmed(s)) matches Ok(v) ==> v is Object && trimmed(s).len() > 0 && trimmed(s) != "{}"@
            ==> custom_json("acp-defaults"@, FieldV::Text(s), host) == v,
{
}

/// Defaults of the agents that are missing are shown as `{}`, and written back as an empty object.
pub proof fn law_missing_acp_defaults_become_empty(host: HostChoices, sound: SoundChoice)
    ensures
        custom_value("acp-defaults"@, JsonV::Null, host, sound) == FieldV::Text("{}"@),
        custom_json("acp-defaults"@, custom_value("acp-defaults"@, JsonV::Null, host, sound), host) == JsonV::Object(
            Map::empty(),
        ),
{
    lemma_custom_names_differ();
    reveal_strlit("{}");
    assert(!white('{') && !white('}'));
    assert(trimmed("{}"@) == "{}"@);
}

/// Whether a JSON value is one that a widget writes.
pub open spec fn of_widget(w: WidgetKind, section: Seq<char>, field: Seq<char>, v: JsonV) -> bool {
    match w {
        WidgetKind::Toggle => v is Bool,
        WidgetKind::Text { .. } | WidgetKind::DynamicSelect { .. } | WidgetKind::Cron => v is Text,
        WidgetKind::OptionalText { .. } => v is Text || v is Null,
        WidgetKind::Number { .. } | WidgetKind::Slider { .. } => v is Unsigned,
        WidgetKind::Select { options } => v matches JsonV::Text(s) && values_of(options@).contains(s),
        WidgetKind::List => if map_list(section, field) {
            v matches JsonV::Object(m) && m.dom().finite() && forall|k: Seq<char>| #[trigger]
                m.contains_key(k) ==> !k.contains('=') && m[k] is Text
        } else {
            v matches JsonV::Array(s) && forall|i: int| 0 <= i < s.len() ==> (#[trigger] s[i]) is Text
        },
        _ => false,
    }
}

/// A value that is shown and written back without an edit stays what it is.
pub proof fn law_value_round_trips(
    w: WidgetKind,
    section: Seq<char>,
    field: Seq<char>,
    v: JsonV,
    host: HostChoices,
    sound: SoundChoice,
)
    requires
        of_widget(w, section, field, v),
    ensures
        schema_json(w, section, field, field_value(w, v, host, sound), host) == v,
{
    match w {
        WidgetKind::Select { options } => {
            let s = v->Text_0;
            crate::text::lemma_index_in(values_of(options@), s);
            assert(options.len() == options@.len());
        },
        WidgetKind::List => {
            if map_list(section, field) {
                lemma_map_lines(v->Object_0);
            } else {
                let items = v->Array_0;
                let lines = list_lines(v);
                assert(Seq::new(lines.len(), |i: int| JsonV::Text(lines[i])) =~= items);
            }
        },
        _ => {},
    }
}

/// Whether a line writes a member of an object.
spec fn line_of(line: Seq<char>, m: Map<Seq<char>, JsonV>) -> bool {
    match cut(line, '=') {
        Some((k, v)) => m.contains_key(k) && m[k] == JsonV::Text(v),
        None => false,
    }
}

/// The key that a line writes.
spec fn line_key(line: Seq<char>) -> Seq<char> {
    match cut(line, '=') {
        Some((k, _)) => k,
        None => Seq::empty(),
    }
}

proof fn lemma_key_values(items: Seq<Seq<char>>, m: Map<Seq<char>, JsonV>)
    requires
        forall|i: int| 0 <= i < items.len() ==> line_of(#[trigger] items[i], m),
    ensures
        forall|k: Seq<char>| #[trigger]
            key_values(items).contains_key(k) ==> m.contains_key(k) && key_values(items)[k] == m[k],
        forall|i: int| 0 <= i < items.len() ==> key_values(items).contains_key(line_key(#[trigger] items[i])),
    decreases items.len(),
{
    if items.len() > 0 {
        let front = items.drop_last();
        assert forall|i: int| 0 <= i < front.len() implies line_of(#[trigger] front[i], m) by {
            assert(front[i] == items[i]);
        }
        lemma_key_values(front, m);
        assert(line_of(items[items.len() - 1], m));
        assert forall|k: Seq<char>| #[trigger] key_values(items).contains_key(k) implies m.contains_key(k)
            && key_values(items)[k] == m[k] by {
            if k != line_key(items.last()) {
                assert(key_values(front).contains_key(k));
            }
        }
        assert forall|i: int| 0 <= i < items.len() implies key_values(items).contains_key(
            line_key(#[trigger] items[i]),
        ) by {
            if i < items.len() - 1 {
                assert(front[i] == items[i]);
            }
        }
    }
}

proof fn lemma_line_cut(k: Seq<char>, v: Seq<char>)
    requires
        !k.contains('='),
    ensures
        cut(k + "="@ + v, '=') == Some((k, v)),
{
    reveal_strlit("=");
    let line = k + "="@ + v;
    assert forall|j: int| 0 <= j < k.len() implies line[j] != '=' by {
        assert(line[j] == k[j]);
        assert(k.contains(k[j]));
    }
    crate::text::lemma_find_char_at(line, '=', k.len() as int);
    assert(line.take(k.len() as int) =~= k);
    assert(line.skip((k.len() + 1) as int) =~= v);
}

/// The sorted lines of an object of texts write that object.
proof fn lemma_map_lines(m: Map<Seq<char>, JsonV>)
    requires
        m.dom().finite(),
        forall|k: Seq<char>| #[trigger] m.contains_key(k) ==> !k.contains('=') && m[k] is Text,
    ensures
        key_values(list_lines(JsonV::Object(m))) == m,
{
    crate::json::lemma_key_list_exists(m);
    let ks = key_list(m);
    let rows = key_value_lines(m);
    let lines = sorted_texts(rows);
    let o = sorted_order(rows, rows.len());
    crate::order::lemma_sorted_order_indices(rows, rows.len());
    assert forall|i: int| 0 <= i < rows.len() implies cut(#[trigger] rows[i], '=') == Some(
        (ks[i], text_or_empty(m[ks[i]])),
    ) && m.contains_key(ks[i]) by {
        assert(ks.contains(ks[i]));
        lemma_line_cut(ks[i], text_or_empty(m[ks[i]]));
    }
    assert forall|i: int| 0 <= i < lines.len() implies line_of(#[trigger] lines[i], m) by {
        assert(lines[i] == rows[o[i]]);
    }
    lemma_key_values(lines, m);
    assert forall|k: Seq<char>| #[trigger] m.contains_key(k) implies key_values(lines).contains_key(k) by {
        assert(ks.contains(k));
        let i = choose|i: int| 0 <= i < ks.len() && ks[i] == k;
        assert(o.contains(i));
        let j = choose|j: int| 0 <= j < o.len() && o[j] == i;
        assert(lines[j] == rows[i]);
    }
    assert(key_values(lines) =~= m);
}

/// The names of a list that are marked.
pub open spec fn marked(names: Seq<String>, marks: Seq<bool>, n: nat) -> Seq<String>
    decreases n,
{
    if n == 0 {
        Seq::empty()
    } else if marks[n - 1] {
        marked(names, marks, (n - 1) as nat).push(names[n - 1])
    } else {
        marked(names, marks, (n - 1) as nat)
    }
}

/// The agents that can rename a session in one shot and are installed. `installed` says so of each of
/// the agents that can.
pub fn installed_oneshot_agents(capable: &Vec<String>, installed: &Vec<bool>) -> (r: Vec<String>)
    requires
        capable@.len() == installed@.len(),
    ensures
        r@ == marked(capable@, installed@, capable@.len()),
{
    let mut out: Vec<String> = Vec::new();
    let mut i: usize = 0;
    assert(out@ =~= marked(capable@, installed@, 0));
    while i < capable.len()
        invariant
            i <= capable@.len(),
            capable@.len() == installed@.len(),
            out@ == marked(capable@, installed@, i as nat),
        decreases capable@.len() - i,
    {
        if installed[i] {
            out.push(capable[i].clone());
        }
        i = i + 1;
    }
    out
}

} // verus!
