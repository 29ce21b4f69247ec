//! The JSON form of the answer about agents.

use vstd::prelude::*;

use crate::acp::{
    AcpAgentCapability, AcpCapabilitiesResponse, AcpModeCapability, AcpModelCapability, ApprovalClass, CatalogStatus,
};
use crate::json::{array_view, key_list, lemma_array_view, member, Json, JsonMap, JsonV};
use crate::protocol::with_some;
use crate::text::{same, text_of, texts};

verus! {

broadcast use lemma_array_view;

/// Items under the names in their places.
pub open spec fn named(names: Seq<Seq<char>>, s: Seq<JsonV>) -> Map<Seq<char>, JsonV>
    decreases s.len(),
{
    if s.len() == 0 {
        Map::empty()
    } else {
        named(names, s.drop_last()).insert(names[s.len() - 1], s.last())
    }
}

/// The object that a value stands for: an array gives its items the names in their places. It
/// stands for none where it has fewer items than have to be there, or more than there are names.
pub open spec fn by_name(v: JsonV, names: Seq<Seq<char>>, least: nat) -> JsonV {
    match v {
        JsonV::Array(s) => if least <= s.len() <= names.len() {
            JsonV::Object(named(names, s))
        } else {
            JsonV::Null
        },
        _ => v,
    }
}

/// The object that a value stands for, with the given names of its members.
pub fn to_object(v: &Json, names: &Vec<String>, least: usize) -> (r: Json)
    ensures
        r@ == by_name(v@, texts(names@), least as nat),
{
    match v {
        Json::Array(items) => {
            let ghost views = array_view(items@);
            assert(v@ == JsonV::Array(views));
            if items.len() < least || items.len() > names.len() {
                return Json::Null;
            }
            let mut m = JsonMap::new();
            let mut i: usize = 0;
            assert(m@ =~= named(texts(names@), views.take(0)));
            while i < items.len()
                invariant
                    i <= items@.len() <= names@.len(),
                    views == array_view(items@),
                    m@ == named(texts(names@), views.take(i as int)),
                decreases items@.len() - i,
            {
                assert(views.take(i + 1).drop_last() =~= views.take(i as int));
                assert(views.take(i + 1).last() == items@[i as int]@);
                m.insert(names[i].clone(), items[i].clone());
                i = i + 1;
            }
            assert(views.take(i as int) =~= views);
            Json::Object(m)
        },
        _ => v.clone(),
    }
}

/// A text of an object.
pub open spec fn text_at(v: JsonV, k: Seq<char>) -> Option<Seq<char>> {
    match member(v, k) {
        Some(JsonV::Text(s)) => Some(s),
        _ => None,
    }
}

/// The text of an object under a key.
pub fn get_text(v: &Json, k: &str) -> (r: Option<String>)
    ensures
        text_of(r) == text_at(v@, k@),
{
    match v.get(k) {
        Some(m) => match m.as_str() {
            Some(s) => Some(s.to_owned()),
            None => None,
        },
        None => None,
    }
}

/// Whether a text of an object is there, absent or `null`, but nothing else.
pub open spec fn optional_text(v: JsonV, k: Seq<char>) -> bool {
    member(v, k) is None || member(v, k) == Some(JsonV::Null) || text_at(v, k) is Some
}

/// Whether a text of an object is there, absent or `null`, but nothing else.
pub fn is_optional_text(v: &Json, k: &str) -> (r: bool)
    ensures
        r == optional_text(v@, k@),
{
    match v.get(k) {
        Some(m) => match m {
            Json::Null => true,
            Json::Text(_) => true,
            _ => false,
        },
        None => true,
    }
}

/// The items of an array of an object.
pub open spec fn items_at(v: JsonV, k: Seq<char>) -> Option<Seq<JsonV>> {
    match member(v, k) {
        Some(JsonV::Array(s)) => Some(s),
        _ => None,
    }
}

/// The items of an array of an object.
pub fn get_items<'a>(v: &'a Json, k: &str) -> (r: Option<&'a Vec<Json>>)
    ensures
        match r {
            Some(items) => items_at(v@, k@) == Some(array_view(items@)),
            None => items_at(v@, k@) is None,
        },
{
    match v.get(k) {
        Some(m) => m.as_array(),
        None => None,
    }
}

/// The names of the parts of a model, in their order.
pub open spec fn model_names() -> Seq<Seq<char>> {
    seq!["id"@, "display_name"@]
}

impl AcpModelCapability {
    pub open spec fn document(&self) -> JsonV {
        JsonV::Object(
            Map::empty().insert("id"@, JsonV::Text(self.id@)).insert(
                "display_name"@,
                JsonV::Text(self.display_name@),
            ),
        )
    }

    /// Whether a value writes a model.
    pub open spec fn readable(v: JsonV) -> bool {
        let o = by_name(v, model_names(), 2);
        text_at(o, "id"@) is Some && text_at(o, "display_name"@) is Some
    }

    /// Whether this is the model that a value writes.
    pub open spec fn read_from(&self, v: JsonV) -> bool {
        let o = by_name(v, model_names(), 2);
        text_at(o, "id"@) == Some(self.id@) && text_at(o, "display_name"@) == Some(self.display_name@)
    }

    pub fn to_json(&self) -> (r: Json)
        ensures
            r@ == self.document(),
    {
        let mut m = JsonMap::new();
        m.insert("id".to_owned(), Json::Text(self.id.clone()));
        m.insert("display_name".to_owned(), Json::Text(self.display_name.clone()));
        Json::Object(m)
    }

    pub fn from_json(v: &Json) -> (r: Option<AcpModelCapability>)
        ensures
            match r {
                Some(x) => Self::readable(v@) && x.read_from(v@),
                None => !Self::readable(v@),
            },
    {
        let names = vec!["id".to_owned(), "display_name".to_owned()];
        assert(texts(names@) =~= model_names());
        let o = to_object(v, &names, 2);
        match (get_text(&o, "id"), get_text(&o, "display_name")) {
            (Some(id), Some(display_name)) => Some(AcpModelCapability { id, display_name }),
            _ => None,
        }
    }
}

/// The class that a name stands for.
pub open spec fn class_named(s: Seq<char>) -> Option<ApprovalClass> {
    if s == "interactive"@ {
        Some(ApprovalClass::Interactive)
    } else if s == "guarded"@ {
        Some(ApprovalClass::Guarded)
    } else if s == "unattended"@ {
        Some(ApprovalClass::Unattended)
    } else {
        None
    }
}

fn class_by_name(s: &str) -> (r: Option<ApprovalClass>)
    ensures
        r == class_named(s@),
{
    if same(s, "interactive") {
        Some(ApprovalClass::Interactive)
    } else if same(s, "guarded") {
        Some(ApprovalClass::Guarded)
    } else if same(s, "unattended") {
        Some(ApprovalClass::Unattended)
    } else {
        None
    }
}

/// The name that an object has under a key: a text, or the only key of an object whose member is
/// `null`.
pub open spec fn name_at(v: JsonV, k: Seq<char>) -> Option<Seq<char>> {
    match member(v, k) {
        Some(JsonV::Text(s)) => Some(s),
        Some(JsonV::Object(m)) => if key_list(m).len() == 1 && m[key_list(m)[0]] is Null {
            Some(key_list(m)[0])
        } else {
            None
        },
        _ => None,
    }
}

/// The name that an object has under a key.
pub fn get_name(v: &Json, k: &str) -> (r: Option<String>)
    ensures
        text_of(r) == name_at(v@, k@),
{
    match v.get(k) {
        Some(Json::Text(s)) => Some(s.clone()),
        Some(Json::Object(m)) => {
            let keys = m.keys();
            if keys.len() != 1 {
                return None;
            }
            assert(texts(keys@)[0] == keys@[0]@);
            assert(texts(keys@).contains(keys@[0]@));
            match m.get(keys[0].as_str()) {
                Some(Json::Null) => Some(keys[0].clone()),
                _ => None,
            }
        },
        _ => None,
    }
}

/// The class that an object names.
pub open spec fn class_at(v: JsonV, k: Seq<char>) -> Option<ApprovalClass> {
    match name_at(v, k) {
        Some(s) => class_named(s),
        None => None,
    }
}

/// The names of the parts of a mode, in their order.
pub open spec fn mode_names() -> Seq<Seq<char>> {
    seq!["id"@, "display_name"@, "approval_class"@]
}

impl AcpModeCapability {
    pub open spec fn document(&self) -> JsonV {
        JsonV::Object(
            Map::empty().insert("id"@, JsonV::Text(self.id@)).insert(
                "display_name"@,
                JsonV::Text(self.display_name@),
            ).insert("approval_class"@, JsonV::Text(self.approval_class.name())),
        )
    }

    /// Whether a value writes a mode.
    pub open spec fn readable(v: JsonV) -> bool {
        let o = by_name(v, mode_names(), 3);
        text_at(o, "id"@) is Some && text_at(o, "display_name"@) is Some && class_at(o, "approval_class"@) is Some
    }

    /// Whether this is the mode that a value writes.
    pub open spec fn read_from(&self, v: JsonV) -> bool {
        let o = by_name(v, mode_names(), 3);
        text_at(o, "id"@) == Some(self.id@) && text_at(o, "display_name"@) == Some(self.display_name@) && class_at(
            o,
            "approval_class"@,
        ) == Some(self.approval_class)
    }

    pub fn to_json(&self) -> (r: Json)
        ensures
            r@ == self.document(),
    {
        let mut m = JsonMap::new();
        m.insert("id".to_owned(), Json::Text(self.id.clone()));
        m.insert("display_name".to_owned(), Json::Text(self.display_name.clone()));
        m.insert("approval_class".to_owned(), Json::Text(self.approval_class.as_str().to_owned()));
        Json::Object(m)
    }

    pub fn from_json(v: &Json) -> (r: Option<AcpModeCapability>)
        ensures
            match r {
                Some(x) => Self::readable(v@) && x.read_from(v@),
                None => !Self::readable(v@),
            },
    {
        let names = vec!["id".to_owned(), "display_name".to_owned(), "approval_class".to_owned()];
        assert(texts(names@) =~= mode_names());
        let o = to_object(v, &names, 3);
        let class = match get_name(&o, "approval_class") {
            Some(s) => class_by_name(s.as_str()),
            None => None,
        };
        match (get_text(&o, "id"), get_text(&o, "display_name"), class) {
            (Some(id), Some(display_name), Some(approval_class)) => Some(
                AcpModeCapability { id, display_name, approval_class },
            ),
            _ => None,
        }
    }
}

/// The status that an object names.
pub open spec fn status_at(v: JsonV, k: Seq<char>) -> Option<CatalogStatus> {
    match name_at(v, k) {
        Some(s) => if s == "undiscovered"@ {
            Some(CatalogStatus::Undiscovered)
        } else if s == "discovered"@ {
            Some(CatalogStatus::Discovered)
        } else {
            None
        },
        None => None,
    }
}

fn get_status(v: &Json, k: &str) -> (r: Option<CatalogStatus>)
    ensures
        r == status_at(v@, k@),
{
    match get_name(v, k) {
        Some(s) => if same(s.as_str(), "undiscovered") {
            Some(CatalogStatus::Undiscovered)
        } else if same(s.as_str(), "discovered") {
            Some(CatalogStatus::Discovered)
        } else {
            None
        },
        None => None,
    }
}

/// The documents of models.
pub open spec fn model_documents(s: Seq<AcpModelCapability>) -> Seq<JsonV> {
    Seq::new(s.len(), |i: int| s[i].document())
}

/// The documents of modes.
pub open spec fn mode_documents(s: Seq<AcpModeCapability>) -> Seq<JsonV> {
    Seq::new(s.len(), |i: int| s[i].document())
}

/// Whether an array writes models.
pub open spec fn models_readable(o: Option<Seq<JsonV>>) -> bool {
    o is Some && all_models(o->0)
}

/// Whether every item writes a model.
pub open spec fn all_models(s: Seq<JsonV>) -> bool {
    forall|i: int| 0 <= i < s.len() ==> AcpModelCapability::readable(#[trigger] s[i])
}

/// Whether an array writes modes.
pub open spec fn modes_readable(o: Option<Seq<JsonV>>) -> bool {
    o is Some && all_modes(o->0)
}

/// Whether every item writes a mode.
pub open spec fn all_modes(s: Seq<JsonV>) -> bool {
    forall|i: int| 0 <= i < s.len() ==> AcpModeCapability::readable(#[trigger] s[i])
}

/// Whether these are the models that an array writes.
pub open spec fn models_read_from(x: Seq<AcpModelCapability>, s: Seq<JsonV>) -> bool {
    x.len() == s.len() && forall|i: int| 0 <= i < s.len() ==> (#[trigger] x[i]).read_from(s[i])
}

/// Whether these are the modes that an array writes.
pub open spec fn modes_read_from(x: Seq<AcpModeCapability>, s: Seq<JsonV>) -> bool {
    x.len() == s.len() && forall|i: int| 0 <= i < s.len() ==> (#[trigger] x[i]).read_from(s[i])
}

fn models_to_json(v: &Vec<AcpModelCapability>) -> (r: Json)
    ensures
        r@ == JsonV::Array(model_documents(v@)),
{
    let mut out: Vec<Json> = Vec::new();
    let mut i: usize = 0;
    while i < v.len()
        invariant
            i <= v@.len(),
            out@.len() == i,
            forall|k: int| 0 <= k < i ==> (#[trigger] out@[k])@ == v@[k].document(),
        decreases v@.len() - i,
    {
        out.push(v[i].to_json());
        i = i + 1;
    }
    assert(array_view(out@) =~= model_documents(v@));
    Json::Array(out)
}

fn modes_to_json(v: &Vec<AcpModeCapability>) -> (r: Json)
    ensures
        r@ == JsonV::Array(mode_documents(v@)),
{
    let mut out: Vec<Json> = Vec::new();
    let mut i: usize = 0;
    while i < v.len()
        invariant
            i <= v@.len(),
            out@.len() == i,
            forall|k: int| 0 <= k < i ==> (#[trigger] out@[k])@ == v@[k].document(),
        decreases v@.len() - i,
    {
        out.push(v[i].to_json());
        i = i + 1;
    }
    assert(array_view(out@) =~= mode_documents(v@));
    Json::Array(out)
}

fn models_from_json(items: &Vec<Json>) -> (r: Option<Vec<AcpModelCapability>>)
    ensures
        match r {
            Some(x) => all_models(array_view(items@)) && models_read_from(x@, array_view(items@)),
            None => !all_models(array_view(items@)),
        },
{
    let ghost views = array_view(items@);
    let mut out: Vec<AcpModelCapability> = Vec::new();
    let mut i: usize = 0;
    while i < items.len()
        invariant
            i <= items@.len(),
            views == array_view(items@),
            out@.len() == i,
            forall|k: int| 0 <= k < i ==> AcpModelCapability::readable(#[trigger] views[k]),
            forall|k: int| 0 <= k < i ==> (#[trigger] out@[k]).read_from(views[k]),
        decreases items@.len() - i,
    {
        assert(views[i as int] == items@[i as int]@);
        match AcpModelCapability::from_json(&items[i]) {
            Some(x) => {
                out.push(x);
            },
            None => {
                assert(!AcpModelCapability::readable(views[i as int]));
                return None;
            },
        }
        i = i + 1;
    }
    Some(out)
}

fn modes_from_json(items: &Vec<Json>) -> (r: Option<Vec<AcpModeCapability>>)
    ensures
        match r {
            Some(x) => all_modes(array_view(items@)) && modes_read_from(x@, array_view(items@)),
            None => !all_modes(array_view(items@)),
        },
{
    let ghost views = array_view(items@);
    let mut out: Vec<AcpModeCapability> = Vec::new();
    let mut i: usize = 0;
    while i < items.len()
        invariant
            i <= items@.len(),
            views == array_view(items@),
            out@.len() == i,
            forall|k: int| 0 <= k < i ==> AcpModeCapability::readable(#[trigger] views[k]),
            forall|k: int| 0 <= k < i ==> (#[trigger] out@[k]).read_from(views[k]),
        decreases items@.len() - i,
    {
        assert(views[i as int] == items@[i as int]@);
        match AcpModeCapability::from_json(&items[i]) {
            Some(x) => {
                out.push(x);
            },
            None => {
                assert(!AcpModeCapability::readable(views[i as int]));
                return None;
            },
        }
        i = i + 1;
    }
    Some(out)
}

/// The names of the parts of an agent, in their order.
pub open spec fn agent_names() -> Seq<Seq<char>> {
    seq!["id"@, "display_name"@, "catalog_status"@, "catalog_updated_at"@, "models"@, "modes"@]
}

impl AcpAgentCapability {
    /// The JSON object of an agent. The time of the catalog is left out where there is none.
    pub open spec fn document(&self) -> JsonV {
        JsonV::Object(
            with_some(
                Map::empty().insert("id"@, JsonV::Text(self.id@)).insert(
                    "display_name"@,
                    JsonV::Text(self.display_name@),
                ).insert("catalog_status"@, JsonV::Text(self.catalog_status.name())).insert(
                    "models"@,
                    JsonV::Array(model_documents(self.models@)),
                ).insert("modes"@, JsonV::Array(mode_documents(self.modes@))),
                "catalog_updated_at"@,
                match self.catalog_updated_at {
                    Some(t) => Some(JsonV::Text(t@)),
                    None => None,
                },
            ),
        )
    }

    /// Whether a value writes an agent.
    pub open spec fn readable(v: JsonV) -> bool {
        let o = by_name(v, agent_names(), 6);
        &&& text_at(o, "id"@) is Some
        &&& text_at(o, "display_name"@) is Some
        &&& status_at(o, "catalog_status"@) is Some
        &&& optional_text(o, "catalog_updated_at"@)
        &&& models_readable(items_at(o, "models"@))
        &&& modes_readable(items_at(o, "modes"@))
    }

    /// Whether this is the agent that a value writes.
    pub open spec fn read_from(&self, v: JsonV) -> bool {
        let o = by_name(v, agent_names(), 6);
        &&& text_at(o, "id"@) == Some(self.id@)
        &&& text_at(o, "display_name"@) == Some(self.display_name@)
        &&& status_at(o, "catalog_status"@) == Some(self.catalog_status)
        &&& text_at(o, "catalog_updated_at"@) == text_of(self.catalog_updated_at)
        &&& items_at(o, "models"@) is Some && models_read_from(self.models@, items_at(o, "models"@)->0)
        &&& items_at(o, "modes"@) is Some && modes_read_from(self.modes@, items_at(o, "modes"@)->0)
    }

    pub fn to_json(&self) -> (r: Json)
        ensures
            r@ == self.document(),
    {
        let mut m = JsonMap::new();
        m.insert("id".to_owned(), Json::Text(self.id.clone()));
        m.insert("display_name".to_owned(), Json::Text(self.display_name.clone()));
        m.insert("catalog_status".to_owned(), Json::Text(self.catalog_status.as_str().to_owned()));
        m.insert("models".to_owned(), models_to_json(&self.models));
        m.insert("modes".to_owned(), modes_to_json(&self.modes));
        if let Some(t) = &self.catalog_updated_at {
            m.insert("catalog_updated_at".to_owned(), Json::Text(t.clone()));
        }
        Json::Object(m)
    }

    pub fn from_json(v: &Json) -> (r: Option<AcpAgentCapability>)
        ensures
            match r {
                Some(x) => Self::readable(v@) && x.read_from(v@),
                None => !Self::readable(v@),
            },
    {
        let names = vec![
            "id".to_owned(),
            "display_name".to_owned(),
            "catalog_status".to_owned(),
            "catalog_updated_at".to_owned(),
            "models".to_owned(),
            "modes".to_owned(),
        ];
        assert(texts(names@) =~= agent_names());
        let o = to_object(v, &names, 6);
        if !is_optional_text(&o, "catalog_updated_at") {
            return None;
        }
        let models = match get_items(&o, "models") {
            Some(items) => models_from_json(items),
            None => None,
        };
        let modes = match get_items(&o, "modes") {
            Some(items) => modes_from_json(items),
            None => None,
        };
        match (get_text(&o, "id"), get_text(&o, "display_name"), get_status(&o, "catalog_status"), models, modes) {
            (Some(id), Some(display_name), Some(catalog_status), Some(models), Some(modes)) => Some(
                AcpAgentCapability {
                    id,
                    display_name,
                    catalog_status,
                    catalog_updated_at: get_text(&o, "catalog_updated_at"),
                    models,
                    modes,
                },
            ),
            _ => None,
        }
    }
}

/// Whether every item writes an agent.
pub open spec fn all_agents(s: Seq<JsonV>) -> bool {
    forall|i: int| 0 <= i < s.len() ==> AcpAgentCapability::readable(#[trigger] s[i])
}

/// The documents of agents.
pub open spec fn agent_documents(s: Seq<AcpAgentCapability>) -> Seq<JsonV> {
    Seq::new(s.len(), |i: int| s[i].document())
}

/// The names of the parts of an answer, in their order.
pub open spec fn answer_names() -> Seq<Seq<char>> {
    seq!["agents"@]
}

impl AcpCapabilitiesResponse {
    pub open spec fn document(&self) -> JsonV {
        JsonV::Object(Map::empty().insert("agents"@, JsonV::Array(agent_documents(self.agents@))))
    }

    /// Whether a value writes an answer.
    pub open spec fn readable(v: JsonV) -> bool {
        let o = by_name(v, answer_names(), 1);
        items_at(o, "agents"@) is Some && all_agents(items_at(o, "agents"@)->0)
    }

    /// Whether this is the answer that a value writes.
    pub open spec fn read_from(&self, v: JsonV) -> bool {
        let o = by_name(v, answer_names(), 1);
        let items = items_at(o, "agents"@);
        items is Some && self.agents@.len() == items->0.len() && forall|i: int|
            0 <= i < items->0.len() ==> (#[trigger] self.agents@[i]).read_from(items->0[i])
    }

    pub fn to_json(&self) -> (r: Json)
        ensures
            r@ == self.document(),
    {
        let mut out: Vec<Json> = Vec::new();
        let mut i: usize = 0;
        while i < self.agents.len()
            invariant
                i <= self.agents@.len(),
                out@.len() == i,
                forall|k: int| 0 <= k < i ==> (#[trigger] out@[k])@ == self.agents@[k].document(),
            decreases self.agents@.len() - i,
        {
            out.push(self.agents[i].to_json());
            i = i + 1;
        }
        assert(array_view(out@) =~= agent_documents(self.agents@));
        Json::Object(JsonMap::single("agents".to_owned(), Json::Array(out)))
    }

    pub fn from_json(v: &Json) -> (r: Option<AcpCapabilitiesResponse>)
        ensures
            match r {
                Some(x) => Self::readable(v@) && x.read_from(v@),
                None => !Self::readable(v@),
            },
    {
        let names = vec!["agents".to_owned()];
        assert(texts(names@) =~= answer_names());
        let o = to_object(v, &names, 1);
        let items = match get_items(&o, "agents") {
            Some(items) => items,
            None => {
                return None;
            },
        };
        let ghost views = array_view(items@);
        let mut agents: Vec<AcpAgentCapability> = Vec::new();
        let mut i: usize = 0;
        while i < items.len()
            invariant
                i <= items@.len(),
                views == array_view(items@),
                o@ == by_name(v@, answer_names(), 1),
                items_at(o@, "agents"@) == Some(views),
                agents@.len() == i,
                forall|k: int| 0 <= k < i ==> AcpAgentCapability::readable(#[trigger] views[k]),
                forall|k: int| 0 <= k < i ==> (#[trigger] agents@[k]).read_from(views[k]),
            decreases items@.len() - i,
        {
            assert(views[i as int] == items@[i as int]@);
            match AcpAgentCapability::from_json(&items[i]) {
                Some(x) => {
                    agents.push(x);
                },
                None => {
                    assert(!AcpAgentCapability::readable(views[i as int]));
                    return None;
                },
            }
            i = i + 1;
        }
        Some(AcpCapabilitiesResponse { agents })
    }
}

/// Distinct names of members.
proof fn lemma_names_differ()
    ensures
        "id"@ != "display_name"@,
        "id"@ != "catalog_status"@,
        "id"@ != "models"@,
        "id"@ != "modes"@,
        "id"@ != "catalog_updated_at"@,
        "id"@ != "approval_class"@,
        "display_name"@ != "catalog_status"@,
        "display_name"@ != "models"@,
        "display_name"@ != "modes"@,
        "display_name"@ != "catalog_updated_at"@,
        "display_name"@ != "approval_class"@,
        "catalog_status"@ != "models"@,
        "catalog_status"@ != "modes"@,
        "catalog_status"@ != "catalog_updated_at"@,
        "models"@ != "modes"@,
        "models"@ != "catalog_updated_at"@,
        "modes"@ != "catalog_updated_at"@,
        "interactive"@ != "guarded"@,
        "interactive"@ != "unattended"@,
        "guarded"@ != "unattended"@,
        "undiscovered"@ != "discovered"@,
{
    reveal_strlit("id");
    reveal_strlit("display_name");
    reveal_strlit("catalog_status");
    reveal_strlit("models");
    reveal_strlit("modes");
    reveal_strlit("catalog_updated_at");
    reveal_strlit("approval_class");
    reveal_strlit("interactive");
    reveal_strlit("guarded");
    reveal_strlit("unattended");
    reveal_strlit("undiscovered");
    reveal_strlit("discovered");
    assert("id"@.len() == 2);
    assert("display_name"@.len() == 12);
    assert("catalog_status"@.len() == 14);
    assert("approval_class"@.len() == 14);
    assert("models"@.len() == 6);
    assert("modes"@.len() == 5);
    assert("catalog_updated_at"@.len() == 18);
    assert("interactive"@.len() == 11);
    assert("guarded"@.len() == 7);
    assert("unattended"@.len() == 10);
    assert("undiscovered"@.len() == 12);
    assert("discovered"@.len() == 10);
}

/// Whether two models, modes and agents are the same.
pub open spec fn same_agent(a: AcpAgentCapability, b: AcpAgentCapability) -> bool {
    &&& a.id@ == b.id@
    &&& a.display_name@ == b.display_name@
    &&& a.catalog_status == b.catalog_status
    &&& text_of(a.catalog_updated_at) == text_of(b.catalog_updated_at)
    &&& a.models@.len() == b.models@.len()
    &&& forall|i: int|
        0 <= i < a.models@.len() ==> (#[trigger] a.models@[i]).id@ == b.models@[i].id@ && a.models@[i].display_name@
            == b.models@[i].display_name@
    &&& a.modes@.len() == b.modes@.len()
    &&& forall|i: int|
        0 <= i < a.modes@.len() ==> (#[trigger] a.modes@[i]).id@ == b.modes@[i].id@ && a.modes@[i].display_name@
            == b.modes@[i].display_name@ && a.modes@[i].approval_class == b.modes@[i].approval_class
}

proof fn lemma_agent_round_trips(a: AcpAgentCapability)
    ensures
        AcpAgentCapability::readable(a.document()),
        forall|b: AcpAgentCapability| #[trigger] b.read_from(a.document()) ==> same_agent(b, a),
{
    lemma_names_differ();
    let v = a.document();
    let models = model_documents(a.models@);
    let modes = mode_documents(a.modes@);
    assert(items_at(v, "models"@) == Some(models));
    assert(items_at(v, "modes"@) == Some(modes));
    assert forall|i: int| 0 <= i < models.len() implies AcpModelCapability::readable(#[trigger] models[i]) by {}
    assert forall|i: int| 0 <= i < modes.len() implies AcpModeCapability::readable(#[trigger] modes[i]) by {}
    assert forall|b: AcpAgentCapability| #[trigger] b.read_from(v) implies same_agent(b, a) by {
        assert forall|i: int|
            0 <= i < b.models@.len() implies (#[trigger] b.models@[i]).id@ == a.models@[i].id@
            && b.models@[i].display_name@ == a.models@[i].display_name@ by {
            assert(b.models@[i].read_from(models[i]));
        }
        assert forall|i: int|
            0 <= i < b.modes@.len() implies (#[trigger] b.modes@[i]).id@ == a.modes@[i].id@
            && b.modes@[i].display_name@ == a.modes@[i].display_name@ && b.modes@[i].approval_class
            == a.modes@[i].approval_class by {
            assert(b.modes@[i].read_from(modes[i]));
        }
    }
}

/// What is read from the JSON form of an answer is that answer.
pub proof fn law_answer_round_trips(a: AcpCapabilitiesResponse, b: AcpCapabilitiesResponse)
    requires
        b.read_from(a.document()),
    ensures
        AcpCapabilitiesResponse::readable(a.document()),
        b.agents@.len() == a.agents@.len(),
        forall|i: int| 0 <= i < a.agents@.len() ==> same_agent(#[trigger] b.agents@[i], a.agents@[i]),
{
    let items = agent_documents(a.agents@);
    assert(items_at(a.document(), "agents"@) == Some(items));
    assert forall|i: int| 0 <= i < items.len() implies AcpAgentCapability::readable(#[trigger] items[i]) by {
        lemma_agent_round_trips(a.agents@[i]);
    }
    assert forall|i: int| 0 <= i < a.agents@.len() implies same_agent(#[trigger] b.agents@[i], a.agents@[i]) by {
        lemma_agent_round_trips(a.agents@[i]);
        assert(b.agents@[i].read_from(items[i]));
    }
}

} // verus!
