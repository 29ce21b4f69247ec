//! What the host knows of the agents it can run: the options that each advertised, and the
//! answer that a plugin gets when it asks.

use vstd::prelude::*;

use crate::automation::{classify_mode, mode_decision, AgentRegistry, ModeDecision};
use crate::order::{
    indices, lemma_sorted_order_indices, lemma_sorted_order_sorted, sort_order, sorted_order, sorted_texts, text_lt,
};
use crate::fields::values::sort_texts;
use crate::text::{copy_texts, has_text, lemma_texts_push, same, text_of, texts};

verus! {

broadcast use lemma_texts_push;

/// The security class that the host gives an approval mode.
#[derive(Debug, Clone, Copy, PartialEq, Eq, Structural)]
pub enum ApprovalClass {
    /// A person is asked through the host.
    Interactive,
    /// A reviewed mode that keeps the host's approvals or changes nothing.
    Guarded,
    /// The agent can act with nobody present.
    Unattended,
}

impl ApprovalClass {
    pub open spec fn name(&self) -> Seq<char> {
        match *self {
            ApprovalClass::Interactive => "interactive"@,
            ApprovalClass::Guarded => "guarded"@,
            ApprovalClass::Unattended => "unattended"@,
        }
    }

    pub fn as_str(&self) -> (r: &'static str)
        ensures
            r@ == self.name(),
    {
        match self {
            ApprovalClass::Interactive => "interactive",
            ApprovalClass::Guarded => "guarded",
            ApprovalClass::Unattended => "unattended",
        }
    }
}

/// Whether the host has seen the options that an agent advertises.
#[derive(Debug, Clone, Copy, PartialEq, Eq, Structural)]
pub enum CatalogStatus {
    Undiscovered,
    Discovered,
}

impl CatalogStatus {
    pub open spec fn name(&self) -> Seq<char> {
        match *self {
            CatalogStatus::Undiscovered => "undiscovered"@,
            CatalogStatus::Discovered => "discovered"@,
        }
    }

    pub fn as_str(&self) -> (r: &'static str)
        ensures
            r@ == self.name(),
    {
        match self {
            CatalogStatus::Undiscovered => "undiscovered",
            CatalogStatus::Discovered => "discovered",
        }
    }
}

/// A model that an agent advertised.
#[derive(Debug, Clone, PartialEq, Eq)]
pub struct AcpModelCapability {
    pub id: String,
    pub display_name: String,
}

/// An approval mode that an agent advertised, with the class that the host gives it.
#[derive(Debug, Clone, PartialEq, Eq)]
pub struct AcpModeCapability {
    pub id: String,
    pub display_name: String,
    pub approval_class: ApprovalClass,
}

/// An agent that the host can run.
#[derive(Debug, Clone, PartialEq, Eq)]
pub struct AcpAgentCapability {
    pub id: String,
    pub display_name: String,
    pub catalog_status: CatalogStatus,
    /// When the catalog was seen; only where it was.
    pub catalog_updated_at: Option<String>,
    pub models: Vec<AcpModelCapability>,
    pub modes: Vec<AcpModeCapability>,
}

/// The agents that the host can run.
#[derive(Debug, Clone, PartialEq, Eq)]
pub struct AcpCapabilitiesResponse {
    pub agents: Vec<AcpAgentCapability>,
}

/// What an advertised option is about.
#[derive(Debug, Clone, Copy, PartialEq, Eq, Structural)]
pub enum ConfigOptionCategory {
    Model,
    Mode,
    Other,
}

/// One choice of an advertised option.
#[derive(Debug)]
pub struct ConfigOptionChoice {
    pub value: String,
    pub name: String,
    pub description: Option<String>,
}

/// An advertised option.
#[derive(Debug)]
pub struct ConfigOptionDescriptor {
    pub id: String,
    pub name: String,
    pub description: Option<String>,
    pub category: ConfigOptionCategory,
    pub current_value: String,
    pub options: Vec<ConfigOptionChoice>,
}

/// The options that an agent advertised, and when.
#[derive(Debug)]
pub struct AgentOptionEntry {
    pub updated_at: String,
    pub options: Vec<ConfigOptionDescriptor>,
}

/// The options of all agents that were ever run, by agent. Of several entries for one agent the
/// first counts.
#[derive(Debug)]
pub struct OptionCatalog {
    pub agents: Vec<(String, AgentOptionEntry)>,
}

/// The value and the name of a choice.
pub open spec fn choice_pair(c: ConfigOptionChoice) -> (Seq<char>, Seq<char>) {
    (c.value@, c.name@)
}

/// The values and names of the choices of the first `n` options of a category, in order.
pub open spec fn choices_of(
    options: Seq<ConfigOptionDescriptor>,
    n: nat,
    category: ConfigOptionCategory,
) -> Seq<(Seq<char>, Seq<char>)>
    decreases n,
{
    if n == 0 {
        Seq::empty()
    } else {
        let before = choices_of(options, (n - 1) as nat, category);
        let opt = options[n - 1];
        if opt.category == category {
            before + Seq::new(opt.options@.len(), |i: int| choice_pair(opt.options@[i]))
        } else {
            before
        }
    }
}

impl AgentOptionEntry {
    /// The values and names of the choices of a category.
    pub open spec fn offered(&self, category: ConfigOptionCategory) -> Seq<(Seq<char>, Seq<char>)> {
        choices_of(self.options@, self.options@.len(), category)
    }

    /// Whether a value is among the choices of a category.
    pub open spec fn offers(&self, category: ConfigOptionCategory, value: Seq<char>) -> bool {
        exists|i: int| 0 <= i < self.offered(category).len() && (#[trigger] self.offered(category)[i]).0 == value
    }
}

/// The pairs of a list of values and a list of names.
pub open spec fn paired(values: Seq<Seq<char>>, names: Seq<Seq<char>>) -> Seq<(Seq<char>, Seq<char>)> {
    Seq::new(values.len(), |i: int| (values[i], names[i]))
}

/// The choices of a category: their values and their names.
pub fn choices(entry: &AgentOptionEntry, category: ConfigOptionCategory) -> (r: (Vec<String>, Vec<String>))
    ensures
        r.0@.len() == r.1@.len(),
        paired(texts(r.0@), texts(r.1@)) == entry.offered(category),
{
    let mut values: Vec<String> = Vec::new();
    let mut names: Vec<String> = Vec::new();
    let ghost options = entry.options@;
    let mut i: usize = 0;
    assert(paired(texts(values@), texts(names@)) =~= choices_of(options, 0, category));
    while i < entry.options.len()
        invariant
            i <= entry.options@.len(),
            options == entry.options@,
            values@.len() == names@.len(),
            paired(texts(values@), texts(names@)) == choices_of(options, i as nat, category),
        decreases entry.options@.len() - i,
    {
        let opt = &entry.options[i];
        let ghost before = choices_of(options, i as nat, category);
        if opt.category == category {
            let ghost added = Seq::new(opt.options@.len(), |k: int| choice_pair(opt.options@[k]));
            let mut j: usize = 0;
            assert(before + added.take(0) =~= before);
            while j < opt.options.len()
                invariant
                    j <= opt.options@.len(),
                    added == Seq::new(opt.options@.len(), |k: int| choice_pair(opt.options@[k])),
                    values@.len() == names@.len(),
                    paired(texts(values@), texts(names@)) == before + added.take(j as int),
                decreases opt.options@.len() - j,
            {
                let ghost done = paired(texts(values@), texts(names@));
                values.push(opt.options[j].value.clone());
                names.push(opt.options[j].name.clone());
                j = j + 1;
                proof {
                    assert(paired(texts(values@), texts(names@)) =~= done.push(choice_pair(opt.options@[j - 1])));
                    assert(before + added.take(j as int) =~= done.push(added[j - 1]));
                }
            }
            assert(added.take(j as int) =~= added);
        }
        i = i + 1;
    }
    (values, names)
}

/// Whether a value is among the choices of a category.
pub fn is_offered(entry: &AgentOptionEntry, category: ConfigOptionCategory, value: &str) -> (r: bool)
    ensures
        r == entry.offers(category, value@),
{
    let (values, names) = choices(entry, category);
    let r = has_text(&values, value);
    proof {
        let offered = entry.offered(category);
        if r {
            let i = choose|i: int| 0 <= i < texts(values@).len() && texts(values@)[i] == value@;
            assert(offered[i].0 == value@);
        }
        if entry.offers(category, value@) {
            let i = choose|i: int| 0 <= i < offered.len() && (#[trigger] offered[i]).0 == value@;
            assert(texts(values@)[i] == value@);
        }
    }
    r
}

/// The options of an agent.
pub open spec fn entry_of(agents: Seq<(String, AgentOptionEntry)>, id: Seq<char>) -> Option<AgentOptionEntry>
    decreases agents.len(),
{
    if agents.len() == 0 {
        None
    } else if agents[0].0@ == id {
        Some(agents[0].1)
    } else {
        entry_of(agents.skip(1), id)
    }
}

impl OptionCatalog {
    /// The options of an agent.
    pub open spec fn entry(&self, id: Seq<char>) -> Option<AgentOptionEntry> {
        entry_of(self.agents@, id)
    }

    /// The options of an agent.
    pub fn get(&self, id: &str) -> (r: Option<&AgentOptionEntry>)
        ensures
            match r {
                Some(e) => self.entry(id@) == Some(*e),
                None => self.entry(id@) is None,
            },
    {
        let mut i: usize = 0;
        assert(self.agents@.skip(0) =~= self.agents@);
        while i < self.agents.len()
            invariant
                i <= self.agents@.len(),
                entry_of(self.agents@.skip(i as int), id@) == self.entry(id@),
            decreases self.agents@.len() - i,
        {
            let ghost rest = self.agents@.skip(i as int);
            assert(rest[0] == self.agents@[i as int]);
            assert(rest.skip(1) =~= self.agents@.skip(i + 1));
            if same(self.agents[i].0.as_str(), id) {
                return Some(&self.agents[i].1);
            }
            i = i + 1;
        }
        None
    }
}

/// A list of texts with those of another appended that are not in it yet.
pub open spec fn with_missing(ids: Seq<Seq<char>>, names: Seq<Seq<char>>) -> Seq<Seq<char>>
    decreases names.len(),
{
    if names.len() == 0 {
        ids
    } else {
        let before = with_missing(ids, names.drop_last());
        if before.contains(names.last()) {
            before
        } else {
            before.push(names.last())
        }
    }
}

/// The agents that have a catalog.
pub open spec fn catalog_names(agents: Seq<(String, AgentOptionEntry)>) -> Seq<Seq<char>> {
    Seq::new(agents.len(), |i: int| agents[i].0@)
}

/// The agents that the host can run, in order: the registered ones and those with a catalog.
pub open spec fn agent_ids(registry: AgentRegistry, catalog: OptionCatalog) -> Seq<Seq<char>> {
    sorted_texts(with_missing(texts(registry.names@), catalog_names(catalog.agents@)))
}

/// The values of a list of choices.
pub open spec fn pair_values(s: Seq<(Seq<char>, Seq<char>)>) -> Seq<Seq<char>> {
    Seq::new(s.len(), |i: int| s[i].0)
}

/// The choices of a category ordered by value.
pub open spec fn ordered(s: Seq<(Seq<char>, Seq<char>)>) -> Seq<(Seq<char>, Seq<char>)> {
    let o = sorted_order(pair_values(s), s.len());
    Seq::new(o.len(), |k: int| s[o[k]])
}

/// The choices of a category that an agent may have advertised.
pub open spec fn offered_by(entry: Option<AgentOptionEntry>, category: ConfigOptionCategory) -> Seq<
    (Seq<char>, Seq<char>),
> {
    match entry {
        Some(e) => ordered(e.offered(category)),
        None => Seq::empty(),
    }
}

/// The class of a mode that an agent advertises; unattended where the host cannot tell.
pub open spec fn advertised_class(
    registry: AgentRegistry,
    agent: Seq<char>,
    mode: Seq<char>,
    entry: Option<AgentOptionEntry>,
) -> ApprovalClass {
    match mode_decision(registry.bypass(agent), Some(mode), entry) {
        ModeDecision::Class(c) => c,
        _ => ApprovalClass::Unattended,
    }
}

impl AcpAgentCapability {
    /// Whether this is what the host says of an agent.
    pub open spec fn describes(&self, registry: AgentRegistry, id: Seq<char>, entry: Option<AgentOptionEntry>) -> bool {
        let models = offered_by(entry, ConfigOptionCategory::Model);
        let modes = offered_by(entry, ConfigOptionCategory::Mode);
        &&& self.id@ == id
        &&& self.display_name@ == id
        &&& self.catalog_status == match entry {
            Some(_) => CatalogStatus::Discovered,
            None => CatalogStatus::Undiscovered,
        }
        &&& text_of(self.catalog_updated_at) == match entry {
            Some(e) => Some(e.updated_at@),
            None => None,
        }
        &&& self.models@.len() == models.len()
        &&& forall|i: int|
            0 <= i < models.len() ==> (#[trigger] self.models@[i]).id@ == models[i].0 && self.models@[i].display_name@
                == models[i].1
        &&& self.modes@.len() == modes.len()
        &&& forall|i: int|
            0 <= i < modes.len() ==> (#[trigger] self.modes@[i]).id@ == modes[i].0 && self.modes@[i].display_name@
                == modes[i].1 && self.modes@[i].approval_class == advertised_class(registry, id, modes[i].0, entry)
    }
}

fn sorted_choices(entry: &AgentOptionEntry, category: ConfigOptionCategory) -> (r: (Vec<String>, Vec<String>))
    ensures
        r.0@.len() == r.1@.len(),
        paired(texts(r.0@), texts(r.1@)) == ordered(entry.offered(category)),
{
    let (values, names) = choices(entry, category);
    let order = sort_order(&values);
    let ghost all = entry.offered(category);
    let ghost o = sorted_order(pair_values(all), all.len());
    proof {
        assert(pair_values(all) =~= texts(values@));
    }
    let mut a: Vec<String> = Vec::new();
    let mut b: Vec<String> = Vec::new();
    let mut i: usize = 0;
    while i < order.len()
        invariant
            i <= order@.len(),
            a@.len() == i,
            b@.len() == i,
            values@.len() == names@.len(),
            all == paired(texts(values@), texts(names@)),
            o == indices(order@),
            forall|k: int| 0 <= k < order@.len() ==> (#[trigger] order@[k]) < values@.len(),
            forall|k: int| 0 <= k < i ==> (#[trigger] a@[k])@ == all[o[k]].0 && b@[k]@ == all[o[k]].1,
        decreases order@.len() - i,
    {
        assert(o[i as int] == order@[i as int]);
        a.push(values[order[i]].clone());
        b.push(names[order[i]].clone());
        i = i + 1;
    }
    assert(paired(texts(a@), texts(b@)) =~= ordered(all));
    (a, b)
}

fn model_list(entry: Option<&AgentOptionEntry>) -> (r: Vec<AcpModelCapability>)
    ensures
        ({
            let want = offered_by(
                match entry {
                    Some(e) => Some(*e),
                    None => None,
                },
                ConfigOptionCategory::Model,
            );
            r@.len() == want.len() && forall|i: int|
                0 <= i < want.len() ==> (#[trigger] r@[i]).id@ == want[i].0 && r@[i].display_name@ == want[i].1
        }),
{
    let mut out: Vec<AcpModelCapability> = Vec::new();
    if let Some(e) = entry {
        let (values, names) = sorted_choices(e, ConfigOptionCategory::Model);
        let ghost want = ordered(e.offered(ConfigOptionCategory::Model));
        let mut i: usize = 0;
        while i < values.len()
            invariant
                i <= values@.len(),
                values@.len() == names@.len(),
                want == paired(texts(values@), texts(names@)),
                out@.len() == i,
                forall|k: int| 0 <= k < i ==> (#[trigger] out@[k]).id@ == want[k].0 && out@[k].display_name@ == want[k].1,
            decreases values@.len() - i,
        {
            out.push(AcpModelCapability { id: values[i].clone(), display_name: names[i].clone() });
            i = i + 1;
        }
    }
    out
}

fn class_of_advertised(registry: &AgentRegistry, agent: &str, mode: &str, entry: &AgentOptionEntry) -> (r: ApprovalClass)
    ensures
        r == advertised_class(*registry, agent@, mode@, Some(*entry)),
{
    match classify_mode(registry, agent, Some(mode), Some(entry)) {
        ModeDecision::Class(c) => c,
        _ => ApprovalClass::Unattended,
    }
}

fn mode_list(registry: &AgentRegistry, agent: &str, entry: Option<&AgentOptionEntry>) -> (r: Vec<AcpModeCapability>)
    ensures
        ({
            let e = match entry {
                Some(e) => Some(*e),
                None => None,
            };
            let want = offered_by(e, ConfigOptionCategory::Mode);
            r@.len() == want.len() && forall|i: int|
                0 <= i < want.len() ==> (#[trigger] r@[i]).id@ == want[i].0 && r@[i].display_name@ == want[i].1
                    && r@[i].approval_class == advertised_class(*registry, agent@, want[i].0, e)
        }),
{
    let mut out: Vec<AcpModeCapability> = Vec::new();
    if let Some(e) = entry {
        let (values, names) = sorted_choices(e, ConfigOptionCategory::Mode);
        let ghost want = ordered(e.offered(ConfigOptionCategory::Mode));
        let mut i: usize = 0;
        while i < values.len()
            invariant
                i <= values@.len(),
                values@.len() == names@.len(),
                want == paired(texts(values@), texts(names@)),
                out@.len() == i,
                forall|k: int|
                    0 <= k < i ==> (#[trigger] out@[k]).id@ == want[k].0 && out@[k].display_name@ == want[k].1
                        && out@[k].approval_class == advertised_class(*registry, agent@, want[k].0, Some(*e)),
            decreases values@.len() - i,
        {
            let class = class_of_advertised(registry, agent, values[i].as_str(), e);
            out.push(
                AcpModeCapability { id: values[i].clone(), display_name: names[i].clone(), approval_class: class },
            );
            i = i + 1;
        }
    }
    out
}

fn agent_capability(registry: &AgentRegistry, id: &str, catalog: &OptionCatalog) -> (r: AcpAgentCapability)
    ensures
        r.describes(*registry, id@, catalog.entry(id@)),
{
    let entry = catalog.get(id);
    let (catalog_status, catalog_updated_at) = match entry {
        Some(e) => (CatalogStatus::Discovered, Some(e.updated_at.clone())),
        None => (CatalogStatus::Undiscovered, None),
    };
    AcpAgentCapability {
        id: id.to_owned(),
        display_name: id.to_owned(),
        catalog_status,
        catalog_updated_at,
        models: model_list(entry),
        modes: mode_list(registry, id, entry),
    }
}

fn all_agents(registry: &Vec<String>, catalog: &OptionCatalog) -> (r: Vec<String>)
    ensures
        texts(r@) == with_missing(texts(registry@), catalog_names(catalog.agents@)),
{
    let mut ids = copy_texts(registry);
    let ghost names = catalog_names(catalog.agents@);
    let mut i: usize = 0;
    assert(with_missing(texts(registry@), names.take(0)) == texts(registry@));
    while i < catalog.agents.len()
        invariant
            i <= catalog.agents@.len(),
            names == catalog_names(catalog.agents@),
            texts(ids@) == with_missing(texts(registry@), names.take(i as int)),
        decreases catalog.agents@.len() - i,
    {
        let name = catalog.agents[i].0.clone();
        assert(names.take(i + 1).drop_last() =~= names.take(i as int));
        assert(names.take(i + 1).last() == name@);
        if !has_text(&ids, name.as_str()) {
            ids.push(name);
        }
        i = i + 1;
    }
    assert(names.take(i as int) =~= names);
    ids
}

impl AcpCapabilitiesResponse {
    /// Whether this is the answer for a registry and a catalog.
    pub open spec fn answers(&self, registry: AgentRegistry, catalog: OptionCatalog) -> bool {
        let ids = agent_ids(registry, catalog);
        self.agents@.len() == ids.len() && forall|i: int|
            0 <= i < ids.len() ==> (#[trigger] self.agents@[i]).describes(
                registry,
                ids[i],
                catalog.entry(ids[i]),
            )
    }
}

/// The agents that the host can run: the registered ones and those that have advertised options,
/// each with what it advertised, all ordered by id.
pub fn capabilities_get(registry: &AgentRegistry, catalog: &OptionCatalog) -> (r: AcpCapabilitiesResponse)
    ensures
        r.answers(*registry, *catalog),
{
    let ids = sort_texts(&all_agents(&registry.names, catalog));
    let ghost want = agent_ids(*registry, *catalog);
    let mut agents: Vec<AcpAgentCapability> = Vec::new();
    let mut i: usize = 0;
    while i < ids.len()
        invariant
            i <= ids@.len(),
            want == texts(ids@),
            agents@.len() == i,
            forall|k: int| 0 <= k < i ==> (#[trigger] agents@[k]).describes(
                *registry,
                want[k],
                catalog.entry(want[k]),
            ),
        decreases ids@.len() - i,
    {
        assert(want[i as int] == ids@[i as int]@);
        agents.push(agent_capability(registry, ids[i].as_str(), catalog));
        i = i + 1;
    }
    AcpCapabilitiesResponse { agents }
}

/// Whether texts never descend.
pub open spec fn never_descends(s: Seq<Seq<char>>) -> bool {
    forall|i: int, j: int| 0 <= i < j < s.len() ==> !text_lt(#[trigger] s[j], #[trigger] s[i])
}

proof fn lemma_ordered_never_descends(s: Seq<(Seq<char>, Seq<char>)>)
    ensures
        never_descends(pair_values(ordered(s))),
{
    let keys = pair_values(s);
    let o = sorted_order(keys, s.len());
    lemma_sorted_order_indices(keys, s.len());
    lemma_sorted_order_sorted(keys, s.len());
    let r = pair_values(ordered(s));
    assert forall|i: int, j: int| 0 <= i < j < r.len() implies !text_lt(#[trigger] r[j], #[trigger] r[i]) by {
        assert(r[i] == keys[o[i]] && r[j] == keys[o[j]]);
    }
}

/// The agents of an answer are ordered by id, and so are the models and the modes of each.
pub proof fn law_lists_are_ordered(r: AcpCapabilitiesResponse, registry: AgentRegistry, catalog: OptionCatalog)
    requires
        r.answers(registry, catalog),
    ensures
        never_descends(Seq::new(r.agents@.len(), |i: int| r.agents@[i].id@)),
        forall|a: int|
            0 <= a < r.agents@.len() ==> never_descends(
                Seq::new((#[trigger] r.agents@[a]).models@.len(), |i: int| r.agents@[a].models@[i].id@),
            ) && never_descends(Seq::new(r.agents@[a].modes@.len(), |i: int| r.agents@[a].modes@[i].id@)),
{
    let all = with_missing(texts(registry.names@), catalog_names(catalog.agents@));
    let ids = agent_ids(registry, catalog);
    lemma_sorted_order_indices(all, all.len());
    lemma_sorted_order_sorted(all, all.len());
    let shown = Seq::new(r.agents@.len(), |i: int| r.agents@[i].id@);
    assert(shown =~= ids);
    let o = sorted_order(all, all.len());
    assert forall|i: int, j: int| 0 <= i < j < shown.len() implies !text_lt(
        #[trigger] shown[j],
        #[trigger] shown[i],
    ) by {
        assert(ids[i] == all[o[i]] && ids[j] == all[o[j]]);
    }
    assert forall|a: int| 0 <= a < r.agents@.len() implies never_descends(
        Seq::new((#[trigger] r.agents@[a]).models@.len(), |i: int| r.agents@[a].models@[i].id@),
    ) && never_descends(Seq::new(r.agents@[a].modes@.len(), |i: int| r.agents@[a].modes@[i].id@)) by {
        let agent = r.agents@[a];
        let entry = catalog.entry(ids[a]);
        assert(agent.describes(registry, ids[a], entry));
        let models = offered_by(entry, ConfigOptionCategory::Model);
        let modes = offered_by(entry, ConfigOptionCategory::Mode);
        match entry {
            Some(e) => {
                lemma_ordered_never_descends(e.offered(ConfigOptionCategory::Model));
                lemma_ordered_never_descends(e.offered(ConfigOptionCategory::Mode));
            },
            None => {},
        }
        assert(Seq::new(agent.models@.len(), |i: int| agent.models@[i].id@) =~= pair_values(models));
        assert(Seq::new(agent.modes@.len(), |i: int| agent.modes@[i].id@) =~= pair_values(modes));
    }
}

/// An agent without a catalog is reported without models and modes, and without a time.
pub proof fn law_undiscovered_is_empty(a: AcpAgentCapability, registry: AgentRegistry, id: Seq<char>)
    requires
        a.describes(registry, id, None),
    ensures
        a.catalog_status == CatalogStatus::Undiscovered,
        a.catalog_updated_at is None,
        a.models@.len() == 0,
        a.modes@.len() == 0,
{
}

} // verus!
