//! What the host reports of the agents that it can run.

use vstd::prelude::*;

use crate::acp::{
    agent_ids, capabilities_get, catalog_names, choices_of, ordered, pair_values, with_missing,
    AcpCapabilitiesResponse, AgentOptionEntry, ApprovalClass, CatalogStatus, ConfigOptionCategory,
    ConfigOptionDescriptor, OptionCatalog,
};
use crate::automation::{classify_mode, AgentRegistry, ModeDecision};
use crate::order::{lemma_sorted_order_indices, sorted_order, sorted_texts};
use crate::text::texts;

verus! {

/// Whether an agent advertises a value under a name in a category.
pub open spec fn advertises_as(
    e: AgentOptionEntry,
    category: ConfigOptionCategory,
    value: Seq<char>,
    name: Seq<char>,
) -> bool {
    exists|i: int, j: int|
        0 <= i < e.options@.len() && e.options@[i].category == category && 0 <= j < e.options@[i].options@.len()
            && (#[trigger] e.options@[i].options@[j]).value@ == value && e.options@[i].options@[j].name@ == name
}

/// Whether an agent is registered or has a catalog.
pub open spec fn can_run(registry: AgentRegistry, catalog: OptionCatalog, id: Seq<char>) -> bool {
    ||| exists|i: int| 0 <= i < registry.names@.len() && (#[trigger] registry.names@[i])@ == id
    ||| exists|i: int| 0 <= i < catalog.agents@.len() && (#[trigger] catalog.agents@[i]).0@ == id
}

proof fn lemma_missing(ids: Seq<Seq<char>>, names: Seq<Seq<char>>, x: Seq<char>)
    ensures
        with_missing(ids, names).contains(x) <==> ids.contains(x) || names.contains(x),
    decreases names.len(),
{
    let all = with_missing(ids, names);
    if names.len() > 0 {
        let front = names.drop_last();
        let before = with_missing(ids, front);
        lemma_missing(ids, front, x);
        if all.contains(x) {
            let i = choose|i: int| 0 <= i < all.len() && all[i] == x;
            if i < before.len() {
                assert(before[i] == x);
                if front.contains(x) {
                    let j = choose|j: int| 0 <= j < front.len() && front[j] == x;
                    assert(names[j] == x);
                }
            } else {
                assert(names[names.len() - 1] == x);
            }
        }
        if before.contains(x) {
            let i = choose|i: int| 0 <= i < before.len() && before[i] == x;
            assert(all[i] == x);
        }
        if names.contains(x) {
            let j = choose|j: int| 0 <= j < names.len() && names[j] == x;
            if j < front.len() {
                assert(front[j] == x);
            } else if !before.contains(x) {
                assert(all[all.len() - 1] == x);
            }
        }
    } else {
        if names.contains(x) {
            let j = choose|j: int| 0 <= j < names.len() && names[j] == x;
            assert(false);
        }
    }
}

proof fn lemma_sorted_contains(s: Seq<Seq<char>>, x: Seq<char>)
    ensures
        sorted_texts(s).contains(x) <==> s.contains(x),
{
    let o = sorted_order(s, s.len());
    lemma_sorted_order_indices(s, s.len());
    let r = sorted_texts(s);
    if r.contains(x) {
        let k = choose|k: int| 0 <= k < r.len() && r[k] == x;
        assert(s[o[k]] == x);
    }
    if s.contains(x) {
        let k = choose|k: int| 0 <= k < s.len() && s[k] == x;
        assert(o.contains(k));
        let m = choose|m: int| 0 <= m < o.len() && o[m] == k;
        assert(r[m] == x);
    }
}

proof fn lemma_can_run(registry: AgentRegistry, catalog: OptionCatalog, x: Seq<char>)
    ensures
        agent_ids(registry, catalog).contains(x) <==> can_run(registry, catalog, x),
{
    let names = texts(registry.names@);
    let listed = catalog_names(catalog.agents@);
    lemma_missing(names, listed, x);
    lemma_sorted_contains(with_missing(names, listed), x);
    if names.contains(x) {
        let i = choose|i: int| 0 <= i < names.len() && names[i] == x;
        assert(registry.names@[i]@ == x);
    }
    if listed.contains(x) {
        let i = choose|i: int| 0 <= i < listed.len() && listed[i] == x;
        assert(catalog.agents@[i].0@ == x);
    }
    if exists|i: int| 0 <= i < registry.names@.len() && (#[trigger] registry.names@[i])@ == x {
        let i = choose|i: int| 0 <= i < registry.names@.len() && (#[trigger] registry.names@[i])@ == x;
        assert(names[i] == x);
    }
    if exists|i: int| 0 <= i < catalog.agents@.len() && (#[trigger] catalog.agents@[i]).0@ == x {
        let i = choose|i: int| 0 <= i < catalog.agents@.len() && (#[trigger] catalog.agents@[i]).0@ == x;
        assert(listed[i] == x);
    }
}

proof fn lemma_pair(options: Seq<ConfigOptionDescriptor>, n: nat, category: ConfigOptionCategory, k: int)
    requires
        n <= options.len(),
        0 <= k < choices_of(options, n, category).len(),
    ensures
        exists|i: int, j: int|
            0 <= i < n && options[i].category == category && 0 <= j < options[i].options@.len() && (
            #[trigger] options[i].options@[j]).value@ == choices_of(options, n, category)[k].0
                && options[i].options@[j].name@ == choices_of(options, n, category)[k].1,
    decreases n,
{
    if n > 0 {
        let m = (n - 1) as nat;
        let before = choices_of(options, m, category);
        if k < before.len() {
            lemma_pair(options, m, category, k);
            let (i, j) = choose|i: int, j: int|
                0 <= i < m && options[i].category == category && 0 <= j < options[i].options@.len() && (
                #[trigger] options[i].options@[j]).value@ == before[k].0 && options[i].options@[j].name@ == before[k].1;
            assert(options[i].options@[j].value@ == choices_of(options, n, category)[k].0);
        } else {
            let j = k - before.len();
            assert(options[m as int].options@[j].value@ == choices_of(options, n, category)[k].0);
        }
    }
}

proof fn lemma_chosen(
    options: Seq<ConfigOptionDescriptor>,
    n: nat,
    category: ConfigOptionCategory,
    i: int,
    j: int,
) -> (k: int)
    requires
        0 <= i < n <= options.len(),
        options[i].category == category,
        0 <= j < options[i].options@.len(),
    ensures
        0 <= k < choices_of(options, n, category).len(),
        choices_of(options, n, category)[k] == (options[i].options@[j].value@, options[i].options@[j].name@),
    decreases n,
{
    let m = (n - 1) as nat;
    let before = choices_of(options, m, category);
    if i < m {
        lemma_chosen(options, m, category, i, j)
    } else {
        before.len() + j
    }
}

proof fn lemma_ordered(s: Seq<(Seq<char>, Seq<char>)>, p: (Seq<char>, Seq<char>))
    ensures
        ordered(s).len() == s.len(),
        ordered(s).contains(p) <==> s.contains(p),
{
    let o = sorted_order(pair_values(s), s.len());
    lemma_sorted_order_indices(pair_values(s), s.len());
    let r = ordered(s);
    if r.contains(p) {
        let k = choose|k: int| 0 <= k < r.len() && r[k] == p;
        assert(s[o[k]] == p);
    }
    if s.contains(p) {
        let k = choose|k: int| 0 <= k < s.len() && s[k] == p;
        assert(o.contains(k));
        let m = choose|m: int| 0 <= m < o.len() && o[m] == k;
        assert(r[m] == p);
    }
}

proof fn lemma_advertised(e: AgentOptionEntry, category: ConfigOptionCategory, p: (Seq<char>, Seq<char>))
    ensures
        ordered(e.offered(category)).contains(p) <==> advertises_as(e, category, p.0, p.1),
{
    let s = e.offered(category);
    lemma_ordered(s, p);
    if s.contains(p) {
        let k = choose|k: int| 0 <= k < s.len() && s[k] == p;
        lemma_pair(e.options@, e.options@.len(), category, k);
    }
    if advertises_as(e, category, p.0, p.1) {
        let (i, j) = choose|i: int, j: int|
            0 <= i < e.options@.len() && e.options@[i].category == category && 0 <= j < e.options@[i].options@.len()
                && (#[trigger] e.options@[i].options@[j]).value@ == p.0 && e.options@[i].options@[j].name@ == p.1;
        let k = lemma_chosen(e.options@, e.options@.len(), category, i, j);
        assert(s[k] == p);
    }
}

/// The agents reported are those that are registered or have a catalog.
pub proof fn law_agents_that_can_run_are_reported(
    registry: &AgentRegistry,
    catalog: &OptionCatalog,
    r: AcpCapabilitiesResponse,
    id: Seq<char>,
)
    requires
        call_ensures(capabilities_get, (registry, catalog), r),
    ensures
        (exists|k: int| 0 <= k < r.agents@.len() && (#[trigger] r.agents@[k]).id@ == id) <==> can_run(
            *registry,
            *catalog,
            id,
        ),
{
    let ids = agent_ids(*registry, *catalog);
    lemma_can_run(*registry, *catalog, id);
    if exists|k: int| 0 <= k < r.agents@.len() && (#[trigger] r.agents@[k]).id@ == id {
        let k = choose|k: int| 0 <= k < r.agents@.len() && (#[trigger] r.agents@[k]).id@ == id;
        assert(r.agents@[k].describes(*registry, ids[k], catalog.entry(ids[k])));
        assert(ids[k] == id);
    }
    if ids.contains(id) {
        let k = choose|k: int| 0 <= k < ids.len() && ids[k] == id;
        assert(r.agents@[k].describes(*registry, ids[k], catalog.entry(ids[k])));
    }
}

/// An agent is reported with what it advertised: its models and modes under their names, and when that was.
/// An agent that advertised nothing yet has none.
pub proof fn law_agent_is_reported_as_advertised(
    registry: &AgentRegistry,
    catalog: &OptionCatalog,
    r: AcpCapabilitiesResponse,
    k: int,
    id: &str,
    entry: Option<&AgentOptionEntry>,
    value: Seq<char>,
    name: Seq<char>,
)
    requires
        call_ensures(capabilities_get, (registry, catalog), r),
        0 <= k < r.agents@.len(),
        id@ == r.agents@[k].id@,
        call_ensures(OptionCatalog::get, (catalog, id), entry),
    ensures
        r.agents@[k].display_name@ == id@,
        r.agents@[k].catalog_status == CatalogStatus::Discovered <==> entry is Some,
        entry is None ==> r.agents@[k].catalog_updated_at is None && r.agents@[k].models@.len() == 0
            && r.agents@[k].modes@.len() == 0,
        entry matches Some(e) ==> {
            let a = r.agents@[k];
            &&& a.catalog_updated_at is Some && a.catalog_updated_at->0@ == e.updated_at@
            &&& (exists|i: int|
                0 <= i < a.models@.len() && (#[trigger] a.models@[i]).id@ == value && a.models@[i].display_name@ == name)
                <==> advertises_as(*e, ConfigOptionCategory::Model, value, name)
            &&& (exists|i: int|
                0 <= i < a.modes@.len() && (#[trigger] a.modes@[i]).id@ == value && a.modes@[i].display_name@ == name)
                <==> advertises_as(*e, ConfigOptionCategory::Mode, value, name)
        },
{
    let ids = agent_ids(*registry, *catalog);
    let a = r.agents@[k];
    assert(a.describes(*registry, ids[k], catalog.entry(ids[k])));
    if let Some(e) = entry {
        let p = (value, name);
        let models = ordered(e.offered(ConfigOptionCategory::Model));
        let modes = ordered(e.offered(ConfigOptionCategory::Mode));
        lemma_advertised(*e, ConfigOptionCategory::Model, p);
        lemma_advertised(*e, ConfigOptionCategory::Mode, p);
        if models.contains(p) {
            let i = choose|i: int| 0 <= i < models.len() && models[i] == p;
            assert(a.models@[i].id@ == value);
        }
        if modes.contains(p) {
            let i = choose|i: int| 0 <= i < modes.len() && modes[i] == p;
            assert(a.modes@[i].id@ == value);
        }
        if exists|i: int|
            0 <= i < a.models@.len() && (#[trigger] a.models@[i]).id@ == value && a.models@[i].display_name@ == name {
            let i = choose|i: int|
                0 <= i < a.models@.len() && (#[trigger] a.models@[i]).id@ == value && a.models@[i].display_name@ == name;
            assert(models[i] == p);
        }
        if exists|i: int|
            0 <= i < a.modes@.len() && (#[trigger] a.modes@[i]).id@ == value && a.modes@[i].display_name@ == name {
            let i = choose|i: int|
                0 <= i < a.modes@.len() && (#[trigger] a.modes@[i]).id@ == value && a.modes@[i].display_name@ == name;
            assert(modes[i] == p);
        }
    }
}

/// A mode is reported with the class that a create with it is judged by, and as unattended where the host
/// cannot tell.
pub proof fn law_mode_is_reported_with_its_class(
    registry: &AgentRegistry,
    catalog: &OptionCatalog,
    r: AcpCapabilitiesResponse,
    k: int,
    i: int,
    id: &str,
    mode: &str,
    entry: Option<&AgentOptionEntry>,
    d: ModeDecision,
)
    requires
        call_ensures(capabilities_get, (registry, catalog), r),
        0 <= k < r.agents@.len(),
        0 <= i < r.agents@[k].modes@.len(),
        id@ == r.agents@[k].id@,
        mode@ == r.agents@[k].modes@[i].id@,
        call_ensures(OptionCatalog::get, (catalog, id), entry),
        call_ensures(classify_mode, (registry, id, Some(mode), entry), d),
    ensures
        d matches ModeDecision::Class(c) ==> r.agents@[k].modes@[i].approval_class == c,
        !(d is Class) ==> r.agents@[k].modes@[i].approval_class == ApprovalClass::Unattended,
{
    let ids = agent_ids(*registry, *catalog);
    assert(r.agents@[k].describes(*registry, ids[k], catalog.entry(ids[k])));
}

} // verus!
