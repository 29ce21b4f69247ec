//! The choices that the settings of plugins offer.

use vstd::prelude::*;

use crate::acp::{choices, paired, AgentOptionEntry, ConfigOptionCategory, OptionCatalog};
use crate::laws::plugins::{advertises, lemma_offers};
use crate::order::ascending;
use crate::plugin_settings::{is_agent, is_group, lists, option_pairs, resolve_option_source, OptionState};
use crate::settings::schema::{OptionSource, SelectOption};
use crate::text::texts;

verus! {

/// Whether a value is among choices, under a label.
pub open spec fn offers_choice(o: Seq<SelectOption>, value: Seq<char>, label: Seq<char>) -> bool {
    exists|i: int| 0 <= i < o.len() && (#[trigger] o[i]).value@ == value && o[i].label@ == label
}

/// Whether a text is in a list.
pub open spec fn among_texts(v: Seq<String>, x: Seq<char>) -> bool {
    exists|i: int| 0 <= i < v.len() && (#[trigger] v[i])@ == x
}

proof fn lemma_among(v: Seq<String>, x: Seq<char>)
    ensures
        among_texts(v, x) <==> texts(v).contains(x),
{
    if among_texts(v, x) {
        let i = choose|i: int| 0 <= i < v.len() && (#[trigger] v[i])@ == x;
        assert(texts(v)[i] == x);
    }
    if texts(v).contains(x) {
        let i = choose|i: int| 0 <= i < texts(v).len() && texts(v)[i] == x;
        assert(v[i]@ == x);
    }
}

proof fn lemma_lists(o: Seq<SelectOption>, holds: spec_fn(Seq<char>) -> bool, x: Seq<char>)
    requires
        lists(o, holds),
    ensures
        offers_choice(o, x, x) <==> holds(x),
        forall|i: int| 0 <= i < o.len() ==> (#[trigger] o[i]).value@ == o[i].label@,
{
    let names = choose|names: Seq<Seq<char>>|
        {
            &&& #[trigger] ascending(names)
            &&& forall|t: Seq<char>| #[trigger] names.contains(t) <==> holds(t)
            &&& option_pairs(o) == paired(names, names)
        };
    let pairs = option_pairs(o);
    assert(pairs.len() == o.len());
    assert(pairs == paired(names, names));
    assert(paired(names, names).len() == names.len());
    assert forall|i: int| 0 <= i < o.len() implies (#[trigger] o[i]).value@ == o[i].label@ && o[i].value@ == names[i] by {
        assert(pairs[i] == (o[i].value@, o[i].label@));
        assert(pairs[i] == (names[i], names[i]));
    }
    if offers_choice(o, x, x) {
        let i = choose|i: int| 0 <= i < o.len() && (#[trigger] o[i]).value@ == x && o[i].label@ == x;
        assert(names[i] == x);
        assert(names.contains(x));
    }
    if holds(x) {
        assert(names.contains(x));
        let i = choose|i: int| 0 <= i < names.len() && names[i] == x;
        assert(o[i].value@ == x);
    }
}

/// Agents are offered exactly where they are registered or declared by the profile, and groups where a
/// session is in them; each under its own name.
pub proof fn law_agents_and_groups_are_offered(
    state: &OptionState,
    depends: &Vec<String>,
    agents: Result<Vec<SelectOption>, String>,
    groups: Result<Vec<SelectOption>, String>,
    x: Seq<char>,
)
    requires
        state.project_paths@.len() == state.project_names@.len(),
        call_ensures(resolve_option_source, (state, OptionSource::AcpAgents, depends), agents),
        call_ensures(resolve_option_source, (state, OptionSource::Groups, depends), groups),
    ensures
        agents is Ok,
        offers_choice(agents->Ok_0@, x, x) <==> among_texts(state.registry@, x) || among_texts(
            state.custom_agents@,
            x,
        ),
        groups is Ok,
        offers_choice(groups->Ok_0@, x, x) <==> x.len() > 0 && exists|i: int|
            0 <= i < state.instances@.len() && (#[trigger] state.instances@[i]).group_path@ == x,
{
    lemma_among(state.registry@, x);
    lemma_among(state.custom_agents@, x);
    lemma_lists(agents->Ok_0@, is_agent(texts(state.registry@), texts(state.custom_agents@)), x);
    lemma_lists(groups->Ok_0@, is_group(state.instances@), x);
}

/// The models and the modes that are offered are those that the chosen agent advertises; where none is
/// chosen, or nothing is known of it, there are none.
pub proof fn law_models_and_modes_are_offered(
    state: &OptionState,
    depends: &Vec<String>,
    models: Result<Vec<SelectOption>, String>,
    modes: Result<Vec<SelectOption>, String>,
    agent: &str,
    entry: Option<&AgentOptionEntry>,
    x: Seq<char>,
)
    requires
        state.project_paths@.len() == state.project_names@.len(),
        call_ensures(resolve_option_source, (state, OptionSource::AcpModels, depends), models),
        call_ensures(resolve_option_source, (state, OptionSource::AcpModes, depends), modes),
        depends@.len() > 0 ==> agent@ == depends@[0]@,
        call_ensures(OptionCatalog::get, (state.catalog, agent), entry),
    ensures
        models is Ok && modes is Ok,
        depends@.len() == 0 || depends@[0]@.len() == 0 || entry is None ==> models->Ok_0@.len() == 0
            && modes->Ok_0@.len() == 0,
        depends@.len() > 0 && depends@[0]@.len() > 0 && entry is Some ==> {
            &&& (exists|i: int| 0 <= i < models->Ok_0@.len() && (#[trigger] models->Ok_0@[i]).value@ == x) <==> advertises(
                *entry->0,
                ConfigOptionCategory::Model,
                x,
            )
            &&& (exists|i: int| 0 <= i < modes->Ok_0@.len() && (#[trigger] modes->Ok_0@[i]).value@ == x) <==> advertises(
                *entry->0,
                ConfigOptionCategory::Mode,
                x,
            )
        },
{
    let m = models->Ok_0@;
    let n = modes->Ok_0@;
    assert(option_pairs(m).len() == m.len());
    assert(option_pairs(n).len() == n.len());
    if depends@.len() > 0 && depends@[0]@.len() > 0 && entry is Some {
        lemma_offers(*entry->0, ConfigOptionCategory::Model, x);
        lemma_offers(*entry->0, ConfigOptionCategory::Mode, x);
        lemma_pairs(m, entry->0.offered(ConfigOptionCategory::Model), x);
        lemma_pairs(n, entry->0.offered(ConfigOptionCategory::Mode), x);
    }
}

proof fn lemma_pairs(o: Seq<SelectOption>, pairs: Seq<(Seq<char>, Seq<char>)>, x: Seq<char>)
    requires
        option_pairs(o) == pairs,
    ensures
        (exists|i: int| 0 <= i < o.len() && (#[trigger] o[i]).value@ == x) <==> exists|i: int|
            0 <= i < pairs.len() && (#[trigger] pairs[i]).0 == x,
{
    assert(pairs.len() == o.len());
    assert forall|i: int| 0 <= i < o.len() implies #[trigger] pairs[i] == (o[i].value@, o[i].label@) by {}
    if exists|i: int| 0 <= i < o.len() && (#[trigger] o[i]).value@ == x {
        let i = choose|i: int| 0 <= i < o.len() && (#[trigger] o[i]).value@ == x;
        assert(pairs[i].0 == x);
    }
    if exists|i: int| 0 <= i < pairs.len() && (#[trigger] pairs[i]).0 == x {
        let i = choose|i: int| 0 <= i < pairs.len() && (#[trigger] pairs[i]).0 == x;
        assert(o[i].value@ == x);
    }
}

/// Projects are offered by their paths under their names, in their order, and not where they could not be
/// loaded.
pub proof fn law_projects_are_offered(
    state: &OptionState,
    depends: &Vec<String>,
    r: Result<Vec<SelectOption>, String>,
    i: int,
)
    requires
        state.project_paths@.len() == state.project_names@.len(),
        call_ensures(resolve_option_source, (state, OptionSource::Projects, depends), r),
    ensures
        r is Ok <==> state.project_error is None,
        r matches Err(e) ==> e@ == state.project_error->0@,
        r matches Ok(o) ==> {
            &&& o@.len() == state.project_paths@.len()
            &&& 0 <= i < o@.len() ==> o@[i].value@ == state.project_paths@[i]@ && o@[i].label@
                == state.project_names@[i]@
        },
{
    if let Ok(o) = r {
        let pairs = option_pairs(o@);
        assert(pairs.len() == o@.len());
        if 0 <= i < o@.len() {
            assert(pairs[i] == (o@[i].value@, o@[i].label@));
            assert(pairs[i] == (state.project_paths@[i]@, state.project_names@[i]@));
        }
    }
}

} // verus!
