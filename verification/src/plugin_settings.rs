//! The choices of the dynamic selects of plugin settings.

use vstd::prelude::*;

use crate::acp::{choices, paired, ConfigOptionCategory, OptionCatalog};
use crate::order::{add_ascending, ascending};
use crate::session::Instance;
use crate::settings::schema::{OptionSource, SelectOption};
use crate::text::{is_empty, texts};

verus! {

/// The request for the choices of a source. Of models and modes, the first of the values that they
/// depend on is the agent.
#[derive(Debug)]
pub struct ResolveOptionsRequest {
    pub source: OptionSource,
    pub depends: Vec<String>,
}

/// The choices of a source.
#[derive(Debug)]
pub struct ResolveOptionsResponse {
    pub options: Vec<SelectOption>,
}

/// The values and labels of choices.
pub open spec fn option_pairs(s: Seq<SelectOption>) -> Seq<(Seq<char>, Seq<char>)> {
    Seq::new(s.len(), |i: int| (s[i].value@, s[i].label@))
}

/// Whether choices are some texts, each once and in order, each its own label.
pub open spec fn lists(s: Seq<SelectOption>, holds: spec_fn(Seq<char>) -> bool) -> bool {
    exists|names: Seq<Seq<char>>|
        {
            &&& #[trigger] ascending(names)
            &&& forall|t: Seq<char>| #[trigger] names.contains(t) <==> holds(t)
            &&& option_pairs(s) == paired(names, names)
        }
}

fn self_labelled(names: &Vec<String>) -> (r: Vec<SelectOption>)
    ensures
        option_pairs(r@) == paired(texts(names@), texts(names@)),
{
    let mut out: Vec<SelectOption> = Vec::new();
    let mut i: usize = 0;
    while i < names.len()
        invariant
            i <= names@.len(),
            out@.len() == i,
            forall|j: int|
                0 <= j < i ==> (#[trigger] out@[j]).value@ == names@[j]@ && out@[j].label@ == names@[j]@,
        decreases names@.len() - i,
    {
        out.push(SelectOption::new(names[i].as_str(), names[i].as_str()));
        i = i + 1;
    }
    assert(option_pairs(out@) =~= paired(texts(names@), texts(names@)));
    out
}

/// The registered agents, and those that the profile declares.
pub open spec fn is_agent(registry: Seq<Seq<char>>, custom: Seq<Seq<char>>) -> spec_fn(Seq<char>) -> bool {
    |t: Seq<char>| registry.contains(t) || custom.contains(t)
}

/// Adds the texts of a list to an ascending list, each once.
fn add_all(names: &mut Vec<String>, more: &Vec<String>)
    requires
        ascending(texts(old(names)@)),
    ensures
        ascending(texts(final(names)@)),
        forall|t: Seq<char>| #[trigger]
            texts(final(names)@).contains(t) <==> texts(old(names)@).contains(t) || texts(more@).contains(t),
{
    let ghost before = texts(names@);
    let ghost all = texts(more@);
    let mut i: usize = 0;
    while i < more.len()
        invariant
            i <= more@.len(),
            all == texts(more@),
            ascending(texts(names@)),
            forall|t: Seq<char>| #[trigger]
                texts(names@).contains(t) <==> before.contains(t) || all.take(i as int).contains(t),
        decreases more@.len() - i,
    {
        let ghost done = all.take(i as int);
        let ghost x = more@[i as int]@;
        assert(all.take(i + 1) =~= done.push(x));
        add_ascending(names, more[i].clone());
        i = i + 1;
        assert forall|t: Seq<char>| #[trigger]
            texts(names@).contains(t) <==> before.contains(t) || all.take(i as int).contains(t) by {
            crate::settings::plugin::lemma_push_contains(done, x, t);
        }
    }
    assert(all.take(i as int) =~= all);
}

/// The registered agents and those that the profile declares, each once and in order.
pub fn acp_agent_options(registry: &Vec<String>, custom: &Vec<String>) -> (r: Vec<SelectOption>)
    ensures
        lists(r@, is_agent(texts(registry@), texts(custom@))),
{
    let mut names: Vec<String> = Vec::new();
    assert(ascending(texts(names@)));
    add_all(&mut names, registry);
    add_all(&mut names, custom);
    let r = self_labelled(&names);
    proof {
        let ks = texts(names@);
        assert(ascending(ks));
        assert forall|t: Seq<char>| #[trigger]
            ks.contains(t) <==> is_agent(texts(registry@), texts(custom@))(t) by {}
    }
    r
}

/// The choices of a category that an agent advertised; none where no agent is chosen or nothing is
/// known of it.
pub open spec fn catalog_pairs(
    agent: Option<Seq<char>>,
    category: ConfigOptionCategory,
    catalog: OptionCatalog,
) -> Seq<(Seq<char>, Seq<char>)> {
    match agent {
        Some(a) => if a.len() == 0 {
            Seq::empty()
        } else {
            match catalog.entry(a) {
                Some(e) => e.offered(category),
                None => Seq::empty(),
            }
        },
        None => Seq::empty(),
    }
}

/// The first of a list of texts.
pub open spec fn first_of(s: Seq<String>) -> Option<Seq<char>> {
    if s.len() > 0 {
        Some(s[0]@)
    } else {
        None
    }
}

/// The choices of a category that an agent advertised.
pub fn catalog_options(depends: &Vec<String>, category: ConfigOptionCategory, catalog: &OptionCatalog) -> (r: Vec<
    SelectOption,
>)
    ensures
        option_pairs(r@) == catalog_pairs(first_of(depends@), category, *catalog),
{
    let mut out: Vec<SelectOption> = Vec::new();
    assert(option_pairs(out@) =~= Seq::<(Seq<char>, Seq<char>)>::empty());
    if depends.len() == 0 {
        return out;
    }
    let agent = depends[0].as_str();
    if is_empty(agent) {
        return out;
    }
    if let Some(entry) = catalog.get(agent) {
        let (values, names) = choices(entry, category);
        let mut i: usize = 0;
        while i < values.len()
            invariant
                i <= values@.len(),
                values@.len() == names@.len(),
                out@.len() == i,
                forall|j: int|
                    0 <= j < i ==> (#[trigger] out@[j]).value@ == values@[j]@ && out@[j].label@ == names@[j]@,
            decreases values@.len() - i,
        {
            out.push(SelectOption::new(values[i].as_str(), names[i].as_str()));
            i = i + 1;
        }
        assert(option_pairs(out@) =~= paired(texts(values@), texts(names@)));
    }
    out
}

/// The choices of projects: the path, under the name.
pub fn project_options(paths: &Vec<String>, names: &Vec<String>) -> (r: Vec<SelectOption>)
    requires
        paths@.len() == names@.len(),
    ensures
        option_pairs(r@) == paired(texts(paths@), texts(names@)),
{
    let mut out: Vec<SelectOption> = Vec::new();
    let mut i: usize = 0;
    while i < paths.len()
        invariant
            i <= paths@.len(),
            paths@.len() == names@.len(),
            out@.len() == i,
            forall|j: int|
                0 <= j < i ==> (#[trigger] out@[j]).value@ == paths@[j]@ && out@[j].label@ == names@[j]@,
        decreases paths@.len() - i,
    {
        out.push(SelectOption::new(paths[i].as_str(), names[i].as_str()));
        i = i + 1;
    }
    assert(option_pairs(out@) =~= paired(texts(paths@), texts(names@)));
    out
}

/// Whether a text is the group of one of the sessions.
pub open spec fn is_group(s: Seq<Instance>) -> spec_fn(Seq<char>) -> bool {
    |t: Seq<char>| t.len() > 0 && exists|i: int| 0 <= i < s.len() && (#[trigger] s[i]).group_path@ == t
}

/// Whether a text is the group of one of the first sessions.
pub open spec fn grouped(s: Seq<Instance>, n: int, t: Seq<char>) -> bool {
    t.len() > 0 && exists|i: int| 0 <= i < n && (#[trigger] s[i]).group_path@ == t
}

/// The groups that the sessions are in, each once and in order.
pub fn group_options(instances: &Vec<Instance>) -> (r: Vec<SelectOption>)
    ensures
        lists(r@, is_group(instances@)),
{
    let ghost all = instances@;
    let mut names: Vec<String> = Vec::new();
    let mut i: usize = 0;
    assert(ascending(texts(names@)));
    while i < instances.len()
        invariant
            i <= instances@.len(),
            all == instances@,
            ascending(texts(names@)),
            forall|t: Seq<char>| #[trigger] texts(names@).contains(t) <==> grouped(all, i as int, t),
        decreases instances@.len() - i,
    {
        let ghost before = texts(names@);
        let ghost x = instances@[i as int].group_path@;
        if !is_empty(instances[i].group_path.as_str()) {
            add_ascending(&mut names, instances[i].group_path.clone());
        }
        i = i + 1;
        assert forall|t: Seq<char>| #[trigger] texts(names@).contains(t) <==> grouped(all, i as int, t) by {
            assert(before.contains(t) <==> grouped(all, i - 1, t));
            if grouped(all, i as int, t) && !grouped(all, i - 1, t) {
                let j = choose|j: int| 0 <= j < i && (#[trigger] all[j]).group_path@ == t;
                assert(j == i - 1);
            }
            if grouped(all, i - 1, t) {
                let j = choose|j: int| 0 <= j < i - 1 && (#[trigger] all[j]).group_path@ == t;
                assert(all[j].group_path@ == t);
            }
            if t == x && x.len() > 0 {
                assert(all[i - 1].group_path@ == t);
            }
        }
    }
    let r = self_labelled(&names);
    proof {
        let ks = texts(names@);
        assert(ascending(ks));
        assert forall|t: Seq<char>| #[trigger] ks.contains(t) <==> is_group(all)(t) by {
            assert(ks.contains(t) <==> grouped(all, all.len() as int, t));
        }
    }
    r
}

/// What the host knows that choices can come from: the registered agents and those that the profile
/// declares, what agents advertised, the sessions, and the paths and names of the registered projects,
/// or why they could not be loaded.
pub struct OptionState<'a> {
    pub registry: &'a Vec<String>,
    pub custom_agents: &'a Vec<String>,
    pub catalog: &'a OptionCatalog,
    pub instances: &'a Vec<Instance>,
    pub project_paths: &'a Vec<String>,
    pub project_names: &'a Vec<String>,
    pub project_error: Option<&'a str>,
}

/// The choices of a source.
pub fn resolve_option_source(state: &OptionState, source: OptionSource, depends: &Vec<String>) -> (r: Result<
    Vec<SelectOption>,
    String,
>)
    requires
        state.project_paths@.len() == state.project_names@.len(),
    ensures
        match source {
            OptionSource::AcpAgents => r matches Ok(o) && lists(
                o@,
                is_agent(texts(state.registry@), texts(state.custom_agents@)),
            ),
            OptionSource::AcpModels => r matches Ok(o) && option_pairs(o@) == catalog_pairs(
                first_of(depends@),
                ConfigOptionCategory::Model,
                *state.catalog,
            ),
            OptionSource::AcpModes => r matches Ok(o) && option_pairs(o@) == catalog_pairs(
                first_of(depends@),
                ConfigOptionCategory::Mode,
                *state.catalog,
            ),
            OptionSource::Projects => match state.project_error {
                Some(e) => r matches Err(f) && f@ == e@,
                None => r matches Ok(o) && option_pairs(o@) == paired(
                    texts(state.project_paths@),
                    texts(state.project_names@),
                ),
            },
            OptionSource::Groups => r matches Ok(o) && lists(o@, is_group(state.instances@)),
        },
{
    match source {
        OptionSource::AcpAgents => Ok(acp_agent_options(state.registry, state.custom_agents)),
        OptionSource::AcpModels => Ok(catalog_options(depends, ConfigOptionCategory::Model, state.catalog)),
        OptionSource::AcpModes => Ok(catalog_options(depends, ConfigOptionCategory::Mode, state.catalog)),
        OptionSource::Projects => match state.project_error {
            Some(e) => Err(e.to_owned()),
            None => Ok(project_options(state.project_paths, state.project_names)),
        },
        OptionSource::Groups => Ok(group_options(state.instances)),
    }
}

/// Whether choices are those of a source.
pub open spec fn resolves(
    o: Seq<SelectOption>,
    registry: Seq<Seq<char>>,
    custom: Seq<Seq<char>>,
    catalog: OptionCatalog,
    instances: Seq<Instance>,
    projects: Seq<(Seq<char>, Seq<char>)>,
    source: OptionSource,
    depends: Seq<String>,
) -> bool {
    match source {
        OptionSource::AcpAgents => lists(o, is_agent(registry, custom)),
        OptionSource::AcpModels => option_pairs(o) == catalog_pairs(
            first_of(depends),
            ConfigOptionCategory::Model,
            catalog,
        ),
        OptionSource::AcpModes => option_pairs(o) == catalog_pairs(
            first_of(depends),
            ConfigOptionCategory::Mode,
            catalog,
        ),
        OptionSource::Projects => option_pairs(o) == projects,
        OptionSource::Groups => lists(o, is_group(instances)),
    }
}

/// Answers a request for the choices of a source.
pub fn resolve_options(state: &OptionState, req: &ResolveOptionsRequest) -> (r: Result<ResolveOptionsResponse, String>)
    requires
        state.project_paths@.len() == state.project_names@.len(),
    ensures
        if req.source == OptionSource::Projects && state.project_error is Some {
            r matches Err(e) && e@ == "option resolve failed: "@ + state.project_error->0@
        } else {
            r matches Ok(a) && resolves(
                a.options@,
                texts(state.registry@),
                texts(state.custom_agents@),
                *state.catalog,
                state.instances@,
                paired(texts(state.project_paths@), texts(state.project_names@)),
                req.source,
                req.depends@,
            )
        },
{
    match resolve_option_source(state, req.source, &req.depends) {
        Ok(options) => Ok(ResolveOptionsResponse { options }),
        Err(e) => Err(crate::text::join2("option resolve failed: ", e.as_str())),
    }
}

} // verus!
