//! Which creates of plugins are let through, and what the others are answered.

use vstd::prelude::*;

use crate::acp::{entry_of, AgentOptionEntry, ApprovalClass, ConfigOptionCategory, OptionCatalog};
use crate::automation::{classify_mode, AgentRegistry, AutomationPolicy, ModeDecision};
use crate::host_api::{DispatchError, PluginRpcContext};
use crate::json::{Json, JsonV};
use crate::laws::create::said;
use crate::laws::plugins::{advertises, holds, lemma_holds, lemma_offers, lemma_pending, pending, says};
use crate::session::Instance;
use crate::session_api::{
    active_count, admit_and_create, check_create, count_active, map_create_error, sessions_create, AdmittedCreate,
    SessionsCreateRequest, SessionsCreateResponse,
};
use crate::session_spawn::CreateError;
use crate::text::{str_of, text_of, texts};

verus! {

/// The options of an agent are those of the first entry of it.
pub proof fn law_catalog_gives_first_entry(catalog: &OptionCatalog, id: &str, r: Option<&AgentOptionEntry>)
    requires
        call_ensures(OptionCatalog::get, (catalog, id), r),
    ensures
        r is None <==> forall|i: int| 0 <= i < catalog.agents@.len() ==> (#[trigger] catalog.agents@[i]).0@ != id@,
        r matches Some(e) ==> exists|i: int|
            0 <= i < catalog.agents@.len() && (#[trigger] catalog.agents@[i]).0@ == id@ && catalog.agents@[i].1 == *e
                && forall|j: int| 0 <= j < i ==> (#[trigger] catalog.agents@[j]).0@ != id@,
{
    lemma_entry(catalog.agents@, id@);
}

proof fn lemma_entry(s: Seq<(String, AgentOptionEntry)>, id: Seq<char>)
    ensures
        entry_of(s, id) is None <==> forall|i: int| 0 <= i < s.len() ==> (#[trigger] s[i]).0@ != id,
        entry_of(s, id) matches Some(e) ==> exists|i: int|
            0 <= i < s.len() && (#[trigger] s[i]).0@ == id && s[i].1 == e && forall|j: int|
                0 <= j < i ==> (#[trigger] s[j]).0@ != id,
    decreases s.len(),
{
    if s.len() > 0 && s[0].0@ != id {
        let q = s.skip(1);
        lemma_entry(q, id);
        match entry_of(q, id) {
            Some(e) => {
                let i = choose|i: int|
                    0 <= i < q.len() && (#[trigger] q[i]).0@ == id && q[i].1 == e && forall|j: int|
                        0 <= j < i ==> (#[trigger] q[j]).0@ != id;
                assert(s[i + 1] == q[i]);
                assert forall|j: int| 0 <= j < i + 1 implies (#[trigger] s[j]).0@ != id by {
                    if j > 0 {
                        assert(q[j - 1] == s[j]);
                    }
                }
            },
            None => {
                assert forall|i: int| 0 <= i < s.len() implies (#[trigger] s[i]).0@ != id by {
                    if i > 0 {
                        assert(q[i - 1] == s[i]);
                    }
                }
            },
        }
    }
}

/// Whether the host has an agent registered.
pub open spec fn registered(registry: AgentRegistry, agent: Seq<char>) -> bool {
    exists|i: int| 0 <= i < registry.names@.len() && (#[trigger] registry.names@[i])@ == agent
}

proof fn lemma_registered(registry: AgentRegistry, agent: Seq<char>)
    ensures
        registered(registry, agent) <==> registry.has(agent),
{
    let g = registry.names@;
    if registered(registry, agent) {
        let i = choose|i: int| 0 <= i < g.len() && (#[trigger] g[i])@ == agent;
        assert(texts(g)[i] == agent);
    }
    if registry.has(agent) {
        let i = choose|i: int| 0 <= i < texts(g).len() && texts(g)[i] == agent;
        assert(g[i]@ == agent);
    }
}

/// A create is checked in this order, and refused by the first check that fails: the agent is registered
/// or was run before; its mode is classified; an unattended mode needs the grant `session.unattended`; a
/// model has to be one that the agent advertises, where it was run before; a first turn needs the grant
/// `session.prompt`.
pub proof fn law_create_is_checked(
    ctx: &PluginRpcContext,
    registry: &AgentRegistry,
    catalog: &OptionCatalog,
    req: &SessionsCreateRequest,
    agent: &str,
    mode: Option<&str>,
    entry: Option<&AgentOptionEntry>,
    d: ModeDecision,
    r: Result<ApprovalClass, DispatchError>,
)
    requires
        agent@ == req.agent_id@,
        str_of(mode) == text_of(req.mode_id),
        call_ensures(OptionCatalog::get, (catalog, agent), entry),
        call_ensures(classify_mode, (registry, agent, mode, entry), d),
        call_ensures(check_create, (ctx, registry, catalog, req), r),
    ensures
        ({
            let known = registered(*registry, req.agent_id@) || entry is Some;
            let granted = d != ModeDecision::Class(ApprovalClass::Unattended) || holds(*ctx, "session.unattended"@);
            let modelled = req.model_id is None || entry is None || advertises(
                *entry->0,
                ConfigOptionCategory::Model,
                req.model_id->0@,
            );
            let may_prompt = req.initial_turn is None || holds(*ctx, "session.prompt"@);
            &&& r is Ok <==> known && d is Class && granted && modelled && may_prompt
            &&& r matches Ok(c) ==> d == ModeDecision::Class(c)
            &&& !known ==> says(r->Err_0, -32602, "unknown_agent"@)
            &&& known && d is UnknownMode ==> says(r->Err_0, -32602, "unknown_mode"@)
            &&& known && d is CatalogNotDiscovered ==> says(r->Err_0, -32005, "catalog_not_discovered"@)
            &&& known && d is Class && !granted ==> says(r->Err_0, -32002, "unattended_grant_required"@)
            &&& known && d is Class && !granted ==> said(r->Err_0.data->0@, "required_capability"@) == Some(
                "session.unattended"@,
            )
            &&& known && d is Class && granted && !modelled ==> says(r->Err_0, -32602, "unknown_model"@)
            &&& known && d is Class && granted && modelled && !may_prompt ==> says(
                r->Err_0,
                -32001,
                "capability_missing"@,
            )
        }),
{
    lemma_registered(*registry, req.agent_id@);
    lemma_holds(*ctx, "session.unattended"@);
    lemma_holds(*ctx, "session.prompt"@);
    if let Some(e) = entry {
        if let Some(m) = req.model_id {
            lemma_offers(*e, ConfigOptionCategory::Model, m@);
        }
    }
    reveal_strlit("kind");
    reveal_strlit("required_capability");
    reveal_strlit("agent_id");
    reveal_strlit("mode_id");
    reveal_strlit("approval_class");
    assert("kind"@.len() == 4 && "required_capability"@.len() == 19 && "agent_id"@.len() == 8 && "mode_id"@.len() == 7
        && "approval_class"@.len() == 14);
}

/// The sessions of a plugin that are neither archived nor snoozed nor trashed.
pub open spec fn live_of(plugin_id: Seq<char>) -> spec_fn(Instance) -> bool {
    |i: Instance| text_of(i.created_by_plugin) == Some(plugin_id) && !i.archived && !i.snoozed && !i.trashed
}

proof fn lemma_live(s: Seq<Instance>, plugin_id: Seq<char>)
    ensures
        active_count(s, plugin_id) == s.filter(live_of(plugin_id)).len(),
    decreases s.len(),
{
    reveal(Seq::filter);
    if s.len() > 0 {
        lemma_live(s.drop_last(), plugin_id);
    }
}

/// The live sessions of a plugin are those that it created and that are neither archived nor snoozed nor
/// trashed.
pub proof fn law_live_sessions_are_counted(instances: &Vec<Instance>, plugin_id: &str, n: usize)
    requires
        call_ensures(count_active, (instances, plugin_id), n),
    ensures
        n == instances@.filter(live_of(plugin_id@)).len(),
{
    lemma_live(instances@, plugin_id@);
}

/// A create is let through exactly where it passes its check, its project is there, and the plugin has
/// fewer than five sessions, live or being created, and created fewer than twenty in the last hour. Only
/// then it counts as being created.
pub proof fn law_create_is_admitted(
    ctx: &PluginRpcContext,
    registry: &AgentRegistry,
    catalog: &OptionCatalog,
    req: &SessionsCreateRequest,
    canonical: Result<String, String>,
    instances: &Vec<Instance>,
    policy: &mut AutomationPolicy,
    used: Result<u64, String>,
    profile: &str,
    checked: Result<ApprovalClass, DispatchError>,
    r: Result<AdmittedCreate, DispatchError>,
    other: Seq<char>,
)
    requires
        call_ensures(check_create, (ctx, registry, catalog, req), checked),
        call_ensures(
            admit_and_create,
            (ctx, registry, catalog, req, canonical, instances, policy, used, profile),
            r,
        ),
    ensures
        ({
            let n = instances@.filter(live_of(ctx.plugin_id@)).len() + pending(*old(policy), ctx.plugin_id@);
            &&& r is Ok <==> checked is Ok && canonical is Ok && n < 5 && used is Ok && used->Ok_0 < 20
            &&& checked is Err ==> r->Err_0.code == checked->Err_0.code && r->Err_0.message@ == checked->Err_0.message@
            &&& checked is Ok && canonical is Err ==> r->Err_0.code == -32602
            &&& checked is Ok && canonical is Ok && n >= 5 ==> says(r->Err_0, -32004, "concurrency_limited"@)
            &&& checked is Ok && canonical is Ok && n < 5 && used is Ok && used->Ok_0 >= 20 ==> says(
                r->Err_0,
                -32004,
                "rate_limited"@,
            )
            &&& r matches Ok(a) ==> a.reservation.plugin_id@ == ctx.plugin_id@
            &&& pending(*final(policy), ctx.plugin_id@) == pending(*old(policy), ctx.plugin_id@) + if r is Ok {
                1int
            } else {
                0
            }
            &&& other != ctx.plugin_id@ ==> pending(*final(policy), other) == pending(*old(policy), other)
        }),
{
    let p = ctx.plugin_id@;
    lemma_live(instances@, p);
    lemma_pending(texts(old(policy).reservations@), p);
    lemma_pending(texts(final(policy).reservations@), p);
    lemma_pending(texts(old(policy).reservations@), other);
    lemma_pending(texts(final(policy).reservations@), other);
    assert(final(policy).outstanding(p) == crate::automation::occurrences(texts(final(policy).reservations@), p));
    assert(final(policy).outstanding(other) == crate::automation::occurrences(
        texts(final(policy).reservations@),
        other,
    ));
}

/// A create that failed is answered by why: a key used for another request is a conflict, hooks that need
/// trust are a condition that is not met, and anything else is an error of the host.
pub proof fn law_failed_create_is_answered(e: CreateError, d: DispatchError)
    requires
        call_ensures(map_create_error, (e,), d),
    ensures
        e is IdempotencyConflict ==> says(d, -32003, "idempotency_conflict"@),
        e is HooksNeedTrust ==> says(d, -32005, "repo_untrusted"@),
        e is BuildPanicked || e is Failed ==> d.code == -32603 && d.data is None,
{
}

/// A create is answered with the session and whether it is new, or with its error; and the record of it
/// says which, without the error's words.
pub proof fn law_create_is_answered_and_recorded(
    outcome: Result<SessionsCreateResponse, DispatchError>,
    r: (Json, Result<Json, DispatchError>),
)
    requires
        call_ensures(sessions_create, (outcome,), r),
    ensures
        said(r.0@, "op"@) == Some("sessions.create"@),
        outcome matches Ok(a) ==> {
            &&& r.1 is Ok
            &&& r.1->Ok_0@ == JsonV::Object(
                map!["session_id"@ => JsonV::Text(a.session_id@), "created"@ => JsonV::Bool(a.created)],
            )
            &&& said(r.0@, "decision"@) == Some("ok"@)
            &&& said(r.0@, "session"@) == Some(a.session_id@)
        },
        outcome matches Err(e) ==> {
            &&& r.1 == Err::<Json, DispatchError>(e)
            &&& said(r.0@, "decision"@) == Some("denied"@)
            &&& e.data is Some && said(e.data->0@, "kind"@) is Some ==> said(r.0@, "kind"@) == said(
                e.data->0@,
                "kind"@,
            )
        },
{
    reveal_strlit("op");
    reveal_strlit("decision");
    reveal_strlit("session");
    reveal_strlit("created");
    reveal_strlit("code");
    reveal_strlit("kind");
    assert("op"@.len() == 2 && "decision"@.len() == 8 && "session"@.len() == 7 && "created"@.len() == 7 && "code"@.len()
        == 4 && "kind"@.len() == 4);
    assert("session"@[0] == 's' && "created"@[0] == 'c' && "code"@[0] == 'c' && "kind"@[0] == 'k');
}

} // verus!
