//! What plugins may do: the methods they reach, the modes they run agents in, and how much they may do.

use vstd::prelude::*;

use crate::acp::{choices_of, is_offered, AgentOptionEntry, ApprovalClass, ConfigOptionCategory};
use crate::automation::{
    bypass_mode, classify_mode, occurrences, AgentProfile, AgentRegistry, AutomationPolicy, CreateReservation,
    ModeDecision,
};
use crate::host_api::{DispatchError, PluginRpcContext};
use crate::json::{key_list, lemma_key_list_exists, lemma_object_finite, object_view, Json, JsonV};
use crate::laws::create::said;
use crate::session_api::{dispatch, first_error, first_missing, member_error, params_error, SessionCall, Shape};
use crate::text::{text_of, texts};

verus! {

/// Whether an agent advertises a value in a category.
pub open spec fn advertises(e: AgentOptionEntry, category: ConfigOptionCategory, value: Seq<char>) -> bool {
    exists|i: int, j: int|
        0 <= i < e.options@.len() && e.options@[i].category == category && 0 <= j < e.options@[i].options@.len()
            && (#[trigger] e.options@[i].options@[j]).value@ == value
}

proof fn lemma_choices(e: AgentOptionEntry, n: nat, category: ConfigOptionCategory, value: Seq<char>)
    requires
        n <= e.options@.len(),
    ensures
        (exists|k: int|
            0 <= k < choices_of(e.options@, n, category).len() && (#[trigger] choices_of(e.options@, n, category)[k]).0
                == value) <==> exists|i: int, j: int|
            0 <= i < n && e.options@[i].category == category && 0 <= j < e.options@[i].options@.len() && (
            #[trigger] e.options@[i].options@[j]).value@ == value,
    decreases n,
{
    if n > 0 {
        let m = (n - 1) as nat;
        lemma_choices(e, m, category, value);
        let before = choices_of(e.options@, m, category);
        let all = choices_of(e.options@, n, category);
        let opt = e.options@[m as int];
        if exists|k: int| 0 <= k < all.len() && (#[trigger] all[k]).0 == value {
            let k = choose|k: int| 0 <= k < all.len() && (#[trigger] all[k]).0 == value;
            if k < before.len() {
                assert(before[k].0 == value);
            } else {
                assert(e.options@[m as int].options@[k - before.len()].value@ == value);
            }
        }
        if exists|i: int, j: int|
            0 <= i < n && e.options@[i].category == category && 0 <= j < e.options@[i].options@.len() && (
            #[trigger] e.options@[i].options@[j]).value@ == value {
            let (i, j) = choose|i: int, j: int|
                0 <= i < n && e.options@[i].category == category && 0 <= j < e.options@[i].options@.len() && (
                #[trigger] e.options@[i].options@[j]).value@ == value;
            if i < m {
                let k = choose|k: int| 0 <= k < before.len() && (#[trigger] before[k]).0 == value;
                assert(all[k] == before[k]);
            } else {
                assert(all[before.len() + j].0 == value);
            }
        }
    }
}

/// What is offered is advertised.
pub proof fn lemma_offers(e: AgentOptionEntry, category: ConfigOptionCategory, value: Seq<char>)
    ensures
        e.offers(category, value) <==> advertises(e, category, value),
{
    let n = e.options@.len();
    lemma_choices(e, n, category, value);
    let all = choices_of(e.options@, n, category);
    assert(all == e.offered(category));
    if e.offers(category, value) {
        let k = choose|k: int| 0 <= k < e.offered(category).len() && (#[trigger] e.offered(category)[k]).0 == value;
        assert(all[k].0 == value);
    }
    if exists|k: int| 0 <= k < all.len() && (#[trigger] all[k]).0 == value {
        let k = choose|k: int| 0 <= k < all.len() && (#[trigger] all[k]).0 == value;
        assert(e.offered(category)[k].0 == value);
    }
}

/// A value is offered exactly where an option of the category has it as a choice.
pub proof fn law_offered_is_advertised(e: &AgentOptionEntry, category: ConfigOptionCategory, value: &str, r: bool)
    requires
        call_ensures(is_offered, (e, category, value), r),
    ensures
        r <==> advertises(*e, category, value@),
{
    lemma_offers(*e, category, value@);
}

/// Whether the host knows a mode as the one in which an agent bypasses approvals: the first profile of
/// the agent says so.
pub open spec fn bypasses(registry: AgentRegistry, agent: Seq<char>, mode: Seq<char>) -> bool {
    exists|i: int|
        0 <= i < registry.profiles@.len() && (#[trigger] registry.profiles@[i]).agent@ == agent && text_of(
            registry.profiles@[i].yolo_mode_id,
        ) == Some(mode) && forall|j: int| 0 <= j < i ==> (#[trigger] registry.profiles@[j]).agent@ != agent
}

proof fn lemma_bypass(p: Seq<AgentProfile>, agent: Seq<char>)
    ensures
        match bypass_mode(p, agent) {
            Some(m) => exists|i: int|
                0 <= i < p.len() && (#[trigger] p[i]).agent@ == agent && text_of(p[i].yolo_mode_id) == Some(m)
                    && forall|j: int| 0 <= j < i ==> (#[trigger] p[j]).agent@ != agent,
            None => forall|i: int|
                0 <= i < p.len() && (#[trigger] p[i]).agent@ == agent && (forall|j: int|
                    0 <= j < i ==> (#[trigger] p[j]).agent@ != agent) ==> p[i].yolo_mode_id is None,
        },
    decreases p.len(),
{
    if p.len() > 0 && p[0].agent@ != agent {
        let q = p.skip(1);
        lemma_bypass(q, agent);
        match bypass_mode(q, agent) {
            Some(m) => {
                let i = choose|i: int|
                    0 <= i < q.len() && (#[trigger] q[i]).agent@ == agent && text_of(q[i].yolo_mode_id) == Some(m)
                        && forall|j: int| 0 <= j < i ==> (#[trigger] q[j]).agent@ != agent;
                assert(p[i + 1] == q[i]);
                assert forall|j: int| 0 <= j < i + 1 implies (#[trigger] p[j]).agent@ != agent by {
                    if j > 0 {
                        assert(q[j - 1] == p[j]);
                    }
                }
            },
            None => {
                assert forall|i: int|
                    0 <= i < p.len() && (#[trigger] p[i]).agent@ == agent && (forall|j: int|
                        0 <= j < i ==> (#[trigger] p[j]).agent@ != agent) implies p[i].yolo_mode_id is None by {
                    assert(i > 0);
                    assert(q[i - 1] == p[i]);
                    assert forall|j: int| 0 <= j < i - 1 implies (#[trigger] q[j]).agent@ != agent by {
                        assert(q[j] == p[j + 1]);
                    }
                }
            },
        }
    }
}

/// A mode has the class that the host gives it, whatever an agent says: no mode and `default` ask a
/// person, `plan` is guarded, and the modes that act without one are unattended. A mode that the host does
/// not know is unattended where the agent advertises it, and refused where not.
pub proof fn law_modes_have_their_class(
    registry: &AgentRegistry,
    agent: &str,
    mode: Option<&str>,
    entry: Option<&AgentOptionEntry>,
    r: ModeDecision,
)
    requires
        call_ensures(classify_mode, (registry, agent, mode, entry), r),
    ensures
        mode is None ==> r == ModeDecision::Class(ApprovalClass::Interactive),
        mode matches Some(m) ==> {
            let asks = m@ == "default"@;
            let plans = m@ == "plan"@;
            let acts = m@ == "acceptEdits"@ || m@ == "bypassPermissions"@ || m@ == "agent-full-access"@ || m@
                == "yolo"@;
            &&& bypasses(*registry, agent@, m@) ==> r == ModeDecision::Class(ApprovalClass::Unattended)
            &&& !bypasses(*registry, agent@, m@) ==> {
                &&& asks ==> r == ModeDecision::Class(ApprovalClass::Interactive)
                &&& plans ==> r == ModeDecision::Class(ApprovalClass::Guarded)
                &&& acts ==> r == ModeDecision::Class(ApprovalClass::Unattended)
                &&& !asks && !plans && !acts ==> r == match entry {
                    None => ModeDecision::CatalogNotDiscovered,
                    Some(e) => if advertises(*e, ConfigOptionCategory::Mode, m@) {
                        ModeDecision::Class(ApprovalClass::Unattended)
                    } else {
                        ModeDecision::UnknownMode
                    },
                }
            }
        },
{
    reveal_strlit("default");
    reveal_strlit("plan");
    reveal_strlit("acceptEdits");
    reveal_strlit("bypassPermissions");
    reveal_strlit("agent-full-access");
    reveal_strlit("yolo");
    assert("default"@.len() == 7 && "plan"@.len() == 4 && "acceptEdits"@.len() == 11 && "bypassPermissions"@.len() == 17
        && "agent-full-access"@.len() == 17 && "yolo"@.len() == 4);
    assert("plan"@[0] == 'p' && "yolo"@[0] == 'y');
    lemma_bypass(registry.profiles@, agent@);
    if let Some(m) = mode {
        if bypasses(*registry, agent@, m@) {
            let i = choose|i: int|
                0 <= i < registry.profiles@.len() && (#[trigger] registry.profiles@[i]).agent@ == agent@ && text_of(
                    registry.profiles@[i].yolo_mode_id,
                ) == Some(m@) && forall|j: int| 0 <= j < i ==> (#[trigger] registry.profiles@[j]).agent@ != agent@;
            if let Some(x) = bypass_mode(registry.profiles@, agent@) {
                let k = choose|k: int|
                    0 <= k < registry.profiles@.len() && (#[trigger] registry.profiles@[k]).agent@ == agent@ && text_of(
                        registry.profiles@[k].yolo_mode_id,
                    ) == Some(x) && forall|j: int|
                        0 <= j < k ==> (#[trigger] registry.profiles@[j]).agent@ != agent@;
                assert(i == k);
            }
        }
        if let Some(e) = entry {
            lemma_offers(*e, ConfigOptionCategory::Mode, m@);
        }
    }
}

/// The texts that equal a text.
pub open spec fn equal_to(x: Seq<char>) -> spec_fn(Seq<char>) -> bool {
    |y: Seq<char>| y == x
}

/// How many creates of a plugin are admitted and not over.
pub open spec fn pending(p: AutomationPolicy, plugin_id: Seq<char>) -> nat {
    texts(p.reservations@).filter(equal_to(plugin_id)).len()
}

/// How many creates are pending.
pub proof fn lemma_pending(s: Seq<Seq<char>>, x: Seq<char>)
    ensures
        occurrences(s, x) == s.filter(equal_to(x)).len(),
    decreases s.len(),
{
    reveal(Seq::filter);
    if s.len() > 0 {
        lemma_pending(s.drop_last(), x);
    }
}

/// Whether an error has a code, and a kind that programs go by.
pub open spec fn says(e: DispatchError, code: int, kind: Seq<char>) -> bool {
    e.code == code && e.data is Some && said(e.data->0@, "kind"@) == Some(kind)
}

/// A create is admitted exactly where the plugin has fewer than five sessions, live or being created, and
/// created fewer than twenty in the last hour. It then counts as being created, and for no other plugin.
pub proof fn law_creates_are_limited(
    policy: &mut AutomationPolicy,
    plugin_id: &str,
    live: usize,
    used: Result<u64, String>,
    r: Result<CreateReservation, DispatchError>,
    other: Seq<char>,
)
    requires
        call_ensures(AutomationPolicy::admit_create, (policy, plugin_id, live, used), r),
    ensures
        r is Ok <==> live + pending(*old(policy), plugin_id@) < 5 && used is Ok && used->Ok_0 < 20,
        live + pending(*old(policy), plugin_id@) >= 5 ==> says(r->Err_0, -32004, "concurrency_limited"@),
        live + pending(*old(policy), plugin_id@) < 5 && used is Ok && used->Ok_0 >= 20 ==> says(
            r->Err_0,
            -32004,
            "rate_limited"@,
        ),
        live + pending(*old(policy), plugin_id@) < 5 && used is Err ==> r->Err_0.code == -32603 && r->Err_0.data is None,
        r is Ok ==> r->Ok_0.plugin_id@ == plugin_id@,
        pending(*final(policy), plugin_id@) == pending(*old(policy), plugin_id@) + if r is Ok {
            1int
        } else {
            0
        },
        other != plugin_id@ ==> pending(*final(policy), other) == pending(*old(policy), other),
        final(policy).schema == old(policy).schema,
{
    lemma_pending(texts(old(policy).reservations@), plugin_id@);
    lemma_pending(texts(final(policy).reservations@), plugin_id@);
    lemma_pending(texts(old(policy).reservations@), other);
    lemma_pending(texts(final(policy).reservations@), other);
    assert(final(policy).outstanding(plugin_id@) == occurrences(texts(final(policy).reservations@), plugin_id@));
    assert(final(policy).outstanding(other) == occurrences(texts(final(policy).reservations@), other));
}

/// A create that is over no longer counts, and those of other plugins still do.
pub proof fn law_release_gives_one_back(policy: &mut AutomationPolicy, plugin_id: &str, r: (), other: Seq<char>)
    requires
        call_ensures(AutomationPolicy::release_reservation, (policy, plugin_id), r),
    ensures
        pending(*old(policy), plugin_id@) > 0 ==> pending(*final(policy), plugin_id@) + 1 == pending(
            *old(policy),
            plugin_id@,
        ),
        pending(*old(policy), plugin_id@) == 0 ==> pending(*final(policy), plugin_id@) == 0,
        other != plugin_id@ ==> pending(*final(policy), other) == pending(*old(policy), other),
{
    lemma_pending(texts(old(policy).reservations@), plugin_id@);
    lemma_pending(texts(final(policy).reservations@), plugin_id@);
    lemma_pending(texts(old(policy).reservations@), other);
    lemma_pending(texts(final(policy).reservations@), other);
    assert(final(policy).outstanding(plugin_id@) == occurrences(texts(final(policy).reservations@), plugin_id@));
    assert(final(policy).outstanding(other) == occurrences(texts(final(policy).reservations@), other));
}

/// A turn is admitted exactly where the plugin sent fewer than a hundred and twenty in the last hour.
pub proof fn law_turns_are_limited(
    policy: &AutomationPolicy,
    plugin_id: &str,
    used: Result<u64, String>,
    r: Result<(), DispatchError>,
)
    requires
        call_ensures(AutomationPolicy::admit_turn, (policy, plugin_id, used), r),
    ensures
        r is Ok <==> used is Ok && used->Ok_0 < 120,
        used is Ok && used->Ok_0 >= 120 ==> says(r->Err_0, -32004, "rate_limited"@),
        used is Err ==> r->Err_0.code == -32603 && r->Err_0.data is None,
{
}

/// Whether a plugin was granted a capability.
pub open spec fn holds(ctx: PluginRpcContext, capability: Seq<char>) -> bool {
    exists|i: int|
        0 <= i < ctx.granted_capabilities@.len() && (#[trigger] ctx.granted_capabilities@[i])@ == capability
}

/// What is granted is held.
pub proof fn lemma_holds(ctx: PluginRpcContext, capability: Seq<char>)
    ensures
        holds(ctx, capability) <==> ctx.granted(capability),
{
    let g = ctx.granted_capabilities@;
    if holds(ctx, capability) {
        let i = choose|i: int| 0 <= i < g.len() && (#[trigger] g[i])@ == capability;
        assert(texts(g)[i] == capability);
    }
    if ctx.granted(capability) {
        let i = choose|i: int| 0 <= i < texts(g).len() && texts(g)[i] == capability;
        assert(g[i]@ == capability);
    }
}

/// A call gets through only with the capability of its method: asking for the agents with
/// `acp.capabilities.read`, creating a session with `session.create`, sending a turn with
/// `session.prompt`. Other methods get through never.
pub proof fn law_methods_need_their_capability(
    ctx: &PluginRpcContext,
    method: &str,
    params: &Json,
    r: Result<SessionCall, DispatchError>,
)
    requires
        call_ensures(dispatch, (ctx, method, params), r),
    ensures
        method@ == "acp.capabilities.get"@ ==> (r is Ok <==> holds(*ctx, "acp.capabilities.read"@)),
        r matches Ok(c) ==> match c {
            SessionCall::CapabilitiesGet => method@ == "acp.capabilities.get"@ && holds(
                *ctx,
                "acp.capabilities.read"@,
            ),
            SessionCall::Create(_) => method@ == "sessions.create"@ && holds(*ctx, "session.create"@),
            SessionCall::TurnSend(_) => method@ == "sessions.turn.send"@ && holds(*ctx, "session.prompt"@),
        },
        method@ == "acp.capabilities.get"@ && !holds(*ctx, "acp.capabilities.read"@) ==> says(
            r->Err_0,
            -32001,
            "capability_missing"@,
        ),
        method@ == "sessions.create"@ && !holds(*ctx, "session.create"@) ==> says(
            r->Err_0,
            -32001,
            "capability_missing"@,
        ),
        method@ == "sessions.turn.send"@ && !holds(*ctx, "session.prompt"@) ==> says(
            r->Err_0,
            -32001,
            "capability_missing"@,
        ),
        method@ != "acp.capabilities.get"@ && method@ != "sessions.create"@ && method@ != "sessions.turn.send"@
            ==> r is Err && r->Err_0.code == -32603,
{
    lemma_holds(*ctx, "acp.capabilities.read"@);
    lemma_holds(*ctx, "session.create"@);
    lemma_holds(*ctx, "session.prompt"@);
    lemma_method_names();
}

proof fn lemma_method_names()
    ensures
        "acp.capabilities.get"@ != "sessions.create"@,
        "acp.capabilities.get"@ != "sessions.turn.send"@,
        "sessions.create"@ != "sessions.turn.send"@,
{
    reveal_strlit("acp.capabilities.get");
    reveal_strlit("sessions.create");
    reveal_strlit("sessions.turn.send");
    assert("acp.capabilities.get"@.len() == 20 && "sessions.create"@.len() == 15 && "sessions.turn.send"@.len() == 18);
}

/// Whether a value is an object with the words of a turn and nothing else.
pub open spec fn is_first_turn(v: JsonV) -> bool {
    v matches JsonV::Object(m) && m.contains_key("text"@) && m["text"@] is Text && forall|k: Seq<char>| #[trigger]
        m.contains_key(k) ==> k == "text"@
}

/// Whether a value is an object that asks for a session: an agent and a path, and at will a title, a
/// group, a mode, a model, a key and a first turn, and nothing else.
pub open spec fn asks_for_session(v: JsonV) -> bool {
    v matches JsonV::Object(m) && {
        &&& m.contains_key("agent_id"@) && m["agent_id"@] is Text
        &&& m.contains_key("project_path"@) && m["project_path"@] is Text
        &&& forall|k: Seq<char>| #[trigger]
            m.contains_key(k) ==> {
                ||| k == "agent_id"@
                ||| k == "project_path"@
                ||| (k == "title"@ || k == "group"@ || k == "mode_id"@ || k == "model_id"@ || k == "idempotency_key"@)
                    && (m[k] is Text || m[k] is Null)
                ||| k == "initial_turn"@ && (m[k] is Null || is_first_turn(m[k]))
            }
    }
}

/// Whether a value is an object that sends a turn: a session and words, and nothing else.
pub open spec fn asks_for_turn(v: JsonV) -> bool {
    v matches JsonV::Object(m) && {
        &&& m.contains_key("session_id"@) && m["session_id"@] is Text
        &&& m.contains_key("text"@) && m["text"@] is Text
        &&& forall|k: Seq<char>| #[trigger] m.contains_key(k) ==> k == "session_id"@ || k == "text"@
    }
}

proof fn lemma_no_error(ks: Seq<Seq<char>>, m: Map<Seq<char>, JsonV>, shape: Shape)
    ensures
        first_error(ks, m, shape) is None <==> forall|i: int|
            0 <= i < ks.len() ==> member_error(#[trigger] ks[i], m[ks[i]], shape) is None,
    decreases ks.len(),
{
    if ks.len() > 0 {
        let rest = ks.skip(1);
        lemma_no_error(rest, m, shape);
        if first_error(ks, m, shape) is None {
            assert forall|i: int| 0 <= i < ks.len() implies member_error(#[trigger] ks[i], m[ks[i]], shape) is None by {
                if i > 0 {
                    assert(rest[i - 1] == ks[i]);
                }
            }
        } else if forall|i: int| 0 <= i < ks.len() ==> member_error(#[trigger] ks[i], m[ks[i]], shape) is None {
            assert(member_error(ks[0], m[ks[0]], shape) is None);
            assert forall|i: int| 0 <= i < rest.len() implies member_error(
                #[trigger] rest[i],
                m[rest[i]],
                shape,
            ) is None by {
                assert(rest[i] == ks[i + 1]);
            }
        }
    }
}

proof fn lemma_none_missing(names: Seq<Seq<char>>, m: Map<Seq<char>, JsonV>)
    ensures
        first_missing(names, m) is None <==> forall|i: int|
            0 <= i < names.len() ==> m.contains_key(#[trigger] names[i]),
    decreases names.len(),
{
    if names.len() > 0 {
        let rest = names.skip(1);
        lemma_none_missing(rest, m);
        if first_missing(names, m) is None {
            assert forall|i: int| 0 <= i < names.len() implies m.contains_key(#[trigger] names[i]) by {
                if i > 0 {
                    assert(rest[i - 1] == names[i]);
                }
            }
        } else if forall|i: int| 0 <= i < names.len() ==> m.contains_key(#[trigger] names[i]) {
            assert(m.contains_key(names[0]));
            assert forall|i: int| 0 <= i < rest.len() implies m.contains_key(#[trigger] rest[i]) by {
                assert(rest[i] == names[i + 1]);
            }
        }
    }
}

proof fn lemma_params(m: Map<Seq<char>, JsonV>, shape: Shape)
    requires
        m.dom().finite(),
    ensures
        params_error(JsonV::Object(m), shape) is None <==> (forall|k: Seq<char>| #[trigger]
            m.contains_key(k) ==> member_error(k, m[k], shape) is None) && (forall|i: int|
            0 <= i < shape.required().len() ==> m.contains_key(#[trigger] shape.required()[i])),
{
    let ks = key_list(m);
    lemma_key_list_exists(m);
    lemma_no_error(ks, m, shape);
    lemma_none_missing(shape.required(), m);
    if forall|k: Seq<char>| #[trigger] m.contains_key(k) ==> member_error(k, m[k], shape) is None {
        assert forall|i: int| 0 <= i < ks.len() implies member_error(#[trigger] ks[i], m[ks[i]], shape) is None by {
            assert(ks.contains(ks[i]));
            assert(m.contains_key(ks[i]));
        }
    }
    if first_error(ks, m, shape) is None {
        assert forall|k: Seq<char>| #[trigger] m.contains_key(k) implies member_error(k, m[k], shape) is None by {
            assert(ks.contains(k));
            let i = choose|i: int| 0 <= i < ks.len() && ks[i] == k;
            assert(member_error(ks[i], m[ks[i]], shape) is None);
        }
    }
}

proof fn lemma_inner(s: Seq<(String, Json)>, k: Seq<char>)
    requires
        object_view(s).contains_key(k),
    ensures
        exists|i: int| 0 <= i < s.len() && object_view(s)[k] == (#[trigger] s[i]).1@,
    decreases s.len(),
{
    if s.len() > 0 {
        if s.last().0@ == k {
            assert(object_view(s)[k] == s[s.len() - 1].1@);
        } else {
            lemma_inner(s.drop_last(), k);
            let i = choose|i: int|
                0 <= i < s.drop_last().len() && object_view(s.drop_last())[k] == (#[trigger] s.drop_last()[i]).1@;
            assert(s[i] == s.drop_last()[i]);
        }
    }
}

proof fn lemma_first_turn(v: JsonV)
    requires
        v matches JsonV::Object(m) ==> m.dom().finite(),
    ensures
        params_error(v, Shape::FirstTurn) is None <==> is_first_turn(v),
{
    if let JsonV::Object(m) = v {
        lemma_params(m, Shape::FirstTurn);
        let req = Shape::FirstTurn.required();
        assert(req =~= seq!["text"@]);
        assert(req[0] == "text"@);
        assert forall|k: Seq<char>| req.contains(k) <==> k == "text"@ by {
            if k == "text"@ {
                assert(req[0] == k);
            }
        }
        if params_error(v, Shape::FirstTurn) is None {
            assert(m.contains_key(req[0]));
            assert(member_error("text"@, m["text"@], Shape::FirstTurn) is None);
        }
    }
}

/// The parameters of a create are accepted exactly where they ask for a session.
pub proof fn law_create_parameters(
    ctx: &PluginRpcContext,
    method: &str,
    params: &Json,
    r: Result<SessionCall, DispatchError>,
)
    requires
        call_ensures(dispatch, (ctx, method, params), r),
        method@ == "sessions.create"@,
        holds(*ctx, "session.create"@),
    ensures
        r is Ok <==> asks_for_session(params@),
        r is Err ==> r->Err_0.code == -32602,
        r matches Ok(c) ==> c is Create,
        r matches Ok(SessionCall::Create(q)) ==> Some(q.project_path@) == said(params@, "project_path"@) && Some(
            q.agent_id@,
        ) == said(params@, "agent_id"@),
{
    lemma_holds(*ctx, "session.create"@);
    lemma_method_names();
    if let Json::Object(o) = *params {
        let m = params@->Object_0;
        lemma_object_finite(o.entries@);
        lemma_params(m, Shape::Create);
        let req = Shape::Create.required();
        let opt = Shape::Create.optional();
        assert(req[0] == "agent_id"@ && req[1] == "project_path"@);
        assert forall|k: Seq<char>| req.contains(k) <==> k == "agent_id"@ || k == "project_path"@ by {
            if k == "agent_id"@ {
                assert(req[0] == k);
            }
            if k == "project_path"@ {
                assert(req[1] == k);
            }
        }
        assert forall|k: Seq<char>|
            opt.contains(k) <==> k == "title"@ || k == "group"@ || k == "mode_id"@ || k == "model_id"@ || k
                == "idempotency_key"@ by {
            assert(opt[0] == "title"@ && opt[1] == "group"@ && opt[2] == "mode_id"@ && opt[3] == "model_id"@ && opt[4]
                == "idempotency_key"@);
        }
        lemma_create_fields();
        assert forall|k: Seq<char>| #[trigger] m.contains_key(k) implies (member_error(k, m[k], Shape::Create) is None <==> {
            ||| (k == "agent_id"@ || k == "project_path"@) && m[k] is Text
            ||| (k == "title"@ || k == "group"@ || k == "mode_id"@ || k == "model_id"@ || k == "idempotency_key"@) && (
            m[k] is Text || m[k] is Null)
            ||| k == "initial_turn"@ && (m[k] is Null || is_first_turn(m[k]))
        }) by {
            if k == "initial_turn"@ {
                lemma_inner(o.entries@, k);
                let i = choose|i: int| 0 <= i < o.entries@.len() && m[k] == (#[trigger] o.entries@[i]).1@;
                if let Json::Object(p) = o.entries@[i].1 {
                    lemma_object_finite(p.entries@);
                }
                lemma_first_turn(m[k]);
            }
        }
        if asks_for_session(params@) {
            assert forall|i: int| 0 <= i < req.len() implies m.contains_key(#[trigger] req[i]) by {
                assert(i == 0 || i == 1);
            }
            assert(params_error(params@, Shape::Create) is None);
        }
        if params_error(params@, Shape::Create) is None {
            assert(m.contains_key(req[0]) && m.contains_key(req[1]));
            assert(asks_for_session(params@));
        }
    }
}

proof fn lemma_create_fields()
    ensures
        "agent_id"@.len() == 8,
        "project_path"@.len() == 12,
        "title"@.len() == 5 && "title"@[0] == 't',
        "group"@.len() == 5 && "group"@[0] == 'g',
        "mode_id"@.len() == 7,
        "model_id"@.len() == 8 && "model_id"@[0] == 'm',
        "agent_id"@[0] == 'a',
        "idempotency_key"@.len() == 15,
        "initial_turn"@.len() == 12 && "initial_turn"@[0] == 'i',
        "project_path"@[0] == 'p',
{
    reveal_strlit("agent_id");
    reveal_strlit("project_path");
    reveal_strlit("title");
    reveal_strlit("group");
    reveal_strlit("mode_id");
    reveal_strlit("model_id");
    reveal_strlit("idempotency_key");
    reveal_strlit("initial_turn");
}

/// The parameters of a turn are accepted exactly where they name a session and words and nothing else,
/// and these are the session and the words of the turn.
pub proof fn law_turn_parameters(
    ctx: &PluginRpcContext,
    method: &str,
    params: &Json,
    r: Result<SessionCall, DispatchError>,
)
    requires
        call_ensures(dispatch, (ctx, method, params), r),
        method@ == "sessions.turn.send"@,
        holds(*ctx, "session.prompt"@),
    ensures
        r is Ok <==> asks_for_turn(params@),
        r is Err ==> r->Err_0.code == -32602,
        r matches Ok(c) ==> c is TurnSend,
        r matches Ok(SessionCall::TurnSend(q)) ==> Some(q.session_id@) == said(params@, "session_id"@) && Some(q.text@)
            == said(params@, "text"@),
{
    lemma_holds(*ctx, "session.prompt"@);
    lemma_method_names();
    if let Json::Object(o) = *params {
        let m = params@->Object_0;
        lemma_object_finite(o.entries@);
        lemma_params(m, Shape::Turn);
        let req = Shape::Turn.required();
        assert(req[0] == "session_id"@ && req[1] == "text"@);
        assert forall|k: Seq<char>| req.contains(k) <==> k == "session_id"@ || k == "text"@ by {
            if k == "session_id"@ {
                assert(req[0] == k);
            }
            if k == "text"@ {
                assert(req[1] == k);
            }
        }
        if asks_for_turn(params@) {
            assert forall|i: int| 0 <= i < req.len() implies m.contains_key(#[trigger] req[i]) by {
                assert(i == 0 || i == 1);
            }
            assert(params_error(params@, Shape::Turn) is None);
        }
        if params_error(params@, Shape::Turn) is None {
            assert(m.contains_key(req[0]) && m.contains_key(req[1]));
            assert(asks_for_turn(params@));
        }
    }
}

} // verus!
