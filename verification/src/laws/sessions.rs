//! The sessions that there are, and what a new one is told of them.

use vstd::prelude::*;

use crate::capability::CapabilityId;
use crate::host_api::{DispatchError, PluginRpcContext};
use crate::json::{member, JsonV};
use crate::laws::plugins::{holds, lemma_holds};
use crate::session::{find_session, lemma_find_session, position_of, upsert_instance, Instance};
use crate::session_api::handles;
use crate::session_spawn::{
    after_spawn, agent_key, branches_of, existing_branches, existing_titles, has_pending_initial_turn, AfterSpawn,
    CreateError, Created, PersistOrder, SpawnFailure,
};

verus! {

/// A session is found by its id: the first one with it, and one wherever there is one.
pub proof fn law_session_is_found_by_id(s: &Vec<Instance>, id: &str, r: Option<usize>, k: int)
    requires
        call_ensures(position_of, (s, id), r),
        0 <= k < s@.len() && s@[k].id@ == id@,
    ensures
        r is Some && r->0 <= k && s@[r->0 as int].id@ == id@,
{
    lemma_find_session(s@, id@);
}

/// No session is found by an id that none has.
pub proof fn law_no_session_is_found(s: &Vec<Instance>, id: &str, r: Option<usize>)
    requires
        call_ensures(position_of, (s, id), r),
        forall|k: int| 0 <= k < s@.len() ==> (#[trigger] s@[k]).id@ != id@,
    ensures
        r is None,
{
    lemma_find_session(s@, id@);
}

/// Putting a session in changes no session with another id, adds one only where its id is new, and leaves
/// it under its id.
pub proof fn law_session_is_put_in(s: &mut Vec<Instance>, x: Instance, r: (), k: int)
    requires
        call_ensures(upsert_instance, (s, x), r),
    ensures
        0 <= k < old(s)@.len() && old(s)@[k].id@ != x.id@ ==> final(s)@[k] == old(s)@[k],
        (exists|i: int| 0 <= i < old(s)@.len() && (#[trigger] old(s)@[i]).id@ == x.id@) ==> final(s)@.len() == old(
            s,
        )@.len() && exists|i: int|
            0 <= i < old(s)@.len() && old(s)@[i].id@ == x.id@ && #[trigger] final(s)@[i] == x,
        (forall|i: int| 0 <= i < old(s)@.len() ==> (#[trigger] old(s)@[i]).id@ != x.id@) ==> final(s)@ == old(s)@.push(
            x,
        ),
{
    lemma_find_session(old(s)@, x.id@);
    if let Some(i) = find_session(old(s)@, x.id@) {
        assert(final(s)@[i] == x);
    }
}

proof fn lemma_branches(s: Seq<Instance>, b: Seq<char>)
    ensures
        (exists|i: int| 0 <= i < branches_of(s).len() && (#[trigger] branches_of(s)[i])@ == b) <==> exists|i: int|
            0 <= i < s.len() && (#[trigger] s[i]).worktree_branch is Some && s[i].worktree_branch->0@ == b,
    decreases s.len(),
{
    let all = branches_of(s);
    if s.len() > 0 {
        let front = s.drop_last();
        let before = branches_of(front);
        lemma_branches(front, b);
        if exists|i: int| 0 <= i < all.len() && (#[trigger] all[i])@ == b {
            let i = choose|i: int| 0 <= i < all.len() && (#[trigger] all[i])@ == b;
            if i < before.len() {
                assert(before[i]@ == b);
                let j = choose|j: int|
                    0 <= j < front.len() && (#[trigger] front[j]).worktree_branch is Some
                        && front[j].worktree_branch->0@ == b;
                assert(s[j].worktree_branch is Some);
            } else {
                assert(s[s.len() - 1].worktree_branch is Some);
            }
        }
        if exists|i: int| 0 <= i < s.len() && (#[trigger] s[i]).worktree_branch is Some && s[i].worktree_branch->0@ == b {
            let i = choose|i: int|
                0 <= i < s.len() && (#[trigger] s[i]).worktree_branch is Some && s[i].worktree_branch->0@ == b;
            if i < front.len() {
                assert(front[i].worktree_branch is Some);
                let j = choose|j: int| 0 <= j < before.len() && (#[trigger] before[j])@ == b;
                assert(all[j]@ == b);
            } else {
                assert(all[all.len() - 1]@ == b);
            }
        }
    }
}

/// The titles and branches that a new session has to stay clear of are those of all sessions.
pub proof fn law_taken_names_are_known(
    s: &Vec<Instance>,
    titles: Vec<String>,
    branches: Vec<String>,
    k: int,
    b: Seq<char>,
)
    requires
        call_ensures(existing_titles, (s,), titles),
        call_ensures(existing_branches, (s,), branches),
        0 <= k < s@.len(),
    ensures
        titles@.len() == s@.len() && titles@[k]@ == s@[k].title@,
        (exists|i: int| 0 <= i < branches@.len() && (#[trigger] branches@[i])@ == b) <==> exists|i: int|
            0 <= i < s@.len() && (#[trigger] s@[i]).worktree_branch is Some && s@[i].worktree_branch->0@ == b,
{
    lemma_branches(s@, b);
}

/// A terminal is started for every session but a structured one. Where the session cannot be stored, the
/// error is reported, and only the directory of a scratch session goes.
pub proof fn law_session_is_stored_or_cleaned_up(
    order: PersistOrder,
    terminal: bool,
    outcome: Result<(), String>,
    is_scratch_path: bool,
    r: Result<Created, SpawnFailure>,
    structured: bool,
)
    requires
        call_ensures(PersistOrder::starts_terminal, (&order,), terminal),
        call_ensures(PersistOrder::stored, (order, outcome, is_scratch_path), r),
        call_ensures(Instance::is_structured, (&order.instance,), structured),
    ensures
        terminal <==> !structured,
        r is Ok <==> outcome is Ok,
        r matches Ok(c) ==> c.instance == order.instance && c.warnings == order.warnings && c.effort == order.effort,
        r matches Err(f) ==> {
            &&& f.error matches CreateError::Failed(m) && m@ == outcome->Err_0@
            &&& !f.remove_build
            &&& f.remove_scratch is Some <==> order.instance.scratch && is_scratch_path
            &&& f.remove_scratch matches Some(p) ==> p@ == order.instance.project_path@
        },
{
}

/// When the worker runs, a first turn that waits is delivered. When it does not, the error is shown in the
/// session, where that is still there.
pub proof fn law_worker_start_is_followed_up(
    s: &Vec<Instance>,
    id: &str,
    outcome: Result<(), String>,
    pending: bool,
    r: AfterSpawn,
    at: Option<usize>,
)
    requires
        call_ensures(position_of, (s, id), at),
        call_ensures(has_pending_initial_turn, (s, id), pending),
        call_ensures(after_spawn, (s, id, outcome, pending), r),
    ensures
        r is DeliverTurn <==> outcome is Ok && at is Some && s@[at->0 as int].pending_initial_turn is Some,
        outcome is Ok && !(r is DeliverTurn) ==> r is Nothing,
        outcome matches Err(e) ==> (at is Some ==> (r matches AfterSpawn::PublishError(m) && m@ == e@)) && (at is None
            ==> r is Ignore),
{
}

/// A caller gets through exactly with the capability that is asked of it.
pub proof fn law_capability_is_required(
    ctx: &PluginRpcContext,
    capability: &str,
    r: Result<(), DispatchError>,
)
    requires
        call_ensures(PluginRpcContext::require, (ctx, capability), r),
    ensures
        r is Ok <==> holds(*ctx, capability@),
        r matches Err(e) ==> e.code == -32001 && e.data is Some && member(e.data->0@, "kind"@) == Some(
            JsonV::Text("capability_missing"@),
        ),
{
    lemma_holds(*ctx, capability@);
}

/// The capabilities that the host knows.
pub open spec fn named_capability(id: Seq<char>) -> bool {
    ||| id == "runtime.worker"@ || id == "session.read"@ || id == "session.write"@ || id == "config.read"@
    ||| id == "config.write"@ || id == "process.spawn"@ || id == "net"@ || id == "fs.read"@ || id == "fs.write"@
    ||| id == "clipboard.read"@ || id == "clipboard.write"@ || id == "notifications"@ || id == "browser_open"@
    ||| id == "composer.read"@ || id == "composer.write"@ || id == "acp.capabilities.read"@
    ||| id == "session.create"@ || id == "session.prompt"@ || id == "session.unattended"@
}

/// A capability is known exactly where it is one of those that the host names.
pub proof fn law_known_capabilities(c: &CapabilityId, r: bool)
    requires
        call_ensures(CapabilityId::is_known, (c,), r),
    ensures
        r <==> named_capability(c.0@),
{
    let all = crate::capability::KNOWN_CAPABILITIES@;
    assert(all[0]@ == "runtime.worker"@ && all[1]@ == "session.read"@ && all[2]@ == "session.write"@);
    assert(all[3]@ == "config.read"@ && all[4]@ == "config.write"@ && all[5]@ == "process.spawn"@);
    assert(all[6]@ == "net"@ && all[7]@ == "fs.read"@ && all[8]@ == "fs.write"@ && all[9]@ == "clipboard.read"@);
    assert(all[10]@ == "clipboard.write"@ && all[11]@ == "notifications"@ && all[12]@ == "browser_open"@);
    assert(all[13]@ == "composer.read"@ && all[14]@ == "composer.write"@ && all[15]@ == "acp.capabilities.read"@);
    assert(all[16]@ == "session.create"@ && all[17]@ == "session.prompt"@ && all[18]@ == "session.unattended"@);
}

/// The agent of a session is the one it names, else its tool.
pub proof fn law_agent_of_a_session(i: &Instance, r: String)
    requires
        call_ensures(agent_key, (i,), r),
    ensures
        i.agent_name is Some && i.agent_name->0@.len() > 0 ==> r@ == i.agent_name->0@,
        i.agent_name is None || i.agent_name->0@.len() == 0 ==> r@ == i.tool@,
{
}

/// The methods on sessions are three.
pub proof fn law_session_methods(m: &str, r: bool)
    requires
        call_ensures(handles, (m,), r),
    ensures
        m@ == "acp.capabilities.get"@ || m@ == "sessions.create"@ || m@ == "sessions.turn.send"@ <==> r,
{
}

/// A session is a plugin's exactly where the plugin created it.
pub proof fn law_session_has_one_owner(i: &Instance, a: &str, b: &str, x: bool, y: bool)
    requires
        call_ensures(Instance::is_owned_by, (i, a), x),
        call_ensures(Instance::is_owned_by, (i, b), y),
    ensures
        x <==> i.created_by_plugin is Some && i.created_by_plugin->0@ == a@,
        x && y ==> a@ == b@,
{
}

} // verus!
