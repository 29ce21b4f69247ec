//! Turns: who may send them, how they are delivered, and that a first turn is delivered once.

use vstd::prelude::*;

use crate::automation::AutomationPolicy;
use crate::host_api::{DispatchError, PluginRpcContext};
use crate::json::Json;
use crate::laws::create::said;
use crate::laws::plugins::says;
use crate::session::{find_session, lemma_find_session, Instance};
use crate::session_api::{map_send_error, sessions_turn_record, sessions_turn_send, TurnSendRequest};
use crate::session_service::SessionService;
use crate::text::{text_of, texts};
use crate::turns::{
    needs_resume, without_text, AdmittedTurn, DrainEnd, PendingTurn, ReadyTurn, ResumeTrigger, ResumedTurn,
    SendTurnError, SessionCaller, SupervisorError,
};

verus! {

/// Whether a session is the first with an id.
pub open spec fn is_first(s: Seq<Instance>, id: Seq<char>, i: int) -> bool {
    0 <= i < s.len() && s[i].id@ == id && forall|j: int| 0 <= j < i ==> (#[trigger] s[j]).id@ != id
}

/// Whether there is no session with an id.
pub open spec fn is_missing(s: Seq<Instance>, id: Seq<char>) -> bool {
    forall|j: int| 0 <= j < s.len() ==> (#[trigger] s[j]).id@ != id
}

proof fn lemma_first(s: Seq<Instance>, id: Seq<char>, i: int)
    requires
        is_first(s, id, i),
    ensures
        find_session(s, id) == Some(i),
{
    lemma_find_session(s, id);
    match find_session(s, id) {
        Some(k) => {
            if k < i {
                assert(s[k].id@ != id);
            }
        },
        None => {
            assert(s[i].id@ != id);
        },
    }
}

proof fn lemma_missing(s: Seq<Instance>, id: Seq<char>)
    requires
        is_missing(s, id),
    ensures
        find_session(s, id) is None,
{
    lemma_find_session(s, id);
}

/// A person may send a turn to every session. A plugin may send one only to a session that it created,
/// and its turn runs under the mode of that session.
pub proof fn law_turns_reach_own_sessions(
    service: &SessionService,
    caller: &SessionCaller,
    id: &str,
    r: Result<AdmittedTurn, SendTurnError>,
    i: int,
)
    requires
        call_ensures(SessionService::send_turn, (service, caller, id), r),
    ensures
        is_missing(service.instances@, id@) ==> r is Err && r->Err_0 is SessionNotFound,
        is_first(service.instances@, id@, i) ==> {
            let s = service.instances@[i];
            match *caller {
                SessionCaller::User => r is Ok && r->Ok_0.session_id@ == id@ && r->Ok_0.mode_to_assert is None,
                SessionCaller::Plugin { plugin_id } => {
                    &&& text_of(s.created_by_plugin) == Some(plugin_id@) ==> r is Ok && r->Ok_0.session_id@ == id@
                        && r->Ok_0.mode_to_assert == s.acp_mode_id
                    &&& text_of(s.created_by_plugin) != Some(plugin_id@) ==> r is Err && r->Err_0 is NotOwner
                },
            }
        },
{
    let s = service.instances@;
    if is_missing(s, id@) {
        lemma_missing(s, id@);
    }
    if is_first(s, id@, i) {
        lemma_first(s, id@, i);
    }
}

/// A plugin's turn is let through exactly where it sent fewer than a hundred and twenty in the last hour
/// and the session is one that it created. It is answered too much before anything about the session.
pub proof fn law_plugin_turn_is_let_through(
    ctx: &PluginRpcContext,
    policy: &AutomationPolicy,
    service: &SessionService,
    req: &TurnSendRequest,
    used: Result<u64, String>,
    r: Result<AdmittedTurn, DispatchError>,
    i: int,
)
    requires
        call_ensures(sessions_turn_send, (ctx, policy, service, req, used), r),
    ensures
        used is Err ==> r is Err && r->Err_0.code == -32603 && r->Err_0.data is None,
        used is Ok && used->Ok_0 >= 120 ==> r is Err && says(r->Err_0, -32004, "rate_limited"@),
        used is Ok && used->Ok_0 < 120 && is_missing(service.instances@, req.session_id@) ==> r is Err && says(
            r->Err_0,
            -32602,
            "session_not_found"@,
        ),
        used is Ok && used->Ok_0 < 120 && is_first(service.instances@, req.session_id@, i) ==> {
            let s = service.instances@[i];
            &&& text_of(s.created_by_plugin) == Some(ctx.plugin_id@) ==> r is Ok && r->Ok_0.session_id@
                == req.session_id@ && r->Ok_0.mode_to_assert == s.acp_mode_id
            &&& text_of(s.created_by_plugin) != Some(ctx.plugin_id@) ==> r is Err && says(
                r->Err_0,
                -32001,
                "not_owner"@,
            )
        },
{
    let s = service.instances@;
    if is_missing(s, req.session_id@) {
        lemma_missing(s, req.session_id@);
    }
    if is_first(s, req.session_id@, i) {
        lemma_first(s, req.session_id@, i);
    }
}

/// A turn that was let through is delivered to its session where the worker is there or comes, its mode
/// is set where it has one, and sending succeeds. What fails first is why it was not.
pub proof fn law_turn_is_delivered(
    turn: AdmittedTurn,
    trigger: Option<Result<ResumeTrigger, SupervisorError>>,
    resumed: Result<ResumedTurn, SendTurnError>,
    set: Option<Result<(), SupervisorError>>,
    ready: Result<ReadyTurn, SendTurnError>,
    sent: Result<(), SupervisorError>,
    r: Result<(), SendTurnError>,
)
    requires
        match trigger {
            None => resumed is Ok && call_ensures(AdmittedTurn::running, (turn,), resumed->Ok_0),
            Some(t) => call_ensures(AdmittedTurn::resumed, (turn, t), resumed),
        },
        resumed is Ok ==> (set is Some <==> turn.mode_to_assert is Some) && call_ensures(
            ResumedTurn::mode_asserted,
            (resumed->Ok_0, set),
            ready,
        ),
        resumed is Ok && ready is Ok ==> call_ensures(ReadyTurn::sent, (ready->Ok_0, sent), r),
    ensures
        trigger == Some(Ok::<ResumeTrigger, SupervisorError>(ResumeTrigger::NotFound)) ==> resumed is Err
            && resumed->Err_0 is SessionNotFound,
        trigger matches Some(Err(e)) ==> resumed == Err::<ResumedTurn, SendTurnError>(SendTurnError::ResumeFailed(e)),
        trigger is None || trigger == Some(Ok::<ResumeTrigger, SupervisorError>(ResumeTrigger::Triggered))
            ==> resumed is Ok && resumed->Ok_0.session_id == turn.session_id && resumed->Ok_0.mode_to_assert
            == turn.mode_to_assert,
        resumed is Ok && (set matches Some(Err(e)) && true) ==> ready is Err && ready->Err_0 is ModeApplication,
        resumed is Ok && (set is None || set->0 is Ok) ==> ready is Ok && ready->Ok_0.session_id == turn.session_id,
        resumed is Ok && ready is Ok ==> (r is Ok <==> sent is Ok),
        resumed is Ok && ready is Ok && sent is Err ==> (r->Err_0 is WorkerNotReady <==> sent->Err_0 is UnknownSession
            && trigger is Some),
        resumed is Ok && ready is Ok && sent is Err && !(r->Err_0 is WorkerNotReady) ==> r == Err::<(), SendTurnError>(
            SendTurnError::Send(sent->Err_0),
        ),
{
}

/// A worker is resumed before a turn exactly where it was woken from dormancy or does not run.
pub proof fn law_resume_is_needed(woke: bool, running: bool, r: bool)
    requires
        call_ensures(needs_resume, (woke, running), r),
    ensures
        r <==> woke || !running,
{
}

/// A turn that failed is answered by why.
pub proof fn law_failed_turn_is_answered(e: SendTurnError, d: DispatchError)
    requires
        call_ensures(map_send_error, (e,), d),
    ensures
        e is SessionNotFound ==> says(d, -32602, "session_not_found"@),
        e is NotOwner ==> says(d, -32001, "not_owner"@),
        e is ModeApplication ==> says(d, -32005, "mode_application_failed"@),
        e is ResumeFailed || e is WorkerNotReady ==> says(d, -32006, "worker_not_ready"@),
        e is Send ==> d.code == -32603 && d.data is None,
{
}

/// The record of a turn names the session and what became of it, and holds nothing of its words.
pub proof fn law_turn_is_recorded_without_words(id: &str, r: &Result<(), DispatchError>, v: Json, k: Seq<char>)
    requires
        call_ensures(sessions_turn_record, (id, r), v),
    ensures
        said(v@, "op"@) == Some("sessions.turn.send"@),
        said(v@, "session"@) == Some(id@),
        said(v@, "decision"@) == Some(
            if *r is Ok {
                "ok"@
            } else {
                "denied"@
            },
        ),
        said(v@, k) is Some ==> k == "op"@ || k == "session"@ || k == "decision"@ || k == "kind"@,
{
    reveal_strlit("op");
    reveal_strlit("decision");
    reveal_strlit("session");
    reveal_strlit("kind");
    assert("op"@.len() == 2 && "decision"@.len() == 8 && "session"@.len() == 7 && "kind"@.len() == 4);
}

/// Whether the delivery of a session's first turn is under way.
pub open spec fn under_way(s: SessionService, id: Seq<char>) -> bool {
    exists|i: int| 0 <= i < s.pending_drains@.len() && (#[trigger] s.pending_drains@[i])@ == id
}

proof fn lemma_under_way(s: SessionService, id: Seq<char>)
    ensures
        under_way(s, id) <==> s.drains().contains(id),
{
    let g = s.pending_drains@;
    if under_way(s, id) {
        let i = choose|i: int| 0 <= i < g.len() && (#[trigger] g[i])@ == id;
        assert(texts(g)[i] == id);
    }
    if s.drains().contains(id) {
        let i = choose|i: int| 0 <= i < texts(g).len() && texts(g)[i] == id;
        assert(g[i]@ == id);
    }
}

proof fn lemma_without(s: Seq<Seq<char>>, x: Seq<char>, y: Seq<char>)
    ensures
        without_text(s, x).contains(y) <==> s.contains(y) && y != x,
    decreases s.len(),
{
    if s.len() > 0 {
        let front = s.drop_last();
        lemma_without(front, x, y);
        if s.contains(y) {
            let i = choose|i: int| 0 <= i < s.len() && s[i] == y;
            if i < front.len() {
                assert(front[i] == y);
            }
        }
        if front.contains(y) {
            let i = choose|i: int| 0 <= i < front.len() && front[i] == y;
            assert(s[i] == y);
        }
        let w = without_text(front, x);
        if s.last() != x {
            let v = w.push(s.last());
            if w.contains(y) {
                let i = choose|i: int| 0 <= i < w.len() && w[i] == y;
                assert(v[i] == y);
            }
            assert(v[w.len() as int] == s.last());
            if v.contains(y) {
                let i = choose|i: int| 0 <= i < v.len() && v[i] == y;
                if i < w.len() {
                    assert(w[i] == y);
                } else {
                    assert(s[s.len() - 1] == y);
                }
            }
        }
    }
}

/// Of several deliveries of one first turn only one is let through, until that one is over. A delivery of
/// another session's does not matter.
pub proof fn law_one_delivery_at_a_time(service: &mut SessionService, id: &str, r: bool, other: Seq<char>)
    requires
        call_ensures(SessionService::claim_drain, (service, id), r),
    ensures
        r <==> !under_way(*old(service), id@),
        under_way(*final(service), id@),
        other != id@ ==> (under_way(*final(service), other) <==> under_way(*old(service), other)),
        final(service).instances == old(service).instances,
{
    lemma_under_way(*old(service), id@);
    lemma_under_way(*final(service), id@);
    lemma_under_way(*old(service), other);
    lemma_under_way(*final(service), other);
    let a = old(service).drains();
    let b = final(service).drains();
    if r {
        assert(b[a.len() as int] == id@);
        if a.contains(other) {
            let i = choose|i: int| 0 <= i < a.len() && a[i] == other;
            assert(b[i] == other);
        }
        if b.contains(other) && other != id@ {
            let i = choose|i: int| 0 <= i < b.len() && b[i] == other;
            assert(a[i] == other);
        }
    }
}

/// A first turn that was delivered is no longer pending, and everything else stays; one that was not
/// delivered stays pending. Either way the delivery is over.
pub proof fn law_first_turn_is_delivered_once(
    service: &mut SessionService,
    turn: PendingTurn,
    result: Result<(), SendTurnError>,
    r: DrainEnd,
    i: int,
    j: int,
    other: Seq<char>,
)
    requires
        call_ensures(SessionService::end_drain, (service, turn, result), r),
        is_first(old(service).instances@, turn.session_id@, i),
        0 <= j < old(service).instances@.len(),
    ensures
        !under_way(*final(service), turn.session_id@),
        other != turn.session_id@ ==> (under_way(*final(service), other) <==> under_way(*old(service), other)),
        final(service).instances@.len() == old(service).instances@.len(),
        j != i ==> final(service).instances@[j] == old(service).instances@[j],
        result is Ok ==> final(service).instances@[i].pending_initial_turn is None,
        result is Ok ==> final(service).instances@[i] == (Instance {
            pending_initial_turn: None,
            ..old(service).instances@[i]
        }),
        result is Ok ==> r == (DrainEnd::ClearStored { profile: turn.profile }),
        result matches Err(e) ==> r == DrainEnd::Retry(e) && final(service).instances == old(service).instances,
{
    let id = turn.session_id@;
    lemma_first(old(service).instances@, id, i);
    lemma_under_way(*final(service), id);
    lemma_under_way(*old(service), other);
    lemma_under_way(*final(service), other);
    lemma_without(old(service).drains(), id, id);
    lemma_without(old(service).drains(), id, other);
}

/// The first turn that is delivered is the one pending in the session, in its profile and on behalf of who
/// created it. Where there is none, the delivery is over at once.
pub proof fn law_pending_turn_is_taken(
    service: &mut SessionService,
    id: &str,
    r: Option<PendingTurn>,
    i: int,
)
    requires
        call_ensures(SessionService::drain_pending_initial_turn, (service, id), r),
    ensures
        final(service).instances == old(service).instances,
        is_missing(old(service).instances@, id@) ==> r is None,
        is_first(old(service).instances@, id@, i) ==> {
            let s = old(service).instances@[i];
            &&& r is Some <==> s.pending_initial_turn is Some
            &&& r matches Some(t) ==> t.session_id@ == id@ && t.text == s.pending_initial_turn->0 && t.profile
                == s.source_profile && t.caller == match s.created_by_plugin {
                Some(p) => SessionCaller::Plugin { plugin_id: p },
                None => SessionCaller::User,
            }
        },
        r is None ==> !under_way(*final(service), id@),
        r is Some ==> (under_way(*final(service), id@) <==> under_way(*old(service), id@)),
{
    let s = old(service).instances@;
    if is_missing(s, id@) {
        lemma_missing(s, id@);
    }
    if is_first(s, id@, i) {
        lemma_first(s, id@, i);
    }
    lemma_under_way(*old(service), id@);
    lemma_under_way(*final(service), id@);
    lemma_without(old(service).drains(), id@, id@);
}

} // verus!
