//! Delivering turns to sessions. Each step is a method of the value that the step before it gives: nothing
//! is woken, resumed or published for a caller that was not let through.

use vstd::prelude::*;

use crate::session::{find_session, lemma_find_session, position_of, Instance};
use crate::session_service::SessionService;
use crate::text::{copy_text, has_text, index_in, join2, lemma_index_in, position, same, texts};

verus! {

/// Who sends a turn. The host says so, never the request.
#[derive(Debug, Clone)]
pub enum SessionCaller {
    /// A person.
    User,
    /// A plugin.
    Plugin { plugin_id: String },
}

/// An error of the supervisor of workers, with its words.
#[derive(Debug)]
pub enum SupervisorError {
    /// There is no worker for the session.
    UnknownSession(String),
    /// Anything else.
    Other(String),
}

/// The words of an error of the supervisor.
pub open spec fn supervisor_words(e: SupervisorError) -> Seq<char> {
    match e {
        SupervisorError::UnknownSession(w) => w@,
        SupervisorError::Other(w) => w@,
    }
}

impl SupervisorError {
    pub fn message(&self) -> (r: &str)
        ensures
            r@ == supervisor_words(*self),
    {
        match self {
            SupervisorError::UnknownSession(w) => w.as_str(),
            SupervisorError::Other(w) => w.as_str(),
        }
    }
}

/// Why a turn was not delivered.
#[derive(Debug)]
pub enum SendTurnError {
    /// There is no such session. Nothing was published.
    SessionNotFound,
    /// The session was not created by the calling plugin. Nothing was published.
    NotOwner,
    /// The session's mode could not be set. Nothing was published.
    ModeApplication(SupervisorError),
    /// The worker could not be resumed. Nothing was published.
    ResumeFailed(SupervisorError),
    /// The turn was published, but the worker is not there yet.
    WorkerNotReady,
    /// The turn was published, but did not reach the worker.
    Send(SupervisorError),
}

/// The words of an error.
pub open spec fn turn_error_words(e: SendTurnError) -> Seq<char> {
    match e {
        SendTurnError::SessionNotFound => "session not found"@,
        SendTurnError::NotOwner => "session was not created by the calling plugin"@,
        SendTurnError::ModeApplication(e) => "mode application failed: "@ + supervisor_words(e),
        SendTurnError::ResumeFailed(e) => "worker resume failed: "@ + supervisor_words(e),
        SendTurnError::WorkerNotReady => "worker not ready"@,
        SendTurnError::Send(e) => "prompt forward failed: "@ + supervisor_words(e),
    }
}

impl SendTurnError {
    /// The words of the error.
    pub fn message(&self) -> (r: String)
        ensures
            r@ == turn_error_words(*self),
    {
        match self {
            SendTurnError::SessionNotFound => "session not found".to_owned(),
            SendTurnError::NotOwner => "session was not created by the calling plugin".to_owned(),
            SendTurnError::ModeApplication(e) => join2("mode application failed: ", e.message()),
            SendTurnError::ResumeFailed(e) => join2("worker resume failed: ", e.message()),
            SendTurnError::WorkerNotReady => "worker not ready".to_owned(),
            SendTurnError::Send(e) => join2("prompt forward failed: ", e.message()),
        }
    }
}

/// Whether a caller may send turns to a session.
pub open spec fn may_send(caller: SessionCaller, i: Instance) -> bool {
    match caller {
        SessionCaller::User => true,
        SessionCaller::Plugin { plugin_id } => i.owned_by(plugin_id@),
    }
}

/// A turn that was let through: the mode to set before it is published, if any.
#[derive(Debug)]
pub struct AdmittedTurn {
    pub session_id: String,
    pub mode_to_assert: Option<String>,
}

/// The mode that has to be set before a turn: a plugin's turn runs under the session's own.
pub open spec fn asserted_mode(caller: SessionCaller, i: Instance) -> Option<String> {
    match caller {
        SessionCaller::User => None,
        SessionCaller::Plugin { .. } => i.acp_mode_id,
    }
}

/// Whether a turn is let through: the session is there, and the caller may send to it.
pub open spec fn gate(r: Result<AdmittedTurn, SendTurnError>, caller: SessionCaller, s: Seq<Instance>, id: Seq<char>) -> bool {
    match find_session(s, id) {
        None => r matches Err(e) && e is SessionNotFound,
        Some(i) => if may_send(caller, s[i]) {
            r matches Ok(t) && t.session_id@ == id && t.mode_to_assert == asserted_mode(caller, s[i])
        } else {
            r matches Err(e) && e is NotOwner
        },
    }
}

/// What resuming a worker came to.
#[derive(Debug, Clone, Copy, PartialEq, Eq, Structural)]
pub enum ResumeTrigger {
    /// The session is gone.
    NotFound,
    /// The worker is coming, or was there.
    Triggered,
}

/// A turn whose worker is there or coming.
#[derive(Debug)]
pub struct ResumedTurn {
    pub session_id: String,
    pub mode_to_assert: Option<String>,
    pub resumed: bool,
}

/// A turn that can be published.
#[derive(Debug)]
pub struct ReadyTurn {
    pub session_id: String,
    pub resumed: bool,
}

impl SessionService {
    /// Lets a turn through, or not: a plugin may send turns only to sessions that it created.
    pub fn send_turn(&self, caller: &SessionCaller, id: &str) -> (r: Result<AdmittedTurn, SendTurnError>)
        ensures
            gate(r, *caller, self.instances@, id@),
    {
        let i: usize = match position_of(&self.instances, id) {
            Some(i) => i,
            None => {
                return Err(SendTurnError::SessionNotFound);
            },
        };
        let instance = &self.instances[i];
        match caller {
            SessionCaller::User => Ok(AdmittedTurn { session_id: id.to_owned(), mode_to_assert: None }),
            SessionCaller::Plugin { plugin_id } => {
                if instance.is_owned_by(plugin_id.as_str()) {
                    Ok(AdmittedTurn { session_id: id.to_owned(), mode_to_assert: copy_text(&instance.acp_mode_id) })
                } else {
                    Err(SendTurnError::NotOwner)
                }
            },
        }
    }
}

/// Whether a worker has to be resumed before a turn.
pub fn needs_resume(woke_idle_dormant: bool, is_running: bool) -> (r: bool)
    ensures
        r == (woke_idle_dormant || !is_running),
{
    woke_idle_dormant || !is_running
}

impl AdmittedTurn {
    /// The worker is there: nothing was resumed.
    pub fn running(self) -> (r: ResumedTurn)
        ensures
            r == (ResumedTurn { session_id: self.session_id, mode_to_assert: self.mode_to_assert, resumed: false }),
    {
        ResumedTurn { session_id: self.session_id, mode_to_assert: self.mode_to_assert, resumed: false }
    }

    /// The worker was resumed, or could not be.
    pub fn resumed(self, trigger: Result<ResumeTrigger, SupervisorError>) -> (r: Result<ResumedTurn, SendTurnError>)
        ensures
            r == match trigger {
                Ok(ResumeTrigger::NotFound) => Err::<ResumedTurn, SendTurnError>(SendTurnError::SessionNotFound),
                Ok(ResumeTrigger::Triggered) => Ok::<ResumedTurn, SendTurnError>(
                    ResumedTurn {
                        session_id: self.session_id,
                        mode_to_assert: self.mode_to_assert,
                        resumed: true,
                    },
                ),
                Err(e) => Err::<ResumedTurn, SendTurnError>(SendTurnError::ResumeFailed(e)),
            },
    {
        match trigger {
            Ok(ResumeTrigger::NotFound) => Err(SendTurnError::SessionNotFound),
            Ok(ResumeTrigger::Triggered) => Ok(
                ResumedTurn { session_id: self.session_id, mode_to_assert: self.mode_to_assert, resumed: true },
            ),
            Err(e) => Err(SendTurnError::ResumeFailed(e)),
        }
    }
}

impl ResumedTurn {
    /// The mode was set, or could not be; `None` says that there was none to set. A turn whose
    /// mode could not be set is withheld.
    pub fn mode_asserted(self, set: Option<Result<(), SupervisorError>>) -> (r: Result<ReadyTurn, SendTurnError>)
        requires
            (set is Some) == (self.mode_to_assert is Some),
        ensures
            match set {
                Some(Err(e)) => r == Err::<ReadyTurn, SendTurnError>(SendTurnError::ModeApplication(e)),
                _ => r == Ok::<ReadyTurn, SendTurnError>(
                    ReadyTurn { session_id: self.session_id, resumed: self.resumed },
                ),
            },
    {
        match set {
            Some(Err(e)) => Err(SendTurnError::ModeApplication(e)),
            _ => Ok(ReadyTurn { session_id: self.session_id, resumed: self.resumed }),
        }
    }
}

impl ReadyTurn {
    /// The turn was published and sent. A worker that is still unknown after it was resumed by
    /// this turn is on its way.
    pub fn sent(self, result: Result<(), SupervisorError>) -> (r: Result<(), SendTurnError>)
        ensures
            r == match result {
                Ok(_) => Ok::<(), SendTurnError>(()),
                Err(SupervisorError::UnknownSession(w)) => if self.resumed {
                    Err::<(), SendTurnError>(SendTurnError::WorkerNotReady)
                } else {
                    Err::<(), SendTurnError>(SendTurnError::Send(SupervisorError::UnknownSession(w)))
                },
                Err(e) => Err::<(), SendTurnError>(SendTurnError::Send(e)),
            },
    {
        match result {
            Ok(_) => Ok(()),
            Err(SupervisorError::UnknownSession(w)) => if self.resumed {
                Err(SendTurnError::WorkerNotReady)
            } else {
                Err(SendTurnError::Send(SupervisorError::UnknownSession(w)))
            },
            Err(e) => Err(SendTurnError::Send(e)),
        }
    }
}

/// A plugin is never let through to a session that it did not create.
pub proof fn law_plugins_reach_only_their_sessions(
    r: Result<AdmittedTurn, SendTurnError>,
    plugin_id: String,
    s: Seq<Instance>,
    id: Seq<char>,
)
    requires
        gate(r, SessionCaller::Plugin { plugin_id }, s, id),
        r is Ok,
    ensures
        exists|i: int| 0 <= i < s.len() && (#[trigger] s[i]).id@ == id && s[i].owned_by(plugin_id@),
{
    lemma_find_session(s, id);
    let i = find_session(s, id)->0;
    assert(s[i].id@ == id);
}

/// A first turn that is to be delivered: to which session, the words, where the session is
/// stored, and on whose behalf.
#[derive(Debug)]
pub struct PendingTurn {
    pub session_id: String,
    pub text: String,
    pub profile: String,
    pub caller: SessionCaller,
}

/// Who created a session.
pub open spec fn creator(i: Instance) -> SessionCaller {
    match i.created_by_plugin {
        Some(p) => SessionCaller::Plugin { plugin_id: p },
        None => SessionCaller::User,
    }
}

/// The first turn of a session that was not delivered yet.
pub open spec fn pending_of(r: Option<PendingTurn>, s: Seq<Instance>, id: Seq<char>) -> bool {
    match find_session(s, id) {
        None => r is None,
        Some(i) => match s[i].pending_initial_turn {
            None => r is None,
            Some(t) => r matches Some(p) && p.session_id@ == id && p.text == t && p.profile == s[i].source_profile
                && p.caller == creator(s[i]),
        },
    }
}

/// The sessions with the first turn of one of them marked as delivered.
pub open spec fn turn_cleared(s: Seq<Instance>, id: Seq<char>) -> Seq<Instance> {
    match find_session(s, id) {
        Some(i) => s.update(i, Instance { pending_initial_turn: None, ..s[i] }),
        None => s,
    }
}

/// Marks the first turn of a session as delivered.
pub fn clear_pending_turn(instances: &mut Vec<Instance>, id: &str)
    ensures
        final(instances)@ == turn_cleared(old(instances)@, id@),
{
    match position_of(instances, id) {
        Some(i) => {
            let mut instance = instances[i].clone();
            instance.pending_initial_turn = None;
            instances.set(i, instance);
        },
        None => {},
    }
}

/// What the end of a delivery leaves to be done.
#[derive(Debug)]
pub enum DrainEnd {
    /// The turn was delivered: it is marked so in memory, and has to be in the store of the profile.
    ClearStored { profile: String },
    /// The turn was not delivered, and stays for the next attempt.
    Retry(SendTurnError),
}

/// A list without a text.
pub open spec fn without_text(s: Seq<Seq<char>>, x: Seq<char>) -> Seq<Seq<char>>
    decreases s.len(),
{
    if s.len() == 0 {
        Seq::empty()
    } else if s.last() == x {
        without_text(s.drop_last(), x)
    } else {
        without_text(s.drop_last(), x).push(s.last())
    }
}

fn drop_text(v: &Vec<String>, x: &str) -> (r: Vec<String>)
    ensures
        texts(r@) == without_text(texts(v@), x@),
{
    let ghost all = texts(v@);
    let mut out: Vec<String> = Vec::new();
    let mut i: usize = 0;
    assert(texts(out@) =~= without_text(all.take(0), x@));
    while i < v.len()
        invariant
            i <= v@.len(),
            all == texts(v@),
            texts(out@) == without_text(all.take(i as int), x@),
        decreases v@.len() - i,
    {
        assert(all.take(i + 1).drop_last() =~= all.take(i as int));
        assert(all.take(i + 1).last() == v@[i as int]@);
        if !same(v[i].as_str(), x) {
            let ghost before = out@;
            out.push(v[i].clone());
            assert(texts(out@) =~= texts(before).push(v@[i as int]@));
        }
        i = i + 1;
    }
    assert(all.take(i as int) =~= all);
    out
}

impl SessionService {
    /// The deliveries under way.
    pub open spec fn drains(&self) -> Seq<Seq<char>> {
        texts(self.pending_drains@)
    }

    /// Claims the delivery of a session's first turn: of several at one time only one delivers.
    pub fn claim_drain(&mut self, id: &str) -> (r: bool)
        ensures
            r == !old(self).drains().contains(id@),
            final(self).drains() == if r {
                old(self).drains().push(id@)
            } else {
                old(self).drains()
            },
            final(self).instances == old(self).instances,
            final(self).create_in_flight == old(self).create_in_flight,
            final(self).instance_locks == old(self).instance_locks,
            final(self).telemetry_session_creates == old(self).telemetry_session_creates,
    {
        if has_text(&self.pending_drains, id) {
            return false;
        }
        let ghost before = self.pending_drains@;
        self.pending_drains.push(id.to_owned());
        assert(texts(self.pending_drains@) =~= texts(before).push(id@));
        true
    }

    /// The turn to deliver; where there is none, the claim is released.
    pub fn drain_pending_initial_turn(&mut self, id: &str) -> (r: Option<PendingTurn>)
        ensures
            pending_of(r, old(self).instances@, id@),
            final(self).drains() == if r is Some {
                old(self).drains()
            } else {
                without_text(old(self).drains(), id@)
            },
            final(self).instances == old(self).instances,
            final(self).create_in_flight == old(self).create_in_flight,
            final(self).instance_locks == old(self).instance_locks,
            final(self).telemetry_session_creates == old(self).telemetry_session_creates,
    {
        if let Some(i) = position_of(&self.instances, id) {
            let instance = &self.instances[i];
            if let Some(t) = &instance.pending_initial_turn {
                let caller = match &instance.created_by_plugin {
                    Some(p) => SessionCaller::Plugin { plugin_id: p.clone() },
                    None => SessionCaller::User,
                };
                return Some(
                    PendingTurn {
                        session_id: id.to_owned(),
                        text: t.clone(),
                        profile: instance.source_profile.clone(),
                        caller,
                    },
                );
            }
        }
        self.pending_drains = drop_text(&self.pending_drains, id);
        None
    }

    /// Ends a delivery: a delivered turn is marked so, one that failed stays for the next attempt,
    /// and the claim is released either way.
    pub fn end_drain(&mut self, turn: PendingTurn, result: Result<(), SendTurnError>) -> (r: DrainEnd)
        ensures
            match result {
                Ok(_) => r == (DrainEnd::ClearStored { profile: turn.profile }) && final(self).instances@
                    == turn_cleared(old(self).instances@, turn.session_id@),
                Err(e) => r == DrainEnd::Retry(e) && final(self).instances == old(self).instances,
            },
            final(self).drains() == without_text(old(self).drains(), turn.session_id@),
            final(self).create_in_flight == old(self).create_in_flight,
            final(self).instance_locks == old(self).instance_locks,
            final(self).telemetry_session_creates == old(self).telemetry_session_creates,
    {
        self.pending_drains = drop_text(&self.pending_drains, turn.session_id.as_str());
        match result {
            Ok(_) => {
                clear_pending_turn(&mut self.instances, turn.session_id.as_str());
                DrainEnd::ClearStored { profile: turn.profile }
            },
            Err(e) => DrainEnd::Retry(e),
        }
    }

    /// The lock of a session, by its number. A session gets one when it is first asked for, and
    /// keeps it.
    pub fn instance_lock(&mut self, id: &str) -> (r: usize)
        ensures
            r < final(self).instance_locks@.len(),
            index_in(texts(final(self).instance_locks@), id@) == Some(r as int),
            final(self).instance_locks@ == if index_in(texts(old(self).instance_locks@), id@) is Some {
                old(self).instance_locks@
            } else {
                old(self).instance_locks@.push(final(self).instance_locks@.last())
            },
            final(self).instances == old(self).instances,
            final(self).pending_drains == old(self).pending_drains,
            final(self).create_in_flight == old(self).create_in_flight,
            final(self).telemetry_session_creates == old(self).telemetry_session_creates,
    {
        if let Some(i) = position(&self.instance_locks, id) {
            return i;
        }
        let n: usize = self.instance_locks.len();
        let ghost before = self.instance_locks@;
        self.instance_locks.push(id.to_owned());
        proof {
            let after = texts(self.instance_locks@);
            lemma_index_in(texts(before), id@);
            lemma_index_in(after, id@);
            assert(after[n as int] == id@);
            assert(after.contains(id@));
            let k = index_in(after, id@)->0;
            if k < n {
                assert(texts(before)[k] == id@);
            }
            assert(before.push(self.instance_locks@.last()) =~= self.instance_locks@);
        }
        n
    }
}

proof fn lemma_without_text(s: Seq<Seq<char>>, x: Seq<char>)
    ensures
        !without_text(s, x).contains(x),
        !s.contains(x) ==> without_text(s, x) == s,
    decreases s.len(),
{
    if s.len() > 0 {
        lemma_without_text(s.drop_last(), x);
        let front = without_text(s.drop_last(), x);
        if s.last() != x {
            if front.push(s.last()).contains(x) {
                let j = choose|j: int| 0 <= j < front.push(s.last()).len() && front.push(s.last())[j] == x;
                assert(front[j] == x);
            }
        } else {
            assert(s[s.len() - 1] == x);
        }
        if !s.contains(x) {
            assert(!s.drop_last().contains(x)) by {
                if s.drop_last().contains(x) {
                    let j = choose|j: int| 0 <= j < s.drop_last().len() && s.drop_last()[j] == x;
                    assert(s[j] == x);
                }
            }
            assert(s[s.len() - 1] != x);
            assert(s.drop_last().push(s.last()) =~= s);
        }
    }
}

/// A delivery that was claimed is free again once its claim is released, and the claims of other
/// sessions stay.
pub proof fn law_drain_releases_claim(s: Seq<Seq<char>>, id: Seq<char>)
    requires
        !s.contains(id),
    ensures
        without_text(s.push(id), id) == s,
        !without_text(s.push(id), id).contains(id),
{
    lemma_without_text(s, id);
    assert(s.push(id).drop_last() =~= s);
}

/// A delivered turn is not delivered again: the session has none to deliver any more.
pub proof fn law_delivered_once(s: Seq<Instance>, id: Seq<char>, r: Option<PendingTurn>)
    requires
        pending_of(r, turn_cleared(s, id), id),
    ensures
        r is None,
{
    lemma_find_session(s, id);
    let t = turn_cleared(s, id);
    lemma_find_session(t, id);
    match find_session(s, id) {
        Some(i) => {
            assert(t[i].id@ == id);
            let k = find_session(t, id)->0;
            if k < i {
                assert(t[k] == s[k]);
            }
        },
        None => {},
    }
}

/// The creator of a session with a first turn may deliver it.
pub proof fn law_creator_may_send(i: Instance)
    ensures
        may_send(creator(i), i),
{
}

} // verus!
