//! The host's policy for sessions that plugins drive: how approval modes are classified, how
//! many sessions and turns a plugin may have.

use vstd::prelude::*;

use crate::acp::{is_offered, AgentOptionEntry, ApprovalClass, ConfigOptionCategory};
use crate::events::{count_since, insert_event, prune_retention, stored_seq, variant_of, EventV, Op, Schema, Statement};
use crate::host_api::DispatchError;
use crate::json::{json_written, text, write_json, Json, JsonMap, JsonV};
use crate::protocol::codes;
use crate::text::{decimal, has_text, join2, join3, same, show, str_of, text_of, texts};

verus! {

/// How a requested approval mode is classified.
#[derive(Debug, Clone, Copy, PartialEq, Eq, Structural)]
pub enum ModeDecision {
    /// The mode can be used under this class.
    Class(ApprovalClass),
    /// The host does not know the mode, and the agent does not advertise it.
    UnknownMode,
    /// The host does not know the mode, and has never seen what the agent advertises.
    CatalogNotDiscovered,
}

/// The classes of the modes that the host knows.
pub open spec fn trusted_class(mode: Seq<char>) -> Option<ApprovalClass> {
    if mode == "default"@ {
        Some(ApprovalClass::Interactive)
    } else if mode == "plan"@ {
        Some(ApprovalClass::Guarded)
    } else if mode == "acceptEdits"@ || mode == "bypassPermissions"@ || mode == "agent-full-access"@ || mode
        == "yolo"@ {
        Some(ApprovalClass::Unattended)
    } else {
        None
    }
}

/// The classes of the modes that the host knows.
pub fn trusted_mode_class(mode: &str) -> (r: Option<ApprovalClass>)
    ensures
        r == trusted_class(mode@),
{
    if same(mode, "default") {
        // The adapters' own preset, which asks for approvals.
        Some(ApprovalClass::Interactive)
    } else if same(mode, "plan") {
        // Reads and analyses; edits are asked for.
        Some(ApprovalClass::Guarded)
    } else if same(mode, "acceptEdits") || same(mode, "bypassPermissions") || same(mode, "agent-full-access") || same(
        mode,
        "yolo",
    ) {
        // Files are written, or anything is done, without a person approving it.
        Some(ApprovalClass::Unattended)
    } else {
        None
    }
}

/// What the host knows of an agent beforehand: the mode in which it bypasses approvals, if any.
#[derive(Debug)]
pub struct AgentProfile {
    pub agent: String,
    pub yolo_mode_id: Option<String>,
}

/// The agents that the host has registered, and what it knows of them beforehand.
#[derive(Debug)]
pub struct AgentRegistry {
    pub names: Vec<String>,
    pub profiles: Vec<AgentProfile>,
}

/// The mode in which an agent bypasses approvals, as the first profile of it names it.
pub open spec fn bypass_mode(profiles: Seq<AgentProfile>, agent: Seq<char>) -> Option<Seq<char>>
    decreases profiles.len(),
{
    if profiles.len() == 0 {
        None
    } else if profiles[0].agent@ == agent {
        text_of(profiles[0].yolo_mode_id)
    } else {
        bypass_mode(profiles.skip(1), agent)
    }
}

impl AgentRegistry {
    /// The mode in which an agent bypasses approvals.
    pub open spec fn bypass(&self, agent: Seq<char>) -> Option<Seq<char>> {
        bypass_mode(self.profiles@, agent)
    }

    /// Whether an agent is registered.
    pub open spec fn has(&self, agent: Seq<char>) -> bool {
        texts(self.names@).contains(agent)
    }

    /// Whether an agent is registered.
    pub fn contains(&self, agent: &str) -> (r: bool)
        ensures
            r == self.has(agent@),
    {
        has_text(&self.names, agent)
    }

    /// The mode in which an agent bypasses approvals.
    pub fn yolo_mode_id(&self, agent: &str) -> (r: Option<&str>)
        ensures
            str_of(r) == self.bypass(agent@),
    {
        let mut i: usize = 0;
        assert(self.profiles@.skip(0) =~= self.profiles@);
        while i < self.profiles.len()
            invariant
                i <= self.profiles@.len(),
                bypass_mode(self.profiles@.skip(i as int), agent@) == self.bypass(agent@),
            decreases self.profiles@.len() - i,
        {
            assert(self.profiles@.skip(i as int)[0] == self.profiles@[i as int]);
            assert(self.profiles@.skip(i as int).skip(1) =~= self.profiles@.skip(i + 1));
            if same(self.profiles[i].agent.as_str(), agent) {
                return match &self.profiles[i].yolo_mode_id {
                    Some(m) => Some(m.as_str()),
                    None => None,
                };
            }
            i = i + 1;
        }
        None
    }
}

/// How a mode is classified, given the agent's bypass mode and what it advertised.
pub open spec fn mode_decision(
    yolo: Option<Seq<char>>,
    mode: Option<Seq<char>>,
    catalog: Option<AgentOptionEntry>,
) -> ModeDecision {
    match mode {
        None => ModeDecision::Class(ApprovalClass::Interactive),
        Some(m) => if yolo == Some(m) {
            ModeDecision::Class(ApprovalClass::Unattended)
        } else if trusted_class(m) is Some {
            ModeDecision::Class(trusted_class(m)->0)
        } else if catalog is None {
            ModeDecision::CatalogNotDiscovered
        } else if catalog->0.offers(ConfigOptionCategory::Mode, m) {
            ModeDecision::Class(ApprovalClass::Unattended)
        } else {
            ModeDecision::UnknownMode
        },
    }
}

/// The view of an optional reference.
pub open spec fn deref_of(o: Option<&AgentOptionEntry>) -> Option<AgentOptionEntry> {
    match o {
        Some(e) => Some(*e),
        None => None,
    }
}

/// Classifies a mode, given the agent's bypass mode and what it advertised.
fn classify_with(yolo: Option<&str>, mode_id: Option<&str>, catalog: Option<&AgentOptionEntry>) -> (r: ModeDecision)
    ensures
        r == mode_decision(str_of(yolo), str_of(mode_id), deref_of(catalog)),
{
    let mode = match mode_id {
        Some(m) => m,
        None => {
            return ModeDecision::Class(ApprovalClass::Interactive);
        },
    };
    if let Some(y) = yolo {
        if same(y, mode) {
            return ModeDecision::Class(ApprovalClass::Unattended);
        }
    }
    if let Some(class) = trusted_mode_class(mode) {
        return ModeDecision::Class(class);
    }
    match catalog {
        None => ModeDecision::CatalogNotDiscovered,
        Some(entry) => if is_offered(entry, ConfigOptionCategory::Mode, mode) {
            ModeDecision::Class(ApprovalClass::Unattended)
        } else {
            ModeDecision::UnknownMode
        },
    }
}

/// Classifies a mode of an agent. What the agent advertises says only that a mode can be had,
/// never what it may do: a mode that the host does not know is unattended.
pub fn classify_mode(
    registry: &AgentRegistry,
    agent_key: &str,
    mode_id: Option<&str>,
    catalog: Option<&AgentOptionEntry>,
) -> (r: ModeDecision)
    ensures
        r == mode_decision(registry.bypass(agent_key@), str_of(mode_id), deref_of(catalog)),
{
    classify_with(registry.yolo_mode_id(agent_key), mode_id, catalog)
}

/// A mode that the host has not reviewed is never let through as anything but unattended.
pub proof fn law_unknown_modes_fail_closed(
    yolo: Option<Seq<char>>,
    mode: Seq<char>,
    catalog: Option<AgentOptionEntry>,
    class: ApprovalClass,
)
    requires
        trusted_class(mode) is None,
        mode_decision(yolo, Some(mode), catalog) == ModeDecision::Class(class),
    ensures
        class == ApprovalClass::Unattended,
{
}

/// A mode that an agent advertises is always classified.
pub proof fn law_advertised_modes_classify(yolo: Option<Seq<char>>, mode: Seq<char>, catalog: AgentOptionEntry)
    requires
        catalog.offers(ConfigOptionCategory::Mode, mode),
    ensures
        mode_decision(yolo, Some(mode), Some(catalog)) is Class,
{
}

/// What an agent advertises never lowers the class of a mode.
pub proof fn law_catalog_grants_nothing(
    yolo: Option<Seq<char>>,
    mode: Option<Seq<char>>,
    a: Option<AgentOptionEntry>,
    b: Option<AgentOptionEntry>,
    x: ApprovalClass,
    y: ApprovalClass,
)
    requires
        mode_decision(yolo, mode, a) == ModeDecision::Class(x),
        mode_decision(yolo, mode, b) == ModeDecision::Class(y),
    ensures
        x == y,
{
}

/// How many sessions a plugin may create in an hour.
pub const MAX_PLUGIN_CREATES_PER_HOUR: u64 = 20;

/// How many sessions of a plugin may be live or being created.
pub const MAX_ACTIVE_PLUGIN_SESSIONS: usize = 5;

/// How many turns a plugin may send in an hour.
pub const MAX_PLUGIN_TURNS_PER_HOUR: u64 = 120;

/// An hour in milliseconds.
pub const ROLLING_WINDOW_MS: i64 = 3_600_000;

/// How many records of the ledger are kept per topic.
pub const LEDGER_RETENTION_PER_TOPIC: usize = 2000;

/// How often a text occurs in a list.
pub open spec fn occurrences(s: Seq<Seq<char>>, x: Seq<char>) -> nat
    decreases s.len(),
{
    if s.len() == 0 {
        0
    } else if s.last() == x {
        occurrences(s.drop_last(), x) + 1
    } else {
        occurrences(s.drop_last(), x)
    }
}

proof fn lemma_occurrences_insert(s: Seq<Seq<char>>, i: int, x: Seq<char>)
    requires
        0 <= i < s.len(),
    ensures
        occurrences(s, x) == occurrences(s.remove(i), x) + (if s[i] == x {
            1nat
        } else {
            0nat
        }),
    decreases s.len(),
{
    if i == s.len() - 1 {
        assert(s.remove(i) =~= s.drop_last());
    } else {
        lemma_occurrences_insert(s.drop_last(), i, x);
        assert(s.remove(i).drop_last() =~= s.drop_last().remove(i));
        assert(s.remove(i).last() == s.last());
    }
}

/// The policy: the tables of its ledger, and the creates that were admitted but are not visible as
/// sessions yet, one entry each.
#[derive(Debug)]
pub struct AutomationPolicy {
    pub schema: Schema,
    pub reservations: Vec<String>,
}

/// Whether `n` more creates of a plugin are admitted than before, and of other plugins as many.
pub open spec fn reserved(before: AutomationPolicy, after: AutomationPolicy, plugin_id: Seq<char>, n: nat) -> bool {
    forall|q: Seq<char>| #[trigger]
        after.outstanding(q) == before.outstanding(q) + (if q == plugin_id {
            n
        } else {
            0
        })
}

/// Whether one create of a plugin was released, where it had one, and none of other plugins.
pub open spec fn released(before: AutomationPolicy, after: AutomationPolicy, plugin_id: Seq<char>) -> bool {
    forall|q: Seq<char>| #[trigger]
        after.outstanding(q) == if q == plugin_id && before.outstanding(q) > 0 {
            (before.outstanding(q) - 1) as nat
        } else {
            before.outstanding(q)
        }
}

/// A create that was admitted. It counts until it is released.
#[derive(Debug)]
pub struct CreateReservation {
    pub plugin_id: String,
}

/// The topic of the ledger for the operations of a plugin.
pub open spec fn ledger_topic(operation: Seq<char>, plugin_id: Seq<char>) -> Seq<char> {
    operation + "/"@ + plugin_id
}

/// The record of an admitted operation.
pub open spec fn admission_record(operation: Seq<char>, plugin_id: Seq<char>) -> JsonV {
    JsonV::Object(
        Map::empty().insert("op"@, JsonV::Text(operation)).insert("plugin"@, JsonV::Text(plugin_id)),
    )
}

/// Whether an error says that a plugin has too many sessions.
pub open spec fn too_many_sessions(e: DispatchError, plugin_id: Seq<char>, n: nat) -> bool {
    e.is_kind(
        codes::RATE_LIMITED,
        "concurrency_limited"@,
        "plugin "@ + plugin_id + " already has "@ + decimal(n) + " active or pending sessions (limit 5)"@,
    )
}

/// Whether an error says that a plugin did something too often.
pub open spec fn too_often(e: DispatchError, plugin_id: Seq<char>, operation: Seq<char>, limit: u64) -> bool {
    e.is_kind(
        codes::RATE_LIMITED,
        "rate_limited"@,
        "plugin "@ + plugin_id + " exceeded "@ + decimal(limit as nat) + " admitted "@ + operation
            + " operations in the rolling hour"@,
    )
}

/// Whether an error says that the ledger could not be read.
pub open spec fn ledger_unreadable(e: DispatchError, words: Seq<char>) -> bool {
    e.is(codes::INTERNAL_ERROR, "automation ledger read failed: "@ + words, None)
}

/// Whether an operation is within its rate. `used` is how many were admitted in the last hour, as
/// the ledger replied.
pub open spec fn rate_check(
    r: Result<(), DispatchError>,
    operation: Seq<char>,
    plugin_id: Seq<char>,
    limit: u64,
    used: Result<u64, String>,
) -> bool {
    match used {
        Err(w) => r matches Err(e) && ledger_unreadable(e, w@),
        Ok(n) => if n >= limit {
            r matches Err(e) && too_often(e, plugin_id, operation, limit)
        } else {
            r is Ok
        },
    }
}

/// Checks the rate of an operation.
pub fn admit_windowed(operation: &str, plugin_id: &str, limit: u64, used: Result<u64, String>) -> (r: Result<
    (),
    DispatchError,
>)
    ensures
        rate_check(r, operation@, plugin_id@, limit, used),
{
    let n: u64 = match used {
        Ok(n) => n,
        Err(w) => {
            return Err(DispatchError::internal(join2("automation ledger read failed: ", w.as_str())));
        },
    };
    if n >= limit {
        return Err(
            DispatchError::with_kind(
                codes::RATE_LIMITED,
                "rate_limited",
                "plugin ".to_owned().concat(plugin_id).concat(" exceeded ").concat(show(limit).as_str()).concat(
                    " admitted ",
                ).concat(operation).concat(" operations in the rolling hour"),
            ),
        );
    }
    Ok(())
}

/// What the policy makes of a create: too many sessions come before too many creates.
pub open spec fn create_verdict(
    policy: AutomationPolicy,
    plugin_id: Seq<char>,
    active: nat,
    used: Result<u64, String>,
    r: Result<CreateReservation, DispatchError>,
) -> bool {
    if active + policy.outstanding(plugin_id) >= MAX_ACTIVE_PLUGIN_SESSIONS {
        r matches Err(e) && too_many_sessions(e, plugin_id, active + policy.outstanding(plugin_id))
    } else {
        match used {
            Err(w) => r matches Err(e) && ledger_unreadable(e, w@),
            Ok(n) => if n >= MAX_PLUGIN_CREATES_PER_HOUR {
                r matches Err(e) && too_often(e, plugin_id, "create"@, MAX_PLUGIN_CREATES_PER_HOUR)
            } else {
                r matches Ok(c) && c.plugin_id@ == plugin_id
            },
        }
    }
}

impl AutomationPolicy {
    /// How many creates of a plugin were admitted and not released.
    pub open spec fn outstanding(&self, plugin_id: Seq<char>) -> nat {
        occurrences(texts(self.reservations@), plugin_id)
    }

    /// Whether no plugin has more creates admitted than it may have sessions.
    pub open spec fn wf(&self) -> bool {
        forall|p: Seq<char>| #[trigger] self.outstanding(p) <= MAX_ACTIVE_PLUGIN_SESSIONS
    }

    /// The policy before anything was admitted.
    pub fn open() -> (r: Result<AutomationPolicy, String>)
        ensures
            r matches Ok(p) && p.wf() && p.schema.events() == "plugin_automation_audit_events"@
                && p.schema.attachments() == "plugin_automation_audit_attachments"@ && forall|q: Seq<char>| #[trigger]
                p.outstanding(q) == 0,
    {
        proof {
            reveal_strlit("plugin_automation_audit");
            reveal_strlit("plugin_automation_audit_events");
            reveal_strlit("plugin_automation_audit_attachments");
            reveal_strlit("_events");
            reveal_strlit("_attachments");
            assert("plugin_automation_audit"@ + "_events"@ =~= "plugin_automation_audit_events"@);
            assert("plugin_automation_audit"@ + "_attachments"@ =~= "plugin_automation_audit_attachments"@);
            assert(crate::events::valid_prefix("plugin_automation_audit"@));
        }
        match Schema::new("plugin_automation_audit") {
            Ok(schema) => Ok(AutomationPolicy { schema, reservations: Vec::new() }),
            Err(e) => Err(e),
        }
    }

    fn count(&self, plugin_id: &str) -> (r: usize)
        ensures
            r == self.outstanding(plugin_id@),
    {
        let ghost all = texts(self.reservations@);
        let mut n: usize = 0;
        let mut i: usize = 0;
        assert(occurrences(all.take(0), plugin_id@) == 0);
        while i < self.reservations.len()
            invariant
                i <= self.reservations@.len(),
                n <= i,
                all == texts(self.reservations@),
                n == occurrences(all.take(i as int), plugin_id@),
            decreases self.reservations@.len() - i,
        {
            assert(all.take(i + 1).drop_last() =~= all.take(i as int));
            assert(all.take(i + 1).last() == self.reservations@[i as int]@);
            if same(self.reservations[i].as_str(), plugin_id) {
                n = n + 1;
            }
            i = i + 1;
        }
        assert(all.take(i as int) =~= all);
        n
    }

    fn reserve(&mut self, plugin_id: &str)
        requires
            old(self).wf(),
            old(self).outstanding(plugin_id@) < MAX_ACTIVE_PLUGIN_SESSIONS,
        ensures
            final(self).wf(),
            final(self).schema == old(self).schema,
            reserved(*old(self), *final(self), plugin_id@, 1),
    {
        let ghost before = self.reservations@;
        self.reservations.push(plugin_id.to_owned());
        proof {
            let after = texts(self.reservations@);
            assert(after =~= texts(before).push(plugin_id@));
            assert(after.drop_last() =~= texts(before));
            assert forall|q: Seq<char>| #[trigger] self.outstanding(q) <= MAX_ACTIVE_PLUGIN_SESSIONS by {
                assert(old(self).outstanding(q) <= MAX_ACTIVE_PLUGIN_SESSIONS);
            }
        }
    }

    /// Admits a create of a plugin: it may not have too many sessions, live or being created, nor
    /// create too often. `active_sessions` is how many live sessions it has, `used` how many creates
    /// the ledger counts in the last hour. An admitted create counts until it is released.
    pub fn admit_create(&mut self, plugin_id: &str, active_sessions: usize, used: Result<u64, String>) -> (r: Result<
        CreateReservation,
        DispatchError,
    >)
        requires
            old(self).wf(),
            active_sessions <= usize::MAX - MAX_ACTIVE_PLUGIN_SESSIONS,
        ensures
            final(self).wf(),
            final(self).schema == old(self).schema,
            create_verdict(*old(self), plugin_id@, active_sessions as nat, used, r),
            reserved(
                *old(self),
                *final(self),
                plugin_id@,
                if r is Ok {
                    1
                } else {
                    0
                },
            ),
            r is Ok ==> active_sessions + final(self).outstanding(plugin_id@) <= MAX_ACTIVE_PLUGIN_SESSIONS,
    {
        let outstanding = self.count(plugin_id);
        assert(self.outstanding(plugin_id@) <= MAX_ACTIVE_PLUGIN_SESSIONS);
        let total: usize = active_sessions + outstanding;
        if total >= MAX_ACTIVE_PLUGIN_SESSIONS {
            return Err(
                DispatchError::with_kind(
                    codes::RATE_LIMITED,
                    "concurrency_limited",
                    "plugin ".to_owned().concat(plugin_id).concat(" already has ").concat(
                        show(total as u64).as_str(),
                    ).concat(" active or pending sessions (limit 5)"),
                ),
            );
        }
        match admit_windowed("create", plugin_id, MAX_PLUGIN_CREATES_PER_HOUR, used) {
            Ok(_) => {
                self.reserve(plugin_id);
                Ok(CreateReservation { plugin_id: plugin_id.to_owned() })
            },
            Err(e) => Err(e),
        }
    }

    /// Admits a turn of a plugin: it may not send too often.
    pub fn admit_turn(&self, plugin_id: &str, used: Result<u64, String>) -> (r: Result<(), DispatchError>)
        ensures
            rate_check(r, "turn"@, plugin_id@, MAX_PLUGIN_TURNS_PER_HOUR, used),
    {
        admit_windowed("turn", plugin_id, MAX_PLUGIN_TURNS_PER_HOUR, used)
    }

    /// Releases an admitted create of a plugin, where it has one.
    pub fn release_reservation(&mut self, plugin_id: &str)
        requires
            old(self).wf(),
        ensures
            final(self).wf(),
            final(self).schema == old(self).schema,
            released(*old(self), *final(self), plugin_id@),
    {
        let ghost before = texts(self.reservations@);
        match crate::text::position(&self.reservations, plugin_id) {
            Some(i) => {
                let ghost seqs = self.reservations@;
                proof {
                    crate::text::lemma_index_in(before, plugin_id@);
                    assert(before[i as int] == plugin_id@);
                }
                self.reservations.remove(i);
                proof {
                    assert(texts(self.reservations@) =~= before.remove(i as int));
                    assert forall|q: Seq<char>| #[trigger]
                        self.outstanding(q) == (if q == plugin_id@ && occurrences(before, q) > 0 {
                            (occurrences(before, q) - 1) as nat
                        } else {
                            occurrences(before, q)
                        }) by {
                        lemma_occurrences_insert(before, i as int, q);
                    }
                    assert forall|q: Seq<char>| #[trigger] self.outstanding(q) <= MAX_ACTIVE_PLUGIN_SESSIONS by {
                        assert(old(self).outstanding(q) <= MAX_ACTIVE_PLUGIN_SESSIONS);
                    }
                }
            },
            None => {
                proof {
                    crate::text::lemma_index_in(before, plugin_id@);
                    lemma_absent_has_no_occurrences(before, plugin_id@);
                }
            },
        }
    }

    /// The statement that counts the operations of a plugin in the hour before a time.
    pub fn used_query(&self, operation: &str, plugin_id: &str, now: i64) -> (r: Statement)
        requires
            now >= i64::MIN + ROLLING_WINDOW_MS,
        ensures
            r.states(
                self.schema,
                Op::CountSince {
                    topic: ledger_topic(operation@, plugin_id@),
                    from: (now - ROLLING_WINDOW_MS) as i64,
                },
            ),
    {
        let topic = join3(operation, "/", plugin_id);
        count_since(&self.schema, topic.as_str(), now - ROLLING_WINDOW_MS)
    }

    /// The statement that records an admitted operation. `highest` is the highest number of the
    /// topic so far.
    pub fn admission_statement(&self, operation: &str, plugin_id: &str, highest: u64, now: i64) -> (r: Statement)
        requires
            highest < u64::MAX,
        ensures
            r.states(
                self.schema,
                Op::InsertEvent {
                    topic: ledger_topic(operation@, plugin_id@),
                    seq: stored_seq((highest + 1) as u64),
                    event: EventV {
                        json: json_written(admission_record(operation@, plugin_id@)),
                        created_at: now,
                        discriminant: variant_of(json_written(admission_record(operation@, plugin_id@))),
                    },
                },
            ),
    {
        let mut m = JsonMap::new();
        m.insert("op".to_owned(), text(operation));
        m.insert("plugin".to_owned(), text(plugin_id));
        let payload = write_json(&Json::Object(m));
        let topic = join3(operation, "/", plugin_id);
        insert_event(&self.schema, topic.as_str(), highest + 1, payload.as_str(), now)
    }

    /// The statement that records what a plugin's call came to. `highest` is the highest number of
    /// the topic so far.
    pub fn audit(&self, plugin_id: &str, record: &Json, highest: u64, now: i64) -> (r: Statement)
        requires
            highest < u64::MAX,
        ensures
            r.states(
                self.schema,
                Op::InsertEvent {
                    topic: ledger_topic("decision"@, plugin_id@),
                    seq: stored_seq((highest + 1) as u64),
                    event: EventV {
                        json: json_written(record@),
                        created_at: now,
                        discriminant: variant_of(json_written(record@)),
                    },
                },
            ),
    {
        let topic = join3("decision", "/", plugin_id);
        let payload = write_json(record);
        insert_event(&self.schema, topic.as_str(), highest + 1, payload.as_str(), now)
    }

    /// The statement that finds which records of a topic are past the number to keep.
    pub fn retention_query(&self, operation: &str, plugin_id: &str) -> (r: Option<Statement>)
        ensures
            r matches Some(s) && s.states(
                self.schema,
                Op::Cutoff { topic: ledger_topic(operation@, plugin_id@), keep: 2000 },
            ),
    {
        let topic = join3(operation, "/", plugin_id);
        prune_retention(&self.schema, topic.as_str(), LEDGER_RETENTION_PER_TOPIC)
    }
}

/// The error of a ledger that could not be written.
pub fn ledger_write_failed(words: &str) -> (r: DispatchError)
    ensures
        r.is(codes::INTERNAL_ERROR, "automation ledger write failed: "@ + words@, None),
{
    DispatchError::internal(join2("automation ledger write failed: ", words))
}

proof fn lemma_absent_has_no_occurrences(s: Seq<Seq<char>>, x: Seq<char>)
    requires
        !s.contains(x),
    ensures
        occurrences(s, x) == 0,
    decreases s.len(),
{
    if s.len() > 0 {
        assert(s[s.len() - 1] != x);
        assert(!s.drop_last().contains(x)) by {
            if s.drop_last().contains(x) {
                let j = choose|j: int| 0 <= j < s.drop_last().len() && s.drop_last()[j] == x;
                assert(s[j] == x);
            }
        }
        lemma_absent_has_no_occurrences(s.drop_last(), x);
    }
}

/// Releasing a create that was admitted leaves every plugin with what it had before.
pub proof fn law_release_undoes_admission(
    a: AutomationPolicy,
    b: AutomationPolicy,
    c: AutomationPolicy,
    plugin_id: Seq<char>,
)
    requires
        reserved(a, b, plugin_id, 1),
        released(b, c, plugin_id),
    ensures
        reserved(a, c, plugin_id, 0),
{
    assert forall|q: Seq<char>| #[trigger] c.outstanding(q) == a.outstanding(q) + (if q == plugin_id {
        0nat
    } else {
        0
    }) by {
        assert(b.outstanding(q) == a.outstanding(q) + (if q == plugin_id {
            1nat
        } else {
            0
        }));
    }
}

/// What one plugin has admitted or released does not count against another.
pub proof fn law_limits_are_per_plugin(
    a: AutomationPolicy,
    b: AutomationPolicy,
    plugin_id: Seq<char>,
    other: Seq<char>,
    n: nat,
)
    requires
        reserved(a, b, plugin_id, n) || released(a, b, plugin_id),
        other != plugin_id,
    ensures
        b.outstanding(other) == a.outstanding(other),
{
}

/// An operation that is admitted stays within its limit with the record of it.
pub proof fn law_rate_is_kept(
    r: Result<(), DispatchError>,
    operation: Seq<char>,
    plugin_id: Seq<char>,
    limit: u64,
    used: Result<u64, String>,
)
    requires
        rate_check(r, operation, plugin_id, limit, used),
        r is Ok,
    ensures
        used is Ok && used->Ok_0 + 1 <= limit,
{
}

} // verus!
