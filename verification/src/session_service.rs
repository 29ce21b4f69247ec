//! The rules of the session service: how a plugin's create is recognized when it is tried again,
//! who may send a turn to a session, and how a first turn is delivered.

use vstd::prelude::*;

use crate::payload::{request_hash, spec_payload_hash};
use crate::session::{find_session, lemma_find_session, upserted, Instance, PluginCreateIdempotency};
use crate::session_spawn::{settled, stamp_of, stamped, StructuredSessionSpec};
use crate::text::{debug, debug_text, join3, same, str_of, text_of};

verus! {

/// The idempotency key was used with another request.
#[derive(Debug)]
pub struct IdempotencyConflict {
    pub key: String,
}

/// The words of an idempotency conflict.
pub open spec fn conflict_words(key: Seq<char>) -> Seq<char> {
    "idempotency key "@ + debug_text(key) + " was already used with a different request payload"@
}

impl IdempotencyConflict {
    /// The words of the error.
    pub fn message(&self) -> (r: String)
        ensures
            r@ == conflict_words(self.key@),
    {
        join3("idempotency key ", debug(self.key.as_str()).as_str(), " was already used with a different request payload")
    }
}

/// What a create request has in common with the sessions that there are.
#[derive(Debug)]
pub enum IdempotentMatch {
    /// The same request made this session.
    Same(Box<Instance>),
    /// Another request of the plugin used the key.
    Conflict,
    /// No session of the plugin has the key.
    NoMatch,
}

/// Whether a session was created by a plugin under a key.
pub open spec fn keyed(i: Instance, plugin_id: Seq<char>, key: Seq<char>) -> bool {
    i.owned_by(plugin_id) && (i.plugin_create_idempotency matches Some(record) && record.key@ == key)
}

/// The first session that a plugin created under a key. Archived, snoozed and trashed sessions
/// count like any other.
pub open spec fn first_keyed(s: Seq<Instance>, plugin_id: Seq<char>, key: Seq<char>) -> Option<int>
    decreases s.len(),
{
    if s.len() == 0 {
        None
    } else if keyed(s[0], plugin_id, key) {
        Some(0)
    } else {
        match first_keyed(s.skip(1), plugin_id, key) {
            Some(i) => Some(i + 1),
            None => None,
        }
    }
}

/// What `first_keyed` finds is the first such session, and it finds one wherever there is one.
pub proof fn lemma_first_keyed(s: Seq<Instance>, plugin_id: Seq<char>, key: Seq<char>)
    ensures
        match first_keyed(s, plugin_id, key) {
            Some(i) => 0 <= i < s.len() && keyed(s[i], plugin_id, key) && forall|j: int|
                0 <= j < i ==> !keyed(#[trigger] s[j], plugin_id, key),
            None => forall|j: int| 0 <= j < s.len() ==> !keyed(#[trigger] s[j], plugin_id, key),
        },
    decreases s.len(),
{
    if s.len() > 0 && !keyed(s[0], plugin_id, key) {
        let rest = s.skip(1);
        lemma_first_keyed(rest, plugin_id, key);
        match first_keyed(rest, plugin_id, key) {
            Some(i) => {
                assert forall|j: int| 0 <= j < i + 1 implies !keyed(#[trigger] s[j], plugin_id, key) by {
                    if j > 0 {
                        assert(s[j] == rest[j - 1]);
                    }
                }
            },
            None => {
                assert forall|j: int| 0 <= j < s.len() implies !keyed(#[trigger] s[j], plugin_id, key) by {
                    if j > 0 {
                        assert(s[j] == rest[j - 1]);
                    }
                }
            },
        }
    }
}

/// Matches a plugin's create request with the sessions that there are.
pub fn find_idempotent_match(instances: &[Instance], plugin_id: &str, key: &str, payload_hash: &str) -> (r:
    IdempotentMatch)
    ensures
        match first_keyed(instances@, plugin_id@, key@) {
            Some(i) => if instances@[i].plugin_create_idempotency->0.payload_hash@ == payload_hash@ {
                r matches IdempotentMatch::Same(b) && *b == instances@[i]
            } else {
                r is Conflict
            },
            None => r is NoMatch,
        },
{
    let mut i: usize = 0;
    while i < instances.len()
        invariant
            i <= instances@.len(),
            forall|j: int| 0 <= j < i ==> !keyed(#[trigger] instances@[j], plugin_id@, key@),
        decreases instances@.len() - i,
    {
        let instance = &instances[i];
        if instance.is_owned_by(plugin_id) {
            if let Some(record) = &instance.plugin_create_idempotency {
                if same(record.key.as_str(), key) {
                    proof {
                        lemma_first_keyed(instances@, plugin_id@, key@);
                        assert(keyed(instances@[i as int], plugin_id@, key@));
                    }
                    if same(record.payload_hash.as_str(), payload_hash) {
                        return IdempotentMatch::Same(Box::new(instance.clone()));
                    }
                    return IdempotentMatch::Conflict;
                }
            }
        }
        assert(!keyed(instances@[i as int], plugin_id@, key@));
        i = i + 1;
    }
    proof {
        lemma_first_keyed(instances@, plugin_id@, key@);
    }
    IdempotentMatch::NoMatch
}

/// A create that is being built: the plugin, its key, the hash of the request.
#[derive(Debug)]
pub struct CreateInFlight {
    pub plugin_id: String,
    pub key: String,
    pub payload_hash: String,
}

/// The creates that are being built, with the hash of each.
pub open spec fn in_flight_view(s: Seq<CreateInFlight>) -> Map<(Seq<char>, Seq<char>), Seq<char>>
    decreases s.len(),
{
    if s.len() == 0 {
        Map::empty()
    } else {
        in_flight_view(s.drop_last()).insert((s.last().plugin_id@, s.last().key@), s.last().payload_hash@)
    }
}

/// What claiming a create gives.
#[derive(Debug, Clone, Copy, PartialEq, Eq, Structural)]
pub enum ClaimOutcome {
    /// The caller builds, and has to release the claim whatever happens.
    Claimed,
    /// The same request is being built: the caller waits and tries again.
    Wait,
    /// Another request is being built under the key.
    Conflict,
}

/// The session service: the sessions, the creates being built, the deliveries under way, and the
/// sessions that have a lock.
#[derive(Debug)]
pub struct SessionService {
    pub instances: Vec<Instance>,
    pub telemetry_session_creates: u32,
    pub create_in_flight: Vec<CreateInFlight>,
    pub pending_drains: Vec<String>,
    pub instance_locks: Vec<String>,
}

/// An entry that no later one shadows is the one that counts.
proof fn lemma_in_flight_at(s: Seq<CreateInFlight>, i: int, scope: (Seq<char>, Seq<char>))
    requires
        0 <= i < s.len(),
        s[i].plugin_id@ == scope.0,
        s[i].key@ == scope.1,
        forall|j: int| i < j < s.len() ==> (#[trigger] s[j]).plugin_id@ != scope.0 || s[j].key@ != scope.1,
    ensures
        in_flight_view(s).contains_key(scope),
        in_flight_view(s)[scope] == s[i].payload_hash@,
    decreases s.len(),
{
    if i < s.len() - 1 {
        let front = s.drop_last();
        assert(s[s.len() - 1].plugin_id@ != scope.0 || s[s.len() - 1].key@ != scope.1);
        assert forall|j: int| i < j < front.len() implies (#[trigger] front[j]).plugin_id@ != scope.0 || front[j].key@
            != scope.1 by {
            assert(front[j] == s[j]);
        }
        lemma_in_flight_at(front, i, scope);
    }
}

proof fn lemma_in_flight_absent(s: Seq<CreateInFlight>, scope: (Seq<char>, Seq<char>))
    requires
        forall|j: int| 0 <= j < s.len() ==> (#[trigger] s[j]).plugin_id@ != scope.0 || s[j].key@ != scope.1,
    ensures
        !in_flight_view(s).contains_key(scope),
    decreases s.len(),
{
    if s.len() > 0 {
        let front = s.drop_last();
        assert(s[s.len() - 1].plugin_id@ != scope.0 || s[s.len() - 1].key@ != scope.1);
        assert forall|j: int| 0 <= j < front.len() implies (#[trigger] front[j]).plugin_id@ != scope.0 || front[j].key@
            != scope.1 by {
            assert(front[j] == s[j]);
        }
        lemma_in_flight_absent(front, scope);
    }
}

/// What claiming a create gives, and what is being built afterwards.
pub open spec fn claim(
    m: Map<(Seq<char>, Seq<char>), Seq<char>>,
    scope: (Seq<char>, Seq<char>),
    hash: Seq<char>,
) -> (ClaimOutcome, Map<(Seq<char>, Seq<char>), Seq<char>>) {
    if !m.contains_key(scope) {
        (ClaimOutcome::Claimed, m.insert(scope, hash))
    } else if m[scope] == hash {
        (ClaimOutcome::Wait, m)
    } else {
        (ClaimOutcome::Conflict, m)
    }
}

impl SessionService {
    /// The creates that are being built.
    pub open spec fn in_flight(&self) -> Map<(Seq<char>, Seq<char>), Seq<char>> {
        in_flight_view(self.create_in_flight@)
    }

    /// Whether nothing but the creates being built differs.
    pub open spec fn only_in_flight_changed(&self, before: SessionService) -> bool {
        self.instances == before.instances && self.telemetry_session_creates == before.telemetry_session_creates
            && self.pending_drains == before.pending_drains && self.instance_locks == before.instance_locks
    }

    /// A service with the given sessions.
    pub fn new(instances: Vec<Instance>) -> (r: SessionService)
        ensures
            r.instances == instances,
            r.telemetry_session_creates == 0,
            r.in_flight() == Map::<(Seq<char>, Seq<char>), Seq<char>>::empty(),
            r.pending_drains@.len() == 0,
            r.instance_locks@.len() == 0,
    {
        SessionService {
            instances,
            telemetry_session_creates: 0,
            create_in_flight: Vec::new(),
            pending_drains: Vec::new(),
            instance_locks: Vec::new(),
        }
    }

    /// Claims a create of a plugin under a key.
    pub fn try_claim_in_flight(&mut self, plugin_id: &str, key: &str, payload_hash: &str) -> (r: ClaimOutcome)
        ensures
            (r, final(self).in_flight()) == claim(old(self).in_flight(), (plugin_id@, key@), payload_hash@),
            final(self).only_in_flight_changed(*old(self)),
    {
        let ghost scope = (plugin_id@, key@);
        let mut i: usize = self.create_in_flight.len();
        while i > 0
            invariant
                *self == *old(self),
                scope == (plugin_id@, key@),
                i <= self.create_in_flight@.len(),
                forall|j: int|
                    i <= j < self.create_in_flight@.len() ==> (#[trigger] self.create_in_flight@[j]).plugin_id@
                        != scope.0 || self.create_in_flight@[j].key@ != scope.1,
            decreases i,
        {
            i = i - 1;
            let entry = &self.create_in_flight[i];
            if same(entry.plugin_id.as_str(), plugin_id) && same(entry.key.as_str(), key) {
                proof {
                    lemma_in_flight_at(self.create_in_flight@, i as int, scope);
                }
                if same(entry.payload_hash.as_str(), payload_hash) {
                    return ClaimOutcome::Wait;
                }
                return ClaimOutcome::Conflict;
            }
        }
        proof {
            lemma_in_flight_absent(self.create_in_flight@, scope);
        }
        let ghost before = self.create_in_flight@;
        self.create_in_flight.push(
            CreateInFlight {
                plugin_id: plugin_id.to_owned(),
                key: key.to_owned(),
                payload_hash: payload_hash.to_owned(),
            },
        );
        assert(self.create_in_flight@.drop_last() =~= before);
        ClaimOutcome::Claimed
    }

    /// Releases the claim of a create.
    pub fn release_in_flight(&mut self, plugin_id: &str, key: &str)
        ensures
            final(self).in_flight() == old(self).in_flight().remove((plugin_id@, key@)),
            final(self).only_in_flight_changed(*old(self)),
    {
        let ghost scope = (plugin_id@, key@);
        let ghost all = self.create_in_flight@;
        let mut kept: Vec<CreateInFlight> = Vec::new();
        let mut i: usize = 0;
        assert(in_flight_view(kept@) =~= in_flight_view(all.take(0)).remove(scope));
        while i < self.create_in_flight.len()
            invariant
                *self == *old(self),
                scope == (plugin_id@, key@),
                all == self.create_in_flight@,
                i <= all.len(),
                in_flight_view(kept@) == in_flight_view(all.take(i as int)).remove(scope),
            decreases all.len() - i,
        {
            assert(all.take(i + 1).drop_last() =~= all.take(i as int));
            let entry = &self.create_in_flight[i];
            if !(same(entry.plugin_id.as_str(), plugin_id) && same(entry.key.as_str(), key)) {
                let ghost before = kept@;
                kept.push(
                    CreateInFlight {
                        plugin_id: entry.plugin_id.clone(),
                        key: entry.key.clone(),
                        payload_hash: entry.payload_hash.clone(),
                    },
                );
                assert(kept@.drop_last() =~= before);
            }
            i = i + 1;
            assert(in_flight_view(kept@) =~= in_flight_view(all.take(i as int)).remove(scope));
        }
        assert(all.take(i as int) =~= all);
        self.create_in_flight = kept;
    }
}

/// A create of a plugin under a key, with the hash of the request.
#[derive(Debug)]
pub struct CreateScope {
    pub plugin_id: String,
    pub key: String,
    pub payload_hash: String,
}

/// A create that is ready to be decided on.
#[derive(Debug)]
pub struct CreatePlan {
    pub spec: StructuredSessionSpec,
    /// Only of a plugin's create that has a key.
    pub scope: Option<CreateScope>,
}

impl CreatePlan {
    /// Whether this is the plan for a request. Of a plugin's request, the plugin is noted and the
    /// trust in a repository's hooks is withdrawn; with a key, the record of it is noted too.
    pub open spec fn plans(
        &self,
        spec: StructuredSessionSpec,
        plugin_id: Option<Seq<char>>,
        key: Option<Seq<char>>,
        initial_turn: Option<Seq<char>>,
    ) -> bool {
        let s = self.spec;
        &&& s == (StructuredSessionSpec {
            pending_initial_turn: s.pending_initial_turn,
            created_by_plugin: s.created_by_plugin,
            trust_hooks: s.trust_hooks,
            plugin_create_idempotency: s.plugin_create_idempotency,
            ..spec
        })
        &&& text_of(s.pending_initial_turn) == initial_turn
        &&& match plugin_id {
            None => {
                &&& s.created_by_plugin == spec.created_by_plugin
                &&& s.trust_hooks == spec.trust_hooks
                &&& s.plugin_create_idempotency == spec.plugin_create_idempotency
                &&& self.scope is None
            },
            Some(p) => {
                &&& text_of(s.created_by_plugin) == Some(p)
                &&& s.trust_hooks == Some(false)
                &&& match key {
                    None => s.plugin_create_idempotency == spec.plugin_create_idempotency && self.scope is None,
                    Some(k) => {
                        &&& s.plugin_create_idempotency matches Some(record) && record.key@ == k
                            && record.payload_hash@ == request_hash(s)
                        &&& self.scope matches Some(c) && c.plugin_id@ == p && c.key@ == k && c.payload_hash@
                            == request_hash(s)
                    },
                }
            },
        }
    }
}

/// Prepares a create of a user or, with `plugin_id`, of a plugin.
pub fn plan_create(
    spec: StructuredSessionSpec,
    plugin_id: Option<&str>,
    idempotency_key: Option<&str>,
    initial_turn: Option<&str>,
) -> (r: CreatePlan)
    ensures
        r.plans(spec, str_of(plugin_id), str_of(idempotency_key), str_of(initial_turn)),
{
    let mut s = spec;
    s.pending_initial_turn = match initial_turn {
        Some(t) => Some(t.to_owned()),
        None => None,
    };
    let plugin = match plugin_id {
        Some(p) => p,
        None => {
            return CreatePlan { spec: s, scope: None };
        },
    };
    s.created_by_plugin = Some(plugin.to_owned());
    s.trust_hooks = Some(false);
    let key = match idempotency_key {
        Some(k) => k,
        None => {
            return CreatePlan { spec: s, scope: None };
        },
    };
    let payload_hash = spec_payload_hash(&s);
    let ghost hashed = s;
    s.plugin_create_idempotency = Some(
        PluginCreateIdempotency { key: key.to_owned(), payload_hash: payload_hash.clone() },
    );
    assert(crate::payload::request_fields(s) =~= crate::payload::request_fields(hashed));
    let scope = CreateScope { plugin_id: plugin.to_owned(), key: key.to_owned(), payload_hash };
    CreatePlan { spec: s, scope: Some(scope) }
}

/// What a plugin's create under a key comes to.
#[derive(Debug)]
pub enum CreateDecision {
    /// The session that the same request made.
    Existing(Box<Instance>),
    /// Another request used the key.
    Conflict(IdempotencyConflict),
    /// The same request is being built: wait, then decide again.
    Wait,
    /// The caller builds, and has to release the claim whatever happens.
    Build,
}

/// What a create of a plugin comes to, given the sessions and the creates being built.
pub open spec fn decision_is(
    d: CreateDecision,
    instances: Seq<Instance>,
    in_flight: Map<(Seq<char>, Seq<char>), Seq<char>>,
    scope: CreateScope,
) -> bool {
    match first_keyed(instances, scope.plugin_id@, scope.key@) {
        Some(i) => if instances[i].plugin_create_idempotency->0.payload_hash@ == scope.payload_hash@ {
            d matches CreateDecision::Existing(b) && *b == instances[i]
        } else {
            d matches CreateDecision::Conflict(c) && c.key@ == scope.key@
        },
        None => match claim(in_flight, (scope.plugin_id@, scope.key@), scope.payload_hash@).0 {
            ClaimOutcome::Claimed => d is Build,
            ClaimOutcome::Wait => d is Wait,
            ClaimOutcome::Conflict => d matches CreateDecision::Conflict(c) && c.key@ == scope.key@,
        },
    }
}

impl SessionService {
    /// Decides on a plugin's create: a session that the request made before is returned, a key
    /// used with another request is refused, and of equal requests at one time only one builds.
    pub fn decide_create(&mut self, scope: &CreateScope) -> (r: CreateDecision)
        ensures
            decision_is(r, old(self).instances@, old(self).in_flight(), *scope),
            final(self).only_in_flight_changed(*old(self)),
            final(self).in_flight() == if r is Build {
                old(self).in_flight().insert((scope.plugin_id@, scope.key@), scope.payload_hash@)
            } else {
                old(self).in_flight()
            },
    {
        match find_idempotent_match(
            self.instances.as_slice(),
            scope.plugin_id.as_str(),
            scope.key.as_str(),
            scope.payload_hash.as_str(),
        ) {
            IdempotentMatch::Same(instance) => {
                return CreateDecision::Existing(instance);
            },
            IdempotentMatch::Conflict => {
                return CreateDecision::Conflict(IdempotencyConflict { key: scope.key.clone() });
            },
            IdempotentMatch::NoMatch => {},
        }
        match self.try_claim_in_flight(scope.plugin_id.as_str(), scope.key.as_str(), scope.payload_hash.as_str()) {
            ClaimOutcome::Claimed => CreateDecision::Build,
            ClaimOutcome::Wait => CreateDecision::Wait,
            ClaimOutcome::Conflict => CreateDecision::Conflict(IdempotencyConflict { key: scope.key.clone() }),
        }
    }
}

/// A claim that was released can be had again, and the claims of others are not touched.
pub proof fn law_release_undoes_claim(
    m: Map<(Seq<char>, Seq<char>), Seq<char>>,
    scope: (Seq<char>, Seq<char>),
    hash: Seq<char>,
)
    requires
        claim(m, scope, hash).0 == ClaimOutcome::Claimed,
    ensures
        claim(m, scope, hash).1.remove(scope) == m,
        claim(claim(m, scope, hash).1.remove(scope), scope, hash).0 == ClaimOutcome::Claimed,
{
    assert(claim(m, scope, hash).1.remove(scope) =~= m);
}

/// While a create is being built, the same request waits and any other under its key is refused.
pub proof fn law_one_build_per_key(
    m: Map<(Seq<char>, Seq<char>), Seq<char>>,
    scope: (Seq<char>, Seq<char>),
    hash: Seq<char>,
    other: Seq<char>,
)
    requires
        claim(m, scope, hash).0 == ClaimOutcome::Claimed,
    ensures
        claim(claim(m, scope, hash).1, scope, other).0 == if other == hash {
            ClaimOutcome::Wait
        } else {
            ClaimOutcome::Conflict
        },
        claim(claim(m, scope, hash).1, scope, other).1 == claim(m, scope, hash).1,
{
}

/// Keys belong to the plugin that uses them: what another plugin created does not matter.
pub proof fn law_keys_are_per_plugin(s: Seq<Instance>, plugin_id: Seq<char>, key: Seq<char>)
    requires
        forall|i: int| 0 <= i < s.len() ==> !(#[trigger] s[i]).owned_by(plugin_id),
    ensures
        first_keyed(s, plugin_id, key) is None,
{
    lemma_first_keyed(s, plugin_id, key);
}

/// A session that a request made is what the request gets when it is tried again, archived,
/// snoozed, trashed or not, as long as it is in the list.
pub proof fn law_retry_returns_session(
    s: Seq<Instance>,
    in_flight: Map<(Seq<char>, Seq<char>), Seq<char>>,
    scope: CreateScope,
    d: CreateDecision,
    i: int,
)
    requires
        0 <= i < s.len(),
        keyed(s[i], scope.plugin_id@, scope.key@),
        forall|j: int| 0 <= j < s.len() && j != i ==> !keyed(#[trigger] s[j], scope.plugin_id@, scope.key@),
        s[i].plugin_create_idempotency->0.payload_hash@ == scope.payload_hash@,
        decision_is(d, s, in_flight, scope),
    ensures
        d matches CreateDecision::Existing(b) && *b == s[i],
{
    lemma_first_keyed(s, scope.plugin_id@, scope.key@);
}

/// A plugin never approves the hooks of a repository, whatever its request says; and the session is
/// marked as its own.
pub proof fn law_plugins_never_approve_hooks(
    plan: CreatePlan,
    spec: StructuredSessionSpec,
    plugin_id: Seq<char>,
    key: Option<Seq<char>>,
    initial_turn: Option<Seq<char>>,
    built: Instance,
)
    requires
        plan.plans(spec, Some(plugin_id), key, initial_turn),
    ensures
        plan.spec.trust_hooks == Some(false),
        stamped(built, stamp_of(plan.spec)).owned_by(plugin_id),
{
}

/// Once the session of a plugin's create under a key is built and registered, the same request gets
/// that session, and not a second one.
pub proof fn law_created_session_is_found_again(
    plan: CreatePlan,
    spec: StructuredSessionSpec,
    plugin_id: Seq<char>,
    key: Seq<char>,
    initial_turn: Option<Seq<char>>,
    built: Instance,
    can_run: bool,
    model: Option<String>,
    explicit: Option<String>,
    s: Seq<Instance>,
    in_flight: Map<(Seq<char>, Seq<char>), Seq<char>>,
    again: CreateDecision,
)
    requires
        plan.plans(spec, Some(plugin_id), Some(key), initial_turn),
        first_keyed(s, plugin_id, key) is None,
        decision_is(
            again,
            upserted(s, settled(stamped(built, stamp_of(plan.spec)), can_run, model, explicit)),
            in_flight,
            plan.scope->0,
        ),
    ensures
        again matches CreateDecision::Existing(b) && *b == settled(
            stamped(built, stamp_of(plan.spec)),
            can_run,
            model,
            explicit,
        ),
{
    let x = settled(stamped(built, stamp_of(plan.spec)), can_run, model, explicit);
    let t = upserted(s, x);
    assert(keyed(x, plugin_id, key));
    lemma_first_keyed(s, plugin_id, key);
    lemma_first_keyed(t, plugin_id, key);
    lemma_find_session(s, x.id@);
    let at: int = match find_session(s, x.id@) {
        Some(i) => i,
        None => s.len() as int,
    };
    assert(t[at] == x);
    assert forall|j: int| 0 <= j < t.len() && j != at implies !keyed(#[trigger] t[j], plugin_id, key) by {
        assert(t[j] == s[j]);
    }
}

/// A create that was decided on. The plan is what is built, where that is the decision.
#[derive(Debug)]
pub struct CreateStep {
    pub plan: CreatePlan,
    pub decision: CreateDecision,
}

impl SessionService {
    /// Begins a create of a user or, with `plugin_id`, of a plugin. Only a plugin's create that has a
    /// key is compared with what there is; any other is built.
    pub fn create_structured_session(
        &mut self,
        spec: StructuredSessionSpec,
        plugin_id: Option<&str>,
        idempotency_key: Option<&str>,
        initial_turn: Option<&str>,
    ) -> (r: CreateStep)
        ensures
            r.plan.plans(spec, str_of(plugin_id), str_of(idempotency_key), str_of(initial_turn)),
            final(self).only_in_flight_changed(*old(self)),
            match r.plan.scope {
                None => r.decision is Build && final(self).in_flight() == old(self).in_flight(),
                Some(scope) => decision_is(r.decision, old(self).instances@, old(self).in_flight(), scope)
                    && final(self).in_flight() == if r.decision is Build {
                    old(self).in_flight().insert((scope.plugin_id@, scope.key@), scope.payload_hash@)
                } else {
                    old(self).in_flight()
                },
            },
    {
        let plan = plan_create(spec, plugin_id, idempotency_key, initial_turn);
        let decision = match &plan.scope {
            None => CreateDecision::Build,
            Some(scope) => self.decide_create(scope),
        };
        CreateStep { plan, decision }
    }
}

} // verus!
