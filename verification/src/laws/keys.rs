//! Creates under a key: the same request gives the same session, another one is refused.

use vstd::prelude::*;

use crate::session::Instance;
use crate::session_service::{
    first_keyed, lemma_first_keyed, plan_create, CreateDecision, CreatePlan, CreateScope, SessionService,
};
use crate::session_spawn::StructuredSessionSpec;
use crate::text::text_of;

verus! {

/// Whether a plugin made a session under a key.
pub open spec fn made_by(i: Instance, plugin_id: Seq<char>, key: Seq<char>) -> bool {
    text_of(i.created_by_plugin) == Some(plugin_id) && i.plugin_create_idempotency is Some
        && i.plugin_create_idempotency->0.key@ == key
}

/// A create under a key that the plugin already used gives back the session of the same request, and is
/// refused for another one. That a session is archived, snoozed or trashed does not matter. Nothing is
/// built then.
pub proof fn law_key_gives_its_session(
    service: &mut SessionService,
    scope: &CreateScope,
    r: CreateDecision,
    i: int,
)
    requires
        call_ensures(SessionService::decide_create, (service, scope), r),
        0 <= i < old(service).instances@.len(),
        made_by(old(service).instances@[i], scope.plugin_id@, scope.key@),
        forall|j: int|
            0 <= j < i ==> !made_by(#[trigger] old(service).instances@[j], scope.plugin_id@, scope.key@),
    ensures
        ({
            let s = old(service).instances@[i];
            let same = s.plugin_create_idempotency->0.payload_hash@ == scope.payload_hash@;
            &&& same ==> r is Existing && *(r->Existing_0) == s
            &&& !same ==> r is Conflict && (r->Conflict_0).key@ == scope.key@
        }),
        final(service).in_flight() == old(service).in_flight(),
        final(service).instances == old(service).instances,
{
    let s = old(service).instances@;
    lemma_first_keyed(s, scope.plugin_id@, scope.key@);
    match first_keyed(s, scope.plugin_id@, scope.key@) {
        Some(k) => {
            assert(made_by(s[k], scope.plugin_id@, scope.key@));
            if k < i {
                assert(!made_by(s[k], scope.plugin_id@, scope.key@));
            }
            if i < k {
                assert(!crate::session_service::keyed(s[i], scope.plugin_id@, scope.key@));
            }
        },
        None => {
            assert(!crate::session_service::keyed(s[i], scope.plugin_id@, scope.key@));
        },
    }
}

/// Of two creates under a new key the first builds; the second waits where it is the same request, and is
/// refused where it is another. Creates under other keys, and those of other plugins, are not held up.
pub proof fn law_one_create_builds(
    first: &mut SessionService,
    a: &CreateScope,
    r: CreateDecision,
    second: &mut SessionService,
    b: &CreateScope,
    q: CreateDecision,
)
    requires
        call_ensures(SessionService::decide_create, (first, a), r),
        call_ensures(SessionService::decide_create, (second, b), q),
        *old(second) == *final(first),
        forall|j: int|
            0 <= j < old(first).instances@.len() ==> !made_by(
                #[trigger] old(first).instances@[j],
                a.plugin_id@,
                a.key@,
            ) && !made_by(old(first).instances@[j], b.plugin_id@, b.key@),
        !old(first).in_flight().contains_key((a.plugin_id@, a.key@)),
    ensures
        r is Build,
        b.plugin_id@ == a.plugin_id@ && b.key@ == a.key@ && b.payload_hash@ == a.payload_hash@ ==> q is Wait,
        b.plugin_id@ == a.plugin_id@ && b.key@ == a.key@ && b.payload_hash@ != a.payload_hash@ ==> q is Conflict,
        (b.plugin_id@ != a.plugin_id@ || b.key@ != a.key@) && !old(first).in_flight().contains_key(
            (b.plugin_id@, b.key@),
        ) ==> q is Build,
{
    let s = old(first).instances@;
    lemma_first_keyed(s, a.plugin_id@, a.key@);
    lemma_first_keyed(s, b.plugin_id@, b.key@);
    if let Some(k) = first_keyed(s, a.plugin_id@, a.key@) {
        assert(made_by(s[k], a.plugin_id@, a.key@));
    }
    if let Some(k) = first_keyed(s, b.plugin_id@, b.key@) {
        assert(made_by(s[k], b.plugin_id@, b.key@));
    }
}

/// When a create is over, its key can be built again.
pub proof fn law_released_key_builds_again(
    first: &mut SessionService,
    plugin_id: &str,
    key: &str,
    u: (),
    second: &mut SessionService,
    b: &CreateScope,
    q: CreateDecision,
)
    requires
        call_ensures(SessionService::release_in_flight, (first, plugin_id, key), u),
        call_ensures(SessionService::decide_create, (second, b), q),
        *old(second) == *final(first),
        b.plugin_id@ == plugin_id@,
        b.key@ == key@,
        forall|j: int|
            0 <= j < old(first).instances@.len() ==> !made_by(
                #[trigger] old(first).instances@[j],
                plugin_id@,
                key@,
            ),
    ensures
        q is Build,
{
    let s = old(first).instances@;
    lemma_first_keyed(s, plugin_id@, key@);
    if let Some(k) = first_keyed(s, plugin_id@, key@) {
        assert(made_by(s[k], plugin_id@, key@));
    }
}

/// A plan under a key notes the plugin, the key and one hash, both where the create is decided on and in
/// the session that it makes, so that the session is found again.
pub proof fn law_plan_and_session_agree(
    spec: StructuredSessionSpec,
    plugin_id: &str,
    key: &str,
    turn: Option<&str>,
    r: CreatePlan,
)
    requires
        call_ensures(plan_create, (spec, Some(plugin_id), Some(key), turn), r),
    ensures
        r.scope is Some,
        r.scope->0.plugin_id@ == plugin_id@,
        r.scope->0.key@ == key@,
        text_of(r.spec.created_by_plugin) == Some(plugin_id@),
        r.spec.plugin_create_idempotency is Some,
        r.spec.plugin_create_idempotency->0.key@ == key@,
        r.spec.plugin_create_idempotency->0.payload_hash@ == r.scope->0.payload_hash@,
        r.spec.trust_hooks == Some(false),
{
}

} // verus!
