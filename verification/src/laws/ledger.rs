//! The ledger of what plugins did: what is counted, recorded and kept.

use vstd::prelude::*;

use crate::automation::AutomationPolicy;
use crate::events::{bounds, Bound, EventV, Statement};
use crate::json::{json_written, Json, JsonV};
use crate::laws::sql::{
    adds_row, event_row, lemma_count_picks, lemma_cutoff_picks, lemma_event_written, picks, sql_words, writes, Tables,
};

verus! {

proof fn lemma_ledger_table(policy: AutomationPolicy)
    requires
        call_ensures(AutomationPolicy::open, (), Ok::<AutomationPolicy, String>(policy)),
    ensures
        !policy.schema.events().contains(' '),
{
    reveal_strlit("plugin_automation_audit_events");
}

/// The topic under which the operations of a plugin stand.
pub open spec fn topic_of(operation: Seq<char>, plugin_id: Seq<char>) -> Seq<char> {
    operation + seq!['/'] + plugin_id
}

proof fn lemma_topic(operation: Seq<char>, plugin_id: Seq<char>)
    ensures
        operation + "/"@ + plugin_id == topic_of(operation, plugin_id),
{
    reveal_strlit("/");
    assert("/"@ =~= seq!['/']);
}

/// What counts against a limit are the operations of that kind and that plugin within the last hour.
pub proof fn law_usage_is_of_the_last_hour(
    policy: &AutomationPolicy,
    operation: &str,
    plugin_id: &str,
    now: i64,
    s: Statement,
    t: Tables,
    of: Seq<char>,
    seq: i64,
    e: EventV,
)
    requires
        call_ensures(AutomationPolicy::open, (), Ok::<AutomationPolicy, String>(*policy)),
        call_ensures(AutomationPolicy::used_query, (policy, operation, plugin_id, now), s),
        now >= i64::MIN + 3_600_000,
    ensures
        picks(s, t, seq!["COUNT(*)"@], "plugin_automation_audit_events"@, event_row(of, seq, e)) <==> of == topic_of(
            operation@,
            plugin_id@,
        ) && e.created_at >= now - 3_600_000,
{
    lemma_ledger_table(*policy);
    lemma_topic(operation@, plugin_id@);
    lemma_count_picks(
        policy.schema,
        topic_of(operation@, plugin_id@),
        (now - 3_600_000) as i64,
        s,
        t,
        of,
        seq,
        e,
    );
}

/// An admitted operation is recorded where it counts: under its topic, behind the records before it, at
/// the time it was admitted, with the operation and the plugin.
pub proof fn law_admission_is_recorded(
    policy: &AutomationPolicy,
    operation: &str,
    plugin_id: &str,
    highest: u64,
    now: i64,
    s: Statement,
    record: JsonV,
)
    requires
        call_ensures(AutomationPolicy::open, (), Ok::<AutomationPolicy, String>(*policy)),
        call_ensures(AutomationPolicy::admission_statement, (policy, operation, plugin_id, highest, now), s),
        highest < i64::MAX,
        record == JsonV::Object(map!["op"@ => JsonV::Text(operation@), "plugin"@ => JsonV::Text(plugin_id@)]),
    ensures
        adds_row(s, "plugin_automation_audit_events"@, 5),
        writes(s, 5, 0, "session_id"@, Bound::Text(topic_of(operation@, plugin_id@))),
        writes(s, 5, 1, "seq"@, Bound::Integer((highest + 1) as i64)),
        writes(s, 5, 2, "event_json"@, Bound::Text(json_written(record))),
        writes(s, 5, 3, "created_at"@, Bound::Integer(now)),
{
    lemma_ledger_table(*policy);
    lemma_topic(operation@, plugin_id@);
    assert(crate::automation::admission_record(operation@, plugin_id@) == record);
    let json = json_written(record);
    let event = EventV { json, created_at: now, discriminant: crate::events::variant_of(json) };
    lemma_event_written(policy.schema, topic_of(operation@, plugin_id@), (highest + 1) as i64, event, s);
}

/// What a call came to is recorded under the decisions about the plugin, behind those before it.
pub proof fn law_decision_is_recorded(
    policy: &AutomationPolicy,
    plugin_id: &str,
    record: &Json,
    highest: u64,
    now: i64,
    s: Statement,
)
    requires
        call_ensures(AutomationPolicy::open, (), Ok::<AutomationPolicy, String>(*policy)),
        call_ensures(AutomationPolicy::audit, (policy, plugin_id, record, highest, now), s),
        highest < i64::MAX,
    ensures
        adds_row(s, "plugin_automation_audit_events"@, 5),
        writes(s, 5, 0, "session_id"@, Bound::Text(topic_of("decision"@, plugin_id@))),
        writes(s, 5, 1, "seq"@, Bound::Integer((highest + 1) as i64)),
        writes(s, 5, 2, "event_json"@, Bound::Text(json_written(record@))),
        writes(s, 5, 3, "created_at"@, Bound::Integer(now)),
{
    lemma_ledger_table(*policy);
    lemma_topic("decision"@, plugin_id@);
    let json = json_written(record@);
    let event = EventV { json, created_at: now, discriminant: crate::events::variant_of(json) };
    lemma_event_written(policy.schema, topic_of("decision"@, plugin_id@), (highest + 1) as i64, event, s);
}

/// Of each topic the newest two thousand records are kept.
pub proof fn law_two_thousand_records_are_kept(
    policy: &AutomationPolicy,
    operation: &str,
    plugin_id: &str,
    r: Option<Statement>,
    t: Tables,
    of: Seq<char>,
    seq: i64,
    e: EventV,
)
    requires
        call_ensures(AutomationPolicy::open, (), Ok::<AutomationPolicy, String>(*policy)),
        call_ensures(AutomationPolicy::retention_query, (policy, operation, plugin_id), r),
    ensures
        r is Some,
        picks(r->0, t, seq!["seq"@], "plugin_automation_audit_events"@, event_row(of, seq, e)) <==> of == topic_of(
            operation@,
            plugin_id@,
        ),
        sql_words(r->0).skip(8) == seq!["ORDER"@, "BY"@, "seq"@, "DESC"@, "LIMIT"@, "1"@, "OFFSET"@, "?2"@],
        bounds(r->0.params@)[1] == Bound::Integer(2000),
{
    lemma_ledger_table(*policy);
    lemma_topic(operation@, plugin_id@);
    lemma_cutoff_picks(policy.schema, topic_of(operation@, plugin_id@), 2000, r->0, t, of, seq, e);
}

} // verus!
