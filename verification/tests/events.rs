//! The event log, run on a database in memory.

use std::collections::HashMap;

use aoe_host::events::{
    all_topic_seqs, count_reply, count_since, delete_attachments_for_seq, delete_topic, discriminant_of,
    discriminant_probe, ensure_discriminant_column, from_stored, highest_reply, highest_seq, insert_attachment,
    insert_event, last_event_at_for_topics, latest_by_discriminant, load_attachment, lowest_reply, lowest_seq,
    not_like_clauses, open, prune_attachments, prune_events, prune_retention, scan, scan_reply, to_stored, Attachment,
    Order, Schema, SeqBound, SqlValue, Statement,
};
use rusqlite::types::Value;
use rusqlite::{params_from_iter, Connection, OptionalExtension};

fn params(s: &Statement) -> Vec<Value> {
    s.params
        .iter()
        .map(|p| match p {
            SqlValue::Text(t) => Value::Text(t.clone()),
            SqlValue::Integer(n) => Value::Integer(*n),
            SqlValue::Blob(b) => Value::Blob(b.clone()),
            SqlValue::Null => Value::Null,
        })
        .collect()
}

fn run(conn: &Connection, s: &Statement) -> usize {
    conn.execute(&s.sql, params_from_iter(params(s))).expect("the statement runs")
}

fn rows(conn: &Connection, s: &Statement) -> Vec<(i64, String)> {
    let mut q = conn.prepare(&s.sql).expect("the query is sound");
    let found = q
        .query_map(params_from_iter(params(s)), |row| Ok((row.get(0)?, row.get(1)?)))
        .expect("the query runs");
    found.map(|r| r.expect("a row")).collect()
}

fn number(conn: &Connection, s: &Statement) -> Option<i64> {
    conn.query_row(&s.sql, params_from_iter(params(s)), |row| row.get(0))
        .optional()
        .expect("the query runs")
        .flatten()
}

fn ensure_column(conn: &Connection, schema: &Schema) {
    let columns: Option<i64> = conn.query_row(&discriminant_probe(schema), [], |row| row.get(0)).ok();
    for text in ensure_discriminant_column(schema, columns) {
        conn.execute_batch(&text).expect("the column is there");
    }
}

fn mem(schema: &Schema) -> Connection {
    let conn = Connection::open_in_memory().expect("a database");
    conn.execute_batch(&open(schema)).expect("the tables are made");
    ensure_column(&conn, schema);
    conn
}

fn add(conn: &Connection, schema: &Schema, topic: &str, seq: u64, json: &str, at: i64) -> usize {
    run(conn, &insert_event(schema, topic, seq, json, at))
}

fn window(
    conn: &Connection,
    schema: &Schema,
    topic: &str,
    bound: SeqBound,
    order: Order,
    limit: Option<usize>,
) -> Vec<(u64, String)> {
    scan_reply(&rows(conn, &scan(schema, topic, bound, order, limit)))
}

fn highest(conn: &Connection, schema: &Schema, topic: &str) -> u64 {
    highest_reply(number(conn, &highest_seq(schema, topic)))
}

fn lowest(conn: &Connection, schema: &Schema, topic: &str) -> Option<u64> {
    lowest_reply(number(conn, &lowest_seq(schema, topic)))
}

fn prune(conn: &Connection, schema: &Schema, topic: &str, keep: usize, pinned: &[&str]) {
    let pinned: Vec<String> = pinned.iter().map(|p| p.to_string()).collect();
    let Some(query) = prune_retention(schema, topic, keep) else {
        return;
    };
    let cutoff = number(conn, &query);
    if let Some(s) = prune_events(schema, topic, cutoff, &pinned) {
        let n = run(conn, &s);
        if let Some(s) = prune_attachments(schema, topic, cutoff.expect("there is a cutoff"), Ok(n)) {
            run(conn, &s);
        }
    }
}

fn attach(conn: &Connection, schema: &Schema, topic: &str, seq: u64, id: &str, name: Option<&str>, data: &[u8]) -> bool {
    let a = Attachment {
        id: id.into(),
        kind: "image".into(),
        mime_type: "image/png".into(),
        name: name.map(|n| n.into()),
        data: data.to_vec(),
    };
    run(conn, &insert_attachment(schema, topic, seq, a, 0)) == 1
}

fn attachment(conn: &Connection, schema: &Schema, topic: &str, id: &str) -> Option<(String, Vec<u8>)> {
    let s = load_attachment(schema, topic, id);
    conn.query_row(&s.sql, params_from_iter(params(&s)), |row| Ok((row.get(0)?, row.get(1)?)))
        .optional()
        .expect("the query runs")
}

fn latest(conn: &Connection, schema: &Schema, topic: &str, variant: &str) -> Option<(u64, String)> {
    scan_reply(&rows(conn, &latest_by_discriminant(schema, topic, variant))).into_iter().next()
}

#[test]
fn schema_rejects_bad_prefix() {
    assert!(Schema::new("").is_err());
    assert!(Schema::new("ACP").is_err());
    assert!(Schema::new("plugin-host").is_err());
    assert!(Schema::new("plugin1").is_err());
    let s = Schema::new("plugin_host").unwrap();
    assert_eq!(s.events_table(), "plugin_host_events");
    assert_eq!(s.attachments_table(), "plugin_host_attachments");
}

/// The log is genuinely topic-keyed and payload-opaque: drive it with two topics, proving
/// append/scan/seq/delete all partition correctly.
#[test]
fn topic_keyed_append_scan_and_delete() {
    let schema = Schema::new("demo").unwrap();
    let conn = mem(&schema);
    for (topic, seq) in [("a", 1u64), ("a", 2), ("a", 3), ("b", 1)] {
        assert_eq!(add(&conn, &schema, topic, seq, &format!("\"e{seq}\""), seq as i64), 1);
    }
    // Duplicate (topic, seq) is a no-op.
    assert_eq!(add(&conn, &schema, "a", 2, "\"dup\"", 0), 0);

    assert_eq!(highest(&conn, &schema, "a"), 3);
    assert_eq!(lowest(&conn, &schema, "a"), Some(1));
    assert_eq!(highest(&conn, &schema, "b"), 1);
    assert_eq!(highest(&conn, &schema, "missing"), 0);
    assert_eq!(lowest(&conn, &schema, "missing"), None);

    // Forward scan after a cursor, bounded.
    let fwd = window(&conn, &schema, "a", SeqBound::After(0), Order::Asc, Some(2));
    assert_eq!(fwd, vec![(1, "\"e1\"".into()), (2, "\"e2\"".into())]);
    // Backward scan below a cursor.
    let back = window(&conn, &schema, "a", SeqBound::Before(u64::MAX), Order::Desc, Some(2));
    assert_eq!(back, vec![(3, "\"e3\"".into()), (2, "\"e2\"".into())]);
    // Without a limit, or with one that is not reached, the whole window.
    let all = window(&conn, &schema, "a", SeqBound::After(1), Order::Desc, None);
    assert_eq!(all, vec![(3, "\"e3\"".into()), (2, "\"e2\"".into())]);
    assert_eq!(window(&conn, &schema, "a", SeqBound::After(1), Order::Desc, Some(9)), all);
    assert!(window(&conn, &schema, "a", SeqBound::After(1), Order::Desc, Some(0)).is_empty());

    let s = all_topic_seqs(&schema);
    let mut q = conn.prepare(&s.sql).unwrap();
    let mut seqs: Vec<(String, u64)> = q
        .query_map(params_from_iter(params(&s)), |row| Ok((row.get(0)?, from_stored(row.get(1)?))))
        .unwrap()
        .map(|r| r.unwrap())
        .collect();
    seqs.sort();
    assert_eq!(seqs, vec![("a".into(), 3), ("b".into(), 1)]);

    let (events, attachments) = delete_topic(&schema, "a");
    assert_eq!(run(&conn, &events), 3);
    run(&conn, &attachments);
    assert_eq!(highest(&conn, &schema, "a"), 0);
    assert_eq!(highest(&conn, &schema, "b"), 1);
}

#[test]
fn retention_prunes_oldest_but_keeps_pinned() {
    let schema = Schema::new("demo").unwrap();
    let conn = mem(&schema);
    // seq 1 is a pinned snapshot; 2..=5 are ordinary.
    add(&conn, &schema, "t", 1, "{\"Pinned\":{}}", 1);
    for seq in 2..=5u64 {
        add(&conn, &schema, "t", seq, "{\"Chunk\":{}}", seq as i64);
    }
    // Cap of 2 with Pinned exempt: keep newest 2 (4,5) plus pinned 1.
    prune(&conn, &schema, "t", 2, &["Pinned"]);
    let kept: Vec<u64> = window(&conn, &schema, "t", SeqBound::After(0), Order::Asc, None)
        .into_iter()
        .map(|(s, _)| s)
        .collect();
    assert_eq!(kept, vec![1, 4, 5]);
}

/// A pinned event's attachment must survive a prune; a pruned event's attachment must be dropped.
#[test]
fn retention_keeps_pinned_event_attachments() {
    let schema = Schema::new("demo").unwrap();
    let conn = mem(&schema);
    add(&conn, &schema, "t", 1, "{\"Pinned\":{}}", 1);
    for seq in 2..=5u64 {
        add(&conn, &schema, "t", seq, "{\"Chunk\":{}}", seq as i64);
    }
    // Blob on the pinned event (seq 1) and on a soon-pruned event (seq 2).
    attach(&conn, &schema, "t", 1, "pinned-att", None, b"keep");
    attach(&conn, &schema, "t", 2, "pruned-att", None, b"drop");
    prune(&conn, &schema, "t", 2, &["Pinned"]);
    assert!(
        attachment(&conn, &schema, "t", "pinned-att").is_some(),
        "blob owned by a pinned (surviving) event must be kept"
    );
    assert!(
        attachment(&conn, &schema, "t", "pruned-att").is_none(),
        "blob owned by a pruned event must be dropped"
    );
}

#[test]
fn attachments_roundtrip_and_scope() {
    let schema = Schema::new("demo").unwrap();
    let conn = mem(&schema);
    assert!(attach(&conn, &schema, "t", 7, "att-1", Some("shot.png"), b"bytes"));
    let got = attachment(&conn, &schema, "t", "att-1");
    assert_eq!(got, Some(("image/png".into(), b"bytes".to_vec())));
    // Wrong topic can't read it.
    assert_eq!(attachment(&conn, &schema, "other", "att-1"), None);
    run(&conn, &delete_attachments_for_seq(&schema, "t", 7));
    assert_eq!(attachment(&conn, &schema, "t", "att-1"), None);
}

#[test]
fn last_event_at_excludes_prefixes() {
    let schema = Schema::new("demo").unwrap();
    let conn = mem(&schema);
    add(&conn, &schema, "t", 1, "{\"Chunk\":{}}", 100);
    // A later, but excluded, event must not advance the activity clock.
    add(&conn, &schema, "t", 2, "{\"Snapshot\":{}}", 200);
    let s = last_event_at_for_topics(&schema, &vec!["t".into()], &vec!["Snapshot".into()]).expect("a query");
    let mut q = conn.prepare(&s.sql).unwrap();
    let map: HashMap<String, i64> = q
        .query_map(params_from_iter(params(&s)), |row| Ok((row.get(0)?, row.get(1)?)))
        .unwrap()
        .map(|r| r.unwrap())
        .collect();
    assert_eq!(map.get("t"), Some(&100));
    assert!(last_event_at_for_topics(&schema, &Vec::new(), &Vec::new()).is_none());
}

/// The indexed discriminant lookup returns the newest event of a given externally-tagged variant.
/// Covers struct variants, a topic that never emitted the variant, unit variants and topic scoping.
#[test]
fn latest_by_discriminant_returns_newest_match() {
    let schema = Schema::new("demo").unwrap();
    let conn = mem(&schema);
    add(&conn, &schema, "t", 1, "{\"PlanUpdated\":{\"n\":1}}", 1);
    add(&conn, &schema, "t", 2, "{\"Chunk\":{}}", 2);
    add(&conn, &schema, "t", 3, "{\"PlanUpdated\":{\"n\":2}}", 3);
    add(&conn, &schema, "t", 4, "{\"Chunk\":{}}", 4);
    // Newest PlanUpdated wins.
    assert_eq!(
        latest(&conn, &schema, "t", "PlanUpdated"),
        Some((3, "{\"PlanUpdated\":{\"n\":2}}".to_string()))
    );
    // A variant the topic never emitted: none.
    assert_eq!(latest(&conn, &schema, "t", "WakeupScheduled"), None);
    // Unit variants serialize as a bare quoted string; still matched.
    add(&conn, &schema, "t", 5, "\"ThinkingStarted\"", 5);
    assert_eq!(
        latest(&conn, &schema, "t", "ThinkingStarted"),
        Some((5, "\"ThinkingStarted\"".to_string()))
    );
    // Scoped by topic: another topic's PlanUpdated is invisible.
    add(&conn, &schema, "other", 9, "{\"PlanUpdated\":{\"n\":9}}", 9);
    assert_eq!(
        latest(&conn, &schema, "t", "PlanUpdated"),
        Some((3, "{\"PlanUpdated\":{\"n\":2}}".to_string()))
    );
}

/// The lookup must seek via the discriminant index, not scan the topic.
#[test]
fn latest_by_discriminant_uses_the_index() {
    let schema = Schema::new("demo").unwrap();
    let conn = mem(&schema);
    add(&conn, &schema, "t", 1, "{\"PlanUpdated\":{}}", 1);
    let s = latest_by_discriminant(&schema, "t", "PlanUpdated");
    let plan: String = conn
        .query_row(&format!("EXPLAIN QUERY PLAN {}", s.sql), params_from_iter(params(&s)), |row| row.get(3))
        .unwrap();
    assert!(
        plan.contains("idx_demo_events_session_discriminant_seq"),
        "expected the discriminant index to be used, got plan: {plan}"
    );
}

/// A database created before the `discriminant` column existed gets the column added and its
/// historical rows backfilled. The backfill must agree with `discriminant_of` for both struct
/// variants and bare-string unit variants, and be idempotent across reopens.
#[test]
fn ensure_discriminant_column_backfills_legacy_rows() {
    let schema = Schema::new("demo").unwrap();
    let events = schema.events_table();
    let conn = Connection::open_in_memory().unwrap();
    // Pre-column schema: no `discriminant`.
    conn.execute_batch(&format!(
        "CREATE TABLE {events} (session_id TEXT NOT NULL, seq INTEGER NOT NULL, event_json TEXT NOT NULL, created_at INTEGER NOT NULL, PRIMARY KEY (session_id, seq));"
    ))
    .unwrap();
    for (seq, json) in [
        (1i64, "{\"PlanUpdated\":{\"n\":1}}"),
        (2, "{\"Chunk\":{}}"),
        (3, "\"ThinkingStarted\""),
    ] {
        conn.execute(
            &format!("INSERT INTO {events} (session_id, seq, event_json, created_at) VALUES ('t', ?1, ?2, ?1)"),
            rusqlite::params_from_iter(vec![Value::Integer(seq), Value::Text(json.to_string())]),
        )
        .unwrap();
    }
    ensure_column(&conn, &schema);
    // Historical struct + unit variants are now indexable by discriminant.
    assert_eq!(
        latest(&conn, &schema, "t", "PlanUpdated"),
        Some((1, "{\"PlanUpdated\":{\"n\":1}}".to_string()))
    );
    assert_eq!(
        latest(&conn, &schema, "t", "ThinkingStarted"),
        Some((3, "\"ThinkingStarted\"".to_string()))
    );
    // Second call is a no-op (column already present), not an error.
    ensure_column(&conn, &schema);
    assert_eq!(latest(&conn, &schema, "t", "Chunk"), Some((2, "{\"Chunk\":{}}".to_string())));
}

#[test]
fn nothing_is_pruned_without_need() {
    let schema = Schema::new("demo").unwrap();
    assert!(prune_retention(&schema, "t", 0).is_none());
    assert!(prune_events(&schema, "t", None, &Vec::new()).is_none());
    assert!(prune_attachments(&schema, "t", 4, Ok(0)).is_none());
    assert!(prune_attachments(&schema, "t", 4, Err("busy".into())).is_none());
    let conn = mem(&schema);
    add(&conn, &schema, "t", 1, "\"A\"", 1);
    add(&conn, &schema, "u", 1, "\"A\"", 1);
    prune(&conn, &schema, "t", 1, &[]);
    assert_eq!(highest(&conn, &schema, "t"), 1);
    add(&conn, &schema, "t", 2, "\"A\"", 1);
    prune(&conn, &schema, "t", 1, &[]);
    assert_eq!(lowest(&conn, &schema, "t"), Some(2));
    assert_eq!(lowest(&conn, &schema, "u"), Some(1), "another topic is left alone");
}

#[test]
fn windows_are_exact() {
    let schema = Schema::new("demo").unwrap();
    let conn = mem(&schema);
    for seq in 1..=4u64 {
        add(&conn, &schema, "t", seq, "\"A\"", 10 * seq as i64);
    }
    let seqs = |bound, order, limit| -> Vec<u64> {
        window(&conn, &schema, "t", bound, order, limit).into_iter().map(|(s, _)| s).collect()
    };
    assert_eq!(seqs(SeqBound::After(2), Order::Desc, None), vec![4, 3]);
    assert_eq!(seqs(SeqBound::Before(3), Order::Asc, None), vec![1, 2]);
    assert_eq!(seqs(SeqBound::Before(1), Order::Asc, None), Vec::<u64>::new());
    assert_eq!(seqs(SeqBound::After(0), Order::Asc, Some(usize::MAX)), vec![1, 2, 3, 4]);
    let counted = |from| count_reply(number(&conn, &count_since(&schema, "t", from)).unwrap());
    assert_eq!(counted(20), 3);
    assert_eq!(counted(41), 0);
    assert_eq!(count_reply(-1), 0);
}

#[test]
fn numbers_are_stored_as_they_are() {
    assert_eq!(to_stored(7), 7);
    assert_eq!(to_stored(u64::MAX), -1);
    assert_eq!(from_stored(7), 7);
    assert_eq!(from_stored(-1), u64::MAX);
    assert_eq!(highest_reply(None), 0);
    assert_eq!(lowest_reply(Some(4)), Some(4));
}

#[test]
fn variants_are_read_off_the_text() {
    assert_eq!(discriminant_of("{\"PlanUpdated\":{\"n\":1}}"), "PlanUpdated");
    assert_eq!(discriminant_of("\"ThinkingStarted\""), "ThinkingStarted");
    assert_eq!(discriminant_of("17"), "");
    let (clause, values) = not_like_clauses(&vec!["A".into()]);
    assert_eq!(clause, " AND event_json NOT LIKE ?");
    assert_eq!(values, vec![SqlValue::Text("{\"A\":%".into())]);
}
