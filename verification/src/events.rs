//! A durable event log: the statements that write and read it, and what they do to the log.
//!
//! Events are opaque texts under a topic and a sequence number that the caller assigns. Each log
//! has two tables, one for events and one for attachments. This module says which statement is run
//! and how its reply is read; `Store` is what the two tables hold, and `Op::effect` what a
//! statement makes of it.

use vstd::prelude::*;

use crate::text::{
    blank, chars_of, cut, find_char, join2, join3, join_texts, joined, lemma_find_char, lemma_texts_push, lower_char,
    split_once, text_of, texts,
};

verus! {

broadcast use lemma_texts_push;

/// The names of the two tables of a log.
#[derive(Debug, Clone)]
pub struct Schema {
    events_table: String,
    attachments_table: String,
}

/// Whether a prefix can stand in the name of a table: small letters and underscores.
pub open spec fn valid_prefix(s: Seq<char>) -> bool {
    s.len() > 0 && forall|i: int| 0 <= i < s.len() ==> 'a' <= #[trigger] s[i] <= 'z' || s[i] == '_'
}

impl Schema {
    /// The name of the table of events.
    pub closed spec fn events(&self) -> Seq<char> {
        self.events_table@
    }

    /// The name of the table of attachments.
    pub closed spec fn attachments(&self) -> Seq<char> {
        self.attachments_table@
    }

    /// The tables under a prefix.
    pub fn new(prefix: &str) -> (r: Result<Schema, String>)
        ensures
            match r {
                Ok(s) => valid_prefix(prefix@) && s.events() == prefix@ + "_events"@ && s.attachments() == prefix@
                    + "_attachments"@,
                Err(e) => !valid_prefix(prefix@) && e@
                    == "event log table prefix must be non-empty and match [a-z_]+"@,
            },
    {
        let v = chars_of(prefix);
        let mut ok = v.len() > 0;
        let mut i: usize = 0;
        while i < v.len()
            invariant
                v@ == prefix@,
                i <= v@.len(),
                ok == (v@.len() > 0 && forall|j: int|
                    0 <= j < i ==> 'a' <= #[trigger] v@[j] <= 'z' || v@[j] == '_'),
            decreases v@.len() - i,
        {
            let c = v[i];
            if !(('a' <= c && c <= 'z') || c == '_') {
                ok = false;
            }
            i = i + 1;
        }
        if !ok {
            return Err("event log table prefix must be non-empty and match [a-z_]+".to_owned());
        }
        Ok(Schema { events_table: join2(prefix, "_events"), attachments_table: join2(prefix, "_attachments") })
    }

    pub fn events_table(&self) -> (r: &str)
        ensures
            r@ == self.events(),
    {
        self.events_table.as_str()
    }

    pub fn attachments_table(&self) -> (r: &str)
        ensures
            r@ == self.attachments(),
    {
        self.attachments_table.as_str()
    }
}

/// Which side of a sequence number a window lies on.
#[derive(Debug, Clone, Copy, PartialEq, Eq, Structural)]
pub enum SeqBound {
    /// Above it.
    After(u64),
    /// Below it.
    Before(u64),
}

/// The order of the rows of a window.
#[derive(Debug, Clone, Copy, PartialEq, Eq, Structural)]
pub enum Order {
    Asc,
    Desc,
}

/// A value bound to a statement.
#[derive(Debug, PartialEq, Eq)]
pub enum SqlValue {
    Text(String),
    Integer(i64),
    Blob(Vec<u8>),
    Null,
}

/// What a bound value stands for.
pub enum Bound {
    Text(Seq<char>),
    Integer(i64),
    Blob(Seq<u8>),
    Null,
}

impl SqlValue {
    pub open spec fn view(&self) -> Bound {
        match *self {
            SqlValue::Text(s) => Bound::Text(s@),
            SqlValue::Integer(n) => Bound::Integer(n),
            SqlValue::Blob(b) => Bound::Blob(b@),
            SqlValue::Null => Bound::Null,
        }
    }
}

/// The bound values of a statement.
pub open spec fn bounds(v: Seq<SqlValue>) -> Seq<Bound> {
    Seq::new(v.len(), |i: int| v[i]@)
}

/// A statement and the values bound to it, in order.
#[derive(Debug)]
pub struct Statement {
    pub sql: String,
    pub params: Vec<SqlValue>,
}

/// An event as it is stored.
pub struct EventV {
    pub json: Seq<char>,
    pub created_at: i64,
    pub discriminant: Seq<char>,
}

/// An attachment as it is stored.
pub struct AttachmentV {
    pub seq: i64,
    pub kind: Seq<char>,
    pub mime_type: Seq<char>,
    pub name: Option<Seq<char>>,
    pub data: Seq<u8>,
    pub created_at: i64,
}

/// What the two tables of a log hold: events by topic and number, attachments by topic and id.
pub struct Store {
    pub events: Map<(Seq<char>, i64), EventV>,
    pub attachments: Map<(Seq<char>, Seq<char>), AttachmentV>,
}

/// A statement on a log, by what it does.
pub enum Op {
    InsertEvent { topic: Seq<char>, seq: i64, event: EventV },
    PruneEvents { topic: Seq<char>, cutoff: i64, pinned: Seq<Seq<char>> },
    PruneAttachments { topic: Seq<char>, cutoff: i64 },
    InsertAttachment { topic: Seq<char>, id: Seq<char>, attachment: AttachmentV },
    DeleteAttachmentsOf { topic: Seq<char>, seq: i64 },
    DeleteEvents { topic: Seq<char> },
    DeleteAttachments { topic: Seq<char> },
    Cutoff { topic: Seq<char>, keep: i64 },
    CountSince { topic: Seq<char>, from: i64 },
    Scan { topic: Seq<char>, bound: SeqBound, order: Order, limit: Option<i64> },
    Highest { topic: Seq<char> },
    Lowest { topic: Seq<char> },
    AllHighest,
    LastEventAt { topics: Seq<Seq<char>>, excluded: Seq<Seq<char>> },
    LatestOf { topic: Seq<char>, discriminant: Seq<char> },
    LoadAttachment { topic: Seq<char>, id: Seq<char> },
}

/// SQLite's `LIKE`: a percent sign stands for any characters, an underscore for any one, and the
/// case of ASCII letters is ignored.
pub open spec fn like(text: Seq<char>, pattern: Seq<char>) -> bool
    decreases pattern.len(), text.len(),
{
    if pattern.len() == 0 {
        text.len() == 0
    } else if pattern[0] == '%' {
        like(text, pattern.skip(1)) || (text.len() > 0 && like(text.skip(1), pattern))
    } else {
        text.len() > 0 && (pattern[0] == '_' || lower_char(pattern[0]) == lower_char(text[0])) && like(
            text.skip(1),
            pattern.skip(1),
        )
    }
}

/// The pattern of the events of a variant.
pub open spec fn variant_pattern(name: Seq<char>) -> Seq<char> {
    "{\""@ + name + "\":%"@
}

/// Whether an event is of one of some variants.
pub open spec fn of_variants(json: Seq<char>, names: Seq<Seq<char>>) -> bool {
    exists|i: int| 0 <= i < names.len() && like(json, variant_pattern(#[trigger] names[i]))
}

impl Op {
    /// What a statement makes of a log. One that only reads leaves it as it is. This says what SQLite
    /// does with the text of the statement; that it does so is not proved here.
    pub open spec fn effect(self, s: Store) -> Store {
        match self {
            Op::InsertEvent { topic, seq, event } => if s.events.contains_key((topic, seq)) {
                s
            } else {
                Store { events: s.events.insert((topic, seq), event), ..s }
            },
            Op::PruneEvents { topic, cutoff, pinned } => Store {
                events: Map::new(
                    |k: (Seq<char>, i64)|
                        s.events.contains_key(k) && !(k.0 == topic && k.1 <= cutoff && !of_variants(
                            s.events[k].json,
                            pinned,
                        )),
                    |k: (Seq<char>, i64)| s.events[k],
                ),
                ..s
            },
            Op::PruneAttachments { topic, cutoff } => Store {
                attachments: Map::new(
                    |k: (Seq<char>, Seq<char>)|
                        s.attachments.contains_key(k) && !(k.0 == topic && s.attachments[k].seq <= cutoff
                            && !s.events.contains_key((topic, s.attachments[k].seq))),
                    |k: (Seq<char>, Seq<char>)| s.attachments[k],
                ),
                ..s
            },
            Op::InsertAttachment { topic, id, attachment } => if s.attachments.contains_key((topic, id)) {
                s
            } else {
                Store { attachments: s.attachments.insert((topic, id), attachment), ..s }
            },
            Op::DeleteAttachmentsOf { topic, seq } => Store {
                attachments: Map::new(
                    |k: (Seq<char>, Seq<char>)|
                        s.attachments.contains_key(k) && !(k.0 == topic && s.attachments[k].seq == seq),
                    |k: (Seq<char>, Seq<char>)| s.attachments[k],
                ),
                ..s
            },
            Op::DeleteEvents { topic } => Store {
                events: Map::new(
                    |k: (Seq<char>, i64)| s.events.contains_key(k) && k.0 != topic,
                    |k: (Seq<char>, i64)| s.events[k],
                ),
                ..s
            },
            Op::DeleteAttachments { topic } => Store {
                attachments: Map::new(
                    |k: (Seq<char>, Seq<char>)| s.attachments.contains_key(k) && k.0 != topic,
                    |k: (Seq<char>, Seq<char>)| s.attachments[k],
                ),
                ..s
            },
            _ => s,
        }
    }

    /// The text of a statement, given the names of the tables.
    pub open spec fn sql(self, events: Seq<char>, attachments: Seq<char>) -> Seq<char> {
        match self {
            Op::InsertEvent { .. } => "INSERT OR IGNORE INTO "@ + events
                + " (session_id, seq, event_json, created_at, discriminant) VALUES (?1, ?2, ?3, ?4, ?5)"@,
            Op::PruneEvents { pinned, .. } => "DELETE FROM "@ + events + " WHERE session_id = ? AND seq <= ?"@
                + exclusions(pinned.len()),
            Op::PruneAttachments { .. } => "DELETE FROM "@ + attachments
                + " WHERE session_id = ?1 AND seq <= ?2 AND seq NOT IN (SELECT seq FROM "@ + events
                + " WHERE session_id = ?1)"@,
            Op::InsertAttachment { .. } => "INSERT OR IGNORE INTO "@ + attachments
                + " (session_id, seq, attachment_id, kind, mime_type, name, data, created_at) VALUES (?1, ?2, ?3, ?4, ?5, ?6, ?7, ?8)"@,
            Op::DeleteAttachmentsOf { .. } => "DELETE FROM "@ + attachments + " WHERE session_id = ?1 AND seq = ?2"@,
            Op::DeleteEvents { .. } => "DELETE FROM "@ + events + " WHERE session_id = ?1"@,
            Op::DeleteAttachments { .. } => "DELETE FROM "@ + attachments + " WHERE session_id = ?1"@,
            Op::Cutoff { .. } => "SELECT seq FROM "@ + events
                + " WHERE session_id = ?1 ORDER BY seq DESC LIMIT 1 OFFSET ?2"@,
            Op::CountSince { .. } => "SELECT COUNT(*) FROM "@ + events
                + " WHERE session_id = ?1 AND created_at >= ?2"@,
            Op::Scan { bound, order, limit, .. } => "SELECT seq, event_json FROM "@ + events
                + " WHERE session_id = ?1 AND seq "@ + (match bound {
                SeqBound::After(_) => ">"@,
                SeqBound::Before(_) => "<"@,
            }) + " ?2 ORDER BY seq "@ + (match order {
                Order::Asc => "ASC"@,
                Order::Desc => "DESC"@,
            }) + (match limit {
                Some(_) => " LIMIT ?3"@,
                None => ""@,
            }),
            Op::Highest { .. } => "SELECT MAX(seq) FROM "@ + events + " WHERE session_id = ?1"@,
            Op::Lowest { .. } => "SELECT MIN(seq) FROM "@ + events + " WHERE session_id = ?1"@,
            Op::AllHighest => "SELECT session_id, MAX(seq) FROM "@ + events + " GROUP BY session_id"@,
            Op::LastEventAt { topics, excluded } => "SELECT session_id, MAX(created_at) FROM "@ + events
                + " WHERE session_id IN ("@ + joined(Seq::new(topics.len(), |i: int| "?"@), ","@) + ")"@ + exclusions(
                excluded.len(),
            ) + " GROUP BY session_id"@,
            Op::LatestOf { .. } => "SELECT seq, event_json FROM "@ + events
                + " WHERE session_id = ?1 AND discriminant = ?2 ORDER BY seq DESC LIMIT 1"@,
            Op::LoadAttachment { .. } => "SELECT mime_type, data FROM "@ + attachments
                + " WHERE session_id = ?1 AND attachment_id = ?2"@,
        }
    }

    /// The values bound to a statement.
    pub open spec fn params(self) -> Seq<Bound> {
        match self {
            Op::InsertEvent { topic, seq, event } => seq![
                Bound::Text(topic),
                Bound::Integer(seq),
                Bound::Text(event.json),
                Bound::Integer(event.created_at),
                Bound::Text(event.discriminant),
            ],
            Op::PruneEvents { topic, cutoff, pinned } => seq![Bound::Text(topic), Bound::Integer(cutoff)] + patterns(
                pinned,
            ),
            Op::PruneAttachments { topic, cutoff } => seq![Bound::Text(topic), Bound::Integer(cutoff)],
            Op::InsertAttachment { topic, id, attachment } => seq![
                Bound::Text(topic),
                Bound::Integer(attachment.seq),
                Bound::Text(id),
                Bound::Text(attachment.kind),
                Bound::Text(attachment.mime_type),
                match attachment.name {
                    Some(n) => Bound::Text(n),
                    None => Bound::Null,
                },
                Bound::Blob(attachment.data),
                Bound::Integer(attachment.created_at),
            ],
            Op::DeleteAttachmentsOf { topic, seq } => seq![Bound::Text(topic), Bound::Integer(seq)],
            Op::DeleteEvents { topic } => seq![Bound::Text(topic)],
            Op::DeleteAttachments { topic } => seq![Bound::Text(topic)],
            Op::Cutoff { topic, keep } => seq![Bound::Text(topic), Bound::Integer(keep)],
            Op::CountSince { topic, from } => seq![Bound::Text(topic), Bound::Integer(from)],
            Op::Scan { topic, bound, limit, .. } => {
                let first = seq![Bound::Text(topic), Bound::Integer(clamped(bound_value(bound)))];
                match limit {
                    Some(n) => first.push(Bound::Integer(n)),
                    None => first,
                }
            },
            Op::Highest { topic } => seq![Bound::Text(topic)],
            Op::Lowest { topic } => seq![Bound::Text(topic)],
            Op::AllHighest => Seq::empty(),
            Op::LastEventAt { topics, excluded } => Seq::new(topics.len(), |i: int| Bound::Text(topics[i])) + patterns(
                excluded,
            ),
            Op::LatestOf { topic, discriminant } => seq![Bound::Text(topic), Bound::Text(discriminant)],
            Op::LoadAttachment { topic, id } => seq![Bound::Text(topic), Bound::Text(id)],
        }
    }
}

/// The patterns of some variants, as bound values.
pub open spec fn patterns(names: Seq<Seq<char>>) -> Seq<Bound> {
    Seq::new(names.len(), |i: int| Bound::Text(variant_pattern(names[i])))
}

/// The part of a statement that leaves out events of `n` variants.
pub open spec fn exclusions(n: nat) -> Seq<char>
    decreases n,
{
    if n == 0 {
        Seq::empty()
    } else {
        exclusions((n - 1) as nat) + " AND event_json NOT LIKE ?"@
    }
}

/// The number of a bound.
pub open spec fn bound_value(b: SeqBound) -> u64 {
    match b {
        SeqBound::After(v) => v,
        SeqBound::Before(v) => v,
    }
}

/// The nearest number that a column can hold.
pub open spec fn clamped(n: u64) -> i64 {
    if n <= i64::MAX {
        n as i64
    } else {
        i64::MAX
    }
}

impl Statement {
    /// Whether this is the statement for an operation on a log.
    pub open spec fn states(&self, schema: Schema, op: Op) -> bool {
        self.sql@ == op.sql(schema.events(), schema.attachments()) && bounds(self.params@) == op.params()
    }
}

fn clamp(n: u64) -> (r: i64)
    ensures
        r == clamped(n),
{
    if n <= 0x7FFF_FFFF_FFFF_FFFF {
        n as i64
    } else {
        0x7FFF_FFFF_FFFF_FFFF
    }
}

/// The sequence number as the column holds it.
pub open spec fn stored_seq(seq: u64) -> i64 {
    if seq <= i64::MAX {
        seq as i64
    } else {
        (seq - 0x1_0000_0000_0000_0000) as i64
    }
}

/// The sequence number that the column holds.
pub open spec fn read_seq(seq: i64) -> u64 {
    if seq >= 0 {
        seq as u64
    } else {
        (seq + 0x1_0000_0000_0000_0000) as u64
    }
}

/// The sequence number as the column holds it.
pub fn to_stored(seq: u64) -> (r: i64)
    ensures
        r == stored_seq(seq),
{
    if seq <= 0x7FFF_FFFF_FFFF_FFFF {
        seq as i64
    } else {
        -((0xFFFF_FFFF_FFFF_FFFF - seq) as i64) - 1
    }
}

/// The sequence number that the column holds.
pub fn from_stored(seq: i64) -> (r: u64)
    ensures
        r == read_seq(seq),
{
    if seq >= 0 {
        seq as u64
    } else {
        0xFFFF_FFFF_FFFF_FFFF - (-(seq + 1)) as u64
    }
}

/// A sequence number that is stored is read back as it was.
pub proof fn law_seq_round_trips(seq: u64)
    ensures
        read_seq(stored_seq(seq)) == seq,
{
}

fn text_value(s: &str) -> (r: SqlValue)
    ensures
        r@ == Bound::Text(s@),
{
    SqlValue::Text(s.to_owned())
}

/// The variant of an event: the text between its first two quotation marks.
pub open spec fn variant_of(json: Seq<char>) -> Seq<char> {
    match cut(json, '"') {
        Some((_, rest)) => match cut(rest, '"') {
            Some((name, _)) => name,
            None => Seq::empty(),
        },
        None => Seq::empty(),
    }
}

/// The variant of an event: the text between its first two quotation marks; the empty text where
/// there are not two.
pub fn discriminant_of(json: &str) -> (r: String)
    ensures
        r@ == variant_of(json@),
{
    if let Some((_, rest)) = split_once(json, '"') {
        if let Some((name, _)) = split_once(rest.as_str(), '"') {
            return name;
        }
    }
    blank()
}

/// The part of a statement that leaves out events of some variants, and the patterns to bind.
pub fn not_like_clauses(names: &Vec<String>) -> (r: (String, Vec<SqlValue>))
    ensures
        r.0@ == exclusions(names@.len()),
        bounds(r.1@) == patterns(texts(names@)),
{
    let mut clause = String::new();
    let mut values: Vec<SqlValue> = Vec::new();
    let mut i: usize = 0;
    assert(clause@ =~= exclusions(0));
    while i < names.len()
        invariant
            i <= names@.len(),
            clause@ == exclusions(i as nat),
            values@.len() == i,
            forall|j: int| 0 <= j < i ==> (#[trigger] values@[j])@ == Bound::Text(variant_pattern(names@[j]@)),
        decreases names@.len() - i,
    {
        clause.append(" AND event_json NOT LIKE ?");
        values.push(SqlValue::Text(join3("{\"", names[i].as_str(), "\":%")));
        i = i + 1;
    }
    assert(bounds(values@) =~= patterns(texts(names@)));
    (clause, values)
}

/// The statement that appends an event. One under the same topic and number stays as it is.
pub fn insert_event(schema: &Schema, topic: &str, seq: u64, json: &str, created_at: i64) -> (r: Statement)
    ensures
        r.states(
            *schema,
            Op::InsertEvent {
                topic: topic@,
                seq: stored_seq(seq),
                event: EventV { json: json@, created_at, discriminant: variant_of(json@) },
            },
        ),
{
    let mut params: Vec<SqlValue> = Vec::new();
    params.push(text_value(topic));
    params.push(SqlValue::Integer(to_stored(seq)));
    params.push(text_value(json));
    params.push(SqlValue::Integer(created_at));
    params.push(SqlValue::Text(discriminant_of(json)));
    let r = Statement {
        sql: join3(
            "INSERT OR IGNORE INTO ",
            schema.events_table(),
            " (session_id, seq, event_json, created_at, discriminant) VALUES (?1, ?2, ?3, ?4, ?5)",
        ),
        params,
    };
    proof {
        let op = Op::InsertEvent {
            topic: topic@,
            seq: stored_seq(seq),
            event: EventV { json: json@, created_at, discriminant: variant_of(json@) },
        };
        assert(bounds(r.params@) =~= op.params());
    }
    r
}

/// The statement that counts the events of a topic from a time on.
pub fn count_since(schema: &Schema, topic: &str, min_created_at: i64) -> (r: Statement)
    ensures
        r.states(*schema, Op::CountSince { topic: topic@, from: min_created_at }),
{
    let mut params: Vec<SqlValue> = Vec::new();
    params.push(text_value(topic));
    params.push(SqlValue::Integer(min_created_at));
    let r = Statement {
        sql: join3("SELECT COUNT(*) FROM ", schema.events_table(), " WHERE session_id = ?1 AND created_at >= ?2"),
        params,
    };
    assert(bounds(r.params@) =~= Op::CountSince { topic: topic@, from: min_created_at }.params());
    r
}

/// A count that the log replied: never below zero.
pub fn count_reply(count: i64) -> (r: u64)
    ensures
        r == if count < 0 {
            0
        } else {
            count as u64
        },
{
    if count < 0 {
        0
    } else {
        count as u64
    }
}

/// The statement that finds the newest event past the number of events to keep; none where no
/// limit is set.
pub fn prune_retention(schema: &Schema, topic: &str, max_events: usize) -> (r: Option<Statement>)
    ensures
        match r {
            Some(s) => max_events > 0 && s.states(
                *schema,
                Op::Cutoff { topic: topic@, keep: clamped(max_events as u64) },
            ),
            None => max_events == 0,
        },
{
    if max_events == 0 {
        return None;
    }
    let mut params: Vec<SqlValue> = Vec::new();
    params.push(text_value(topic));
    params.push(SqlValue::Integer(clamp(max_events as u64)));
    let s = Statement {
        sql: join3(
            "SELECT seq FROM ",
            schema.events_table(),
            " WHERE session_id = ?1 ORDER BY seq DESC LIMIT 1 OFFSET ?2",
        ),
        params,
    };
    assert(bounds(s.params@) =~= Op::Cutoff { topic: topic@, keep: clamped(max_events as u64) }.params());
    Some(s)
}

/// The statement that deletes the events up to the cutoff, but for those of pinned variants; none
/// where there is no cutoff.
pub fn prune_events(schema: &Schema, topic: &str, cutoff: Option<i64>, pinned: &Vec<String>) -> (r: Option<Statement>)
    ensures
        match (cutoff, r) {
            (Some(c), Some(s)) => s.states(
                *schema,
                Op::PruneEvents { topic: topic@, cutoff: c, pinned: texts(pinned@) },
            ),
            (None, None) => true,
            _ => false,
        },
{
    let c: i64 = match cutoff {
        Some(c) => c,
        None => {
            return None;
        },
    };
    let (clause, mut values) = not_like_clauses(pinned);
    let ghost bound = values@;
    let mut params: Vec<SqlValue> = Vec::new();
    params.push(text_value(topic));
    params.push(SqlValue::Integer(c));
    params.append(&mut values);
    let s = Statement {
        sql: "DELETE FROM ".to_owned().concat(schema.events_table()).concat(
            " WHERE session_id = ? AND seq <= ?",
        ).concat(clause.as_str()),
        params,
    };
    proof {
        let op = Op::PruneEvents { topic: topic@, cutoff: c, pinned: texts(pinned@) };
        assert forall|i: int| 0 <= i < s.params@.len() implies #[trigger] bounds(s.params@)[i] == op.params()[i] by {
            if i >= 2 {
                assert(s.params@[i] == bound[i - 2]);
                assert(bounds(bound)[i - 2] == patterns(texts(pinned@))[i - 2]);
            }
        }
        assert(bounds(s.params@) =~= op.params());
    }
    Some(s)
}

/// The statement that deletes the attachments of the events that were pruned; none where nothing
/// was pruned or pruning failed.
pub fn prune_attachments(schema: &Schema, topic: &str, cutoff: i64, pruned: Result<usize, String>) -> (r: Option<
    Statement,
>)
    ensures
        match r {
            Some(s) => (pruned matches Ok(n) && n > 0) && s.states(
                *schema,
                Op::PruneAttachments { topic: topic@, cutoff },
            ),
            None => !(pruned matches Ok(n) && n > 0),
        },
{
    match pruned {
        Ok(n) => {
            if n == 0 {
                return None;
            }
        },
        Err(_) => {
            return None;
        },
    }
    let mut params: Vec<SqlValue> = Vec::new();
    params.push(text_value(topic));
    params.push(SqlValue::Integer(cutoff));
    let s = Statement {
        sql: "DELETE FROM ".to_owned().concat(schema.attachments_table()).concat(
            " WHERE session_id = ?1 AND seq <= ?2 AND seq NOT IN (SELECT seq FROM ",
        ).concat(schema.events_table()).concat(" WHERE session_id = ?1)"),
        params,
    };
    assert(bounds(s.params@) =~= Op::PruneAttachments { topic: topic@, cutoff }.params());
    Some(s)
}

/// The statement that reads a window of a topic.
pub fn scan(schema: &Schema, topic: &str, bound: SeqBound, order: Order, limit: Option<usize>) -> (r: Statement)
    ensures
        r.states(
            *schema,
            Op::Scan {
                topic: topic@,
                bound,
                order,
                limit: match limit {
                    Some(n) => Some(clamped(n as u64)),
                    None => None,
                },
            },
        ),
{
    let (op, value): (&str, u64) = match bound {
        SeqBound::After(v) => (">", v),
        SeqBound::Before(v) => ("<", v),
    };
    let direction = match order {
        Order::Asc => "ASC",
        Order::Desc => "DESC",
    };
    let tail = match limit {
        Some(_) => " LIMIT ?3",
        None => "",
    };
    let mut params: Vec<SqlValue> = Vec::new();
    params.push(text_value(topic));
    params.push(SqlValue::Integer(clamp(value)));
    if let Some(n) = limit {
        params.push(SqlValue::Integer(clamp(n as u64)));
    }
    let r = Statement {
        sql: "SELECT seq, event_json FROM ".to_owned().concat(schema.events_table()).concat(
            " WHERE session_id = ?1 AND seq ",
        ).concat(op).concat(" ?2 ORDER BY seq ").concat(direction).concat(tail),
        params,
    };
    proof {
        let op = Op::Scan {
            topic: topic@,
            bound,
            order,
            limit: match limit {
                Some(n) => Some(clamped(n as u64)),
                None => None,
            },
        };
        assert(bounds(r.params@) =~= op.params());
    }
    r
}

/// The numbers and texts of rows.
pub open spec fn row_views(v: Seq<(i64, String)>) -> Seq<(i64, Seq<char>)> {
    Seq::new(v.len(), |i: int| (v[i].0, v[i].1@))
}

/// The numbers and texts that a caller sees.
pub open spec fn reply_views(v: Seq<(u64, String)>) -> Seq<(u64, Seq<char>)> {
    Seq::new(v.len(), |i: int| (v[i].0, v[i].1@))
}

/// Rows as a caller sees them.
pub open spec fn replied(rows: Seq<(i64, Seq<char>)>) -> Seq<(u64, Seq<char>)> {
    Seq::new(rows.len(), |i: int| (read_seq(rows[i].0), rows[i].1))
}

/// The rows of a window as the caller sees them. Which rows a scan gives says `scanned`.
pub fn scan_reply(rows: &Vec<(i64, String)>) -> (r: Vec<(u64, String)>)
    ensures
        reply_views(r@) == replied(row_views(rows@)),
{
    let mut out: Vec<(u64, String)> = Vec::new();
    let mut i: usize = 0;
    while i < rows.len()
        invariant
            i <= rows@.len(),
            out@.len() == i,
            forall|k: int| 0 <= k < i ==> (#[trigger] out@[k]).0 == read_seq(rows@[k].0) && out@[k].1 == rows@[k].1,
        decreases rows@.len() - i,
    {
        out.push((from_stored(rows[i].0), rows[i].1.clone()));
        i = i + 1;
    }
    assert(reply_views(out@) =~= replied(row_views(rows@)));
    out
}

fn topic_statement(head: &str, table: &str, tail: &str, topic: &str) -> (r: Statement)
    ensures
        r.sql@ == head@ + table@ + tail@,
        bounds(r.params@) == seq![Bound::Text(topic@)],
{
    let mut params: Vec<SqlValue> = Vec::new();
    params.push(text_value(topic));
    assert(bounds(params@) =~= seq![Bound::Text(topic@)]);
    Statement { sql: join3(head, table, tail), params }
}

/// The statement that finds the highest number of a topic.
pub fn highest_seq(schema: &Schema, topic: &str) -> (r: Statement)
    ensures
        r.states(*schema, Op::Highest { topic: topic@ }),
{
    topic_statement("SELECT MAX(seq) FROM ", schema.events_table(), " WHERE session_id = ?1", topic)
}

/// The highest number of a topic; zero where it has no events.
pub fn highest_reply(max: Option<i64>) -> (r: u64)
    ensures
        r == match max {
            Some(n) => read_seq(n),
            None => 0,
        },
{
    match max {
        Some(n) => from_stored(n),
        None => 0,
    }
}

/// The statement that finds the lowest number of a topic.
pub fn lowest_seq(schema: &Schema, topic: &str) -> (r: Statement)
    ensures
        r.states(*schema, Op::Lowest { topic: topic@ }),
{
    topic_statement("SELECT MIN(seq) FROM ", schema.events_table(), " WHERE session_id = ?1", topic)
}

/// The lowest number of a topic; none where it has no events.
pub fn lowest_reply(min: Option<i64>) -> (r: Option<u64>)
    ensures
        r == match min {
            Some(n) => Some(read_seq(n)),
            None => None,
        },
{
    match min {
        Some(n) => Some(from_stored(n)),
        None => None,
    }
}

/// The statement that finds the highest number of every topic.
pub fn all_topic_seqs(schema: &Schema) -> (r: Statement)
    ensures
        r.states(*schema, Op::AllHighest),
{
    let params: Vec<SqlValue> = Vec::new();
    assert(bounds(params@) =~= Seq::<Bound>::empty());
    Statement {
        sql: join3("SELECT session_id, MAX(seq) FROM ", schema.events_table(), " GROUP BY session_id"),
        params,
    }
}

/// The statement that finds when each of some topics last had an event, leaving out some variants;
/// none where there are no topics.
pub fn last_event_at_for_topics(schema: &Schema, topics: &Vec<String>, excluded: &Vec<String>) -> (r: Option<Statement>)
    ensures
        match r {
            Some(s) => topics@.len() > 0 && s.states(
                *schema,
                Op::LastEventAt { topics: texts(topics@), excluded: texts(excluded@) },
            ),
            None => topics@.len() == 0,
        },
{
    if topics.len() == 0 {
        return None;
    }
    let mut marks: Vec<String> = Vec::new();
    let mut params: Vec<SqlValue> = Vec::new();
    let mut i: usize = 0;
    while i < topics.len()
        invariant
            i <= topics@.len(),
            marks@.len() == i,
            params@.len() == i,
            forall|j: int| 0 <= j < i ==> (#[trigger] marks@[j])@ == "?"@,
            forall|j: int| 0 <= j < i ==> (#[trigger] params@[j])@ == Bound::Text(topics@[j]@),
        decreases topics@.len() - i,
    {
        marks.push("?".to_owned());
        params.push(text_value(topics[i].as_str()));
        i = i + 1;
    }
    let (clause, mut values) = not_like_clauses(excluded);
    let ghost bound = values@;
    let ghost first = params@;
    params.append(&mut values);
    let s = Statement {
        sql: "SELECT session_id, MAX(created_at) FROM ".to_owned().concat(schema.events_table()).concat(
            " WHERE session_id IN (",
        ).concat(join_texts(&marks, ",").as_str()).concat(")").concat(clause.as_str()).concat(" GROUP BY session_id"),
        params,
    };
    proof {
        let op = Op::LastEventAt { topics: texts(topics@), excluded: texts(excluded@) };
        assert(texts(marks@) =~= Seq::new(texts(topics@).len(), |i: int| "?"@));
        assert forall|i: int| 0 <= i < s.params@.len() implies #[trigger] bounds(s.params@)[i] == op.params()[i] by {
            if i < first.len() {
                assert(s.params@[i] == first[i]);
            } else {
                assert(s.params@[i] == bound[i - first.len()]);
                assert(bounds(bound)[i - first.len()] == patterns(texts(excluded@))[i - first.len()]);
            }
        }
        assert(bounds(s.params@) =~= op.params());
    }
    Some(s)
}

/// The statement that finds the newest event of a variant in a topic.
pub fn latest_by_discriminant(schema: &Schema, topic: &str, discriminant: &str) -> (r: Statement)
    ensures
        r.states(*schema, Op::LatestOf { topic: topic@, discriminant: discriminant@ }),
{
    let mut params: Vec<SqlValue> = Vec::new();
    params.push(text_value(topic));
    params.push(text_value(discriminant));
    let r = Statement {
        sql: join3(
            "SELECT seq, event_json FROM ",
            schema.events_table(),
            " WHERE session_id = ?1 AND discriminant = ?2 ORDER BY seq DESC LIMIT 1",
        ),
        params,
    };
    assert(bounds(r.params@) =~= Op::LatestOf { topic: topic@, discriminant: discriminant@ }.params());
    r
}

/// An attachment to be stored with an event.
#[derive(Debug)]
pub struct Attachment {
    pub id: String,
    pub kind: String,
    pub mime_type: String,
    pub name: Option<String>,
    pub data: Vec<u8>,
}

/// The statement that stores an attachment with an event. One under the same id stays as it is.
pub fn insert_attachment(schema: &Schema, topic: &str, seq: u64, attachment: Attachment, created_at: i64) -> (r:
    Statement)
    ensures
        r.states(
            *schema,
            Op::InsertAttachment {
                topic: topic@,
                id: attachment.id@,
                attachment: AttachmentV {
                    seq: stored_seq(seq),
                    kind: attachment.kind@,
                    mime_type: attachment.mime_type@,
                    name: text_of(attachment.name),
                    data: attachment.data@,
                    created_at,
                },
            },
        ),
{
    let ghost op = Op::InsertAttachment {
        topic: topic@,
        id: attachment.id@,
        attachment: AttachmentV {
            seq: stored_seq(seq),
            kind: attachment.kind@,
            mime_type: attachment.mime_type@,
            name: text_of(attachment.name),
            data: attachment.data@,
            created_at,
        },
    };
    let mut params: Vec<SqlValue> = Vec::new();
    params.push(text_value(topic));
    params.push(SqlValue::Integer(to_stored(seq)));
    params.push(SqlValue::Text(attachment.id));
    params.push(SqlValue::Text(attachment.kind));
    params.push(SqlValue::Text(attachment.mime_type));
    match attachment.name {
        Some(n) => {
            params.push(SqlValue::Text(n));
        },
        None => {
            params.push(SqlValue::Null);
        },
    }
    params.push(SqlValue::Blob(attachment.data));
    params.push(SqlValue::Integer(created_at));
    let r = Statement {
        sql: join3(
            "INSERT OR IGNORE INTO ",
            schema.attachments_table(),
            " (session_id, seq, attachment_id, kind, mime_type, name, data, created_at) VALUES (?1, ?2, ?3, ?4, ?5, ?6, ?7, ?8)",
        ),
        params,
    };
    assert(bounds(r.params@) =~= op.params());
    r
}

/// The statement that drops the attachments of one event.
pub fn delete_attachments_for_seq(schema: &Schema, topic: &str, seq: u64) -> (r: Statement)
    ensures
        r.states(*schema, Op::DeleteAttachmentsOf { topic: topic@, seq: stored_seq(seq) }),
{
    let mut params: Vec<SqlValue> = Vec::new();
    params.push(text_value(topic));
    params.push(SqlValue::Integer(to_stored(seq)));
    let r = Statement {
        sql: join3("DELETE FROM ", schema.attachments_table(), " WHERE session_id = ?1 AND seq = ?2"),
        params,
    };
    assert(bounds(r.params@) =~= Op::DeleteAttachmentsOf { topic: topic@, seq: stored_seq(seq) }.params());
    r
}

/// The statement that reads an attachment of a topic.
pub fn load_attachment(schema: &Schema, topic: &str, attachment_id: &str) -> (r: Statement)
    ensures
        r.states(*schema, Op::LoadAttachment { topic: topic@, id: attachment_id@ }),
{
    let mut params: Vec<SqlValue> = Vec::new();
    params.push(text_value(topic));
    params.push(text_value(attachment_id));
    let r = Statement {
        sql: join3(
            "SELECT mime_type, data FROM ",
            schema.attachments_table(),
            " WHERE session_id = ?1 AND attachment_id = ?2",
        ),
        params,
    };
    assert(bounds(r.params@) =~= Op::LoadAttachment { topic: topic@, id: attachment_id@ }.params());
    r
}

/// The two statements that drop everything of a topic: first its events, whose number is what
/// was deleted, then its attachments.
pub fn delete_topic(schema: &Schema, topic: &str) -> (r: (Statement, Statement))
    ensures
        r.0.states(*schema, Op::DeleteEvents { topic: topic@ }),
        r.1.states(*schema, Op::DeleteAttachments { topic: topic@ }),
{
    (
        topic_statement("DELETE FROM ", schema.events_table(), " WHERE session_id = ?1", topic),
        topic_statement("DELETE FROM ", schema.attachments_table(), " WHERE session_id = ?1", topic),
    )
}

/// The text that creates the tables of a log and their indexes.
pub open spec fn creation(events: Seq<char>, attachments: Seq<char>) -> Seq<char> {
    "CREATE TABLE IF NOT EXISTS "@ + events
        + " (session_id TEXT NOT NULL, seq INTEGER NOT NULL, event_json TEXT NOT NULL, created_at INTEGER NOT NULL, discriminant TEXT, PRIMARY KEY (session_id, seq)); CREATE INDEX IF NOT EXISTS idx_"@
        + events + "_session_seq ON "@ + events + "(session_id, seq); CREATE INDEX IF NOT EXISTS idx_"@ + events
        + "_session_created_at ON "@ + events + "(session_id, created_at); CREATE TABLE IF NOT EXISTS "@ + attachments
        + " (session_id TEXT NOT NULL, seq INTEGER NOT NULL, attachment_id TEXT NOT NULL, kind TEXT NOT NULL, mime_type TEXT NOT NULL, name TEXT, data BLOB NOT NULL, created_at INTEGER NOT NULL, PRIMARY KEY (session_id, attachment_id)); CREATE INDEX IF NOT EXISTS idx_"@
        + attachments + "_session_seq ON "@ + attachments + "(session_id, seq);"@
}

/// The text that creates the tables of a log and their indexes.
pub fn open(schema: &Schema) -> (r: String)
    ensures
        r@ == creation(schema.events(), schema.attachments()),
{
    let events = schema.events_table();
    let attachments = schema.attachments_table();
    "CREATE TABLE IF NOT EXISTS ".to_owned().concat(events).concat(
        " (session_id TEXT NOT NULL, seq INTEGER NOT NULL, event_json TEXT NOT NULL, created_at INTEGER NOT NULL, discriminant TEXT, PRIMARY KEY (session_id, seq)); CREATE INDEX IF NOT EXISTS idx_",
    ).concat(events).concat("_session_seq ON ").concat(events).concat(
        "(session_id, seq); CREATE INDEX IF NOT EXISTS idx_",
    ).concat(events).concat("_session_created_at ON ").concat(events).concat(
        "(session_id, created_at); CREATE TABLE IF NOT EXISTS ",
    ).concat(attachments).concat(
        " (session_id TEXT NOT NULL, seq INTEGER NOT NULL, attachment_id TEXT NOT NULL, kind TEXT NOT NULL, mime_type TEXT NOT NULL, name TEXT, data BLOB NOT NULL, created_at INTEGER NOT NULL, PRIMARY KEY (session_id, attachment_id)); CREATE INDEX IF NOT EXISTS idx_",
    ).concat(attachments).concat("_session_seq ON ").concat(attachments).concat("(session_id, seq);")
}

/// The query for the number of columns of that name in the table of events.
pub fn discriminant_probe(schema: &Schema) -> (r: String)
    ensures
        r@ == "SELECT COUNT(*) FROM pragma_table_info('"@ + schema.events() + "') WHERE name = 'discriminant'"@,
{
    join3("SELECT COUNT(*) FROM pragma_table_info('", schema.events_table(), "') WHERE name = 'discriminant'")
}

/// The text that adds the column of variants and fills it.
pub open spec fn backfill(events: Seq<char>) -> Seq<char> {
    "BEGIN; ALTER TABLE "@ + events + " ADD COLUMN discriminant TEXT; UPDATE "@ + events
        + " SET discriminant = substr(event_json, instr(event_json, '\"') + 1, instr(substr(event_json, instr(event_json, '\"') + 1), '\"') - 1) WHERE discriminant IS NULL AND instr(event_json, '\"') > 0; COMMIT;"@
}

/// The text that creates the index by variant.
pub open spec fn variant_index(events: Seq<char>) -> Seq<char> {
    "CREATE INDEX IF NOT EXISTS idx_"@ + events + "_session_discriminant_seq ON "@ + events
        + "(session_id, discriminant, seq);"@
}

/// SQLite's `instr` for one character: its place, counted from one; zero where it is not found.
pub open spec fn instr(s: Seq<char>, c: char) -> int {
    match find_char(s, c) {
        Some(i) => i + 1,
        None => 0,
    }
}

/// SQLite's `substr` with a place that is counted from one, and a length.
pub open spec fn substr(s: Seq<char>, start: int, len: int) -> Seq<char>
    recommends
        1 <= start,
        0 <= len,
        start - 1 + len <= s.len(),
{
    s.subrange(start - 1, start - 1 + len)
}

/// The variant that filling the column gives an event.
pub open spec fn backfilled(json: Seq<char>) -> Seq<char> {
    let rest = json.skip(instr(json, '"'));
    substr(json, instr(json, '"') + 1, instr(rest, '"') - 1)
}

/// Filling the column gives an event the variant that it would have got when it was appended, for
/// every event whose variant is quoted.
pub proof fn law_backfill_agrees(json: Seq<char>)
    requires
        cut(json, '"') is Some,
        cut((cut(json, '"')->0).1, '"') is Some,
    ensures
        backfilled(json) == variant_of(json),
{
    lemma_find_char(json, '"');
    let i = find_char(json, '"')->0;
    let rest = json.skip(i + 1);
    lemma_find_char(rest, '"');
    assert(backfilled(json) =~= rest.take(find_char(rest, '"')->0));
}

/// What has to be run so that the table of events has the column of variants and its index.
/// `columns` is the reply to the probe: where it found none, the column is added and filled.
pub fn ensure_discriminant_column(schema: &Schema, columns: Option<i64>) -> (r: Vec<String>)
    ensures
        texts(r@) == if columns matches Some(n) && n > 0 {
            seq![variant_index(schema.events())]
        } else {
            seq![backfill(schema.events()), variant_index(schema.events())]
        },
{
    let events = schema.events_table();
    let present = match columns {
        Some(n) => n > 0,
        None => false,
    };
    let index = "CREATE INDEX IF NOT EXISTS idx_".to_owned().concat(events).concat(
        "_session_discriminant_seq ON ",
    ).concat(events).concat("(session_id, discriminant, seq);");
    let mut out: Vec<String> = Vec::new();
    if !present {
        out.push(
            "BEGIN; ALTER TABLE ".to_owned().concat(events).concat(
                " ADD COLUMN discriminant TEXT; UPDATE ",
            ).concat(events).concat(
                " SET discriminant = substr(event_json, instr(event_json, '\"') + 1, instr(substr(event_json, instr(event_json, '\"') + 1), '\"') - 1) WHERE discriminant IS NULL AND instr(event_json, '\"') > 0; COMMIT;",
            ),
        );
        out.push(index);
        assert(texts(out@) =~= seq![backfill(schema.events()), variant_index(schema.events())]);
    } else {
        out.push(index);
        assert(texts(out@) =~= seq![variant_index(schema.events())]);
    }
    out
}

/// A pattern matches itself, whatever follows its percent sign at the end.
proof fn lemma_like_itself(p: Seq<char>, rest: Seq<char>)
    ensures
        like(p + rest, p + seq!['%']),
    decreases p.len(), rest.len(),
{
    if p.len() == 0 {
        assert(p + rest =~= rest);
        assert(p + seq!['%'] =~= seq!['%']);
        if rest.len() == 0 {
            assert(seq!['%'].skip(1) =~= Seq::<char>::empty());
            assert(like(rest, seq!['%'].skip(1)));
        } else {
            lemma_like_itself(p, rest.skip(1));
            assert(p + rest.skip(1) =~= rest.skip(1));
        }
    } else {
        let text = p + rest;
        let pattern = p + seq!['%'];
        lemma_like_itself(p.skip(1), rest);
        assert(text.skip(1) =~= p.skip(1) + rest);
        assert(pattern.skip(1) =~= p.skip(1) + seq!['%']);
        assert(text[0] == p[0] && pattern[0] == p[0]);
        if p[0] == '%' {
            lemma_like_percent(text.skip(1), pattern);
        }
    }
}

/// What matches behind a percent sign matches with it too.
proof fn lemma_like_percent(text: Seq<char>, pattern: Seq<char>)
    requires
        pattern.len() > 0,
        pattern[0] == '%',
        like(text, pattern.skip(1)),
    ensures
        like(text, pattern),
{
}

/// An event of a pinned variant is recognized by how its text begins.
pub proof fn law_variants_are_recognized(names: Seq<Seq<char>>, i: int, rest: Seq<char>)
    requires
        0 <= i < names.len(),
    ensures
        of_variants("{\""@ + names[i] + "\":"@ + rest, names),
{
    reveal_strlit("\":%");
    reveal_strlit("\":");
    let p = "{\""@ + names[i] + "\":"@;
    lemma_like_itself(p, rest);
    assert("\":%"@ =~= "\":"@ + seq!['%']);
    assert(variant_pattern(names[i]) =~= p + seq!['%']);
    assert("{\""@ + names[i] + "\":"@ + rest =~= p + rest);
}

/// Whether a number is the cutoff of a topic: that of an event with exactly `keep` newer ones.
pub open spec fn is_cutoff(s: Store, topic: Seq<char>, keep: nat, cutoff: i64) -> bool {
    s.events.contains_key((topic, cutoff)) && newer(s, topic, cutoff).finite() && newer(s, topic, cutoff).len() == keep
}

/// The numbers of a topic above a number.
pub open spec fn newer(s: Store, topic: Seq<char>, cutoff: i64) -> Set<i64> {
    Set::new(|n: i64| n > cutoff && s.events.contains_key((topic, n)))
}

/// A log after a topic was pruned.
pub open spec fn pruned(s: Store, topic: Seq<char>, cutoff: i64, pinned: Seq<Seq<char>>) -> Store {
    Op::PruneAttachments { topic, cutoff }.effect(Op::PruneEvents { topic, cutoff, pinned }.effect(s))
}

/// Pruning keeps exactly the newest events of a topic, as many as are to be kept, and those of
/// pinned variants, all as they were; and it touches no other topic.
pub proof fn law_prune_keeps_newest_and_pinned(
    s: Store,
    topic: Seq<char>,
    keep: nat,
    cutoff: i64,
    pinned: Seq<Seq<char>>,
    k: (Seq<char>, i64),
)
    requires
        is_cutoff(s, topic, keep, cutoff),
    ensures
        pruned(s, topic, cutoff, pinned).events.contains_key(k) <==> s.events.contains_key(k) && (k.0 != topic || k.1
            > cutoff || of_variants(s.events[k].json, pinned)),
        pruned(s, topic, cutoff, pinned).events.contains_key(k) ==> pruned(s, topic, cutoff, pinned).events[k]
            == s.events[k],
        newer(pruned(s, topic, cutoff, pinned), topic, cutoff) == newer(s, topic, cutoff),
        newer(pruned(s, topic, cutoff, pinned), topic, cutoff).len() == keep,
{
    assert(newer(pruned(s, topic, cutoff, pinned), topic, cutoff) =~= newer(s, topic, cutoff));
}

/// Pruning keeps an attachment exactly when it is of another topic, or newer than the cutoff, or
/// its event is still there.
pub proof fn law_prune_attachments_follow_events(
    s: Store,
    topic: Seq<char>,
    cutoff: i64,
    pinned: Seq<Seq<char>>,
    k: (Seq<char>, Seq<char>),
)
    ensures
        pruned(s, topic, cutoff, pinned).attachments.contains_key(k) <==> s.attachments.contains_key(k) && (k.0 != topic
            || s.attachments[k].seq > cutoff || pruned(s, topic, cutoff, pinned).events.contains_key(
            (topic, s.attachments[k].seq),
        )),
        pruned(s, topic, cutoff, pinned).attachments.contains_key(k) ==> pruned(
            s,
            topic,
            cutoff,
            pinned,
        ).attachments[k] == s.attachments[k],
{
}

/// A log after an event was appended.
pub open spec fn appended(s: Store, topic: Seq<char>, seq: i64, event: EventV) -> Store {
    Op::InsertEvent { topic, seq, event }.effect(s)
}

/// A log after a topic was deleted.
pub open spec fn topic_deleted(s: Store, topic: Seq<char>) -> Store {
    Op::DeleteAttachments { topic }.effect(Op::DeleteEvents { topic }.effect(s))
}

/// Appending under a topic and number that are taken changes nothing.
pub proof fn law_append_is_idempotent(s: Store, topic: Seq<char>, seq: i64, a: EventV, b: EventV)
    ensures
        appended(appended(s, topic, seq, a), topic, seq, b) == appended(s, topic, seq, a),
{
}

/// What a window of a topic holds: the texts of its events by number, before any limit.
pub open spec fn window(s: Store, topic: Seq<char>, bound: SeqBound) -> Map<i64, Seq<char>> {
    Map::new(
        |n: i64|
            s.events.contains_key((topic, n)) && match bound {
                SeqBound::After(v) => n > clamped(v),
                SeqBound::Before(v) => n < clamped(v),
            },
        |n: i64| s.events[(topic, n)].json,
    )
}

/// An event that was appended is read back as it was, in exactly the windows that reach its number;
/// and the windows of other topics do not change.
pub proof fn law_appended_is_read(s: Store, topic: Seq<char>, seq: u64, event: EventV, bound: SeqBound, other: Seq<char>)
    requires
        seq < i64::MAX,
        !s.events.contains_key((topic, stored_seq(seq))),
        other != topic,
    ensures
        window(appended(s, topic, stored_seq(seq), event), topic, bound).contains_key(stored_seq(seq)) <==> match bound {
            SeqBound::After(v) => seq > v,
            SeqBound::Before(v) => seq < v,
        },
        window(appended(s, topic, stored_seq(seq), event), topic, bound).contains_key(stored_seq(seq)) ==> window(
            appended(s, topic, stored_seq(seq), event),
            topic,
            bound,
        )[stored_seq(seq)] == event.json,
        window(appended(s, topic, stored_seq(seq), event), other, bound) == window(s, other, bound),
{
    assert(window(appended(s, topic, stored_seq(seq), event), other, bound) =~= window(s, other, bound));
}

/// Whether a number comes before another in an order.
pub open spec fn precedes(a: i64, b: i64, order: Order) -> bool {
    match order {
        Order::Asc => a < b,
        Order::Desc => a > b,
    }
}

/// Whether a number is the first one of a window in an order.
pub open spec fn is_first(w: Map<i64, Seq<char>>, order: Order, n: i64) -> bool {
    w.contains_key(n) && forall|m: i64| #[trigger] w.contains_key(m) ==> m == n || precedes(n, m, order)
}

/// The rows of a window, sorted by number in an order.
pub open spec fn sorted_window(w: Map<i64, Seq<char>>, order: Order) -> Seq<(i64, Seq<char>)>
    decreases w.dom().len(),
{
    let n = choose|n: i64| is_first(w, order, n);
    if w.dom().finite() && is_first(w, order, n) {
        seq![(n, w[n])] + sorted_window(w.remove(n), order)
    } else {
        Seq::empty()
    }
}

/// What a scan gives: the window sorted by number in the given order, cut to the limit.
pub open spec fn scanned(s: Store, topic: Seq<char>, bound: SeqBound, order: Order, limit: Option<i64>) -> Seq<
    (i64, Seq<char>),
> {
    let rows = sorted_window(window(s, topic, bound), order);
    match limit {
        Some(n) => if 0 <= n < rows.len() {
            rows.take(n as int)
        } else {
            rows
        },
        None => rows,
    }
}

proof fn lemma_first_exists(w: Map<i64, Seq<char>>, order: Order) -> (n: i64)
    requires
        w.dom().finite(),
        w.dom().len() > 0,
    ensures
        is_first(w, order, n),
    decreases w.dom().len(),
{
    let k = w.dom().choose();
    let rest = w.remove(k);
    if rest.dom().len() == 0 {
        assert forall|m: i64| #[trigger] w.contains_key(m) implies m == k || precedes(k, m, order) by {
            if m != k {
                assert(rest.dom().contains(m));
            }
        }
        k
    } else {
        let m = lemma_first_exists(rest, order);
        let n = if precedes(k, m, order) {
            k
        } else {
            m
        };
        assert forall|x: i64| #[trigger] w.contains_key(x) implies x == n || precedes(n, x, order) by {
            if x != k {
                assert(rest.contains_key(x));
            }
        }
        n
    }
}

/// The rows of a window are its entries, each once, and every one precedes those behind it.
proof fn lemma_sorted_window(w: Map<i64, Seq<char>>, order: Order)
    requires
        w.dom().finite(),
    ensures
        sorted_window(w, order).len() == w.dom().len(),
        forall|i: int|
            0 <= i < sorted_window(w, order).len() ==> w.contains_key((#[trigger] sorted_window(w, order)[i]).0)
                && sorted_window(w, order)[i].1 == w[sorted_window(w, order)[i].0],
        forall|i: int, j: int|
            0 <= i < j < sorted_window(w, order).len() ==> precedes(
                (#[trigger] sorted_window(w, order)[i]).0,
                (#[trigger] sorted_window(w, order)[j]).0,
                order,
            ),
        forall|n: i64| #[trigger] w.contains_key(n) ==> sorted_window(w, order).contains((n, w[n])),
    decreases w.dom().len(),
{
    let rows = sorted_window(w, order);
    if w.dom().len() > 0 {
        let some = lemma_first_exists(w, order);
        let n = choose|n: i64| is_first(w, order, n);
        let rest = w.remove(n);
        let tail = sorted_window(rest, order);
        lemma_sorted_window(rest, order);
        assert(rows == seq![(n, w[n])] + tail);
        assert forall|i: int| 0 <= i < rows.len() implies w.contains_key((#[trigger] rows[i]).0) && rows[i].1
            == w[rows[i].0] by {
            if i > 0 {
                assert(rows[i] == tail[i - 1]);
            }
        }
        assert forall|i: int, j: int| 0 <= i < j < rows.len() implies precedes(
            (#[trigger] rows[i]).0,
            (#[trigger] rows[j]).0,
            order,
        ) by {
            assert(rows[j] == tail[j - 1]);
            assert(rest.contains_key(tail[j - 1].0));
            if i > 0 {
                assert(rows[i] == tail[i - 1]);
            }
        }
        assert forall|m: i64| #[trigger] w.contains_key(m) implies rows.contains((m, w[m])) by {
            if m == n {
                assert(rows[0] == (n, w[n]));
            } else {
                assert(rest.contains_key(m));
                let i = choose|i: int| 0 <= i < tail.len() && tail[i] == (m, rest[m]);
                assert(rows[i + 1] == (m, w[m]));
            }
        }
    } else {
        assert forall|m: i64| !#[trigger] w.contains_key(m) by {
            if w.contains_key(m) {
                assert(w.dom().contains(m));
                assert(w.dom() =~= Set::empty());
            }
        }
    }
}

/// A scan gives entries of the window, each once and in the order asked for. Without a limit it gives
/// all of them; with one it gives as many as the limit allows, and those left out come behind.
pub proof fn law_scan_is_sorted_and_cut(
    s: Store,
    topic: Seq<char>,
    bound: SeqBound,
    order: Order,
    limit: Option<i64>,
    n: i64,
)
    requires
        window(s, topic, bound).dom().finite(),
        limit is Some ==> limit->0 >= 0,
    ensures
        ({
            let w = window(s, topic, bound);
            let rows = scanned(s, topic, bound, order, limit);
            &&& forall|i: int|
                0 <= i < rows.len() ==> w.contains_key((#[trigger] rows[i]).0) && rows[i].1 == w[rows[i].0]
            &&& forall|i: int, j: int|
                0 <= i < j < rows.len() ==> precedes((#[trigger] rows[i]).0, (#[trigger] rows[j]).0, order)
            &&& limit is None ==> rows.len() == w.dom().len()
            &&& limit matches Some(k) ==> rows.len() == if k < w.dom().len() {
                k as nat
            } else {
                w.dom().len()
            }
            &&& w.contains_key(n) ==> rows.contains((n, w[n])) || forall|i: int|
                0 <= i < rows.len() ==> precedes((#[trigger] rows[i]).0, n, order)
        }),
{
    let w = window(s, topic, bound);
    let all = sorted_window(w, order);
    let rows = scanned(s, topic, bound, order, limit);
    lemma_sorted_window(w, order);
    assert forall|i: int| 0 <= i < rows.len() implies #[trigger] rows[i] == all[i] by {}
    if w.contains_key(n) {
        let k = choose|k: int| 0 <= k < all.len() && all[k] == (n, w[n]);
        assert(all.contains((n, w[n])));
        if k < rows.len() {
            assert(rows[k] == (n, w[n]));
        }
    }
}

/// A scan without a limit gives back an event that was appended exactly where its bound reaches the
/// event's number.
pub proof fn law_appended_is_scanned(
    s: Store,
    topic: Seq<char>,
    seq: u64,
    event: EventV,
    bound: SeqBound,
    order: Order,
)
    requires
        seq < i64::MAX,
        !s.events.contains_key((topic, stored_seq(seq))),
        window(s, topic, bound).dom().finite(),
    ensures
        scanned(appended(s, topic, stored_seq(seq), event), topic, bound, order, None).contains(
            (stored_seq(seq), event.json),
        ) <==> match bound {
            SeqBound::After(v) => seq > v,
            SeqBound::Before(v) => seq < v,
        },
{
    let n = stored_seq(seq);
    let t = appended(s, topic, n, event);
    let w = window(t, topic, bound);
    assert(w.dom().subset_of(window(s, topic, bound).dom().insert(n)));
    vstd::set_lib::lemma_set_subset_finite(window(s, topic, bound).dom().insert(n), w.dom());
    lemma_sorted_window(w, order);
    let rows = scanned(t, topic, bound, order, None);
    if rows.contains((n, event.json)) {
        let i = choose|i: int| 0 <= i < rows.len() && rows[i] == (n, event.json);
        assert(w.contains_key(rows[i].0));
    }
    if w.contains_key(n) {
        assert(w[n] == event.json);
    }
}

/// Whether an event is the newest of a variant in a topic.
pub open spec fn is_latest(s: Store, topic: Seq<char>, discriminant: Seq<char>, n: i64) -> bool {
    &&& s.events.contains_key((topic, n))
    &&& s.events[(topic, n)].discriminant == discriminant
    &&& forall|m: i64|
        #![trigger s.events.contains_key((topic, m))]
        s.events.contains_key((topic, m)) && s.events[(topic, m)].discriminant == discriminant ==> m <= n
}

/// An event that is appended above all others of its variant becomes the newest of it, and the
/// newest of another variant stays the newest of that.
pub proof fn law_appended_is_latest(s: Store, topic: Seq<char>, seq: i64, event: EventV, name: Seq<char>, n: i64)
    requires
        !s.events.contains_key((topic, seq)),
        forall|m: i64|
            #![trigger s.events.contains_key((topic, m))]
            s.events.contains_key((topic, m)) && s.events[(topic, m)].discriminant == event.discriminant ==> m < seq,
    ensures
        is_latest(appended(s, topic, seq, event), topic, event.discriminant, seq),
        name != event.discriminant ==> (is_latest(appended(s, topic, seq, event), topic, name, n) <==> is_latest(
            s,
            topic,
            name,
            n,
        )),
{
    let t = appended(s, topic, seq, event);
    assert forall|m: i64|
        #![trigger t.events.contains_key((topic, m))]
        t.events.contains_key((topic, m)) && t.events[(topic, m)].discriminant == event.discriminant implies m
        <= seq by {
        if m != seq {
            assert(s.events.contains_key((topic, m)));
        }
    }
    if name != event.discriminant {
        if is_latest(t, topic, name, n) {
            assert forall|m: i64|
                #![trigger s.events.contains_key((topic, m))]
                s.events.contains_key((topic, m)) && s.events[(topic, m)].discriminant == name implies m <= n by {
                assert(t.events.contains_key((topic, m)));
            }
        }
        if is_latest(s, topic, name, n) {
            assert forall|m: i64|
                #![trigger t.events.contains_key((topic, m))]
                t.events.contains_key((topic, m)) && t.events[(topic, m)].discriminant == name implies m <= n by {
                assert(s.events.contains_key((topic, m)));
            }
        }
    }
}

/// What reading an attachment gives: its type and its bytes.
pub open spec fn loaded(s: Store, topic: Seq<char>, id: Seq<char>) -> Option<(Seq<char>, Seq<u8>)> {
    if s.attachments.contains_key((topic, id)) {
        Some((s.attachments[(topic, id)].mime_type, s.attachments[(topic, id)].data))
    } else {
        None
    }
}

/// An attachment that was stored is read back as it was, under its own topic only, until those of
/// its event are deleted.
pub proof fn law_attachment_is_read(s: Store, topic: Seq<char>, id: Seq<char>, a: AttachmentV, other: Seq<char>)
    requires
        !s.attachments.contains_key((topic, id)),
        other != topic,
    ensures
        loaded(Op::InsertAttachment { topic, id, attachment: a }.effect(s), topic, id) == Some((a.mime_type, a.data)),
        loaded(Op::InsertAttachment { topic, id, attachment: a }.effect(s), other, id) == loaded(s, other, id),
        loaded(
            Op::DeleteAttachmentsOf { topic, seq: a.seq }.effect(
                Op::InsertAttachment { topic, id, attachment: a }.effect(s),
            ),
            topic,
            id,
        ) is None,
{
}

/// Deleting a topic leaves nothing of it and everything of the others.
pub proof fn law_delete_topic_is_scoped(
    s: Store,
    topic: Seq<char>,
    e: (Seq<char>, i64),
    a: (Seq<char>, Seq<char>),
)
    ensures
        topic_deleted(s, topic).events.contains_key(e) <==> s.events.contains_key(e) && e.0 != topic,
        topic_deleted(s, topic).events.contains_key(e) ==> topic_deleted(s, topic).events[e] == s.events[e],
        topic_deleted(s, topic).attachments.contains_key(a) <==> s.attachments.contains_key(a) && a.0 != topic,
        topic_deleted(s, topic).attachments.contains_key(a) ==> topic_deleted(s, topic).attachments[a]
            == s.attachments[a],
{
}

/// The clamped bound of a window above a number admits exactly the numbers above it.
pub proof fn law_after_bound_is_exact(seq: u64, n: u64)
    requires
        seq <= i64::MAX,
    ensures
        stored_seq(seq) > clamped(n) <==> seq > n,
{
}

/// The clamped bound of a window below a number admits exactly the numbers below it.
pub proof fn law_before_bound_is_exact(seq: u64, n: u64)
    requires
        seq < i64::MAX,
    ensures
        stored_seq(seq) < clamped(n) <==> seq < n,
{
}

/// The variant of an event is its name, for a variant with data and for one without.
pub proof fn law_variant_of_event(name: Seq<char>, rest: Seq<char>)
    requires
        !name.contains('"'),
    ensures
        variant_of("{\""@ + name + "\":"@ + rest) == name,
        variant_of("\""@ + name + "\""@) == name,
{
    reveal_strlit("{\"");
    reveal_strlit("\":");
    reveal_strlit("\"");
    let a = "{\""@ + name + "\":"@ + rest;
    crate::text::lemma_find_char_at(a, '"', 1);
    let tail = a.skip(2);
    assert forall|j: int| 0 <= j < name.len() implies tail[j] != '"' by {
        assert(tail[j] == name[j]);
        assert(name.contains(name[j]));
    }
    assert(tail[name.len() as int] == '"');
    crate::text::lemma_find_char_at(tail, '"', name.len() as int);
    assert(tail.take(name.len() as int) =~= name);
    let b = "\""@ + name + "\""@;
    crate::text::lemma_find_char_at(b, '"', 0);
    let tail_b = b.skip(1);
    assert forall|j: int| 0 <= j < name.len() implies tail_b[j] != '"' by {
        assert(tail_b[j] == name[j]);
        assert(name.contains(name[j]));
    }
    assert(tail_b[name.len() as int] == '"');
    crate::text::lemma_find_char_at(tail_b, '"', name.len() as int);
    assert(tail_b.take(name.len() as int) =~= name);
}

} // verus!
