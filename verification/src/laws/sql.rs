//! The statements of the event log, read as SQL: which rows they touch and what they write.

use vstd::prelude::*;

use crate::events::{
    all_topic_seqs, bounds, count_since, delete_attachments_for_seq, delete_topic, exclusions, highest_seq,
    insert_attachment, insert_event, last_event_at_for_topics, latest_by_discriminant, like, load_attachment,
    lowest_seq, prune_attachments, prune_events, prune_retention, scan, Attachment, AttachmentV, Bound, EventV, Op,
    Order, Schema, SeqBound, Statement, Store,
};
use crate::text::{joined, lemma_pieces_len, pieces, texts};

verus! {

/// The values of a row by the names of their columns.
pub type Row = Map<Seq<char>, Bound>;

/// The rows of tables by their names.
pub type Tables = Map<Seq<char>, Set<Row>>;

/// The row of an event.
pub open spec fn event_row(topic: Seq<char>, seq: i64, e: EventV) -> Row {
    map![
        "session_id"@ => Bound::Text(topic),
        "seq"@ => Bound::Integer(seq),
        "event_json"@ => Bound::Text(e.json),
        "created_at"@ => Bound::Integer(e.created_at),
        "discriminant"@ => Bound::Text(e.discriminant),
    ]
}

/// The row of an attachment.
pub open spec fn attachment_row(topic: Seq<char>, id: Seq<char>, a: AttachmentV) -> Row {
    map![
        "session_id"@ => Bound::Text(topic),
        "seq"@ => Bound::Integer(a.seq),
        "attachment_id"@ => Bound::Text(id),
        "kind"@ => Bound::Text(a.kind),
        "mime_type"@ => Bound::Text(a.mime_type),
        "name"@ => match a.name {
            Some(n) => Bound::Text(n),
            None => Bound::Null,
        },
        "data"@ => Bound::Blob(a.data),
        "created_at"@ => Bound::Integer(a.created_at),
    ]
}

/// The rows of the events of a log.
pub open spec fn event_rows(s: Store) -> Set<Row> {
    Set::new(
        |r: Row|
            exists|k: (Seq<char>, i64)| #[trigger]
                s.events.contains_key(k) && r == event_row(k.0, k.1, s.events[k]),
    )
}

/// The value that a mark stands for, and the place of the next value: a bare mark stands for the next
/// value, one with a digit for the value of that number.
pub open spec fn marked(w: Seq<char>, params: Seq<Bound>, next: int) -> (Bound, int) {
    if w.len() > 1 && w[0] == '?' {
        (params[w[1] as int - '1' as int], next)
    } else {
        (params[next], next + 1)
    }
}

/// Whether two values compare as an operator says.
pub open spec fn compares(a: Bound, op: Seq<char>, b: Bound) -> bool {
    if op == "="@ {
        a == b
    } else {
        match (a, b) {
            (Bound::Integer(x), Bound::Integer(y)) => {
                ||| op == "<="@ && x <= y
                ||| op == ">="@ && x >= y
                ||| op == "<"@ && x < y
                ||| op == ">"@ && x > y
            },
            _ => false,
        }
    }
}

/// Whether a value matches a pattern.
pub open spec fn matches_pattern(a: Bound, b: Bound) -> bool {
    match (a, b) {
        (Bound::Text(x), Bound::Text(y)) => like(x, y),
        _ => false,
    }
}

/// How many marks stand in a list.
pub open spec fn marks(w: Seq<char>) -> int
    decreases w.len(),
{
    if w.len() == 0 {
        0
    } else {
        marks(w.drop_last()) + if w.last() == '?' {
            1int
        } else {
            0
        }
    }
}

/// Whether a value is one of those that a column has in the rows that meet a comparison.
pub open spec fn among(
    rows: Set<Row>,
    compared: Seq<char>,
    op: Seq<char>,
    v: Bound,
    column: Seq<char>,
    value: Bound,
) -> bool {
    exists|r: Row| #[trigger] rows.contains(r) && compares(r[compared], op, v) && r[column] == value
}

/// Whether a value is one of `n` values from a place on.
pub open spec fn listed_in(params: Seq<Bound>, from: int, n: int, value: Bound) -> bool {
    exists|j: int| from <= j < from + n && #[trigger] params[j] == value
}

/// A condition on one column: whether a row meets it, how many words it has, and the place of the next
/// value behind it. It is a comparison, the negation of a match, being among some values, or the negation
/// of being among the values of a column of another table.
pub open spec fn term(t: Tables, w: Seq<Seq<char>>, i: int, params: Seq<Bound>, next: int, row: Row) -> (
    bool,
    int,
    int,
) {
    if w[i + 1] == "NOT"@ && w[i + 2] == "LIKE"@ {
        let (v, after) = marked(w[i + 3], params, next);
        (!matches_pattern(row[w[i]], v), 4, after)
    } else if w[i + 1] == "NOT"@ && w[i + 2] == "IN"@ && w[i + 3] == "(SELECT"@ && w[i + 5] == "FROM"@ && w[i + 7]
        == "WHERE"@ {
        let (v, after) = marked(w[i + 10], params, next);
        (!among(t[w[i + 6]], w[i + 8], w[i + 9], v, w[i + 4], row[w[i]]), 11, after)
    } else if w[i + 1] == "IN"@ {
        let n = marks(w[i + 2]);
        (listed_in(params, next, n, row[w[i]]), 3, next + n)
    } else {
        let (v, after) = marked(w[i + 2], params, next);
        (compares(row[w[i]], w[i + 1], v), 3, after)
    }
}

/// Whether a row meets the condition that begins at a word, given what the conditions joined to it in
/// front came to. `AND` binds more tightly than `OR`; another word ends the condition.
pub open spec fn meets(
    t: Tables,
    w: Seq<Seq<char>>,
    i: int,
    params: Seq<Bound>,
    next: int,
    row: Row,
    before: bool,
) -> bool
    decreases w.len() - i,
{
    if i >= w.len() {
        before
    } else {
        let (holds, n, after) = term(t, w, i, params, next, row);
        let here = before && holds;
        if i + n < w.len() && w[i + n] == "AND"@ && n > 0 {
            meets(t, w, i + n + 1, params, after, row, here)
        } else if i + n < w.len() && w[i + n] == "OR"@ && n > 0 {
            here || meets(t, w, i + n + 1, params, after, row, true)
        } else {
            here
        }
    }
}

/// The words of a statement.
pub open spec fn sql_words(s: Statement) -> Seq<Seq<char>> {
    pieces(s.sql@, ' ')
}

/// Whether a statement deletes a row of a table.
pub open spec fn deletes(s: Statement, t: Tables, table: Seq<char>, row: Row) -> bool {
    let w = sql_words(s);
    &&& w.len() > 4
    &&& w[0] == "DELETE"@
    &&& w[1] == "FROM"@
    &&& w[2] == table
    &&& w[3] == "WHERE"@
    &&& meets(t, w, 4, bounds(s.params@), 0, row, true)
}

/// Whether a statement reads given columns of a table and picks a row of it.
pub open spec fn picks(s: Statement, t: Tables, what: Seq<Seq<char>>, table: Seq<char>, row: Row) -> bool {
    let w = sql_words(s);
    let n = what.len() as int;
    &&& w.len() > n + 4
    &&& w[0] == "SELECT"@
    &&& w.subrange(1, n + 1) == what
    &&& w[n + 1] == "FROM"@
    &&& w[n + 2] == table
    &&& w[n + 3] == "WHERE"@
    &&& meets(t, w, n + 4, bounds(s.params@), 0, row, true)
}

/// A word without the brackets and the comma around it.
pub open spec fn bare(w: Seq<char>) -> Seq<char> {
    let a = if w.len() > 0 && w[0] == '(' {
        w.skip(1)
    } else {
        w
    };
    if a.len() > 0 && (a.last() == ',' || a.last() == ')') {
        a.drop_last()
    } else {
        a
    }
}

/// Whether a statement adds a row of `n` values to a table, unless its key is taken.
pub open spec fn adds_row(s: Statement, table: Seq<char>, n: int) -> bool {
    let w = sql_words(s);
    &&& w.len() == 2 * n + 6
    &&& w[0] == "INSERT"@
    &&& w[1] == "OR"@
    &&& w[2] == "IGNORE"@
    &&& w[3] == "INTO"@
    &&& w[4] == table
    &&& w[n + 5] == "VALUES"@
    &&& bounds(s.params@).len() == n
}

/// Whether the `i`th value of the row that a statement adds goes into a column, and which it is.
pub open spec fn writes(s: Statement, n: int, i: int, column: Seq<char>, value: Bound) -> bool {
    let w = sql_words(s);
    &&& bare(w[5 + i]) == column
    &&& marked(bare(w[n + 6 + i]), bounds(s.params@), 0).0 == value
}

/// Words, each behind a blank.
pub open spec fn tail(ws: Seq<Seq<char>>) -> Seq<char>
    decreases ws.len(),
{
    if ws.len() == 0 {
        Seq::empty()
    } else {
        tail(ws.drop_last()) + seq![' '] + ws.last()
    }
}

/// Whether no word holds a blank.
pub open spec fn unspaced(ws: Seq<Seq<char>>) -> bool {
    forall|i: int| 0 <= i < ws.len() ==> !(#[trigger] ws[i]).contains(' ')
}

proof fn lemma_extend(s: Seq<char>, t: Seq<char>)
    requires
        !t.contains(' '),
    ensures
        pieces(s + t, ' ') == pieces(s, ' ').drop_last().push(pieces(s, ' ').last() + t),
    decreases t.len(),
{
    lemma_pieces_len(s, ' ');
    let p = pieces(s, ' ');
    if t.len() == 0 {
        assert(s + t =~= s);
        assert(p.last() + t =~= p.last());
        assert(p.drop_last().push(p.last()) =~= p);
    } else {
        let front = t.drop_last();
        if front.contains(' ') {
            let j = choose|j: int| 0 <= j < front.len() && front[j] == ' ';
            assert(t[j] == ' ');
        }
        lemma_extend(s, front);
        assert((s + t).drop_last() =~= s + front);
        assert(t[t.len() - 1] != ' ');
        let q = p.drop_last().push(p.last() + front);
        assert(q.drop_last() =~= p.drop_last());
        assert((p.last() + front).push(t.last()) =~= p.last() + t);
    }
}

proof fn lemma_tail(s: Seq<char>, ws: Seq<Seq<char>>)
    requires
        unspaced(ws),
    ensures
        pieces(s + tail(ws), ' ') == pieces(s, ' ') + ws,
    decreases ws.len(),
{
    if ws.len() == 0 {
        assert(s + tail(ws) =~= s);
        assert(pieces(s, ' ') + ws =~= pieces(s, ' '));
    } else {
        let front = ws.drop_last();
        assert forall|i: int| 0 <= i < front.len() implies !(#[trigger] front[i]).contains(' ') by {
            assert(front[i] == ws[i]);
        }
        lemma_tail(s, front);
        let a = s + tail(front);
        let b = a.push(' ');
        assert(b.drop_last() =~= a);
        let e = Seq::<char>::empty();
        assert(pieces(b, ' ') == (pieces(s, ' ') + front).push(e));
        assert(!ws[ws.len() - 1].contains(' '));
        lemma_extend(b, ws.last());
        assert(s + tail(ws) =~= b + ws.last());
        assert((pieces(s, ' ') + front).push(e).drop_last() =~= pieces(s, ' ') + front);
        assert(e + ws.last() =~= ws.last());
        assert((pieces(s, ' ') + front).push(ws.last()) =~= pieces(s, ' ') + ws);
    }
}

proof fn lemma_tail_joins(a: Seq<Seq<char>>, b: Seq<Seq<char>>)
    ensures
        tail(a + b) == tail(a) + tail(b),
    decreases b.len(),
{
    if b.len() == 0 {
        assert(a + b =~= a);
        assert(tail(a) + tail(b) =~= tail(a));
    } else {
        lemma_tail_joins(a, b.drop_last());
        assert((a + b).drop_last() =~= a + b.drop_last());
        assert((a + b).last() == b.last());
        assert(tail(a) + tail(b.drop_last()) + seq![' '] + b.last() =~= tail(a) + tail(b));
    }
}

/// The words of a text that begins with a word and goes on with others.
proof fn lemma_words(first: Seq<char>, ws: Seq<Seq<char>>)
    requires
        !first.contains(' '),
        unspaced(ws),
    ensures
        pieces(first + tail(ws), ' ') == seq![first] + ws,
{
    let e = Seq::<char>::empty();
    lemma_extend(e, first);
    assert(e + first =~= first);
    assert(pieces(e, ' ').last() + first =~= first);
    assert(pieces(e, ' ').drop_last().push(first) =~= seq![first]);
    lemma_tail(first, ws);
}

/// The names of the tables of a log hold no blank.
pub proof fn lemma_table_names(prefix: &str, schema: Schema)
    requires
        call_ensures(Schema::new, (prefix,), Ok::<Schema, String>(schema)),
    ensures
        !schema.events().contains(' '),
        !schema.attachments().contains(' '),
{
    reveal_strlit("_events");
    reveal_strlit("_attachments");
    let n = prefix@.len();
    let a = schema.events();
    if a.contains(' ') {
        let i = choose|i: int| 0 <= i < a.len() && a[i] == ' ';
        if i < n {
            assert(prefix@[i] == ' ');
        } else {
            assert("_events"@[i - n] == ' ');
        }
    }
    let b = schema.attachments();
    if b.contains(' ') {
        let i = choose|i: int| 0 <= i < b.len() && b[i] == ' ';
        if i < n {
            assert(prefix@[i] == ' ');
        } else {
            assert("_attachments"@[i - n] == ' ');
        }
    }
}

/// The words that leave out one variant, some times over.
pub open spec fn left_out(n: nat) -> Seq<Seq<char>>
    decreases n,
{
    if n == 0 {
        Seq::empty()
    } else {
        left_out((n - 1) as nat) + seq!["AND"@, "event_json"@, "NOT"@, "LIKE"@, "?"@]
    }
}

proof fn lemma_left_out(n: nat)
    ensures
        left_out(n).len() == 5 * n,
        forall|j: int| #![trigger left_out(n)[5 * j]] 0 <= j < n ==> left_out(n)[5 * j] == "AND"@,
        forall|j: int| #![trigger left_out(n)[5 * j + 1]] 0 <= j < n ==> left_out(n)[5 * j + 1] == "event_json"@,
        forall|j: int| #![trigger left_out(n)[5 * j + 2]] 0 <= j < n ==> left_out(n)[5 * j + 2] == "NOT"@,
        forall|j: int| #![trigger left_out(n)[5 * j + 3]] 0 <= j < n ==> left_out(n)[5 * j + 3] == "LIKE"@,
        forall|j: int| #![trigger left_out(n)[5 * j + 4]] 0 <= j < n ==> left_out(n)[5 * j + 4] == "?"@,
        unspaced(left_out(n)),
        exclusions(n) == tail(left_out(n)),
    decreases n,
{
    let five = seq!["AND"@, "event_json"@, "NOT"@, "LIKE"@, "?"@];
    if n > 0 {
        let m = (n - 1) as nat;
        lemma_left_out(m);
        reveal_strlit(" AND event_json NOT LIKE ?");
        reveal_strlit("AND");
        reveal_strlit("event_json");
        reveal_strlit("NOT");
        reveal_strlit("LIKE");
        reveal_strlit("?");
        assert(" AND event_json NOT LIKE ?"@ == tail(five)) by {
            lemma_five(five);
        }
        lemma_tail_joins(left_out(m), five);
        assert forall|i: int| 0 <= i < left_out(n).len() implies !(#[trigger] left_out(n)[i]).contains(' ') by {
            if i < left_out(m).len() {
                assert(left_out(n)[i] == left_out(m)[i]);
            }
        }
    }
}

proof fn lemma_five(w: Seq<Seq<char>>)
    requires
        w.len() == 5,
    ensures
        tail(w) == seq![' '] + w[0] + seq![' '] + w[1] + seq![' '] + w[2] + seq![' '] + w[3] + seq![' '] + w[4],
{
    reveal_with_fuel(tail, 6);
    assert(tail(w) =~= seq![' '] + w[0] + seq![' '] + w[1] + seq![' '] + w[2] + seq![' '] + w[3] + seq![' '] + w[4]);
}

/// What tells the words of a statement apart.
proof fn lemma_keywords()
    ensures
        "="@.len() == 1 && "="@[0] == '=',
        "<="@.len() == 2 && "<="@[0] == '<' && "<="@[1] == '=',
        ">="@.len() == 2 && ">="@[0] == '>' && ">="@[1] == '=',
        "<"@.len() == 1 && "<"@[0] == '<',
        ">"@.len() == 1 && ">"@[0] == '>',
        "NOT"@.len() == 3 && "NOT"@[0] == 'N' && "NOT"@[1] == 'O',
        "AND"@.len() == 3 && "AND"@[0] == 'A' && "AND"@[1] == 'N',
        "OR"@.len() == 2 && "OR"@[0] == 'O' && "OR"@[1] == 'R',
        "IN"@.len() == 2 && "IN"@[0] == 'I' && "IN"@[1] == 'N',
        "LIKE"@.len() == 4 && "LIKE"@[0] == 'L' && "LIKE"@[1] == 'I',
        "?"@.len() == 1 && "?"@[0] == '?',
        "?1"@.len() == 2 && "?1"@[0] == '?' && "?1"@[1] == '1',
        "?2"@.len() == 2 && "?2"@[0] == '?' && "?2"@[1] == '2',
        "?3"@.len() == 2 && "?3"@[0] == '?' && "?3"@[1] == '3',
        "?1)"@.len() == 3 && "?1)"@[0] == '?' && "?1)"@[1] == '1',
        "ORDER"@.len() == 5 && "ORDER"@[0] == 'O' && "ORDER"@[1] == 'R',
        "WHERE"@.len() == 5 && "WHERE"@[0] == 'W' && "WHERE"@[1] == 'H',
        "DELETE"@.len() == 6 && "DELETE"@[0] == 'D' && "DELETE"@[1] == 'E',
        "SELECT"@.len() == 6 && "SELECT"@[0] == 'S' && "SELECT"@[1] == 'E',
        "FROM"@.len() == 4 && "FROM"@[0] == 'F' && "FROM"@[1] == 'R',
        "(SELECT"@.len() == 7 && "(SELECT"@[0] == '(' && "(SELECT"@[1] == 'S',
{
    reveal_strlit("=");
    reveal_strlit("<=");
    reveal_strlit(">=");
    reveal_strlit("<");
    reveal_strlit(">");
    reveal_strlit("NOT");
    reveal_strlit("AND");
    reveal_strlit("OR");
    reveal_strlit("IN");
    reveal_strlit("LIKE");
    reveal_strlit("?");
    reveal_strlit("?1");
    reveal_strlit("?2");
    reveal_strlit("?3");
    reveal_strlit("?1)");
    reveal_strlit("ORDER");
    reveal_strlit("WHERE");
    reveal_strlit("DELETE");
    reveal_strlit("SELECT");
    reveal_strlit("FROM");
    reveal_strlit("(SELECT");
}

/// What tells the names of columns apart.
proof fn lemma_columns()
    ensures
        "session_id"@.len() == 10 && "session_id"@[0] == 's' && "session_id"@[1] == 'e',
        "seq"@.len() == 3 && "seq"@[0] == 's' && "seq"@[1] == 'e',
        "event_json"@.len() == 10 && "event_json"@[0] == 'e' && "event_json"@[1] == 'v',
        "created_at"@.len() == 10 && "created_at"@[0] == 'c' && "created_at"@[1] == 'r',
        "discriminant"@.len() == 12 && "discriminant"@[0] == 'd' && "discriminant"@[1] == 'i',
        "attachment_id"@.len() == 13 && "attachment_id"@[0] == 'a' && "attachment_id"@[1] == 't',
        "kind"@.len() == 4 && "kind"@[0] == 'k' && "kind"@[1] == 'i',
        "mime_type"@.len() == 9 && "mime_type"@[0] == 'm' && "mime_type"@[1] == 'i',
        "name"@.len() == 4 && "name"@[0] == 'n' && "name"@[1] == 'a',
        "data"@.len() == 4 && "data"@[0] == 'd' && "data"@[1] == 'a',
{
    reveal_strlit("session_id");
    reveal_strlit("seq");
    reveal_strlit("event_json");
    reveal_strlit("created_at");
    reveal_strlit("discriminant");
    reveal_strlit("attachment_id");
    reveal_strlit("kind");
    reveal_strlit("mime_type");
    reveal_strlit("name");
    reveal_strlit("data");
}

proof fn lemma_delete_head()
    ensures
        "DELETE FROM "@ == "DELETE"@ + tail(seq!["FROM"@]) + seq![' '],
        unspaced(seq!["FROM"@]),
        !"DELETE"@.contains(' '),
{
    reveal_strlit("DELETE FROM ");
    reveal_strlit("DELETE");
    reveal_strlit("FROM");
    reveal_with_fuel(tail, 2);
    assert("DELETE FROM "@ =~= "DELETE"@ + tail(seq!["FROM"@]) + seq![' ']);
}

proof fn lemma_insert_head()
    ensures
        "INSERT OR IGNORE INTO "@ == "INSERT"@ + tail(seq!["OR"@, "IGNORE"@, "INTO"@]) + seq![' '],
        unspaced(seq!["OR"@, "IGNORE"@, "INTO"@]),
        !"INSERT"@.contains(' '),
{
    reveal_strlit("INSERT OR IGNORE INTO ");
    reveal_strlit("INSERT");
    reveal_strlit("OR");
    reveal_strlit("IGNORE");
    reveal_strlit("INTO");
    reveal_with_fuel(tail, 4);
    assert("INSERT OR IGNORE INTO "@ =~= "INSERT"@ + tail(seq!["OR"@, "IGNORE"@, "INTO"@]) + seq![' ']);
}

proof fn lemma_count_head()
    ensures
        "SELECT COUNT(*) FROM "@ == "SELECT"@ + tail(seq!["COUNT(*)"@, "FROM"@]) + seq![' '],
        unspaced(seq!["COUNT(*)"@, "FROM"@]),
        !"SELECT"@.contains(' '),
{
    reveal_strlit("SELECT COUNT(*) FROM ");
    reveal_strlit("SELECT");
    reveal_strlit("COUNT(*)");
    reveal_strlit("FROM");
    reveal_with_fuel(tail, 3);
    assert("SELECT COUNT(*) FROM "@ =~= "SELECT"@ + tail(seq!["COUNT(*)"@, "FROM"@]) + seq![' ']);
}

proof fn lemma_seq_head()
    ensures
        "SELECT seq FROM "@ == "SELECT"@ + tail(seq!["seq"@, "FROM"@]) + seq![' '],
        unspaced(seq!["seq"@, "FROM"@]),
        !"SELECT"@.contains(' '),
{
    reveal_strlit("SELECT seq FROM ");
    reveal_strlit("SELECT");
    reveal_strlit("seq");
    reveal_strlit("FROM");
    reveal_with_fuel(tail, 3);
    assert("SELECT seq FROM "@ =~= "SELECT"@ + tail(seq!["seq"@, "FROM"@]) + seq![' ']);
}

proof fn lemma_rows_head()
    ensures
        "SELECT seq, event_json FROM "@ == "SELECT"@ + tail(seq!["seq,"@, "event_json"@, "FROM"@]) + seq![' '],
        unspaced(seq!["seq,"@, "event_json"@, "FROM"@]),
        !"SELECT"@.contains(' '),
{
    reveal_strlit("SELECT seq, event_json FROM ");
    reveal_strlit("SELECT");
    reveal_strlit("seq,");
    reveal_strlit("event_json");
    reveal_strlit("FROM");
    reveal_with_fuel(tail, 4);
    assert("SELECT seq, event_json FROM "@ =~= "SELECT"@ + tail(seq!["seq,"@, "event_json"@, "FROM"@]) + seq![' ']);
}

proof fn lemma_max_head()
    ensures
        "SELECT MAX(seq) FROM "@ == "SELECT"@ + tail(seq!["MAX(seq)"@, "FROM"@]) + seq![' '],
        unspaced(seq!["MAX(seq)"@, "FROM"@]),
        !"SELECT"@.contains(' '),
{
    reveal_strlit("SELECT MAX(seq) FROM ");
    reveal_strlit("SELECT");
    reveal_strlit("MAX(seq)");
    reveal_strlit("FROM");
    reveal_with_fuel(tail, 3);
    assert("SELECT MAX(seq) FROM "@ =~= "SELECT"@ + tail(seq!["MAX(seq)"@, "FROM"@]) + seq![' ']);
}

proof fn lemma_min_head()
    ensures
        "SELECT MIN(seq) FROM "@ == "SELECT"@ + tail(seq!["MIN(seq)"@, "FROM"@]) + seq![' '],
        unspaced(seq!["MIN(seq)"@, "FROM"@]),
        !"SELECT"@.contains(' '),
{
    reveal_strlit("SELECT MIN(seq) FROM ");
    reveal_strlit("SELECT");
    reveal_strlit("MIN(seq)");
    reveal_strlit("FROM");
    reveal_with_fuel(tail, 3);
    assert("SELECT MIN(seq) FROM "@ =~= "SELECT"@ + tail(seq!["MIN(seq)"@, "FROM"@]) + seq![' ']);
}

proof fn lemma_all_max_head()
    ensures
        "SELECT session_id, MAX(seq) FROM "@ == "SELECT"@ + tail(seq!["session_id,"@, "MAX(seq)"@, "FROM"@]) + seq![' '],
        unspaced(seq!["session_id,"@, "MAX(seq)"@, "FROM"@]),
        !"SELECT"@.contains(' '),
{
    reveal_strlit("SELECT session_id, MAX(seq) FROM ");
    reveal_strlit("SELECT");
    reveal_strlit("session_id,");
    reveal_strlit("MAX(seq)");
    reveal_strlit("FROM");
    reveal_with_fuel(tail, 4);
    assert("SELECT session_id, MAX(seq) FROM "@ =~= "SELECT"@ + tail(seq!["session_id,"@, "MAX(seq)"@, "FROM"@]) + seq![' ']);
}

proof fn lemma_last_head()
    ensures
        "SELECT session_id, MAX(created_at) FROM "@ == "SELECT"@ + tail(seq!["session_id,"@, "MAX(created_at)"@, "FROM"@]) + seq![' '],
        unspaced(seq!["session_id,"@, "MAX(created_at)"@, "FROM"@]),
        !"SELECT"@.contains(' '),
{
    reveal_strlit("SELECT session_id, MAX(created_at) FROM ");
    reveal_strlit("SELECT");
    reveal_strlit("session_id,");
    reveal_strlit("MAX(created_at)");
    reveal_strlit("FROM");
    reveal_with_fuel(tail, 4);
    assert("SELECT session_id, MAX(created_at) FROM "@ =~= "SELECT"@ + tail(seq!["session_id,"@, "MAX(created_at)"@, "FROM"@]) + seq![' ']);
}

proof fn lemma_blob_head()
    ensures
        "SELECT mime_type, data FROM "@ == "SELECT"@ + tail(seq!["mime_type,"@, "data"@, "FROM"@]) + seq![' '],
        unspaced(seq!["mime_type,"@, "data"@, "FROM"@]),
        !"SELECT"@.contains(' '),
{
    reveal_strlit("SELECT mime_type, data FROM ");
    reveal_strlit("SELECT");
    reveal_strlit("mime_type,");
    reveal_strlit("data");
    reveal_strlit("FROM");
    reveal_with_fuel(tail, 4);
    assert("SELECT mime_type, data FROM "@ =~= "SELECT"@ + tail(seq!["mime_type,"@, "data"@, "FROM"@]) + seq![' ']);
}

proof fn lemma_where_old()
    ensures
        " WHERE session_id = ? AND seq <= ?"@ == tail(seq!["WHERE"@, "session_id"@, "="@, "?"@, "AND"@, "seq"@, "<="@, "?"@]),
        unspaced(seq!["WHERE"@, "session_id"@, "="@, "?"@, "AND"@, "seq"@, "<="@, "?"@]),
{
    reveal_strlit(" WHERE session_id = ? AND seq <= ?");
    reveal_strlit("WHERE");
    reveal_strlit("session_id");
    reveal_strlit("=");
    reveal_strlit("?");
    reveal_strlit("AND");
    reveal_strlit("seq");
    reveal_strlit("<=");
    reveal_with_fuel(tail, 9);
    assert(" WHERE session_id = ? AND seq <= ?"@ =~= tail(seq!["WHERE"@, "session_id"@, "="@, "?"@, "AND"@, "seq"@, "<="@, "?"@]));
}

proof fn lemma_where_old_numbered()
    ensures
        " WHERE session_id = ?1 AND seq <= ?2 AND seq NOT IN (SELECT seq FROM "@ == tail(seq!["WHERE"@, "session_id"@, "="@, "?1"@, "AND"@, "seq"@, "<="@, "?2"@, "AND"@, "seq"@, "NOT"@, "IN"@, "(SELECT"@, "seq"@, "FROM"@]) + seq![' '],
        unspaced(seq!["WHERE"@, "session_id"@, "="@, "?1"@, "AND"@, "seq"@, "<="@, "?2"@, "AND"@, "seq"@, "NOT"@, "IN"@, "(SELECT"@, "seq"@, "FROM"@]),
{
    reveal_strlit(" WHERE session_id = ?1 AND seq <= ?2 AND seq NOT IN (SELECT seq FROM ");
    reveal_strlit("WHERE");
    reveal_strlit("session_id");
    reveal_strlit("=");
    reveal_strlit("?1");
    reveal_strlit("AND");
    reveal_strlit("seq");
    reveal_strlit("<=");
    reveal_strlit("?2");
    reveal_strlit("NOT");
    reveal_strlit("IN");
    reveal_strlit("(SELECT");
    reveal_strlit("FROM");
    reveal_with_fuel(tail, 16);
    assert(" WHERE session_id = ?1 AND seq <= ?2 AND seq NOT IN (SELECT seq FROM "@ =~= tail(seq!["WHERE"@, "session_id"@, "="@, "?1"@, "AND"@, "seq"@, "<="@, "?2"@, "AND"@, "seq"@, "NOT"@, "IN"@, "(SELECT"@, "seq"@, "FROM"@]) + seq![' ']);
}

proof fn lemma_where_topic_closed()
    ensures
        " WHERE session_id = ?1)"@ == tail(seq!["WHERE"@, "session_id"@, "="@, "?1)"@]),
        unspaced(seq!["WHERE"@, "session_id"@, "="@, "?1)"@]),
{
    reveal_strlit(" WHERE session_id = ?1)");
    reveal_strlit("WHERE");
    reveal_strlit("session_id");
    reveal_strlit("=");
    reveal_strlit("?1)");
    reveal_with_fuel(tail, 5);
    assert(" WHERE session_id = ?1)"@ =~= tail(seq!["WHERE"@, "session_id"@, "="@, "?1)"@]));
}

proof fn lemma_where_topic()
    ensures
        " WHERE session_id = ?1"@ == tail(seq!["WHERE"@, "session_id"@, "="@, "?1"@]),
        unspaced(seq!["WHERE"@, "session_id"@, "="@, "?1"@]),
{
    reveal_strlit(" WHERE session_id = ?1");
    reveal_strlit("WHERE");
    reveal_strlit("session_id");
    reveal_strlit("=");
    reveal_strlit("?1");
    reveal_with_fuel(tail, 5);
    assert(" WHERE session_id = ?1"@ =~= tail(seq!["WHERE"@, "session_id"@, "="@, "?1"@]));
}

proof fn lemma_where_seq()
    ensures
        " WHERE session_id = ?1 AND seq = ?2"@ == tail(seq!["WHERE"@, "session_id"@, "="@, "?1"@, "AND"@, "seq"@, "="@, "?2"@]),
        unspaced(seq!["WHERE"@, "session_id"@, "="@, "?1"@, "AND"@, "seq"@, "="@, "?2"@]),
{
    reveal_strlit(" WHERE session_id = ?1 AND seq = ?2");
    reveal_strlit("WHERE");
    reveal_strlit("session_id");
    reveal_strlit("=");
    reveal_strlit("?1");
    reveal_strlit("AND");
    reveal_strlit("seq");
    reveal_strlit("?2");
    reveal_with_fuel(tail, 9);
    assert(" WHERE session_id = ?1 AND seq = ?2"@ =~= tail(seq!["WHERE"@, "session_id"@, "="@, "?1"@, "AND"@, "seq"@, "="@, "?2"@]));
}

proof fn lemma_where_since()
    ensures
        " WHERE session_id = ?1 AND created_at >= ?2"@ == tail(seq!["WHERE"@, "session_id"@, "="@, "?1"@, "AND"@, "created_at"@, ">="@, "?2"@]),
        unspaced(seq!["WHERE"@, "session_id"@, "="@, "?1"@, "AND"@, "created_at"@, ">="@, "?2"@]),
{
    reveal_strlit(" WHERE session_id = ?1 AND created_at >= ?2");
    reveal_strlit("WHERE");
    reveal_strlit("session_id");
    reveal_strlit("=");
    reveal_strlit("?1");
    reveal_strlit("AND");
    reveal_strlit("created_at");
    reveal_strlit(">=");
    reveal_strlit("?2");
    reveal_with_fuel(tail, 9);
    assert(" WHERE session_id = ?1 AND created_at >= ?2"@ =~= tail(seq!["WHERE"@, "session_id"@, "="@, "?1"@, "AND"@, "created_at"@, ">="@, "?2"@]));
}

proof fn lemma_where_cutoff()
    ensures
        " WHERE session_id = ?1 ORDER BY seq DESC LIMIT 1 OFFSET ?2"@ == tail(seq!["WHERE"@, "session_id"@, "="@, "?1"@, "ORDER"@, "BY"@, "seq"@, "DESC"@, "LIMIT"@, "1"@, "OFFSET"@, "?2"@]),
        unspaced(seq!["WHERE"@, "session_id"@, "="@, "?1"@, "ORDER"@, "BY"@, "seq"@, "DESC"@, "LIMIT"@, "1"@, "OFFSET"@, "?2"@]),
{
    reveal_strlit(" WHERE session_id = ?1 ORDER BY seq DESC LIMIT 1 OFFSET ?2");
    reveal_strlit("WHERE");
    reveal_strlit("session_id");
    reveal_strlit("=");
    reveal_strlit("?1");
    reveal_strlit("ORDER");
    reveal_strlit("BY");
    reveal_strlit("seq");
    reveal_strlit("DESC");
    reveal_strlit("LIMIT");
    reveal_strlit("1");
    reveal_strlit("OFFSET");
    reveal_strlit("?2");
    reveal_with_fuel(tail, 13);
    assert(" WHERE session_id = ?1 ORDER BY seq DESC LIMIT 1 OFFSET ?2"@ =~= tail(seq!["WHERE"@, "session_id"@, "="@, "?1"@, "ORDER"@, "BY"@, "seq"@, "DESC"@, "LIMIT"@, "1"@, "OFFSET"@, "?2"@]));
}

proof fn lemma_where_seq_open()
    ensures
        " WHERE session_id = ?1 AND seq "@ == tail(seq!["WHERE"@, "session_id"@, "="@, "?1"@, "AND"@, "seq"@]) + seq![' '],
        unspaced(seq!["WHERE"@, "session_id"@, "="@, "?1"@, "AND"@, "seq"@]),
{
    reveal_strlit(" WHERE session_id = ?1 AND seq ");
    reveal_strlit("WHERE");
    reveal_strlit("session_id");
    reveal_strlit("=");
    reveal_strlit("?1");
    reveal_strlit("AND");
    reveal_strlit("seq");
    reveal_with_fuel(tail, 7);
    assert(" WHERE session_id = ?1 AND seq "@ =~= tail(seq!["WHERE"@, "session_id"@, "="@, "?1"@, "AND"@, "seq"@]) + seq![' ']);
}

proof fn lemma_order_open()
    ensures
        " ?2 ORDER BY seq "@ == tail(seq!["?2"@, "ORDER"@, "BY"@, "seq"@]) + seq![' '],
        unspaced(seq!["?2"@, "ORDER"@, "BY"@, "seq"@]),
{
    reveal_strlit(" ?2 ORDER BY seq ");
    reveal_strlit("?2");
    reveal_strlit("ORDER");
    reveal_strlit("BY");
    reveal_strlit("seq");
    reveal_with_fuel(tail, 5);
    assert(" ?2 ORDER BY seq "@ =~= tail(seq!["?2"@, "ORDER"@, "BY"@, "seq"@]) + seq![' ']);
}

proof fn lemma_limit()
    ensures
        " LIMIT ?3"@ == tail(seq!["LIMIT"@, "?3"@]),
        unspaced(seq!["LIMIT"@, "?3"@]),
{
    reveal_strlit(" LIMIT ?3");
    reveal_strlit("LIMIT");
    reveal_strlit("?3");
    reveal_with_fuel(tail, 3);
    assert(" LIMIT ?3"@ =~= tail(seq!["LIMIT"@, "?3"@]));
}

proof fn lemma_group()
    ensures
        " GROUP BY session_id"@ == tail(seq!["GROUP"@, "BY"@, "session_id"@]),
        unspaced(seq!["GROUP"@, "BY"@, "session_id"@]),
{
    reveal_strlit(" GROUP BY session_id");
    reveal_strlit("GROUP");
    reveal_strlit("BY");
    reveal_strlit("session_id");
    reveal_with_fuel(tail, 4);
    assert(" GROUP BY session_id"@ =~= tail(seq!["GROUP"@, "BY"@, "session_id"@]));
}

proof fn lemma_where_variant()
    ensures
        " WHERE session_id = ?1 AND discriminant = ?2 ORDER BY seq DESC LIMIT 1"@ == tail(seq!["WHERE"@, "session_id"@, "="@, "?1"@, "AND"@, "discriminant"@, "="@, "?2"@, "ORDER"@, "BY"@, "seq"@, "DESC"@, "LIMIT"@, "1"@]),
        unspaced(seq!["WHERE"@, "session_id"@, "="@, "?1"@, "AND"@, "discriminant"@, "="@, "?2"@, "ORDER"@, "BY"@, "seq"@, "DESC"@, "LIMIT"@, "1"@]),
{
    reveal_strlit(" WHERE session_id = ?1 AND discriminant = ?2 ORDER BY seq DESC LIMIT 1");
    reveal_strlit("WHERE");
    reveal_strlit("session_id");
    reveal_strlit("=");
    reveal_strlit("?1");
    reveal_strlit("AND");
    reveal_strlit("discriminant");
    reveal_strlit("?2");
    reveal_strlit("ORDER");
    reveal_strlit("BY");
    reveal_strlit("seq");
    reveal_strlit("DESC");
    reveal_strlit("LIMIT");
    reveal_strlit("1");
    reveal_with_fuel(tail, 15);
    assert(" WHERE session_id = ?1 AND discriminant = ?2 ORDER BY seq DESC LIMIT 1"@ =~= tail(seq!["WHERE"@, "session_id"@, "="@, "?1"@, "AND"@, "discriminant"@, "="@, "?2"@, "ORDER"@, "BY"@, "seq"@, "DESC"@, "LIMIT"@, "1"@]));
}

proof fn lemma_where_attachment()
    ensures
        " WHERE session_id = ?1 AND attachment_id = ?2"@ == tail(seq!["WHERE"@, "session_id"@, "="@, "?1"@, "AND"@, "attachment_id"@, "="@, "?2"@]),
        unspaced(seq!["WHERE"@, "session_id"@, "="@, "?1"@, "AND"@, "attachment_id"@, "="@, "?2"@]),
{
    reveal_strlit(" WHERE session_id = ?1 AND attachment_id = ?2");
    reveal_strlit("WHERE");
    reveal_strlit("session_id");
    reveal_strlit("=");
    reveal_strlit("?1");
    reveal_strlit("AND");
    reveal_strlit("attachment_id");
    reveal_strlit("?2");
    reveal_with_fuel(tail, 9);
    assert(" WHERE session_id = ?1 AND attachment_id = ?2"@ =~= tail(seq!["WHERE"@, "session_id"@, "="@, "?1"@, "AND"@, "attachment_id"@, "="@, "?2"@]));
}

proof fn lemma_event_columns()
    ensures
        " (session_id, seq, event_json, created_at, discriminant) VALUES (?1, ?2, ?3, ?4, ?5)"@ == tail(seq!["(session_id,"@, "seq,"@, "event_json,"@, "created_at,"@, "discriminant)"@, "VALUES"@, "(?1,"@, "?2,"@, "?3,"@, "?4,"@, "?5)"@]),
        unspaced(seq!["(session_id,"@, "seq,"@, "event_json,"@, "created_at,"@, "discriminant)"@, "VALUES"@, "(?1,"@, "?2,"@, "?3,"@, "?4,"@, "?5)"@]),
{
    reveal_strlit(" (session_id, seq, event_json, created_at, discriminant) VALUES (?1, ?2, ?3, ?4, ?5)");
    reveal_strlit("(session_id,");
    reveal_strlit("seq,");
    reveal_strlit("event_json,");
    reveal_strlit("created_at,");
    reveal_strlit("discriminant)");
    reveal_strlit("VALUES");
    reveal_strlit("(?1,");
    reveal_strlit("?2,");
    reveal_strlit("?3,");
    reveal_strlit("?4,");
    reveal_strlit("?5)");
    reveal_with_fuel(tail, 12);
    assert(" (session_id, seq, event_json, created_at, discriminant) VALUES (?1, ?2, ?3, ?4, ?5)"@ =~= tail(seq!["(session_id,"@, "seq,"@, "event_json,"@, "created_at,"@, "discriminant)"@, "VALUES"@, "(?1,"@, "?2,"@, "?3,"@, "?4,"@, "?5)"@]));
}

proof fn lemma_attachment_columns()
    ensures
        " (session_id, seq, attachment_id, kind, mime_type, name, data, created_at) VALUES (?1, ?2, ?3, ?4, ?5, ?6, ?7, ?8)"@ == tail(seq!["(session_id,"@, "seq,"@, "attachment_id,"@, "kind,"@, "mime_type,"@, "name,"@, "data,"@, "created_at)"@, "VALUES"@, "(?1,"@, "?2,"@, "?3,"@, "?4,"@, "?5,"@, "?6,"@, "?7,"@, "?8)"@]),
        unspaced(seq!["(session_id,"@, "seq,"@, "attachment_id,"@, "kind,"@, "mime_type,"@, "name,"@, "data,"@, "created_at)"@, "VALUES"@, "(?1,"@, "?2,"@, "?3,"@, "?4,"@, "?5,"@, "?6,"@, "?7,"@, "?8)"@]),
{
    reveal_strlit(" (session_id, seq, attachment_id, kind, mime_type, name, data, created_at) VALUES (?1, ?2, ?3, ?4, ?5, ?6, ?7, ?8)");
    reveal_strlit("(session_id,");
    reveal_strlit("seq,");
    reveal_strlit("attachment_id,");
    reveal_strlit("kind,");
    reveal_strlit("mime_type,");
    reveal_strlit("name,");
    reveal_strlit("data,");
    reveal_strlit("created_at)");
    reveal_strlit("VALUES");
    reveal_strlit("(?1,");
    reveal_strlit("?2,");
    reveal_strlit("?3,");
    reveal_strlit("?4,");
    reveal_strlit("?5,");
    reveal_strlit("?6,");
    reveal_strlit("?7,");
    reveal_strlit("?8)");
    reveal_with_fuel(tail, 18);
    assert(" (session_id, seq, attachment_id, kind, mime_type, name, data, created_at) VALUES (?1, ?2, ?3, ?4, ?5, ?6, ?7, ?8)"@ =~= tail(seq!["(session_id,"@, "seq,"@, "attachment_id,"@, "kind,"@, "mime_type,"@, "name,"@, "data,"@, "created_at)"@, "VALUES"@, "(?1,"@, "?2,"@, "?3,"@, "?4,"@, "?5,"@, "?6,"@, "?7,"@, "?8)"@]));
}

/// The words of a statement on a table.
proof fn lemma_on_table(first: Seq<char>, head: Seq<Seq<char>>, table: Seq<char>, rest: Seq<Seq<char>>)
    requires
        !first.contains(' '),
        unspaced(head),
        !table.contains(' '),
        unspaced(rest),
    ensures
        pieces(first + tail(head) + seq![' '] + table + tail(rest), ' ') == seq![first] + head + seq![table] + rest,
{
    let all = head.push(table) + rest;
    lemma_tail_joins(head.push(table), rest);
    assert(head.push(table).drop_last() =~= head);
    assert(first + tail(head) + seq![' '] + table + tail(rest) =~= first + tail(all));
    assert forall|i: int| 0 <= i < all.len() implies !(#[trigger] all[i]).contains(' ') by {
        if i < head.len() {
            assert(all[i] == head[i]);
        } else if i > head.len() {
            assert(all[i] == rest[i - head.len() - 1]);
        }
    }
    lemma_words(first, all);
    assert(seq![first] + all =~= seq![first] + head + seq![table] + rest);
}

proof fn lemma_unspaced_joins(a: Seq<Seq<char>>, b: Seq<Seq<char>>)
    requires
        unspaced(a),
        unspaced(b),
    ensures
        unspaced(a + b),
{
    let c = a + b;
    assert forall|i: int| 0 <= i < c.len() implies !(#[trigger] c[i]).contains(' ') by {
        if i < a.len() {
            assert(c[i] == a[i]);
        } else {
            assert(c[i] == b[i - a.len()]);
        }
    }
}

/// The words of a part that a word ends.
proof fn lemma_tail_push(a: Seq<Seq<char>>, x: Seq<char>)
    requires
        unspaced(a),
        !x.contains(' '),
    ensures
        tail(a + seq![x]) == tail(a) + seq![' '] + x,
        unspaced(a + seq![x]),
{
    assert((a + seq![x]).drop_last() =~= a);
    lemma_unspaced_joins(a, seq![x]);
}

/// The words of a statement on a table whose condition names another word in between.
proof fn lemma_on_table_with(
    first: Seq<char>,
    head: Seq<Seq<char>>,
    table: Seq<char>,
    a: Seq<Seq<char>>,
    x: Seq<char>,
    b: Seq<Seq<char>>,
)
    requires
        !first.contains(' '),
        unspaced(head),
        !table.contains(' '),
        unspaced(a),
        !x.contains(' '),
        unspaced(b),
    ensures
        pieces(first + tail(head) + seq![' '] + table + (tail(a) + seq![' ']) + x + tail(b), ' ') == seq![first] + head
            + seq![table] + (a + seq![x] + b),
{
    let rest = a + seq![x] + b;
    lemma_tail_push(a, x);
    lemma_unspaced_joins(a + seq![x], b);
    lemma_tail_joins(a + seq![x], b);
    lemma_on_table(first, head, table, rest);
    let front = first + tail(head) + seq![' '] + table;
    assert(front + (tail(a) + seq![' ']) + x + tail(b) =~= front + (tail(a) + seq![' '] + x + tail(b)));
}

/// A row meets the conditions that leave out variants exactly where it matches none of their patterns.
proof fn lemma_left_out_met(
    t: Tables,
    w: Seq<Seq<char>>,
    base: int,
    n: nat,
    j: int,
    params: Seq<Bound>,
    next: int,
    row: Row,
    before: bool,
)
    requires
        0 <= base,
        0 <= j < n,
        w.len() >= base + 5 * n,
        w.len() > base + 5 * n ==> w[base + 5 * n] != "AND"@ && w[base + 5 * n] != "OR"@,
        forall|i: int| 0 <= i < 5 * n ==> #[trigger] w[base + i] == left_out(n)[i],
    ensures
        meets(t, w, base + 5 * j + 1, params, next + j, row, before) <==> before && forall|m: int|
            j <= m < n ==> !matches_pattern(row["event_json"@], #[trigger] params[next + m]),
    decreases n - j,
{
    lemma_left_out(n);
    lemma_keywords();
    let i = base + 5 * j + 1;
    assert(w[i] == w[base + (5 * j + 1)]);
    assert(w[i + 1] == w[base + (5 * j + 2)]);
    assert(w[i + 2] == w[base + (5 * j + 3)]);
    assert(w[i + 3] == w[base + (5 * j + 4)]);
    assert(left_out(n)[5 * j + 1] == "event_json"@);
    assert(left_out(n)[5 * j + 2] == "NOT"@);
    assert(left_out(n)[5 * j + 3] == "LIKE"@);
    assert(left_out(n)[5 * j + 4] == "?"@);
    let holds = !matches_pattern(row["event_json"@], params[next + j]);
    assert(term(t, w, i, params, next + j, row) == (holds, 4int, next + j + 1));
    if j + 1 < n {
        assert(w[i + 4] == w[base + 5 * (j + 1)]);
        assert(left_out(n)[5 * (j + 1)] == "AND"@);
        assert(i + 5 == base + 5 * (j + 1) + 1);
        lemma_left_out_met(t, w, base, n, j + 1, params, next, row, before && holds);
    }
}

/// What the row of an event holds.
proof fn lemma_event_row(topic: Seq<char>, seq: i64, e: EventV)
    ensures
        event_row(topic, seq, e)["session_id"@] == Bound::Text(topic),
        event_row(topic, seq, e)["seq"@] == Bound::Integer(seq),
        event_row(topic, seq, e)["event_json"@] == Bound::Text(e.json),
        event_row(topic, seq, e)["created_at"@] == Bound::Integer(e.created_at),
        event_row(topic, seq, e)["discriminant"@] == Bound::Text(e.discriminant),
{
    lemma_columns();
}

/// Pruning deletes a row of the log exactly where it is of the given topic, its number is at most the
/// cutoff, and its text matches none of the patterns of the pinned variants, however many they are.
pub proof fn law_prune_deletes_old_unpinned_events(
    prefix: &str,
    schema: &Schema,
    topic: &str,
    cutoff: i64,
    pinned: &Vec<String>,
    s: Statement,
    t: Tables,
    of: Seq<char>,
    seq: i64,
    e: EventV,
)
    requires
        call_ensures(Schema::new, (prefix,), Ok::<Schema, String>(*schema)),
        call_ensures(prune_events, (schema, topic, Some(cutoff), pinned), Some(s)),
    ensures
        deletes(s, t, schema.events(), event_row(of, seq, e)) <==> of == topic@ && seq <= cutoff && forall|i: int|
            0 <= i < pinned@.len() ==> !like(e.json, "{\""@ + (#[trigger] pinned@[i])@ + "\":%"@),
        bounds(s.params@).len() == 2 + pinned@.len(),
{
    let n = pinned@.len();
    let w = seq!["WHERE"@, "session_id"@, "="@, "?"@, "AND"@, "seq"@, "<="@, "?"@];
    let rest = w + left_out(n);
    let ev = schema.events();
    lemma_table_names(prefix, *schema);
    lemma_delete_head();
    lemma_where_old();
    lemma_left_out(n);
    lemma_tail_joins(w, left_out(n));
    assert forall|i: int| 0 <= i < rest.len() implies !(#[trigger] rest[i]).contains(' ') by {
        if i < 8 {
            assert(rest[i] == w[i]);
        } else {
            assert(rest[i] == left_out(n)[i - 8]);
        }
    }
    lemma_on_table("DELETE"@, seq!["FROM"@], ev, rest);
    assert(s.sql@ =~= "DELETE"@ + tail(seq!["FROM"@]) + seq![' '] + ev + tail(rest));
    let ws = sql_words(s);
    assert(ws == seq!["DELETE"@] + seq!["FROM"@] + seq![ev] + rest);
    assert(ws.len() == 11 + 5 * n);
    assert(ws[0] == "DELETE"@ && ws[1] == "FROM"@ && ws[2] == ev && ws[3] == "WHERE"@);
    assert(ws[4] == "session_id"@ && ws[5] == "="@ && ws[6] == "?"@ && ws[7] == "AND"@);
    assert(ws[8] == "seq"@ && ws[9] == "<="@ && ws[10] == "?"@);
    assert forall|i: int| 0 <= i < 5 * n implies #[trigger] ws[11 + i] == left_out(n)[i] by {
        assert(ws[11 + i] == rest[8 + i]);
    }
    lemma_keywords();
    lemma_event_row(of, seq, e);
    let row = event_row(of, seq, e);
    let p = bounds(s.params@);
    assert(p[0] == Bound::Text(topic@) && p[1] == Bound::Integer(cutoff));
    assert forall|i: int| 0 <= i < n implies #[trigger] p[2 + i] == Bound::Text(
        "{\""@ + pinned@[i]@ + "\":%"@,
    ) by {}
    let a = of == topic@;
    assert(term(t, ws, 4, p, 0, row) == (a, 3int, 1int));
    let b = seq <= cutoff;
    assert(term(t, ws, 8, p, 1, row) == (b, 3int, 2int));
    assert(meets(t, ws, 4, p, 0, row, true) == meets(t, ws, 8, p, 1, row, a));
    if n > 0 {
        assert(ws[11 + 0int] == left_out(n)[0]);
        assert(left_out(n)[5 * 0int] == "AND"@);
        assert(meets(t, ws, 8, p, 1, row, a) == meets(t, ws, 12, p, 2, row, a && b));
        lemma_left_out_met(t, ws, 11, n, 0, p, 2, row, a && b);
        if forall|m: int| 0 <= m < n ==> !matches_pattern(row["event_json"@], #[trigger] p[2 + m]) {
            assert forall|i: int| 0 <= i < n implies !like(
                e.json,
                "{\""@ + (#[trigger] pinned@[i])@ + "\":%"@,
            ) by {
                assert(p[2 + i] == Bound::Text("{\""@ + pinned@[i]@ + "\":%"@));
            }
        } else {
            let m = choose|m: int| 0 <= m < n && matches_pattern(row["event_json"@], #[trigger] p[2 + m]);
            assert(like(e.json, "{\""@ + pinned@[m]@ + "\":%"@));
        }
    } else {
        assert(meets(t, ws, 8, p, 1, row, a) == (a && b));
    }
}

/// The events that the statement of a prune deletes are those that are gone after it.
pub proof fn law_prune_has_its_effect(
    prefix: &str,
    schema: &Schema,
    topic: &str,
    cutoff: i64,
    pinned: &Vec<String>,
    s: Statement,
    t: Tables,
    before: Store,
    k: (Seq<char>, i64),
)
    requires
        call_ensures(Schema::new, (prefix,), Ok::<Schema, String>(*schema)),
        call_ensures(prune_events, (schema, topic, Some(cutoff), pinned), Some(s)),
        before.events.contains_key(k),
    ensures
        ({
            let after = Op::PruneEvents { topic: topic@, cutoff, pinned: texts(pinned@) }.effect(before);
            &&& deletes(s, t, schema.events(), event_row(k.0, k.1, before.events[k])) <==> !after.events.contains_key(k)
            &&& after.events.contains_key(k) ==> after.events[k] == before.events[k]
            &&& after.attachments == before.attachments
        }),
{
    let e = before.events[k];
    law_prune_deletes_old_unpinned_events(prefix, schema, topic, cutoff, pinned, s, t, k.0, k.1, e);
    let names = texts(pinned@);
    assert forall|i: int| 0 <= i < names.len() implies #[trigger] names[i] == pinned@[i]@ by {}
    assert(crate::events::of_variants(e.json, names) <==> exists|i: int|
        0 <= i < pinned@.len() && like(e.json, "{\""@ + (#[trigger] pinned@[i])@ + "\":%"@)) by {
        if crate::events::of_variants(e.json, names) {
            let i = choose|i: int|
                0 <= i < names.len() && like(e.json, crate::events::variant_pattern(#[trigger] names[i]));
            assert(like(e.json, "{\""@ + pinned@[i]@ + "\":%"@));
        } else if exists|i: int| 0 <= i < pinned@.len() && like(e.json, "{\""@ + (#[trigger] pinned@[i])@ + "\":%"@) {
            let i = choose|i: int|
                0 <= i < pinned@.len() && like(e.json, "{\""@ + (#[trigger] pinned@[i])@ + "\":%"@);
            assert(like(e.json, crate::events::variant_pattern(names[i])));
        }
    }
}

/// What the row of an attachment holds.
proof fn lemma_attachment_row(topic: Seq<char>, id: Seq<char>, a: AttachmentV)
    ensures
        attachment_row(topic, id, a)["session_id"@] == Bound::Text(topic),
        attachment_row(topic, id, a)["seq"@] == Bound::Integer(a.seq),
        attachment_row(topic, id, a)["attachment_id"@] == Bound::Text(id),
{
    lemma_columns();
}

/// Pruning the attachments of a topic deletes exactly those of that topic whose number is at most the
/// cutoff and whose event is no longer in the log. It happens only where events were pruned.
pub proof fn law_prune_deletes_attachments_without_event(
    prefix: &str,
    schema: &Schema,
    topic: &str,
    cutoff: i64,
    pruned: Result<usize, String>,
    r: Option<Statement>,
    t: Tables,
    log: Store,
    of: Seq<char>,
    id: Seq<char>,
    a: AttachmentV,
)
    requires
        call_ensures(Schema::new, (prefix,), Ok::<Schema, String>(*schema)),
        call_ensures(prune_attachments, (schema, topic, cutoff, pruned), r),
        t.contains_key(schema.events()),
        t[schema.events()] == event_rows(log),
    ensures
        r is Some <==> pruned is Ok && pruned->Ok_0 > 0,
        r is Some ==> (deletes(r->0, t, schema.attachments(), attachment_row(of, id, a)) <==> of == topic@ && a.seq
            <= cutoff && !log.events.contains_key((topic@, a.seq))),
        r is Some ==> bounds(r->0.params@).len() == 2,
{
    if r is Some {
        let s = r->0;
        let p = bounds(s.params@);
        lemma_table_names(prefix, *schema);
        lemma_prune_attachments_words(schema.events(), schema.attachments());
        assert(p[0] == Bound::Text(topic@) && p[1] == Bound::Integer(cutoff));
        lemma_prune_attachments_met(sql_words(s), t, log, schema.events(), schema.attachments(), p, topic@, cutoff, of, id, a);
    }
}

/// The words of the statement that prunes attachments.
pub open spec fn pruning(ev: Seq<char>, at: Seq<char>) -> Seq<Seq<char>> {
    seq![
        "DELETE"@,
        "FROM"@,
        at,
        "WHERE"@,
        "session_id"@,
        "="@,
        "?1"@,
        "AND"@,
        "seq"@,
        "<="@,
        "?2"@,
        "AND"@,
        "seq"@,
        "NOT"@,
        "IN"@,
        "(SELECT"@,
        "seq"@,
        "FROM"@,
        ev,
        "WHERE"@,
        "session_id"@,
        "="@,
        "?1)"@,
    ]
}

proof fn lemma_prune_attachments_words(ev: Seq<char>, at: Seq<char>)
    requires
        !ev.contains(' '),
        !at.contains(' '),
    ensures
        pieces(
            "DELETE FROM "@ + at + " WHERE session_id = ?1 AND seq <= ?2 AND seq NOT IN (SELECT seq FROM "@ + ev
                + " WHERE session_id = ?1)"@,
            ' ',
        ) == pruning(ev, at),
{
    lemma_delete_head();
    lemma_where_old_numbered();
    lemma_where_topic_closed();
    let w = seq![
        "WHERE"@,
        "session_id"@,
        "="@,
        "?1"@,
        "AND"@,
        "seq"@,
        "<="@,
        "?2"@,
        "AND"@,
        "seq"@,
        "NOT"@,
        "IN"@,
        "(SELECT"@,
        "seq"@,
        "FROM"@,
    ];
    let z = seq!["WHERE"@, "session_id"@, "="@, "?1)"@];
    lemma_on_table_with("DELETE"@, seq!["FROM"@], at, w, ev, z);
    assert(pruning(ev, at) =~= seq!["DELETE"@] + seq!["FROM"@] + seq![at] + (w + seq![ev] + z));
}

proof fn lemma_prune_attachments_met(
    ws: Seq<Seq<char>>,
    t: Tables,
    log: Store,
    ev: Seq<char>,
    at: Seq<char>,
    p: Seq<Bound>,
    topic: Seq<char>,
    cutoff: i64,
    of: Seq<char>,
    id: Seq<char>,
    a: AttachmentV,
)
    requires
        ws == pruning(ev, at),
        t[ev] == event_rows(log),
        p.len() == 2,
        p[0] == Bound::Text(topic),
        p[1] == Bound::Integer(cutoff),
    ensures
        meets(t, ws, 4, p, 0, attachment_row(of, id, a), true) <==> of == topic && a.seq <= cutoff
            && !log.events.contains_key((topic, a.seq)),
{
    assert(ws.len() == 23);
    assert(ws[0] == "DELETE"@ && ws[1] == "FROM"@ && ws[2] == at && ws[3] == "WHERE"@);
    assert(ws[4] == "session_id"@ && ws[5] == "="@ && ws[6] == "?1"@ && ws[7] == "AND"@);
    assert(ws[8] == "seq"@ && ws[9] == "<="@ && ws[10] == "?2"@ && ws[11] == "AND"@);
    assert(ws[12] == "seq"@ && ws[13] == "NOT"@ && ws[14] == "IN"@ && ws[15] == "(SELECT"@);
    assert(ws[16] == "seq"@ && ws[17] == "FROM"@ && ws[18] == ev && ws[19] == "WHERE"@);
    assert(ws[20] == "session_id"@ && ws[21] == "="@ && ws[22] == "?1)"@);
    lemma_keywords();
    lemma_attachment_row(of, id, a);
    let row = attachment_row(of, id, a);
    let x = of == topic;
    let y = a.seq <= cutoff;
    let there = among(t[ev], "session_id"@, "="@, p[0], "seq"@, row["seq"@]);
    assert(there <==> log.events.contains_key((topic, a.seq))) by {
        if there {
            let q = choose|q: Row| #[trigger]
                t[ev].contains(q) && compares(q["session_id"@], "="@, p[0]) && q["seq"@] == row["seq"@];
            let k = choose|k: (Seq<char>, i64)| #[trigger]
                log.events.contains_key(k) && q == event_row(k.0, k.1, log.events[k]);
            lemma_event_row(k.0, k.1, log.events[k]);
            assert(k == (topic, a.seq));
        } else if log.events.contains_key((topic, a.seq)) {
            let k = (topic, a.seq);
            let q = event_row(k.0, k.1, log.events[k]);
            lemma_event_row(k.0, k.1, log.events[k]);
            assert(t[ev].contains(q));
        }
    }
    assert(term(t, ws, 4, p, 0, row) == (x, 3int, 0int));
    assert(term(t, ws, 8, p, 0, row) == (y, 3int, 0int));
    assert(term(t, ws, 12, p, 0, row) == (!there, 11int, 0int));
    assert(meets(t, ws, 12, p, 0, row, x && y) == (x && y && !there));
    assert(meets(t, ws, 8, p, 0, row, x) == meets(t, ws, 12, p, 0, row, x && y));
    assert(meets(t, ws, 4, p, 0, row, true) == meets(t, ws, 8, p, 0, row, x));
}

/// Dropping the attachments of an event deletes exactly those of its topic and number. Numbers that do
/// not fit into the column are kept as negative ones.
pub proof fn law_attachments_of_one_event_are_deleted(
    prefix: &str,
    schema: &Schema,
    topic: &str,
    seq: u64,
    s: Statement,
    t: Tables,
    of: Seq<char>,
    id: Seq<char>,
    a: AttachmentV,
)
    requires
        call_ensures(Schema::new, (prefix,), Ok::<Schema, String>(*schema)),
        call_ensures(delete_attachments_for_seq, (schema, topic, seq), s),
    ensures
        deletes(s, t, schema.attachments(), attachment_row(of, id, a)) <==> of == topic@ && (a.seq == seq || a.seq + 0x1_0000_0000_0000_0000
            == seq),
{
    let at = schema.attachments();
    lemma_table_names(prefix, *schema);
    lemma_delete_head();
    lemma_where_seq();
    let rest = seq!["WHERE"@, "session_id"@, "="@, "?1"@, "AND"@, "seq"@, "="@, "?2"@];
    lemma_on_table("DELETE"@, seq!["FROM"@], at, rest);
    let ws = sql_words(s);
    assert(ws == seq!["DELETE"@] + seq!["FROM"@] + seq![at] + rest);
    lemma_keywords();
    lemma_attachment_row(of, id, a);
    let row = attachment_row(of, id, a);
    let p = bounds(s.params@);
    let y = row["seq"@] == p[1];
    assert(term(t, ws, 4, p, 0, row) == (of == topic@, 3int, 0int));
    assert(term(t, ws, 8, p, 0, row) == (y, 3int, 0int));
    assert(meets(t, ws, 8, p, 0, row, of == topic@) == (of == topic@ && y));
    assert(meets(t, ws, 4, p, 0, row, true) == meets(t, ws, 8, p, 0, row, of == topic@));
}

/// Dropping a topic deletes exactly its events and its attachments.
pub proof fn law_topic_is_deleted(
    prefix: &str,
    schema: &Schema,
    topic: &str,
    r: (Statement, Statement),
    t: Tables,
    of: Seq<char>,
    seq: i64,
    e: EventV,
    id: Seq<char>,
    a: AttachmentV,
)
    requires
        call_ensures(Schema::new, (prefix,), Ok::<Schema, String>(*schema)),
        call_ensures(delete_topic, (schema, topic), r),
    ensures
        deletes(r.0, t, schema.events(), event_row(of, seq, e)) <==> of == topic@,
        deletes(r.1, t, schema.attachments(), attachment_row(of, id, a)) <==> of == topic@,
{
    let ev = schema.events();
    let at = schema.attachments();
    lemma_table_names(prefix, *schema);
    lemma_delete_head();
    lemma_where_topic();
    let rest = seq!["WHERE"@, "session_id"@, "="@, "?1"@];
    lemma_on_table("DELETE"@, seq!["FROM"@], ev, rest);
    lemma_on_table("DELETE"@, seq!["FROM"@], at, rest);
    let v = sql_words(r.0);
    let w = sql_words(r.1);
    assert(v == seq!["DELETE"@] + seq!["FROM"@] + seq![ev] + rest);
    assert(w == seq!["DELETE"@] + seq!["FROM"@] + seq![at] + rest);
    lemma_keywords();
    lemma_attachment_row(of, id, a);
    lemma_event_row(of, seq, e);
    let p = bounds(r.0.params@);
    let q = bounds(r.1.params@);
    assert(term(t, v, 4, p, 0, event_row(of, seq, e)) == (of == topic@, 3int, 0int));
    assert(term(t, w, 4, q, 0, attachment_row(of, id, a)) == (of == topic@, 3int, 0int));
}

/// The number that a column of numbers holds for a number: the same where it fits, the largest where not.
pub open spec fn fitted(n: u64) -> int {
    if n <= 9_223_372_036_854_775_807 {
        n as int
    } else {
        9_223_372_036_854_775_807
    }
}

/// Counting picks the events of a topic from a time on, and nothing else stands in the statement.
pub proof fn law_count_picks_events_since(
    prefix: &str,
    schema: &Schema,
    topic: &str,
    from: i64,
    s: Statement,
    t: Tables,
    of: Seq<char>,
    seq: i64,
    e: EventV,
)
    requires
        call_ensures(Schema::new, (prefix,), Ok::<Schema, String>(*schema)),
        call_ensures(count_since, (schema, topic, from), s),
    ensures
        picks(s, t, seq!["COUNT(*)"@], schema.events(), event_row(of, seq, e)) <==> of == topic@ && e.created_at >= from,
        sql_words(s).len() == 12,
{
    lemma_table_names(prefix, *schema);
    lemma_count_picks(*schema, topic@, from, s, t, of, seq, e);
}

/// What a statement that counts picks.
pub proof fn lemma_count_picks(
    schema: Schema,
    topic: Seq<char>,
    from: i64,
    s: Statement,
    t: Tables,
    of: Seq<char>,
    seq: i64,
    e: EventV,
)
    requires
        !schema.events().contains(' '),
        s.states(schema, Op::CountSince { topic, from }),
    ensures
        picks(s, t, seq!["COUNT(*)"@], schema.events(), event_row(of, seq, e)) <==> of == topic && e.created_at >= from,
        sql_words(s).len() == 12,
{
    let ev = schema.events();
    lemma_count_head();
    lemma_where_since();
    let rest = seq!["WHERE"@, "session_id"@, "="@, "?1"@, "AND"@, "created_at"@, ">="@, "?2"@];
    let head = seq!["COUNT(*)"@, "FROM"@];
    lemma_on_table("SELECT"@, head, ev, rest);
    let ws = sql_words(s);
    assert(ws == seq!["SELECT"@] + head + seq![ev] + rest);
    assert(ws.subrange(1, 2) =~= seq!["COUNT(*)"@]);
    lemma_keywords();
    lemma_event_row(of, seq, e);
    let row = event_row(of, seq, e);
    let p = bounds(s.params@);
    let x = of == topic;
    let y = e.created_at >= from;
    assert(term(t, ws, 5, p, 0, row) == (x, 3int, 0int));
    assert(term(t, ws, 9, p, 0, row) == (y, 3int, 0int));
    assert(meets(t, ws, 9, p, 0, row, x) == (x && y));
    assert(meets(t, ws, 5, p, 0, row, true) == meets(t, ws, 9, p, 0, row, x));
}

/// The cutoff of a topic is looked up among its events from the newest on, past as many as are kept; it
/// is not looked up where there is no limit.
pub proof fn law_cutoff_is_past_the_kept(
    prefix: &str,
    schema: &Schema,
    topic: &str,
    max_events: usize,
    r: Option<Statement>,
    t: Tables,
    of: Seq<char>,
    seq: i64,
    e: EventV,
)
    requires
        call_ensures(Schema::new, (prefix,), Ok::<Schema, String>(*schema)),
        call_ensures(prune_retention, (schema, topic, max_events), r),
    ensures
        r is Some <==> max_events > 0,
        r is Some ==> (picks(r->0, t, seq!["seq"@], schema.events(), event_row(of, seq, e)) <==> of == topic@),
        r is Some ==> sql_words(r->0).skip(8) == seq!["ORDER"@, "BY"@, "seq"@, "DESC"@, "LIMIT"@, "1"@, "OFFSET"@, "?2"@],
        r is Some ==> bounds(r->0.params@)[1] == Bound::Integer(fitted(max_events as u64) as i64),
{
    if r is Some {
        lemma_table_names(prefix, *schema);
        lemma_cutoff_picks(*schema, topic@, fitted(max_events as u64) as i64, r->0, t, of, seq, e);
    }
}

/// What a statement that looks up a cutoff picks.
pub proof fn lemma_cutoff_picks(
    schema: Schema,
    topic: Seq<char>,
    keep: i64,
    s: Statement,
    t: Tables,
    of: Seq<char>,
    seq: i64,
    e: EventV,
)
    requires
        !schema.events().contains(' '),
        s.states(schema, Op::Cutoff { topic, keep }),
    ensures
        picks(s, t, seq!["seq"@], schema.events(), event_row(of, seq, e)) <==> of == topic,
        sql_words(s).skip(8) == seq!["ORDER"@, "BY"@, "seq"@, "DESC"@, "LIMIT"@, "1"@, "OFFSET"@, "?2"@],
        bounds(s.params@)[1] == Bound::Integer(keep),
{
    let ev = schema.events();
    lemma_seq_head();
    lemma_where_cutoff();
    let rest = seq![
        "WHERE"@,
        "session_id"@,
        "="@,
        "?1"@,
        "ORDER"@,
        "BY"@,
        "seq"@,
        "DESC"@,
        "LIMIT"@,
        "1"@,
        "OFFSET"@,
        "?2"@,
    ];
    let head = seq!["seq"@, "FROM"@];
    lemma_on_table("SELECT"@, head, ev, rest);
    let ws = sql_words(s);
    assert(ws == seq!["SELECT"@] + head + seq![ev] + rest);
    assert(ws.subrange(1, 2) =~= seq!["seq"@]);
    assert(ws.skip(8) =~= seq!["ORDER"@, "BY"@, "seq"@, "DESC"@, "LIMIT"@, "1"@, "OFFSET"@, "?2"@]);
    lemma_keywords();
    lemma_event_row(of, seq, e);
    let p = bounds(s.params@);
    assert(term(t, ws, 5, p, 0, event_row(of, seq, e)) == (of == topic, 3int, 0int));
}

/// A window picks the events of a topic above or below a number, in the order that is asked for, and at
/// most as many as are asked for.
pub proof fn law_scan_picks_window(
    prefix: &str,
    schema: &Schema,
    topic: &str,
    bound: SeqBound,
    order: Order,
    limit: Option<usize>,
    s: Statement,
    t: Tables,
    of: Seq<char>,
    seq: i64,
    e: EventV,
)
    requires
        call_ensures(Schema::new, (prefix,), Ok::<Schema, String>(*schema)),
        call_ensures(scan, (schema, topic, bound, order, limit), s),
    ensures
        picks(s, t, seq!["seq,"@, "event_json"@], schema.events(), event_row(of, seq, e)) <==> of == topic@
            && match bound {
            SeqBound::After(n) => seq > fitted(n),
            SeqBound::Before(n) => seq < fitted(n),
        },
        sql_words(s).skip(13) == seq![
            "ORDER"@,
            "BY"@,
            "seq"@,
            if order == Order::Asc {
                "ASC"@
            } else {
                "DESC"@
            },
        ] + if limit is Some {
            seq!["LIMIT"@, "?3"@]
        } else {
            Seq::empty()
        },
        limit is Some ==> bounds(s.params@)[2] == Bound::Integer(fitted(limit->0 as u64) as i64),
{
    lemma_table_names(prefix, *schema);
    lemma_scan_words(schema.events(), bound, order, limit is Some);
    lemma_scan_met(sql_words(s), t, schema.events(), bound, order, limit is Some, bounds(s.params@), topic@, of, seq, e);
    let ws = sql_words(s);
    assert(ws.subrange(1, 3) =~= seq!["seq,"@, "event_json"@]);
    assert(ws.skip(13) =~= seq![
        "ORDER"@,
        "BY"@,
        "seq"@,
        if order == Order::Asc {
            "ASC"@
        } else {
            "DESC"@
        },
    ] + if limit is Some {
        seq!["LIMIT"@, "?3"@]
    } else {
        Seq::empty()
    });
}

/// The words of the statement that reads a window.
pub open spec fn windowing(ev: Seq<char>, bound: SeqBound, order: Order, limited: bool) -> Seq<Seq<char>> {
    seq![
        "SELECT"@,
        "seq,"@,
        "event_json"@,
        "FROM"@,
        ev,
        "WHERE"@,
        "session_id"@,
        "="@,
        "?1"@,
        "AND"@,
        "seq"@,
        if bound is After {
            ">"@
        } else {
            "<"@
        },
        "?2"@,
        "ORDER"@,
        "BY"@,
        "seq"@,
        if order == Order::Asc {
            "ASC"@
        } else {
            "DESC"@
        },
    ] + if limited {
        seq!["LIMIT"@, "?3"@]
    } else {
        Seq::empty()
    }
}

proof fn lemma_scan_words(ev: Seq<char>, bound: SeqBound, order: Order, limited: bool)
    requires
        !ev.contains(' '),
    ensures
        pieces(
            "SELECT seq, event_json FROM "@ + ev + " WHERE session_id = ?1 AND seq "@ + (match bound {
                SeqBound::After(_) => ">"@,
                SeqBound::Before(_) => "<"@,
            }) + " ?2 ORDER BY seq "@ + (match order {
                Order::Asc => "ASC"@,
                Order::Desc => "DESC"@,
            }) + (if limited {
                " LIMIT ?3"@
            } else {
                ""@
            }),
            ' ',
        ) == windowing(ev, bound, order, limited),
{
    lemma_rows_head();
    lemma_where_seq_open();
    lemma_order_open();
    lemma_limit();
    let op = match bound {
        SeqBound::After(_) => ">"@,
        SeqBound::Before(_) => "<"@,
    };
    let dir = match order {
        Order::Asc => "ASC"@,
        Order::Desc => "DESC"@,
    };
    let a = seq!["WHERE"@, "session_id"@, "="@, "?1"@, "AND"@, "seq"@];
    let b = seq!["?2"@, "ORDER"@, "BY"@, "seq"@];
    let c = if limited {
        seq!["LIMIT"@, "?3"@]
    } else {
        Seq::empty()
    };
    let end = if limited {
        " LIMIT ?3"@
    } else {
        ""@
    };
    assert(!op.contains(' ') && !dir.contains(' ') && end == tail(c) && unspaced(c)) by {
        reveal_strlit(">");
        reveal_strlit("<");
        reveal_strlit("ASC");
        reveal_strlit("DESC");
        reveal_strlit("");
        assert(""@ =~= Seq::<char>::empty());
    }
    let head = seq!["seq,"@, "event_json"@, "FROM"@];
    let z = b + seq![dir] + c;
    lemma_tail_push(b, dir);
    lemma_tail_joins(b + seq![dir], c);
    lemma_unspaced_joins(b + seq![dir], c);
    lemma_on_table_with("SELECT"@, head, ev, a, op, z);
    let front = "SELECT"@ + tail(head) + seq![' '] + ev + (tail(a) + seq![' ']) + op;
    lemma_chain(front, tail(b) + seq![' '], dir, tail(c));
    assert(windowing(ev, bound, order, limited) =~= seq!["SELECT"@] + head + seq![ev] + (a + seq![op] + z));
}

proof fn lemma_chain(a: Seq<char>, b: Seq<char>, c: Seq<char>, d: Seq<char>)
    ensures
        a + b + c + d == a + (b + c + d),
{
    assert(a + b + c + d =~= a + (b + c + d));
}

proof fn lemma_scan_met(
    ws: Seq<Seq<char>>,
    t: Tables,
    ev: Seq<char>,
    bound: SeqBound,
    order: Order,
    limited: bool,
    p: Seq<Bound>,
    topic: Seq<char>,
    of: Seq<char>,
    seq: i64,
    e: EventV,
)
    requires
        ws == windowing(ev, bound, order, limited),
        p[0] == Bound::Text(topic),
        p[1] == Bound::Integer(
            match bound {
                SeqBound::After(n) => fitted(n) as i64,
                SeqBound::Before(n) => fitted(n) as i64,
            },
        ),
    ensures
        meets(t, ws, 6, p, 0, event_row(of, seq, e), true) <==> of == topic && match bound {
            SeqBound::After(n) => seq > fitted(n),
            SeqBound::Before(n) => seq < fitted(n),
        },
{
    lemma_event_row(of, seq, e);
    lemma_keywords();
    let row = event_row(of, seq, e);
    let x = of == topic;
    let y = match bound {
        SeqBound::After(n) => seq > fitted(n),
        SeqBound::Before(n) => seq < fitted(n),
    };
    let op = match bound {
        SeqBound::After(_) => ">"@,
        SeqBound::Before(_) => "<"@,
    };
    assert(ws[6] == "session_id"@ && ws[7] == "="@ && ws[8] == "?1"@ && ws[9] == "AND"@);
    assert(ws[10] == "seq"@ && ws[11] == op && ws[12] == "?2"@ && ws[13] == "ORDER"@);
    assert(term(t, ws, 6, p, 0, row) == (x, 3int, 0int));
    assert(term(t, ws, 10, p, 0, row) == (y, 3int, 0int));
    assert(meets(t, ws, 10, p, 0, row, x) == (x && y));
    assert(meets(t, ws, 6, p, 0, row, true) == meets(t, ws, 10, p, 0, row, x));
}

/// The highest and the lowest number are looked up among the events of a topic, and nothing else stands
/// in the statements.
pub proof fn law_extremes_are_of_the_topic(
    prefix: &str,
    schema: &Schema,
    topic: &str,
    hi: Statement,
    lo: Statement,
    t: Tables,
    of: Seq<char>,
    seq: i64,
    e: EventV,
)
    requires
        call_ensures(Schema::new, (prefix,), Ok::<Schema, String>(*schema)),
        call_ensures(highest_seq, (schema, topic), hi),
        call_ensures(lowest_seq, (schema, topic), lo),
    ensures
        picks(hi, t, seq!["MAX(seq)"@], schema.events(), event_row(of, seq, e)) <==> of == topic@,
        picks(lo, t, seq!["MIN(seq)"@], schema.events(), event_row(of, seq, e)) <==> of == topic@,
        sql_words(hi).len() == 8,
        sql_words(lo).len() == 8,
{
    let ev = schema.events();
    lemma_table_names(prefix, *schema);
    lemma_max_head();
    lemma_min_head();
    lemma_where_topic();
    let rest = seq!["WHERE"@, "session_id"@, "="@, "?1"@];
    let max = seq!["MAX(seq)"@, "FROM"@];
    let min = seq!["MIN(seq)"@, "FROM"@];
    lemma_on_table("SELECT"@, max, ev, rest);
    lemma_on_table("SELECT"@, min, ev, rest);
    let v = sql_words(hi);
    let w = sql_words(lo);
    assert(v == seq!["SELECT"@] + max + seq![ev] + rest);
    assert(w == seq!["SELECT"@] + min + seq![ev] + rest);
    assert(v.subrange(1, 2) =~= seq!["MAX(seq)"@]);
    assert(w.subrange(1, 2) =~= seq!["MIN(seq)"@]);
    lemma_keywords();
    lemma_event_row(of, seq, e);
    assert(term(t, v, 5, bounds(hi.params@), 0, event_row(of, seq, e)) == (of == topic@, 3int, 0int));
    assert(term(t, w, 5, bounds(lo.params@), 0, event_row(of, seq, e)) == (of == topic@, 3int, 0int));
}

/// The highest numbers of all topics are looked up topic by topic among all events.
pub proof fn law_all_highest_are_by_topic(prefix: &str, schema: &Schema, s: Statement)
    requires
        call_ensures(Schema::new, (prefix,), Ok::<Schema, String>(*schema)),
        call_ensures(all_topic_seqs, (schema,), s),
    ensures
        sql_words(s) == seq![
            "SELECT"@,
            "session_id,"@,
            "MAX(seq)"@,
            "FROM"@,
            schema.events(),
            "GROUP"@,
            "BY"@,
            "session_id"@,
        ],
        s.params@.len() == 0,
{
    lemma_table_names(prefix, *schema);
    lemma_all_max_head();
    lemma_group();
    let head = seq!["session_id,"@, "MAX(seq)"@, "FROM"@];
    let rest = seq!["GROUP"@, "BY"@, "session_id"@];
    lemma_on_table("SELECT"@, head, schema.events(), rest);
    assert(sql_words(s) =~= seq!["SELECT"@] + head + seq![schema.events()] + rest);
    assert(bounds(s.params@).len() == 0);
}

/// The newest event of a variant is looked up among the events of the topic that have this variant.
pub proof fn law_latest_is_of_the_variant(
    prefix: &str,
    schema: &Schema,
    topic: &str,
    variant: &str,
    s: Statement,
    t: Tables,
    of: Seq<char>,
    seq: i64,
    e: EventV,
)
    requires
        call_ensures(Schema::new, (prefix,), Ok::<Schema, String>(*schema)),
        call_ensures(latest_by_discriminant, (schema, topic, variant), s),
    ensures
        picks(s, t, seq!["seq,"@, "event_json"@], schema.events(), event_row(of, seq, e)) <==> of == topic@
            && e.discriminant == variant@,
        sql_words(s).skip(13) == seq!["ORDER"@, "BY"@, "seq"@, "DESC"@, "LIMIT"@, "1"@],
{
    let ev = schema.events();
    lemma_table_names(prefix, *schema);
    lemma_rows_head();
    lemma_where_variant();
    let rest = seq![
        "WHERE"@,
        "session_id"@,
        "="@,
        "?1"@,
        "AND"@,
        "discriminant"@,
        "="@,
        "?2"@,
        "ORDER"@,
        "BY"@,
        "seq"@,
        "DESC"@,
        "LIMIT"@,
        "1"@,
    ];
    let head = seq!["seq,"@, "event_json"@, "FROM"@];
    lemma_on_table("SELECT"@, head, ev, rest);
    let ws = sql_words(s);
    assert(ws == seq!["SELECT"@] + head + seq![ev] + rest);
    assert(ws.subrange(1, 3) =~= seq!["seq,"@, "event_json"@]);
    assert(ws.skip(13) =~= seq!["ORDER"@, "BY"@, "seq"@, "DESC"@, "LIMIT"@, "1"@]);
    lemma_keywords();
    lemma_event_row(of, seq, e);
    let row = event_row(of, seq, e);
    let p = bounds(s.params@);
    let x = of == topic@;
    let y = e.discriminant == variant@;
    assert(term(t, ws, 6, p, 0, row) == (x, 3int, 0int));
    assert(term(t, ws, 10, p, 0, row) == (y, 3int, 0int));
    assert(meets(t, ws, 10, p, 0, row, x) == (x && y));
    assert(meets(t, ws, 6, p, 0, row, true) == meets(t, ws, 10, p, 0, row, x));
}

/// Reading an attachment picks the one with its id within its topic.
pub proof fn law_attachment_is_found_by_id(
    prefix: &str,
    schema: &Schema,
    topic: &str,
    wanted: &str,
    s: Statement,
    t: Tables,
    of: Seq<char>,
    id: Seq<char>,
    a: AttachmentV,
)
    requires
        call_ensures(Schema::new, (prefix,), Ok::<Schema, String>(*schema)),
        call_ensures(load_attachment, (schema, topic, wanted), s),
    ensures
        picks(s, t, seq!["mime_type,"@, "data"@], schema.attachments(), attachment_row(of, id, a)) <==> of == topic@
            && id == wanted@,
        sql_words(s).len() == 13,
{
    let at = schema.attachments();
    lemma_table_names(prefix, *schema);
    lemma_blob_head();
    lemma_where_attachment();
    let rest = seq!["WHERE"@, "session_id"@, "="@, "?1"@, "AND"@, "attachment_id"@, "="@, "?2"@];
    let head = seq!["mime_type,"@, "data"@, "FROM"@];
    lemma_on_table("SELECT"@, head, at, rest);
    let ws = sql_words(s);
    assert(ws == seq!["SELECT"@] + head + seq![at] + rest);
    assert(ws.subrange(1, 3) =~= seq!["mime_type,"@, "data"@]);
    lemma_keywords();
    lemma_attachment_row(of, id, a);
    let row = attachment_row(of, id, a);
    let p = bounds(s.params@);
    let x = of == topic@;
    let y = id == wanted@;
    assert(term(t, ws, 6, p, 0, row) == (x, 3int, 0int));
    assert(term(t, ws, 10, p, 0, row) == (y, 3int, 0int));
    assert(meets(t, ws, 10, p, 0, row, x) == (x && y));
    assert(meets(t, ws, 6, p, 0, row, true) == meets(t, ws, 10, p, 0, row, x));
}

/// Appending an event writes its topic, its number, its text, its time and its variant, each into its
/// column. The variant is what stands between the first two quotation marks.
pub proof fn law_appended_event_is_written(
    prefix: &str,
    schema: &Schema,
    topic: &str,
    seq: u64,
    json: &str,
    created_at: i64,
    s: Statement,
    before: Seq<char>,
    variant: Seq<char>,
    behind: Seq<char>,
)
    requires
        call_ensures(Schema::new, (prefix,), Ok::<Schema, String>(*schema)),
        call_ensures(insert_event, (schema, topic, seq, json, created_at), s),
        json@ == before + seq!['"'] + variant + seq!['"'] + behind,
        !before.contains('"'),
        !variant.contains('"'),
    ensures
        adds_row(s, schema.events(), 5),
        writes(s, 5, 0, "session_id"@, Bound::Text(topic@)),
        exists|n: i64|
            (n == seq || n + 0x1_0000_0000_0000_0000 == seq) && #[trigger] writes(s, 5, 1, "seq"@, Bound::Integer(n)),
        writes(s, 5, 2, "event_json"@, Bound::Text(json@)),
        writes(s, 5, 3, "created_at"@, Bound::Integer(created_at)),
        writes(s, 5, 4, "discriminant"@, Bound::Text(variant)),
{
    lemma_table_names(prefix, *schema);
    lemma_quoted(json@, before, variant, behind);
    let n = crate::events::stored_seq(seq);
    let event = EventV { json: json@, created_at, discriminant: crate::events::variant_of(json@) };
    lemma_event_written(*schema, topic@, n, event, s);
    assert(n == seq || n + 0x1_0000_0000_0000_0000 == seq);
}

/// What a statement that appends an event writes.
pub proof fn lemma_event_written(schema: Schema, topic: Seq<char>, n: i64, event: EventV, s: Statement)
    requires
        !schema.events().contains(' '),
        s.states(schema, Op::InsertEvent { topic, seq: n, event }),
    ensures
        adds_row(s, schema.events(), 5),
        writes(s, 5, 0, "session_id"@, Bound::Text(topic)),
        writes(s, 5, 1, "seq"@, Bound::Integer(n)),
        writes(s, 5, 2, "event_json"@, Bound::Text(event.json)),
        writes(s, 5, 3, "created_at"@, Bound::Integer(event.created_at)),
        writes(s, 5, 4, "discriminant"@, Bound::Text(event.discriminant)),
{
    let ev = schema.events();
    lemma_insert_head();
    lemma_event_columns();
    let rest = seq![
        "(session_id,"@,
        "seq,"@,
        "event_json,"@,
        "created_at,"@,
        "discriminant)"@,
        "VALUES"@,
        "(?1,"@,
        "?2,"@,
        "?3,"@,
        "?4,"@,
        "?5)"@,
    ];
    let head = seq!["OR"@, "IGNORE"@, "INTO"@];
    lemma_on_table("INSERT"@, head, ev, rest);
    let ws = sql_words(s);
    assert(ws == seq!["INSERT"@] + head + seq![ev] + rest);
    lemma_bare_columns();
    lemma_bare_marks();
    assert(bounds(s.params@)[1] == Bound::Integer(n));
}

proof fn lemma_quoted(json: Seq<char>, before: Seq<char>, variant: Seq<char>, behind: Seq<char>)
    requires
        json == before + seq!['"'] + variant + seq!['"'] + behind,
        !before.contains('"'),
        !variant.contains('"'),
    ensures
        crate::events::variant_of(json) == variant,
{
    let rest = variant + seq!['"'] + behind;
    assert forall|j: int| 0 <= j < before.len() implies json[j] != '"' by {
        if json[j] == '"' {
            assert(before[j] == '"');
        }
    }
    crate::text::lemma_find_char_at(json, '"', before.len() as int);
    assert(json.skip(before.len() as int + 1) =~= rest);
    assert forall|j: int| 0 <= j < variant.len() implies rest[j] != '"' by {
        if rest[j] == '"' {
            assert(variant[j] == '"');
        }
    }
    crate::text::lemma_find_char_at(rest, '"', variant.len() as int);
    assert(rest.take(variant.len() as int) =~= variant);
}

/// Storing an attachment writes its topic, the number of its event, its id, its kind, its type, its name
/// where it has one, its bytes and its time, each into its column.
pub proof fn law_stored_attachment_is_written(
    prefix: &str,
    schema: &Schema,
    topic: &str,
    seq: u64,
    a: Attachment,
    created_at: i64,
    s: Statement,
)
    requires
        call_ensures(Schema::new, (prefix,), Ok::<Schema, String>(*schema)),
        call_ensures(insert_attachment, (schema, topic, seq, a, created_at), s),
    ensures
        adds_row(s, schema.attachments(), 8),
        writes(s, 8, 0, "session_id"@, Bound::Text(topic@)),
        exists|n: i64|
            (n == seq || n + 0x1_0000_0000_0000_0000 == seq) && #[trigger] writes(s, 8, 1, "seq"@, Bound::Integer(n)),
        writes(s, 8, 2, "attachment_id"@, Bound::Text(a.id@)),
        writes(s, 8, 3, "kind"@, Bound::Text(a.kind@)),
        writes(s, 8, 4, "mime_type"@, Bound::Text(a.mime_type@)),
        a.name is Some ==> writes(s, 8, 5, "name"@, Bound::Text(a.name->0@)),
        a.name is None ==> writes(s, 8, 5, "name"@, Bound::Null),
        writes(s, 8, 6, "data"@, Bound::Blob(a.data@)),
        writes(s, 8, 7, "created_at"@, Bound::Integer(created_at)),
{
    let at = schema.attachments();
    lemma_table_names(prefix, *schema);
    lemma_insert_head();
    lemma_attachment_columns();
    let rest = seq![
        "(session_id,"@,
        "seq,"@,
        "attachment_id,"@,
        "kind,"@,
        "mime_type,"@,
        "name,"@,
        "data,"@,
        "created_at)"@,
        "VALUES"@,
        "(?1,"@,
        "?2,"@,
        "?3,"@,
        "?4,"@,
        "?5,"@,
        "?6,"@,
        "?7,"@,
        "?8)"@,
    ];
    let head = seq!["OR"@, "IGNORE"@, "INTO"@];
    lemma_on_table("INSERT"@, head, at, rest);
    let ws = sql_words(s);
    assert(ws == seq!["INSERT"@] + head + seq![at] + rest);
    lemma_bare_columns();
    lemma_bare_marks();
    let p = bounds(s.params@);
    let n = crate::events::stored_seq(seq);
    assert(p[1] == Bound::Integer(n));
    assert(writes(s, 8, 1, "seq"@, Bound::Integer(n)));
    assert(n == seq || n + 0x1_0000_0000_0000_0000 == seq);
}

proof fn lemma_bare_columns()
    ensures
        bare("(session_id,"@) == "session_id"@,
        bare("seq,"@) == "seq"@,
        bare("event_json,"@) == "event_json"@,
        bare("created_at,"@) == "created_at"@,
        bare("discriminant)"@) == "discriminant"@,
        bare("attachment_id,"@) == "attachment_id"@,
        bare("kind,"@) == "kind"@,
        bare("mime_type,"@) == "mime_type"@,
        bare("name,"@) == "name"@,
        bare("data,"@) == "data"@,
        bare("created_at)"@) == "created_at"@,
{
    reveal_strlit("(session_id,");
    reveal_strlit("session_id");
    reveal_strlit("seq,");
    reveal_strlit("seq");
    reveal_strlit("event_json,");
    reveal_strlit("event_json");
    reveal_strlit("created_at,");
    reveal_strlit("created_at");
    reveal_strlit("discriminant)");
    reveal_strlit("discriminant");
    reveal_strlit("attachment_id,");
    reveal_strlit("attachment_id");
    reveal_strlit("kind,");
    reveal_strlit("kind");
    reveal_strlit("mime_type,");
    reveal_strlit("mime_type");
    reveal_strlit("name,");
    reveal_strlit("name");
    reveal_strlit("data,");
    reveal_strlit("data");
    reveal_strlit("created_at)");
    assert(bare("(session_id,"@) =~= "session_id"@);
    assert(bare("seq,"@) =~= "seq"@);
    assert(bare("event_json,"@) =~= "event_json"@);
    assert(bare("created_at,"@) =~= "created_at"@);
    assert(bare("discriminant)"@) =~= "discriminant"@);
    assert(bare("attachment_id,"@) =~= "attachment_id"@);
    assert(bare("kind,"@) =~= "kind"@);
    assert(bare("mime_type,"@) =~= "mime_type"@);
    assert(bare("name,"@) =~= "name"@);
    assert(bare("data,"@) =~= "data"@);
    assert(bare("created_at)"@) =~= "created_at"@);
}

proof fn lemma_bare_marks()
    ensures
        bare("(?1,"@).len() == 2 && bare("(?1,"@)[0] == '?' && bare("(?1,"@)[1] == '1',
        bare("?2,"@).len() == 2 && bare("?2,"@)[0] == '?' && bare("?2,"@)[1] == '2',
        bare("?3,"@).len() == 2 && bare("?3,"@)[0] == '?' && bare("?3,"@)[1] == '3',
        bare("?4,"@).len() == 2 && bare("?4,"@)[0] == '?' && bare("?4,"@)[1] == '4',
        bare("?5,"@).len() == 2 && bare("?5,"@)[0] == '?' && bare("?5,"@)[1] == '5',
        bare("?6,"@).len() == 2 && bare("?6,"@)[0] == '?' && bare("?6,"@)[1] == '6',
        bare("?7,"@).len() == 2 && bare("?7,"@)[0] == '?' && bare("?7,"@)[1] == '7',
        bare("?5)"@).len() == 2 && bare("?5)"@)[0] == '?' && bare("?5)"@)[1] == '5',
        bare("?8)"@).len() == 2 && bare("?8)"@)[0] == '?' && bare("?8)"@)[1] == '8',
{
    reveal_strlit("(?1,");
    reveal_strlit("?2,");
    reveal_strlit("?3,");
    reveal_strlit("?4,");
    reveal_strlit("?5,");
    reveal_strlit("?6,");
    reveal_strlit("?7,");
    reveal_strlit("?5)");
    reveal_strlit("?8)");
}

proof fn lemma_where_in()
    ensures
        " WHERE session_id IN "@ == tail(seq!["WHERE"@, "session_id"@, "IN"@]) + seq![' '],
        unspaced(seq!["WHERE"@, "session_id"@, "IN"@]),
{
    reveal_strlit(" WHERE session_id IN ");
    reveal_strlit("WHERE");
    reveal_strlit("session_id");
    reveal_strlit("IN");
    reveal_with_fuel(tail, 4);
    assert(" WHERE session_id IN "@ =~= tail(seq!["WHERE"@, "session_id"@, "IN"@]) + seq![' ']);
}

proof fn lemma_marks_join(a: Seq<char>, b: Seq<char>)
    ensures
        marks(a + b) == marks(a) + marks(b),
    decreases b.len(),
{
    if b.len() == 0 {
        assert(a + b =~= a);
    } else {
        lemma_marks_join(a, b.drop_last());
        assert((a + b).drop_last() =~= a + b.drop_last());
    }
}

/// A list of marks.
pub open spec fn mark_list(n: nat) -> Seq<char> {
    joined(Seq::new(n, |i: int| "?"@), ","@)
}

proof fn lemma_mark_list(n: nat)
    ensures
        marks(mark_list(n)) == n,
        !mark_list(n).contains(' '),
    decreases n,
{
    reveal_strlit("?");
    reveal_strlit(",");
    let all = Seq::new(n, |i: int| "?"@);
    reveal_with_fuel(marks, 2);
    if n == 1 {
        assert(mark_list(n) == "?"@);
        assert("?"@.drop_last() =~= Seq::<char>::empty());
    } else if n > 1 {
        let m = (n - 1) as nat;
        lemma_mark_list(m);
        assert(all.drop_last() =~= Seq::new(m, |i: int| "?"@));
        let a = mark_list(m);
        assert(mark_list(n) == a + ","@ + "?"@);
        lemma_marks_join(a + ","@, "?"@);
        lemma_marks_join(a, ","@);
        assert("?"@.drop_last() =~= Seq::<char>::empty());
        assert(","@.drop_last() =~= Seq::<char>::empty());
        let b = a + ","@ + "?"@;
        if b.contains(' ') {
            let i = choose|i: int| 0 <= i < b.len() && b[i] == ' ';
            if i < a.len() {
                assert(a[i] == ' ');
            }
        }
    }
}

/// The last times of topics are looked up among the events of exactly these topics that match none of
/// the patterns of the variants to leave out, topic by topic.
pub proof fn law_last_times_leave_out_variants(
    prefix: &str,
    schema: &Schema,
    topics: &Vec<String>,
    excluded: &Vec<String>,
    r: Option<Statement>,
    t: Tables,
    of: Seq<char>,
    seq: i64,
    e: EventV,
)
    requires
        call_ensures(Schema::new, (prefix,), Ok::<Schema, String>(*schema)),
        call_ensures(last_event_at_for_topics, (schema, topics, excluded), r),
    ensures
        r is Some <==> topics@.len() > 0,
        r is Some ==> (picks(
            r->0,
            t,
            seq!["session_id,"@, "MAX(created_at)"@],
            schema.events(),
            event_row(of, seq, e),
        ) <==> texts(topics@).contains(of) && forall|i: int|
            0 <= i < excluded@.len() ==> !like(e.json, "{\""@ + (#[trigger] excluded@[i])@ + "\":%"@)),
        r is Some ==> sql_words(r->0).skip(sql_words(r->0).len() - 3) == seq!["GROUP"@, "BY"@, "session_id"@],
{
    if r is Some {
        let s = r->0;
        let n = topics@.len();
        let m = excluded@.len();
        let ev = schema.events();
        let x = seq!['('] + mark_list(n) + seq![')'];
        lemma_table_names(prefix, *schema);
        lemma_last_words(ev, n, m);
        assert(Seq::new(texts(topics@).len(), |i: int| "?"@) =~= Seq::new(n, |i: int| "?"@));
        let ws = sql_words(s);
        assert(ws == last_words(ev, n, m));
        lemma_mark_list(n);
        lemma_marks_join(seq!['('] + mark_list(n), seq![')']);
        lemma_marks_join(seq!['('], mark_list(n));
        reveal_with_fuel(marks, 2);
        assert(seq!['('].drop_last() =~= Seq::<char>::empty());
        assert(seq![')'].drop_last() =~= Seq::<char>::empty());
        assert(marks(x) == n);
        lemma_left_out(m);
        lemma_keywords();
        lemma_event_row(of, seq, e);
        let row = event_row(of, seq, e);
        let p = bounds(s.params@);
        assert(ws.len() == 12 + 5 * m);
        assert(ws[0] == "SELECT"@ && ws[3] == "FROM"@ && ws[4] == ev && ws[5] == "WHERE"@);
        assert(ws[6] == "session_id"@ && ws[7] == "IN"@ && ws[8] == x);
        assert(ws.subrange(1, 3) =~= seq!["session_id,"@, "MAX(created_at)"@]);
        assert(ws.skip(ws.len() - 3) =~= seq!["GROUP"@, "BY"@, "session_id"@]);
        assert forall|i: int| 0 <= i < 5 * m implies #[trigger] ws[9 + i] == left_out(m)[i] by {}
        assert(ws[9 + 5 * (m as int)] == "GROUP"@);
        let a = listed_in(p, 0, n as int, Bound::Text(of));
        assert forall|i: int| 0 <= i < n implies #[trigger] p[i] == Bound::Text(topics@[i]@) by {
            assert(texts(topics@)[i] == topics@[i]@);
        }
        assert(a <==> texts(topics@).contains(of)) by {
            if a {
                let j = choose|j: int| 0 <= j < 0 + n && #[trigger] p[j] == Bound::Text(of);
                assert(texts(topics@)[j] == of);
            }
            if texts(topics@).contains(of) {
                let j = choose|j: int| 0 <= j < n && texts(topics@)[j] == of;
                assert(p[j] == Bound::Text(of));
            }
        }
        assert forall|i: int| 0 <= i < m implies #[trigger] p[n + i] == Bound::Text(
            "{\""@ + excluded@[i]@ + "\":%"@,
        ) by {
            assert(texts(excluded@)[i] == excluded@[i]@);
        }
        assert(term(t, ws, 6, p, 0, row) == (a, 3int, n as int));
        reveal_strlit("GROUP");
        assert("GROUP"@.len() == 5);
        if m > 0 {
            assert(ws[9 + 0int] == left_out(m)[0]);
            assert(left_out(m)[5 * 0int] == "AND"@);
            assert(meets(t, ws, 6, p, 0, row, true) == meets(t, ws, 10, p, n as int, row, a));
            lemma_left_out_met(t, ws, 9, m, 0, p, n as int, row, a);
            if forall|k: int| 0 <= k < m ==> !matches_pattern(row["event_json"@], #[trigger] p[n + k]) {
                assert forall|i: int| 0 <= i < m implies !like(
                    e.json,
                    "{\""@ + (#[trigger] excluded@[i])@ + "\":%"@,
                ) by {
                    assert(p[n + i] == Bound::Text("{\""@ + excluded@[i]@ + "\":%"@));
                }
            } else {
                let k = choose|k: int| 0 <= k < m && matches_pattern(row["event_json"@], #[trigger] p[n + k]);
                assert(like(e.json, "{\""@ + excluded@[k]@ + "\":%"@));
            }
        } else {
            assert(ws[9] == "GROUP"@);
            assert(meets(t, ws, 6, p, 0, row, true) == a);
        }
    }
}

/// The words of the statement that looks up the last times of topics.
pub open spec fn last_words(ev: Seq<char>, n: nat, m: nat) -> Seq<Seq<char>> {
    seq![
        "SELECT"@,
        "session_id,"@,
        "MAX(created_at)"@,
        "FROM"@,
        ev,
        "WHERE"@,
        "session_id"@,
        "IN"@,
        seq!['('] + mark_list(n) + seq![')'],
    ] + left_out(m) + seq!["GROUP"@, "BY"@, "session_id"@]
}

proof fn lemma_last_words(ev: Seq<char>, n: nat, m: nat)
    requires
        !ev.contains(' '),
    ensures
        pieces(
            "SELECT session_id, MAX(created_at) FROM "@ + ev + " WHERE session_id IN ("@ + mark_list(n) + ")"@
                + exclusions(m) + " GROUP BY session_id"@,
            ' ',
        ) == last_words(ev, n, m),
{
    lemma_last_head();
    lemma_where_in();
    lemma_group();
    lemma_left_out(m);
    lemma_mark_list(n);
    let x = seq!['('] + mark_list(n) + seq![')'];
    if x.contains(' ') {
        let i = choose|i: int| 0 <= i < x.len() && x[i] == ' ';
        assert(mark_list(n)[i - 1] == ' ');
    }
    let a = seq!["WHERE"@, "session_id"@, "IN"@];
    let g = seq!["GROUP"@, "BY"@, "session_id"@];
    let head = seq!["session_id,"@, "MAX(created_at)"@, "FROM"@];
    let b = left_out(m) + g;
    lemma_unspaced_joins(left_out(m), g);
    lemma_tail_joins(left_out(m), g);
    lemma_on_table_with("SELECT"@, head, ev, a, x, b);
    let front = "SELECT session_id, MAX(created_at) FROM "@ + ev;
    assert(" WHERE session_id IN ("@ == tail(a) + seq![' '] + seq!['(']) by {
        reveal_strlit(" WHERE session_id IN (");
        reveal_strlit(" WHERE session_id IN ");
        assert(" WHERE session_id IN ("@ =~= " WHERE session_id IN "@ + seq!['(']);
    }
    assert(")"@ == seq![')']) by {
        reveal_strlit(")");
        assert(")"@ =~= seq![')']);
    }
    let t = tail(a) + seq![' '];
    assert(front + (t + seq!['(']) + mark_list(n) + seq![')'] + exclusions(m) + tail(g) == front + t + x + tail(b)) by {
        assert(front + (t + seq!['(']) + mark_list(n) + seq![')'] =~= front + t + x);
        lemma_chain2(front + t + x, exclusions(m), tail(g));
    }
    assert(last_words(ev, n, m) =~= seq!["SELECT"@] + head + seq![ev] + (a + seq![x] + b));
}

proof fn lemma_chain2(a: Seq<char>, b: Seq<char>, c: Seq<char>)
    ensures
        a + b + c == a + (b + c),
{
    assert(a + b + c =~= a + (b + c));
}

} // verus!
