//! White space around a text does not matter where a file or an option is read, nor does what an origin has
//! beyond its host.

use vstd::prelude::*;

use crate::daemon::{
    daemon_pid, pid_file_is_ours, read_serve_mode_label, recall_serve_passphrase, recorded_pid, stop_target,
    DaemonProbe,
};
use crate::hosts::{
    has_forbidden, host_check, host_checks, norm_host, normalized, origin_check, origin_checks, validate_allowed_hosts,
    validate_allowed_origins, without_slashes,
};
use crate::laws::words::{lemma_space, space};
use crate::settings::validate::lemma_first_error_ok;
use crate::text::{lemma_after_prefix, lower, lower_char, str_of, text_of, texts, trim_end, trim_start, trimmed, white};

verus! {

/// Whether a text is another one with white space around it; the other one has none at its ends.
pub open spec fn pads(s: Seq<char>, t: Seq<char>) -> bool {
    exists|a: Seq<char>, b: Seq<char>| #[trigger] padded_by(s, a, t, b)
}

/// Whether a text is another one between two that are white space.
pub open spec fn padded_by(s: Seq<char>, a: Seq<char>, t: Seq<char>, b: Seq<char>) -> bool {
    &&& s == a + t + b
    &&& forall|i: int| 0 <= i < a.len() ==> space(#[trigger] a[i])
    &&& forall|i: int| 0 <= i < b.len() ==> space(#[trigger] b[i])
    &&& t.len() > 0 && !space(t[0]) && !space(t[t.len() - 1])
}

proof fn lemma_start(a: Seq<char>, t: Seq<char>)
    requires
        forall|i: int| 0 <= i < a.len() ==> space(#[trigger] a[i]),
        t.len() > 0 && !space(t[0]),
    ensures
        trim_start(a + t) == t,
    decreases a.len(),
{
    let s = a + t;
    if a.len() == 0 {
        assert(s =~= t);
        lemma_space(t[0]);
    } else {
        lemma_space(a[0]);
        assert(s[0] == a[0]);
        let rest = a.skip(1);
        assert forall|i: int| 0 <= i < rest.len() implies space(#[trigger] rest[i]) by {
            assert(rest[i] == a[i + 1]);
        }
        lemma_start(rest, t);
        assert(s.skip(1) =~= rest + t);
    }
}

proof fn lemma_end(t: Seq<char>, b: Seq<char>)
    requires
        forall|i: int| 0 <= i < b.len() ==> space(#[trigger] b[i]),
        t.len() > 0 && !space(t[t.len() - 1]),
    ensures
        trim_end(t + b) == t,
    decreases b.len(),
{
    let s = t + b;
    if b.len() == 0 {
        assert(s =~= t);
        lemma_space(t[t.len() - 1]);
    } else {
        lemma_space(b[b.len() - 1]);
        assert(s.last() == b[b.len() - 1]);
        let rest = b.drop_last();
        assert forall|i: int| 0 <= i < rest.len() implies space(#[trigger] rest[i]) by {
            assert(rest[i] == b[i]);
        }
        lemma_end(t, rest);
        assert(s.drop_last() =~= t + rest);
    }
}

proof fn lemma_pads(s: Seq<char>, t: Seq<char>)
    requires
        pads(s, t),
    ensures
        trimmed(s) == t,
        trimmed(t) == t,
{
    let (a, b) = choose|a: Seq<char>, b: Seq<char>| #[trigger] padded_by(s, a, t, b);
    let none = Seq::<char>::empty();
    assert(a + t + b =~= a + (t + b));
    assert((t + b)[0] == t[0]);
    lemma_start(a, t + b);
    lemma_end(t, b);
    lemma_start(none, t);
    lemma_end(t, none);
    assert(none + t =~= t);
    assert(t + none =~= t);
}

/// A host comes to the same with and without white space around it.
pub proof fn law_padding_of_a_host(s: &str, t: &str, x: String, y: String)
    requires
        pads(s@, t@),
        call_ensures(norm_host, (s,), x),
        call_ensures(norm_host, (t,), y),
    ensures
        x@ == y@,
{
    lemma_pads(s@, t@);
}

/// Allowed hosts and origins are accepted with white space around them exactly where they are without.
pub proof fn law_padding_of_allowed(
    a: &[String],
    b: &[String],
    hosts_a: Result<(), String>,
    hosts_b: Result<(), String>,
    origins_a: Result<(), String>,
    origins_b: Result<(), String>,
)
    requires
        a@.len() == b@.len(),
        forall|i: int| 0 <= i < a@.len() ==> pads((#[trigger] a@[i])@, b@[i]@),
        call_ensures(validate_allowed_hosts, (a,), hosts_a),
        call_ensures(validate_allowed_hosts, (b,), hosts_b),
        call_ensures(validate_allowed_origins, (a,), origins_a),
        call_ensures(validate_allowed_origins, (b,), origins_b),
    ensures
        hosts_a is Ok <==> hosts_b is Ok,
        origins_a is Ok <==> origins_b is Ok,
{
    let x = texts(a@);
    let y = texts(b@);
    let n = a@.len();
    let hx = host_checks(x);
    let hy = host_checks(y);
    let ox = origin_checks(x);
    let oy = origin_checks(y);
    lemma_first_error_ok(n, hx);
    lemma_first_error_ok(n, hy);
    lemma_first_error_ok(n, ox);
    lemma_first_error_ok(n, oy);
    assert forall|i: int| 0 <= i < n implies host_check(#[trigger] x[i]) is Ok == host_check(y[i]) is Ok && (
    origin_check(x[i]) is Ok == origin_check(y[i]) is Ok) && hx(i) == host_check(x[i]) && hy(i) == host_check(y[i])
        && ox(i) == origin_check(x[i]) && oy(i) == origin_check(y[i]) by {
        assert(pads(a@[i]@, b@[i]@));
        lemma_pads(a@[i]@, b@[i]@);
        assert(x[i] == a@[i]@ && y[i] == b@[i]@);
    }
    assert forall|i: int| 0 <= i < n implies hx(i) is Ok == (#[trigger] hy(i)) is Ok by {
        assert(host_check(x[i]) is Ok == host_check(y[i]) is Ok);
    }
    assert forall|i: int| 0 <= i < n implies (#[trigger] hx(i)) is Ok == hy(i) is Ok by {
        assert(host_check(x[i]) is Ok == host_check(y[i]) is Ok);
    }
    assert forall|i: int| 0 <= i < n implies ox(i) is Ok == (#[trigger] oy(i)) is Ok by {
        assert(host_check(x[i]) is Ok == host_check(y[i]) is Ok);
    }
    assert forall|i: int| 0 <= i < n implies (#[trigger] ox(i)) is Ok == oy(i) is Ok by {
        assert(host_check(x[i]) is Ok == host_check(y[i]) is Ok);
    }
}

/// The files of a server are read with and without white space around what they hold alike.
pub proof fn law_padding_of_files(
    s: &str,
    t: &str,
    alive: bool,
    cmdline: Option<&str>,
    own: u32,
    path: &str,
    env: Option<&str>,
    probes: (DaemonProbe, DaemonProbe),
    ours: (bool, bool),
    targets: (Result<i32, String>, Result<i32, String>),
    numbers: (Option<i32>, Option<i32>),
    modes: (Option<&'static str>, Option<&'static str>),
    words: (Option<String>, Option<String>),
)
    requires
        pads(s@, t@),
        call_ensures(daemon_pid, (Some(s), alive, cmdline), probes.0),
        call_ensures(daemon_pid, (Some(t), alive, cmdline), probes.1),
        call_ensures(pid_file_is_ours, (Some(s), own), ours.0),
        call_ensures(pid_file_is_ours, (Some(t), own), ours.1),
        call_ensures(stop_target, (Some(s), path), targets.0),
        call_ensures(stop_target, (Some(t), path), targets.1),
        call_ensures(recorded_pid, (Some(s),), numbers.0),
        call_ensures(recorded_pid, (Some(t),), numbers.1),
        call_ensures(read_serve_mode_label, (Some(s),), modes.0),
        call_ensures(read_serve_mode_label, (Some(t),), modes.1),
        call_ensures(recall_serve_passphrase, (Some(s), env), words.0),
        call_ensures(recall_serve_passphrase, (Some(t), env), words.1),
    ensures
        probes.0 == probes.1,
        ours.0 == ours.1,
        targets.0 is Ok <==> targets.1 is Ok,
        targets.0 is Ok ==> targets.0->Ok_0 == targets.1->Ok_0,
        numbers.0 == numbers.1,
        str_of(modes.0) == str_of(modes.1),
        text_of(words.0) == Some(t@),
        text_of(words.1) == Some(t@),
{
    lemma_pads(s@, t@);
}

proof fn lemma_small(h: Seq<char>)
    requires
        h.len() > 0 && !space(h[0]) && !space(h[h.len() - 1]),
    ensures
        has_forbidden(lower(h)) == has_forbidden(h),
        normalized(lower(h)) == normalized(h),
{
    let l = lower(h);
    assert(l.len() == h.len());
    assert forall|i: int| 0 <= i < h.len() implies #[trigger] l[i] == lower_char(h[i]) by {}
    assert(lower(l) =~= l);
    lemma_same_char(h, '/');
    lemma_same_char(h, '?');
    lemma_same_char(h, '#');
    lemma_same_char(h, '@');
    let none = Seq::<char>::empty();
    assert(none + h + none =~= h);
    assert(none + l + none =~= l);
    assert(!space(l[0]) && !space(l[l.len() - 1]));
    assert(padded_by(h, none, h, none));
    assert(padded_by(l, none, l, none));
    lemma_pads(h, h);
    lemma_pads(l, l);
}

proof fn lemma_same_char(h: Seq<char>, c: char)
    requires
        !('A' <= c <= 'Z') && !('a' <= c <= 'z'),
    ensures
        lower(h).contains(c) == h.contains(c),
{
    let l = lower(h);
    if h.contains(c) {
        let i = choose|i: int| 0 <= i < h.len() && h[i] == c;
        assert(l[i] == c);
    }
    if l.contains(c) {
        let i = choose|i: int| 0 <= i < l.len() && l[i] == c;
        assert(l[i] == lower_char(h[i]));
        assert(h[i] == c);
    }
}

/// An origin is accepted exactly where the host behind its scheme is accepted as a host.
pub proof fn law_origin_is_checked_by_its_host(
    o: &[String],
    h: &[String],
    of_origin: Result<(), String>,
    of_host: Result<(), String>,
)
    requires
        o@.len() == 1 && h@.len() == 1,
        o@[0]@ == "https://"@ + h@[0]@ || o@[0]@ == "http://"@ + h@[0]@,
        h@[0]@.len() > 0 && !space(h@[0]@[0]) && !space(h@[0]@[h@[0]@.len() - 1]),
        h@[0]@[h@[0]@.len() - 1] != '/',
        call_ensures(validate_allowed_origins, (o,), of_origin),
        call_ensures(validate_allowed_hosts, (h,), of_host),
    ensures
        of_origin is Ok <==> of_host is Ok,
{
    let x = h@[0]@;
    let y = o@[0]@;
    let n = x.len() - 1;
    let oc = origin_checks(texts(o@));
    let hc = host_checks(texts(h@));
    lemma_first_error_ok(1, oc);
    lemma_first_error_ok(1, hc);
    assert(oc(0) == origin_check(y));
    assert(hc(0) == host_check(x));
    lemma_small(x);
    let none = Seq::<char>::empty();
    reveal_strlit("https://");
    reveal_strlit("http://");
    assert("https://"@.len() == 8 && "http://"@.len() == 7);
    assert(y[0] == 'h' && y[y.len() - 1] == x[n]);
    assert(none + y + none =~= y);
    assert(none + x + none =~= x);
    assert(padded_by(y, none, y, none));
    assert(padded_by(x, none, x, none));
    lemma_pads(y, y);
    lemma_pads(x, x);
    let l = lower(x);
    assert(l[n] == lower_char(x[n]));
    assert(l[n] != '/');
    assert(without_slashes(l) == l);
    if y == "https://"@ + x {
        assert(lower(y) =~= "https://"@ + l);
        lemma_after_prefix("https://"@, l);
    } else {
        assert(lower(y) =~= "http://"@ + l);
        lemma_after_prefix("http://"@, l);
        assert(lower(y)[4] == ':');
        assert("https://"@[4] == 's');
        if crate::text::begins(lower(y), "https://"@) {
            assert(lower(y).take(8)[4] == "https://"@[4]);
        }
    }
    assert(oc(0) is Ok <==> hc(0) is Ok);
}

} // verus!
