//! Hosts and addresses: which are the machine itself, which may be allowed.

use vstd::prelude::*;

use crate::hosts::{
    host_check, host_checks, host_is_localhost, is_untrusted_ip_literal, norm_host, normalized, origin_check,
    origin_checks, validate_allowed_hosts, validate_allowed_origins, without_slashes,
};
use crate::ip::{group_values, octet, parse_ip, untrusted, v4_of, zeros, IpAddr};
use crate::laws::numbers::{digits, lemma_worth, worth};
use crate::settings::validate::lemma_first_error_ok;
use crate::text::{
    after_prefix, all_digits, find_char, joined, lemma_find_char, lemma_find_char_at, lemma_split_joined, lower,
    lower_char, texts, trimmed, white,
};

verus! {

/// Whether a text is a number from 0 to 255 without zeros in front.
pub open spec fn byte_text(s: Seq<char>) -> bool {
    digits(s) && s.len() <= 3 && worth(s) <= 255 && (s.len() > 1 ==> s[0] != '0')
}

/// Four texts with dots between them.
pub open spec fn dotted(o: Seq<Seq<char>>) -> Seq<char> {
    o[0] + seq!['.'] + o[1] + seq!['.'] + o[2] + seq!['.'] + o[3]
}

proof fn lemma_byte(s: Seq<char>)
    ensures
        byte_text(s) <==> octet(s) is Some,
        byte_text(s) ==> octet(s) == Some(worth(s)),
        byte_text(s) ==> !s.contains('.'),
{
    assert(digits(s) <==> s.len() > 0 && all_digits(s));
    if digits(s) {
        lemma_worth(s);
        if s.contains('.') {
            let i = choose|i: int| 0 <= i < s.len() && s[i] == '.';
            assert('0' <= s[i] <= '9');
        }
    }
}

proof fn lemma_dotted(o: Seq<Seq<char>>)
    requires
        o.len() == 4,
        forall|i: int| 0 <= i < 4 ==> byte_text(#[trigger] o[i]),
    ensures
        v4_of(dotted(o)) == Some((worth(o[0]), worth(o[1]), worth(o[2]), worth(o[3]))),
{
    assert(byte_text(o[0]) && byte_text(o[1]) && byte_text(o[2]) && byte_text(o[3]));
    lemma_byte(o[0]);
    lemma_byte(o[1]);
    lemma_byte(o[2]);
    lemma_byte(o[3]);
    reveal_with_fuel(joined, 5);
    assert(o.drop_last().drop_last().drop_last() =~= seq![o[0]]);
    assert(joined(o, seq!['.']) =~= dotted(o));
    assert forall|i: int| 0 <= i < o.len() implies !(#[trigger] o[i]).contains('.') by {
        lemma_byte(o[i]);
    }
    lemma_split_joined(o, '.');
}

/// Four numbers from 0 to 255 with dots between them are the address of these four.
pub proof fn law_dotted_address_is_read(s: &str, o: Seq<Seq<char>>, r: Option<IpAddr>)
    requires
        o.len() == 4,
        forall|i: int| 0 <= i < 4 ==> byte_text(#[trigger] o[i]),
        s@ == dotted(o),
        call_ensures(parse_ip, (s,), r),
    ensures
        r is Some,
        r->0 matches IpAddr::V4 { a, b, c, d } && a == worth(o[0]) && b == worth(o[1]) && c == worth(o[2]) && d == worth(
            o[3],
        ),
{
    lemma_dotted(o);
    assert(r->0@ is V4);
}

/// An address of four numbers is the machine itself exactly where the first is 127; so is the name
/// `localhost`.
pub proof fn law_localhost_is_recognized(s: &str, o: Seq<Seq<char>>, r: bool)
    requires
        call_ensures(host_is_localhost, (s,), r),
    ensures
        s@ == "localhost"@ ==> r,
        o.len() == 4 && (forall|i: int| 0 <= i < 4 ==> byte_text(#[trigger] o[i])) && s@ == dotted(o) ==> (r <==> worth(
            o[0],
        ) == 127),
{
    if o.len() == 4 && (forall|i: int| 0 <= i < 4 ==> byte_text(#[trigger] o[i])) && s@ == dotted(o) {
        lemma_dotted(o);
        reveal_strlit("localhost");
        if s@ == "localhost"@ {
            assert(byte_text(o[0]));
            assert('0' <= o[0][0] <= '9');
            assert(s@[0] == o[0][0]);
        }
    }
}

/// Whether four numbers are an address that is never trusted: that of no machine, of a link, or of many.
pub open spec fn never_trusted(a: int, b: int, c: int, d: int) -> bool {
    ||| a == 0 && b == 0 && c == 0 && d == 0
    ||| a == 169 && b == 254
    ||| 224 <= a <= 239
}

/// An address of four numbers is untrusted exactly where it is 0.0.0.0, begins with 169.254, or begins
/// with 224 to 239. One of eight groups is untrusted where all are zero, where it begins with fe80 to
/// febf or ff00 to ffff, or where it stands for four such numbers.
pub proof fn law_untrusted_addresses(ip: &IpAddr, r: bool)
    requires
        ip matches IpAddr::V6 { groups } ==> groups@.len() == 8,
        call_ensures(IpAddr::is_untrusted, (ip,), r),
    ensures
        *ip matches IpAddr::V4 { a, b, c, d } ==> (r <==> never_trusted(a as int, b as int, c as int, d as int)),
        *ip matches IpAddr::V6 { groups } ==> (r <==> {
            let g = groups@;
            ||| forall|i: int| 0 <= i < 8 ==> #[trigger] g[i] == 0
            ||| 0xfe80 <= g[0] <= 0xfebf
            ||| g[0] >= 0xff00
            ||| g[0] == 0 && g[1] == 0 && g[2] == 0 && g[3] == 0 && g[4] == 0 && g[5] == 0xffff && never_trusted(
                g[6] as int / 256,
                g[6] as int % 256,
                g[7] as int / 256,
                g[7] as int % 256,
            )
        }),
{
    if let IpAddr::V6 { groups } = *ip {
        let g = groups@;
        let v = group_values(g);
        assert forall|i: int| 0 <= i < 8 implies #[trigger] v[i] == g[i] as int by {}
        if forall|i: int| 0 <= i < 8 ==> #[trigger] g[i] == 0 {
            assert(v =~= zeros(8));
        }
        if v == zeros(8) {
            assert forall|i: int| 0 <= i < 8 implies #[trigger] g[i] == 0 by {
                assert(v[i] == 0);
            }
        }
        if g[0] == 0 && g[1] == 0 && g[2] == 0 && g[3] == 0 && g[4] == 0 {
            assert(v[0] == 0 && v[1] == 0 && v[2] == 0 && v[3] == 0 && v[4] == 0);
            assert(v.take(5) =~= zeros(5));
        }
        if v.take(5) == zeros(5) {
            assert(v.take(5)[0] == 0 && v.take(5)[1] == 0 && v.take(5)[2] == 0 && v.take(5)[3] == 0 && v.take(5)[4]
                == 0);
            assert(v[0] == 0 && v[1] == 0 && v[2] == 0 && v[3] == 0 && v[4] == 0);
        }
        assert(v[5] == g[5] && v[6] == g[6] && v[7] == g[7] && v[0] == g[0]);
    }
}

/// An address of eight groups is the machine itself exactly where all are zero but the last, which is one.
pub proof fn law_loopback_addresses(ip: &IpAddr, r: bool)
    requires
        ip matches IpAddr::V6 { groups } ==> groups@.len() == 8,
        call_ensures(IpAddr::is_loopback, (ip,), r),
    ensures
        *ip matches IpAddr::V4 { a, b, c, d } ==> (r <==> a == 127),
        *ip matches IpAddr::V6 { groups } ==> (r <==> groups@[7] == 1 && forall|i: int|
            0 <= i < 7 ==> #[trigger] groups@[i] == 0),
{
    if let IpAddr::V6 { groups } = *ip {
        let g = groups@;
        let v = group_values(g);
        assert forall|i: int| 0 <= i < 8 implies #[trigger] v[i] == g[i] as int by {}
        let one = zeros(7).push(1);
        if g[7] == 1 && forall|i: int| 0 <= i < 7 ==> #[trigger] g[i] == 0 {
            assert(v =~= one);
        }
        if v == one {
            assert(v[7] == 1);
            assert forall|i: int| 0 <= i < 7 implies #[trigger] g[i] == 0 by {
                assert(v[i] == one[i]);
            }
        }
    }
}

/// Whether no blank stands at the ends of a text.
pub open spec fn unpadded(s: Seq<char>) -> bool {
    s.len() > 0 && !white(s[0]) && !white(s.last())
}

proof fn lemma_unpadded(s: Seq<char>)
    requires
        unpadded(s),
    ensures
        trimmed(s) == s,
{
}

proof fn lemma_lower(s: Seq<char>)
    ensures
        lower(s).len() == s.len(),
        forall|i: int| 0 <= i < s.len() ==> #[trigger] lower(s)[i] == lower_char(s[i]),
{
}

/// A host with a port comes to the host in small letters.
pub proof fn law_port_is_dropped(s: &str, h: Seq<char>, p: Seq<char>, r: String)
    requires
        s@ == h + seq![':'] + p,
        unpadded(s@),
        h.len() > 0,
        h[0] != '[',
        !h.contains(':'),
        !p.contains(':'),
        call_ensures(norm_host, (s,), r),
    ensures
        r@ == lower(h),
{
    lemma_unpadded(s@);
    let t = lower(s@);
    lemma_lower(s@);
    lemma_lower(h);
    let n = h.len() as int;
    assert(s@[n] == ':');
    assert(t[n] == ':');
    assert forall|j: int| 0 <= j < n implies t[j] != ':' by {
        assert(s@[j] == h[j]);
        assert(h.contains(h[j]));
    }
    lemma_find_char_at(t, ':', n);
    assert(t.take(n) =~= lower(h));
    let after = t.skip(n + 1);
    assert(!after.contains(':')) by {
        if after.contains(':') {
            let j = choose|j: int| 0 <= j < after.len() && after[j] == ':';
            assert(t[n + 1 + j] == ':');
            assert(s@[n + 1 + j] == p[j]);
            assert(p.contains(p[j]));
        }
    }
    assert(s@[0] == h[0]);
}

/// A host in brackets comes to what stands in them, in small letters.
pub proof fn law_brackets_are_dropped(s: &str, h: Seq<char>, rest: Seq<char>, r: String)
    requires
        s@ == seq!['['] + h + seq![']'] + rest,
        unpadded(s@),
        !h.contains(']'),
        call_ensures(norm_host, (s,), r),
    ensures
        r@ == lower(h),
{
    lemma_unpadded(s@);
    let t = lower(s@);
    lemma_lower(s@);
    lemma_lower(h);
    let n = h.len() as int;
    assert(s@[0] == '[' && t[0] == '[');
    let u = t.skip(1);
    assert(s@[n + 1] == ']');
    assert(u[n] == ']');
    assert forall|j: int| 0 <= j < n implies u[j] != ']' by {
        assert(s@[j + 1] == h[j]);
        assert(h.contains(h[j]));
    }
    lemma_find_char_at(u, ']', n);
    assert(u.take(n) =~= lower(h));
}

/// A host without a port, and an address with more than one colon, stay whole, in small letters.
pub proof fn law_whole_host_stays(s: &str, r: String)
    requires
        unpadded(s@),
        s@[0] != '[',
        !s@.contains(':') || exists|i: int, j: int| 0 <= i < j < s@.len() && s@[i] == ':' && s@[j] == ':',
        call_ensures(norm_host, (s,), r),
    ensures
        r@ == lower(s@),
{
    lemma_unpadded(s@);
    let t = lower(s@);
    lemma_lower(s@);
    lemma_find_char(t, ':');
    match find_char(t, ':') {
        Some(k) => {
            assert(s@[k] == ':');
            assert(s@.contains(':'));
            let (i, j) = choose|i: int, j: int| 0 <= i < j < s@.len() && s@[i] == ':' && s@[j] == ':';
            assert(t[i] == ':' && t[j] == ':');
            assert(k <= i);
            let after = t.skip(k + 1);
            assert(after[j - k - 1] == ':');
            assert(after.contains(':'));
        },
        None => {},
    }
}

/// An allowed host is valid exactly where it holds nothing of a path, a query, a fragment or a user, comes
/// to something without its port, and is no address that is never trusted.
pub proof fn law_allowed_host_is_valid(
    hs: &[String],
    t: &str,
    n: String,
    m: &str,
    u: bool,
    r: Result<(), String>,
)
    requires
        hs@.len() == 1,
        t@ == trimmed(hs@[0]@),
        call_ensures(norm_host, (t,), n),
        m@ == n@,
        call_ensures(is_untrusted_ip_literal, (m,), u),
        call_ensures(validate_allowed_hosts, (hs,), r),
    ensures
        r is Ok <==> n@.len() > 0 && !u && !t@.contains('/') && !t@.contains('?') && !t@.contains('#') && !t@.contains(
            '@',
        ),
{
    lemma_first_error_ok(1, host_checks(texts(hs@)));
    assert(texts(hs@)[0] == hs@[0]@);
    let check = host_checks(texts(hs@));
    assert(check(0) == host_check(hs@[0]@));
    assert(r is Ok <==> check(0) is Ok) by {
        if check(0) is Ok {
            assert(forall|i: int| 0 <= i < 1 ==> (#[trigger] check(i)) is Ok);
        }
    }
}

/// A list of allowed hosts is valid exactly where each of them is.
pub proof fn law_every_allowed_host_counts(hs: &[String], r: Result<(), String>)
    requires
        call_ensures(validate_allowed_hosts, (hs,), r),
    ensures
        r is Ok <==> forall|i: int| 0 <= i < hs@.len() ==> host_check((#[trigger] hs@[i])@) is Ok,
{
    let check = host_checks(texts(hs@));
    lemma_first_error_ok(hs@.len(), check);
    assert forall|i: int| 0 <= i < hs@.len() implies #[trigger] check(i) == host_check(hs@[i]@) by {
        assert(texts(hs@)[i] == hs@[i]@);
    }
    if forall|i: int| 0 <= i < hs@.len() ==> host_check((#[trigger] hs@[i])@) is Ok {
        assert forall|i: int| 0 <= i < hs@.len() implies (#[trigger] check(i)) is Ok by {
            assert(host_check(hs@[i]@) is Ok);
        }
    }
    if forall|i: int| 0 <= i < hs@.len() ==> (#[trigger] check(i)) is Ok {
        assert forall|i: int| 0 <= i < hs@.len() implies host_check((#[trigger] hs@[i])@) is Ok by {
            assert(check(i) is Ok);
        }
    }
}

/// An address of four numbers is refused as an allowed host exactly where it is never trusted, and so is
/// the origin made of it.
pub proof fn law_untrusted_address_is_refused(
    hs: &[String],
    os: &[String],
    o: Seq<Seq<char>>,
    h: Result<(), String>,
    r: Result<(), String>,
)
    requires
        o.len() == 4,
        forall|i: int| 0 <= i < 4 ==> byte_text(#[trigger] o[i]),
        hs@.len() == 1,
        hs@[0]@ == dotted(o),
        os@.len() == 1,
        os@[0]@ == "https://"@ + dotted(o),
        call_ensures(validate_allowed_hosts, (hs,), h),
        call_ensures(validate_allowed_origins, (os,), r),
    ensures
        h is Ok <==> !never_trusted(worth(o[0]), worth(o[1]), worth(o[2]), worth(o[3])),
        r is Ok <==> !never_trusted(worth(o[0]), worth(o[1]), worth(o[2]), worth(o[3])),
{
    let s = dotted(o);
    lemma_dotted(o);
    lemma_dotted_chars(o);
    lemma_unpadded(s);
    lemma_lower(s);
    assert(lower(s) =~= s);
    lemma_find_char(s, ':');
    assert(!s.contains(':'));
    assert(normalized(s) == s);
    let check = host_checks(texts(hs@));
    lemma_first_error_ok(1, check);
    assert(texts(hs@)[0] == hs@[0]@);
    assert(check(0) == host_check(s));
    if check(0) is Ok {
        assert(forall|i: int| 0 <= i < 1 ==> (#[trigger] check(i)) is Ok);
    }
    let full = "https://"@ + s;
    reveal_strlit("https://");
    reveal_strlit("http://");
    assert(full[0] == 'h' && full.last() == s.last());
    lemma_unpadded(full);
    lemma_lower(full);
    assert forall|i: int| 0 <= i < full.len() implies #[trigger] lower(full)[i] == full[i] by {
        if i >= 8 {
            assert(full[i] == s[i - 8]);
            assert(lower(s)[i - 8] == s[i - 8]);
        }
    }
    assert(lower(full) =~= full);
    crate::text::lemma_after_prefix("https://"@, s);
    assert(without_slashes(s) == s);
    let oc = origin_checks(texts(os@));
    lemma_first_error_ok(1, oc);
    assert(texts(os@)[0] == os@[0]@);
    assert(oc(0) == origin_check(full));
    if oc(0) is Ok {
        assert(forall|i: int| 0 <= i < 1 ==> (#[trigger] oc(i)) is Ok);
    }
}

proof fn lemma_dotted_chars(o: Seq<Seq<char>>)
    requires
        o.len() == 4,
        forall|i: int| 0 <= i < 4 ==> byte_text(#[trigger] o[i]),
    ensures
        unpadded(dotted(o)),
        dotted(o)[0] != '[',
        dotted(o).last() != '/',
        forall|k: int| 0 <= k < dotted(o).len() ==> ('0' <= #[trigger] dotted(o)[k] <= '9' || dotted(o)[k] == '.'),
        !dotted(o).contains('/') && !dotted(o).contains('?') && !dotted(o).contains('#') && !dotted(o).contains('@')
            && !dotted(o).contains(':'),
{
    let s = dotted(o);
    assert(byte_text(o[0]) && byte_text(o[1]) && byte_text(o[2]) && byte_text(o[3]));
    let a = o[0].len() as int;
    let b = o[1].len() as int;
    let c = o[2].len() as int;
    assert forall|k: int| 0 <= k < s.len() implies ('0' <= #[trigger] s[k] <= '9' || s[k] == '.') by {
        if k < a {
            assert(s[k] == o[0][k]);
        } else if a < k < a + 1 + b {
            assert(s[k] == o[1][k - a - 1]);
        } else if a + 1 + b < k < a + b + c + 2 {
            assert(s[k] == o[2][k - a - b - 2]);
        } else if k > a + b + c + 2 {
            assert(s[k] == o[3][k - a - b - c - 3]);
        }
    }
    assert(s[0] == o[0][0]);
    assert(s.last() == o[3].last());
    assert('0' <= o[3][o[3].len() - 1] <= '9');
}

/// An origin without a scheme is refused.
pub proof fn law_origin_needs_scheme(os: &[String], r: Result<(), String>)
    requires
        os@.len() == 1,
        call_ensures(validate_allowed_origins, (os,), r),
        r is Ok,
    ensures
        exists|h: Seq<char>|
            lower(trimmed(os@[0]@)) == "https://"@ + h || lower(trimmed(os@[0]@)) == #[trigger] ("http://"@ + h),
{
    let oc = origin_checks(texts(os@));
    lemma_first_error_ok(1, oc);
    assert(texts(os@)[0] == os@[0]@);
    assert(oc(0) == origin_check(os@[0]@));
    let t = lower(trimmed(os@[0]@));
    match after_prefix(t, "https://"@) {
        Some(h) => {
            let u = "http://"@ + h;
            assert(t =~= "https://"@ + h);
        },
        None => {
            let h = after_prefix(t, "http://"@)->0;
            assert(t =~= "http://"@ + h);
        },
    }
}

} // verus!
