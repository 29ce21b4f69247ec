//! IP address literals: their text form, and which of them are loopback or not to be trusted.

use vstd::prelude::*;

use crate::text::{
    all_digits, chars_of, digits_value, is_digit, is_empty, lemma_pieces_len, pieces, split, string_of, texts,
};

verus! {

/// An address: four octets, or eight groups.
#[derive(Debug)]
pub enum IpAddr {
    V4 { a: u8, b: u8, c: u8, d: u8 },
    V6 { groups: Vec<u16> },
}

/// What an address stands for.
pub enum IpV {
    V4(int, int, int, int),
    V6(Seq<int>),
}

/// The groups of an address as integers.
pub open spec fn group_values(v: Seq<u16>) -> Seq<int> {
    Seq::new(v.len(), |i: int| v[i] as int)
}

impl IpAddr {
    pub open spec fn view(&self) -> IpV {
        match *self {
            IpAddr::V4 { a, b, c, d } => IpV::V4(a as int, b as int, c as int, d as int),
            IpAddr::V6 { groups } => IpV::V6(group_values(groups@)),
        }
    }
}

/// The number that an octet writes: one to three digits without a leading zero, at most 255.
pub open spec fn octet(s: Seq<char>) -> Option<int> {
    if 1 <= s.len() <= 3 && all_digits(s) && (s.len() > 1 ==> s[0] != '0') && digits_value(s) <= 255 {
        Some(digits_value(s) as int)
    } else {
        None
    }
}

/// The four octets that a text writes, parted by dots.
pub open spec fn v4_of(s: Seq<char>) -> Option<(int, int, int, int)> {
    let p = pieces(s, '.');
    if p.len() == 4 && octet(p[0]) is Some && octet(p[1]) is Some && octet(p[2]) is Some && octet(p[3]) is Some {
        Some((octet(p[0])->0, octet(p[1])->0, octet(p[2])->0, octet(p[3])->0))
    } else {
        None
    }
}

/// The value of a hexadecimal digit.
pub open spec fn hex_value(c: char) -> Option<int> {
    if '0' <= c <= '9' {
        Some(c as u32 - '0' as u32)
    } else if 'a' <= c <= 'f' {
        Some(c as u32 - 'a' as u32 + 10)
    } else if 'A' <= c <= 'F' {
        Some(c as u32 - 'A' as u32 + 10)
    } else {
        None
    }
}

/// The number that hexadecimal digits write.
pub open spec fn hex_number(s: Seq<char>) -> Option<int>
    decreases s.len(),
{
    if s.len() == 0 {
        Some(0)
    } else {
        match (hex_number(s.drop_last()), hex_value(s.last())) {
            (Some(n), Some(d)) => Some(n * 16 + d),
            _ => None,
        }
    }
}

/// The number that a group writes: one to four hexadecimal digits.
pub open spec fn group(s: Seq<char>) -> Option<int> {
    if 1 <= s.len() <= 4 {
        hex_number(s)
    } else {
        None
    }
}

/// The numbers that groups write.
pub open spec fn groups(parts: Seq<Seq<char>>) -> Option<Seq<int>>
    decreases parts.len(),
{
    if parts.len() == 0 {
        Some(Seq::empty())
    } else {
        match (groups(parts.drop_last()), group(parts.last())) {
            (Some(front), Some(n)) => Some(front.push(n)),
            _ => None,
        }
    }
}

/// The groups that a text writes, parted by colons; none in an empty text.
pub open spec fn group_list(s: Seq<char>) -> Option<Seq<int>> {
    if s.len() == 0 {
        Some(Seq::empty())
    } else {
        groups(pieces(s, ':'))
    }
}

/// The groups that a text writes whose last part may be four octets, which stand for two groups.
pub open spec fn ending_groups(s: Seq<char>) -> Option<Seq<int>> {
    if s.len() == 0 {
        Some(Seq::empty())
    } else {
        let parts = pieces(s, ':');
        match v4_of(parts.last()) {
            Some((a, b, c, d)) => match groups(parts.drop_last()) {
                Some(front) => Some(front.push(a * 256 + b).push(c * 256 + d)),
                None => None,
            },
            None => groups(parts),
        }
    }
}

/// The first place of two colons in a row.
pub open spec fn double_colon(s: Seq<char>) -> Option<int>
    decreases s.len(),
{
    if s.len() < 2 {
        None
    } else if s[0] == ':' && s[1] == ':' {
        Some(0)
    } else {
        match double_colon(s.skip(1)) {
            Some(i) => Some(i + 1),
            None => None,
        }
    }
}

/// As many zeros.
pub open spec fn zeros(n: nat) -> Seq<int> {
    Seq::new(n, |i: int| 0int)
}

/// The eight groups that a text writes. Two colons in a row stand for one or more groups of zero.
pub open spec fn v6_of(s: Seq<char>) -> Option<Seq<int>> {
    match double_colon(s) {
        None => match ending_groups(s) {
            Some(g) => if g.len() == 8 {
                Some(g)
            } else {
                None
            },
            None => None,
        },
        Some(i) => match (group_list(s.take(i)), ending_groups(s.skip(i + 2))) {
            (Some(head), Some(tail)) => if head.len() + tail.len() <= 7 {
                Some(head + zeros((8 - head.len() - tail.len()) as nat) + tail)
            } else {
                None
            },
            _ => None,
        },
    }
}

/// The address that a text writes.
pub open spec fn ip_of(s: Seq<char>) -> Option<IpV> {
    match v4_of(s) {
        Some((a, b, c, d)) => Some(IpV::V4(a, b, c, d)),
        None => match v6_of(s) {
            Some(g) => Some(IpV::V6(g)),
            None => None,
        },
    }
}

/// Whether an address is one of the machine itself.
pub open spec fn loopback(ip: IpV) -> bool {
    match ip {
        IpV::V4(a, _, _, _) => a == 127,
        IpV::V6(g) => g == zeros(7).push(1),
    }
}

/// Whether four octets are those of no machine, of a link, or of many machines.
pub open spec fn untrusted_v4(a: int, b: int, c: int, d: int) -> bool {
    (a == 0 && b == 0 && c == 0 && d == 0) || (a == 169 && b == 254) || 224 <= a <= 239
}

/// Whether an address is that of no machine, of a link, or of many machines, written as such or
/// as four octets in eight groups.
pub open spec fn untrusted(ip: IpV) -> bool {
    match ip {
        IpV::V4(a, b, c, d) => untrusted_v4(a, b, c, d),
        IpV::V6(g) => g == zeros(8) || 0xfe80 <= g[0] <= 0xfebf || g[0] >= 0xff00 || (g.take(5) == zeros(5) && g[5]
            == 0xffff && untrusted_v4(g[6] / 256, g[6] % 256, g[7] / 256, g[7] % 256)),
    }
}

fn parse_octet(s: &str) -> (r: Option<u8>)
    ensures
        match r {
            Some(n) => octet(s@) == Some(n as int),
            None => octet(s@) is None,
        },
{
    let v = chars_of(s);
    let n: usize = v.len();
    if n == 0 || n > 3 {
        return None;
    }
    if n > 1 && v[0] == '0' {
        return None;
    }
    let mut value: u32 = 0;
    let mut i: usize = 0;
    while i < n
        invariant
            v@ == s@,
            n == v@.len(),
            n <= 3,
            i <= n,
            forall|j: int| 0 <= j < i ==> is_digit(#[trigger] v@[j]),
            value == digits_value(v@.take(i as int)),
            i == 0 ==> value == 0,
            i == 1 ==> value <= 9,
            i == 2 ==> value <= 99,
            i == 3 ==> value <= 999,
        decreases n - i,
    {
        let c = v[i];
        if !('0' <= c && c <= '9') {
            assert(!is_digit(s@[i as int]));
            return None;
        }
        assert(v@.take(i + 1).drop_last() =~= v@.take(i as int));
        assert(v@.take(i + 1).last() == c);
        value = value * 10 + (c as u32 - '0' as u32);
        i = i + 1;
    }
    assert(v@.take(i as int) =~= v@);
    if value <= 255 {
        Some(value as u8)
    } else {
        None
    }
}

/// The four octets that a text writes.
fn parse_v4(s: &str) -> (r: Option<(u8, u8, u8, u8)>)
    ensures
        match r {
            Some((a, b, c, d)) => v4_of(s@) == Some((a as int, b as int, c as int, d as int)),
            None => v4_of(s@) is None,
        },
{
    let parts = split(s, '.');
    assert(texts(parts@).len() == parts@.len());
    if parts.len() != 4 {
        return None;
    }
    assert(texts(parts@)[0] == parts@[0]@);
    assert(texts(parts@)[1] == parts@[1]@);
    assert(texts(parts@)[2] == parts@[2]@);
    assert(texts(parts@)[3] == parts@[3]@);
    match (
        parse_octet(parts[0].as_str()),
        parse_octet(parts[1].as_str()),
        parse_octet(parts[2].as_str()),
        parse_octet(parts[3].as_str()),
    ) {
        (Some(a), Some(b), Some(c), Some(d)) => Some((a, b, c, d)),
        _ => None,
    }
}

fn hex_digit_value(c: char) -> (r: Option<u32>)
    ensures
        match r {
            Some(n) => hex_value(c) == Some(n as int) && n < 16,
            None => hex_value(c) is None,
        },
{
    if '0' <= c && c <= '9' {
        Some(c as u32 - '0' as u32)
    } else if 'a' <= c && c <= 'f' {
        Some(c as u32 - 'a' as u32 + 10)
    } else if 'A' <= c && c <= 'F' {
        Some(c as u32 - 'A' as u32 + 10)
    } else {
        None
    }
}

proof fn lemma_hex_prefix(s: Seq<char>, n: int)
    requires
        0 <= n <= s.len(),
        hex_number(s.take(n)) is None,
    ensures
        hex_number(s) is None,
    decreases s.len() - n,
{
    if n < s.len() {
        assert(s.take(n + 1).drop_last() =~= s.take(n));
        lemma_hex_prefix(s, n + 1);
    } else {
        assert(s.take(n) =~= s);
    }
}

fn parse_group(s: &str) -> (r: Option<u16>)
    ensures
        match r {
            Some(n) => group(s@) == Some(n as int),
            None => group(s@) is None,
        },
{
    let v = chars_of(s);
    let n: usize = v.len();
    if n == 0 || n > 4 {
        return None;
    }
    let mut value: u32 = 0;
    let mut i: usize = 0;
    assert(v@.take(0) =~= Seq::<char>::empty());
    while i < n
        invariant
            v@ == s@,
            n == v@.len(),
            n <= 4,
            i <= n,
            hex_number(v@.take(i as int)) == Some(value as int),
            i == 0 ==> value == 0,
            i == 1 ==> value <= 0xf,
            i == 2 ==> value <= 0xff,
            i == 3 ==> value <= 0xfff,
            i == 4 ==> value <= 0xffff,
        decreases n - i,
    {
        assert(v@.take(i + 1).drop_last() =~= v@.take(i as int));
        assert(v@.take(i + 1).last() == v@[i as int]);
        match hex_digit_value(v[i]) {
            Some(d) => {
                value = value * 16 + d;
            },
            None => {
                proof {
                    lemma_hex_prefix(s@, i + 1);
                }
                return None;
            },
        }
        i = i + 1;
    }
    assert(v@.take(i as int) =~= v@);
    Some(value as u16)
}

proof fn lemma_groups_prefix(parts: Seq<Seq<char>>, n: int)
    requires
        0 <= n <= parts.len(),
        groups(parts.take(n)) is None,
    ensures
        groups(parts) is None,
    decreases parts.len() - n,
{
    if n < parts.len() {
        assert(parts.take(n + 1).drop_last() =~= parts.take(n));
        lemma_groups_prefix(parts, n + 1);
    } else {
        assert(parts.take(n) =~= parts);
    }
}

/// The numbers that the first `n` groups write.
fn parse_groups(parts: &Vec<String>, n: usize) -> (r: Option<Vec<u16>>)
    requires
        n <= parts@.len(),
    ensures
        match r {
            Some(v) => groups(texts(parts@).take(n as int)) == Some(group_values(v@)),
            None => groups(texts(parts@).take(n as int)) is None,
        },
{
    let ghost all = texts(parts@).take(n as int);
    let mut out: Vec<u16> = Vec::new();
    let mut i: usize = 0;
    assert(all.take(0) =~= Seq::<Seq<char>>::empty());
    assert(group_values(out@) =~= Seq::<int>::empty());
    while i < n
        invariant
            n <= parts@.len(),
            all == texts(parts@).take(n as int),
            i <= n,
            groups(all.take(i as int)) == Some(group_values(out@)),
        decreases n - i,
    {
        assert(all.take(i + 1).drop_last() =~= all.take(i as int));
        assert(all.take(i + 1).last() == parts@[i as int]@);
        match parse_group(parts[i].as_str()) {
            Some(g) => {
                let ghost before = out@;
                out.push(g);
                assert(group_values(out@) =~= group_values(before).push(g as int));
            },
            None => {
                proof {
                    lemma_groups_prefix(all, i + 1);
                }
                return None;
            },
        }
        i = i + 1;
    }
    assert(all.take(i as int) =~= all);
    Some(out)
}

fn parse_group_list(s: &str) -> (r: Option<Vec<u16>>)
    ensures
        match r {
            Some(v) => group_list(s@) == Some(group_values(v@)),
            None => group_list(s@) is None,
        },
{
    if is_empty(s) {
        let out: Vec<u16> = Vec::new();
        assert(group_values(out@) =~= Seq::<int>::empty());
        return Some(out);
    }
    let parts = split(s, ':');
    assert(texts(parts@).take(parts@.len() as int) =~= texts(parts@));
    parse_groups(&parts, parts.len())
}

fn parse_ending_groups(s: &str) -> (r: Option<Vec<u16>>)
    ensures
        match r {
            Some(v) => ending_groups(s@) == Some(group_values(v@)),
            None => ending_groups(s@) is None,
        },
{
    if is_empty(s) {
        let out: Vec<u16> = Vec::new();
        assert(group_values(out@) =~= Seq::<int>::empty());
        return Some(out);
    }
    let parts = split(s, ':');
    let ghost all = texts(parts@);
    proof {
        lemma_pieces_len(s@, ':');
        assert(all.len() == parts@.len());
    }
    let n: usize = parts.len();
    assert(all.last() == parts@[n - 1]@);
    assert(all.take(n as int) =~= all);
    assert(all.take(n - 1) =~= all.drop_last());
    match parse_v4(parts[n - 1].as_str()) {
        Some((a, b, c, d)) => match parse_groups(&parts, n - 1) {
            Some(front) => {
                let mut out = front;
                let ghost before = out@;
                let high: u16 = (a as u16) * 256 + (b as u16);
                let low: u16 = (c as u16) * 256 + (d as u16);
                out.push(high);
                out.push(low);
                assert(group_values(out@) =~= group_values(before).push(high as int).push(low as int));
                Some(out)
            },
            None => None,
        },
        None => parse_groups(&parts, n),
    }
}

fn find_double_colon(v: &Vec<char>) -> (r: Option<usize>)
    ensures
        match r {
            Some(i) => double_colon(v@) == Some(i as int) && i + 2 <= v@.len(),
            None => double_colon(v@) is None,
        },
{
    let n: usize = v.len();
    let mut i: usize = 0;
    assert(v@.skip(0) =~= v@);
    while i < n && n - i >= 2
        invariant
            n == v@.len(),
            i <= n,
            double_colon(v@) == match double_colon(v@.skip(i as int)) {
                Some(k) => Some(k + i),
                None => None,
            },
        decreases n - i,
    {
        assert(v@.skip(i as int)[0] == v@[i as int]);
        assert(v@.skip(i as int)[1] == v@[i + 1]);
        assert(v@.skip(i as int).skip(1) =~= v@.skip(i + 1));
        if v[i] == ':' && v[i + 1] == ':' {
            return Some(i);
        }
        i = i + 1;
    }
    None
}

/// The eight groups that a text writes.
fn parse_v6(s: &str) -> (r: Option<Vec<u16>>)
    ensures
        match r {
            Some(v) => v6_of(s@) == Some(group_values(v@)) && v@.len() == 8,
            None => v6_of(s@) is None,
        },
{
    let v = chars_of(s);
    match find_double_colon(&v) {
        None => match parse_ending_groups(s) {
            Some(g) => if g.len() == 8 {
                Some(g)
            } else {
                None
            },
            None => None,
        },
        Some(i) => {
            let n: usize = v.len();
            let head_text = string_of(&v, 0, i);
            let tail_text = string_of(&v, i + 2, n);
            assert(head_text@ =~= s@.take(i as int));
            assert(tail_text@ =~= s@.skip(i + 2));
            match (parse_group_list(head_text.as_str()), parse_ending_groups(tail_text.as_str())) {
                (Some(head), Some(tail)) => {
                    let h: usize = head.len();
                    let t: usize = tail.len();
                    if h > 7 || t > 7 || h + t > 7 {
                        return None;
                    }
                    let ghost hv = group_values(head@);
                    let ghost tv = group_values(tail@);
                    let mut out = head;
                    let mut tail = tail;
                    let ghost tail0 = tail@;
                    let mut k: usize = 0;
                    while k < 8 - h - t
                        invariant
                            h + t <= 7,
                            k <= 8 - h - t,
                            hv.len() == h,
                            group_values(out@) == hv + zeros(k as nat),
                        decreases 8 - h - t - k,
                    {
                        let ghost before = out@;
                        out.push(0);
                        k = k + 1;
                        assert(group_values(out@) =~= group_values(before).push(0));
                        assert(group_values(out@) =~= hv + zeros(k as nat));
                    }
                    let ghost before = out@;
                    out.append(&mut tail);
                    assert(group_values(out@) =~= group_values(before) + tv);
                    Some(out)
                },
                _ => None,
            }
        },
    }
}

/// The address that a text writes.
pub fn parse_ip(s: &str) -> (r: Option<IpAddr>)
    ensures
        match r {
            Some(ip) => ip_of(s@) == Some(ip@) && (ip matches IpAddr::V6 { groups } ==> groups@.len() == 8),
            None => ip_of(s@) is None,
        },
{
    match parse_v4(s) {
        Some((a, b, c, d)) => Some(IpAddr::V4 { a, b, c, d }),
        None => match parse_v6(s) {
            Some(groups) => Some(IpAddr::V6 { groups }),
            None => None,
        },
    }
}

/// Whether the groups from one place up to another are zero.
fn are_zero(v: &Vec<u16>, n: usize) -> (r: bool)
    requires
        n <= v@.len(),
    ensures
        r == (group_values(v@).take(n as int) == zeros(n as nat)),
{
    let mut i: usize = 0;
    while i < n
        invariant
            n <= v@.len(),
            i <= n,
            forall|j: int| 0 <= j < i ==> v@[j] == 0,
        decreases n - i,
    {
        if v[i] != 0 {
            assert(group_values(v@).take(n as int)[i as int] != zeros(n as nat)[i as int]);
            return false;
        }
        i = i + 1;
    }
    assert(group_values(v@).take(n as int) =~= zeros(n as nat));
    true
}

impl IpAddr {
    /// Whether the address is one of the machine itself.
    pub fn is_loopback(&self) -> (r: bool)
        requires
            self matches IpAddr::V6 { groups } ==> groups@.len() == 8,
        ensures
            r == loopback(self@),
    {
        match self {
            IpAddr::V4 { a, .. } => *a == 127,
            IpAddr::V6 { groups } => {
                let r = are_zero(groups, 7) && groups[7] == 1;
                proof {
                    let g = group_values(groups@);
                    if r {
                        assert forall|i: int| 0 <= i < 8 implies g[i] == zeros(7).push(1)[i] by {
                            if i < 7 {
                                assert(g.take(7)[i] == zeros(7)[i]);
                            }
                        }
                        assert(g =~= zeros(7).push(1));
                    }
                    if g == zeros(7).push(1) {
                        assert(g.take(7) =~= zeros(7));
                        assert(g[7] == 1);
                    }
                }
                r
            },
        }
    }

    /// Whether the address is that of no machine, of a link, or of many machines.
    pub fn is_untrusted(&self) -> (r: bool)
        requires
            self matches IpAddr::V6 { groups } ==> groups@.len() == 8,
        ensures
            r == untrusted(self@),
    {
        match self {
            IpAddr::V4 { a, b, c, d } => is_untrusted_v4(*a, *b, *c, *d),
            IpAddr::V6 { groups } => {
                let first: u16 = groups[0];
                let all_zero = are_zero(groups, 8);
                let mapped = are_zero(groups, 5) && groups[5] == 0xffff;
                proof {
                    let g = group_values(groups@);
                    assert(g.take(8) =~= g);
                }
                all_zero || (0xfe80 <= first && first <= 0xfebf) || first >= 0xff00 || (mapped && is_untrusted_v4(
                    (groups[6] / 256) as u8,
                    (groups[6] % 256) as u8,
                    (groups[7] / 256) as u8,
                    (groups[7] % 256) as u8,
                ))
            },
        }
    }
}

fn is_untrusted_v4(a: u8, b: u8, c: u8, d: u8) -> (r: bool)
    ensures
        r == untrusted_v4(a as int, b as int, c as int, d as int),
{
    (a == 0 && b == 0 && c == 0 && d == 0) || (a == 169 && b == 254) || (224 <= a && a <= 239)
}

} // verus!
