//! Addresses of eight groups as texts.

use vstd::prelude::*;

use crate::ip::{
    double_colon, ending_groups, group, group_list, group_values, groups, hex_number, hex_value, parse_ip, v4_of,
    zeros, IpAddr,
};
use crate::text::{joined, lemma_split_joined, pieces};

verus! {

/// Whether a character is a hexadecimal digit.
pub open spec fn nibble(c: char) -> bool {
    '0' <= c <= '9' || 'a' <= c <= 'f' || 'A' <= c <= 'F'
}

/// What a hexadecimal digit is worth.
pub open spec fn nibble_worth(c: char) -> int {
    if '0' <= c <= '9' {
        c as int - '0' as int
    } else if 'a' <= c <= 'f' {
        10 + (c as int - 'a' as int)
    } else {
        10 + (c as int - 'A' as int)
    }
}

/// What hexadecimal digits are worth.
pub open spec fn hex_worth(s: Seq<char>) -> int
    decreases s.len(),
{
    if s.len() == 0 {
        0
    } else {
        16 * hex_worth(s.drop_last()) + nibble_worth(s.last())
    }
}

/// Whether a text is a group: one to four hexadecimal digits.
pub open spec fn group_text(s: Seq<char>) -> bool {
    1 <= s.len() <= 4 && forall|i: int| 0 <= i < s.len() ==> nibble(#[trigger] s[i])
}

/// Whether all texts of a list are groups.
pub open spec fn group_texts(g: Seq<Seq<char>>) -> bool {
    forall|i: int| 0 <= i < g.len() ==> group_text(#[trigger] g[i])
}

/// What the groups of a list are worth.
pub open spec fn worths(g: Seq<Seq<char>>) -> Seq<int> {
    Seq::new(g.len(), |i: int| hex_worth(g[i]))
}

proof fn lemma_hex(s: Seq<char>)
    requires
        forall|i: int| 0 <= i < s.len() ==> nibble(#[trigger] s[i]),
    ensures
        hex_number(s) == Some(hex_worth(s)),
    decreases s.len(),
{
    if s.len() > 0 {
        let front = s.drop_last();
        assert forall|i: int| 0 <= i < front.len() implies nibble(#[trigger] front[i]) by {
            assert(front[i] == s[i]);
        }
        lemma_hex(front);
        let c = s[s.len() - 1];
        assert(nibble(c));
        assert(hex_value(c) == Some(nibble_worth(c)));
    }
}

proof fn lemma_groups(g: Seq<Seq<char>>)
    requires
        group_texts(g),
    ensures
        groups(g) == Some(worths(g)),
    decreases g.len(),
{
    if g.len() > 0 {
        let front = g.drop_last();
        assert forall|i: int| 0 <= i < front.len() implies group_text(#[trigger] front[i]) by {
            assert(front[i] == g[i]);
        }
        lemma_groups(front);
        assert(group_text(g[g.len() - 1]));
        lemma_hex(g.last());
        assert(worths(front).push(hex_worth(g.last())) =~= worths(g));
    } else {
        assert(worths(g) =~= Seq::<int>::empty());
    }
}

/// Whether a text has no dots, and no colon at an end or beside another.
spec fn tidy(s: Seq<char>) -> bool {
    forall|k: int|
        0 <= k < s.len() ==> (#[trigger] s[k]) != '.' && (s[k] == ':' ==> 0 < k && k + 1 < s.len() && s[k - 1] != ':'
            && s[k + 1] != ':')
}

proof fn lemma_tidy_group(s: Seq<char>)
    requires
        group_text(s),
    ensures
        tidy(s),
        !s.contains(':'),
{
    assert forall|k: int| 0 <= k < s.len() implies (#[trigger] s[k]) != '.' && s[k] != ':' by {
        assert(nibble(s[k]));
    }
}

proof fn lemma_tidy(g: Seq<Seq<char>>)
    requires
        group_texts(g),
        g.len() > 0,
    ensures
        joined(g, seq![':']).len() > 0,
        tidy(joined(g, seq![':'])),
    decreases g.len(),
{
    assert(group_text(g[g.len() - 1]));
    lemma_tidy_group(g.last());
    if g.len() > 1 {
        let front = g.drop_last();
        assert forall|i: int| 0 <= i < front.len() implies group_text(#[trigger] front[i]) by {
            assert(front[i] == g[i]);
        }
        lemma_tidy(front);
        let a = joined(front, seq![':']);
        let b = g.last();
        let s = joined(g, seq![':']);
        assert(s =~= a + seq![':'] + b);
        assert(a[a.len() - 1] != ':');
        assert(!b.contains(':'));
        assert(b[0] != ':') by {
            assert(b.contains(b[0]));
        }
        assert forall|k: int| 0 <= k < s.len() implies (#[trigger] s[k]) != '.' && (s[k] == ':' ==> 0 < k && k + 1
            < s.len() && s[k - 1] != ':' && s[k + 1] != ':') by {
            if k < a.len() {
                assert(s[k] == a[k]);
                if k > 0 {
                    assert(s[k - 1] == a[k - 1]);
                }
                if k + 1 < a.len() {
                    assert(s[k + 1] == a[k + 1]);
                }
            } else if k > a.len() {
                let j = k - a.len() - 1;
                assert(s[k] == b[j]);
                assert(b.contains(b[j]));
            } else {
                assert(s[k - 1] == a[a.len() - 1]);
                assert(s[k + 1] == b[0]);
            }
        }
    }
}

proof fn lemma_no_dots(s: Seq<char>)
    requires
        forall|k: int| 0 <= k < s.len() ==> (#[trigger] s[k]) != '.',
    ensures
        v4_of(s) is None,
{
    assert(!s.contains('.'));
    let one = seq![s];
    assert forall|i: int| 0 <= i < one.len() implies !(#[trigger] one[i]).contains('.') by {}
    lemma_split_joined(one, '.');
    assert(joined(one, seq!['.']) == s);
    assert(pieces(s, '.').len() == 1);
}

proof fn lemma_none_double(s: Seq<char>)
    requires
        forall|k: int| 0 <= k < s.len() - 1 ==> !((#[trigger] s[k]) == ':' && s[k + 1] == ':'),
    ensures
        double_colon(s) is None,
    decreases s.len(),
{
    if s.len() >= 2 {
        assert(!(s[0] == ':' && s[0int + 1] == ':'));
        let t = s.skip(1);
        assert forall|k: int| 0 <= k < t.len() - 1 implies !((#[trigger] t[k]) == ':' && t[k + 1] == ':') by {
            assert(t[k] == s[k + 1] && t[k + 1] == s[k + 2]);
            assert(!(s[k + 1] == ':' && s[k + 1 + 1] == ':'));
        }
        lemma_none_double(t);
    }
}

proof fn lemma_first_double(s: Seq<char>, i: int)
    requires
        0 <= i < s.len() - 1,
        s[i] == ':' && s[i + 1] == ':',
        forall|k: int| 0 <= k < i ==> !((#[trigger] s[k]) == ':' && s[k + 1] == ':'),
    ensures
        double_colon(s) == Some(i),
    decreases i,
{
    if i > 0 {
        assert(!(s[0] == ':' && s[0int + 1] == ':'));
        let t = s.skip(1);
        assert(t[i - 1] == s[i] && t[i] == s[i + 1]);
        assert forall|k: int| 0 <= k < i - 1 implies !((#[trigger] t[k]) == ':' && t[k + 1] == ':') by {
            assert(t[k] == s[k + 1] && t[k + 1] == s[k + 2]);
            assert(!(s[k + 1] == ':' && s[k + 1 + 1] == ':'));
        }
        lemma_first_double(t, i - 1);
    }
}

proof fn lemma_list(g: Seq<Seq<char>>)
    requires
        group_texts(g),
    ensures
        group_list(joined(g, seq![':'])) == Some(worths(g)),
        ending_groups(joined(g, seq![':'])) == Some(worths(g)),
{
    let s = joined(g, seq![':']);
    lemma_groups(g);
    if g.len() > 0 {
        lemma_tidy(g);
        assert forall|i: int| 0 <= i < g.len() implies !(#[trigger] g[i]).contains(':') by {
            lemma_tidy_group(g[i]);
        }
        lemma_split_joined(g, ':');
        assert(group_text(g[g.len() - 1]));
        lemma_tidy_group(g.last());
        lemma_no_dots(g.last());
    } else {
        assert(worths(g) =~= Seq::<int>::empty());
    }
}

/// Eight groups with colons between them are the address of these groups.
pub proof fn law_eight_groups_are_read(s: &str, g: Seq<Seq<char>>, r: Option<IpAddr>)
    requires
        g.len() == 8,
        group_texts(g),
        s@ == joined(g, seq![':']),
        call_ensures(parse_ip, (s,), r),
    ensures
        r matches Some(IpAddr::V6 { groups }) && group_values(groups@) == worths(g),
{
    lemma_tidy(g);
    lemma_no_dots(s@);
    lemma_none_double(s@);
    lemma_list(g);
    assert(r->0@ is V6);
}

/// Two colons in a row stand for the groups of zero that are missing between what is before and behind.
pub proof fn law_two_colons_are_zeros(s: &str, a: Seq<Seq<char>>, b: Seq<Seq<char>>, r: Option<IpAddr>)
    requires
        group_texts(a),
        group_texts(b),
        s@ == joined(a, seq![':']) + seq![':', ':'] + joined(b, seq![':']),
        call_ensures(parse_ip, (s,), r),
    ensures
        r is Some <==> a.len() + b.len() <= 7,
        r matches Some(x) ==> (x matches IpAddr::V6 { groups } && groups@.len() == 8 && (forall|i: int|
            0 <= i < 8 ==> #[trigger] groups@[i] as int == if i < a.len() {
                hex_worth(a[i])
            } else if i < 8 - b.len() {
                0
            } else {
                hex_worth(b[i - (8 - b.len())])
            })),
{
    let x = joined(a, seq![':']);
    let y = joined(b, seq![':']);
    if a.len() > 0 {
        lemma_tidy(a);
    }
    if b.len() > 0 {
        lemma_tidy(b);
    }
    lemma_list(a);
    lemma_list(b);
    let i = x.len() as int;
    assert forall|k: int| 0 <= k < s@.len() implies (#[trigger] s@[k]) != '.' by {
        if k < i {
            assert(s@[k] == x[k]);
        } else if k >= i + 2 {
            assert(s@[k] == y[k - i - 2]);
        }
    }
    lemma_no_dots(s@);
    assert forall|k: int| 0 <= k < i implies !((#[trigger] s@[k]) == ':' && s@[k + 1] == ':') by {
        assert(s@[k] == x[k]);
        if k + 1 < i {
            assert(s@[k + 1] == x[k + 1]);
        }
    }
    lemma_first_double(s@, i);
    assert(s@.take(i) =~= x);
    assert(s@.skip(i + 2) =~= y);
    if a.len() + b.len() <= 7 {
        let n = (8 - a.len() - b.len()) as nat;
        let all = worths(a) + zeros(n) + worths(b);
        assert(r->0@ is V6);
        match r->0 {
            IpAddr::V6 { groups } => {
                assert(group_values(groups@) == all);
                assert forall|k: int| 0 <= k < 8 implies #[trigger] groups@[k] as int == if k < a.len() {
                    hex_worth(a[k])
                } else if k < 8 - b.len() {
                    0
                } else {
                    hex_worth(b[k - (8 - b.len())])
                } by {
                    assert(group_values(groups@)[k] == groups@[k] as int);
                }
            },
            _ => {},
        }
    }
}

} // verus!
