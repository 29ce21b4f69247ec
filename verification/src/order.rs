//! The order of texts by their characters, and sorting by it.

use vstd::prelude::*;

use crate::text::{chars_of, same, texts};

verus! {

/// Whether one text comes before another: at the first character in which they differ, or
/// by being a proper prefix.
pub open spec fn text_lt(a: Seq<char>, b: Seq<char>) -> bool
    decreases a.len(),
{
    if b.len() == 0 {
        false
    } else if a.len() == 0 {
        true
    } else if a[0] != b[0] {
        a[0] < b[0]
    } else {
        text_lt(a.skip(1), b.skip(1))
    }
}

/// No text comes before itself.
pub proof fn lemma_lt_irreflexive(a: Seq<char>)
    ensures
        !text_lt(a, a),
    decreases a.len(),
{
    if a.len() > 0 {
        lemma_lt_irreflexive(a.skip(1));
    }
}

/// The order of texts is transitive.
pub proof fn lemma_lt_transitive(a: Seq<char>, b: Seq<char>, c: Seq<char>)
    requires
        text_lt(a, b),
        text_lt(b, c),
    ensures
        text_lt(a, c),
    decreases a.len(),
{
    if a.len() > 0 && b.len() > 0 && c.len() > 0 && a[0] == b[0] && b[0] == c[0] {
        lemma_lt_transitive(a.skip(1), b.skip(1), c.skip(1));
    }
}

/// Of two different texts one comes before the other.
pub proof fn lemma_lt_total(a: Seq<char>, b: Seq<char>)
    ensures
        text_lt(a, b) || text_lt(b, a) || a == b,
    decreases a.len(),
{
    if a.len() == 0 || b.len() == 0 {
        if a.len() == 0 && b.len() == 0 {
            assert(a =~= b);
        }
    } else if a[0] == b[0] {
        lemma_lt_total(a.skip(1), b.skip(1));
        if a.skip(1) == b.skip(1) {
            assert(a.len() == a.skip(1).len() + 1);
            assert(b.len() == b.skip(1).len() + 1);
            assert forall|i: int| 0 <= i < a.len() implies a[i] == b[i] by {
                if i > 0 {
                    assert(a.skip(1)[i - 1] == b.skip(1)[i - 1]);
                }
            }
            assert(a =~= b);
        }
    }
}

/// Whether `a` comes before `b`.
pub fn is_before(a: &str, b: &str) -> (r: bool)
    ensures
        r == text_lt(a@, b@),
{
    let v = chars_of(a);
    let w = chars_of(b);
    let mut i: usize = 0;
    assert(a@.skip(0) =~= a@);
    assert(b@.skip(0) =~= b@);
    loop
        invariant
            v@ == a@,
            w@ == b@,
            i <= v@.len(),
            i <= w@.len(),
            text_lt(a@, b@) == text_lt(a@.skip(i as int), b@.skip(i as int)),
        decreases v@.len() - i,
    {
        if i == w.len() {
            return false;
        }
        if i == v.len() {
            return true;
        }
        if v[i] != w[i] {
            return v[i] < w[i];
        }
        assert(a@.skip(i as int).skip(1) =~= a@.skip(i + 1));
        assert(b@.skip(i as int).skip(1) =~= b@.skip(i + 1));
        i = i + 1;
    }
}

/// Whether each text of a list comes before all that follow it.
pub open spec fn ascending(s: Seq<Seq<char>>) -> bool {
    forall|i: int, j: int| 0 <= i < j < s.len() ==> #[trigger] text_lt(s[i], s[j])
}

/// Two ascending lists of the same texts are the same list.
pub proof fn lemma_ascending_unique(a: Seq<Seq<char>>, b: Seq<Seq<char>>)
    requires
        ascending(a),
        ascending(b),
        forall|t: Seq<char>| #[trigger] a.contains(t) <==> b.contains(t),
    ensures
        a == b,
    decreases a.len(),
{
    if a.len() == 0 {
        if b.len() > 0 {
            assert(b.contains(b[0]));
            assert(a.contains(b[0]));
        }
        assert(a =~= b);
    } else {
        assert(a.contains(a[0]));
        let j = choose|j: int| 0 <= j < b.len() && b[j] == a[0];
        assert(b.contains(b[0]));
        assert(a.contains(b[0]));
        let i = choose|i: int| 0 <= i < a.len() && a[i] == b[0];
        if j > 0 {
            assert(text_lt(b[0], b[j]));
            if i > 0 {
                assert(text_lt(a[0], a[i]));
                lemma_lt_transitive(a[0], b[0], a[0]);
            }
            lemma_lt_irreflexive(a[0]);
        }
        assert(a[0] == b[0]);
        let x = a.skip(1);
        let y = b.skip(1);
        assert forall|p: int, q: int| 0 <= p < q < x.len() implies #[trigger] text_lt(x[p], x[q]) by {
            assert(text_lt(a[p + 1], a[q + 1]));
        }
        assert forall|p: int, q: int| 0 <= p < q < y.len() implies #[trigger] text_lt(y[p], y[q]) by {
            assert(text_lt(b[p + 1], b[q + 1]));
        }
        assert forall|t: Seq<char>| #[trigger] x.contains(t) <==> y.contains(t) by {
            lemma_skip_contains(a, t);
            lemma_skip_contains(b, t);
            assert(a.contains(t) <==> b.contains(t));
        }
        lemma_ascending_unique(x, y);
        assert(a =~= seq![a[0]] + x);
        assert(b =~= seq![b[0]] + y);
    }
}

proof fn lemma_skip_contains(a: Seq<Seq<char>>, t: Seq<char>)
    requires
        ascending(a),
        a.len() > 0,
    ensures
        a.skip(1).contains(t) <==> a.contains(t) && t != a[0],
{
    if a.skip(1).contains(t) {
        let k = choose|k: int| 0 <= k < a.skip(1).len() && a.skip(1)[k] == t;
        assert(a[k + 1] == t);
        assert(text_lt(a[0], a[k + 1]));
        lemma_lt_irreflexive(t);
    }
    if a.contains(t) && t != a[0] {
        let k = choose|k: int| 0 <= k < a.len() && a[k] == t;
        assert(a.skip(1)[k - 1] == t);
    }
}

/// Adds a text to an ascending list, where it is not in it yet.
pub fn add_ascending(v: &mut Vec<String>, s: String)
    requires
        ascending(texts(old(v)@)),
    ensures
        ascending(texts(final(v)@)),
        forall|t: Seq<char>| #[trigger] texts(final(v)@).contains(t) <==> texts(old(v)@).contains(t) || t == s@,
{
    let mut p: usize = 0;
    while p < v.len() && is_before(v[p].as_str(), s.as_str())
        invariant
            p <= v@.len(),
            v@ == old(v)@,
            forall|j: int| 0 <= j < p ==> text_lt(#[trigger] texts(v@)[j], s@),
        decreases v@.len() - p,
    {
        assert(texts(v@)[p as int] == v@[p as int]@);
        p = p + 1;
    }
    let ghost before = texts(v@);
    let ghost t = s@;
    if p < v.len() && same(v[p].as_str(), s.as_str()) {
        assert(texts(v@)[p as int] == s@);
        assert forall|u: Seq<char>| #[trigger] texts(v@).contains(u) <==> before.contains(u) || u == t by {
            if u == t {
                assert(texts(v@)[p as int] == u);
            }
        }
        return ;
    }
    proof {
        if p < v@.len() {
            lemma_lt_total(before[p as int], t);
        }
    }
    v.insert(p, s);
    proof {
        let after = texts(v@);
        assert(after =~= before.insert(p as int, t));
        assert forall|i: int, j: int| 0 <= i < j < after.len() implies #[trigger] text_lt(after[i], after[j]) by {
            let i0 = if i < p {
                i
            } else {
                i - 1
            };
            let j0 = if j < p {
                j
            } else {
                j - 1
            };
            if i != p && j != p {
                assert(text_lt(before[i0], before[j0]));
            } else if j == p {
                assert(text_lt(before[i], t));
            } else {
                assert(after[j] == before[j0]);
                if j0 > p {
                    assert(text_lt(before[p as int], before[j0]));
                    lemma_lt_transitive(t, before[p as int], before[j0]);
                }
            }
        }
        assert forall|u: Seq<char>| #[trigger] after.contains(u) <==> before.contains(u) || u == t by {
            if after.contains(u) {
                let i = choose|i: int| 0 <= i < after.len() && after[i] == u;
                if i < p {
                    assert(before[i] == u);
                } else if i > p {
                    assert(before[i - 1] == u);
                }
            }
            if before.contains(u) {
                let i = choose|i: int| 0 <= i < before.len() && before[i] == u;
                if i < p {
                    assert(after[i] == u);
                } else {
                    assert(after[i + 1] == u);
                }
            }
            if u == t {
                assert(after[p as int] == u);
            }
        }
    }
}

/// Puts the index `i` into a list of indices, behind all whose key does not come after its own.
pub open spec fn placed(o: Seq<int>, keys: Seq<Seq<char>>, i: int) -> Seq<int>
    decreases o.len(),
{
    if o.len() > 0 && text_lt(keys[i], keys[o.last()]) {
        placed(o.drop_last(), keys, i).push(o.last())
    } else {
        o.push(i)
    }
}

/// The indices below `n` in the order of their keys; equal keys keep their order.
pub open spec fn sorted_order(keys: Seq<Seq<char>>, n: nat) -> Seq<int>
    decreases n,
{
    if n == 0 {
        Seq::empty()
    } else {
        placed(sorted_order(keys, (n - 1) as nat), keys, n - 1)
    }
}

/// A list of texts in ascending order; equal texts stay together.
pub open spec fn sorted_texts(s: Seq<Seq<char>>) -> Seq<Seq<char>> {
    let o = sorted_order(s, s.len());
    Seq::new(o.len(), |k: int| s[o[k]])
}

proof fn lemma_placed(o: Seq<int>, keys: Seq<Seq<char>>, i: int)
    ensures
        placed(o, keys, i).len() == o.len() + 1,
        forall|x: int| #[trigger] placed(o, keys, i).contains(x) <==> o.contains(x) || x == i,
    decreases o.len(),
{
    let r = placed(o, keys, i);
    if o.len() > 0 && text_lt(keys[i], keys[o.last()]) {
        let front = o.drop_last();
        let p = placed(front, keys, i);
        lemma_placed(front, keys, i);
        assert forall|x: int| #[trigger] r.contains(x) <==> o.contains(x) || x == i by {
            if r.contains(x) {
                let k = choose|k: int| 0 <= k < r.len() && r[k] == x;
                if k == r.len() - 1 {
                    assert(o[o.len() - 1] == x);
                } else {
                    assert(p[k] == x);
                    assert(p.contains(x));
                    if front.contains(x) {
                        let m = choose|m: int| 0 <= m < front.len() && front[m] == x;
                        assert(o[m] == x);
                    }
                }
            }
            if o.contains(x) {
                let k = choose|k: int| 0 <= k < o.len() && o[k] == x;
                if k == o.len() - 1 {
                    assert(r[r.len() - 1] == x);
                } else {
                    assert(front[k] == x);
                    assert(p.contains(x));
                    let m = choose|m: int| 0 <= m < p.len() && p[m] == x;
                    assert(r[m] == x);
                }
            }
            if x == i {
                assert(p.contains(x));
                let m = choose|m: int| 0 <= m < p.len() && p[m] == x;
                assert(r[m] == x);
            }
        }
    } else {
        assert forall|x: int| #[trigger] r.contains(x) <==> o.contains(x) || x == i by {
            if o.contains(x) {
                let k = choose|k: int| 0 <= k < o.len() && o[k] == x;
                assert(r[k] == x);
            }
            if x == i {
                assert(r[o.len() as int] == x);
            }
        }
    }
}

/// Sorting keeps every index exactly once.
pub proof fn lemma_sorted_order_indices(keys: Seq<Seq<char>>, n: nat)
    ensures
        sorted_order(keys, n).len() == n,
        forall|x: int| #[trigger] sorted_order(keys, n).contains(x) <==> 0 <= x < n,
        forall|k: int| 0 <= k < n ==> 0 <= #[trigger] sorted_order(keys, n)[k] < n,
    decreases n,
{
    let r = sorted_order(keys, n);
    if n > 0 {
        lemma_sorted_order_indices(keys, (n - 1) as nat);
        lemma_placed(sorted_order(keys, (n - 1) as nat), keys, n - 1);
    }
    assert forall|k: int| 0 <= k < n implies 0 <= #[trigger] r[k] < n by {
        assert(r.contains(r[k]));
    }
}

/// Whether the keys of a list of indices never descend.
pub open spec fn in_order(o: Seq<int>, keys: Seq<Seq<char>>) -> bool {
    forall|a: int, b: int| 0 <= a < b < o.len() ==> !text_lt(#[trigger] keys[o[b]], #[trigger] keys[o[a]])
}

proof fn lemma_placed_in_order(o: Seq<int>, keys: Seq<Seq<char>>, i: int)
    requires
        in_order(o, keys),
    ensures
        in_order(placed(o, keys, i), keys),
    decreases o.len(),
{
    let r = placed(o, keys, i);
    if o.len() > 0 && text_lt(keys[i], keys[o.last()]) {
        let front = o.drop_last();
        let p = placed(front, keys, i);
        assert forall|a: int, b: int| 0 <= a < b < front.len() implies !text_lt(
            #[trigger] keys[front[b]],
            #[trigger] keys[front[a]],
        ) by {
            assert(front[a] == o[a] && front[b] == o[b]);
        }
        lemma_placed_in_order(front, keys, i);
        lemma_placed(front, keys, i);
        assert forall|a: int, b: int| 0 <= a < b < r.len() implies !text_lt(
            #[trigger] keys[r[b]],
            #[trigger] keys[r[a]],
        ) by {
            assert(r[a] == p[a]);
            if b < p.len() {
                assert(r[b] == p[b]);
            } else {
                assert(p.contains(p[a]));
                if p[a] == i {
                    if text_lt(keys[o.last()], keys[i]) {
                        lemma_lt_transitive(keys[i], keys[o.last()], keys[i]);
                        lemma_lt_irreflexive(keys[i]);
                    }
                } else {
                    let m = choose|m: int| 0 <= m < front.len() && front[m] == p[a];
                    assert(o[m] == p[a] && o[o.len() - 1] == o.last());
                }
            }
        }
    } else {
        assert forall|a: int, b: int| 0 <= a < b < r.len() implies !text_lt(
            #[trigger] keys[r[b]],
            #[trigger] keys[r[a]],
        ) by {
            assert(r[a] == o[a]);
            if b < o.len() {
                assert(r[b] == o[b]);
            } else {
                let last = o.len() - 1;
                assert(!text_lt(keys[i], keys[o[last]]));
                if a < last {
                    assert(!text_lt(keys[o[last]], keys[o[a]]));
                }
                if text_lt(keys[i], keys[o[a]]) {
                    lemma_lt_total(keys[o[a]], keys[o[last]]);
                    if text_lt(keys[o[a]], keys[o[last]]) {
                        lemma_lt_transitive(keys[i], keys[o[a]], keys[o[last]]);
                    }
                }
            }
        }
    }
}

/// Sorting puts the keys in order.
pub proof fn lemma_sorted_order_sorted(keys: Seq<Seq<char>>, n: nat)
    ensures
        in_order(sorted_order(keys, n), keys),
    decreases n,
{
    if n > 0 {
        lemma_sorted_order_sorted(keys, (n - 1) as nat);
        lemma_placed_in_order(sorted_order(keys, (n - 1) as nat), keys, n - 1);
    }
}

/// A vector of indices as mathematical integers.
pub open spec fn indices(v: Seq<usize>) -> Seq<int> {
    Seq::new(v.len(), |k: int| v[k] as int)
}

proof fn lemma_placed_at(o: Seq<int>, keys: Seq<Seq<char>>, i: int, p: int)
    requires
        0 <= p <= o.len(),
        p > 0 ==> !text_lt(keys[i], keys[o[p - 1]]),
        forall|k: int| p <= k < o.len() ==> text_lt(keys[i], #[trigger] keys[o[k]]),
    ensures
        placed(o, keys, i) == o.insert(p, i),
    decreases o.len(),
{
    if p < o.len() {
        let front = o.drop_last();
        assert forall|k: int| p <= k < front.len() implies text_lt(keys[i], #[trigger] keys[front[k]]) by {
            assert(front[k] == o[k]);
        }
        assert(text_lt(keys[i], keys[o[o.len() - 1]]));
        if p > 0 {
            assert(front[p - 1] == o[p - 1]);
        }
        lemma_placed_at(front, keys, i, p);
        assert(front.insert(p, i).push(o.last()) =~= o.insert(p, i));
    } else {
        assert(o.push(i) =~= o.insert(p, i));
    }
}

/// The indices of a list of texts in the order of the texts; equal texts keep their order.
pub fn sort_order(keys: &Vec<String>) -> (r: Vec<usize>)
    ensures
        indices(r@) == sorted_order(texts(keys@), keys@.len()),
        r@.len() == keys@.len(),
        forall|k: int| 0 <= k < r@.len() ==> (#[trigger] r@[k]) < keys@.len(),
{
    let ghost ks = texts(keys@);
    let mut o: Vec<usize> = Vec::new();
    let mut i: usize = 0;
    assert(indices(o@) =~= sorted_order(ks, 0));
    while i < keys.len()
        invariant
            ks == texts(keys@),
            i <= keys@.len(),
            indices(o@) == sorted_order(ks, i as nat),
            o@.len() == i,
            forall|k: int| 0 <= k < i ==> (#[trigger] o@[k]) < i,
        decreases keys@.len() - i,
    {
        let mut p: usize = o.len();
        while p > 0 && is_before(keys[i].as_str(), keys[o[p - 1]].as_str())
            invariant
                ks == texts(keys@),
                i < keys@.len(),
                o@.len() == i,
                p <= i,
                forall|k: int| 0 <= k < i ==> (#[trigger] o@[k]) < i,
                forall|k: int| p <= k < i ==> text_lt(ks[i as int], #[trigger] ks[indices(o@)[k]]),
            decreases p,
        {
            p = p - 1;
            assert(ks[indices(o@)[p as int]] == keys@[o@[p as int] as int]@);
        }
        let ghost before = indices(o@);
        proof {
            if p > 0 {
                assert(ks[before[p - 1]] == keys@[o@[p - 1] as int]@);
            }
            lemma_placed_at(before, ks, i as int, p as int);
        }
        o.insert(p, i);
        assert(indices(o@) =~= before.insert(p as int, i as int));
        i = i + 1;
        proof {
            lemma_sorted_order_indices(ks, i as nat);
            assert forall|k: int| 0 <= k < i implies (#[trigger] o@[k]) < i by {
                assert(indices(o@)[k] == sorted_order(ks, i as nat)[k]);
            }
        }
    }
    o
}

/// A finite set of texts that is not empty has a least one.
pub proof fn lemma_least(s: Set<Seq<char>>) -> (k: Seq<char>)
    requires
        s.finite(),
        s.len() > 0,
    ensures
        s.contains(k),
        forall|l: Seq<char>| #[trigger] s.contains(l) ==> !text_lt(l, k),
    decreases s.len(),
{
    let a = s.choose();
    let rest = s.remove(a);
    lemma_lt_irreflexive(a);
    if rest.len() == 0 {
        assert forall|l: Seq<char>| #[trigger] s.contains(l) implies !text_lt(l, a) by {
            if l != a {
                assert(rest.contains(l));
                assert(rest =~= Set::empty());
            }
        }
        a
    } else {
        let b = lemma_least(rest);
        if text_lt(a, b) {
            assert forall|l: Seq<char>| #[trigger] s.contains(l) implies !text_lt(l, a) by {
                if l != a {
                    assert(rest.contains(l));
                    if text_lt(l, a) {
                        lemma_lt_transitive(l, a, b);
                    }
                }
            }
            a
        } else {
            assert forall|l: Seq<char>| #[trigger] s.contains(l) implies !text_lt(l, b) by {
                if l != a {
                    assert(rest.contains(l));
                }
            }
            b
        }
    }
}

/// The texts of a finite set can be listed in ascending order.
pub proof fn lemma_ascending_exists(s: Set<Seq<char>>) -> (ks: Seq<Seq<char>>)
    requires
        s.finite(),
    ensures
        ascending(ks),
        forall|k: Seq<char>| #[trigger] ks.contains(k) <==> s.contains(k),
    decreases s.len(),
{
    if s.len() == 0 {
        s.lemma_len0_is_empty();
        Seq::empty()
    } else {
        let least = lemma_least(s);
        let rest = lemma_ascending_exists(s.remove(least));
        let ks = seq![least] + rest;
        assert forall|i: int, j: int| 0 <= i < j < ks.len() implies #[trigger] text_lt(ks[i], ks[j]) by {
            if i > 0 {
                assert(text_lt(rest[i - 1], rest[j - 1]));
            } else {
                let l = rest[j - 1];
                assert(rest.contains(l));
                assert(s.remove(least).contains(l));
                assert(s.contains(l));
                lemma_lt_total(least, l);
            }
        }
        assert forall|k: Seq<char>| #[trigger] ks.contains(k) <==> s.contains(k) by {
            if ks.contains(k) {
                let i = choose|i: int| 0 <= i < ks.len() && ks[i] == k;
                if i > 0 {
                    assert(rest[i - 1] == k);
                    assert(rest.contains(k));
                    assert(s.remove(least).contains(k));
                }
            }
            if s.contains(k) {
                if k == least {
                    assert(ks[0] == k);
                } else {
                    assert(s.remove(least).contains(k));
                    assert(rest.contains(k));
                    let i = choose|i: int| 0 <= i < rest.len() && rest[i] == k;
                    assert(ks[i + 1] == k);
                }
            }
        }
        ks
    }
}

} // verus!
