//! Cron expressions: which texts are accepted, by the values that their fields have.

use vstd::prelude::*;

use crate::laws::numbers::{digits, lemma_worth, worth};
use crate::settings::validate::{
    cron_field_check, cron_field_checks, cron_item_check, cron_item_checks, cron_range_check, lemma_first_error_ok,
    validate_cron,
};
use crate::text::{
    all_digits, cut, find_char, joined, lemma_find_char, lemma_find_char_at, lemma_split_joined, number, pieces, white,
    word_state, words,
};

verus! {

/// The number that a text writes, with or without a plus sign.
pub open spec fn written(s: Seq<char>) -> Option<int> {
    if digits(s) {
        Some(worth(s))
    } else if s.len() > 0 && s[0] == '+' && digits(s.skip(1)) {
        Some(worth(s.skip(1)))
    } else {
        None
    }
}

/// Whether a number is a value of a field: the minutes 0 to 59, the hours 0 to 23, the days of a month
/// 1 to 31, the months 1 to 12 and the days of a week 0 to 6, in this order.
pub open spec fn in_field(i: int, n: int) -> bool {
    ||| i == 0 && 0 <= n <= 59
    ||| i == 1 && 0 <= n <= 23
    ||| i == 2 && 1 <= n <= 31
    ||| i == 3 && 1 <= n <= 12
    ||| i == 4 && 0 <= n <= 6
}

/// Whether a text stands for values of a field: all of them, one, or those from one to another.
pub open spec fn covers(i: int, s: Seq<char>) -> bool {
    ||| s == seq!['*']
    ||| written(s) is Some && in_field(i, written(s)->0)
    ||| exists|a: Seq<char>, b: Seq<char>|
        {
            &&& s == #[trigger] (a + seq!['-'] + b)
            &&& written(a) is Some
            &&& written(b) is Some
            &&& in_field(i, written(a)->0)
            &&& in_field(i, written(b)->0)
            &&& written(a)->0 <= written(b)->0
        }
}

/// Whether a text stands for values of a field, or for every so many of them.
pub open spec fn fits(i: int, s: Seq<char>) -> bool {
    ||| covers(i, s)
    ||| exists|a: Seq<char>, b: Seq<char>|
        {
            &&& s == #[trigger] (a + seq!['/'] + b)
            &&& covers(i, a)
            &&& written(b) is Some
            &&& 0 < written(b)->0 <= 4_294_967_295
        }
}

proof fn lemma_written(s: Seq<char>)
    ensures
        match written(s) {
            Some(n) => n >= 0 && number(s) == Some(n as nat),
            None => number(s) is None,
        },
{
    assert(digits(s) <==> s.len() > 0 && all_digits(s));
    if digits(s) {
        assert('0' <= s[0] <= '9');
        lemma_worth(s);
    } else if s.len() > 0 && s[0] == '+' {
        let t = s.skip(1);
        assert(digits(t) <==> t.len() > 0 && all_digits(t));
        if digits(t) {
            lemma_worth(t);
        }
    }
}

/// A text that writes a number holds digits and at most a plus sign.
proof fn lemma_written_chars(s: Seq<char>)
    requires
        written(s) is Some,
    ensures
        s.len() > 0,
        forall|k: int| 0 <= k < s.len() ==> ('0' <= #[trigger] s[k] <= '9' || s[k] == '+'),
{
    if !digits(s) {
        assert forall|k: int| 0 <= k < s.len() implies ('0' <= #[trigger] s[k] <= '9' || s[k] == '+') by {
            if k > 0 {
                assert(s.skip(1)[k - 1] == s[k]);
            }
        }
    }
}

/// Where the first part holds no such character, a text is cut behind it.
proof fn lemma_cut_at(a: Seq<char>, c: char, b: Seq<char>)
    requires
        forall|k: int| 0 <= k < a.len() ==> #[trigger] a[k] != c,
    ensures
        cut(a + seq![c] + b, c) == Some((a, b)),
{
    let s = a + seq![c] + b;
    assert forall|j: int| 0 <= j < a.len() implies s[j] != c by {
        assert(s[j] == a[j]);
    }
    lemma_find_char_at(s, c, a.len() as int);
    assert(s.take(a.len() as int) =~= a);
    assert(s.skip(a.len() as int + 1) =~= b);
}

proof fn lemma_cut_back(s: Seq<char>, c: char)
    ensures
        match cut(s, c) {
            Some((a, b)) => s == a + seq![c] + b,
            None => forall|k: int| 0 <= k < s.len() ==> #[trigger] s[k] != c,
        },
{
    lemma_find_char(s, c);
    match find_char(s, c) {
        Some(i) => {
            assert(s =~= s.take(i) + seq![c] + s.skip(i + 1));
        },
        None => {
            assert forall|k: int| 0 <= k < s.len() implies #[trigger] s[k] != c by {
                if s[k] == c {
                    assert(s.contains(c));
                }
            }
        },
    }
}

proof fn lemma_covers(i: int, s: Seq<char>, lo: nat, hi: nat)
    requires
        0 <= i < 5,
        forall|n: int| #[trigger] in_field(i, n) <==> lo <= n <= hi,
        hi <= 59,
    ensures
        cron_range_check(s, lo, hi) is Ok <==> covers(i, s),
{
    reveal_strlit("*");
    assert("*"@ =~= seq!['*']);
    if s != seq!['*'] {
        lemma_cut_back(s, '-');
        match cut(s, '-') {
            Some((a, b)) => {
                lemma_written(a);
                lemma_written(b);
                if written(s) is Some {
                    lemma_written_chars(s);
                    assert(s[a.len() as int] == '-');
                    assert(false);
                }
                if covers(i, s) {
                    let (x, y) = choose|x: Seq<char>, y: Seq<char>|
                        {
                            &&& s == #[trigger] (x + seq!['-'] + y)
                            &&& written(x) is Some
                            &&& written(y) is Some
                            &&& in_field(i, written(x)->0)
                            &&& in_field(i, written(y)->0)
                            &&& written(x)->0 <= written(y)->0
                        };
                    lemma_written_chars(x);
                    lemma_cut_at(x, '-', y);
                    assert(a == x && b == y);
                    assert(in_field(i, written(a)->0));
                    assert(in_field(i, written(b)->0));
                }
                if cron_range_check(s, lo, hi) is Ok {
                    assert(in_field(i, written(a)->0));
                    assert(in_field(i, written(b)->0));
                    assert(s == a + seq!['-'] + b);
                }
            },
            None => {
                lemma_written(s);
                assert forall|x: Seq<char>, y: Seq<char>| s != #[trigger] (x + seq!['-'] + y) by {
                    let t = x + seq!['-'] + y;
                    assert(t[x.len() as int] == '-');
                    if s == t {
                        assert(s[x.len() as int] == '-');
                    }
                }
                if written(s) is Some {
                    assert(in_field(i, written(s)->0) <==> lo <= written(s)->0 <= hi);
                }
            },
        }
    }
}

/// A text that covers values of a field holds no slash.
proof fn lemma_covers_chars(i: int, s: Seq<char>)
    requires
        covers(i, s),
    ensures
        s.len() > 0,
        forall|k: int| 0 <= k < s.len() ==> #[trigger] s[k] != '/',
{
    if s != seq!['*'] {
        if written(s) is Some && in_field(i, written(s)->0) {
            lemma_written_chars(s);
        } else {
            let (x, y) = choose|x: Seq<char>, y: Seq<char>|
                {
                    &&& s == #[trigger] (x + seq!['-'] + y)
                    &&& written(x) is Some
                    &&& written(y) is Some
                    &&& in_field(i, written(x)->0)
                    &&& in_field(i, written(y)->0)
                    &&& written(x)->0 <= written(y)->0
                };
            lemma_written_chars(x);
            lemma_written_chars(y);
            assert forall|k: int| 0 <= k < s.len() implies #[trigger] s[k] != '/' by {
                if k < x.len() {
                    assert(s[k] == x[k]);
                } else if k > x.len() {
                    assert(s[k] == y[k - x.len() - 1]);
                }
            }
        }
    }
}

proof fn lemma_fits(i: int, s: Seq<char>, lo: nat, hi: nat)
    requires
        0 <= i < 5,
        forall|n: int| #[trigger] in_field(i, n) <==> lo <= n <= hi,
        hi <= 59,
    ensures
        cron_item_check(s, lo, hi) is Ok <==> fits(i, s),
{
    lemma_cut_back(s, '/');
    lemma_covers(i, s, lo, hi);
    if covers(i, s) {
        lemma_covers_chars(i, s);
    }
    match cut(s, '/') {
        Some((a, b)) => {
            assert(s[a.len() as int] == '/');
            assert(!covers(i, s));
            lemma_written(b);
            lemma_covers(i, a, lo, hi);
            if fits(i, s) {
                let (x, y) = choose|x: Seq<char>, y: Seq<char>|
                    {
                        &&& s == #[trigger] (x + seq!['/'] + y)
                        &&& covers(i, x)
                        &&& written(y) is Some
                        &&& 0 < written(y)->0 <= 4_294_967_295
                    };
                lemma_covers_chars(i, x);
                lemma_cut_at(x, '/', y);
            }
            if cron_item_check(s, lo, hi) is Ok {
                assert(s == a + seq!['/'] + b);
            }
        },
        None => {
            assert forall|x: Seq<char>, y: Seq<char>| s != #[trigger] (x + seq!['/'] + y) by {
                let t = x + seq!['/'] + y;
                assert(t[x.len() as int] == '/');
                if s == t {
                    assert(s[x.len() as int] == '/');
                }
            }
        },
    }
}

/// A part without white space lengthens the word at the end of a text.
proof fn lemma_word_grows(s: Seq<char>, w: Seq<char>)
    requires
        forall|k: int| 0 <= k < w.len() ==> !white(#[trigger] w[k]),
    ensures
        word_state(s + w) == (word_state(s).0, word_state(s).1 + w),
    decreases w.len(),
{
    if w.len() == 0 {
        assert(s + w =~= s);
        assert(word_state(s).1 + w =~= word_state(s).1);
    } else {
        let v = w.drop_last();
        assert forall|k: int| 0 <= k < v.len() implies !white(#[trigger] v[k]) by {
            assert(v[k] == w[k]);
        }
        lemma_word_grows(s, v);
        assert((s + w).drop_last() =~= s + v);
        assert((s + w).last() == w[w.len() - 1]);
        assert((word_state(s).1 + v).push(w.last()) =~= word_state(s).1 + w);
    }
}

/// A word and a blank behind texts that end with a blank.
proof fn lemma_word_ends(s: Seq<char>, done: Seq<Seq<char>>, w: Seq<char>)
    requires
        word_state(s) == (done, Seq::<char>::empty()),
        w.len() > 0,
        forall|k: int| 0 <= k < w.len() ==> !white(#[trigger] w[k]),
    ensures
        word_state(s + w) == (done, w),
        word_state(s + w + seq![' ']) == (done.push(w), Seq::<char>::empty()),
{
    lemma_word_grows(s, w);
    assert(Seq::<char>::empty() + w =~= w);
    let t = s + w + seq![' '];
    assert(t.drop_last() =~= s + w);
    assert(t.last() == ' ' && white(' '));
}

/// Five texts with a blank between each two.
pub open spec fn spaced(f: Seq<Seq<char>>) -> Seq<char> {
    f[0] + seq![' '] + f[1] + seq![' '] + f[2] + seq![' '] + f[3] + seq![' '] + f[4]
}

proof fn lemma_spaced(f: Seq<Seq<char>>)
    requires
        f.len() == 5,
        forall|i: int| 0 <= i < 5 ==> (#[trigger] f[i]).len() > 0,
        forall|i: int, k: int| 0 <= i < 5 && 0 <= k < f[i].len() ==> !white(#[trigger] f[i][k]),
    ensures
        words(spaced(f)) == f,
{
    let e = Seq::<char>::empty();
    let b = seq![' '];
    assert(word_state(e) == (Seq::<Seq<char>>::empty(), e));
    lemma_word_ends(e, Seq::empty(), f[0]);
    assert(e + f[0] + b =~= f[0] + b);
    let s1 = f[0] + b;
    let d1 = Seq::<Seq<char>>::empty().push(f[0]);
    lemma_word_ends(s1, d1, f[1]);
    let s2 = s1 + f[1] + b;
    lemma_word_ends(s2, d1.push(f[1]), f[2]);
    let s3 = s2 + f[2] + b;
    lemma_word_ends(s3, d1.push(f[1]).push(f[2]), f[3]);
    let s4 = s3 + f[3] + b;
    lemma_word_ends(s4, d1.push(f[1]).push(f[2]).push(f[3]), f[4]);
    assert(d1.push(f[1]).push(f[2]).push(f[3]).push(f[4]) =~= f);
}

/// The fields of an expression as they are written: the items of each with commas between them.
pub open spec fn field_texts(items: Seq<Seq<Seq<char>>>) -> Seq<Seq<char>> {
    Seq::new(items.len(), |i: int| joined(items[i], seq![',']))
}

/// An expression of five fields is accepted exactly where every item of each field stands for values of
/// that field.
pub proof fn law_cron_accepts_values_of_fields(expr: &str, items: Seq<Seq<Seq<char>>>, r: Result<(), String>)
    requires
        items.len() == 5,
        forall|i: int, j: int| 0 <= i < 5 && 0 <= j < items[i].len() ==> !(#[trigger] items[i][j]).contains(','),
        forall|i: int| 0 <= i < 5 ==> (#[trigger] items[i]).len() > 0,
        forall|i: int| 0 <= i < 5 ==> (#[trigger] field_texts(items)[i]).len() > 0,
        forall|i: int, k: int|
            0 <= i < 5 && 0 <= k < field_texts(items)[i].len() ==> !white(#[trigger] field_texts(items)[i][k]),
        expr@ == spaced(field_texts(items)),
        call_ensures(validate_cron, (expr,), r),
    ensures
        r is Ok <==> forall|i: int, j: int|
            0 <= i < 5 && 0 <= j < items[i].len() ==> fits(i, #[trigger] items[i][j]),
{
    let f = field_texts(items);
    lemma_spaced(f);
    let check = cron_field_checks(f);
    lemma_first_error_ok(5, check);
    lemma_field(items, 0, 0, 59);
    lemma_field(items, 1, 0, 23);
    lemma_field(items, 2, 1, 31);
    lemma_field(items, 3, 1, 12);
    lemma_field(items, 4, 0, 6);
    assert(check(0) == cron_field_check(f[0], 0, 59));
    assert(check(1) == cron_field_check(f[1], 0, 23));
    assert(check(2) == cron_field_check(f[2], 1, 31));
    assert(check(3) == cron_field_check(f[3], 1, 12));
    assert(check(4) == cron_field_check(f[4], 0, 6));
    if forall|i: int, j: int| 0 <= i < 5 && 0 <= j < items[i].len() ==> fits(i, #[trigger] items[i][j]) {
        assert forall|i: int| 0 <= i < 5 implies (#[trigger] check(i)) is Ok by {
            assert(i == 0 || i == 1 || i == 2 || i == 3 || i == 4);
        }
    } else {
        let (i, j) = choose|i: int, j: int|
            0 <= i < 5 && 0 <= j < items[i].len() && !fits(i, #[trigger] items[i][j]);
        assert(i == 0 || i == 1 || i == 2 || i == 3 || i == 4);
        assert(!(check(i) is Ok));
    }
}

proof fn lemma_field(items: Seq<Seq<Seq<char>>>, i: int, lo: nat, hi: nat)
    requires
        0 <= i < 5,
        items.len() == 5,
        items[i].len() > 0,
        forall|j: int| 0 <= j < items[i].len() ==> !(#[trigger] items[i][j]).contains(','),
        forall|n: int| #[trigger] in_field(i, n) <==> lo <= n <= hi,
        hi <= 59,
    ensures
        cron_field_check(field_texts(items)[i], lo, hi) is Ok <==> forall|j: int|
            0 <= j < items[i].len() ==> fits(i, #[trigger] items[i][j]),
{
    let f = field_texts(items)[i];
    lemma_split_joined(items[i], ',');
    assert(pieces(f, ',') == items[i]);
    let check = cron_item_checks(f, lo, hi);
    lemma_first_error_ok(items[i].len(), check);
    assert forall|j: int| 0 <= j < items[i].len() implies (#[trigger] check(j) is Ok <==> fits(i, items[i][j])) by {
        lemma_fits(i, items[i][j], lo, hi);
    }
    if forall|j: int| 0 <= j < items[i].len() ==> fits(i, #[trigger] items[i][j]) {
        assert forall|j: int| 0 <= j < items[i].len() implies (#[trigger] check(j)) is Ok by {
            assert(fits(i, items[i][j]));
        }
    } else {
        let j = choose|j: int| 0 <= j < items[i].len() && !fits(i, #[trigger] items[i][j]);
        assert(!(check(j) is Ok));
    }
}

/// Five plain numbers are accepted exactly where the first is a minute, 0 to 59, the second an hour, 0 to
/// 23, the third a day of a month, 1 to 31, the fourth a month, 1 to 12, and the fifth a day of a week,
/// 0 to 6.
pub proof fn law_cron_accepts_plain_numbers(expr: &str, f: Seq<Seq<char>>, r: Result<(), String>)
    requires
        f.len() == 5,
        forall|i: int| 0 <= i < 5 ==> digits(#[trigger] f[i]),
        expr@ == spaced(f),
        call_ensures(validate_cron, (expr,), r),
    ensures
        r is Ok <==> {
            &&& 0 <= worth(f[0]) <= 59
            &&& 0 <= worth(f[1]) <= 23
            &&& 1 <= worth(f[2]) <= 31
            &&& 1 <= worth(f[3]) <= 12
            &&& 0 <= worth(f[4]) <= 6
        },
{
    let items = Seq::new(5, |i: int| seq![f[i]]);
    assert forall|i: int| 0 <= i < 5 implies #[trigger] field_texts(items)[i] == f[i] by {
        assert(items[i][0] == f[i]);
    }
    assert(field_texts(items) =~= f);
    assert forall|i: int, k: int| 0 <= i < 5 && 0 <= k < field_texts(items)[i].len() implies !white(
        #[trigger] field_texts(items)[i][k],
    ) by {
        assert(digits(f[i]));
        assert('0' <= f[i][k] <= '9');
    }
    assert forall|i: int, j: int| 0 <= i < 5 && 0 <= j < items[i].len() implies !(#[trigger] items[i][j]).contains(
        ',',
    ) by {
        assert(digits(f[i]));
        if items[i][j].contains(',') {
            let k = choose|k: int| 0 <= k < f[i].len() && f[i][k] == ',';
            assert('0' <= f[i][k] <= '9');
        }
    }
    law_cron_accepts_values_of_fields(expr, items, r);
    assert forall|i: int| 0 <= i < 5 implies (fits(i, #[trigger] f[i]) <==> in_field(i, worth(f[i]))) by {
        lemma_plain_fits(i, f[i]);
    }
    assert(digits(f[0]) && digits(f[1]) && digits(f[2]) && digits(f[3]) && digits(f[4]));
    if r is Ok {
        assert(fits(0, items[0][0]));
        assert(fits(1, items[1][0]));
        assert(fits(2, items[2][0]));
        assert(fits(3, items[3][0]));
        assert(fits(4, items[4][0]));
    }
    assert(fits(0, f[0]) <==> in_field(0, worth(f[0])));
    assert(fits(1, f[1]) <==> in_field(1, worth(f[1])));
    assert(fits(2, f[2]) <==> in_field(2, worth(f[2])));
    assert(fits(3, f[3]) <==> in_field(3, worth(f[3])));
    assert(fits(4, f[4]) <==> in_field(4, worth(f[4])));
    if in_field(0, worth(f[0])) && in_field(1, worth(f[1])) && in_field(2, worth(f[2])) && in_field(3, worth(f[3]))
        && in_field(4, worth(f[4])) {
        assert forall|i: int, j: int| 0 <= i < 5 && 0 <= j < items[i].len() implies fits(
            i,
            #[trigger] items[i][j],
        ) by {
            assert(i == 0 || i == 1 || i == 2 || i == 3 || i == 4);
            assert(items[i][j] == f[i]);
        }
    }
}

proof fn lemma_plain_fits(i: int, s: Seq<char>)
    requires
        0 <= i < 5,
        digits(s),
    ensures
        fits(i, s) <==> in_field(i, worth(s)),
{
    assert('0' <= s[0] <= '9');
    assert forall|x: Seq<char>, y: Seq<char>| s != #[trigger] (x + seq!['/'] + y) by {
        let t = x + seq!['/'] + y;
        assert(t[x.len() as int] == '/');
        if s == t {
            assert(s[x.len() as int] == '/');
        }
    }
    assert forall|x: Seq<char>, y: Seq<char>| s != #[trigger] (x + seq!['-'] + y) by {
        let t = x + seq!['-'] + y;
        assert(t[x.len() as int] == '-');
        if s == t {
            assert(s[x.len() as int] == '-');
        }
    }
    assert(seq!['*'][0] == '*');
}

/// An expression that is not made of five words is refused.
pub proof fn law_cron_has_five_fields(expr: &str, r: Result<(), String>)
    requires
        call_ensures(validate_cron, (expr,), r),
        words(expr@).len() != 5,
    ensures
        r is Err,
{
}

} // verus!
