//! Texts: their ends, their pieces, their words and their order.

use vstd::prelude::*;

use crate::laws::numbers::{digits, lemma_decimal, lemma_worth, worth};
use crate::order::{is_before, text_lt};
use crate::text::{
    all_digits, decimal, find_char, is_digit, is_white, join_path, join_texts, keep_nonempty, lemma_find_char,
    lemma_pieces_len, number, parse_number, pieces, same_ignoring_case, show_signed, split, split_once, split_white,
    strip_prefix, texts, to_lower, trim, trim_end, trim_start, trim_text, trimmed, white, word_state, words,
};

verus! {

/// White space: the characters that Unicode counts as such.
pub open spec fn space(c: char) -> bool {
    ||| c == '\t' || c == '\n' || c == '\u{b}' || c == '\u{c}' || c == '\r' || c == ' '
    ||| c == '\u{85}' || c == '\u{a0}' || c == '\u{1680}' || c == '\u{2028}' || c == '\u{2029}'
    ||| c == '\u{202f}' || c == '\u{205f}' || c == '\u{3000}'
    ||| '\u{2000}' <= c <= '\u{200a}'
}

pub proof fn lemma_space(c: char)
    ensures
        white(c) <==> space(c),
{
}

/// Which characters are white space.
pub proof fn law_white_space(c: char, r: bool)
    requires
        call_ensures(is_white, (c,), r),
    ensures
        r <==> space(c),
{
}

/// Whether a text is a part of another one, with nothing but white space around it and none at its ends.
pub open spec fn stripped(s: Seq<char>, t: Seq<char>) -> bool {
    &&& t.len() > 0 ==> !space(t[0]) && !space(t[t.len() - 1])
    &&& exists|i: int|
        {
            &&& 0 <= i <= i + t.len() <= s.len()
            &&& t == #[trigger] s.subrange(i, i + t.len())
            &&& forall|k: int| 0 <= k < i || i + t.len() <= k < s.len() ==> space(#[trigger] s[k])
        }
}

proof fn lemma_trim_start(s: Seq<char>) -> (n: int)
    ensures
        0 <= n <= s.len(),
        trim_start(s) == s.skip(n),
        forall|k: int| 0 <= k < n ==> space(#[trigger] s[k]),
        n < s.len() ==> !space(s[n]),
    decreases s.len(),
{
    if s.len() > 0 {
        lemma_space(s[0]);
    }
    if s.len() > 0 && white(s[0]) {
        let rest = s.skip(1);
        let m = lemma_trim_start(rest);
        assert(rest.skip(m) =~= s.skip(m + 1));
        assert forall|k: int| 0 <= k < m + 1 implies space(#[trigger] s[k]) by {
            if k > 0 {
                assert(rest[k - 1] == s[k]);
            }
        }
        if m < rest.len() {
            assert(rest[m] == s[m + 1]);
        }
        m + 1
    } else {
        assert(s.skip(0) =~= s);
        0
    }
}

proof fn lemma_trim_end(s: Seq<char>) -> (n: int)
    ensures
        0 <= n <= s.len(),
        trim_end(s) == s.take(n),
        forall|k: int| n <= k < s.len() ==> space(#[trigger] s[k]),
        n > 0 ==> !space(s[n - 1]),
    decreases s.len(),
{
    if s.len() > 0 {
        lemma_space(s[s.len() - 1]);
    }
    if s.len() > 0 && white(s.last()) {
        let rest = s.drop_last();
        let m = lemma_trim_end(rest);
        assert(rest.take(m) =~= s.take(m));
        assert forall|k: int| m <= k < s.len() implies space(#[trigger] s[k]) by {
            if k < rest.len() {
                assert(rest[k] == s[k]);
            }
        }
        m
    } else {
        assert(s.take(s.len() as int) =~= s);
        s.len() as int
    }
}

pub proof fn lemma_trimmed(s: Seq<char>)
    ensures
        stripped(s, trimmed(s)),
{
    let n = lemma_trim_start(s);
    let mid = s.skip(n);
    let m = lemma_trim_end(mid);
    let t = mid.take(m);
    assert(t.len() == m);
    assert(t =~= s.subrange(n, n + t.len()));
    assert forall|k: int| 0 <= k < n || n + t.len() <= k < s.len() implies space(#[trigger] s[k]) by {
        if k >= n + t.len() {
            assert(mid[k - n] == s[k]);
        }
    }
    if t.len() > 0 {
        assert(t[0] == mid[0]);
        assert(t[t.len() - 1] == mid[m - 1]);
        assert(mid[0] == s[n]);
    }
}

/// Trimming takes the white space off both ends and nothing else, and what is blank counts as missing.
pub proof fn law_trim_strips_both_ends(s: &str, r: String, o: Option<String>, t: Option<String>)
    requires
        call_ensures(trim, (s,), r),
        call_ensures(trim_text, (&o,), t),
    ensures
        stripped(s@, r@),
        t is Some ==> o is Some && stripped(o->0@, t->0@) && t->0@.len() > 0,
        t is None && o is Some ==> stripped(o->0@, Seq::<char>::empty()),
{
    lemma_trimmed(s@);
    if o is Some {
        lemma_trimmed(o->0@);
        if t is None {
            assert(trimmed(o->0@) =~= Seq::<char>::empty());
        }
    }
}

proof fn lemma_whole(a: Seq<char>, c: char)
    requires
        forall|k: int| 0 <= k < a.len() ==> #[trigger] a[k] != c,
    ensures
        pieces(a, c) == seq![a],
    decreases a.len(),
{
    if a.len() == 0 {
        assert(a =~= Seq::<char>::empty());
    } else {
        let front = a.drop_last();
        assert forall|k: int| 0 <= k < front.len() implies #[trigger] front[k] != c by {
            assert(front[k] == a[k]);
        }
        lemma_whole(front, c);
        assert(a[a.len() - 1] != c);
        assert(front.push(a.last()) =~= a);
        assert(seq![front].drop_last().push(front.push(a.last())) =~= seq![a]);
    }
}

proof fn lemma_first_piece(a: Seq<char>, b: Seq<char>, c: char)
    requires
        forall|k: int| 0 <= k < a.len() ==> #[trigger] a[k] != c,
    ensures
        pieces(a.push(c) + b, c) == seq![a] + pieces(b, c),
    decreases b.len(),
{
    let s = a.push(c) + b;
    if b.len() == 0 {
        assert(s =~= a.push(c));
        assert(s.drop_last() =~= a);
        lemma_whole(a, c);
        assert(pieces(s, c) =~= seq![a] + pieces(b, c));
    } else {
        let front = b.drop_last();
        lemma_first_piece(a, front, c);
        lemma_pieces_len(front, c);
        assert(s.drop_last() =~= a.push(c) + front);
        assert(s.last() == b.last());
        let p = pieces(front, c);
        assert((seq![a] + p).drop_last() =~= seq![a] + p.drop_last());
        assert((seq![a] + p).last() == p.last());
        assert(pieces(s, c) =~= seq![a] + pieces(b, c));
    }
}

/// A text without the separator is one piece. A text with one has the part before the first as its first
/// piece, and then the pieces of what follows.
pub proof fn law_split_cuts_at_each(a: &str, b: &str, s: &str, c: char, of_a: Vec<String>, of_b: Vec<String>, of_s: Vec<String>)
    requires
        call_ensures(split, (a, c), of_a),
        call_ensures(split, (b, c), of_b),
        call_ensures(split, (s, c), of_s),
        forall|k: int| 0 <= k < a@.len() ==> #[trigger] a@[k] != c,
        s@ == a@.push(c) + b@,
    ensures
        texts(of_a@) == seq![a@],
        texts(of_s@) == seq![a@] + texts(of_b@),
{
    lemma_whole(a@, c);
    lemma_first_piece(a@, b@, c);
}

/// A text is cut at the first occurrence of a character, and not at all where there is none.
pub proof fn law_split_once_cuts_at_the_first(s: &str, c: char, r: Option<(String, String)>)
    requires
        call_ensures(split_once, (s, c), r),
    ensures
        match r {
            Some((a, b)) => s@ == a@.push(c) + b@ && forall|k: int| 0 <= k < a@.len() ==> #[trigger] a@[k] != c,
            None => forall|k: int| 0 <= k < s@.len() ==> #[trigger] s@[k] != c,
        },
{
    lemma_find_char(s@, c);
    match r {
        Some((a, b)) => {
            let i = find_char(s@, c)->0;
            assert(s@ =~= a@.push(c) + b@);
            assert forall|k: int| 0 <= k < a@.len() implies #[trigger] a@[k] != c by {
                assert(a@[k] == s@[k]);
            }
        },
        None => {},
    }
}

proof fn lemma_word(s: Seq<char>)
    requires
        forall|k: int| 0 <= k < s.len() ==> !space(#[trigger] s[k]),
    ensures
        word_state(s) == (Seq::<Seq<char>>::empty(), s),
    decreases s.len(),
{
    if s.len() == 0 {
        assert(s =~= Seq::<char>::empty());
    } else {
        let front = s.drop_last();
        assert forall|k: int| 0 <= k < front.len() implies !space(#[trigger] front[k]) by {
            assert(front[k] == s[k]);
        }
        lemma_word(front);
        lemma_space(s[s.len() - 1]);
        assert(!space(s[s.len() - 1]));
        assert(front.push(s.last()) =~= s);
    }
}

proof fn lemma_words_apart(a: Seq<char>, w: char, b: Seq<char>)
    requires
        space(w),
    ensures
        word_state(a.push(w) + b).0 == words(a) + word_state(b).0,
        word_state(a.push(w) + b).1 == word_state(b).1,
    decreases b.len(),
{
    let s = a.push(w) + b;
    if b.len() == 0 {
        assert(s =~= a.push(w));
        assert(s.drop_last() =~= a);
        assert(word_state(s).0 =~= words(a) + word_state(b).0);
        assert(word_state(s).1 =~= word_state(b).1);
    } else {
        let front = b.drop_last();
        lemma_words_apart(a, w, front);
        assert(s.drop_last() =~= a.push(w) + front);
        assert(s.last() == b.last());
        assert(word_state(s).0 =~= words(a) + word_state(b).0);
    }
}

/// What holds no white space is one word, nothing has no words, and the words of what stands on both sides
/// of white space are those of the one and then those of the other.
pub proof fn law_words_are_apart(
    a: &str,
    w: char,
    b: &str,
    s: &str,
    of_a: Vec<String>,
    of_b: Vec<String>,
    of_s: Vec<String>,
)
    requires
        call_ensures(split_white, (a,), of_a),
        call_ensures(split_white, (b,), of_b),
        call_ensures(split_white, (s,), of_s),
        space(w),
        s@ == a@.push(w) + b@,
    ensures
        texts(of_s@) == texts(of_a@) + texts(of_b@),
        a@.len() == 0 ==> of_a@.len() == 0,
        a@.len() > 0 && (forall|k: int| 0 <= k < a@.len() ==> !space(#[trigger] a@[k])) ==> texts(of_a@) == seq![a@],
{
    lemma_words_apart(a@, w, b@);
    assert(words(s@) =~= words(a@) + words(b@));
    if a@.len() == 0 {
        assert(texts(of_a@).len() == 0);
    }
    if forall|k: int| 0 <= k < a@.len() ==> !space(#[trigger] a@[k]) {
        lemma_word(a@);
        assert(a@.len() > 0 ==> words(a@) =~= seq![a@]);
    }
}

/// A text is read as a number where it is made of digits, maybe behind a plus sign, and the number fits.
pub proof fn law_number_is_what_digits_are_worth(s: &str, r: Option<u64>)
    requires
        call_ensures(parse_number, (s,), r),
    ensures
        digits(s@) && worth(s@) <= u64::MAX ==> r is Some,
        digits(s@) && r is Some ==> r->0 == worth(s@),
        s@.len() > 0 && s@[0] == '+' && digits(s@.skip(1)) && worth(s@.skip(1)) <= u64::MAX ==> r is Some,
        s@.len() > 0 && s@[0] == '+' && r is Some ==> digits(s@.skip(1)) && r->0 == worth(s@.skip(1)),
        r is Some ==> digits(s@) || (s@[0] == '+' && digits(s@.skip(1))),
{
    let body = if s@.len() > 0 && s@[0] == '+' {
        s@.skip(1)
    } else {
        s@
    };
    if body.len() > 0 {
        if digits(body) {
            assert forall|i: int| 0 <= i < body.len() implies is_digit(#[trigger] body[i]) by {}
        }
        if all_digits(body) {
            lemma_worth(body);
            assert forall|i: int| 0 <= i < body.len() implies '0' <= #[trigger] body[i] <= '9' by {
                assert(is_digit(body[i]));
            }
        }
    }
    assert(r is Some ==> number(s@) is Some);
}

proof fn lemma_same_start(p: Seq<char>, a: Seq<char>, b: Seq<char>)
    ensures
        text_lt(p + a, p + b) == text_lt(a, b),
    decreases p.len(),
{
    if p.len() == 0 {
        assert(p + a =~= a && p + b =~= b);
    } else {
        lemma_same_start(p.skip(1), a, b);
        assert((p + a).skip(1) =~= p.skip(1) + a);
        assert((p + b).skip(1) =~= p.skip(1) + b);
    }
}

/// Texts are ordered by the first character in which they differ, and what a text begins with comes
/// before it.
pub proof fn law_texts_are_ordered(
    p: Seq<char>,
    x: char,
    y: char,
    s: Seq<char>,
    t: Seq<char>,
    a: &str,
    b: &str,
    c: &str,
    ab: bool,
    ba: bool,
    ca: bool,
    ac: bool,
)
    requires
        a@ == p.push(x) + s,
        b@ == p.push(y) + t,
        c@ == p,
        x < y,
        call_ensures(is_before, (a, b), ab),
        call_ensures(is_before, (b, a), ba),
        call_ensures(is_before, (c, a), ca),
        call_ensures(is_before, (a, c), ac),
    ensures
        ab && !ba,
        ca && !ac,
{
    let u = seq![x] + s;
    let v = seq![y] + t;
    assert(a@ =~= p + u);
    assert(b@ =~= p + v);
    assert(c@ =~= p + Seq::<char>::empty());
    lemma_same_start(p, u, v);
    lemma_same_start(p, v, u);
    lemma_same_start(p, Seq::<char>::empty(), u);
    lemma_same_start(p, u, Seq::<char>::empty());
}

/// What follows a prefix is what has to be put behind it to get the text back.
pub proof fn law_prefix_is_taken_off(s: &str, p: &str, r: Option<&str>, rest: Seq<char>)
    requires
        call_ensures(strip_prefix, (s, p), r),
    ensures
        r is Some ==> s@ == p@ + r->0@,
        s@ == p@ + rest ==> r is Some && r->0@ == rest,
{
    if r is Some {
        assert(s@ =~= p@ + r->0@);
    }
    if s@ == p@ + rest {
        assert(s@.take(p@.len() as int) =~= p@);
        assert(s@.skip(p@.len() as int) =~= rest);
    }
}

/// The path of a file in a directory has one slash between the two.
pub proof fn law_path_has_one_slash(dir: &str, name: &str, r: String)
    requires
        call_ensures(join_path, (dir, name), r),
        dir@.len() > 0,
    ensures
        dir@[dir@.len() - 1] == '/' ==> r@ == dir@ + name@,
        dir@[dir@.len() - 1] != '/' ==> r@ == dir@.push('/') + name@,
{
    reveal_strlit("/");
    assert(dir@ + "/"@ =~= dir@.push('/'));
}

/// Only the ASCII capitals change when a text is made small, each to its letter, and case is ignored
/// where two texts are the same after that.
pub proof fn law_capitals_are_made_small(a: &str, b: &str, x: String, y: String, r: bool, i: int)
    requires
        call_ensures(to_lower, (a,), x),
        call_ensures(to_lower, (b,), y),
        call_ensures(same_ignoring_case, (a, b), r),
        0 <= i < a@.len(),
    ensures
        x@.len() == a@.len(),
        'A' <= a@[i] <= 'Z' ==> x@[i] as int == a@[i] as int + ('a' as int - 'A' as int),
        !('A' <= a@[i] <= 'Z') ==> x@[i] == a@[i],
        r <==> x@ == y@,
{
}

/// Of a list the texts that are not empty are kept, in order: a text more at its end is kept or not and
/// changes nothing before it.
pub proof fn law_nonempty_texts_are_kept(v: &Vec<String>, w: &Vec<String>, x: String, of_v: Vec<String>, of_w: Vec<String>)
    requires
        w@ == v@.push(x),
        call_ensures(keep_nonempty, (v,), of_v),
        call_ensures(keep_nonempty, (w,), of_w),
    ensures
        v@.len() == 0 ==> of_v@.len() == 0,
        x@.len() > 0 ==> of_w@ == of_v@.push(x),
        x@.len() == 0 ==> of_w@ == of_v@,
{
    assert(w@.drop_last() =~= v@);
    assert(w@.last() == x);
}

/// Texts are joined with the separator between them: a text more at the end comes behind one.
pub proof fn law_joined_texts(v: &Vec<String>, w: &Vec<String>, x: String, sep: &str, of_v: String, of_w: String)
    requires
        w@ == v@.push(x),
        call_ensures(join_texts, (v, sep), of_v),
        call_ensures(join_texts, (w, sep), of_w),
    ensures
        v@.len() == 0 ==> of_v@.len() == 0 && of_w@ == x@,
        v@.len() > 0 ==> of_w@ == of_v@ + sep@ + x@,
{
    let a = texts(v@);
    let b = texts(w@);
    assert(b.len() == a.len() + 1);
    assert(b.drop_last() =~= a);
    assert(b.last() == x@);
}

/// A number below zero is written with a sign in front of its digits, any other without.
pub proof fn law_sign_is_shown(n: i64, r: String)
    requires
        call_ensures(show_signed, (n,), r),
    ensures
        n < 0 ==> r@[0] == '-' && digits(r@.skip(1)) && worth(r@.skip(1)) == -n,
        n >= 0 ==> digits(r@) && worth(r@) == n,
{
    if n < 0 {
        lemma_decimal((-n) as nat);
        assert(r@.skip(1) =~= decimal((-n) as nat));
    } else {
        lemma_decimal(n as nat);
    }
}

} // verus!
