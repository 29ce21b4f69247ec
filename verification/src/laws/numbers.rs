//! Numbers as texts.

use vstd::prelude::*;

use crate::text::{all_digits, decimal, digit_char, digits_value, is_digit, show};

verus! {

/// Whether a text is made of decimal digits, one or more.
pub open spec fn digits(s: Seq<char>) -> bool {
    s.len() > 0 && forall|i: int| 0 <= i < s.len() ==> '0' <= #[trigger] s[i] <= '9'
}

/// What decimal digits are worth.
pub open spec fn worth(s: Seq<char>) -> int
    decreases s.len(),
{
    if s.len() == 0 {
        0
    } else {
        10 * worth(s.drop_last()) + (s.last() as int - '0' as int)
    }
}

/// What digits are worth is the number that they write.
pub proof fn lemma_worth(s: Seq<char>)
    requires
        all_digits(s),
    ensures
        worth(s) == digits_value(s),
    decreases s.len(),
{
    if s.len() > 0 {
        let t = s.drop_last();
        assert forall|i: int| 0 <= i < t.len() implies is_digit(#[trigger] t[i]) by {
            assert(t[i] == s[i]);
        }
        lemma_worth(t);
        assert(is_digit(s[s.len() - 1]));
    }
}

/// The notation of a number is made of digits, without zeros in front, and worth that number.
pub proof fn law_shown_number_is_worth_it(n: u64, r: String)
    requires
        call_ensures(show, (n,), r),
    ensures
        digits(r@),
        worth(r@) == n,
        r@[0] == '0' ==> n == 0 && r@.len() == 1,
{
    lemma_decimal(n as nat);
}

/// The notation of a number.
pub proof fn lemma_decimal(n: nat)
    ensures
        digits(decimal(n)),
        worth(decimal(n)) == n,
        decimal(n)[0] == '0' ==> n == 0 && decimal(n).len() == 1,
    decreases n,
{
    let d = decimal(n);
    let c = digit_char(n % 10);
    assert('0' <= c <= '9' && c as int - '0' as int == n % 10);
    if n < 10 {
        assert(d.drop_last() =~= Seq::<char>::empty());
        assert(worth(d.drop_last()) == 0);
    } else {
        lemma_decimal(n / 10);
        let front = decimal(n / 10);
        assert(d.drop_last() =~= front);
        assert forall|i: int| 0 <= i < d.len() implies '0' <= #[trigger] d[i] <= '9' by {
            if i < front.len() {
                assert(d[i] == front[i]);
            }
        }
        assert(d[0] == front[0]);
    }
}

} // verus!
