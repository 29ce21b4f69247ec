//! What a request is recognized by, and how it is written.

use vstd::prelude::*;

use crate::laws::groups::nibble_worth;
use crate::payload::{
    alike, hex, hex_digit, law_hex_has_two_digits_a_byte, law_requests_do_not_collide, measurable, payload_bytes,
    request_fields, sha256_digest, spec_payload_hash, to_hex,
};
use crate::session_spawn::StructuredSessionSpec;

verus! {

/// Two requests are recognized as one exactly where they are alike in every field.
pub proof fn law_alike_requests_are_recognized(
    a: &StructuredSessionSpec,
    b: &StructuredSessionSpec,
    of_a: Vec<u8>,
    of_b: Vec<u8>,
)
    requires
        call_ensures(payload_bytes, (a,), of_a),
        call_ensures(payload_bytes, (b,), of_b),
        forall|i: int| 0 <= i < request_fields(*a).len() ==> measurable((#[trigger] request_fields(*a)[i]).1),
        forall|i: int| 0 <= i < request_fields(*b).len() ==> measurable((#[trigger] request_fields(*b)[i]).1),
    ensures
        of_a@ == of_b@ <==> alike(*a, *b),
{
    law_requests_do_not_collide(*a, *b);
}

/// Bytes in hexadecimal are read back two digits at a time, the higher one first.
pub proof fn law_hex_is_read_back(v: &Vec<u8>, r: String, i: int)
    requires
        call_ensures(to_hex, (v,), r),
        0 <= i < v@.len(),
    ensures
        r@.len() == 2 * v@.len(),
        16 * nibble_worth(r@[2 * i]) + nibble_worth(r@[2 * i + 1]) == v@[i],
{
    lemma_hex(v@, i);
}

proof fn lemma_hex(s: Seq<u8>, i: int)
    requires
        0 <= i < s.len(),
    ensures
        hex(s).len() == 2 * s.len(),
        16 * nibble_worth(hex(s)[2 * i]) + nibble_worth(hex(s)[2 * i + 1]) == s[i],
    decreases s.len(),
{
    let front = s.drop_last();
    law_hex_has_two_digits_a_byte(s);
    law_hex_has_two_digits_a_byte(front);
    let n = s.len() - 1;
    if i < n {
        lemma_hex(front, i);
        assert(front[i] == s[i]);
        assert(hex(s)[2 * i] == hex(front)[2 * i]);
        assert(hex(s)[2 * i + 1] == hex(front)[2 * i + 1]);
    } else {
        let b = s[n] as int;
        assert(hex(s)[2 * n] == hex_digit(b / 16));
        assert(hex(s)[2 * n + 1] == hex_digit(b % 16));
        lemma_digit(b / 16);
        lemma_digit(b % 16);
    }
}

proof fn lemma_digit(n: int)
    requires
        0 <= n < 16,
    ensures
        nibble_worth(hex_digit(n)) == n,
{
}

/// A request is hashed as the digest of its bytes, in hexadecimal.
pub proof fn law_hash_is_of_the_bytes(
    a: &StructuredSessionSpec,
    b: &StructuredSessionSpec,
    of_a: Vec<u8>,
    of_b: Vec<u8>,
    x: String,
    y: String,
)
    requires
        call_ensures(payload_bytes, (a,), of_a),
        call_ensures(payload_bytes, (b,), of_b),
        call_ensures(spec_payload_hash, (a,), x),
        call_ensures(spec_payload_hash, (b,), y),
    ensures
        x@.len() == 64,
        of_a@ == of_b@ ==> x@ == y@,
        sha256_digest(of_a@) != sha256_digest(of_b@) ==> x@ != y@,
{
    let d = sha256_digest(of_a@);
    let e = sha256_digest(of_b@);
    law_hex_has_two_digits_a_byte(d);
    law_hex_has_two_digits_a_byte(e);
    if x@ == y@ {
        assert(d.len() == e.len());
        assert forall|i: int| 0 <= i < d.len() implies d[i] == e[i] by {
            lemma_hex(d, i);
            lemma_hex(e, i);
        }
        assert(d =~= e);
    }
}

} // verus!
