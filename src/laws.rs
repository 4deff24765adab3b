//! Laws of the checksum encoding, over the models that `checksum` and
//! `validate_address` are specified by.
use vstd::prelude::*;
use crate::ascii::{flip_case, is_hex_digit, is_letter, lemma_case_maps, lower_char, upper_char};
use crate::checksum::{
    digest_text, encoded, has_prefix, is_checksummed, is_well_formed, lowercase, payload_of,
    recase, uppercase, PAYLOAD_LEN,
};

verus! {

/// Recasing only looks at each character's lowercase form.
proof fn lemma_recase_by_lowercase(p: Seq<char>, q: Seq<char>, h: Seq<char>)
    requires
        lowercase(p) == lowercase(q),
    ensures
        recase(p, h) == recase(q, h),
{
    assert(p.len() == lowercase(p).len() && q.len() == lowercase(q).len());
    assert forall|i: int| 0 <= i < p.len() implies #[trigger] recase(p, h)[i] == recase(q, h)[i] by {
        assert(q.len() == p.len());
        assert(lowercase(p)[i] == lower_char(p[i]));
        assert(lowercase(q)[i] == lower_char(q[i]));
        lemma_case_maps(p[i]);
        lemma_case_maps(q[i]);
        assert(upper_char(p[i]) == upper_char(q[i]));
    }
    assert(recase(p, h) =~= recase(q, h));
}

/// Two addresses whose payloads agree up to case have the same encoding.
proof fn lemma_encoded_by_lowercase(a: Seq<char>, b: Seq<char>)
    requires
        lowercase(payload_of(a)) == lowercase(payload_of(b)),
    ensures
        encoded(a) == encoded(b),
{
    lemma_recase_by_lowercase(payload_of(a), payload_of(b), digest_text(payload_of(a)));
}

/// The encoding is well formed, and its payload is the original payload up to case.
proof fn lemma_encoded_payload(a: Seq<char>)
    requires
        is_well_formed(a),
    ensures
        payload_of(encoded(a)) == recase(payload_of(a), digest_text(payload_of(a))),
        is_well_formed(encoded(a)),
        lowercase(payload_of(encoded(a))) == lowercase(payload_of(a)),
{
    let p = payload_of(a);
    let r = recase(p, digest_text(p));
    assert(encoded(a)[0] == '0' && encoded(a)[1] == 'x');
    assert(payload_of(encoded(a)) =~= r);
    assert forall|i: int| 0 <= i < r.len() implies #[trigger] is_hex_digit(r[i]) by {
        assert(is_hex_digit(p[i]));
        lemma_case_maps(p[i]);
    }
    assert forall|i: int| 0 <= i < r.len() implies #[trigger] lowercase(r)[i] == lowercase(p)[i] by {
        lemma_case_maps(p[i]);
    }
    assert(lowercase(r) =~= lowercase(p));
}

/// Checksumming is idempotent: the encoding of an encoded address is itself.
pub proof fn lemma_checksum_idempotent(a: Seq<char>)
    requires
        is_well_formed(a),
    ensures
        is_well_formed(encoded(a)),
        encoded(encoded(a)) == encoded(a),
{
    lemma_encoded_payload(a);
    lemma_encoded_by_lowercase(encoded(a), a);
}

/// The case of the input does not matter: an address, its lowercase form and
/// its uppercase form all have the same encoding.
pub proof fn lemma_checksum_ignores_case(a: Seq<char>)
    requires
        is_well_formed(a),
    ensures
        is_well_formed(lowercase(a)),
        is_well_formed(uppercase(a)),
        encoded(lowercase(a)) == encoded(a),
        encoded(uppercase(a)) == encoded(a),
{
    let p = payload_of(a);
    let l = lowercase(a);
    let u = uppercase(a);
    if has_prefix(a) {
        assert(has_prefix(l) && has_prefix(u));
        assert(payload_of(l) =~= lowercase(p));
        assert(payload_of(u) =~= uppercase(p));
    } else {
        assert(a.len() == PAYLOAD_LEN);
        if has_prefix(l) {
            assert(l[1] == lower_char(a[1]));
            lemma_case_maps(a[1]);
            assert(is_hex_digit(p[1]));
        }
        if has_prefix(u) {
            assert(u[1] == upper_char(a[1]));
            lemma_case_maps(a[1]);
            assert(is_hex_digit(p[1]));
        }
        assert(payload_of(l) =~= lowercase(p));
        assert(payload_of(u) =~= uppercase(p));
    }
    assert forall|i: int| 0 <= i < p.len() implies #[trigger] is_hex_digit(lowercase(p)[i])
        && is_hex_digit(uppercase(p)[i]) && lowercase(lowercase(p))[i] == lowercase(p)[i]
        && lowercase(uppercase(p))[i] == lowercase(p)[i] by {
        assert(is_hex_digit(p[i]));
        lemma_case_maps(p[i]);
    }
    assert(lowercase(lowercase(p)) =~= lowercase(p));
    assert(lowercase(uppercase(p)) =~= lowercase(p));
    lemma_encoded_by_lowercase(l, a);
    lemma_encoded_by_lowercase(u, a);
}

/// The encoding of every well-formed address validates.
pub proof fn lemma_round_trip(a: Seq<char>)
    requires
        is_well_formed(a),
    ensures
        is_checksummed(encoded(a)),
{
    lemma_checksum_idempotent(a);
}

/// Flipping the case of any one letter of the payload of a checksummed
/// address yields an address that does not validate.
pub proof fn lemma_case_flip_detected(a: Seq<char>, i: int)
    requires
        is_checksummed(a),
        0 <= i < PAYLOAD_LEN,
        is_letter(a[i + 2]),
    ensures
        !is_checksummed(a.update(i + 2, flip_case(a[i + 2]))),
{
    let b = a.update(i + 2, flip_case(a[i + 2]));
    assert(a[0] == encoded(a)[0] && a[1] == encoded(a)[1]);
    assert(has_prefix(a));
    assert(has_prefix(b));
    let p = payload_of(a);
    let q = payload_of(b);
    assert(q =~= p.update(i, flip_case(a[i + 2])));
    lemma_case_maps(a[i + 2]);
    assert forall|j: int| 0 <= j < q.len() implies #[trigger] lowercase(q)[j] == lowercase(p)[j] by {
        lemma_case_maps(p[j]);
    }
    assert(lowercase(q) =~= lowercase(p));
    lemma_encoded_by_lowercase(b, a);
    assert(b[i + 2] != a[i + 2]);
}

} // verus!
