//! Deriving a stable identity for an input byte sequence.
//!
//! The fingerprint of a byte sequence is the uppercase-hexadecimal
//! rendering of its 256-bit digest. Identical inputs always yield the
//! same fingerprint; distinct digests always yield distinct fingerprints.

use sha2::Digest;
use vstd::prelude::*;

verus! {

/// The 256-bit digest of a byte sequence; a function of the bytes alone.
pub uninterp spec fn sha256_of(bytes: Seq<u8>) -> Seq<u8>;

/// Relies on sha2::Sha256: the digest depends on the input bytes alone
/// and is always 32 bytes long.
#[verifier::external_body]
fn sha256_digest(bytes: &Vec<u8>) -> (r: Vec<u8>)
    ensures
        r@ == sha256_of(bytes@),
        r@.len() == 32,
{
    sha2::Sha256::digest(bytes.as_slice()).to_vec()
}

/// The uppercase-hexadecimal character for a value below sixteen.
pub open spec fn hex_digit_char(d: int) -> char
    recommends
        0 <= d < 16,
{
    if d == 0 {
        '0'
    } else if d == 1 {
        '1'
    } else if d == 2 {
        '2'
    } else if d == 3 {
        '3'
    } else if d == 4 {
        '4'
    } else if d == 5 {
        '5'
    } else if d == 6 {
        '6'
    } else if d == 7 {
        '7'
    } else if d == 8 {
        '8'
    } else if d == 9 {
        '9'
    } else if d == 10 {
        'A'
    } else if d == 11 {
        'B'
    } else if d == 12 {
        'C'
    } else if d == 13 {
        'D'
    } else if d == 14 {
        'E'
    } else {
        'F'
    }
}

/// Uppercase-hexadecimal rendering of a byte sequence: two digits per byte.
pub open spec fn hex_upper_of(bytes: Seq<u8>) -> Seq<char>
    decreases bytes.len(),
{
    if bytes.len() == 0 {
        Seq::<char>::empty()
    } else {
        hex_upper_of(bytes.drop_last()) + seq![
            hex_digit_char(bytes.last() as int / 16),
            hex_digit_char(bytes.last() as int % 16),
        ]
    }
}

pub(crate) fn hex_digit_str(d: u8) -> (r: &'static str)
    requires
        d < 16,
    ensures
        r@ =~= seq![hex_digit_char(d as int)],
{
    proof {
        reveal_strlit("0");
        reveal_strlit("1");
        reveal_strlit("2");
        reveal_strlit("3");
        reveal_strlit("4");
        reveal_strlit("5");
        reveal_strlit("6");
        reveal_strlit("7");
        reveal_strlit("8");
        reveal_strlit("9");
        reveal_strlit("A");
        reveal_strlit("B");
        reveal_strlit("C");
        reveal_strlit("D");
        reveal_strlit("E");
        reveal_strlit("F");
    }
    match d {
        0 => "0",
        1 => "1",
        2 => "2",
        3 => "3",
        4 => "4",
        5 => "5",
        6 => "6",
        7 => "7",
        8 => "8",
        9 => "9",
        10 => "A",
        11 => "B",
        12 => "C",
        13 => "D",
        14 => "E",
        _ => "F",
    }
}

/// Renders a byte sequence as uppercase hexadecimal.
pub fn hex_upper(bytes: &Vec<u8>) -> (r: String)
    ensures
        r@ == hex_upper_of(bytes@),
        r@.len() == 2 * bytes@.len(),
{
    proof {
        lemma_hex_upper_len(bytes@);
    }
    let mut s = String::new();
    let mut i: usize = 0;
    while i < bytes.len()
        invariant
            i <= bytes@.len(),
            s@ == hex_upper_of(bytes@.take(i as int)),
        decreases bytes@.len() - i,
    {
        let b = bytes[i];
        s.append(hex_digit_str(b / 16));
        s.append(hex_digit_str(b % 16));
        proof {
            assert(bytes@.take(i + 1 as int).drop_last() =~= bytes@.take(i as int));
            assert(bytes@.take(i + 1 as int).last() == bytes@[i as int]);
        }
        i = i + 1;
    }
    proof {
        assert(bytes@.take(bytes@.len() as int) =~= bytes@);
    }
    s
}

/// The length of the hexadecimal rendering is twice the byte count.
pub proof fn lemma_hex_upper_len(bytes: Seq<u8>)
    ensures
        hex_upper_of(bytes).len() == 2 * bytes.len(),
    decreases bytes.len(),
{
    if bytes.len() > 0 {
        lemma_hex_upper_len(bytes.drop_last());
    }
}

/// The fingerprint of a byte sequence: its digest rendered as uppercase
/// hexadecimal, used as the identity of a cache entry.
pub open spec fn spec_fingerprint(bytes: Seq<u8>) -> Seq<char> {
    hex_upper_of(sha256_of(bytes))
}

/// Computes the fingerprint of an input. Any input is accepted, the
/// empty sequence included, and the result is always 64 characters.
pub fn fingerprint(bytes: &Vec<u8>) -> (r: String)
    ensures
        r@ == spec_fingerprint(bytes@),
        r@.len() == 64,
{
    let digest = sha256_digest(bytes);
    hex_upper(&digest)
}

/// Determinism: the fingerprint depends on the input bytes alone, so
/// equal inputs always yield equal fingerprints.
pub proof fn lemma_fingerprint_deterministic(b1: Seq<u8>, b2: Seq<u8>)
    requires
        b1 == b2,
    ensures
        spec_fingerprint(b1) == spec_fingerprint(b2),
{
}

proof fn lemma_hex_digit_char_injective(d1: int, d2: int)
    requires
        0 <= d1 < 16,
        0 <= d2 < 16,
        hex_digit_char(d1) == hex_digit_char(d2),
    ensures
        d1 == d2,
{
}

/// Hexadecimal rendering is injective: distinct byte sequences have
/// distinct renderings.
pub proof fn lemma_hex_upper_injective(a: Seq<u8>, b: Seq<u8>)
    requires
        hex_upper_of(a) == hex_upper_of(b),
    ensures
        a == b,
    decreases a.len(),
{
    lemma_hex_upper_len(a);
    lemma_hex_upper_len(b);
    if a.len() == 0 {
        assert(a =~= b);
    } else {
        let ha = hex_upper_of(a.drop_last());
        let hb = hex_upper_of(b.drop_last());
        lemma_hex_upper_len(a.drop_last());
        lemma_hex_upper_len(b.drop_last());
        assert(hex_upper_of(a)[ha.len() as int] == hex_digit_char(a.last() as int / 16));
        assert(hex_upper_of(a)[ha.len() as int + 1] == hex_digit_char(a.last() as int % 16));
        assert(hex_upper_of(b)[hb.len() as int] == hex_digit_char(b.last() as int / 16));
        assert(hex_upper_of(b)[hb.len() as int + 1] == hex_digit_char(b.last() as int % 16));
        lemma_hex_digit_char_injective(a.last() as int / 16, b.last() as int / 16);
        lemma_hex_digit_char_injective(a.last() as int % 16, b.last() as int % 16);
        assert(a.last() == b.last());
        assert(ha =~= hex_upper_of(a).take(ha.len() as int));
        assert(hb =~= hex_upper_of(b).take(hb.len() as int));
        lemma_hex_upper_injective(a.drop_last(), b.drop_last());
        assert forall|i: int| 0 <= i < a.len() implies a[i] == b[i] by {
            if i < a.len() - 1 {
                assert(a[i] == a.drop_last()[i]);
                assert(b[i] == b.drop_last()[i]);
            } else {
                assert(a[i] == a.last());
                assert(b[i] == b.last());
            }
        }
        assert(a =~= b);
    }
}

/// Sensitivity, as far as it can be stated: inputs whose digests differ
/// have different fingerprints. That distinct inputs have distinct
/// digests is a probabilistic property of the digest and is not stated.
pub proof fn lemma_fingerprint_sensitive(b1: Seq<u8>, b2: Seq<u8>)
    requires
        sha256_of(b1) != sha256_of(b2),
    ensures
        spec_fingerprint(b1) != spec_fingerprint(b2),
{
    if spec_fingerprint(b1) == spec_fingerprint(b2) {
        lemma_hex_upper_injective(sha256_of(b1), sha256_of(b2));
    }
}

} // verus!
