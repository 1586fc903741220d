//! SHA-256 digests and their hexadecimal form.

use crate::text::{hex_digit, hex_digit_of, string_push};
use sha2::{Digest, Sha256};
use vstd::prelude::*;

verus! {

/// The SHA-256 digest of a byte string.
pub uninterp spec fn sha256(data: Seq<u8>) -> Seq<u8>;

/// `Sha256::new`, `Digest::update` and `Digest::finalize` of `sha2`: the
/// digest of `data`, which is 32 bytes long.
#[verifier::external_body]
pub(crate) fn sha256_digest(data: &[u8]) -> (digest: Vec<u8>)
    ensures
        digest@ == sha256(data@),
        digest@.len() == 32,
{
    let mut hasher = Sha256::new();
    hasher.update(data);
    hasher.finalize().to_vec()
}

/// The bytes written as two lower-case hexadecimal digits each, the high
/// half of a byte first.
pub open spec fn hex(bytes: Seq<u8>) -> Seq<char>
    decreases bytes.len(),
{
    if bytes.len() == 0 {
        Seq::empty()
    } else {
        hex(bytes.drop_last()).push(hex_digit(bytes.last() / 16)).push(hex_digit(bytes.last() % 16))
    }
}

/// The hexadecimal form is twice as long as the bytes.
pub proof fn lemma_hex_len(bytes: Seq<u8>)
    ensures
        hex(bytes).len() == 2 * bytes.len(),
    decreases bytes.len(),
{
    if bytes.len() > 0 {
        lemma_hex_len(bytes.drop_last());
    }
}

/// Different byte strings have different hexadecimal forms.
pub proof fn lemma_hex_injective(a: Seq<u8>, b: Seq<u8>)
    requires
        hex(a) == hex(b),
    ensures
        a == b,
    decreases a.len(),
{
    lemma_hex_len(a);
    lemma_hex_len(b);
    if a.len() == 0 {
        assert(a =~= b);
    } else {
        let (front_a, front_b) = (hex(a.drop_last()), hex(b.drop_last()));
        let (high_a, high_b) = (hex_digit(a.last() / 16), hex_digit(b.last() / 16));
        let (low_a, low_b) = (hex_digit(a.last() % 16), hex_digit(b.last() % 16));
        assert(hex(a) == front_a.push(high_a).push(low_a));
        assert(hex(b) == front_b.push(high_b).push(low_b));
        assert(low_a == low_b) by {
            assert(front_a.push(high_a).push(low_a).last() == low_a);
            assert(front_b.push(high_b).push(low_b).last() == low_b);
        }
        assert(front_a.push(high_a) == front_b.push(high_b)) by {
            assert(front_a.push(high_a).push(low_a).drop_last() =~= front_a.push(high_a));
            assert(front_b.push(high_b).push(low_b).drop_last() =~= front_b.push(high_b));
        }
        assert(high_a == high_b) by {
            assert(front_a.push(high_a).last() == high_a);
            assert(front_b.push(high_b).last() == high_b);
        }
        assert(front_a == front_b) by {
            assert(front_a.push(high_a).drop_last() =~= front_a);
            assert(front_b.push(high_b).drop_last() =~= front_b);
        }
        lemma_hex_injective(a.drop_last(), b.drop_last());
        assert(a.last() / 16 == b.last() / 16);
        assert(a.last() % 16 == b.last() % 16);
        assert(a.last() == b.last());
        assert(a =~= a.drop_last().push(a.last()));
        assert(b =~= b.drop_last().push(b.last()));
    }
}

/// Writes bytes in lower-case hexadecimal.
pub fn to_hex(bytes: &[u8]) -> (text: String)
    ensures
        text@ == hex(bytes@),
        text@.len() == 2 * bytes@.len(),
{
    let mut text = String::new();
    let mut i: usize = 0;
    while i < bytes.len()
        invariant
            i <= bytes@.len(),
            text@ == hex(bytes@.take(i as int)),
        decreases bytes@.len() - i,
    {
        let byte = bytes[i];
        string_push(&mut text, hex_digit_of(byte / 16));
        string_push(&mut text, hex_digit_of(byte % 16));
        proof {
            assert(bytes@.take(i + 1).drop_last() == bytes@.take(i as int));
        }
        i = i + 1;
    }
    proof {
        assert(bytes@.take(i as int) == bytes@);
        lemma_hex_len(bytes@);
    }
    text
}

/// The SHA-256 digest of `data` in lower-case hexadecimal: 64 digits.
pub fn sha256_hex(data: &[u8]) -> (text: String)
    ensures
        text@ == hex(sha256(data@)),
        text@.len() == 64,
{
    let digest = sha256_digest(data);
    to_hex(digest.as_slice())
}

} // verus!
