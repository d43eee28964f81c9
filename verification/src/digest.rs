//! SHA-256 digests and the spelling of bytes in hexadecimal.
use sha2::Digest;
use vstd::prelude::*;

use crate::text::{hex_char, hex_digit};

verus! {

/// The SHA-256 digest of `bytes`, as `sha2` computes it.
pub uninterp spec fn sha256_digest(bytes: Seq<u8>) -> Seq<u8>;

/// `sha2::Sha256::digest`: the digest of all of `bytes`, which is a function of the bytes
/// alone and always thirty-two bytes long. Nothing else is claimed of its value.
#[verifier::external_body]
pub(crate) fn sha256(bytes: &[u8]) -> (r: Vec<u8>)
    ensures
        r@ == sha256_digest(bytes@),
        r@.len() == 32,
{
    sha2::Sha256::digest(bytes).to_vec()
}

/// Two lower-case hexadecimal digits for each byte.
pub open spec fn hex_of(bytes: Seq<u8>) -> Seq<char>
    decreases bytes.len(),
{
    if bytes.len() == 0 {
        Seq::empty()
    } else {
        hex_of(bytes.drop_last()).push(hex_digit((bytes.last() / 16) as nat)).push(
            hex_digit((bytes.last() % 16) as nat),
        )
    }
}

pub proof fn lemma_hex_of_len(bytes: Seq<u8>)
    ensures
        hex_of(bytes).len() == 2 * bytes.len(),
    decreases bytes.len(),
{
    if bytes.len() > 0 {
        lemma_hex_of_len(bytes.drop_last());
    }
}

/// Append two lower-case hexadecimal digits for each byte to `out`.
pub fn push_hex_of(out: &mut String, bytes: &[u8])
    ensures
        final(out)@ == old(out)@ + hex_of(bytes@),
{
    let mut i: usize = 0;
    assert(out@ =~= old(out)@ + hex_of(bytes@.take(0)));
    while i < bytes.len()
        invariant
            i <= bytes@.len(),
            out@ == old(out)@ + hex_of(bytes@.take(i as int)),
        decreases bytes@.len() - i,
    {
        let b: u8 = bytes[i];
        let ghost before = out@;
        out.push(hex_char((b / 16) as u32));
        out.push(hex_char((b % 16) as u32));
        i = i + 1;
        proof {
            assert(bytes@.take(i as int).drop_last() =~= bytes@.take(i - 1));
            assert(bytes@.take(i as int).last() == b);
            assert(out@ =~= old(out)@ + hex_of(bytes@.take(i as int)));
        }
    }
    assert(bytes@.take(bytes@.len() as int) =~= bytes@);
}

/// Two lower-case hexadecimal digits for each byte.
pub fn hex_text(bytes: &[u8]) -> (r: String)
    ensures
        r@ == hex_of(bytes@),
{
    let mut out: String = String::new();
    push_hex_of(&mut out, bytes);
    assert(out@ =~= hex_of(bytes@));
    out
}

/// Two sequences of bytes that are written alike are alike, and each byte takes two digits,
/// the higher one first.
pub proof fn bytes_are_written_apart(bytes: Seq<u8>, other: Seq<u8>, i: int)
    ensures
        hex_of(bytes).len() == 2 * bytes.len(),
        0 <= i < bytes.len() ==> hex_of(bytes)[2 * i] == hex_digit((bytes[i] / 16) as nat)
            && hex_of(bytes)[2 * i + 1] == hex_digit((bytes[i] % 16) as nat),
        hex_of(bytes) == hex_of(other) ==> bytes == other,
    decreases bytes.len(),
{
    lemma_hex_of_len(bytes);
    lemma_hex_of_len(other);
    if 0 <= i < bytes.len() && i < bytes.len() - 1 {
        bytes_are_written_apart(bytes.drop_last(), other, i);
        assert(bytes.drop_last()[i] == bytes[i]);
        lemma_hex_of_len(bytes.drop_last());
    } else if i == bytes.len() - 1 {
        lemma_hex_of_len(bytes.drop_last());
    }
    if hex_of(bytes) == hex_of(other) && bytes.len() > 0 {
        lemma_hex_of_len(bytes.drop_last());
        lemma_hex_of_len(other.drop_last());
        let n = 2 * bytes.len() - 2;
        assert(hex_of(bytes).take(n as int) =~= hex_of(bytes.drop_last()));
        assert(hex_of(other).take(n as int) =~= hex_of(other.drop_last()));
        bytes_are_written_apart(bytes.drop_last(), other.drop_last(), 0);
        let a = bytes.last();
        let b = other.last();
        assert(hex_of(bytes)[n as int] == hex_digit((a / 16) as nat));
        assert(hex_of(other)[n as int] == hex_digit((b / 16) as nat));
        assert(hex_of(bytes)[n + 1] == hex_digit((a % 16) as nat));
        assert(hex_of(other)[n + 1] == hex_digit((b % 16) as nat));
        assert(a / 16 == b / 16 && a % 16 == b % 16);
        assert(bytes =~= bytes.drop_last().push(a));
        assert(other =~= other.drop_last().push(b));
    } else if hex_of(bytes) == hex_of(other) {
        assert(bytes =~= other);
    }
}

} // verus!
