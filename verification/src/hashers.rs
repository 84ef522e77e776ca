//! The content fingerprint of a file: the MD5 digest of its bytes, written
//! as lowercase hexadecimal text.
use vstd::prelude::*;

use crate::text::string_of;

verus! {

/// The sixteen bytes that `md5::compute` returns for `data`: the MD5 digest
/// of RFC 1321, which depends on the bytes alone.
pub uninterp spec fn md5_digest(data: Seq<u8>) -> Seq<u8>;

/// `md5::compute` gives the MD5 digest of `data`; the sixteen bytes are the
/// one field of the `Digest` it returns.
#[verifier::external_body]
fn compute_md5(data: &[u8]) -> (digest: [u8; 16])
    ensures
        digest@ == md5_digest(data@),
{
    md5::compute(data).0
}

/// The sixteen hexadecimal digits, lowercase, each at the place of its value.
pub open spec fn hex_digits() -> Seq<char> {
    seq!['0', '1', '2', '3', '4', '5', '6', '7', '8', '9', 'a', 'b', 'c', 'd', 'e', 'f']
}

/// `bytes` in hexadecimal: two digits for each byte, the high half first.
pub open spec fn hex_of(bytes: Seq<u8>) -> Seq<char>
    decreases bytes.len(),
{
    if bytes.len() == 0 {
        Seq::empty()
    } else {
        hex_of(bytes.drop_last()).push(hex_digits()[bytes.last() as int / 16]).push(
            hex_digits()[bytes.last() as int % 16],
        )
    }
}

/// The fingerprint of a file that holds `contents`.
pub open spec fn md5_hash_of(contents: Seq<u8>) -> Seq<char> {
    hex_of(md5_digest(contents))
}

/// Hexadecimal text has two digits for each byte and holds nothing but
/// lowercase hexadecimal digits.
pub proof fn lemma_hex_of(bytes: Seq<u8>)
    ensures
        hex_of(bytes).len() == 2 * bytes.len(),
        forall|i: int| 0 <= i < hex_of(bytes).len() ==> hex_digits().contains(#[trigger] hex_of(bytes)[i]),
    decreases bytes.len(),
{
    if bytes.len() > 0 {
        lemma_hex_of(bytes.drop_last());
        let high = bytes.last() as int / 16;
        let low = bytes.last() as int % 16;
        assert(hex_digits().contains(hex_digits()[high]));
        assert(hex_digits().contains(hex_digits()[low]));
    }
}

/// The hexadecimal digit of `value`.
pub fn hex_digit(value: u8) -> (digit: char)
    requires
        value < 16,
    ensures
        digit == hex_digits()[value as int],
{
    if value < 10 {
        (48u8 + value) as char
    } else {
        (87u8 + value) as char
    }
}

/// `bytes` as lowercase hexadecimal text.
pub fn to_hex(bytes: &[u8]) -> (text: String)
    ensures
        text@ == hex_of(bytes@),
{
    let mut digits: Vec<char> = Vec::new();
    let mut at: usize = 0;
    proof {
        assert(bytes@.take(0) =~= Seq::<u8>::empty());
    }
    while at < bytes.len()
        invariant
            at <= bytes@.len(),
            digits@ == hex_of(bytes@.take(at as int)),
        decreases bytes@.len() - at,
    {
        let byte = bytes[at];
        proof {
            assert(bytes@.take(at + 1).drop_last() =~= bytes@.take(at as int));
            assert(bytes@.take(at + 1).last() == byte);
        }
        digits.push(hex_digit(byte / 16));
        digits.push(hex_digit(byte % 16));
        at += 1;
    }
    proof {
        assert(bytes@.take(bytes@.len() as int) =~= bytes@);
        assert(digits@.subrange(0, digits@.len() as int) =~= digits@);
    }
    string_of(&digits, 0, digits.len())
}

/// Get the MD5 hash of a file from its contents: thirty-two lowercase
/// hexadecimal digits, the same for the same bytes.
pub fn get_md5_hash(contents: &[u8]) -> (md5_hash: String)
    ensures
        md5_hash@ == md5_hash_of(contents@),
        md5_hash@.len() == 32,
        forall|i: int| 0 <= i < 32 ==> hex_digits().contains(#[trigger] md5_hash@[i]),
{
    let digest = compute_md5(contents);
    proof {
        lemma_hex_of(digest@);
    }
    to_hex(digest.as_slice())
}

} // verus!
