//! Keccak-256 digests in hexadecimal: event topics and function selectors.

use sha3::{Digest, Keccak256};
#[allow(unused_imports)]
use crate::{quantity, text};
use vstd::prelude::*;

verus! {

/// The Keccak-256 digest of a byte string.
pub uninterp spec fn keccak256_digest(bytes: Seq<u8>) -> Seq<u8>;

/// Two lower-case hexadecimal digits for each byte, high half first.
pub open spec fn hex_text(bytes: Seq<u8>) -> Seq<char> {
    Seq::new(
        2 * bytes.len(),
        |i: int|
            if i % 2 == 0 {
                quantity::digit_char((bytes[i / 2] / 16) as nat)
            } else {
                quantity::digit_char((bytes[i / 2] % 16) as nat)
            },
    )
}

/// The digest of a byte string in hexadecimal.
pub open spec fn digest_text(bytes: Seq<u8>) -> Seq<char> {
    hex_text(keccak256_digest(bytes))
}

/// The function selector of a signature: the first eight hexadecimal digits
/// of its digest.
pub open spec fn selector_text(signature: Seq<char>) -> Seq<char> {
    digest_text(vstd::utf8::encode_utf8(signature)).take(8)
}

/// A fresh `sha3::Keccak256`, fed `bytes` by `Digest::update` and closed by
/// `Digest::finalize`. Claimed: the output depends on the bytes alone, and it
/// is 32 bytes long.
#[verifier::external_body]
fn keccak256(bytes: &[u8]) -> (r: Vec<u8>)
    ensures
        r@ == keccak256_digest(bytes@),
        r@.len() == 32,
{
    let mut h = Keccak256::new();
    h.update(bytes);
    h.finalize().to_vec()
}

/// `hex::encode`. Claimed: two lower-case digits for each byte, in the order
/// of the bytes, the high half of a byte first.
#[verifier::external_body]
fn hex_encode(bytes: &[u8]) -> (r: String)
    ensures
        r@ == hex_text(bytes@),
{
    hex::encode(bytes)
}

/// A digit of a hexadecimal text is one of the sixteen lower-case digits.
pub proof fn lemma_hex_text_digit(bytes: Seq<u8>, i: int)
    requires
        0 <= i < 2 * bytes.len(),
    ensures
        '0' <= hex_text(bytes)[i] <= '9' || 'a' <= hex_text(bytes)[i] <= 'f',
        quantity::is_digit(hex_text(bytes)[i], 16),
{
}

/// Hexadecimal text is ASCII.
pub proof fn lemma_hex_text_ascii(bytes: Seq<u8>)
    ensures
        vstd::utf8::is_ascii_chars(hex_text(bytes)),
        text::byte_len(hex_text(bytes)) == 2 * bytes.len(),
{
    assert forall|i: int| 0 <= i < hex_text(bytes).len() implies '\0'
        <= #[trigger] hex_text(bytes)[i] <= '\u{7f}' by {
        lemma_hex_text_digit(bytes, i);
    }
    vstd::utf8::is_ascii_chars_encode_utf8(hex_text(bytes));
}

/// The Keccak-256 digest of `bytes`, as 64 hexadecimal digits.
pub fn keccak_hex(bytes: &[u8]) -> (r: String)
    ensures
        r@ == digest_text(bytes@),
        r@ == hex_text(keccak256_digest(bytes@)),
        r@.len() == 64,
{
    let digest = keccak256(bytes);
    hex_encode(digest.as_slice())
}

/// The selector that a digest in hexadecimal starts with: its first eight
/// digits.
pub fn selector_of(digest: &str) -> (r: String)
    requires
        vstd::utf8::is_ascii_chars(digest@),
        digest@.len() >= 8,
    ensures
        r@ == digest@.take(8),
{
    assert(digest@.subrange(0, 8) =~= digest@.take(8));
    String::from_str(digest.substring_ascii(0, 8))
}

/// The selector of a function signature, as eight hexadecimal digits.
pub fn keccak_selector(signature: &str) -> (r: String)
    ensures
        r@ == selector_text(signature@),
        r@ == hex_text(keccak256_digest(vstd::utf8::encode_utf8(signature@)).take(4)),
        r@.len() == 8,
        text::byte_len(r@) == 8,
{
    let full = keccak_hex(signature.as_bytes());
    let ghost digest = keccak256_digest(vstd::utf8::encode_utf8(signature@));
    proof {
        lemma_hex_text_ascii(digest);
        lemma_hex_text_ascii(digest.take(4));
        assert(full@.take(8) =~= hex_text(digest.take(4)));
    }
    selector_of(full.as_str())
}

/// Distinct byte strings of hexadecimal text are distinct texts.
pub proof fn law_hex_text_is_injective(a: Seq<u8>, b: Seq<u8>)
    requires
        hex_text(a) == hex_text(b),
    ensures
        a == b,
{
    assert(hex_text(a).len() == 2 * a.len() && hex_text(b).len() == 2 * b.len());
    assert(a.len() == b.len());
    assert forall|i: int| 0 <= i < a.len() implies a[i] == b[i] by {
        assert(hex_text(a)[2 * i] == hex_text(b)[2 * i]);
        assert(hex_text(a)[2 * i + 1] == hex_text(b)[2 * i + 1]);
        assert((2 * i) / 2 == i && (2 * i) % 2 == 0);
        assert((2 * i + 1) / 2 == i && (2 * i + 1) % 2 == 1);
        let (ah, al) = ((a[i] / 16) as nat, (a[i] % 16) as nat);
        let (bh, bl) = ((b[i] / 16) as nat, (b[i] % 16) as nat);
        assert(hex_text(a)[2 * i] == quantity::digit_char(ah));
        assert(hex_text(b)[2 * i] == quantity::digit_char(bh));
        assert(hex_text(a)[2 * i + 1] == quantity::digit_char(al));
        assert(hex_text(b)[2 * i + 1] == quantity::digit_char(bl));
        assert(ah == bh && al == bl);
    }
    assert(a =~= b);
}

/// Each byte stands as two of the digits 0 to 9 and a to f, its high half
/// first.
pub proof fn law_hex_text_by_byte(bytes: Seq<u8>, i: int)
    requires
        0 <= i < bytes.len(),
    ensures
        hex_text(bytes).len() == 2 * bytes.len(),
        hex_text(bytes)[2 * i] == "0123456789abcdef"@[(bytes[i] / 16) as int],
        hex_text(bytes)[2 * i + 1] == "0123456789abcdef"@[(bytes[i] % 16) as int],
{
    reveal_strlit("0123456789abcdef");
    assert((2 * i) / 2 == i && (2 * i) % 2 == 0);
    assert((2 * i + 1) / 2 == i && (2 * i + 1) % 2 == 1);
}

/// The digest text is that of the Keccak-256 digest of the bytes, and a
/// selector is the text of the first four bytes of its signature's digest.
pub proof fn law_selector_is_four_digest_bytes(signature: Seq<char>)
    ensures
        digest_text(vstd::utf8::encode_utf8(signature)) == hex_text(
            keccak256_digest(vstd::utf8::encode_utf8(signature)),
        ),
        selector_text(signature) == hex_text(
            keccak256_digest(vstd::utf8::encode_utf8(signature)),
        ).take(8),
{
}

} // verus!
