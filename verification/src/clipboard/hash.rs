use vstd::prelude::*;
use std::hash::BuildHasher;
use crate::text::{hex_digit, hex_padded, hex16_chars, string_from_chars};

verus! {

/// What `DefaultHasher` yields for a byte slice hashed into a fresh hasher.
pub uninterp spec fn default_hash(content: Seq<u8>) -> u64;

/// The 32-byte BLAKE3 digest of `input`.
pub uninterp spec fn blake3_digest(input: Seq<u8>) -> Seq<u8>;

/// Hashes `content` with `BuildHasher::hash_one` on a default-built
/// `std::collections::hash_map::DefaultHasher` (fixed keys, unlike `RandomState`),
/// which is what `content.hash(&mut DefaultHasher::new()); hasher.finish()`
/// computes. The contract names the result; SipHash itself is not stated. The
/// value is fixed for a given build of the standard library and target (a slice
/// hashes its length as a `usize` in native byte order); it is not promised
/// across releases of the standard library.
#[verifier::external_body]
fn default_hash_of(content: &[u8]) -> (h: u64)
    ensures
        h == default_hash(content@),
{
    std::hash::BuildHasherDefault::<std::collections::hash_map::DefaultHasher>::default().hash_one(content)
}

/// Two lowercase hexadecimal digits per byte, in order.
pub open spec fn hex_of_bytes(b: Seq<u8>) -> Seq<char>
    decreases b.len(),
{
    if b.len() == 0 {
        Seq::empty()
    } else {
        hex_of_bytes(b.drop_last()) + seq![hex_digit((b.last() / 16) as int), hex_digit((b.last() % 16) as int)]
    }
}

/// `blake3::hash(input).to_string()`: the crate's `Display` for `Hash` writes
/// `to_hex`, two lowercase hexadecimal digits for each of the 32 digest bytes.
/// The digest itself is named, not stated.
#[verifier::external_body]
fn blake3_hex(input: &[u8]) -> (r: String)
    ensures
        r@ == hex_of_bytes(blake3_digest(input@)),
        r@.len() == 64,
{
    blake3::hash(input).to_string()
}

/// The dedup key of a clipboard payload: 16 lowercase hex digits of its
/// `DefaultHasher` hash (`format!("{:016x}", ..)`).
pub open spec fn content_hash_of(content: Seq<u8>) -> Seq<char> {
    hex_padded(default_hash(content) as nat, 16)
}

/// Compute a content hash for clipboard deduplication.
///
/// Uses `std::hash::DefaultHasher` (SipHash-2-4, 64-bit), printed as 16
/// zero-padded lowercase hex digits. This is not cryptographic but provides
/// extremely low collision probability for clipboard-scale dedup.
pub fn content_hash(content: &[u8]) -> (r: String)
    ensures
        r@ == content_hash_of(content@),
{
    hash_hex(default_hash_of(content))
}

/// A 64-bit hash as 16 zero-padded lowercase hex digits (`format!("{:016x}", h)`).
pub fn hash_hex(h: u64) -> (r: String)
    ensures
        r@ == hex_padded(h as nat, 16),
{
    string_from_chars(&hex16_chars(h))
}

/// The BLAKE3 digest of `content` in lowercase hex, as the clipboard watcher
/// keys payloads.
pub fn blake3_content_key(content: &[u8]) -> (r: String)
    ensures
        r@ == hex_of_bytes(blake3_digest(content@)),
        r@.len() == 64,
{
    blake3_hex(content)
}

/// The content hash always has 16 characters, each a lowercase hex digit; equal
/// contents give equal hashes.
pub proof fn lemma_content_hash_shape(a: Seq<u8>, b: Seq<u8>)
    ensures
        content_hash_of(a).len() == 16,
        forall|i: int| 0 <= i < 16 ==> is_lower_hex(#[trigger] content_hash_of(a)[i]),
        a == b ==> content_hash_of(a) == content_hash_of(b),
{
    lemma_hex_padded_shape(default_hash(a) as nat, 16);
}

/// A lowercase hexadecimal digit.
pub open spec fn is_lower_hex(c: char) -> bool {
    ('0' <= c && c <= '9') || ('a' <= c && c <= 'f')
}

proof fn lemma_hex_padded_shape(n: nat, w: nat)
    ensures
        hex_padded(n, w).len() == w,
        forall|i: int| 0 <= i < w ==> is_lower_hex(#[trigger] hex_padded(n, w)[i]),
    decreases w,
{
    if w > 0 {
        lemma_hex_padded_shape(n / 16, (w - 1) as nat);
        let d = (n % 16) as int;
        assert(is_lower_hex(hex_digit(d))) by {
            if d < 10 {
                assert(((d + 48) as u32) as char == ((d + 48) as u32) as char);
            }
        }
    }
}

} // verus!
