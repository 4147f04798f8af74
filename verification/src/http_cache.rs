//! The name under which the text of a page is kept: a hash of its address.

use blake2::{Blake2b, Digest};
use vstd::prelude::*;
use vstd::slice::slice_subrange;
use vstd::utf8::encode_utf8;

verus! {

/// The BLAKE2b digest of the data, as the `blake2` crate computes it with
/// its default parameters: 64 bytes.
pub uninterp spec fn blake2b(data: Seq<u8>) -> Seq<u8>;

/// The digit of the number, below sixteen, in lower-case hexadecimal.
pub open spec fn hex_digit(n: int) -> char {
    if n < 10 {
        ('0' as int + n) as char
    } else {
        ('a' as int + n - 10) as char
    }
}

/// The bytes in lower-case hexadecimal, two digits for each.
pub open spec fn hex_text(data: Seq<u8>) -> Seq<char>
    decreases data.len(),
{
    if data.len() == 0 {
        Seq::empty()
    } else {
        hex_text(data.drop_last()) + seq![hex_digit(data.last() as int / 16), hex_digit(data.last() as int % 16)]
    }
}

/// The name under which the page of an address is kept: the first twenty
/// bytes of the digest of the address in UTF-8, in hexadecimal.
pub open spec fn hash_name(url: Seq<char>) -> Seq<char> {
    hex_text(blake2b(encode_utf8(url)).take(20))
}

/// Feeds the data to a new `Blake2b` hasher and takes its result, which has
/// 64 bytes. The digest is named, not described.
#[verifier::external_body]
fn blake2b_digest(data: &[u8]) -> (r: Vec<u8>)
    ensures
        r@ == blake2b(data@),
        r@.len() == 64,
{
    let mut hasher = Blake2b::new();
    hasher.input(data);
    hasher.result().to_vec()
}

/// Calls `hex::encode`: every byte becomes two digits of lower-case
/// hexadecimal, the high one first.
#[verifier::external_body]
fn hex_encode(data: &[u8]) -> (r: String)
    ensures
        r@ == hex_text(data@),
{
    hex::encode(data)
}

/// The name that a digest gives: its first twenty bytes in hexadecimal, or
/// all of it where it is shorter.
pub fn digest_name(digest: &[u8]) -> (r: String)
    ensures
        r@ == hex_text(digest@.take(if digest@.len() < 20 { digest@.len() as int } else { 20 })),
{
    let n = if digest.len() < 20 {
        digest.len()
    } else {
        20
    };
    let head = slice_subrange(digest, 0, n);
    proof {
        assert(head@ =~= digest@.take(n as int));
    }
    hex_encode(head)
}

/// The name under which the page of an address is kept.
pub fn url_hash(url: &str) -> (r: String)
    ensures
        r@ == hash_name(url@),
        r@.len() == 40,
{
    let res = blake2b_digest(url.as_bytes());
    proof {
        lemma_hex_len(res@.take(20));
    }
    digest_name(res.as_slice())
}

/// Hexadecimal text has two digits for each byte.
proof fn lemma_hex_len(data: Seq<u8>)
    ensures
        hex_text(data).len() == 2 * data.len(),
    decreases data.len(),
{
    if data.len() > 0 {
        lemma_hex_len(data.drop_last());
    }
}

} // verus!
