//! SHA-1 checks of downloaded files: the digest comes from the `sha1` crate,
//! its text form from the `hex` crate, and the comparison is verified here.

use sha1::Digest;
use vstd::prelude::*;

use crate::text::{chars_eq_ignore_ascii_case, chars_of, spec_ascii_lower, spec_eq_ignore_ascii_case};

verus! {

/// The SHA-1 digest of `data`, as the `sha1` crate computes it.
pub uninterp spec fn spec_sha1(data: Seq<u8>) -> Seq<u8>;

/// Calls `sha1::Sha1::digest`. Claimed: the result is the SHA-1 digest of
/// `data` (named `spec_sha1`) and, as for every SHA-1 digest, 20 bytes long.
#[verifier::external_body]
fn sha1_digest(data: &[u8]) -> (r: Vec<u8>)
    ensures
        r@ == spec_sha1(data@),
        r@.len() == 20,
{
    sha1::Sha1::digest(data).to_vec()
}

/// A SHA-1 hasher of the `sha1` crate. Verus cannot take the declaration
/// of `sha1::Sha1` (a `CoreWrapper` bounded by `typenum` traits), so it is
/// held in a private field of this struct, and what it was fed is named by
/// `spec_hasher_input`.
#[verifier::external_body]
pub struct Sha1Hasher {
    inner: sha1::Sha1,
}

/// The bytes fed so far into a SHA-1 hasher.
pub uninterp spec fn spec_hasher_input(h: Sha1Hasher) -> Seq<u8>;

/// Calls `sha1::Sha1::new`. Claimed: the new hasher has been fed nothing.
#[verifier::external_body]
fn sha1_new() -> (h: Sha1Hasher)
    ensures
        spec_hasher_input(h) == Seq::<u8>::empty(),
{
    Sha1Hasher { inner: sha1::Sha1::new() }
}

/// Calls `Digest::update` on a SHA-1 hasher. Claimed: the hasher has then
/// been fed its earlier input followed by `chunk`.
#[verifier::external_body]
fn sha1_update(h: &mut Sha1Hasher, chunk: &[u8])
    ensures
        spec_hasher_input(*final(h)) == spec_hasher_input(*old(h)) + chunk@,
{
    h.inner.update(chunk)
}

/// Calls `Digest::finalize` on a SHA-1 hasher. Claimed: the result is the
/// SHA-1 digest of all it was fed (the same as `sha1::Sha1::digest` of those
/// bytes), 20 bytes long.
#[verifier::external_body]
fn sha1_finalize(h: Sha1Hasher) -> (r: Vec<u8>)
    ensures
        r@ == spec_sha1(spec_hasher_input(h)),
        r@.len() == 20,
{
    h.inner.finalize().to_vec()
}

/// The SHA-1 of a stream of bytes, fed chunk by chunk as they arrive.
pub struct StreamDigest {
    hasher: Sha1Hasher,
}

impl StreamDigest {
    /// The bytes fed so far.
    pub closed spec fn fed(&self) -> Seq<u8> {
        spec_hasher_input(self.hasher)
    }

    /// A digest that has been fed nothing.
    pub fn new() -> (r: StreamDigest)
        ensures
            r.fed() == Seq::<u8>::empty(),
    {
        StreamDigest { hasher: sha1_new() }
    }

    /// Feeds the next chunk of the stream.
    pub fn update(&mut self, chunk: &[u8])
        ensures
            final(self).fed() == old(self).fed() + chunk@,
    {
        sha1_update(&mut self.hasher, chunk);
    }

    /// The SHA-1 digest of everything fed.
    pub fn finish(self) -> (d: Vec<u8>)
        ensures
            d@ == spec_sha1(self.fed()),
            d@.len() == 20,
    {
        sha1_finalize(self.hasher)
    }
}

/// The lower-case hexadecimal digit for `n < 16`.
pub open spec fn spec_hex_digit(n: int) -> char {
    seq!['0', '1', '2', '3', '4', '5', '6', '7', '8', '9', 'a', 'b', 'c', 'd', 'e', 'f'][n]
}

/// `bytes` in lower-case hexadecimal, two digits per byte, high nibble first.
pub open spec fn spec_hex_lower(bytes: Seq<u8>) -> Seq<char>
    decreases bytes.len(),
{
    if bytes.len() == 0 {
        Seq::<char>::empty()
    } else {
        let b = bytes.last() as int;
        spec_hex_lower(bytes.drop_last()) + seq![spec_hex_digit(b / 16), spec_hex_digit(b % 16)]
    }
}

/// Calls `hex::encode`, which the crate documents as lower-case hexadecimal with
/// two digits per byte; its source takes the high nibble first.
#[verifier::external_body]
pub(crate) fn hex_encode(bytes: &[u8]) -> (r: String)
    ensures
        r@ == spec_hex_lower(bytes@),
{
    hex::encode(bytes)
}

/// Whether the text `expected` names the digest `digest`: its hexadecimal form
/// equals `expected` up to the case of ASCII letters.
pub open spec fn spec_digest_matches(digest: Seq<u8>, expected: Seq<char>) -> bool {
    spec_eq_ignore_ascii_case(spec_hex_lower(digest), expected)
}

/// Compares a computed digest with an expected hexadecimal text, ignoring the
/// case of its letters.
pub fn digest_matches(digest: &[u8], expected: &str) -> (r: bool)
    ensures
        r == spec_digest_matches(digest@, expected@),
{
    let hex = hex_encode(digest);
    let actual = chars_of(hex.as_str());
    let wanted = chars_of(expected);
    chars_eq_ignore_ascii_case(&actual, &wanted)
}

/// Whether `data` has the SHA-1 named by `expected` (in either letter case).
pub fn sha1_matches(data: &[u8], expected: &str) -> (r: bool)
    ensures
        r == spec_digest_matches(spec_sha1(data@), expected@),
{
    let digest = sha1_digest(data);
    digest_matches(digest.as_slice(), expected)
}

/// The ASCII upper-case form of `s`.
pub open spec fn spec_ascii_upper(s: Seq<char>) -> Seq<char> {
    s.map_values(|c: char| if 97 <= (c as u32) <= 122 { ((c as u32) - 32) as char } else { c })
}

/// A file is accepted under its own digest, whether the expected digest is
/// written in lower or in upper case.
pub proof fn lemma_own_digest_accepted(data: Seq<u8>)
    ensures
        spec_digest_matches(spec_sha1(data), spec_hex_lower(spec_sha1(data))),
        spec_digest_matches(spec_sha1(data), spec_ascii_upper(spec_hex_lower(spec_sha1(data)))),
{
    let h = spec_hex_lower(spec_sha1(data));
    let u = spec_ascii_upper(h);
    assert forall|i: int| 0 <= i < h.len() implies spec_ascii_lower(#[trigger] h[i])
        == spec_ascii_lower(u[i]) by {
        let c = h[i];
        if 97 <= (c as u32) <= 122 {
            assert(u[i] == ((c as u32) - 32) as char);
            assert((((c as u32) - 32) as char) as u32 == (c as u32) - 32);
        }
    }
}

} // verus!
