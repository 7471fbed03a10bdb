//! Downloads: whether a downloaded file is accepted. Fetching and writing the
//! file run outside this library.

use vstd::prelude::*;

use crate::digest::{digest_matches, hex_encode, spec_digest_matches, spec_hex_lower, spec_sha1, StreamDigest};
use crate::minecraft::{spec_custom_error, McError};
use crate::text::{chars_of, extend_str, string_of};

verus! {

/// The outcome of a finished download whose content has SHA-1 `digest`:
/// accepted when no digest was expected or when it matches the expected one
/// (in any letter case); otherwise an error naming the address, the expected
/// and the computed digest.
pub fn check_digest(url: &str, digest: &[u8], expected_sha1: Option<&str>) -> (r: Result<
    (),
    McError,
>)
    ensures
        match expected_sha1 {
            None => r is Ok,
            Some(e) => if spec_digest_matches(digest@, e@) {
                r is Ok
            } else {
                r matches Err(err) && spec_custom_error(
                    err,
                    "SHA-1 mismatch for "@ + url@ + ": expected "@ + e@ + ", got "@ + spec_hex_lower(
                        digest@,
                    ),
                )
            },
        },
{
    match expected_sha1 {
        None => Ok(()),
        Some(expected) => {
            if digest_matches(digest, expected) {
                Ok(())
            } else {
                let computed = hex_encode(digest);
                let mut m = chars_of("SHA-1 mismatch for ");
                extend_str(&mut m, url);
                extend_str(&mut m, ": expected ");
                extend_str(&mut m, expected);
                extend_str(&mut m, ", got ");
                extend_str(&mut m, computed.as_str());
                Err(McError::Custom(string_of(&m)))
            }
        },
    }
}

/// The outcome of a finished download whose body was fed, chunk by chunk,
/// into `stream`: as `check_digest` decides on the SHA-1 of those bytes.
pub fn verify_download(url: &str, stream: StreamDigest, expected_sha1: Option<&str>) -> (r: Result<
    (),
    McError,
>)
    ensures
        match expected_sha1 {
            None => r is Ok,
            Some(e) => if spec_digest_matches(spec_sha1(stream.fed()), e@) {
                r is Ok
            } else {
                r matches Err(err) && spec_custom_error(
                    err,
                    "SHA-1 mismatch for "@ + url@ + ": expected "@ + e@ + ", got "@ + spec_hex_lower(
                        spec_sha1(stream.fed()),
                    ),
                )
            },
        },
{
    let digest = stream.finish();
    check_digest(url, digest.as_slice(), expected_sha1)
}

} // verus!
