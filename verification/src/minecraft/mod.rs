//! Minecraft launcher core: where files live, what Mojang's and Fabric's
//! manifests say, which Java to use, what to download and how to start the game.

pub mod downloader;
pub mod fabric;
pub mod installer;
pub mod jar;
pub mod java;
pub mod launcher;
pub mod manifest;
pub mod paths;

use vstd::prelude::*;

use crate::text::{chars_of, extend_chars, extend_str, push_decimal, spec_decimal, string_of};

verus! {

/// The operating system the launcher runs on; it decides library rules,
/// native classifiers, executable names and separators.
#[derive(Clone, Copy, Debug, PartialEq, Eq, Structural)]
pub enum Platform {
    Windows,
    MacOs,
    Linux,
    Other,
}

/// Errors of the launcher. Network, JSON and file errors carry the text that
/// the failing operation reported.
#[derive(Debug)]
pub enum McError {
    Network(String),
    Json(String),
    Io(String),
    VersionNotFound(String),
    JavaVersionMismatch { required: u32, found: u32 },
    JavaNotFound,
    Custom(String),
}

impl McError {
    /// The text shown to the user for this error.
    pub open spec fn spec_message(&self) -> Seq<char> {
        match self {
            McError::Network(s) => "Erreur réseau: "@ + s@,
            McError::Json(s) => "Erreur JSON: "@ + s@,
            McError::Io(s) => "Erreur fichier: "@ + s@,
            McError::VersionNotFound(s) => "Version introuvable: "@ + s@,
            McError::JavaVersionMismatch { required, found } => "Java incompatible: requiert "@
                + spec_decimal(*required as nat) + ", trouvé "@ + spec_decimal(*found as nat),
            McError::JavaNotFound => "Java introuvable"@,
            McError::Custom(s) => "Erreur: "@ + s@,
        }
    }

    /// The text shown to the user for this error.
    pub fn message(&self) -> (r: String)
        ensures
            r@ == self.spec_message(),
    {
        let mut out: Vec<char> = Vec::new();
        match self {
            McError::Network(s) => {
                extend_str(&mut out, "Erreur réseau: ");
                extend_str(&mut out, s.as_str());
            },
            McError::Json(s) => {
                extend_str(&mut out, "Erreur JSON: ");
                extend_str(&mut out, s.as_str());
            },
            McError::Io(s) => {
                extend_str(&mut out, "Erreur fichier: ");
                extend_str(&mut out, s.as_str());
            },
            McError::VersionNotFound(s) => {
                extend_str(&mut out, "Version introuvable: ");
                extend_str(&mut out, s.as_str());
            },
            McError::JavaVersionMismatch { required, found } => {
                extend_str(&mut out, "Java incompatible: requiert ");
                push_decimal(&mut out, *required as u64);
                extend_str(&mut out, ", trouvé ");
                push_decimal(&mut out, *found as u64);
            },
            McError::JavaNotFound => {
                extend_str(&mut out, "Java introuvable");
            },
            McError::Custom(s) => {
                extend_str(&mut out, "Erreur: ");
                extend_str(&mut out, s.as_str());
            },
        }
        assert(out@ =~= self.spec_message());
        string_of(&out)
    }
}

/// Whether `e` is a `Custom` error with exactly the text `msg`.
pub open spec fn spec_custom_error(e: McError, msg: Seq<char>) -> bool {
    e matches McError::Custom(m) && m@ == msg
}

/// A `Custom` error with the given text.
pub fn custom_error(msg: &str) -> (e: McError)
    ensures
        spec_custom_error(e, msg@),
{
    let v = chars_of(msg);
    McError::Custom(string_of(&v))
}

/// A `Custom` error whose text is `prefix` followed by `detail`.
pub fn custom_error_with(prefix: &str, detail: &str) -> (e: McError)
    ensures
        spec_custom_error(e, prefix@ + detail@),
{
    let mut v = chars_of(prefix);
    let d = chars_of(detail);
    extend_chars(&mut v, &d);
    McError::Custom(string_of(&v))
}

} // verus!
