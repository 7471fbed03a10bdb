//! Microsoft sign-in for Minecraft: the device-code flow, then Xbox Live,
//! XSTS and the Minecraft services. The requests run outside this library;
//! what is decided from their answers stands here.

use vstd::prelude::*;

use crate::text::{chars_of, extend_str, str_eq, string_of};

verus! {

/// What the user needs to complete a device-code sign-in.
#[derive(Debug, Clone)]
pub struct DeviceCodeInfo {
    pub user_code: String,
    pub verification_uri: String,
    pub device_code: String,
    pub expires_in: u64,
    pub interval: u64,
}

/// The state of a device-code sign-in after one poll.
#[derive(Debug, Clone)]
pub enum PollResult {
    AuthorizationPending,
    SlowDown,
    Complete { profile: UserProfile },
    Error { message: String },
}

/// A signed-in Minecraft account with its tokens.
#[derive(Debug, Clone)]
pub struct UserProfile {
    pub username: String,
    pub uuid: String,
    pub email: Option<String>,
    pub mc_access_token: String,
    pub ms_refresh_token: String,
}

/// Whether `r` is an `Error` poll result with exactly the text `msg`.
pub open spec fn spec_poll_error(r: PollResult, msg: Seq<char>) -> bool {
    r matches PollResult::Error { message } && message@ == msg
}

/// The poll result when Microsoft did not grant a token yet: `error_code` is
/// the `error` field of its answer when the answer has one, `status` the HTTP
/// status line and `body` the answer's text.
pub fn poll_failure_result(error_code: Option<&str>, status: &str, body: &str) -> (r: PollResult)
    ensures
        match error_code {
            Some(code) => if code@ == "authorization_pending"@ {
                r is AuthorizationPending
            } else if code@ == "slow_down"@ {
                r is SlowDown
            } else if code@ == "expired_token"@ {
                spec_poll_error(r, "Le code a expiré. Recommence la connexion."@)
            } else if code@ == "access_denied"@ {
                spec_poll_error(r, "Connexion refusée."@)
            } else {
                spec_poll_error(r, "Erreur Microsoft: "@ + code@)
            },
            None => spec_poll_error(r, "Réponse inattendue (HTTP "@ + status@ + "): "@ + body@),
        },
{
    match error_code {
        Some(code) => {
            if str_eq(code, "authorization_pending") {
                PollResult::AuthorizationPending
            } else if str_eq(code, "slow_down") {
                PollResult::SlowDown
            } else if str_eq(code, "expired_token") {
                let m = chars_of("Le code a expiré. Recommence la connexion.");
                PollResult::Error { message: string_of(&m) }
            } else if str_eq(code, "access_denied") {
                let m = chars_of("Connexion refusée.");
                PollResult::Error { message: string_of(&m) }
            } else {
                let mut m = chars_of("Erreur Microsoft: ");
                extend_str(&mut m, code);
                PollResult::Error { message: string_of(&m) }
            }
        },
        None => {
            let mut m = chars_of("Réponse inattendue (HTTP ");
            extend_str(&mut m, status);
            extend_str(&mut m, "): ");
            extend_str(&mut m, body);
            PollResult::Error { message: string_of(&m) }
        },
    }
}

/// The poll result once Microsoft granted a token and the rest of the sign-in
/// chain ran: the profile, or the chain's error as the message.
pub fn poll_success_result(chain: Result<UserProfile, String>) -> (r: PollResult)
    ensures
        match chain {
            Ok(p) => r matches PollResult::Complete { profile } && profile == p,
            Err(e) => r matches PollResult::Error { message } && message == e,
        },
{
    match chain {
        Ok(profile) => PollResult::Complete { profile },
        Err(message) => PollResult::Error { message },
    }
}

/// The ticket that Xbox Live accepts for a Microsoft access token.
pub fn xbox_rps_ticket(ms_token: &str) -> (r: String)
    ensures
        r@ == "d="@ + ms_token@,
{
    let mut m = chars_of("d=");
    extend_str(&mut m, ms_token);
    string_of(&m)
}

/// The identity token that the Minecraft services accept for an XSTS token.
pub fn minecraft_identity_token(uhs: &str, xsts_token: &str) -> (r: String)
    ensures
        r@ == "XBL3.0 x="@ + uhs@ + ";"@ + xsts_token@,
{
    let mut m = chars_of("XBL3.0 x=");
    extend_str(&mut m, uhs);
    extend_str(&mut m, ";");
    extend_str(&mut m, xsts_token);
    string_of(&m)
}

/// The user hash of an Xbox Live answer: the `uhs` of its first `xui` claim,
/// or an error when it has none.
pub fn first_uhs(claims: Vec<String>) -> (r: Result<String, String>)
    ensures
        claims@.len() > 0 ==> r == Ok::<String, String>(claims@[0]),
        claims@.len() == 0 ==> (r matches Err(m) && m@ == "Pas de UHS dans la réponse Xbox"@),
{
    let mut claims = claims;
    if claims.len() == 0 {
        let m = chars_of("Pas de UHS dans la réponse Xbox");
        Err(string_of(&m))
    } else {
        Ok(claims.remove(0))
    }
}

} // verus!
