use lynara::auth::{
    first_uhs, minecraft_identity_token, poll_failure_result, poll_success_result, xbox_rps_ticket, PollResult,
    UserProfile,
};

fn message(r: PollResult) -> String {
    match r {
        PollResult::Error { message } => message,
        other => panic!("unexpected {:?}", other),
    }
}

#[test]
fn pending_and_slow_down() {
    assert!(matches!(poll_failure_result(Some("authorization_pending"), "400 Bad Request", "{}"), PollResult::AuthorizationPending));
    assert!(matches!(poll_failure_result(Some("slow_down"), "400 Bad Request", "{}"), PollResult::SlowDown));
}

#[test]
fn poll_errors() {
    assert_eq!(message(poll_failure_result(Some("expired_token"), "400", "")), "Le code a expiré. Recommence la connexion.");
    assert_eq!(message(poll_failure_result(Some("access_denied"), "400", "")), "Connexion refusée.");
    assert_eq!(message(poll_failure_result(Some("bad_verification_code"), "400", "")), "Erreur Microsoft: bad_verification_code");
    assert_eq!(message(poll_failure_result(None, "502 Bad Gateway", "oops")), "Réponse inattendue (HTTP 502 Bad Gateway): oops");
}

#[test]
fn poll_after_token() {
    let p = UserProfile {
        username: "Alex".to_string(),
        uuid: "u".to_string(),
        email: None,
        mc_access_token: "t".to_string(),
        ms_refresh_token: "r".to_string(),
    };
    match poll_success_result(Ok(p)) {
        PollResult::Complete { profile } => assert_eq!(profile.username, "Alex"),
        other => panic!("unexpected {:?}", other),
    }
    assert_eq!(message(poll_success_result(Err("XSTS refused".to_string()))), "XSTS refused");
}

#[test]
fn xbox_tokens() {
    assert_eq!(xbox_rps_ticket("abc"), "d=abc");
    assert_eq!(minecraft_identity_token("uhs1", "xsts"), "XBL3.0 x=uhs1;xsts");
}

#[test]
fn user_hash_is_the_first_claim() {
    assert_eq!(first_uhs(vec!["u1".to_string(), "u2".to_string()]).unwrap(), "u1");
    assert_eq!(first_uhs(vec![]).unwrap_err(), "Pas de UHS dans la réponse Xbox");
}
