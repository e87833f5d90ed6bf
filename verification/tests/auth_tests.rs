use xlauchez::auth::microsoft::{
    device_code_form, poll_form, poll_outcome, refresh_form, refresh_outcome,
    stored_refresh_token, AuthEvent, AuthFlow, AuthRequest, AuthStage, AuthStep, MsTokenResponse,
    PollOutcome, CLIENT_ID,
};
use xlauchez::config::{Account, AccountType};
use xlauchez::error::AppError;

fn pairs(v: &[(&str, &str)]) -> Vec<(String, String)> {
    v.iter().map(|(a, b)| (a.to_string(), b.to_string())).collect()
}

fn token_response(error: Option<&str>, description: Option<&str>) -> MsTokenResponse {
    MsTokenResponse {
        access_token: "ms-access".into(),
        expires_in: 3600,
        refresh_token: Some("ms-refresh".into()),
        error: error.map(|s| s.to_string()),
        error_description: description.map(|s| s.to_string()),
    }
}

#[test]
fn forms_sent_to_microsoft() {
    assert_eq!(
        device_code_form(),
        pairs(&[("client_id", "00000000402b5328"), ("scope", "XboxLive.signin offline_access")])
    );
    assert_eq!(
        poll_form("DEV"),
        pairs(&[
            ("client_id", CLIENT_ID),
            ("grant_type", "urn:ietf:params:oauth:grant-type:device_code"),
            ("device_code", "DEV"),
        ])
    );
    assert_eq!(
        refresh_form("R"),
        pairs(&[
            ("client_id", CLIENT_ID),
            ("grant_type", "refresh_token"),
            ("refresh_token", "R"),
            ("scope", "XboxLive.signin offline_access"),
        ])
    );
}

#[test]
fn poll_pending_codes_mean_try_again() {
    assert!(matches!(poll_outcome(token_response(Some("authorization_pending"), None)), Ok(PollOutcome::Pending)));
    assert!(matches!(poll_outcome(token_response(Some("slow_down"), Some("wait"))), Ok(PollOutcome::Pending)));
}

#[test]
fn poll_other_errors_report_the_description() {
    match poll_outcome(token_response(Some("expired_token"), Some("The code expired"))) {
        Err(AppError::Auth(m)) => assert_eq!(m, "The code expired"),
        other => panic!("unexpected {other:?}"),
    }
    match poll_outcome(token_response(Some("access_denied"), None)) {
        Err(AppError::Auth(m)) => assert_eq!(m, "access_denied"),
        other => panic!("unexpected {other:?}"),
    }
}

#[test]
fn poll_success_hands_over_the_tokens() {
    match poll_outcome(token_response(None, None)) {
        Ok(PollOutcome::Authorized { access_token, refresh_token }) => {
            assert_eq!(access_token, "ms-access");
            assert_eq!(refresh_token.as_deref(), Some("ms-refresh"));
        }
        other => panic!("unexpected {other:?}"),
    }
}

#[test]
fn refresh_answers() {
    match refresh_outcome(token_response(Some("invalid_grant"), None)) {
        Err(AppError::Auth(m)) => assert_eq!(m, "invalid_grant"),
        other => panic!("unexpected {other:?}"),
    }
    match refresh_outcome(token_response(Some("authorization_pending"), Some("no"))) {
        Err(AppError::Auth(m)) => assert_eq!(m, "no"),
        other => panic!("unexpected {other:?}"),
    }
    let (a, r) = refresh_outcome(token_response(None, None)).unwrap();
    assert_eq!(a, "ms-access");
    assert_eq!(r.as_deref(), Some("ms-refresh"));
}

#[test]
fn refresh_needs_a_stored_token() {
    let mut acc = Account {
        id: "id".into(),
        username: "Alex".into(),
        account_type: AccountType::Microsoft,
        access_token: None,
        refresh_token: None,
        xbox_uid: None,
    };
    match stored_refresh_token(&acc) {
        Err(AppError::Auth(m)) => assert_eq!(m, "No refresh token stored"),
        other => panic!("unexpected {other:?}"),
    }
    acc.refresh_token = Some("R".into());
    assert_eq!(stored_refresh_token(&acc).unwrap(), "R");
}

#[test]
fn full_exchange_gives_a_microsoft_account() {
    let (flow, req) = AuthFlow::start("MS", Some("REFRESH".into()));
    match req {
        AuthRequest::XboxLive { rps_ticket } => assert_eq!(rps_ticket, "d=MS"),
        other => panic!("unexpected {other:?}"),
    }
    let ev = AuthEvent::XboxLive { token: "XBL".into(), user_hashes: vec!["UHS".into(), "OTHER".into()] };
    assert!(flow.expects(&ev));
    let (flow, step) = flow.advance(ev);
    match step {
        AuthStep::Request(AuthRequest::Xsts { user_token }) => assert_eq!(user_token, "XBL"),
        other => panic!("unexpected {other:?}"),
    }
    let ev = AuthEvent::Xsts { token: "XSTS".into() };
    assert!(flow.expects(&ev));
    let (flow, step) = flow.advance(ev);
    match step {
        AuthStep::Request(AuthRequest::MinecraftLogin { identity_token }) => {
            assert_eq!(identity_token, "XBL3.0 x=UHS;XSTS")
        }
        other => panic!("unexpected {other:?}"),
    }
    let ev = AuthEvent::MinecraftToken { access_token: "MC".into() };
    let (flow, step) = flow.advance(ev);
    match step {
        AuthStep::Request(AuthRequest::Profile { bearer_token }) => assert_eq!(bearer_token, "MC"),
        other => panic!("unexpected {other:?}"),
    }
    let ev = AuthEvent::Profile { id: "uuid-1".into(), name: "Alex".into() };
    let (flow, step) = flow.advance(ev);
    assert!(matches!(flow.stage, AuthStage::Finished));
    match step {
        AuthStep::Done(a) => {
            assert_eq!(a.id, "uuid-1");
            assert_eq!(a.username, "Alex");
            assert_eq!(a.account_type, AccountType::Microsoft);
            assert_eq!(a.access_token.as_deref(), Some("MC"));
            assert_eq!(a.refresh_token.as_deref(), Some("REFRESH"));
            assert_eq!(a.xbox_uid, None);
        }
        other => panic!("unexpected {other:?}"),
    }
}

#[test]
fn xbox_answer_without_user_hash_fails() {
    let (flow, _) = AuthFlow::start("MS", None);
    let ev = AuthEvent::XboxLive { token: "XBL".into(), user_hashes: vec![] };
    let (flow, step) = flow.advance(ev);
    assert!(matches!(flow.stage, AuthStage::Finished));
    match step {
        AuthStep::Failed(AppError::Auth(m)) => assert_eq!(m, "Missing UHS in XBL response"),
        other => panic!("unexpected {other:?}"),
    }
}

#[test]
fn flow_only_expects_the_matching_answer() {
    let (flow, _) = AuthFlow::start("MS", None);
    assert!(!flow.expects(&AuthEvent::Xsts { token: "x".into() }));
    assert!(!flow.expects(&AuthEvent::Profile { id: "a".into(), name: "b".into() }));
}
