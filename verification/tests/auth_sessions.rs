use jaytripper::auth::{
    apply_refresh_tokens, complete_login_session, connect_session_gate, evaluate_session,
    missing_required_scopes, next_refresh_delay, parse_character_token_subject,
    scopes_from_claim, settle_refresh_outcome, AuthSession, EnsureSessionResult, EsiConfig,
    EsiError, InitialAuthTokens, KeyringTokenStore, NextRefreshDelay, RefreshSettlement,
    RefreshTokens, ScopeClaimValue, SessionEvaluation,
};
use jaytripper::ids::CharacterId;
use jaytripper::time::Timestamp;

fn ts(epoch_secs: i64) -> Timestamp {
    Timestamp::from_epoch_secs(epoch_secs).expect("valid epoch seconds")
}

fn secs(s: u64) -> u64 {
    s * 1000
}

fn sample_session(expires_at: Timestamp) -> AuthSession {
    AuthSession {
        character_id: CharacterId(9001),
        character_name: Some("Pilot".to_string()),
        scopes: vec!["esi-location.read_location.v1".to_string()],
        access_token: "access".to_string(),
        access_expires_at: expires_at,
        refresh_token: "refresh".to_string(),
        updated_at: ts(100),
    }
}

fn location_scope() -> Vec<String> {
    vec!["esi-location.read_location.v1".to_string()]
}

#[test]
fn complete_login_builds_the_session() {
    let tokens = InitialAuthTokens {
        character_id: CharacterId(9001),
        character_name: Some("Pilot".to_string()),
        scopes: location_scope(),
        access_token: "new-access".to_string(),
        access_expires_at: ts(1000),
        refresh_token: "new-refresh".to_string(),
    };

    let session = complete_login_session(&tokens, &location_scope(), ts(777))
        .expect("complete login should succeed");

    assert_eq!(session.character_id, CharacterId(9001));
    assert_eq!(session.updated_at, ts(777));
    assert_eq!(session.access_token, "new-access");
    assert_eq!(session.refresh_token, "new-refresh");
}

#[test]
fn complete_login_fails_when_required_scope_missing() {
    let tokens = InitialAuthTokens {
        character_id: CharacterId(9001),
        character_name: Some("Pilot".to_string()),
        scopes: vec!["publicData".to_string()],
        access_token: "new-access".to_string(),
        access_expires_at: ts(1000),
        refresh_token: "new-refresh".to_string(),
    };

    let err = complete_login_session(&tokens, &location_scope(), ts(777))
        .expect_err("complete login should fail when scope is missing");

    assert!(matches!(err, EsiError::MissingRequiredScopes { .. }));
    assert!(err.describe().contains("missing required scopes"));
}

#[test]
fn evaluate_session_returns_existing_without_refresh() {
    let session = Some(sample_session(ts(10_000)));
    let result = evaluate_session(&session, &location_scope(), ts(500), secs(60));
    match result {
        SessionEvaluation::Fresh(s) => assert_eq!(s.access_token, "access"),
        other => panic!("expected a fresh session, got {other:?}"),
    }
}

#[test]
fn evaluate_session_demands_refresh_when_expiring() {
    let session = Some(sample_session(ts(510)));
    let result = evaluate_session(&session, &location_scope(), ts(500), secs(60));
    assert_eq!(result, SessionEvaluation::NeedsRefresh);
}

#[test]
fn evaluate_session_gates_on_missing_scope() {
    let session = Some(sample_session(ts(10_000)));
    let required = vec!["esi-location.read_ship_type.v1".to_string()];
    let result = evaluate_session(&session, &required, ts(500), secs(60));
    match result {
        SessionEvaluation::ScopeGated { missing } => {
            assert_eq!(missing, required);
            let reason = EsiError::MissingRequiredScopes { missing }.describe();
            assert!(reason.contains("missing required scopes"));
        },
        other => panic!("expected a scope gate, got {other:?}"),
    }
}

#[test]
fn evaluate_session_reports_missing_session() {
    let result = evaluate_session(&None, &location_scope(), ts(500), secs(60));
    assert_eq!(result, SessionEvaluation::Missing);
}

#[test]
fn apply_refresh_updates_tokens_and_time() {
    let session = sample_session(ts(510));
    let tokens = RefreshTokens {
        access_token: "refreshed-access".to_string(),
        access_expires_at: ts(10_000),
        refresh_token: "refreshed-refresh".to_string(),
    };
    let updated = apply_refresh_tokens(&session, &tokens, &location_scope(), ts(500))
        .expect("refresh applies");
    assert_eq!(updated.access_token, "refreshed-access");
    assert_eq!(updated.refresh_token, "refreshed-refresh");
    assert_eq!(updated.access_expires_at, ts(10_000));
    assert_eq!(updated.updated_at, ts(500));
    assert_eq!(updated.character_id, session.character_id);
}

#[test]
fn should_refresh_is_exact_on_the_skew_boundary() {
    let session = sample_session(ts(560));
    // expires exactly at now + skew: refresh is due
    assert!(session.should_refresh(ts(500), secs(60)));
    // expires one millisecond past the window: not yet
    let latest = AuthSession {
        access_expires_at: Timestamp::from_epoch_millis(560_001).expect("valid"),
        ..sample_session(ts(560))
    };
    assert!(!latest.should_refresh(ts(500), secs(60)));
}

#[test]
fn next_refresh_delay_schedules_by_expiry() {
    let scopes = location_scope();

    let missing = next_refresh_delay(&None, &scopes, ts(500), secs(60), secs(5));
    assert!(!missing.clear_session);
    match missing.delay {
        NextRefreshDelay::NeedsReauth { reason } => {
            assert_eq!(reason, "session missing for selected character")
        },
        other => panic!("expected reauth, got {other:?}"),
    }

    let expiring = Some(sample_session(ts(510)));
    let ready = next_refresh_delay(&expiring, &scopes, ts(500), secs(60), secs(5));
    assert!(!ready.clear_session);
    assert_eq!(ready.delay, NextRefreshDelay::ReadyNow);

    let fresh = Some(sample_session(ts(10_000)));
    let wait = next_refresh_delay(&fresh, &scopes, ts(500), secs(60), secs(5));
    assert_eq!(wait.delay, NextRefreshDelay::Wait(secs(10_000 - 500 - 60)));

    let near = Some(sample_session(ts(562)));
    let floored = next_refresh_delay(&near, &scopes, ts(500), secs(60), secs(5));
    assert_eq!(floored.delay, NextRefreshDelay::Wait(secs(5)));

    let gated = next_refresh_delay(
        &Some(sample_session(ts(10_000))),
        &vec!["esi-location.read_ship_type.v1".to_string()],
        ts(500),
        secs(60),
        secs(5),
    );
    assert!(gated.clear_session);
    match gated.delay {
        NextRefreshDelay::NeedsReauth { reason } => {
            assert!(reason.contains("missing required scopes"))
        },
        other => panic!("expected reauth, got {other:?}"),
    }
}

#[test]
fn connect_gate_admits_only_ready_sessions() {
    assert!(connect_session_gate(&EnsureSessionResult::Ready(sample_session(ts(10_000))))
        .is_ok());
    let missing = connect_session_gate(&EnsureSessionResult::Missing).expect_err("missing");
    assert!(matches!(missing, EsiError::NeedsReauth { .. }));
    let reauth = connect_session_gate(&EnsureSessionResult::NeedsReauth {
        reason: "token revoked".to_string(),
    })
    .expect_err("reauth");
    match reauth {
        EsiError::NeedsReauth { reason } => assert_eq!(reason, "token revoked"),
        other => panic!("expected reauth, got {other:?}"),
    }
}

#[test]
fn missing_required_scopes_keeps_required_order() {
    let granted = vec!["a".to_string(), "c".to_string()];
    let required = vec!["a".to_string(), "b".to_string(), "c".to_string(), "d".to_string()];
    assert_eq!(
        missing_required_scopes(&granted, &required),
        vec!["b".to_string(), "d".to_string()]
    );
    assert!(missing_required_scopes(&granted, &vec!["a".to_string()]).is_empty());
}

#[test]
fn parses_character_id_from_subject() {
    let character_id =
        parse_character_token_subject("CHARACTER:EVE:123456789").expect("valid character id");
    assert_eq!(character_id, CharacterId(123456789));
}

#[test]
fn invalid_subject_is_rejected() {
    assert!(parse_character_token_subject("BAD:FORMAT").is_err());
    assert!(parse_character_token_subject("CHARACTER:EVE:notanumber").is_err());
    assert!(parse_character_token_subject("CHARACTER:EVE:1:2").is_err());
    assert!(parse_character_token_subject("PLAYER:EVE:1").is_err());
}

#[test]
fn scopes_are_read_from_array() {
    let scopes = scopes_from_claim(&ScopeClaimValue::Many(vec![
        "s1".to_string(),
        "s2".to_string(),
    ]))
    .expect("scope parsing should succeed");
    assert_eq!(scopes, vec!["s1", "s2"]);

    let single = scopes_from_claim(&ScopeClaimValue::One("s1".to_string())).expect("one scope");
    assert_eq!(single, vec!["s1"]);

    let absent = scopes_from_claim(&ScopeClaimValue::Absent).expect("no claim");
    assert!(absent.is_empty());
}

#[test]
fn invalid_scope_format_is_rejected() {
    let err = scopes_from_claim(&ScopeClaimValue::Other("[\"s1\",42]".to_string()))
        .expect_err("mixed-type claim is invalid");
    assert!(matches!(err, EsiError::InvalidScopeClaim(_)));
}

#[test]
fn config_validation_names_the_missing_option() {
    let good = EsiConfig {
        client_id: "client".to_string(),
        callback_url: "http://localhost:8000/callback".to_string(),
        scopes: vec!["esi-location.read_location.v1".to_string()],
        user_agent: "agent".to_string(),
    };
    assert!(good.validate().is_ok());
    assert_eq!(good.scopes_for_esi(), "esi-location.read_location.v1");

    let blank_client = EsiConfig { client_id: "  ".to_string(), ..good.clone() };
    match blank_client.validate().expect_err("blank client id") {
        EsiError::InvalidConfig(msg) => assert_eq!(msg, "EVE_CLIENT_ID must be set"),
        other => panic!("expected config error, got {other:?}"),
    }

    let no_scopes = EsiConfig { scopes: Vec::new(), ..good.clone() };
    match no_scopes.validate().expect_err("no scopes") {
        EsiError::InvalidConfig(msg) => {
            assert_eq!(msg, "at least one ESI scope must be configured")
        },
        other => panic!("expected config error, got {other:?}"),
    }

    let spaced = EsiConfig {
        scopes: vec!["a".to_string(), "b".to_string(), "c".to_string()],
        ..good
    };
    assert_eq!(spaced.scopes_for_esi(), "a b c");
}

#[test]
fn keyring_store_names_accounts_by_character() {
    let store = KeyringTokenStore::new("jaytripper", "tokens");
    assert_eq!(store.account_for_character(CharacterId(9001)), "tokens:character:9001");
    assert_eq!(store.service(), "jaytripper");
}

#[test]
fn refresh_settlement_keeps_the_session_on_a_failed_refresh() {
    let session = sample_session(ts(510));
    let tokens = RefreshTokens {
        access_token: "refreshed-access".to_string(),
        access_expires_at: ts(10_000),
        refresh_token: "refreshed-refresh".to_string(),
    };

    match settle_refresh_outcome(&session, &Ok(tokens), &location_scope(), ts(500)) {
        RefreshSettlement::Persist(updated) => {
            assert_eq!(updated.access_token, "refreshed-access");
            assert_eq!(updated.updated_at, ts(500));
        }
        other => panic!("expected the tokens to persist, got {other:?}"),
    }

    match settle_refresh_outcome(
        &session,
        &Err(EsiError::message("refresh token rejected")),
        &location_scope(),
        ts(500),
    ) {
        RefreshSettlement::KeepAndReauth { reason } => {
            assert!(reason.contains("refresh token rejected"))
        }
        other => panic!("a failed refresh must keep the session, got {other:?}"),
    }

    match settle_refresh_outcome(
        &session,
        &Ok(RefreshTokens {
            access_token: "a".to_string(),
            access_expires_at: ts(10_000),
            refresh_token: "r".to_string(),
        }),
        &vec!["esi-location.read_ship_type.v1".to_string()],
        ts(500),
    ) {
        RefreshSettlement::ClearAndReauth { reason } => {
            assert!(reason.contains("missing required scopes"))
        }
        other => panic!("a scope regression must clear the session, got {other:?}"),
    }
}
