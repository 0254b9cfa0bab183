use openless::marketplace::{
    append_marketplace_archive_chunk, github_login_from_verified_response,
    marketplace_auth_check, marketplace_auth_error, marketplace_auth_error_for_status,
    require_valid_marketplace_auth_with, validate_marketplace_archive_content_length,
    MarketplaceAuthCheck, MARKETPLACE_REAUTH_REQUIRED, MARKETPLACE_REDIRECT_REJECTED,
    STYLE_PACK_ARCHIVE_MAX_COMPRESSED_BYTES,
};

#[test]
fn marketplace_archive_rejects_oversized_declared_content_length() {
    let error = validate_marketplace_archive_content_length(Some(
        STYLE_PACK_ARCHIVE_MAX_COMPRESSED_BYTES as u64 + 1,
    ))
    .expect_err("oversized content length must fail");

    assert!(error.contains("compressed size"));
}

#[test]
fn marketplace_archive_rejects_streamed_chunk_crossing_limit() {
    let mut body = vec![0; STYLE_PACK_ARCHIVE_MAX_COMPRESSED_BYTES];
    let error = append_marketplace_archive_chunk(&mut body, b"x")
        .expect_err("streamed overflow must fail");

    assert!(error.contains("compressed size"));
    assert_eq!(body.len(), STYLE_PACK_ARCHIVE_MAX_COMPRESSED_BYTES);
}

#[test]
fn marketplace_archive_accepts_exact_streamed_limit() {
    let mut body = vec![0; STYLE_PACK_ARCHIVE_MAX_COMPRESSED_BYTES - 1];
    append_marketplace_archive_chunk(&mut body, b"x").expect("exact limit is valid");

    assert_eq!(body.len(), STYLE_PACK_ARCHIVE_MAX_COMPRESSED_BYTES);
}

#[test]
fn declared_lengths_at_the_cap_or_unknown_pass() {
    assert_eq!(
        validate_marketplace_archive_content_length(Some(
            STYLE_PACK_ARCHIVE_MAX_COMPRESSED_BYTES as u64
        )),
        Ok(())
    );
    assert_eq!(validate_marketplace_archive_content_length(None), Ok(()));
    assert_eq!(
        validate_marketplace_archive_content_length(Some(u64::MAX)),
        Err("marketplace archive compressed size exceeds 10485760 bytes".to_string())
    );
}

#[test]
fn statuses_of_authenticated_calls() {
    assert_eq!(marketplace_auth_check(200), MarketplaceAuthCheck::Accept);
    assert_eq!(marketplace_auth_check(302), MarketplaceAuthCheck::RedirectRejected);
    assert_eq!(marketplace_auth_check(401), MarketplaceAuthCheck::ReauthRequired);
    assert_eq!(marketplace_auth_check(403), MarketplaceAuthCheck::Accept);
    assert_eq!(
        marketplace_auth_error(MarketplaceAuthCheck::ReauthRequired),
        Err(MARKETPLACE_REAUTH_REQUIRED.to_string())
    );
    assert_eq!(
        marketplace_auth_error(MarketplaceAuthCheck::RedirectRejected),
        Err(MARKETPLACE_REDIRECT_REJECTED.to_string())
    );
}

#[test]
fn github_login_needs_success_and_a_login() {
    assert_eq!(
        github_login_from_verified_response(200, "200 OK", Some("  octocat ")),
        Ok("octocat".to_string())
    );
    assert_eq!(
        github_login_from_verified_response(401, "401 Unauthorized", Some("octocat")),
        Err("GitHub /user HTTP 401 Unauthorized".to_string())
    );
    assert!(github_login_from_verified_response(200, "200 OK", Some("   ")).is_err());
    assert!(github_login_from_verified_response(200, "200 OK", None).is_err());
}

use openless::marketplace::{device_poll_decision, DevicePollDecision, GithubDevicePollResult};

#[test]
fn device_flow_polls_are_decided_by_token_and_error() {
    assert_eq!(
        device_poll_decision(Some("gho_x"), None),
        DevicePollDecision::VerifyToken("gho_x".into())
    );
    assert_eq!(
        device_poll_decision(Some("  "), Some("authorization_pending")),
        DevicePollDecision::Answer(GithubDevicePollResult::Pending)
    );
    assert_eq!(
        device_poll_decision(None, Some("slow_down")),
        DevicePollDecision::Answer(GithubDevicePollResult::SlowDown)
    );
    assert_eq!(
        device_poll_decision(None, Some("bad_verification_code")),
        DevicePollDecision::Answer(GithubDevicePollResult::Error {
            message: "OAuth 错误：bad_verification_code".into()
        })
    );
    assert_eq!(
        device_poll_decision(None, None),
        DevicePollDecision::Answer(GithubDevicePollResult::Error {
            message: "未知 OAuth 错误（access_token 缺失）".into()
        })
    );
}

#[test]
fn github_user_must_be_successful_and_have_a_login_before_token_persistence() {
    assert_eq!(
        github_login_from_verified_response(200, "200 OK", Some("octocat")).as_deref(),
        Ok("octocat")
    );
    assert!(github_login_from_verified_response(401, "401 Unauthorized", Some("forged")).is_err());
    assert!(github_login_from_verified_response(200, "200 OK", None).is_err());
}

#[test]
fn unauthorized_response_maps_to_clear_reauthentication_without_echoing_token() {
    let message = marketplace_auth_error_for_status(401)
        .expect("401 should require reauthentication");

    assert_eq!(message, MARKETPLACE_REAUTH_REQUIRED);
    assert!(!message.contains("gho_header_test"));
    assert_eq!(marketplace_auth_error_for_status(403), None);
}

#[test]
fn rejected_token_is_cleared_and_requires_reauthentication() {
    let mut cleared = false;
    let result = require_valid_marketplace_auth_with(401, || {
        cleared = true;
        Ok(())
    });

    assert_eq!(result, Err(MARKETPLACE_REAUTH_REQUIRED.to_string()));
    assert!(cleared);
}

#[test]
fn redirects_fail_closed_without_clearing_valid_token() {
    let mut cleared = false;
    let result = require_valid_marketplace_auth_with(302, || {
        cleared = true;
        Ok(())
    });

    assert_eq!(result, Err(MARKETPLACE_REDIRECT_REJECTED.to_string()));
    assert!(!cleared);
}

#[test]
fn accepted_status_keeps_the_credential_and_a_failed_clear_changes_nothing() {
    let mut cleared = false;
    assert_eq!(
        require_valid_marketplace_auth_with(200, || {
            cleared = true;
            Ok(())
        }),
        Ok(())
    );
    assert!(!cleared);
    assert_eq!(
        require_valid_marketplace_auth_with(401, || Err("vault locked".to_string())),
        Err(MARKETPLACE_REAUTH_REQUIRED.to_string())
    );
}
