//! Style-pack marketplace: listing records, the size cap on downloaded
//! archives, how HTTP statuses of authenticated calls are answered, and the
//! GitHub sign-in results.
use vstd::prelude::*;

use crate::text::{push_decimal, push_str_chars, to_chars, trim_range, trimmed, decimal};

verus! {

/// Largest compressed style-pack archive accepted from the marketplace.
pub const STYLE_PACK_ARCHIVE_MAX_COMPRESSED_BYTES: usize = 10_485_760;

/// The marketplace backend.
pub const MARKETPLACE_BASE_URL: &'static str = "https://apic.openless.top";

/// Answer to a call whose credential was refused.
pub const MARKETPLACE_REAUTH_REQUIRED: &'static str =
    "marketplace_auth_required: GitHub sign-in expired or is missing; sign in again";

/// Answer to an authenticated call that was redirected.
pub const MARKETPLACE_REDIRECT_REJECTED: &'static str = "marketplace_authenticated_redirect_rejected";

/// A pack as listed by the marketplace.
#[derive(Debug, Clone, PartialEq, Eq, Default)]
pub struct MarketplaceListItem {
    pub id: String,
    pub slug: String,
    pub name: String,
    pub description: String,
    pub author_login: String,
    pub version: String,
    pub base_mode: String,
    pub tags: Vec<String>,
    pub like_count: i64,
    pub download_count: i64,
    pub published_at: String,
    pub updated_at: String,
    pub origin_pack_id: Option<String>,
    pub origin_author_login: Option<String>,
}

/// A pack with its full prompt.
#[derive(Debug, Clone, PartialEq, Eq, Default)]
pub struct MarketplaceDetail {
    pub summary: MarketplaceListItem,
    pub prompt: String,
    pub state: String,
}

/// One of the signed-in user's own packs.
#[derive(Debug, Clone, PartialEq, Eq, Default)]
pub struct MarketplaceMyPackItem {
    pub summary: MarketplaceListItem,
    pub state: String,
}

/// The refusal text for an archive over the cap, declared (`streamed`
/// false) or counted while reading (`streamed` true).
pub open spec fn archive_too_large(streamed: bool) -> Seq<char> {
    if streamed {
        "marketplace archive streamed compressed size exceeds "@ + decimal(
            STYLE_PACK_ARCHIVE_MAX_COMPRESSED_BYTES as nat,
        ) + " bytes"@
    } else {
        "marketplace archive compressed size exceeds "@ + decimal(STYLE_PACK_ARCHIVE_MAX_COMPRESSED_BYTES as nat)
            + " bytes"@
    }
}

fn archive_error(streamed: bool) -> (r: String)
    ensures
        r@ == archive_too_large(streamed),
{
    let mut e = String::new();
    if streamed {
        push_str_chars(&mut e, "marketplace archive streamed compressed size exceeds ");
    } else {
        push_str_chars(&mut e, "marketplace archive compressed size exceeds ");
    }
    push_decimal(&mut e, STYLE_PACK_ARCHIVE_MAX_COMPRESSED_BYTES as u64);
    push_str_chars(&mut e, " bytes");
    e
}

/// Refuses a download whose declared length is over the cap; an unknown
/// length is let through (the streamed count still applies).
pub fn validate_marketplace_archive_content_length(content_length: Option<u64>) -> (r: Result<(), String>)
    ensures
        match r {
            Ok(()) => !(content_length matches Some(n) && n > STYLE_PACK_ARCHIVE_MAX_COMPRESSED_BYTES),
            Err(e) => e@ == archive_too_large(false) && (content_length matches Some(n) && n
                > STYLE_PACK_ARCHIVE_MAX_COMPRESSED_BYTES),
        },
{
    match content_length {
        Some(n) => {
            if n > STYLE_PACK_ARCHIVE_MAX_COMPRESSED_BYTES as u64 {
                return Err(archive_error(false));
            }
        },
        None => {},
    }
    Ok(())
}

/// Appends a downloaded chunk unless the body would then exceed the cap,
/// in which case the body is left as it was.
pub fn append_marketplace_archive_chunk(body: &mut Vec<u8>, chunk: &[u8]) -> (r: Result<(), String>)
    ensures
        match r {
            Ok(()) => old(body)@.len() + chunk@.len() <= STYLE_PACK_ARCHIVE_MAX_COMPRESSED_BYTES && final(body)@
                == old(body)@ + chunk@,
            Err(e) => old(body)@.len() + chunk@.len() > STYLE_PACK_ARCHIVE_MAX_COMPRESSED_BYTES && final(body)@
                == old(body)@ && e@ == archive_too_large(true),
        },
{
    if chunk.len() > STYLE_PACK_ARCHIVE_MAX_COMPRESSED_BYTES || body.len() > STYLE_PACK_ARCHIVE_MAX_COMPRESSED_BYTES
        - chunk.len() {
        return Err(archive_error(true));
    }
    let ghost before = body@;
    let mut i: usize = 0;
    while i < chunk.len()
        invariant
            i <= chunk@.len(),
            body@ == before + chunk@.subrange(0, i as int),
        decreases chunk.len() - i,
    {
        body.push(chunk[i]);
        i = i + 1;
        assert(body@ =~= before + chunk@.subrange(0, i as int));
    }
    assert(chunk@.subrange(0, chunk@.len() as int) =~= chunk@);
    Ok(())
}

/// The streamed cap holds for the whole body: however a download is cut
/// into chunks, appending them one by one never leaves more than the cap
/// in the body.
pub proof fn lemma_archive_body_capped(before: Seq<u8>, chunk: Seq<u8>, after: Seq<u8>, ok: bool)
    requires
        before.len() <= STYLE_PACK_ARCHIVE_MAX_COMPRESSED_BYTES,
        ok ==> before.len() + chunk.len() <= STYLE_PACK_ARCHIVE_MAX_COMPRESSED_BYTES && after == before + chunk,
        !ok ==> after == before,
    ensures
        after.len() <= STYLE_PACK_ARCHIVE_MAX_COMPRESSED_BYTES,
{
}

/// What an authenticated call does with a response status.
#[derive(Debug, Clone, Copy, PartialEq, Eq)]
pub enum MarketplaceAuthCheck {
    /// Go on with the response.
    Accept,
    /// Refuse: authenticated calls must not follow redirects.
    RedirectRejected,
    /// Refuse, and forget the stored credential: it was rejected.
    ReauthRequired,
}

/// A 3xx status is refused, 401 drops the credential, anything else goes on.
pub open spec fn spec_marketplace_auth_check(status: u16) -> MarketplaceAuthCheck {
    if 300 <= status <= 399 {
        MarketplaceAuthCheck::RedirectRejected
    } else if status == 401 {
        MarketplaceAuthCheck::ReauthRequired
    } else {
        MarketplaceAuthCheck::Accept
    }
}

/// How an authenticated marketplace call treats a response status.
pub fn marketplace_auth_check(status: u16) -> (r: MarketplaceAuthCheck)
    ensures
        r == spec_marketplace_auth_check(status),
{
    if 300 <= status && status <= 399 {
        MarketplaceAuthCheck::RedirectRejected
    } else if status == 401 {
        MarketplaceAuthCheck::ReauthRequired
    } else {
        MarketplaceAuthCheck::Accept
    }
}

/// The error text a refused check is answered with.
pub fn marketplace_auth_error(check: MarketplaceAuthCheck) -> (r: Result<(), String>)
    ensures
        match check {
            MarketplaceAuthCheck::Accept => r is Ok,
            MarketplaceAuthCheck::RedirectRejected => r matches Err(e) && e@ == MARKETPLACE_REDIRECT_REJECTED@,
            MarketplaceAuthCheck::ReauthRequired => r matches Err(e) && e@ == MARKETPLACE_REAUTH_REQUIRED@,
        },
{
    let mut e = String::new();
    match check {
        MarketplaceAuthCheck::Accept => Ok(()),
        MarketplaceAuthCheck::RedirectRejected => {
            push_str_chars(&mut e, MARKETPLACE_REDIRECT_REJECTED);
            Err(e)
        },
        MarketplaceAuthCheck::ReauthRequired => {
            push_str_chars(&mut e, MARKETPLACE_REAUTH_REQUIRED);
            Err(e)
        },
    }
}

/// The answer to a refused credential: only 401 has one.
pub fn marketplace_auth_error_for_status(status: u16) -> (r: Option<&'static str>)
    ensures
        status == 401 ==> r == Some(MARKETPLACE_REAUTH_REQUIRED),
        status != 401 ==> r is None,
{
    if status == 401 {
        Some(MARKETPLACE_REAUTH_REQUIRED)
    } else {
        None
    }
}

/// Checks the status of an authenticated call: a redirect is refused and
/// keeps the credential; a 401 is refused after `clear_credential` has been
/// asked to forget the rejected credential (its own failure changes nothing
/// in the answer); anything else is accepted.
pub fn require_valid_marketplace_auth_with<F: FnOnce() -> Result<(), String>>(
    status: u16,
    clear_credential: F,
) -> (r: Result<(), String>)
    requires
        status == 401 ==> call_requires(clear_credential, ()),
    ensures
        match spec_marketplace_auth_check(status) {
            MarketplaceAuthCheck::Accept => r is Ok,
            MarketplaceAuthCheck::RedirectRejected => r matches Err(e) && e@ == MARKETPLACE_REDIRECT_REJECTED@,
            MarketplaceAuthCheck::ReauthRequired => r matches Err(e) && e@ == MARKETPLACE_REAUTH_REQUIRED@,
        },
        status == 401 ==> exists|o: Result<(), String>| call_ensures(clear_credential, (), o),
{
    let check = marketplace_auth_check(status);
    match check {
        MarketplaceAuthCheck::ReauthRequired => {
            let _ = clear_credential();
        },
        _ => {},
    }
    marketplace_auth_error(check)
}

// ───────────────────────────── GitHub sign-in ─────────────────────────────

/// A device-flow start, as shown to the user.
#[derive(Debug, Clone, PartialEq, Eq)]
pub struct GithubDeviceStartResponse {
    pub device_code: String,
    pub user_code: String,
    pub verification_uri: String,
    pub interval: u32,
    pub expires_in: u32,
}

/// One poll of the device flow. The token itself never leaves the backend.
#[derive(Debug, Clone, PartialEq, Eq)]
pub enum GithubDevicePollResult {
    Authorized { login: String },
    Pending,
    SlowDown,
    Error { message: String },
}

/// Whether a marketplace credential is stored.
#[derive(Debug, Clone, Copy, PartialEq, Eq)]
pub struct MarketplaceAuthStatus {
    pub signed_in: bool,
}

/// The login the GitHub `/user` call verified: a successful status and a
/// non-blank login are both needed before a token may be kept.
pub fn github_login_from_verified_response(status: u16, status_text: &str, login: Option<&str>) -> (r: Result<
    String,
    String,
>)
    ensures
        match r {
            Ok(l) => 200 <= status <= 299 && (login matches Some(s) && trimmed(s@).len() > 0 && l@ == trimmed(s@)),
            Err(e) => if !(200 <= status <= 299) {
                e@ == "GitHub /user HTTP "@ + status_text@
            } else {
                !(login matches Some(s) && trimmed(s@).len() > 0) && e@ == "GitHub /user 返回空 login"@
            },
        },
{
    let mut e = String::new();
    if !(200 <= status && status <= 299) {
        push_str_chars(&mut e, "GitHub /user HTTP ");
        push_str_chars(&mut e, status_text);
        return Err(e);
    }
    match login {
        Some(s) => {
            let v = to_chars(s);
            let (a, b) = trim_range(&v);
            if a < b {
                return Ok(crate::text::string_from_range(&v, a, b));
            }
        },
        None => {},
    }
    push_str_chars(&mut e, "GitHub /user 返回空 login");
    Err(e)
}


/// What a device-flow token response leads to.
#[derive(Debug, Clone, PartialEq, Eq)]
pub enum DevicePollDecision {
    /// A token came back: verify it with `/user` before keeping it.
    VerifyToken(String),
    /// No token: answer the poll with this.
    Answer(GithubDevicePollResult),
}

/// The message for an OAuth error code of the token endpoint.
pub open spec fn oauth_error_message(error: Seq<char>) -> Seq<char> {
    if error == "expired_token"@ {
        "OAuth 设备码已过期，请重新发起登录"@
    } else if error == "access_denied"@ {
        "你在 GitHub 上拒绝了授权"@
    } else if error.len() > 0 {
        "OAuth 错误："@ + error
    } else {
        "未知 OAuth 错误（access_token 缺失）"@
    }
}

/// The decision for a token response: a non-blank token is verified;
/// otherwise the `error` field says whether to keep polling, slow down, or
/// report an error.
pub fn device_poll_decision(access_token: Option<&str>, error: Option<&str>) -> (r: DevicePollDecision)
    ensures
        match access_token {
            Some(t) if trimmed(t@).len() > 0 => r matches DevicePollDecision::VerifyToken(v) && v@ == t@,
            _ => {
                let e = match error {
                    Some(x) => x@,
                    None => Seq::empty(),
                };
                if e == "authorization_pending"@ {
                    r == DevicePollDecision::Answer(GithubDevicePollResult::Pending)
                } else if e == "slow_down"@ {
                    r == DevicePollDecision::Answer(GithubDevicePollResult::SlowDown)
                } else {
                    r matches DevicePollDecision::Answer(GithubDevicePollResult::Error { message: m }) && m@
                        == oauth_error_message(e)
                }
            },
        },
{
    match access_token {
        Some(t) => {
            let v = to_chars(t);
            let (a, b) = trim_range(&v);
            if a < b {
                let mut token = String::new();
                push_str_chars(&mut token, t);
                return DevicePollDecision::VerifyToken(token);
            }
        },
        None => {},
    }
    let mut e = String::new();
    match error {
        Some(x) => push_str_chars(&mut e, x),
        None => {},
    }
    let ev = to_chars(e.as_str());
    let mut m = String::new();
    if crate::text::chars_eq(&ev, &to_chars("authorization_pending")) {
        return DevicePollDecision::Answer(GithubDevicePollResult::Pending);
    } else if crate::text::chars_eq(&ev, &to_chars("slow_down")) {
        return DevicePollDecision::Answer(GithubDevicePollResult::SlowDown);
    } else if crate::text::chars_eq(&ev, &to_chars("expired_token")) {
        push_str_chars(&mut m, "OAuth 设备码已过期，请重新发起登录");
    } else if crate::text::chars_eq(&ev, &to_chars("access_denied")) {
        push_str_chars(&mut m, "你在 GitHub 上拒绝了授权");
    } else if ev.len() > 0 {
        push_str_chars(&mut m, "OAuth 错误：");
        push_str_chars(&mut m, e.as_str());
    } else {
        push_str_chars(&mut m, "未知 OAuth 错误（access_token 缺失）");
    }
    DevicePollDecision::Answer(GithubDevicePollResult::Error { message: m })
}

} // verus!
