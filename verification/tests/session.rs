//! Session identity, token cache and device-authorization flow.
use assumer::cache::AccessTokenCache;
use assumer::errors::AuthError;
use assumer::flow::DeviceAuthorizationFlow;
use assumer::flow::FlowAction;
use assumer::flow::FlowEvent;
use assumer::identity::session_name;
use assumer::identity::SessionIdentity;
use assumer::json::decode_record;
use assumer::json::encode_record;
use assumer::token::AccessToken;

const START_URL: &str = "https://example.awsapps.com/start";
const NOW: u64 = 1_700_000_000;

fn identity() -> SessionIdentity {
    SessionIdentity::derive(START_URL).unwrap()
}

fn token_expiring_at(expires_at: u64) -> AccessToken {
    AccessToken {
        access_token: String::from("opaque-token-value"),
        expires_at,
        issuing_session: identity(),
    }
}

fn cache_with(token: &AccessToken) -> AccessTokenCache {
    let mut cache = AccessTokenCache::new("sso-example", "/home/user/.aws");
    cache.load_entry(encode_record(
        &token.access_token,
        token.expires_at,
        &token.issuing_session.raw_start_url,
    ));
    cache
}

#[test]
fn canonical_name_of_example_start_url() {
    assert_eq!(session_name(START_URL), "sso-example");
    let id = identity();
    assert_eq!(id.canonical_name, "sso-example");
    assert_eq!(id.raw_start_url, START_URL);
}

#[test]
fn derivation_is_deterministic() {
    let a = SessionIdentity::derive(START_URL).unwrap();
    let b = SessionIdentity::derive(START_URL).unwrap();
    assert_eq!(a.canonical_name, b.canonical_name);
}

#[test]
fn derivation_without_scheme_or_other_labels() {
    assert_eq!(session_name("https://foo.bar"), "sso-foo");
    assert_eq!(session_name("foo.bar.baz"), "sso-foo");
}

#[test]
fn invalid_start_urls_are_rejected() {
    assert!(matches!(
        SessionIdentity::derive(""),
        Err(AuthError::InvalidStartUrl)
    ));
    assert!(matches!(
        SessionIdentity::derive("https://nodotsatall"),
        Err(AuthError::InvalidStartUrl)
    ));
}

#[test]
fn token_validity_honours_the_margin() {
    let t = token_expiring_at(NOW + 30);
    assert!(!t.valid_at(NOW));
    let t = token_expiring_at(NOW + 31);
    assert!(t.valid_at(NOW));
}

#[test]
fn cache_file_name_is_the_hex_digest() {
    let cache = AccessTokenCache::new("sso-example", "/home/user/.aws");
    assert_eq!(
        cache.cache_file_name(),
        "8542816599080d261c79d29647efc0d1dcf857a4.json"
    );
}

#[test]
fn cache_write_then_read_returns_the_token() {
    let token = token_expiring_at(NOW + 3600);
    let mut cache = AccessTokenCache::new("sso-example", "/home/user/.aws");
    let returned = cache.cache_token(token);
    let got = cache.get_cached_token().expect("cached token should read back");
    assert_eq!(got.access_token, returned.access_token);
    assert_eq!(got.expires_at, returned.expires_at);
    assert_eq!(
        got.issuing_session.raw_start_url,
        returned.issuing_session.raw_start_url
    );
    assert_eq!(got.issuing_session.canonical_name, "sso-example");
}

#[test]
fn cache_round_trip_survives_awkward_characters() {
    let mut token = token_expiring_at(u64::MAX);
    token.access_token = String::from("a\"b\\c\nd\te\u{1}f");
    let mut cache = AccessTokenCache::new("sso-example", "/home/user/.aws");
    cache.cache_token(token.clone());
    let got = cache.get_cached_token().expect("cached token should read back");
    assert_eq!(got.access_token, token.access_token);
    assert_eq!(got.expires_at, token.expires_at);
}

#[test]
fn corrupt_cache_contents_read_as_no_token() {
    let mut cache = AccessTokenCache::new("sso-example", "/home/user/.aws");
    assert!(cache.get_cached_token().is_none());
    cache.load_entry(String::from("not a record"));
    assert!(cache.get_cached_token().is_none());
    cache.load_entry(String::from("{}"));
    assert!(cache.get_cached_token().is_none());
    cache.load_entry(String::from(
        "{\"accessToken\":\"t\",\"expiresAt\":5,\"startUrl\":\"nodots\"}",
    ));
    assert!(cache.get_cached_token().is_none());
}

#[test]
fn record_codec_round_trip() {
    let encoded = encode_record("tok", 5, "https://e.x/s");
    let (tv, ea, url) = decode_record(&encoded).expect("encoded record should decode");
    assert_eq!(tv, "tok");
    assert_eq!(ea, 5);
    assert_eq!(url, "https://e.x/s");
}

#[test]
fn fresh_cached_token_is_returned_without_any_network_step() {
    let token = token_expiring_at(NOW + 3600);
    let cache = cache_with(&token);
    let flow = DeviceAuthorizationFlow::begin(START_URL, "us-east-1", false, &cache, NOW).unwrap();
    assert!(matches!(flow.next_action(), FlowAction::Finish));
    let got = flow.outcome().expect("flow should be finished").unwrap();
    assert_eq!(got.access_token, token.access_token);
    assert_eq!(got.expires_at, token.expires_at);
}

#[test]
fn expired_cached_token_forces_reauthorization() {
    let token = token_expiring_at(NOW - 10);
    let cache = cache_with(&token);
    let flow = DeviceAuthorizationFlow::begin(START_URL, "us-east-1", false, &cache, NOW).unwrap();
    assert!(flow.outcome().is_none());
    assert!(matches!(flow.next_action(), FlowAction::Register));
}

#[test]
fn force_new_skips_a_fresh_cached_token() {
    let token = token_expiring_at(NOW + 3600);
    let cache = cache_with(&token);
    let flow = DeviceAuthorizationFlow::begin(START_URL, "us-east-1", true, &cache, NOW).unwrap();
    assert!(matches!(flow.next_action(), FlowAction::Register));
}

#[test]
fn begin_rejects_an_invalid_start_url() {
    let cache = AccessTokenCache::new("sso-example", "/home/user/.aws");
    let r = DeviceAuthorizationFlow::begin("", "us-east-1", false, &cache, NOW);
    assert!(matches!(r, Err(AuthError::InvalidStartUrl)));
}

fn start_events(flow: &mut DeviceAuthorizationFlow, cache: &mut AccessTokenCache) {
    flow.step(cache, FlowEvent::Registered, NOW);
    assert!(matches!(flow.next_action(), FlowAction::StartAuthorization));
    flow.step(
        cache,
        FlowEvent::AuthorizationStarted {
            verification_url: String::from("https://device.sso.us-east-1.amazonaws.com/"),
            user_code: String::from("ABCD-EFGH"),
            interval_secs: 5,
        },
        NOW,
    );
}

#[test]
fn pending_polls_then_success_caches_and_returns_the_token() {
    let mut cache = AccessTokenCache::new("sso-example", "/home/user/.aws");
    let mut flow =
        DeviceAuthorizationFlow::begin(START_URL, "us-east-1", false, &cache, NOW).unwrap();
    assert!(matches!(flow.next_action(), FlowAction::Register));
    start_events(&mut flow, &mut cache);
    let (url, code) = flow.token_prompt().expect("prompt should be on display");
    assert_eq!(url, "https://device.sso.us-east-1.amazonaws.com/");
    assert_eq!(code, "ABCD-EFGH");
    for _ in 0..3 {
        assert!(matches!(flow.next_action(), FlowAction::Poll { wait_secs: 5 }));
        flow.step(&mut cache, FlowEvent::AuthorizationPending, NOW);
    }
    flow.step(
        &mut cache,
        FlowEvent::TokenIssued {
            access_token: String::from("issued-token"),
            expires_in_secs: 28800,
        },
        NOW,
    );
    assert!(matches!(flow.next_action(), FlowAction::Finish));
    let token = flow.outcome().expect("flow should be finished").unwrap();
    assert_eq!(token.access_token, "issued-token");
    assert_eq!(token.expires_at, NOW + 28800);
    assert_eq!(token.issuing_session.canonical_name, "sso-example");
    let cached = cache.get_cached_token().expect("cache should hold the token");
    assert_eq!(cached.access_token, "issued-token");
    assert_eq!(cached.expires_at, NOW + 28800);
    assert_eq!(
        cache.entry.as_deref(),
        Some(encode_record("issued-token", NOW + 28800, START_URL).as_str())
    );
}

#[test]
fn a_token_inside_the_expiry_margin_is_a_provider_failure() {
    for lifetime in [0, 30] {
        let mut cache = AccessTokenCache::new("sso-example", "/home/user/.aws");
        let mut flow =
            DeviceAuthorizationFlow::begin(START_URL, "us-east-1", false, &cache, NOW).unwrap();
        start_events(&mut flow, &mut cache);
        flow.step(
            &mut cache,
            FlowEvent::TokenIssued {
                access_token: String::from("short-lived"),
                expires_in_secs: lifetime,
            },
            NOW,
        );
        let outcome = flow.outcome().expect("flow should be finished");
        assert_eq!(outcome.unwrap_err(), AuthError::ProviderUnavailable);
        assert!(cache.get_cached_token().is_none());
    }
}

#[test]
fn a_token_just_clearing_the_margin_is_accepted() {
    let mut cache = AccessTokenCache::new("sso-example", "/home/user/.aws");
    let mut flow =
        DeviceAuthorizationFlow::begin(START_URL, "us-east-1", false, &cache, NOW).unwrap();
    start_events(&mut flow, &mut cache);
    flow.step(
        &mut cache,
        FlowEvent::TokenIssued {
            access_token: String::from("just-long-enough"),
            expires_in_secs: 31,
        },
        NOW,
    );
    let token = flow.outcome().expect("flow should be finished").unwrap();
    assert_eq!(token.expires_at, NOW + 31);
    assert!(token.valid_at(NOW));
}

#[test]
fn slow_down_widens_the_polling_interval() {
    let mut cache = AccessTokenCache::new("sso-example", "/home/user/.aws");
    let mut flow =
        DeviceAuthorizationFlow::begin(START_URL, "us-east-1", false, &cache, NOW).unwrap();
    start_events(&mut flow, &mut cache);
    flow.step(&mut cache, FlowEvent::SlowDown, NOW);
    assert!(matches!(flow.next_action(), FlowAction::Poll { wait_secs: 10 }));
}

#[test]
fn terminal_poll_outcomes() {
    for (event, expected) in [
        (FlowEvent::Expired, AuthError::AuthorizationExpired),
        (FlowEvent::Denied, AuthError::AuthorizationDenied),
        (FlowEvent::TransportFailed, AuthError::ProviderUnavailable),
        (FlowEvent::Cancelled, AuthError::Cancelled),
    ] {
        let mut cache = AccessTokenCache::new("sso-example", "/home/user/.aws");
        let mut flow =
            DeviceAuthorizationFlow::begin(START_URL, "us-east-1", false, &cache, NOW).unwrap();
        start_events(&mut flow, &mut cache);
        flow.step(&mut cache, event, NOW);
        let outcome = flow.outcome().expect("flow should be finished");
        assert_eq!(outcome.unwrap_err(), expected);
        assert!(cache.get_cached_token().is_none());
    }
}
