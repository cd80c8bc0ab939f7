//! Account directory, credential exchange, console federation and
//! the application model helpers.
use assumer::directory::list_accounts;
use assumer::directory::list_roles;
use assumer::directory::sort_accounts;
use assumer::directory::AccountInfo;
use assumer::directory::ProviderResponse;
use assumer::directory::RawAccount;
use assumer::errors::DirectoryError;
use assumer::errors::ExchangeError;
use assumer::errors::FederationError;
use assumer::exchange::get_role_credentials;
use assumer::exchange::RawRoleCredentials;
use assumer::exchange::RoleCredentials;
use assumer::federation::build_link;
use assumer::federation::build_login_url;
use assumer::federation::granted_container_url;
use assumer::federation::parse_signin_token;
use assumer::federation::profile_name;
use assumer::federation::signin_token_url;
use assumer::federation::FederatedConsoleLink;
use assumer::model::account_rows;
use assumer::model::default_config_options;
use assumer::model::next_index;
use assumer::model::previous_index;
use assumer::model::ConfigOption;
use assumer::model::ConfigOptions;

fn raw(id: &str, name: Option<&str>) -> RawAccount {
    RawAccount {
        account_id: Some(String::from(id)),
        account_name: name.map(String::from),
    }
}

fn names_and_ids(accounts: &[AccountInfo]) -> Vec<(String, String)> {
    accounts
        .iter()
        .map(|a| (a.account_name.clone(), a.account_id.clone()))
        .collect()
}

#[test]
fn accounts_come_back_sorted_by_name_then_id() {
    let rows = vec![
        raw("222", Some("prod")),
        raw("111", Some("dev")),
        raw("333", Some("prod")),
        raw("044", Some("dev")),
    ];
    let accounts = list_accounts(ProviderResponse::Success(rows)).unwrap();
    assert_eq!(
        names_and_ids(&accounts),
        vec![
            (String::from("dev"), String::from("044")),
            (String::from("dev"), String::from("111")),
            (String::from("prod"), String::from("222")),
            (String::from("prod"), String::from("333")),
        ]
    );
    assert!(accounts.iter().all(|a| a.roles.is_empty()));
}

#[test]
fn account_without_a_name_reads_as_unknown() {
    let rows = vec![raw("999", None), raw("111", Some("alpha"))];
    let accounts = list_accounts(ProviderResponse::Success(rows)).unwrap();
    assert_eq!(
        names_and_ids(&accounts),
        vec![
            (String::from("alpha"), String::from("111")),
            (String::from("unknown"), String::from("999")),
        ]
    );
}

#[test]
fn account_without_an_id_is_a_malformed_response() {
    let rows = vec![
        raw("111", Some("alpha")),
        RawAccount { account_id: None, account_name: Some(String::from("beta")) },
    ];
    assert_eq!(
        list_accounts(ProviderResponse::Success(rows)).unwrap_err(),
        DirectoryError::MalformedResponse
    );
}

#[test]
fn directory_maps_provider_failures() {
    assert_eq!(
        list_accounts(ProviderResponse::Unauthorized).unwrap_err(),
        DirectoryError::TokenExpired
    );
    assert_eq!(
        list_accounts(ProviderResponse::Unavailable).unwrap_err(),
        DirectoryError::ProviderUnavailable
    );
    assert_eq!(
        list_roles(ProviderResponse::Unauthorized).unwrap_err(),
        DirectoryError::TokenExpired
    );
}

#[test]
fn sorting_keeps_every_account() {
    let mk = |name: &str, id: &str| AccountInfo {
        account_name: String::from(name),
        account_id: String::from(id),
        roles: Vec::new(),
    };
    let sorted = sort_accounts(vec![mk("b", "2"), mk("a", "9"), mk("b", "1")]);
    assert_eq!(
        names_and_ids(&sorted),
        vec![
            (String::from("a"), String::from("9")),
            (String::from("b"), String::from("1")),
            (String::from("b"), String::from("2")),
        ]
    );
}

#[test]
fn roles_keep_the_provider_order() {
    let rows = vec![
        Some(String::from("Admin")),
        Some(String::from("ReadOnly")),
        Some(String::from("Audit")),
    ];
    let roles = list_roles(ProviderResponse::Success(rows)).unwrap();
    assert_eq!(roles, vec!["Admin", "ReadOnly", "Audit"]);
}

#[test]
fn an_empty_role_list_is_no_error() {
    let roles = list_roles(ProviderResponse::Success(Vec::new())).unwrap();
    assert!(roles.is_empty());
}

#[test]
fn role_without_a_name_is_a_malformed_response() {
    let rows = vec![Some(String::from("Admin")), None];
    assert_eq!(
        list_roles(ProviderResponse::Success(rows)).unwrap_err(),
        DirectoryError::MalformedResponse
    );
}

fn full_raw_credentials() -> RawRoleCredentials {
    RawRoleCredentials {
        access_key_id: Some(String::from("AKID")),
        secret_access_key: Some(String::from("SECRET")),
        session_token: Some(String::from("TOK")),
        expiration: Some(1_700_003_600_000),
    }
}

#[test]
fn exchange_returns_every_field() {
    let creds =
        get_role_credentials(ProviderResponse::Success(Some(full_raw_credentials()))).unwrap();
    assert_eq!(creds.access_key_id, "AKID");
    assert_eq!(creds.secret_access_key, "SECRET");
    assert_eq!(creds.session_token, "TOK");
    assert_eq!(creds.expiration, "1700003600000");
}

#[test]
fn exchange_renders_a_negative_expiration() {
    let mut raw = full_raw_credentials();
    raw.expiration = Some(-5);
    let creds = get_role_credentials(ProviderResponse::Success(Some(raw))).unwrap();
    assert_eq!(creds.expiration, "-5");
}

#[test]
fn missing_secret_access_key_is_a_malformed_response() {
    let mut raw = full_raw_credentials();
    raw.secret_access_key = None;
    assert_eq!(
        get_role_credentials(ProviderResponse::Success(Some(raw))).unwrap_err(),
        ExchangeError::MalformedResponse
    );
}

#[test]
fn missing_expiration_is_a_malformed_response() {
    let mut raw = full_raw_credentials();
    raw.expiration = None;
    assert_eq!(
        get_role_credentials(ProviderResponse::Success(Some(raw))).unwrap_err(),
        ExchangeError::MalformedResponse
    );
}

#[test]
fn missing_credential_payload_is_a_malformed_response() {
    assert_eq!(
        get_role_credentials(ProviderResponse::Success(None)).unwrap_err(),
        ExchangeError::MalformedResponse
    );
    assert_eq!(
        get_role_credentials(ProviderResponse::Unauthorized).unwrap_err(),
        ExchangeError::TokenExpired
    );
    assert_eq!(
        get_role_credentials(ProviderResponse::Unavailable).unwrap_err(),
        ExchangeError::ProviderUnavailable
    );
}

#[test]
fn repeated_exchanges_agree_on_the_same_response() {
    let a = get_role_credentials(ProviderResponse::Success(Some(full_raw_credentials()))).unwrap();
    let b = get_role_credentials(ProviderResponse::Success(Some(full_raw_credentials()))).unwrap();
    assert_eq!(a, b);
}

#[test]
fn signin_request_url_form_encodes_the_session_blob() {
    let creds = RoleCredentials {
        access_key_id: String::from("AKID"),
        secret_access_key: String::from("SECRET"),
        session_token: String::from("TOK"),
        expiration: String::from("0"),
    };
    assert_eq!(
        signin_token_url(&creds),
        "https://signin.aws.amazon.com/federation?Action=getSigninToken&SessionDuration=43200&\
         Session=%7B%22sessionId%22%3A%22AKID%22%2C%22sessionKey%22%3A%22SECRET%22%2C%22\
         sessionToken%22%3A%22TOK%22%7D"
    );
}

#[test]
fn signin_token_is_read_from_the_response() {
    assert_eq!(
        parse_signin_token("{\"SigninToken\":\"abc123\"}").unwrap(),
        "abc123"
    );
    assert_eq!(
        parse_signin_token("{\"Other\":\"x\",\"SigninToken\":\"t\"}").unwrap(),
        "t"
    );
}

#[test]
fn missing_signin_token_is_reported() {
    for body in ["{}", "{\"Other\":\"x\"}", "not json", ""] {
        assert_eq!(
            parse_signin_token(body).unwrap_err(),
            FederationError::MissingSigninToken
        );
    }
}

#[test]
fn login_url_fixes_the_console_destination() {
    assert_eq!(
        build_login_url("TOKEN"),
        "https://signin.aws.amazon.com/federation?Action=login&Issuer=&\
         Destination=https%3A%2F%2Fconsole.aws.amazon.com%2F&SigninToken=TOKEN"
    );
}

#[test]
fn profile_name_joins_account_and_role() {
    assert_eq!(profile_name("123456789012", "Admin"), "aws-sso-123456789012-Admin");
}

#[test]
fn build_link_assembles_url_and_profile() {
    let account = AccountInfo {
        account_name: String::from("prod"),
        account_id: String::from("123456789012"),
        roles: Vec::new(),
    };
    let link = build_link(&account, "Admin", "{\"SigninToken\":\"T\"}").unwrap();
    assert_eq!(link.profile_name, "aws-sso-123456789012-Admin");
    assert_eq!(
        link.url,
        "https://signin.aws.amazon.com/federation?Action=login&Issuer=&\
         Destination=https%3A%2F%2Fconsole.aws.amazon.com%2F&SigninToken=T"
    );
    assert_eq!(
        build_link(&account, "Admin", "{}").unwrap_err(),
        FederationError::MissingSigninToken
    );
}

#[test]
fn container_url_percent_encodes_the_link() {
    let link = FederatedConsoleLink {
        profile_name: String::from("p"),
        url: String::from("https://x/?a=b"),
    };
    assert_eq!(
        granted_container_url(&link),
        "ext+granted-containers:name=p&url=https%3A%2F%2Fx%2F%3Fa%3Db"
    );
}

fn config(pairs: &[(&str, &str)]) -> ConfigOptions {
    ConfigOptions {
        options: pairs
            .iter()
            .map(|(n, v)| ConfigOption { name: String::from(*n), value: String::from(*v) })
            .collect(),
    }
}

#[test]
fn config_lookup_finds_the_first_match() {
    let opts = config(&[("region", "us-east-1"), ("region", "eu-west-1")]);
    assert_eq!(opts.get("region").as_deref(), Some("us-east-1"));
    assert_eq!(opts.get("start_url"), None);
}

#[test]
fn defaults_are_merged_with_loaded_values() {
    let defaults = default_config_options("/home/user/.aws");
    assert_eq!(defaults.get("start_url").as_deref(), Some(""));
    assert_eq!(defaults.get("aws_config_path").as_deref(), Some("/home/user/.aws"));
    assert_eq!(defaults.get("region").as_deref(), Some("us-east-1"));
    let loaded = config(&[("start_url", "https://example.awsapps.com/start")]);
    let merged = defaults.merged(&loaded);
    assert_eq!(
        merged.get("start_url").as_deref(),
        Some("https://example.awsapps.com/start")
    );
    assert_eq!(merged.get("region").as_deref(), Some("us-east-1"));
}

#[test]
fn rows_mirror_the_account_listing() {
    let accounts = vec![AccountInfo {
        account_name: String::from("dev"),
        account_id: String::from("111"),
        roles: vec![String::from("Admin")],
    }];
    let rows = account_rows(&accounts);
    assert_eq!(rows.len(), 1);
    assert_eq!(rows[0].account_name, "dev");
    assert_eq!(rows[0].account_id, "111");
    assert_eq!(rows[0].roles, vec!["Admin"]);
}

#[test]
fn selection_wraps_around_both_ways() {
    assert_eq!(next_index(None, 3), 0);
    assert_eq!(next_index(Some(0), 3), 1);
    assert_eq!(next_index(Some(2), 3), 0);
    assert_eq!(previous_index(None, 3), 0);
    assert_eq!(previous_index(Some(0), 3), 2);
    assert_eq!(previous_index(Some(2), 3), 1);
}
