//! The commands of the tool.

use corevisor::commands::{
    apply_login, apply_sync, apply_sync_all, chrono_now, credential_report, fetched_name,
    known_name, login_report, normalized_hub_url, resolve_profile, serve_profile, serve_session,
    sync_scope, sync_session, typed_credential, FetchedProfile, SyncScope,
};
use corevisor::config::{AppConfig, ProfileConfig};
use corevisor::hub_client::ProfileResponse;
use corevisor::types::{CredentialEntry, ServiceConfig};

fn fetched(id: &str, name: &str) -> FetchedProfile {
    FetchedProfile {
        id: id.to_string(),
        name: name.to_string(),
        services: vec![ServiceConfig {
            domain: "a.com".to_string(),
            catalog_id: None,
            header_name: "Authorization".to_string(),
        }],
        synced_at: "7Z".to_string(),
    }
}

fn config_with(profiles: &[(&str, &str)]) -> AppConfig {
    let mut config = AppConfig::new();
    for (id, name) in profiles {
        config.insert_profile(
            id.to_string(),
            ProfileConfig {
                name: name.to_string(),
                services: vec![],
                synced_at: None,
            },
        );
    }
    config
}

#[test]
fn profile_by_name_and_by_id() {
    let config = config_with(&[("1", "work"), ("2", "home")]);
    assert_eq!(resolve_profile(&config, Some("home")), Ok("2".to_string()));
    assert_eq!(resolve_profile(&config, Some("1")), Ok("1".to_string()));
}

#[test]
fn profile_name_comes_before_id() {
    let config = config_with(&[("x", "work"), ("2", "x")]);
    assert_eq!(resolve_profile(&config, Some("x")), Ok("2".to_string()));
}

#[test]
fn profile_not_found() {
    let config = config_with(&[("1", "work")]);
    assert_eq!(
        resolve_profile(&config, Some("nope")),
        Err("profile 'nope' not found. Run `cv sync` first.".to_string())
    );
}

#[test]
fn default_profile() {
    let mut config = AppConfig::new();
    assert_eq!(
        resolve_profile(&config, None),
        Err("no default profile set. Use --profile or run `cv login`".to_string())
    );
    config.default_profile = Some("1".to_string());
    assert_eq!(resolve_profile(&config, None), Ok("1".to_string()));
}

#[test]
fn serving_needs_a_profile_and_a_login() {
    let mut config = config_with(&[("1", "work")]);
    assert_eq!(serve_profile(&config, "1").unwrap().name, "work");
    assert_eq!(
        serve_profile(&config, "2").unwrap_err(),
        "profile not found in local config"
    );
    assert_eq!(
        serve_session(&config).unwrap_err(),
        "not logged in. Run `cv login` first."
    );
    config.hub_url = Some("https://hub".to_string());
    assert_eq!(
        serve_session(&config).unwrap_err(),
        "not logged in. Run `cv login` first."
    );
    assert_eq!(
        sync_session(&config).unwrap_err(),
        "no OAuth token. Run `cv login` first."
    );
    config.oauth_token = Some("t".to_string());
    let client = serve_session(&config).unwrap();
    assert_eq!(client.hub_url, "https://hub");
    assert_eq!(client.oauth_token, "t");
    config.hub_url = None;
    assert_eq!(
        sync_session(&config).unwrap_err(),
        "not logged in. Run `cv login` first."
    );
}

#[test]
fn hub_url_loses_its_trailing_slashes() {
    assert_eq!(normalized_hub_url("https://hub//"), "https://hub");
    assert_eq!(normalized_hub_url("https://hub/a"), "https://hub/a");
    assert_eq!(normalized_hub_url("///"), "");
    assert_eq!(normalized_hub_url(""), "");
}

#[test]
fn login_makes_ready_to_serve() {
    let mut config = config_with(&[("1", "old"), ("9", "kept")]);
    apply_login(
        &mut config,
        "https://hub".to_string(),
        "t".to_string(),
        vec![fetched("2", "two"), fetched("1", "one")],
    );
    assert_eq!(resolve_profile(&config, None), Ok("2".to_string()));
    assert_eq!(serve_profile(&config, "1").unwrap().name, "one");
    assert_eq!(serve_profile(&config, "1").unwrap().services.len(), 1);
    assert_eq!(serve_profile(&config, "1").unwrap().synced_at.as_deref(), Some("7Z"));
    assert_eq!(serve_profile(&config, "9").unwrap().name, "kept");
    assert_eq!(config.profiles.len(), 3);
    assert_eq!(serve_session(&config).unwrap().oauth_token, "t");
}

#[test]
fn login_without_profiles_keeps_the_default() {
    let mut config = AppConfig::new();
    config.default_profile = Some("1".to_string());
    apply_login(&mut config, "u".to_string(), "t".to_string(), vec![]);
    assert_eq!(config.default_profile.as_deref(), Some("1"));
    assert_eq!(config.hub_url.as_deref(), Some("u"));
}

#[test]
fn login_is_reported() {
    assert_eq!(
        login_report(&vec![fetched("2", "two"), fetched("1", "one")]),
        vec!["Logged in. 2 profile(s) synced.", "  - two (2)", "  - one (1)"]
    );
    assert_eq!(login_report(&vec![]), vec!["Logged in. 0 profile(s) synced."]);
}

#[test]
fn sync_updates_one_profile() {
    let mut config = config_with(&[("1", "work"), ("2", "home")]);
    let report = apply_sync(
        &mut config,
        "1",
        "work".to_string(),
        fetched("1", "work").services,
        "8Z".to_string(),
    );
    assert_eq!(report, "Synced profile 'work' (1 services)");
    assert_eq!(config.profiles.len(), 2);
    assert_eq!(config.get_profile("1").unwrap().services[0].domain, "a.com");
    assert_eq!(config.get_profile("1").unwrap().synced_at.as_deref(), Some("8Z"));
    assert!(config.get_profile("2").unwrap().services.is_empty());
}

#[test]
fn sync_is_about_one_profile_or_all() {
    let mut config = config_with(&[("1", "work")]);
    config.default_profile = Some("1".to_string());
    assert_eq!(sync_scope(&config, None), Ok(SyncScope::All));
    assert_eq!(
        sync_scope(&config, Some("work")),
        Ok(SyncScope::One("1".to_string()))
    );
    assert_eq!(
        sync_scope(&config, Some("home")),
        Err("profile 'home' not found. Run `cv sync` first.".to_string())
    );
}

#[test]
fn sync_of_all_keeps_known_names() {
    let mut config = config_with(&[("1", "work"), ("9", "kept")]);
    let report = apply_sync_all(&mut config, vec![fetched("2", "home"), fetched("1", "renamed")]);
    assert_eq!(
        report,
        vec![
            "Synced profile 'home' (1 services)",
            "Synced profile 'work' (1 services)"
        ]
    );
    assert_eq!(config.profiles.len(), 3);
    assert_eq!(config.get_profile("1").unwrap().name, "work");
    assert_eq!(config.get_profile("1").unwrap().services.len(), 1);
    assert!(config.get_profile("9").unwrap().services.is_empty());
    assert_eq!(resolve_profile(&config, Some("2")), Ok("2".to_string()));
    assert_eq!(config.default_profile, None);
}

#[test]
fn sync_finds_the_name() {
    let config = config_with(&[("1", "work")]);
    assert_eq!(known_name(&config, "1"), Some("work".to_string()));
    assert_eq!(known_name(&config, "2"), None);
    let profiles = vec![ProfileResponse {
        id: "2".to_string(),
        name: "home".to_string(),
    }];
    assert_eq!(fetched_name(&profiles, "2"), "home");
    assert_eq!(fetched_name(&profiles, "3"), "3");
}

#[test]
fn typed_credential_is_trimmed() {
    let entry = typed_credential("p", "a.com", "X-Key", " \tsecret key\n").unwrap();
    assert_eq!(entry.header_value, "secret key");
    assert_eq!(entry.header_name, "X-Key");
    assert_eq!(entry.domain, "a.com");
    assert_eq!(entry.profile_id, "p");
}

#[test]
fn typed_credential_is_not_empty() {
    assert_eq!(
        typed_credential("p", "a.com", "X-Key", " \u{2003}\n").unwrap_err(),
        "credential value cannot be empty"
    );
}

#[test]
fn credentials_are_listed_without_values() {
    let entry = CredentialEntry {
        profile_id: "p".to_string(),
        domain: "a.com".to_string(),
        header_name: "Authorization".to_string(),
        header_value: "secret".to_string(),
    };
    assert_eq!(
        credential_report(&vec![entry]),
        vec!["  a.com — header: Authorization"]
    );
    assert_eq!(
        credential_report(&vec![]),
        vec!["No credentials stored for this profile."]
    );
}

#[test]
fn timestamp_is_seconds_and_a_letter() {
    assert_eq!(chrono_now(0), "0Z");
    assert_eq!(chrono_now(1700000000), "1700000000Z");
    assert_eq!(chrono_now(u64::MAX), "18446744073709551615Z");
}
