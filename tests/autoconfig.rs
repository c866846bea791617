use bichon::account::Encryption;
use bichon::autoconfig::{
    email_domain, encryption_for, probe_address, mail_server_config_from, port_for, CacheLookup,
    CachedMailSettings, DiscoveredConfig, DiscoveredServer, MailServerConfig, OAuth2Config,
    SecurityType, ServerConfig, ServerType,
};
use bichon::error::ErrorCode;

const DAY_MS: i64 = 86_400_000;

fn server(t: ServerType, host: Option<&str>, port: Option<u16>, sec: Option<SecurityType>) -> DiscoveredServer {
    DiscoveredServer {
        server_type: t,
        hostname: host.map(|h| h.to_string()),
        port,
        security_type: sec,
    }
}

#[test]
fn email_domain_is_parsed() {
    assert_eq!(email_domain("alice@example.com").unwrap(), "example.com");
    assert_eq!(email_domain("not an address").unwrap_err().code, ErrorCode::InvalidParameter);
}

#[test]
fn encryption_and_port_defaults() {
    assert_eq!(encryption_for(Some(SecurityType::Plain)), Encryption::Unencrypted);
    assert_eq!(encryption_for(Some(SecurityType::Starttls)), Encryption::StartTls);
    assert_eq!(encryption_for(Some(SecurityType::Tls)), Encryption::Ssl);
    assert_eq!(encryption_for(None), Encryption::Unencrypted);
    assert_eq!(port_for(None, Encryption::StartTls), 993);
    assert_eq!(port_for(None, Encryption::Ssl), 143);
    assert_eq!(port_for(None, Encryption::Unencrypted), 143);
    assert_eq!(port_for(Some(1993), Encryption::StartTls), 1993);
}

#[test]
fn first_imap_server_seeds_the_account() {
    let oauth2 = OAuth2Config {
        issuer: "https://issuer".to_string(),
        scope: vec!["mail".to_string()],
        auth_url: "https://auth".to_string(),
        token_url: "https://token".to_string(),
    };
    let config = DiscoveredConfig {
        incoming_servers: vec![
            server(ServerType::Pop3, Some("pop.example.com"), Some(995), Some(SecurityType::Tls)),
            server(ServerType::Imap, None, None, Some(SecurityType::Starttls)),
            server(ServerType::Imap, Some("other.example.com"), Some(143), None),
        ],
        oauth2: Some(oauth2.clone()),
    };
    let derived = mail_server_config_from(&config, "example.com").unwrap();
    assert_eq!(
        derived,
        MailServerConfig {
            imap: ServerConfig::new("imap.example.com".to_string(), 993, Encryption::StartTls),
            oauth2: Some(oauth2),
        }
    );
}

#[test]
fn reported_host_and_port_are_kept() {
    let config = DiscoveredConfig {
        incoming_servers: vec![server(ServerType::Imap, Some("mx.example.org"), Some(10993), Some(SecurityType::Tls))],
        oauth2: None,
    };
    let derived = mail_server_config_from(&config, "example.org").unwrap();
    assert_eq!(derived.imap, ServerConfig::new("mx.example.org".to_string(), 10993, Encryption::Ssl));
    assert_eq!(derived.oauth2, None);
}

#[test]
fn no_imap_server_yields_none() {
    let config = DiscoveredConfig {
        incoming_servers: vec![server(ServerType::Pop3, None, None, None)],
        oauth2: None,
    };
    assert!(mail_server_config_from(&config, "example.com").is_none());
}

#[test]
fn cache_entries_expire_after_thirty_days() {
    let entry = CachedMailSettings::add("example.com".to_string(), MailServerConfig::default(), 0);
    match CachedMailSettings::get(Some(entry.clone()), 30 * DAY_MS) {
        CacheLookup::Hit(found) => assert_eq!(found, entry),
        other => panic!("unexpected {:?}", other),
    }
    assert!(matches!(CachedMailSettings::get(Some(entry.clone()), 30 * DAY_MS + 1), CacheLookup::Stale));
    assert!(matches!(CachedMailSettings::get(None, 0), CacheLookup::Miss));
    assert!(entry.is_stale(31 * DAY_MS));
}

#[test]
fn probe_uses_the_bare_address() {
    assert_eq!(probe_address("Alice <alice@example.com>").unwrap(), "alice@example.com");
    assert_eq!(email_domain("Alice <alice@example.com>").unwrap(), "example.com");
    assert_eq!(probe_address("bob@example.org").unwrap(), "bob@example.org");
    assert_eq!(probe_address("nobody").unwrap_err().code, ErrorCode::InvalidParameter);
}
