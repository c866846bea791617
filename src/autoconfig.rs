use vstd::prelude::*;

use crate::account::Encryption;
use crate::error::{BichonError, BichonResult, ErrorCode};

verus! {

/// A cached autoconfig entry older than this (ms) is stale.
pub const EXPIRE_TIME_MS: i64 = 2592000000;

/// Port assumed for a server that reports STARTTLS but no port.
pub const DEFAULT_TLS_PORT: u16 = 993;

/// Port assumed for any other server that reports no port.
pub const DEFAULT_PLAIN_PORT: u16 = 143;

/// The domain part of `s` when `s` parses as an email address.
pub uninterp spec fn email_domain_of(s: Seq<char>) -> Option<Seq<char>>;

/// Relies on `EmailAddress::from_str` of the `email_address` crate, which
/// accepts or refuses `s` as an address, and on `EmailAddress::domain`,
/// which returns the domain part of an accepted address.
#[verifier::external_body]
fn parse_email_domain(s: &str) -> (r: Option<String>)
    ensures
        r is Some <==> email_domain_of(s@) is Some,
        r is Some ==> r->0@ == email_domain_of(s@)->0,
{
    <email_address::EmailAddress as std::str::FromStr>::from_str(s).ok().map(
        |e| e.domain().to_string(),
    )
}

/// The bare address (local part `@` domain, no display name) of `s` when
/// `s` parses as an email address.
pub uninterp spec fn email_bare_of(s: Seq<char>) -> Seq<char>;

/// Relies on `EmailAddress::from_str`, as `parse_email_domain` does, and on
/// `EmailAddress::email`, which returns the address without its display name.
#[verifier::external_body]
fn parse_bare_email(s: &str) -> (r: Option<String>)
    ensures
        r is Some <==> email_domain_of(s@) is Some,
        r is Some ==> r->0@ == email_bare_of(s@),
{
    <email_address::EmailAddress as std::str::FromStr>::from_str(s).ok().map(|e| e.email())
}

/// The address to probe for autoconfig: the bare form of `email`;
/// `InvalidParameter` when it does not parse.
pub fn probe_address(email: &str) -> (r: BichonResult<String>)
    ensures
        r is Ok <==> email_domain_of(email@) is Some,
        r matches Ok(a) ==> a@ == email_bare_of(email@),
        r matches Err(e) ==> e.code == ErrorCode::InvalidParameter,
{
    match parse_bare_email(email) {
        Some(a) => Ok(a),
        None => Err(
            BichonError::new(ErrorCode::InvalidParameter, "Invalid email address".to_string()),
        ),
    }
}

/// Server settings of one protocol.
#[derive(Debug, Default, PartialEq, Eq)]
pub struct ServerConfig {
    pub host: String,
    pub port: u16,
    pub encryption: Encryption,
}

impl Clone for ServerConfig {
    fn clone(&self) -> (r: Self)
        ensures
            r == *self,
    {
        ServerConfig { host: self.host.clone(), port: self.port, encryption: self.encryption }
    }
}

impl ServerConfig {
    pub fn new(host: String, port: u16, encryption: Encryption) -> (r: Self)
        ensures
            r == (ServerConfig { host, port, encryption }),
    {
        ServerConfig { host, port, encryption }
    }
}

/// OAuth2 endpoints published by a provider.
#[derive(Debug, Default, PartialEq, Eq)]
pub struct OAuth2Config {
    pub issuer: String,
    pub scope: Vec<String>,
    pub auth_url: String,
    pub token_url: String,
}

impl OAuth2Config {
    /// Both configs hold the same endpoints and scopes.
    pub open spec fn same_as(&self, other: &OAuth2Config) -> bool {
        &&& self.issuer == other.issuer
        &&& self.scope@ == other.scope@
        &&& self.auth_url == other.auth_url
        &&& self.token_url == other.token_url
    }
}

impl Clone for OAuth2Config {
    fn clone(&self) -> (r: Self)
        ensures
            r.same_as(self),
    {
        let mut scope: Vec<String> = Vec::new();
        let mut k: usize = 0;
        while k < self.scope.len()
            invariant
                0 <= k <= self.scope.len(),
                scope@ == self.scope@.subrange(0, k as int),
            decreases self.scope.len() - k,
        {
            scope.push(self.scope[k].clone());
            k = k + 1;
            assert(scope@ =~= self.scope@.subrange(0, k as int));
        }
        assert(self.scope@.subrange(0, k as int) =~= self.scope@);
        OAuth2Config {
            issuer: self.issuer.clone(),
            scope,
            auth_url: self.auth_url.clone(),
            token_url: self.token_url.clone(),
        }
    }
}

/// Both are absent, or both present with the same contents.
pub open spec fn same_oauth2(a: Option<OAuth2Config>, b: Option<OAuth2Config>) -> bool {
    match (a, b) {
        (Some(x), Some(y)) => x.same_as(&y),
        (None, None) => true,
        _ => false,
    }
}

/// The settings that seed a new account.
#[derive(Clone, Debug, Default, PartialEq, Eq)]
pub struct MailServerConfig {
    pub imap: ServerConfig,
    pub oauth2: Option<OAuth2Config>,
}

/// Transport security that an autoconfig document reports.
#[derive(Clone, Copy, Debug, PartialEq, Eq, Structural)]
pub enum SecurityType {
    Plain,
    Starttls,
    Tls,
}

/// Protocol of a server in an autoconfig document.
#[derive(Clone, Copy, Debug, PartialEq, Eq, Structural)]
pub enum ServerType {
    Exchange,
    Imap,
    Pop3,
    Smtp,
}

/// One server entry of an autoconfig document.
#[derive(Clone, Debug, PartialEq, Eq)]
pub struct DiscoveredServer {
    pub server_type: ServerType,
    pub hostname: Option<String>,
    pub port: Option<u16>,
    pub security_type: Option<SecurityType>,
}

/// The parts of an autoconfig document that seed an account.
#[derive(Clone, Debug, PartialEq, Eq)]
pub struct DiscoveredConfig {
    pub incoming_servers: Vec<DiscoveredServer>,
    pub oauth2: Option<OAuth2Config>,
}

/// Encryption that a reported security type stands for.
pub open spec fn encryption_spec(security: Option<SecurityType>) -> Encryption {
    match security {
        Some(SecurityType::Starttls) => Encryption::StartTls,
        Some(SecurityType::Tls) => Encryption::Ssl,
        _ => Encryption::Unencrypted,
    }
}

/// Port of a server: the reported one, else the default for its encryption.
pub open spec fn port_spec(port: Option<u16>, encryption: Encryption) -> u16 {
    match port {
        Some(p) => p,
        None => if encryption == Encryption::StartTls {
            DEFAULT_TLS_PORT
        } else {
            DEFAULT_PLAIN_PORT
        },
    }
}

/// Host of a server: the reported one, else `imap.<domain>`.
pub open spec fn host_spec(hostname: Option<String>, domain: Seq<char>) -> Seq<char> {
    match hostname {
        Some(h) => h@,
        None => "imap."@ + domain,
    }
}

/// Index of the first IMAP server among `servers`, if any.
pub open spec fn first_imap(servers: Seq<DiscoveredServer>, i: int) -> bool {
    &&& 0 <= i < servers.len()
    &&& servers[i].server_type == ServerType::Imap
    &&& forall|j: int| 0 <= j < i ==> #[trigger] servers[j].server_type != ServerType::Imap
}

/// Encryption for a reported security type: plain is none, STARTTLS is
/// STARTTLS, TLS is SSL; none reported means no encryption.
pub fn encryption_for(security: Option<SecurityType>) -> (r: Encryption)
    ensures
        r == encryption_spec(security),
{
    match security {
        Some(SecurityType::Starttls) => Encryption::StartTls,
        Some(SecurityType::Tls) => Encryption::Ssl,
        _ => Encryption::Unencrypted,
    }
}

/// Port for a server entry: the reported one, else 993 for STARTTLS and 143
/// otherwise.
pub fn port_for(port: Option<u16>, encryption: Encryption) -> (r: u16)
    ensures
        r == port_spec(port, encryption),
{
    match port {
        Some(p) => p,
        None => match encryption {
            Encryption::StartTls => DEFAULT_TLS_PORT,
            _ => DEFAULT_PLAIN_PORT,
        },
    }
}

/// Host for a server entry: the reported one, else `imap.<domain>`.
pub fn host_for(hostname: &Option<String>, domain: &str) -> (r: String)
    ensures
        r@ == host_spec(*hostname, domain@),
{
    match hostname {
        Some(h) => h.clone(),
        None => {
            let mut host = String::from_str("imap.");
            host.append(domain);
            host
        },
    }
}

/// Derives the settings of a new account from an autoconfig document for
/// `domain`: the first IMAP incoming server, with its encryption, port and
/// host defaulted as `encryption_for`, `port_for` and `host_for` say, and the
/// provider's OAuth2 endpoints. None when the document lists no IMAP server.
pub fn mail_server_config_from(config: &DiscoveredConfig, domain: &str) -> (r: Option<
    MailServerConfig,
>)
    ensures
        r is None <==> forall|j: int|
            0 <= j < config.incoming_servers.len() ==> #[trigger] config.incoming_servers[j].server_type
                != ServerType::Imap,
        forall|i: int| #[trigger]
            first_imap(config.incoming_servers@, i) ==> r is Some && {
                let s = config.incoming_servers[i];
                let c = r->0;
                &&& c.imap.encryption == encryption_spec(s.security_type)
                &&& c.imap.port == port_spec(s.port, encryption_spec(s.security_type))
                &&& c.imap.host@ == host_spec(s.hostname, domain@)
                &&& same_oauth2(c.oauth2, config.oauth2)
            },
{
    let servers = &config.incoming_servers;
    let mut k: usize = 0;
    while k < servers.len()
        invariant
            servers@ == config.incoming_servers@,
            0 <= k <= servers.len(),
            forall|j: int| 0 <= j < k ==> #[trigger] servers[j].server_type != ServerType::Imap,
        decreases servers.len() - k,
    {
        if servers[k].server_type == ServerType::Imap {
            let server = &servers[k];
            proof {
                assert(config.incoming_servers[k as int].server_type == ServerType::Imap);
                assert(first_imap(config.incoming_servers@, k as int));
                assert forall|i: int| #[trigger] first_imap(config.incoming_servers@, i) implies i
                    == k by {
                    if i < k {
                        assert(servers[i].server_type != ServerType::Imap);
                    }
                    if i > k {
                        assert(servers[k as int].server_type != ServerType::Imap);
                    }
                }
            }
            let encryption = encryption_for(server.security_type);
            let imap = ServerConfig::new(
                host_for(&server.hostname, domain),
                port_for(server.port, encryption),
                encryption,
            );
            let oauth2 = match &config.oauth2 {
                Some(o) => Some(o.clone()),
                None => None,
            };
            return Some(MailServerConfig { imap, oauth2 });
        }
        k = k + 1;
    }
    None
}

/// Domain of an email address; `InvalidParameter` when it does not parse.
pub fn email_domain(email: &str) -> (r: BichonResult<String>)
    ensures
        r is Ok <==> email_domain_of(email@) is Some,
        r matches Ok(d) ==> d@ == email_domain_of(email@)->0,
        r matches Err(e) ==> e.code == ErrorCode::InvalidParameter,
{
    match parse_email_domain(email) {
        Some(d) => Ok(d),
        None => Err(
            BichonError::new(ErrorCode::InvalidParameter, "Invalid email address".to_string()),
        ),
    }
}

/// An autoconfig result cached for a domain.
#[derive(Clone, Debug, Default, PartialEq, Eq)]
pub struct CachedMailSettings {
    pub domain: String,
    pub config: MailServerConfig,
    /// When it was cached (epoch ms).
    pub created_at: i64,
}

/// The cached entry is stale at `now`.
pub open spec fn cache_stale(c: CachedMailSettings, now: int) -> bool {
    now - c.created_at > EXPIRE_TIME_MS
}

/// What reading the autoconfig cache yields.
#[derive(Debug)]
pub enum CacheLookup {
    /// A live entry.
    Hit(CachedMailSettings),
    /// The entry is stale: treat as a miss and delete it.
    Stale,
    /// No entry.
    Miss,
}

impl CachedMailSettings {
    /// An entry for `domain` cached at `now`.
    pub fn add(domain: String, config: MailServerConfig, now: i64) -> (r: Self)
        ensures
            r == (CachedMailSettings { domain, config, created_at: now }),
    {
        CachedMailSettings { domain, config, created_at: now }
    }

    /// Whether the entry is stale at `now`.
    pub fn is_stale(&self, now: i64) -> (r: bool)
        ensures
            r == cache_stale(*self, now as int),
    {
        (now as i128) - (self.created_at as i128) > EXPIRE_TIME_MS as i128
    }

    /// What `get(domain)` returns for the stored entry `found`: a live entry,
    /// or `Stale` (a miss, and deleted by the caller).
    pub fn get(found: Option<CachedMailSettings>, now: i64) -> (r: CacheLookup)
        ensures
            r == cache_lookup_spec(found, now as int),
    {
        match found {
            None => CacheLookup::Miss,
            Some(c) => {
                if c.is_stale(now) {
                    CacheLookup::Stale
                } else {
                    CacheLookup::Hit(c)
                }
            },
        }
    }
}

/// What reading the stored entry `found` at `now` yields.
pub open spec fn cache_lookup_spec(found: Option<CachedMailSettings>, now: int) -> CacheLookup {
    match found {
        None => CacheLookup::Miss,
        Some(c) => if cache_stale(c, now) {
            CacheLookup::Stale
        } else {
            CacheLookup::Hit(c)
        },
    }
}

/// A read of `domain` from the cache `store` at `now`: what it returns, and
/// the cache it leaves (a stale entry is deleted).
pub open spec fn cache_read(
    store: Map<Seq<char>, CachedMailSettings>,
    domain: Seq<char>,
    now: int,
) -> (Option<CachedMailSettings>, Map<Seq<char>, CachedMailSettings>) {
    let found = if store.contains_key(domain) {
        Some(store[domain])
    } else {
        None
    };
    match cache_lookup_spec(found, now) {
        CacheLookup::Hit(c) => (Some(c), store),
        CacheLookup::Stale => (None, store.remove(domain)),
        CacheLookup::Miss => (None, store),
    }
}

/// Autoconfig TTL: reading a domain whose entry is older than the expiry
/// returns nothing and leaves the cache without that entry, other domains
/// untouched; a younger entry is returned and the cache is unchanged.
pub proof fn lemma_autoconfig_ttl(
    store: Map<Seq<char>, CachedMailSettings>,
    domain: Seq<char>,
    now: int,
)
    requires
        store.contains_key(domain),
    ensures
        now - store[domain].created_at > EXPIRE_TIME_MS ==> {
            &&& cache_read(store, domain, now).0 is None
            &&& !cache_read(store, domain, now).1.contains_key(domain)
            &&& forall|d: Seq<char>|
                d != domain ==> #[trigger] cache_read(store, domain, now).1.contains_key(d)
                    == store.contains_key(d) && (store.contains_key(d) ==> cache_read(
                    store,
                    domain,
                    now,
                ).1[d] == store[d])
        },
        now - store[domain].created_at <= EXPIRE_TIME_MS ==> cache_read(store, domain, now) == (
            Some(store[domain]),
            store,
        ),
{
}

} // verus!
