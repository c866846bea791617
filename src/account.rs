use vstd::prelude::*;

use crate::error::{BichonError, BichonResult, ErrorCode};

verus! {

/// How an account authenticates to its IMAP server.
#[derive(Clone, Copy, Debug, Default, PartialEq, Eq, Structural)]
pub enum AuthType {
    /// Standard password authentication (PLAIN/LOGIN)
    #[default]
    Password,
    /// OAuth 2.0 authentication (SASL XOAUTH2)
    OAuth2,
}

/// Connection encryption method.
#[derive(Clone, Copy, Debug, Default, PartialEq, Eq, Structural)]
pub enum Encryption {
    /// SSL/TLS encrypted connection
    #[default]
    Ssl,
    /// StartTLS encryption
    StartTls,
    /// Unencrypted connection
    Unencrypted,
}

impl From<bool> for Encryption {
    fn from(value: bool) -> (r: Self) {
        if value {
            Encryption::Ssl
        } else {
            Encryption::Unencrypted
        }
    }
}

impl vstd::std_specs::convert::FromSpecImpl<bool> for Encryption {
    open spec fn obeys_from_spec() -> bool {
        true
    }

    open spec fn from_spec(v: bool) -> Self {
        if v {
            Encryption::Ssl
        } else {
            Encryption::Unencrypted
        }
    }
}

/// Authentication settings of an IMAP account.
#[derive(Clone, Debug, Default, PartialEq, Eq)]
pub struct AuthConfig {
    pub auth_type: AuthType,
    /// Credential secret for password authentication: plaintext as submitted,
    /// ciphertext once stored.
    pub password: Option<String>,
}

/// IMAP connection settings of an account.
#[derive(Clone, Debug, Default, PartialEq, Eq)]
pub struct ImapConfig {
    pub host: String,
    pub port: u16,
    pub encryption: Encryption,
    pub auth: AuthConfig,
    /// Proxy used to reach the server, if any.
    pub use_proxy: Option<u64>,
}

/// Longest accepted IMAP host name.
pub const MAX_HOST_LEN: usize = 253;

/// A character allowed in a host name: ASCII letters, digits, `-` and `.`.
pub open spec fn host_char_ok(c: char) -> bool {
    ('a' <= c && c <= 'z') || ('A' <= c && c <= 'Z') || ('0' <= c && c <= '9') || c == '-' || c
        == '.'
}

/// A host name of 1 to 253 allowed characters.
pub open spec fn host_valid(h: Seq<char>) -> bool {
    &&& 0 < h.len() <= MAX_HOST_LEN
    &&& forall|i: int| 0 <= i < h.len() ==> #[trigger] host_char_ok(h[i])
}

/// The settings satisfy the IMAP config invariants: a valid host, a port
/// from 1, and a password when password authentication is chosen.
pub open spec fn imap_config_valid(c: ImapConfig) -> bool {
    &&& host_valid(c.host@)
    &&& c.port >= 1
    &&& !(c.auth.auth_type == AuthType::Password && c.auth.password is None)
}

fn is_host_char(c: char) -> (r: bool)
    ensures
        r == host_char_ok(c),
{
    ('a' <= c && c <= 'z') || ('A' <= c && c <= 'Z') || ('0' <= c && c <= '9') || c == '-' || c
        == '.'
}

/// What `cipher` makes of `plain`, when it succeeds.
pub open spec fn encrypted_by<F: Fn(&String) -> BichonResult<String>>(
    cipher: F,
    plain: String,
    out: String,
) -> bool {
    cipher.ensures((&plain,), Ok::<String, BichonError>(out))
}

/// `cipher` fails on `plain` with `e`.
pub open spec fn rejected_by<F: Fn(&String) -> BichonResult<String>>(
    cipher: F,
    plain: String,
    e: BichonError,
) -> bool {
    cipher.ensures((&plain,), Err::<String, BichonError>(e))
}

impl AuthConfig {
    /// Replaces a present password by what `cipher` makes of it; a config
    /// without a password is returned as it is. A failing cipher fails the call.
    pub fn encrypt<F: Fn(&String) -> BichonResult<String>>(self, cipher: F) -> (r: BichonResult<
        Self,
    >)
        requires
            forall|p: &String| cipher.requires((p,)),
        ensures
            self.password is None ==> r is Ok && r->Ok_0 == self,
            self.password matches Some(pw) ==> match r {
                Ok(c) => c.auth_type == self.auth_type && c.password is Some && encrypted_by(
                    cipher,
                    pw,
                    c.password->0,
                ),
                Err(e) => rejected_by(cipher, pw, e),
            },
    {
        match self.password {
            Some(password) => {
                let enc = cipher(&password);
                match enc {
                    Ok(out) => Ok(AuthConfig { auth_type: self.auth_type, password: Some(out) }),
                    Err(e) => Err(e),
                }
            },
            None => Ok(self),
        }
    }

    /// Password authentication needs a password.
    pub fn validate(&self) -> (r: Result<(), &'static str>)
        ensures
            r is Err <==> (self.auth_type == AuthType::Password && self.password is None),
    {
        match self.auth_type {
            AuthType::Password => {
                if self.password.is_none() {
                    Err("When auth_type is Passwd, password must not be None.")
                } else {
                    Ok(())
                }
            },
            AuthType::OAuth2 => Ok(()),
        }
    }
}

impl ImapConfig {
    /// Checks the IMAP config invariants; fails with `InvalidParameter`.
    pub fn validate(&self) -> (r: BichonResult<()>)
        ensures
            r is Ok <==> imap_config_valid(*self),
            r matches Err(e) ==> e.code == ErrorCode::InvalidParameter,
    {
        let host = self.host.as_str();
        let len = host.unicode_len();
        if len == 0 || len > MAX_HOST_LEN {
            return Err(
                BichonError::new(
                    ErrorCode::InvalidParameter,
                    "host must hold 1 to 253 characters".to_string(),
                ),
            );
        }
        let mut k: usize = 0;
        while k < len
            invariant
                len == host@.len(),
                host@ == self.host@,
                0 <= k <= len,
                forall|i: int| 0 <= i < k ==> #[trigger] host_char_ok(host@[i]),
            decreases len - k,
        {
            if !is_host_char(host.get_char(k)) {
                return Err(
                    BichonError::new(
                        ErrorCode::InvalidParameter,
                        "host may hold only letters, digits, '-' and '.'".to_string(),
                    ),
                );
            }
            k = k + 1;
        }
        if self.port == 0 {
            return Err(
                BichonError::new(ErrorCode::InvalidParameter, "port must be at least 1".to_string()),
            );
        }
        match self.auth.validate() {
            Ok(()) => Ok(()),
            Err(msg) => Err(BichonError::new(ErrorCode::InvalidParameter, msg.to_string())),
        }
    }

    /// The same settings with the password replaced by what `cipher` makes of it.
    pub fn try_encrypt_password<F: Fn(&String) -> BichonResult<String>>(self, cipher: F) -> (r:
        BichonResult<Self>)
        requires
            forall|p: &String| cipher.requires((p,)),
        ensures
            self.auth.password is None ==> r is Ok && r->Ok_0 == self,
            self.auth.password matches Some(pw) ==> match r {
                Ok(c) => {
                    &&& c.host == self.host
                    &&& c.port == self.port
                    &&& c.encryption == self.encryption
                    &&& c.use_proxy == self.use_proxy
                    &&& c.auth.auth_type == self.auth.auth_type
                    &&& c.auth.password is Some
                    &&& encrypted_by(cipher, pw, c.auth.password->0)
                },
                Err(e) => rejected_by(cipher, pw, e),
            },
    {
        let ImapConfig { host, port, encryption, auth, use_proxy } = self;
        match auth.encrypt(cipher) {
            Ok(auth) => Ok(ImapConfig { host, port, encryption, auth, use_proxy }),
            Err(e) => Err(e),
        }
    }
}

/// The account settings that the sync engine reads.
#[derive(Clone, Debug, Default, PartialEq, Eq)]
pub struct AccountModel {
    pub id: u64,
    pub email: String,
    pub enabled: bool,
    pub imap: Option<ImapConfig>,
    /// Minutes between incremental syncs.
    pub sync_interval_min: Option<i64>,
    /// Bounded backfill window: when set, builds fetch only the messages
    /// received since this date (an IMAP `SINCE` date, e.g. `01-Jan-2024`).
    pub date_since: Option<String>,
}

/// How a mailbox build fetches its messages.
#[derive(Clone, Debug, PartialEq, Eq)]
pub enum FetchMode {
    /// Every message of the mailbox.
    Full,
    /// The messages received since the given date.
    Since(String),
}

impl AccountModel {
    /// How builds of this account's mailboxes fetch: since the configured
    /// date when there is one, else everything.
    pub fn fetch_mode(&self) -> (r: FetchMode)
        ensures
            self.date_since is None ==> r == FetchMode::Full,
            self.date_since is Some ==> r is Since && r->Since_0@ == self.date_since->0@,
    {
        match &self.date_since {
            Some(date) => FetchMode::Since(date.clone()),
            None => FetchMode::Full,
        }
    }

    /// The account signs in to IMAP with OAuth2.
    pub open spec fn uses_oauth2_spec(&self) -> bool {
        self.imap matches Some(imap) && imap.auth.auth_type == AuthType::OAuth2
    }

    /// Whether the account signs in to IMAP with OAuth2, so that a live
    /// access token is needed before a sync.
    pub fn uses_oauth2(&self) -> (r: bool)
        ensures
            r == self.uses_oauth2_spec(),
    {
        match &self.imap {
            Some(imap) => match imap.auth.auth_type {
                AuthType::OAuth2 => true,
                AuthType::Password => false,
            },
            None => false,
        }
    }
}

} // verus!
