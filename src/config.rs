use vstd::prelude::*;
use vstd::string::StringExecFns;

use crate::bytes::copy_bytes;

verus! {

/// Slot of a hardware token.
#[derive(Copy, Clone, Debug, PartialEq, Eq, Structural)]
pub enum Slot {
    Slot1,
    Slot2,
}

/// Operating mode of a hardware token.
#[derive(Copy, Clone, Debug, PartialEq, Eq, Structural)]
pub enum Mode {
    Sha1,
    Otp,
}

/// How requests reach the validation hosts.
#[derive(Copy, Clone, Debug, PartialEq, Eq, Structural)]
pub enum ProxyMode {
    /// No proxy is configured.
    Direct,
    /// Through the proxy, without credentials.
    Proxy,
    /// Through the proxy, with basic authentication.
    ProxyWithAuth,
}

/// Percentage of backend replicas that must agree before the validation
/// server answers, from 0 to 100.
#[derive(Copy, Clone, Debug, PartialEq, Eq, Structural)]
pub struct SyncLevel(u8);

/// Largest sync level the protocol accepts.
pub const MAX_SYNC_LEVEL: u8 = 100;

impl SyncLevel {
    pub closed spec fn spec_level(self) -> u8 {
        self.0
    }

    /// The sync level of `level` percent, taken as it is.
    pub closed spec fn of_level(level: u8) -> SyncLevel {
        SyncLevel(level)
    }

    /// A sync level always lies in 0..=100.
    pub open spec fn wf(self) -> bool {
        self.spec_level() <= 100
    }

    /// Let the server answer as soon as possible.
    pub fn fast() -> (r: SyncLevel)
        ensures
            r == SyncLevel::of_level(0),
            r.spec_level() == 0,
    {
        SyncLevel(0)
    }

    /// Ask for every replica to agree.
    pub fn secure() -> (r: SyncLevel)
        ensures
            r == SyncLevel::of_level(100),
            r.spec_level() == 100,
    {
        SyncLevel(MAX_SYNC_LEVEL)
    }

    /// A level of `level` percent; values above 100 saturate to 100.
    pub fn custom(level: u8) -> (r: SyncLevel)
        ensures
            r == SyncLevel::of_level(if level > 100 { 100 } else { level }),
            r.spec_level() == if level > 100 { 100 } else { level },
    {
        if level > MAX_SYNC_LEVEL {
            SyncLevel(MAX_SYNC_LEVEL)
        } else {
            SyncLevel(level)
        }
    }

    /// The percentage carried by this level.
    pub fn level(&self) -> (r: u8)
        ensures
            r == self.spec_level(),
    {
        self.0
    }
}

/// A span of time: whole seconds and the nanoseconds beyond them.
#[derive(Copy, Clone, Debug, PartialEq, Eq, Structural)]
pub struct Timeout {
    pub secs: u64,
    /// Below one second.
    pub nanos: u32,
}

/// Nanoseconds in a second.
pub const NANOS_PER_SEC: u32 = 1_000_000_000;

impl Timeout {
    pub open spec fn wf(self) -> bool {
        self.nanos < NANOS_PER_SEC
    }

    /// A timeout of `secs` whole seconds.
    pub fn from_secs(secs: u64) -> (r: Timeout)
        ensures
            r == (Timeout { secs, nanos: 0 }),
            r.wf(),
    {
        Timeout { secs, nanos: 0 }
    }

    /// A timeout of `secs` seconds and `nanos` nanoseconds.
    pub fn from_parts(secs: u64, nanos: u32) -> (r: Timeout)
        requires
            nanos < NANOS_PER_SEC,
        ensures
            r == (Timeout { secs, nanos }),
            r.wf(),
    {
        Timeout { secs, nanos }
    }
}

/// Everything a verification needs: credentials, hosts and transport
/// settings. Built once through the setters, then only read.
#[derive(Clone, Debug)]
pub struct Config {
    pub client_id: String,
    /// The shared secret, still base64-encoded.
    pub key: Vec<u8>,
    pub api_hosts: Vec<String>,
    pub user_agent: String,
    pub sync_level: SyncLevel,
    /// The timeout for each HTTP request; 30 s unless set.
    pub request_timeout: Timeout,
    pub proxy_url: String,
    pub proxy_username: String,
    pub proxy_password: String,
}

/// The validation endpoint used when no host is configured.
pub const DEFAULT_API_HOST: &'static str = "https://api.yubico.com/wsapi/2.0/verify";

/// The user agent sent when none is configured.
pub const DEFAULT_USER_AGENT: &'static str = "github.com/BlackDex/yubico-rs";

/// Seconds an HTTP request may take by default.
pub const DEFAULT_TIMEOUT_SECS: u64 = 30;

impl Default for Config {
    fn default() -> (r: Config)
        ensures
            r.client_id@.len() == 0,
            r.key@.len() == 0,
            r.api_hosts@.len() == 1,
            r.api_hosts@[0]@ == DEFAULT_API_HOST@,
            r.user_agent@ == DEFAULT_USER_AGENT@,
            r.sync_level == SyncLevel::of_level(100),
            r.sync_level.spec_level() == 100,
            r.request_timeout == (Timeout { secs: DEFAULT_TIMEOUT_SECS, nanos: 0 }),
            r.proxy_url@.len() == 0,
            r.proxy_username@.len() == 0,
            r.proxy_password@.len() == 0,
    {
        let mut api_hosts: Vec<String> = Vec::new();
        api_hosts.push(String::from_str(DEFAULT_API_HOST));
        Config {
            client_id: String::new(),
            key: Vec::new(),
            api_hosts,
            user_agent: String::from_str(DEFAULT_USER_AGENT),
            sync_level: SyncLevel::secure(),
            request_timeout: Timeout::from_secs(DEFAULT_TIMEOUT_SECS),
            proxy_url: String::new(),
            proxy_username: String::new(),
            proxy_password: String::new(),
        }
    }
}

impl Config {
    pub fn set_client_id(self, client_id: String) -> (r: Self)
        ensures
            r == (Config { client_id, ..self }),
    {
        Config { client_id, ..self }
    }

    /// Stores the base64 text of the shared secret; it is decoded when used.
    pub fn set_key(self, key: String) -> (r: Self)
        ensures
            r == (Config { key: r.key, ..self }),
            r.key@ == vstd::utf8::encode_utf8(key@),
    {
        let key = copy_bytes(key.as_str().as_bytes());
        Config { key, ..self }
    }

    pub fn set_api_hosts(self, hosts: Vec<String>) -> (r: Self)
        ensures
            r == (Config { api_hosts: hosts, ..self }),
    {
        Config { api_hosts: hosts, ..self }
    }

    pub fn set_user_agent(self, user_agent: String) -> (r: Self)
        ensures
            r == (Config { user_agent, ..self }),
    {
        Config { user_agent, ..self }
    }

    pub fn set_sync_level(self, level: SyncLevel) -> (r: Self)
        ensures
            r == (Config { sync_level: level, ..self }),
    {
        Config { sync_level: level, ..self }
    }

    pub fn set_request_timeout(self, timeout: Timeout) -> (r: Self)
        ensures
            r == (Config { request_timeout: timeout, ..self }),
    {
        Config { request_timeout: timeout, ..self }
    }

    pub fn set_proxy_url(self, proxy_url: String) -> (r: Self)
        ensures
            r == (Config { proxy_url, ..self }),
    {
        Config { proxy_url, ..self }
    }

    /// A non-empty user name makes the proxy use basic authentication.
    pub fn set_proxy_username(self, proxy_username: String) -> (r: Self)
        ensures
            r == (Config { proxy_username, ..self }),
    {
        Config { proxy_username, ..self }
    }

    pub fn set_proxy_password(self, proxy_password: String) -> (r: Self)
        ensures
            r == (Config { proxy_password, ..self }),
    {
        Config { proxy_password, ..self }
    }
}

impl Config {
    /// A configuration is usable once it names a client, a secret and at
    /// least one host.
    pub open spec fn usable(self) -> bool {
        self.client_id@.len() > 0 && self.key@.len() > 0 && self.api_hosts@.len() > 0
    }

    /// A proxy is used when its URL is set; a user name adds basic
    /// authentication.
    pub fn proxy_mode(&self) -> (r: ProxyMode)
        ensures
            self.proxy_url@.len() == 0 ==> r == ProxyMode::Direct,
            self.proxy_url@.len() > 0 && self.proxy_username@.len() == 0 ==> r == ProxyMode::Proxy,
            self.proxy_url@.len() > 0 && self.proxy_username@.len() > 0 ==> r == ProxyMode::ProxyWithAuth,
    {
        if self.proxy_url.as_str().is_empty() {
            ProxyMode::Direct
        } else if self.proxy_username.as_str().is_empty() {
            ProxyMode::Proxy
        } else {
            ProxyMode::ProxyWithAuth
        }
    }

    /// Whether the configuration is usable, checked before any request is built.
    pub fn is_usable(&self) -> (r: bool)
        ensures
            r == self.usable(),
    {
        !self.client_id.as_str().is_empty() && self.key.len() > 0 && self.api_hosts.len() > 0
    }
}

} // verus!
