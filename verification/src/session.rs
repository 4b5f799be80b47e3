//! Session establishment: the SSH options a session is configured with and
//! the order in which credentials are tried. Talking to the SSH library is
//! the callers' business; this module decides, it does not connect.

use vstd::prelude::*;
use vstd::string::StringExecFns;

use crate::device::{Device, PrivateKey};

verus! {

/// Why a session could not be opened.
#[derive(Debug)]
pub enum SessionError {
    Io(String),
    LibSsh(String),
    Authorization { message: String },
}

/// The comma-joined key-exchange whitelist, most preferred first.
pub fn kex_list() -> (r: String)
    ensures
        r@ == (
        "curve25519-sha256,curve25519-sha256@libssh.org,ecdh-sha2-nistp256,ecdh-sha2-nistp384,ecdh-sha2-nistp521,diffie-hellman-group18-sha512,diffie-hellman-group16-sha512,diffie-hellman-group-exchange-sha256,diffie-hellman-group14-sha256,diffie-hellman-group1-sha1,diffie-hellman-group14-sha1")@,
{
    String::from_str(
        "curve25519-sha256,curve25519-sha256@libssh.org,ecdh-sha2-nistp256,ecdh-sha2-nistp384,ecdh-sha2-nistp521,diffie-hellman-group18-sha512,diffie-hellman-group16-sha512,diffie-hellman-group-exchange-sha256,diffie-hellman-group14-sha256,diffie-hellman-group1-sha1,diffie-hellman-group14-sha1",
    )
}

/// The comma-joined MAC whitelist, used in both directions.
pub fn hmac_list() -> (r: String)
    ensures
        r@ == (
        "hmac-sha2-256-etm@openssh.com,hmac-sha2-512-etm@openssh.com,hmac-sha2-256,hmac-sha2-512,hmac-sha1-96,hmac-sha1,hmac-md5")@,
{
    String::from_str(
        "hmac-sha2-256-etm@openssh.com,hmac-sha2-512-etm@openssh.com,hmac-sha2-256,hmac-sha2-512,hmac-sha1-96,hmac-sha1,hmac-md5",
    )
}

/// The comma-joined host-key and public-key acceptance whitelist.
pub fn host_key_list() -> (r: String)
    ensures
        r@ == (
        "ssh-ed25519,ecdsa-sha2-nistp521,ecdsa-sha2-nistp384,ecdsa-sha2-nistp256,rsa-sha2-512,rsa-sha2-256,ssh-rsa")@,
{
    String::from_str(
        "ssh-ed25519,ecdsa-sha2-nistp521,ecdsa-sha2-nistp384,ecdsa-sha2-nistp256,rsa-sha2-512,rsa-sha2-256,ssh-rsa",
    )
}

/// Everything a session is configured with before connecting. Host-key
/// verification is disabled by pointing both known-hosts files at the
/// platform null sink; the host's own SSH client config is not read.
pub struct SessionConfig {
    pub timeout_secs: u64,
    pub host: String,
    pub port: u16,
    pub username: String,
    pub kex: String,
    pub hmac: String,
    pub host_keys: String,
    pub known_hosts: String,
    pub read_ssh_config: bool,
}

/// The session configuration for a device: a 10-second connect timeout, the
/// device's coordinates, the three algorithm whitelists, and host-key
/// checking sunk into `null_sink`.
pub fn session_config(device: &Device, null_sink: &str) -> (r: SessionConfig)
    ensures
        r.timeout_secs == 10,
        r.host@ == device@.host,
        r.port == device@.port,
        r.username@ == device@.username,
        r.kex@ == (
        "curve25519-sha256,curve25519-sha256@libssh.org,ecdh-sha2-nistp256,ecdh-sha2-nistp384,ecdh-sha2-nistp521,diffie-hellman-group18-sha512,diffie-hellman-group16-sha512,diffie-hellman-group-exchange-sha256,diffie-hellman-group14-sha256,diffie-hellman-group1-sha1,diffie-hellman-group14-sha1")@,
        r.hmac@ == (
        "hmac-sha2-256-etm@openssh.com,hmac-sha2-512-etm@openssh.com,hmac-sha2-256,hmac-sha2-512,hmac-sha1-96,hmac-sha1,hmac-md5")@,
        r.host_keys@ == (
        "ssh-ed25519,ecdsa-sha2-nistp521,ecdsa-sha2-nistp384,ecdsa-sha2-nistp256,rsa-sha2-512,rsa-sha2-256,ssh-rsa")@,
        r.known_hosts@ == null_sink@,
        !r.read_ssh_config,
{
    SessionConfig {
        timeout_secs: 10,
        host: device.host.clone(),
        port: device.port,
        username: device.username.clone(),
        kex: kex_list(),
        hmac: hmac_list(),
        host_keys: host_key_list(),
        known_hosts: null_sink.to_owned(),
        read_ssh_config: false,
    }
}

/// The one credential path a session attempt uses.
pub enum AuthMethod {
    /// Public-key auth with this key and, when present, this passphrase.
    Key { key: PrivateKey, passphrase: Option<String> },
    /// Password auth.
    Password { password: String },
    /// The SSH "none" method.
    NoAuth,
}

/// Which credential a session attempt must use: a private key when the
/// device has one (with the device's non-blank passphrase), else the
/// password when the device has one, else the "none" method. Exactly one
/// path is taken.
pub fn auth_method(device: &Device) -> (r: AuthMethod)
    ensures
        match device@.private_key {
            Some(k) => r matches AuthMethod::Key { key, passphrase } && key@ == k && match device@
                .passphrase {
                Some(p) => if p.len() > 0 {
                    passphrase matches Some(q) && q@ == p
                } else {
                    passphrase is None
                },
                None => passphrase is None,
            },
            None => match device@.password {
                Some(w) => r matches AuthMethod::Password { password } && password@ == w,
                None => r is NoAuth,
            },
        },
{
    match &device.private_key {
        Some(key) => AuthMethod::Key {
            key: key.duplicate(),
            passphrase: device.valid_passphrase(),
        },
        None => match &device.password {
            Some(password) => AuthMethod::Password { password: password.clone() },
            None => AuthMethod::NoAuth,
        },
    }
}

/// The authorization failure message for each credential path.
pub fn auth_failure_message(method: &AuthMethod) -> (r: SessionError)
    ensures
        r matches SessionError::Authorization { message } && message@ == (match method {
            AuthMethod::Key { .. } => "Key authorization failed"@,
            AuthMethod::Password { .. } => "Bad SSH password"@,
            AuthMethod::NoAuth => "Host needs authorization"@,
        }),
{
    match method {
        AuthMethod::Key { .. } => SessionError::Authorization {
            message: String::from_str("Key authorization failed"),
        },
        AuthMethod::Password { .. } => SessionError::Authorization {
            message: String::from_str("Bad SSH password"),
        },
        AuthMethod::NoAuth => SessionError::Authorization {
            message: String::from_str("Host needs authorization"),
        },
    }
}

/// With both a private key and a password on the device, the key is the
/// method chosen, and the password path is never the first attempt: password
/// auth is reached only on a device without a key.
pub proof fn lemma_auth_precedence(device: Device, r: AuthMethod)
    requires
        device@.private_key is Some,
        device@.password is Some,
        match device@.private_key {
            Some(k) => r matches AuthMethod::Key { key, passphrase } && key@ == k && match device@
                .passphrase {
                Some(p) => if p.len() > 0 {
                    passphrase matches Some(q) && q@ == p
                } else {
                    passphrase is None
                },
                None => passphrase is None,
            },
            None => match device@.password {
                Some(w) => r matches AuthMethod::Password { password } && password@ == w,
                None => r is NoAuth,
            },
        },
    ensures
        r is Key,
        !(r is Password),
{
}

} // verus!
