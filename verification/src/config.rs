//! Server configuration: defaults, normalisation, validation, overrides
//! from environment values, key file names and key generation.

use vstd::prelude::*;
use vstd::string::*;
use crate::path_utils::{lemma_trim_idempotent, trim_slashes, trim_trailing_slashes};
use crate::text::{
    ends_with_char, has_prefix, parse_unsigned, parse_unsigned_bounded, str_ends_with_char,
    str_starts_with, str_trim, trim,
};
use crate::version::{parse_address, parse_core_server_address, AddressError};

verus! {

/// Settings of the repository server.
#[derive(Debug, Clone)]
pub struct Config {
    /// Address of the core server, such as `tcp://localhost:9998`.
    pub core_server: String,
    /// Directory of the key files; normalised to end with `/`.
    pub cred_dir: String,
    /// Port the server listens on.
    pub port: u16,
    /// Timeout in milliseconds.
    pub timeout: u32,
    /// Number of request worker threads.
    pub num_req_worker_threads: usize,
    /// Root of the data collection; normalised to have no trailing `/`.
    pub globus_collection_path: Option<String>,
}

/// Values of the environment variables that override the configuration;
/// `None` for a variable that is not set.
#[derive(Debug, Clone)]
pub struct ConfigEnv {
    /// `DATAFED_CORE_ADDRESS_PORT_INTERNAL`
    pub core_address: Option<String>,
    /// `DATAFED_KEYS_DIR`
    pub keys_dir: Option<String>,
    /// `DATAFED_REPO_PORT`
    pub port: Option<String>,
    /// `DATAFED_REPO_TIMEOUT`
    pub timeout: Option<String>,
    /// `DATAFED_REPO_WORKER_THREADS`
    pub worker_threads: Option<String>,
    /// `DATAFED_GCS_COLLECTION_ROOT_PATH`
    pub collection_root: Option<String>,
}

/// Why a configuration was refused.
#[derive(Debug, Clone, Copy, PartialEq, Eq, Structural)]
pub enum ConfigError {
    /// The core server address is not of the form `tcp://host:port`.
    InvalidCoreServer(AddressError),
    /// The listen port is 0.
    InvalidPort,
    /// The timeout is 0.
    InvalidTimeout,
    /// There are no worker threads.
    NoWorkerThreads,
}

/// A directory name ending in `/`.
pub open spec fn with_trailing_slash(s: Seq<char>) -> Seq<char> {
    if ends_with_char(s, '/') {
        s
    } else {
        s.push('/')
    }
}

/// The optional text as characters.
pub open spec fn opt_chars(o: Option<String>) -> Option<Seq<char>> {
    match o {
        Some(s) => Some(s@),
        None => None,
    }
}

/// A core server address from the environment, given the `tcp://` scheme
/// when it has none.
pub open spec fn with_tcp_scheme(s: Seq<char>) -> Seq<char> {
    if has_prefix(s, "tcp://"@) {
        s
    } else {
        "tcp://"@ + s
    }
}

/// A number from the environment when it parses within `max`, otherwise
/// the current value.
pub open spec fn env_number(value: Option<Seq<char>>, max: nat, current: nat) -> nat {
    match value {
        Some(v) => match parse_unsigned(v, max) {
            Some(n) => n,
            None => current,
        },
        None => current,
    }
}

impl Default for Config {
    fn default() -> (r: Config)
        ensures
            r.core_server@ == "tcp://datafed-core:7512"@,
            r.cred_dir@ == "/opt/datafed/keys/"@,
            r.port == 9000,
            r.timeout == 5000,
            r.num_req_worker_threads == 4,
            opt_chars(r.globus_collection_path) == Some("/mnt/datafed-repo"@),
    {
        Config {
            core_server: "tcp://datafed-core:7512".to_owned(),
            cred_dir: "/opt/datafed/keys/".to_owned(),
            port: 9000,
            timeout: 5000,
            num_req_worker_threads: 4,
            globus_collection_path: Some("/mnt/datafed-repo".to_owned()),
        }
    }
}

/// Appends `/` unless `s` already ends with it.
fn ensure_trailing_slash(s: &str) -> (r: String)
    ensures
        r@ == with_trailing_slash(s@),
{
    let mut r = s.to_owned();
    if !str_ends_with_char(s, '/') {
        proof {
            reveal_strlit("/");
        }
        r.append("/");
    }
    r
}

/// Parses an environment number within `max`, keeping `current` otherwise.
fn env_number_exec(value: &Option<String>, max: u64, current: u64) -> (r: u64)
    requires
        current <= max,
    ensures
        r == env_number(opt_chars(*value), max as nat, current as nat),
{
    match value {
        Some(v) => match parse_unsigned_bounded(v.as_str(), max) {
            Some(n) => n,
            None => current,
        },
        None => current,
    }
}

impl Config {
    /// Drops trailing slashes from the collection root (keeping a lone `/`)
    /// and makes the credentials directory end with `/`.
    pub fn normalize(&mut self)
        ensures
            opt_chars(final(self).globus_collection_path) == match opt_chars(
                old(self).globus_collection_path,
            ) {
                Some(p) => Some(trim_trailing_slashes(p)),
                None => None,
            },
            final(self).cred_dir@ == with_trailing_slash(old(self).cred_dir@),
            final(self).core_server == old(self).core_server,
            final(self).port == old(self).port,
            final(self).timeout == old(self).timeout,
            final(self).num_req_worker_threads == old(self).num_req_worker_threads,
    {
        let path = match &self.globus_collection_path {
            Some(p) => Some(trim_slashes(p.as_str()).to_owned()),
            None => None,
        };
        self.globus_collection_path = path;
        let dir = ensure_trailing_slash(self.cred_dir.as_str());
        self.cred_dir = dir;
    }

    /// Accepts a configuration whose core server address parses as
    /// `tcp://host:port` and whose port, timeout and worker count are not 0;
    /// the checks are made in that order.
    pub fn validate(&self) -> (r: Result<(), ConfigError>)
        ensures
            parse_address(self.core_server@) is Err ==> r == Err::<(), ConfigError>(
                ConfigError::InvalidCoreServer(parse_address(self.core_server@)->Err_0),
            ),
            parse_address(self.core_server@) is Ok && self.port == 0 ==> r == Err::<(), ConfigError>(
                ConfigError::InvalidPort,
            ),
            parse_address(self.core_server@) is Ok && self.port != 0 && self.timeout == 0 ==> r
                == Err::<(), ConfigError>(ConfigError::InvalidTimeout),
            parse_address(self.core_server@) is Ok && self.port != 0 && self.timeout != 0
                && self.num_req_worker_threads == 0 ==> r == Err::<(), ConfigError>(
                ConfigError::NoWorkerThreads,
            ),
            parse_address(self.core_server@) is Ok && self.port != 0 && self.timeout != 0
                && self.num_req_worker_threads != 0 ==> r is Ok,
    {
        match parse_core_server_address(self.core_server.as_str()) {
            Err(e) => {
                return Err(ConfigError::InvalidCoreServer(e));
            },
            Ok(_) => {},
        }
        if self.port == 0 {
            return Err(ConfigError::InvalidPort);
        }
        if self.timeout == 0 {
            return Err(ConfigError::InvalidTimeout);
        }
        if self.num_req_worker_threads == 0 {
            return Err(ConfigError::NoWorkerThreads);
        }
        Ok(())
    }

    /// Applies the environment overrides: the core address (given the
    /// `tcp://` scheme when it lacks it), the key directory, the port,
    /// timeout and worker count when they parse as numbers of their type,
    /// and the collection root.
    pub fn load_from_env(&mut self, env: &ConfigEnv)
        ensures
            final(self).core_server@ == match opt_chars(env.core_address) {
                Some(a) => with_tcp_scheme(a),
                None => old(self).core_server@,
            },
            final(self).cred_dir@ == match opt_chars(env.keys_dir) {
                Some(d) => d,
                None => old(self).cred_dir@,
            },
            final(self).port == env_number(opt_chars(env.port), 0xffff, old(self).port as nat),
            final(self).timeout == env_number(
                opt_chars(env.timeout),
                0xffff_ffff,
                old(self).timeout as nat,
            ),
            final(self).num_req_worker_threads == env_number(
                opt_chars(env.worker_threads),
                usize::MAX as nat,
                old(self).num_req_worker_threads as nat,
            ),
            opt_chars(final(self).globus_collection_path) == match opt_chars(env.collection_root) {
                Some(p) => Some(p),
                None => opt_chars(old(self).globus_collection_path),
            },
    {
        match &env.core_address {
            Some(val) => {
                proof {
                    reveal_strlit("tcp://");
                }
                if str_starts_with(val.as_str(), "tcp://") {
                    self.core_server = val.clone();
                } else {
                    let mut s = "tcp://".to_owned();
                    s.append(val.as_str());
                    self.core_server = s;
                }
            },
            None => {},
        }
        match &env.keys_dir {
            Some(val) => {
                self.cred_dir = val.clone();
            },
            None => {},
        }
        self.port = env_number_exec(&env.port, 0xffff, self.port as u64) as u16;
        self.timeout = env_number_exec(&env.timeout, 0xffff_ffff, self.timeout as u64) as u32;
        self.num_req_worker_threads = env_number_exec(
            &env.worker_threads,
            usize::MAX as u64,
            self.num_req_worker_threads as u64,
        ) as usize;
        match &env.collection_root {
            Some(val) => {
                self.globus_collection_path = Some(val.clone());
            },
            None => {},
        }
    }

    /// Path of the core server's public key file.
    pub fn core_public_key_path(&self) -> (r: String)
        ensures
            r@ == self.cred_dir@ + "datafed-core-key.pub"@,
    {
        let mut r = self.cred_dir.clone();
        r.append("datafed-core-key.pub");
        r
    }

    /// Path of this server's public key file.
    pub fn repo_public_key_path(&self) -> (r: String)
        ensures
            r@ == self.cred_dir@ + "datafed-repo-key.pub"@,
    {
        let mut r = self.cred_dir.clone();
        r.append("datafed-repo-key.pub");
        r
    }

    /// Path of this server's private key file.
    pub fn repo_private_key_path(&self) -> (r: String)
        ensures
            r@ == self.cred_dir@ + "datafed-repo-key.priv"@,
    {
        let mut r = self.cred_dir.clone();
        r.append("datafed-repo-key.priv");
        r
    }

    /// The key held in a key file's contents: the text without surrounding
    /// white space.
    pub fn key_from_file_contents(contents: &str) -> (r: String)
        ensures
            r@ == trim(contents@),
    {
        str_trim(contents).to_owned()
    }
}

// ---------------------------------------------------------------------------
// Key generation.
// ---------------------------------------------------------------------------

/// The character of the standard base64 alphabet (RFC 4648) for `v < 64`.
pub open spec fn base64_digit(v: nat) -> char {
    if v < 26 {
        (65 + v) as char
    } else if v < 52 {
        (97 + v - 26) as char
    } else if v < 62 {
        (48 + v - 52) as char
    } else if v == 62 {
        '+'
    } else {
        '/'
    }
}

/// Standard base64 (RFC 4648) with `=` padding: each group of three bytes
/// becomes four characters, a final group of one or two bytes is padded.
pub open spec fn base64_text(s: Seq<u8>) -> Seq<char>
    decreases s.len(),
{
    if s.len() == 0 {
        Seq::empty()
    } else if s.len() == 1 {
        seq![base64_digit((s[0] / 4) as nat), base64_digit(((s[0] % 4) * 16) as nat), '=', '=']
    } else if s.len() == 2 {
        seq![
            base64_digit((s[0] / 4) as nat),
            base64_digit(((s[0] % 4) * 16 + s[1] / 16) as nat),
            base64_digit(((s[1] % 16) * 4) as nat),
            '=',
        ]
    } else {
        seq![
            base64_digit((s[0] / 4) as nat),
            base64_digit(((s[0] % 4) * 16 + s[1] / 16) as nat),
            base64_digit(((s[1] % 16) * 4 + s[2] / 64) as nat),
            base64_digit((s[2] % 64) as nat),
        ] + base64_text(s.skip(3))
    }
}

/// Initialises libsodium.
///
/// Trusted: calls `sodiumoxide::init`, which reports whether the library
/// could be initialised; nothing is claimed about the outcome.
#[verifier::external_body]
fn sodium_init() -> (ok: bool) {
    sodiumoxide::init().is_ok()
}

/// The Curve25519 public key that corresponds to the secret key `secret`,
/// as `sodiumoxide`'s `SecretKey::public_key` computes it.
pub uninterp spec fn curve_public_key(secret: Seq<u8>) -> Seq<u8>;

/// A fresh Curve25519 key pair: public key, then secret key.
///
/// Trusted: calls `sodiumoxide::crypto::box_::gen_keypair`, documented to
/// generate a random secret key and its corresponding public key; the
/// public key is `curve_public_key` of the secret key. Which secret key
/// comes out is chance and is not stated; the 32-byte sizes are carried by
/// the array types.
#[verifier::external_body]
fn curve_keypair() -> (keys: ([u8; 32], [u8; 32]))
    ensures
        keys.0@ == curve_public_key(keys.1@),
{
    let (pk, sk) = sodiumoxide::crypto::box_::gen_keypair();
    (pk.0, sk.0)
}

/// Standard base64 text of `bytes`.
///
/// Trusted: calls `base64::encode`, which in this version of the crate
/// encodes with the standard configuration (standard alphabet, padding) as
/// `base64_text` describes.
#[verifier::external_body]
fn base64_encode(bytes: &[u8]) -> (r: String)
    ensures
        r@ == base64_text(bytes@),
{
    base64::encode(bytes)
}

impl Config {
    /// Generates a key pair and returns the public and secret keys as
    /// base64 text, the public key first; fails when libsodium cannot be
    /// initialised.
    pub fn generate_keys(&self) -> (r: Result<(String, String), String>)
        ensures
            r matches Err(e) ==> e@ == "Failed to initialize sodiumoxide"@,
            r matches Ok((p, s)) ==> exists|sk: Seq<u8>|
                sk.len() == 32 && s@ == base64_text(sk) && p@ == base64_text(curve_public_key(sk)),
    {
        if !sodium_init() {
            return Err("Failed to initialize sodiumoxide".to_owned());
        }
        let (public_key, secret_key) = curve_keypair();
        let pub_key_str = base64_encode(&public_key);
        let priv_key_str = base64_encode(&secret_key);
        Ok((pub_key_str, priv_key_str))
    }
}

/// Normalizing a configuration a second time changes nothing: the
/// collection root keeps its trimmed form and the credentials directory its
/// single trailing slash.
pub proof fn lemma_normalize_idempotent(root: Option<Seq<char>>, cred_dir: Seq<char>)
    ensures
        root matches Some(p) ==> trim_trailing_slashes(trim_trailing_slashes(p))
            == trim_trailing_slashes(p),
        with_trailing_slash(with_trailing_slash(cred_dir)) == with_trailing_slash(cred_dir),
        ends_with_char(with_trailing_slash(cred_dir), '/'),
{
    match root {
        Some(p) => lemma_trim_idempotent(p),
        None => {},
    }
}

} // verus!
