//! The configuration of the SSH server: what the file holds, what the server
//! runs with, and the host key.
use vstd::prelude::*;
use vstd::string::*;
use crate::auth::opt_bytes;
use crate::command::push_line;
use crate::text::{opt_text, texts};

verus! {

/// The port to listen on where the file names none.
pub const DEFAULT_PORT: u16 = 5922;

/// The address to listen on where the file names none.
pub const DEFAULT_LISTEN_ADDR: &'static str = "0.0.0.0";

/// The key that may log in where the file lists none.
pub const DEFAULT_AUTHORIZED_KEY: &'static str = "ssh-rsa AAAAB3NzaC1yc2EAAAADAQABAAABAQC7Pa0R64MB2Qk0VRqFqT4c4iJVHWPrj4K6TLQ7O8LbKGNNyqPdQu1MbJZVYcyvvqqh/BS4VwUt2/Cv/V7eff9VcwU0TFX3dhfuezjXH9WIRaev4tJgn88FgpxGQI5cVzQyWErzMteOL3OPAiJe8C+xYSrowlTZcfE6jkyIu37RM5/oWwg/Gkf07l4kaiz8YOoM00Dvuvn/FVC5Rk2aqn4fZLyF7KFSCkTCCY+2tWJZDko3EXHy+AxBBS4Tq5r7+h6cAEBOVjgnFh3fUYpGiSJuwNWsUOanGKmMprX9ZcgUNpJZcpGDBGlWYDLEWm2ThAZT5CBSL3a+2SkMZVVSi1kn dcagent_key";

/// The keypair, in the encoding of the SSH protocol, that a text with a secret
/// key stands for; none where it stands for no key that can be read.
pub uninterp spec fn secret_key_form(text: Seq<char>) -> Option<Seq<u8>>;

/// The PKCS#8 PEM text of a keypair in the encoding of the SSH protocol; none
/// where there is none.
pub uninterp spec fn pem_form(key: Seq<u8>) -> Option<Seq<char>>;

/// The key has a PEM text, which is not empty, and reading it gives the key back.
pub open spec fn key_survives_pem(key: Seq<u8>) -> bool {
    match pem_form(key) {
        Some(pem) => pem.len() > 0 && secret_key_form(pem) == Some(key),
        None => false,
    }
}

/// The encoded keypair names the Ed25519 algorithm: the length and the letters
/// of `ssh-ed25519`.
pub open spec fn names_ed25519(key: Seq<u8>) -> bool {
    let name: Seq<u8> = seq![
        0u8,
        0u8,
        0u8,
        11u8,
        115u8,
        115u8,
        104u8,
        45u8,
        101u8,
        100u8,
        50u8,
        53u8,
        53u8,
        49u8,
        57u8,
    ];
    key.len() >= name.len() && key.take(name.len() as int) == name
}

/// `russh_keys::decode_secret_key` without a password: reads the text and hands
/// the keypair out in the encoding of the SSH protocol. Which texts hold a key
/// is named and not spelled out. An Ed25519 key that was read can be written as
/// PEM and read back: the PEM holds its secret half, from which the public half
/// follows.
#[verifier::external_body]
fn decode_secret_key(text: &str) -> (r: Option<Vec<u8>>)
    ensures
        opt_bytes(r) == secret_key_form(text@),
        r matches Some(k) ==> (names_ed25519(k@) ==> key_survives_pem(k@)),
{
    let key = russh_keys::decode_secret_key(text, None).ok()?;
    let mut bytes: Vec<u8> = Vec::new();
    russh_keys::ssh_encoding::Encode::encode(key.key_data(), &mut bytes).ok()?;
    Some(bytes)
}

/// `russh_keys::encode_pkcs8_pem`: writes the keypair that the bytes hold as
/// PEM. What it writes is named and not spelled out.
#[verifier::external_body]
fn encode_pkcs8_pem(key: &[u8]) -> (r: Option<String>)
    ensures
        opt_text(r) == pem_form(key@),
{
    let mut reader: &[u8] = key;
    let data: russh_keys::ssh_key::private::KeypairData =
        russh_keys::ssh_encoding::Decode::decode(&mut reader).ok()?;
    let key = russh_keys::PrivateKey::try_from(data).ok()?;
    let mut buf: Vec<u8> = Vec::new();
    russh_keys::encode_pkcs8_pem(&key, &mut buf).ok()?;
    String::from_utf8(buf).ok()
}

/// `russh_keys::PrivateKey::random` with `rand::rngs::OsRng`: a new Ed25519
/// keypair, in the encoding of the SSH protocol. Where the call returns there is
/// one: for Ed25519 it takes no path that fails. Nothing is said of which one it
/// is. It names its algorithm, and can be written as PEM and read back.
#[verifier::external_body]
fn random_ed25519_key() -> (r: Option<Vec<u8>>)
    ensures
        r is Some,
        r matches Some(k) ==> names_ed25519(k@) && key_survives_pem(k@),
{
    let algorithm = russh_keys::Algorithm::Ed25519;
    let key = russh_keys::PrivateKey::random(&mut rand::rngs::OsRng, algorithm).ok()?;
    let mut bytes: Vec<u8> = Vec::new();
    russh_keys::ssh_encoding::Encode::encode(key.key_data(), &mut bytes).ok()?;
    Some(bytes)
}

/// What the configuration file holds.
pub struct SshConfigFile {
    pub port: u16,
    pub listen_addr: String,
    /// The secret key of the server as text; empty where there is none.
    pub host_key: String,
    pub authorized_keys: Vec<String>,
}

/// The contents of an `SshConfigFile`.
pub struct ConfigFileView {
    pub port: u16,
    pub listen_addr: Seq<char>,
    pub host_key: Seq<char>,
    pub authorized_keys: Seq<Seq<char>>,
}

impl View for SshConfigFile {
    type V = ConfigFileView;

    open spec fn view(&self) -> ConfigFileView {
        ConfigFileView {
            port: self.port,
            listen_addr: self.listen_addr@,
            host_key: self.host_key@,
            authorized_keys: texts(self.authorized_keys@),
        }
    }
}

/// What came of reading the configuration file.
pub enum ConfigSource {
    /// There is no file.
    Missing,
    /// It could not be read.
    Unreadable,
    /// It is not in the expected form.
    Invalid,
    /// It holds this.
    Parsed(SshConfigFile),
}

/// The configuration before the host key has been read.
pub struct LoadedConfig {
    pub port: u16,
    pub listen_addr: String,
    pub host_key: Option<String>,
    pub authorized_keys: Vec<String>,
}

/// The contents of a `LoadedConfig`.
pub struct LoadedView {
    pub port: u16,
    pub listen_addr: Seq<char>,
    pub host_key: Option<Seq<char>>,
    pub authorized_keys: Seq<Seq<char>>,
}

impl View for LoadedConfig {
    type V = LoadedView;

    open spec fn view(&self) -> LoadedView {
        LoadedView {
            port: self.port,
            listen_addr: self.listen_addr@,
            host_key: opt_text(self.host_key),
            authorized_keys: texts(self.authorized_keys@),
        }
    }
}

/// What the server runs with.
pub struct SshConfig {
    pub port: u16,
    pub listen_addr: String,
    /// The keypair of the server in the encoding of the SSH protocol.
    pub host_key: Vec<u8>,
    pub authorized_keys: Vec<String>,
}

/// The contents of an `SshConfig`.
pub struct SshConfigView {
    pub port: u16,
    pub listen_addr: Seq<char>,
    pub host_key: Seq<u8>,
    pub authorized_keys: Seq<Seq<char>>,
}

impl View for SshConfig {
    type V = SshConfigView;

    open spec fn view(&self) -> SshConfigView {
        SshConfigView {
            port: self.port,
            listen_addr: self.listen_addr@,
            host_key: self.host_key@,
            authorized_keys: texts(self.authorized_keys@),
        }
    }
}

/// The host key cannot be written as PEM.
pub struct KeyEncodingError;

/// The keys that may log in where the file lists none.
pub open spec fn default_keys() -> Seq<Seq<char>> {
    seq![DEFAULT_AUTHORIZED_KEY@]
}

/// The configuration where no file can be used.
pub open spec fn default_loaded() -> LoadedView {
    LoadedView {
        port: DEFAULT_PORT,
        listen_addr: DEFAULT_LISTEN_ADDR@,
        host_key: None,
        authorized_keys: default_keys(),
    }
}

/// The configuration of a file: an empty host key counts as none, and where no
/// keys are listed the default ones may log in.
pub open spec fn loaded_from_file(file: ConfigFileView) -> LoadedView {
    LoadedView {
        port: file.port,
        listen_addr: file.listen_addr,
        host_key: if file.host_key.len() == 0 {
            None
        } else {
            Some(file.host_key)
        },
        authorized_keys: if file.authorized_keys.len() == 0 {
            default_keys()
        } else {
            file.authorized_keys
        },
    }
}

/// The configuration that reading the file gave.
pub open spec fn loaded_from(source: ConfigSource) -> LoadedView {
    match source {
        ConfigSource::Parsed(file) => loaded_from_file(file@),
        _ => default_loaded(),
    }
}

/// The keypair that the configuration holds, if it can be read.
pub open spec fn stored_key(loaded: LoadedView) -> Option<Seq<u8>> {
    match loaded.host_key {
        Some(text) => secret_key_form(text),
        None => None,
    }
}

/// What the server runs with, given its host key.
pub open spec fn config_with(loaded: LoadedView, key: Seq<u8>) -> SshConfigView {
    SshConfigView {
        port: loaded.port,
        listen_addr: loaded.listen_addr,
        host_key: key,
        authorized_keys: loaded.authorized_keys,
    }
}

/// The file for a configuration, given its host key as PEM.
pub open spec fn file_with(config: SshConfigView, pem: Seq<char>) -> ConfigFileView {
    ConfigFileView {
        port: config.port,
        listen_addr: config.listen_addr,
        host_key: pem,
        authorized_keys: config.authorized_keys,
    }
}

/// The file for a configuration, if its host key has a PEM text.
pub open spec fn saved_form(config: SshConfigView) -> Option<ConfigFileView> {
    match pem_form(config.host_key) {
        Some(pem) => Some(file_with(config, pem)),
        None => None,
    }
}

/// The port to listen on where the file names none.
pub fn default_port() -> (r: u16)
    ensures
        r == DEFAULT_PORT,
{
    DEFAULT_PORT
}

/// The keys that may log in where the file lists none.
pub fn default_authorized_keys() -> (r: Vec<String>)
    ensures
        texts(r@) == default_keys(),
{
    let mut keys: Vec<String> = Vec::new();
    push_line(&mut keys, DEFAULT_AUTHORIZED_KEY);
    assert(texts(keys@) =~= default_keys());
    keys
}

impl Default for SshConfigFile {
    fn default() -> (r: Self)
        ensures
            r@ == (ConfigFileView {
                port: DEFAULT_PORT,
                listen_addr: DEFAULT_LISTEN_ADDR@,
                host_key: Seq::empty(),
                authorized_keys: Seq::empty(),
            }),
    {
        let keys: Vec<String> = Vec::new();
        assert(texts(keys@) =~= Seq::empty());
        Self {
            port: default_port(),
            listen_addr: DEFAULT_LISTEN_ADDR.to_owned(),
            host_key: String::new(),
            authorized_keys: keys,
        }
    }
}

fn default_config() -> (r: LoadedConfig)
    ensures
        r@ == default_loaded(),
{
    LoadedConfig {
        port: DEFAULT_PORT,
        listen_addr: DEFAULT_LISTEN_ADDR.to_owned(),
        host_key: None,
        authorized_keys: default_authorized_keys(),
    }
}

/// What the configuration file says. The defaults stand in for a file that is
/// missing, unreadable or malformed.
pub fn load_config_toml(source: ConfigSource) -> (r: LoadedConfig)
    ensures
        r@ == loaded_from(source),
{
    match source {
        ConfigSource::Missing => default_config(),
        ConfigSource::Unreadable => default_config(),
        ConfigSource::Invalid => default_config(),
        ConfigSource::Parsed(file) => {
            let authorized_keys = if file.authorized_keys.len() == 0 {
                default_authorized_keys()
            } else {
                file.authorized_keys
            };
            let host_key = if file.host_key.as_str().is_empty() {
                None
            } else {
                Some(file.host_key)
            };
            LoadedConfig {
                port: file.port,
                listen_addr: file.listen_addr,
                host_key,
                authorized_keys,
            }
        },
    }
}

fn clone_texts(v: &Vec<String>) -> (r: Vec<String>)
    ensures
        texts(r@) == texts(v@),
{
    let mut out: Vec<String> = Vec::new();
    let mut i: usize = 0;
    while i < v.len()
        invariant
            i <= v@.len(),
            texts(out@) == texts(v@).take(i as int),
        decreases v@.len() - i,
    {
        let ghost before = texts(out@);
        push_line(&mut out, v[i].as_str());
        assert(texts(out@) =~= before.push(texts(v@)[i as int]));
        i = i + 1;
        assert(texts(out@) =~= texts(v@).take(i as int));
    }
    assert(texts(out@) =~= texts(v@));
    out
}

/// The file for a configuration, given its host key as PEM.
pub fn config_file(config: &SshConfig, pem: String) -> (r: SshConfigFile)
    ensures
        r@ == file_with(config@, pem@),
{
    SshConfigFile {
        port: config.port,
        listen_addr: config.listen_addr.clone(),
        host_key: pem,
        authorized_keys: clone_texts(&config.authorized_keys),
    }
}

/// The file to write in order to save a configuration.
pub fn save_ssh_config(config: &SshConfig) -> (r: Result<SshConfigFile, KeyEncodingError>)
    ensures
        match saved_form(config@) {
            Some(file) => r matches Ok(f) && f@ == file,
            None => r is Err,
        },
{
    match encode_pkcs8_pem(config.host_key.as_slice()) {
        Some(pem) => Ok(config_file(config, pem)),
        None => Err(KeyEncodingError),
    }
}

/// What the server starts with.
pub struct Startup {
    pub config: SshConfig,
    /// The file to write, where the host key is new.
    pub persist: Option<SshConfigFile>,
}

/// Starts with the host key that the configuration held.
pub fn with_stored_key(loaded: LoadedConfig, key: Vec<u8>) -> (r: Startup)
    ensures
        r.config@ == config_with(loaded@, key@),
        r.persist is None,
{
    let config = SshConfig {
        port: loaded.port,
        listen_addr: loaded.listen_addr,
        host_key: key,
        authorized_keys: loaded.authorized_keys,
    };
    Startup { config, persist: None }
}

/// Starts with a new host key, which is to be kept in the file. Where it has no
/// PEM text it serves all the same, and the file stays as it is.
pub fn with_new_key(loaded: LoadedConfig, key: Vec<u8>) -> (r: Startup)
    ensures
        r.config@ == config_with(loaded@, key@),
        match saved_form(config_with(loaded@, key@)) {
            Some(file) => r.persist matches Some(f) && f@ == file,
            None => r.persist is None,
        },
{
    let config = SshConfig {
        port: loaded.port,
        listen_addr: loaded.listen_addr,
        host_key: key,
        authorized_keys: loaded.authorized_keys,
    };
    let persist = match save_ssh_config(&config) {
        Ok(file) => Some(file),
        Err(_) => None,
    };
    Startup { config, persist }
}

/// Starts with what generating a host key gave: the new key, to be kept in the
/// file; nothing where none was generated, and only there.
pub fn with_generated_key(loaded: LoadedConfig, generated: Option<Vec<u8>>) -> (r: Option<Startup>)
    ensures
        r is Some <==> generated is Some,
        generated matches Some(key) ==> {
            &&& r matches Some(s)
            &&& s.config@ == config_with(loaded@, key@)
            &&& match saved_form(config_with(loaded@, key@)) {
                Some(file) => s.persist matches Some(f) && f@ == file,
                None => s.persist is None,
            }
        },
{
    match generated {
        Some(key) => Some(with_new_key(loaded, key)),
        None => None,
    }
}

/// Starts with a new Ed25519 host key, which is to be kept in the file.
fn generate_host_key(loaded: LoadedConfig) -> (r: Option<Startup>)
    ensures
        r matches Some(s) && {
            &&& s.config@ == config_with(loaded@, s.config@.host_key)
            &&& names_ed25519(s.config@.host_key)
            &&& key_survives_pem(s.config@.host_key)
            &&& s.persist matches Some(f)
            &&& saved_form(s.config@) == Some(f@)
        },
{
    with_generated_key(loaded, random_ed25519_key())
}

/// The configuration that the server starts with. The host key is the one in
/// the file where that can be read; else a new Ed25519 key, to be kept in the
/// file, so that the next start finds it there. There always is a
/// configuration.
pub fn load_ssh_config(source: ConfigSource) -> (r: Option<Startup>)
    ensures
        match stored_key(loaded_from(source)) {
            Some(key) => {
                &&& r matches Some(s)
                &&& s.config@ == config_with(loaded_from(source), key)
                &&& s.persist is None
                &&& names_ed25519(key) ==> key_survives_pem(key)
            },
            None => r matches Some(s) && {
                &&& s.config@ == config_with(loaded_from(source), s.config@.host_key)
                &&& names_ed25519(s.config@.host_key)
                &&& key_survives_pem(s.config@.host_key)
                &&& s.persist matches Some(f)
                &&& saved_form(s.config@) == Some(f@)
                &&& stored_key(loaded_from_file(f@)) == Some(s.config@.host_key)
                &&& config_with(loaded_from_file(f@), s.config@.host_key) == s.config@
            },
        },
{
    let loaded = load_config_toml(source);
    match &loaded.host_key {
        Some(text) => match decode_secret_key(text.as_str()) {
            Some(key) => Some(with_stored_key(loaded, key)),
            None => generate_host_key(loaded),
        },
        None => generate_host_key(loaded),
    }
}

/// A configuration that was saved is loaded again as it was, and nothing is to
/// be written then. It lists a key, and its host key can be written as PEM and
/// read back, as every generated key can and every Ed25519 key that was read.
pub proof fn saved_config_is_loaded_again(config: SshConfigView, file: ConfigFileView)
    requires
        saved_form(config) == Some(file),
        config.authorized_keys.len() > 0,
        key_survives_pem(config.host_key),
    ensures
        stored_key(loaded_from_file(file)) == Some(config.host_key),
        config_with(loaded_from_file(file), config.host_key) == config,
{
}

/// Whatever came of reading the file, somebody may log in.
pub proof fn somebody_may_log_in(source: ConfigSource)
    ensures
        loaded_from(source).authorized_keys.len() > 0,
{
}

/// What the file says is what counts; only an empty list of keys and an empty host
/// key count as if the file had said nothing of them.
pub proof fn file_values_are_used(file: ConfigFileView, key: Seq<u8>)
    ensures
        ({
            let l = loaded_from_file(file);
            let c = config_with(l, key);
            &&& c.port == file.port
            &&& c.listen_addr == file.listen_addr
            &&& c.host_key == key
            &&& file.authorized_keys.len() > 0 ==> c.authorized_keys == file.authorized_keys
            &&& file.authorized_keys.len() == 0 ==> c.authorized_keys == seq![
                DEFAULT_AUTHORIZED_KEY@,
            ]
            &&& file.host_key.len() > 0 ==> stored_key(l) == secret_key_form(file.host_key)
            &&& file.host_key.len() == 0 ==> stored_key(l) is None
        }),
{
}

/// A file that is missing, cannot be read or is not in the expected form counts as
/// one that says nothing.
pub proof fn unusable_files_say_nothing(source: ConfigSource)
    requires
        source !is Parsed,
    ensures
        loaded_from(source) == loaded_from_file(
            ConfigFileView {
                port: DEFAULT_PORT,
                listen_addr: DEFAULT_LISTEN_ADDR@,
                host_key: Seq::empty(),
                authorized_keys: Seq::empty(),
            },
        ),
{
}

} // verus!
