//! The relay server: its settings, which connections it admits, and the
//! TLS material it serves with.

use vstd::prelude::*;

use crate::argv::lit;
use crate::text::push_str;

verus! {

/// Default QUIC bind address.
pub const DEFAULT_BIND_ADDR: &'static str = "0.0.0.0:4433";

/// Default limit of concurrent client connections.
pub const DEFAULT_MAX_CONNECTIONS: usize = 100;

/// Where the relay reads its settings.
pub const RELAY_CONFIG_PATH: &'static str = "/etc/netfusion/relay.toml";

/// The ALPN protocol the relay speaks.
pub const ALPN_PROTOCOL: &'static str = "netfusion-relay";

/// Concurrent streams allowed per connection, in each direction.
pub const MAX_CONCURRENT_STREAMS: u32 = 100;

/// The most bytes one echoed stream may carry.
pub const MAX_ECHO_BYTES: usize = 1048576;

/// Relay server configuration.
#[derive(Debug, Clone)]
pub struct RelayConfig {
    /// QUIC bind address.
    pub bind_addr: String,
    /// Path to the TLS certificate (PEM).
    pub cert_path: String,
    /// Path to the TLS private key (PEM).
    pub key_path: String,
    /// Maximum concurrent client connections.
    pub max_connections: usize,
    /// Upstream target for forwarded traffic.
    pub upstream: Option<String>,
}

impl Default for RelayConfig {
    fn default() -> (c: Self)
        ensures
            c.bind_addr@ == "0.0.0.0:4433"@,
            c.cert_path@ == "/etc/netfusion/relay/cert.pem"@,
            c.key_path@ == "/etc/netfusion/relay/key.pem"@,
            c.max_connections == 100,
            c.upstream is None,
    {
        RelayConfig {
            bind_addr: lit(DEFAULT_BIND_ADDR),
            cert_path: lit("/etc/netfusion/relay/cert.pem"),
            key_path: lit("/etc/netfusion/relay/key.pem"),
            max_connections: DEFAULT_MAX_CONNECTIONS,
            upstream: None,
        }
    }
}

/// The error when the settings file does not exist.
pub fn missing_config_message(path: &str) -> (m: String)
    ensures
        m@ == "Config file not found: "@ + path@,
{
    let mut m = lit("Config file not found: ");
    push_str(&mut m, path);
    m
}

/// Admission state of the relay server.
pub struct RelayServer {
    config: RelayConfig,
    active_connections: usize,
}

impl RelayServer {
    pub closed spec fn config_spec(&self) -> RelayConfig {
        self.config
    }

    /// Connections admitted so far.
    pub closed spec fn active(&self) -> nat {
        self.active_connections as nat
    }

    /// A server with no connection yet.
    pub fn new(config: RelayConfig) -> (s: Self)
        ensures
            s.config_spec() == config,
            s.active() == 0,
    {
        RelayServer { config, active_connections: 0 }
    }

    /// The settings.
    pub fn config(&self) -> (c: &RelayConfig)
        ensures
            *c == self.config_spec(),
    {
        &self.config
    }

    /// Connections admitted so far.
    pub fn active_connections(&self) -> (n: usize)
        ensures
            n == self.active(),
    {
        self.active_connections
    }

    /// Decides on an incoming connection: admitted (and counted) while
    /// fewer than the limit were admitted, rejected otherwise.
    pub fn accept_connection(&mut self) -> (ok: bool)
        ensures
            ok == (old(self).active() < old(self).config_spec().max_connections),
            final(self).active() == if ok { old(self).active() + 1 } else { old(self).active() },
            final(self).config_spec() == old(self).config_spec(),
            // the limit is never exceeded
            old(self).active() <= old(self).config_spec().max_connections ==> final(self).active()
                <= final(self).config_spec().max_connections,
    {
        if self.active_connections >= self.config.max_connections {
            false
        } else {
            self.active_connections = self.active_connections + 1;
            true
        }
    }
}

// ---------------------------------------------------------------------------
// TLS material
// ---------------------------------------------------------------------------

/// What can go wrong preparing the TLS material.
#[derive(Debug, Clone)]
pub enum RelayError {
    /// A PEM file could not be read.
    Pem(String),
    /// The key file holds no private key.
    NoPrivateKey,
    /// The self-signed certificate could not be generated.
    Certificate(String),
}

/// The DER certificates of a PEM text, in order, or the reading error.
pub uninterp spec fn pem_certificates(pem: Seq<char>) -> Result<Seq<Seq<u8>>, Seq<char>>;

/// The DER encoding of the first private key of a PEM text (none when
/// there is no key), or the reading error.
pub uninterp spec fn pem_first_private_key(pem: Seq<char>) -> Result<Option<Seq<u8>>, Seq<char>>;

pub open spec fn bytes_views(v: Seq<Vec<u8>>) -> Seq<Seq<u8>> {
    v.map_values(|b: Vec<u8>| b@)
}

pub open spec fn certs_view(r: Result<Vec<Vec<u8>>, String>) -> Result<Seq<Seq<u8>>, Seq<char>> {
    match r {
        Ok(v) => Ok(bytes_views(v@)),
        Err(e) => Err(e@),
    }
}

pub open spec fn key_view(r: Result<Option<Vec<u8>>, String>) -> Result<Option<Seq<u8>>, Seq<char>> {
    match r {
        Ok(Some(k)) => Ok(Some(k@)),
        Ok(None) => Ok(None),
        Err(e) => Err(e@),
    }
}

/// Reads every certificate of a PEM text.
///
/// Wraps `rustls_pemfile::certs`, collected into a `Result`: the
/// certificates in order, or the first reading error, as text.
#[verifier::external_body]
fn read_pem_certs(pem: &str) -> (r: Result<Vec<Vec<u8>>, String>)
    ensures
        certs_view(r) == pem_certificates(pem@),
{
    let mut rd = pem.as_bytes();
    match rustls_pemfile::certs(&mut rd).collect::<Result<Vec<_>, _>>() {
        Ok(certs) => Ok(certs.into_iter().map(|c| c.as_ref().to_vec()).collect()),
        Err(e) => Err(e.to_string()),
    }
}

/// Reads the first private key of a PEM text.
///
/// Wraps `rustls_pemfile::private_key`: the first PKCS#1, PKCS#8 or SEC1
/// key, none when there is none, or the reading error, as text.
#[verifier::external_body]
fn read_pem_private_key(pem: &str) -> (r: Result<Option<Vec<u8>>, String>)
    ensures
        key_view(r) == pem_first_private_key(pem@),
{
    let mut rd = pem.as_bytes();
    match rustls_pemfile::private_key(&mut rd) {
        Ok(Some(k)) => Ok(Some(k.secret_der().to_vec())),
        Ok(None) => Ok(None),
        Err(e) => Err(e.to_string()),
    }
}

/// A certificate chain and its private key, DER-encoded.
#[derive(Debug)]
pub struct TlsMaterial {
    pub certs: Vec<Vec<u8>>,
    pub key: Vec<u8>,
}

/// The material a certificate read and a key read give: an error from
/// either read (the certificate error first), no key, or both.
pub open spec fn material_spec(
    certs: Result<Seq<Seq<u8>>, Seq<char>>,
    key: Result<Option<Seq<u8>>, Seq<char>>,
    r: Result<TlsMaterial, RelayError>,
) -> bool {
    match certs {
        Err(e) => r matches Err(RelayError::Pem(m)) && m@ == e,
        Ok(cs) => match key {
            Err(e) => r matches Err(RelayError::Pem(m)) && m@ == e,
            Ok(None) => r matches Err(RelayError::NoPrivateKey),
            Ok(Some(k)) => r matches Ok(t) && bytes_views(t.certs@) == cs && t.key@ == k,
        },
    }
}

/// Combines the outcomes of reading the certificates and the key.
pub fn material_from(
    certs: Result<Vec<Vec<u8>>, String>,
    key: Result<Option<Vec<u8>>, String>,
) -> (r: Result<TlsMaterial, RelayError>)
    ensures
        material_spec(certs_view(certs), key_view(key), r),
{
    let certs = match certs {
        Ok(c) => c,
        Err(e) => return Err(RelayError::Pem(e)),
    };
    match key {
        Err(e) => Err(RelayError::Pem(e)),
        Ok(None) => Err(RelayError::NoPrivateKey),
        Ok(Some(k)) => Ok(TlsMaterial { certs, key: k }),
    }
}

/// Reads the TLS material from the certificate and key PEM texts.
pub fn tls_material(cert_pem: &str, key_pem: &str) -> (r: Result<TlsMaterial, RelayError>)
    ensures
        material_spec(pem_certificates(cert_pem@), pem_first_private_key(key_pem@), r),
{
    let certs = read_pem_certs(cert_pem);
    let key = read_pem_private_key(key_pem);
    material_from(certs, key)
}

/// A generated certificate and its key, PEM-encoded.
#[derive(Debug)]
pub struct SelfSignedCert {
    pub cert_pem: String,
    pub key_pem: String,
}

/// The text begins with the PEM header of a `tag` block.
pub open spec fn pem_headed(text: Seq<char>, tag: Seq<char>) -> bool {
    ("-----BEGIN "@ + tag + "-----"@).is_prefix_of(text)
}

/// Generates a self-signed certificate for the given names.
///
/// Wraps `rcgen::generate_simple_self_signed` with a fresh random key
/// pair; the certificate (`Certificate::pem`) and key
/// (`KeyPair::serialize_pem`) come back PEM-encoded. What is generated is
/// random, so only the PEM framing is stated: the texts begin with the
/// `CERTIFICATE` and `PRIVATE KEY` headers.
#[verifier::external_body]
fn rcgen_self_signed(names: Vec<String>) -> (r: Result<SelfSignedCert, String>)
    ensures
        r matches Ok(c) ==> pem_headed(c.cert_pem@, "CERTIFICATE"@) && pem_headed(c.key_pem@, "PRIVATE KEY"@),
{
    match rcgen::generate_simple_self_signed(names) {
        Ok(ck) => Ok(SelfSignedCert { cert_pem: ck.cert.pem(), key_pem: ck.signing_key.serialize_pem() }),
        Err(e) => Err(e.to_string()),
    }
}

/// The names a development certificate is issued for.
pub fn self_signed_names() -> (v: Vec<String>)
    ensures
        v@.map_values(|s: String| s@) == seq!["localhost"@, "netfusion-relay.local"@],
{
    let v = vec![lit("localhost"), lit("netfusion-relay.local")];
    assert(v@.map_values(|s: String| s@) =~= seq!["localhost"@, "netfusion-relay.local"@]);
    v
}

/// Generates a self-signed development certificate for `localhost` and
/// `netfusion-relay.local`, as PEM certificate and private-key text; a
/// failure is a certificate error.
pub fn generate_self_signed_cert() -> (r: Result<SelfSignedCert, RelayError>)
    ensures
        r matches Err(e) ==> e is Certificate,
        r matches Ok(c) ==> pem_headed(c.cert_pem@, "CERTIFICATE"@) && pem_headed(c.key_pem@, "PRIVATE KEY"@),
{
    match rcgen_self_signed(self_signed_names()) {
        Ok(c) => Ok(c),
        Err(e) => Err(RelayError::Certificate(e)),
    }
}

} // verus!
