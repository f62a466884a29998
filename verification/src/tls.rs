//! TLS server configurations.
use std::sync::Arc;

use rustls::pki_types::{CertificateDer, PrivateKeyDer, PrivatePkcs1KeyDer, PrivatePkcs8KeyDer, PrivateSec1KeyDer};
use rustls::ServerConfig;

use vstd::prelude::*;

use crate::text::{join_text, same_text, TextError};
use crate::time::Duration;

verus! {

/// A TLS server configuration, from `rustls`.
#[verifier::external_type_specification]
#[verifier::external_body]
pub struct ExServerConfig(rustls::ServerConfig);

/// Why a TLS configuration cannot be made.
#[derive(Debug)]
pub enum TlsConfigError {
    /// The input is not well-formed PEM.
    InvalidPem(String),
    MissingCertificate,
    MissingPrivateKey,
    EncryptedPrivateKey,
    InvalidPrivateKey(&'static str),
    /// The certificate and the key were rejected, or could not be generated.
    Rejected(String),
}

impl TextError for TlsConfigError {
    open spec fn text_of(&self) -> Seq<char> {
        match self {
            Self::InvalidPem(error) => error@,
            Self::MissingCertificate => "missing certificate"@,
            Self::MissingPrivateKey => "missing private key"@,
            Self::EncryptedPrivateKey => "encrypted private keys are not supported"@,
            Self::InvalidPrivateKey(error) => "invalid private key: "@ + error@,
            Self::Rejected(error) => error@,
        }
    }

    fn to_text(&self) -> (text: String) {
        match self {
            Self::InvalidPem(error) => error.clone(),
            Self::MissingCertificate => "missing certificate".to_owned(),
            Self::MissingPrivateKey => "missing private key".to_owned(),
            Self::EncryptedPrivateKey => "encrypted private keys are not supported".to_owned(),
            Self::InvalidPrivateKey(error) => join_text("invalid private key: ", error),
            Self::Rejected(error) => error.clone(),
        }
    }
}

/// One block of a PEM file: its tag and its decoded contents, which are its view.
#[derive(Debug)]
pub struct PemBlock {
    pub tag: String,
    pub contents: Vec<u8>,
}

impl View for PemBlock {
    type V = (Seq<char>, Seq<u8>);

    open spec fn view(&self) -> (Seq<char>, Seq<u8>) {
        (self.tag@, self.contents@)
    }
}

/// Blocks by their views.
pub open spec fn block_views(blocks: Seq<PemBlock>) -> Seq<(Seq<char>, Seq<u8>)> {
    blocks.map_values(|block: PemBlock| block@)
}

/// The blocks that `pem::parse_many` finds, or what it says of the input.
pub uninterp spec fn pem_blocks(input: Seq<u8>) -> Result<Seq<(Seq<char>, Seq<u8>)>, Seq<char>>;

/// [`pem::parse_many`] reads the blocks of a PEM file. Its result depends on the
/// input alone; each block is taken over with its tag and its contents, and an
/// error as its text.
#[verifier::external_body]
fn parse_blocks(input: &[u8]) -> (result: Result<Vec<PemBlock>, String>)
    ensures
        match result {
            Ok(blocks) => pem_blocks(input@) == Ok::<_, Seq<char>>(block_views(blocks@)),
            Err(error) => pem_blocks(input@) == Err::<Seq<(Seq<char>, Seq<u8>)>, _>(error@),
        },
{
    match pem::parse_many(input) {
        Ok(blocks) => Ok(
            blocks.into_iter().map(
                |block| PemBlock { tag: block.tag().to_owned(), contents: block.into_contents() },
            ).collect(),
        ),
        Err(error) => Err(error.to_string()),
    }
}

/// The encoding of a private key.
#[derive(Debug, Clone, Copy, PartialEq, Eq, Structural)]
pub enum KeyFormat {
    Pkcs1,
    Sec1,
    Pkcs8,
}

/// The encoding of a DER private key, by the start of its outer sequence: a
/// version that is followed by a sequence means PKCS#8, version 0 means PKCS#1,
/// and version 1 means SEC1.
pub open spec fn key_format(der: Seq<u8>) -> Option<KeyFormat> {
    let skipped: int = if der[1] >= 128 {
        2 + (der[1] - 128)
    } else {
        2
    };
    let body = der.skip(skipped);
    if der.len() < 2 || der[0] != 0x30 || der.len() < skipped {
        None
    } else if body.len() >= 4 && body[0] == 2 && body[1] == 1 && body[3] == 0x30 {
        Some(KeyFormat::Pkcs8)
    } else if body.len() >= 3 && body[0] == 2 && body[1] == 1 && body[2] == 0 {
        Some(KeyFormat::Pkcs1)
    } else if body.len() >= 3 && body[0] == 2 && body[1] == 1 && body[2] == 1 {
        Some(KeyFormat::Sec1)
    } else {
        None
    }
}

/// `PrivateKeyDer::try_from` tells the encoding of a DER private key by the start
/// of its outer sequence, and rejects everything else with one message.
#[verifier::external_body]
fn classify_key(der: &[u8]) -> (result: Result<KeyFormat, &'static str>)
    ensures
        match key_format(der@) {
            Some(format) => result == Ok::<_, &'static str>(format),
            None => result == Err::<KeyFormat, _>("unknown or invalid key format"),
        },
{
    match PrivateKeyDer::try_from(der) {
        Ok(PrivateKeyDer::Pkcs1(_)) => Ok(KeyFormat::Pkcs1),
        Ok(PrivateKeyDer::Pkcs8(_)) => Ok(KeyFormat::Pkcs8),
        Ok(_) => Ok(KeyFormat::Sec1),
        Err(error) => Err(error),
    }
}

/// A private key in DER.
pub struct PrivateKey {
    pub format: KeyFormat,
    pub der: Vec<u8>,
}

/// The certificates among PEM blocks, in order.
pub open spec fn certificates_in(blocks: Seq<(Seq<char>, Seq<u8>)>) -> Seq<Seq<u8>>
    decreases blocks.len(),
{
    if blocks.len() == 0 {
        Seq::empty()
    } else if blocks.last().0 == "CERTIFICATE"@ {
        certificates_in(blocks.drop_last()).push(blocks.last().1)
    } else {
        certificates_in(blocks.drop_last())
    }
}

/// Whether a block with this tag holds a private key in the clear.
pub open spec fn is_plain_key(tag: Seq<char>) -> bool {
    tag == "PRIVATE KEY"@ || tag == "RSA PRIVATE KEY"@ || tag == "EC PRIVATE KEY"@
}

/// Whether a block with this tag holds any private key.
pub open spec fn is_key(tag: Seq<char>) -> bool {
    is_plain_key(tag) || tag == "ENCRYPTED PRIVATE KEY"@
}

/// The first block that holds a private key, from `from` on.
pub open spec fn first_key(blocks: Seq<(Seq<char>, Seq<u8>)>, from: int) -> Option<int>
    decreases blocks.len() - from,
{
    if from >= blocks.len() {
        None
    } else if is_key(blocks[from].0) {
        Some(from)
    } else {
        first_key(blocks, from + 1)
    }
}

/// Byte strings by their views.
pub open spec fn byte_views(strings: Seq<Vec<u8>>) -> Seq<Seq<u8>> {
    strings.map_values(|string: Vec<u8>| string@)
}

/// Picks the certificates out of PEM blocks; there must be one.
pub fn select_certificates(blocks: Vec<PemBlock>) -> (result: Result<Vec<Vec<u8>>, TlsConfigError>)
    ensures
        ({
            let found = certificates_in(block_views(blocks@));
            match result {
                Ok(certificates) => found.len() > 0 && byte_views(certificates@) == found,
                Err(error) => found.len() == 0 && error == TlsConfigError::MissingCertificate,
            }
        }),
{
    let mut certificates: Vec<Vec<u8>> = Vec::new();
    let mut index: usize = 0;
    let ghost views = block_views(blocks@);
    assert(views.take(0) =~= Seq::empty());
    while index < blocks.len()
        invariant
            index <= blocks.len(),
            views == block_views(blocks@),
            byte_views(certificates@) == certificates_in(views.take(index as int)),
        decreases blocks.len() - index,
    {
        let block = &blocks[index];
        proof {
            let next = views.take(index + 1);
            assert(next.drop_last() =~= views.take(index as int));
            assert(next.last() == block@);
        }
        if same_text(block.tag.as_str(), "CERTIFICATE") {
            let ghost before = byte_views(certificates@);
            certificates.push(block.contents.clone());
            assert(byte_views(certificates@) =~= before.push(block.contents@));
        }
        index += 1;
    }
    assert(views.take(blocks.len() as int) =~= views);
    if certificates.len() == 0 {
        return Err(TlsConfigError::MissingCertificate);
    }
    Ok(certificates)
}

/// Picks the first private key out of PEM blocks; it must be in the clear and in
/// a known encoding.
pub fn select_private_key(blocks: Vec<PemBlock>) -> (result: Result<PrivateKey, TlsConfigError>)
    ensures
        ({
            let views = block_views(blocks@);
            match first_key(views, 0) {
                None => result == Err::<PrivateKey, _>(TlsConfigError::MissingPrivateKey),
                Some(place) => if !is_plain_key(views[place].0) {
                    result == Err::<PrivateKey, _>(TlsConfigError::EncryptedPrivateKey)
                } else {
                    match key_format(views[place].1) {
                        Some(format) => result is Ok && result->Ok_0.format == format
                            && result->Ok_0.der@ == views[place].1,
                        None => result == Err::<PrivateKey, _>(
                            TlsConfigError::InvalidPrivateKey("unknown or invalid key format"),
                        ),
                    }
                },
            }
        }),
{
    let ghost views = block_views(blocks@);
    let mut index: usize = 0;
    while index < blocks.len()
        invariant
            index <= blocks.len(),
            views == block_views(blocks@),
            first_key(views, 0) == first_key(views, index as int),
        decreases blocks.len() - index,
    {
        let block = &blocks[index];
        assert(views[index as int] == block@);
        let tag = block.tag.as_str();
        if same_text(tag, "PRIVATE KEY") || same_text(tag, "RSA PRIVATE KEY") || same_text(
            tag,
            "EC PRIVATE KEY",
        ) {
            return match classify_key(block.contents.as_slice()) {
                Ok(format) => Ok(PrivateKey { format, der: block.contents.clone() }),
                Err(error) => Err(TlsConfigError::InvalidPrivateKey(error)),
            };
        }
        if same_text(tag, "ENCRYPTED PRIVATE KEY") {
            return Err(TlsConfigError::EncryptedPrivateKey);
        }
        index += 1;
    }
    Err(TlsConfigError::MissingPrivateKey)
}

/// Reads the certificates of a PEM file.
pub fn parse_pem_certificates(input: &[u8]) -> (result: Result<Vec<Vec<u8>>, TlsConfigError>)
    ensures
        match pem_blocks(input@) {
            Err(error) => result is Err && result->Err_0 is InvalidPem
                && result->Err_0->InvalidPem_0@ == error,
            Ok(blocks) => if certificates_in(blocks).len() == 0 {
                result == Err::<Vec<Vec<u8>>, _>(TlsConfigError::MissingCertificate)
            } else {
                result is Ok && byte_views(result->Ok_0@) == certificates_in(blocks)
            },
        },
{
    match parse_blocks(input) {
        Ok(blocks) => select_certificates(blocks),
        Err(error) => Err(TlsConfigError::InvalidPem(error)),
    }
}

/// Reads the first private key of a PEM file.
pub fn parse_pem_private_key(input: &[u8]) -> (result: Result<PrivateKey, TlsConfigError>)
    ensures
        match pem_blocks(input@) {
            Err(error) => result is Err && result->Err_0 is InvalidPem
                && result->Err_0->InvalidPem_0@ == error,
            Ok(blocks) => match first_key(blocks, 0) {
                None => result == Err::<PrivateKey, _>(TlsConfigError::MissingPrivateKey),
                Some(place) => if !is_plain_key(blocks[place].0) {
                    result == Err::<PrivateKey, _>(TlsConfigError::EncryptedPrivateKey)
                } else {
                    match key_format(blocks[place].1) {
                        Some(format) => result is Ok && result->Ok_0.format == format
                            && result->Ok_0.der@ == blocks[place].1,
                        None => result == Err::<PrivateKey, _>(
                            TlsConfigError::InvalidPrivateKey("unknown or invalid key format"),
                        ),
                    }
                },
            },
        },
{
    match parse_blocks(input) {
        Ok(blocks) => select_private_key(blocks),
        Err(error) => Err(TlsConfigError::InvalidPem(error)),
    }
}

/// `ConfigBuilder::with_single_cert` makes a configuration without client
/// authentication from a certificate chain and its key. Nothing is claimed of the
/// result: it depends on the cryptography that the process has installed.
#[verifier::external_body]
fn single_cert_config(certificates: Vec<Vec<u8>>, key: PrivateKey) -> Result<Arc<ServerConfig>, String> {
    let chain = certificates.into_iter().map(CertificateDer::from).collect();
    let der = match key.format {
        KeyFormat::Pkcs1 => PrivateKeyDer::from(PrivatePkcs1KeyDer::from(key.der)),
        KeyFormat::Sec1 => PrivateKeyDer::from(PrivateSec1KeyDer::from(key.der)),
        KeyFormat::Pkcs8 => PrivateKeyDer::from(PrivatePkcs8KeyDer::from(key.der)),
    };
    match ServerConfig::builder().with_no_client_auth().with_single_cert(chain, der) {
        Ok(config) => Ok(Arc::new(config)),
        Err(error) => Err(error.to_string()),
    }
}

/// A fresh key with its self-signed certificate, both in PEM.
#[derive(Debug)]
pub struct GeneratedPem {
    pub certificate: String,
    pub private_key: String,
}

/// Whether every name is ASCII.
pub open spec fn ascii_names(names: Seq<String>) -> bool {
    forall|i: int| 0 <= i < names.len() ==> vstd::utf8::is_ascii_chars((#[trigger] names[i])@)
}

/// `rcgen::generate_simple_self_signed` makes a random key and signs a
/// certificate for the names with it. It fails where a name is not ASCII. Nothing
/// else is claimed of the result, which is random.
#[verifier::external_body]
fn generate_self_signed(subject_alt_names: Vec<String>) -> (result: Result<GeneratedPem, String>)
    ensures
        result is Ok ==> ascii_names(subject_alt_names@),
{
    match rcgen::generate_simple_self_signed(subject_alt_names) {
        Ok(pair) => Ok(
            GeneratedPem {
                certificate: pair.cert.pem(),
                private_key: pair.signing_key.serialize_pem(),
            },
        ),
        Err(error) => Err(error.to_string()),
    }
}

/// Identifies the compiled TLS backend for a [`NacelleTlsConfig`].
#[derive(Debug, Clone, Copy, PartialEq, Eq, Structural)]
pub enum NacelleTlsProvider {
    Rustls,
}

/// A TLS server configuration that can be replaced while it is in use.
#[derive(Debug)]
pub struct NacelleTlsConfig {
    server_config: Arc<ServerConfig>,
    handshake_timeout: Duration,
}

/// A generated configuration with its certificate and its key.
#[derive(Debug)]
pub struct NacelleGeneratedTlsConfig {
    pub tls_config: NacelleTlsConfig,
    pub certificate_pem: String,
    pub private_key_pem: String,
}

/// Whether PEM files hold a certificate and a usable private key.
pub open spec fn usable_pem(certificates: Seq<u8>, private_key: Seq<u8>) -> bool {
    pem_refusal(certificates, private_key) is None
}

/// Why PEM files are refused before any cryptography is asked: the certificates
/// are judged first, then the key.
pub open spec fn pem_refusal(certificates: Seq<u8>, private_key: Seq<u8>) -> Option<Seq<char>> {
    match pem_blocks(certificates) {
        Err(error) => Some(error),
        Ok(blocks) => if certificates_in(blocks).len() == 0 {
            Some("missing certificate"@)
        } else {
            match pem_blocks(private_key) {
                Err(error) => Some(error),
                Ok(keys) => match first_key(keys, 0) {
                    None => Some("missing private key"@),
                    Some(place) => if !is_plain_key(keys[place].0) {
                        Some("encrypted private keys are not supported"@)
                    } else if key_format(keys[place].1) is None {
                        Some("invalid private key: "@ + "unknown or invalid key format"@)
                    } else {
                        None
                    },
                },
            }
        },
    }
}

/// What a configuration is made from.
pub struct TlsMaterial {
    pub certificates: Vec<Vec<u8>>,
    pub private_key: PrivateKey,
}

/// Reads the certificates and the key out of PEM files.
pub fn read_pem(certificates: &[u8], private_key: &[u8]) -> (result: Result<
    TlsMaterial,
    TlsConfigError,
>)
    ensures
        match pem_refusal(certificates@, private_key@) {
            Some(text) => result is Err && !(result->Err_0 is Rejected)
                && result->Err_0.text_of() == text,
            None => result is Ok && holds(
                certificates@,
                private_key@,
                result->Ok_0.certificates,
                result->Ok_0.private_key,
            ),
        },
{
    let chain = match parse_pem_certificates(certificates) {
        Ok(chain) => chain,
        Err(error) => {
            return Err(error);
        },
    };
    match parse_pem_private_key(private_key) {
        Ok(key) => Ok(TlsMaterial { certificates: chain, private_key: key }),
        Err(error) => Err(error),
    }
}

/// Whether the installed cryptography may give `answer` for a certificate chain and
/// its key.
pub closed spec fn answered(
    certificates: Vec<Vec<u8>>,
    private_key: PrivateKey,
    answer: Result<Arc<ServerConfig>, String>,
) -> bool {
    call_ensures(single_cert_config, (certificates, private_key), answer)
}

/// Whether `answer` may be given for the certificates and the key in PEM files.
pub open spec fn answered_pem(
    certificates: Seq<u8>,
    private_key: Seq<u8>,
    answer: Result<Arc<ServerConfig>, String>,
) -> bool {
    exists|chain: Vec<Vec<u8>>, key: PrivateKey|
        {
            &&& holds(certificates, private_key, chain, key)
            &&& #[trigger] answered(chain, key, answer)
        }
}

/// Whether PEM files hold this certificate chain and this key.
pub open spec fn holds(
    certificates: Seq<u8>,
    private_key: Seq<u8>,
    chain: Vec<Vec<u8>>,
    key: PrivateKey,
) -> bool {
    let keys = pem_blocks(private_key)->Ok_0;
    let der = keys[first_key(keys, 0)->0].1;
    &&& pem_refusal(certificates, private_key) is None
    &&& byte_views(chain@) == certificates_in(pem_blocks(certificates)->Ok_0)
    &&& key.der@ == der
    &&& Some(key.format) == key_format(der)
}

/// Whether generating a key with a certificate for the names may have this outcome.
pub closed spec fn generated(names: Vec<String>, outcome: Result<GeneratedPem, String>) -> bool {
    call_ensures(generate_self_signed, (names,), outcome)
}

/// Whether `result` is what PEM files lead to: they are refused, or the answer of
/// the installed cryptography for what they hold decides.
pub open spec fn made_from_pem(
    certificates: Seq<u8>,
    private_key: Seq<u8>,
    result: Result<NacelleTlsConfig, TlsConfigError>,
) -> bool {
    match pem_refusal(certificates, private_key) {
        Some(text) => result is Err && !(result->Err_0 is Rejected) && result->Err_0.text_of()
            == text,
        None => match result {
            Ok(config) => config.timeout() == 10_000_000_000 && answered_pem(
                certificates,
                private_key,
                Ok(config.current()),
            ),
            Err(error) => error matches TlsConfigError::Rejected(text) && answered_pem(
                certificates,
                private_key,
                Err(text),
            ),
        },
    }
}

/// Whether `result` is what the outcome of generating a key and a certificate leads
/// to.
pub open spec fn made_from_generation(
    outcome: Result<GeneratedPem, String>,
    result: Result<NacelleGeneratedTlsConfig, TlsConfigError>,
) -> bool {
    match outcome {
        Err(error) => result == Err::<NacelleGeneratedTlsConfig, _>(
            TlsConfigError::Rejected(error),
        ),
        Ok(pem) => {
            &&& made_from_pem(
                vstd::utf8::encode_utf8(pem.certificate@),
                vstd::utf8::encode_utf8(pem.private_key@),
                match result {
                    Ok(generated) => Ok(generated.tls_config),
                    Err(error) => Err(error),
                },
            )
            &&& result matches Ok(generated) ==> generated.certificate_pem == pem.certificate
                && generated.private_key_pem == pem.private_key
        },
    }
}

impl NacelleTlsConfig {
    pub closed spec fn current(&self) -> Arc<ServerConfig> {
        self.server_config
    }

    pub closed spec fn timeout(&self) -> nat {
        self.handshake_timeout@
    }

    /// A configuration with a handshake timeout of ten seconds.
    pub fn from_server_config_arc(server_config: Arc<ServerConfig>) -> (config: Self)
        ensures
            config.current() == server_config,
            config.timeout() == 10_000_000_000,
    {
        Self { server_config, handshake_timeout: Duration::from_secs(10) }
    }

    /// A configuration with a handshake timeout of ten seconds.
    pub fn from_server_config(server_config: ServerConfig) -> (config: Self)
        ensures
            config.current() == Arc::new(server_config),
            config.timeout() == 10_000_000_000,
    {
        Self::from_server_config_arc(Arc::new(server_config))
    }

    /// What the answer of the installed cryptography leads to.
    pub fn from_answer(answer: Result<Arc<ServerConfig>, String>) -> (result: Result<
        Self,
        TlsConfigError,
    >)
        ensures
            match answer {
                Ok(server_config) => result is Ok && result->Ok_0.current() == server_config
                    && result->Ok_0.timeout() == 10_000_000_000,
                Err(error) => result == Err::<Self, _>(TlsConfigError::Rejected(error)),
            },
    {
        match answer {
            Ok(server_config) => Ok(Self::from_server_config_arc(server_config)),
            Err(error) => Err(TlsConfigError::Rejected(error)),
        }
    }

    /// Makes a configuration from DER. Whether the certificate and the key are
    /// accepted is up to the installed cryptography.
    pub fn from_der(certificates: Vec<Vec<u8>>, private_key: PrivateKey) -> (result: Result<
        Self,
        TlsConfigError,
    >)
        ensures
            match result {
                Ok(config) => config.timeout() == 10_000_000_000 && answered(
                    certificates,
                    private_key,
                    Ok(config.current()),
                ),
                Err(error) => error matches TlsConfigError::Rejected(text) && answered(
                    certificates,
                    private_key,
                    Err(text),
                ),
            },
    {
        let answer = single_cert_config(certificates, private_key);
        assert(answered(certificates, private_key, answer));
        Self::from_answer(answer)
    }

    /// Makes a configuration from PEM files. Files without a certificate or a
    /// usable key are refused; whether the others are accepted is up to the
    /// installed cryptography.
    pub fn from_pem(certificates: &[u8], private_key: &[u8]) -> (result: Result<
        Self,
        TlsConfigError,
    >)
        ensures
            made_from_pem(certificates@, private_key@, result),
    {
        match read_pem(certificates, private_key) {
            Ok(material) => Self::from_der(material.certificates, material.private_key),
            Err(error) => Err(error),
        }
    }

    /// Generates a key with a self-signed certificate for the names. Names that are
    /// not ASCII are rejected; whether others succeed is up to chance and to the
    /// installed cryptography.
    pub fn self_signed(subject_alt_names: Vec<String>) -> (result: Result<
        NacelleGeneratedTlsConfig,
        TlsConfigError,
    >)
        ensures
            exists|outcome: Result<GeneratedPem, String>|
                {
                    &&& #[trigger] generated(subject_alt_names, outcome)
                    &&& made_from_generation(outcome, result)
                },
            result matches Ok(generated) ==> generated.tls_config.timeout() == 10_000_000_000
                && usable_pem(
                vstd::utf8::encode_utf8(generated.certificate_pem@),
                vstd::utf8::encode_utf8(generated.private_key_pem@),
            ),
            !ascii_names(subject_alt_names@) ==> result is Err && result->Err_0 is Rejected,
    {
        let outcome = generate_self_signed(subject_alt_names);
        assert(generated(subject_alt_names, outcome));
        Self::from_generation(outcome)
    }

    /// What the outcome of generating a key and a certificate leads to.
    pub fn from_generation(outcome: Result<GeneratedPem, String>) -> (result: Result<
        NacelleGeneratedTlsConfig,
        TlsConfigError,
    >)
        ensures
            made_from_generation(outcome, result),
    {
        match outcome {
            Ok(pem) => Self::from_generated(pem),
            Err(error) => Err(TlsConfigError::Rejected(error)),
        }
    }

    /// Makes a configuration from a generated key and certificate.
    pub fn from_generated(pem: GeneratedPem) -> (result: Result<
        NacelleGeneratedTlsConfig,
        TlsConfigError,
    >)
        ensures
            made_from_generation(Ok(pem), result),
    {
        let certificate_pem = pem.certificate;
        let private_key_pem = pem.private_key;
        match Self::from_pem(
            certificate_pem.as_str().as_bytes(),
            private_key_pem.as_str().as_bytes(),
        ) {
            Ok(tls_config) => Ok(
                NacelleGeneratedTlsConfig { tls_config, certificate_pem, private_key_pem },
            ),
            Err(error) => Err(error),
        }
    }

    pub fn with_handshake_timeout(self, timeout: Duration) -> (config: Self)
        ensures
            config.current() == self.current(),
            config.timeout() == timeout@,
    {
        Self { handshake_timeout: timeout, ..self }
    }

    /// Replaces the configuration for later handshakes.
    pub fn replace_server_config_arc(&mut self, server_config: Arc<ServerConfig>)
        ensures
            final(self).current() == server_config,
            final(self).timeout() == old(self).timeout(),
    {
        self.server_config = server_config;
    }

    /// Replaces the configuration for later handshakes.
    pub fn replace_server_config(&mut self, server_config: ServerConfig)
        ensures
            final(self).current() == Arc::new(server_config),
            final(self).timeout() == old(self).timeout(),
    {
        self.replace_server_config_arc(Arc::new(server_config));
    }

    /// Whether `after` and `result` are what an answer of the installed cryptography
    /// leads to: what it accepted is used for later handshakes, and a rejection
    /// leaves the old configuration in use.
    pub open spec fn reloaded(
        before: Self,
        answer: Result<Arc<ServerConfig>, String>,
        after: Self,
        result: Result<(), TlsConfigError>,
    ) -> bool {
        &&& after.timeout() == before.timeout()
        &&& match answer {
            Ok(server_config) => result is Ok && after.current() == server_config,
            Err(error) => result == Err::<(), _>(TlsConfigError::Rejected(error))
                && after.current() == before.current(),
        }
    }

    /// Replaces the configuration from DER; a rejected one leaves the old in use.
    pub fn reload_from_der(&mut self, certificates: Vec<Vec<u8>>, private_key: PrivateKey) -> (result:
        Result<(), TlsConfigError>)
        ensures
            exists|answer: Result<Arc<ServerConfig>, String>|
                {
                    &&& #[trigger] answered(certificates, private_key, answer)
                    &&& Self::reloaded(*old(self), answer, *final(self), result)
                },
    {
        let answer = single_cert_config(certificates, private_key);
        assert(answered(certificates, private_key, answer));
        self.reload_from_answer(answer)
    }

    /// Replaces the configuration with what the installed cryptography answered; a
    /// rejection leaves the old in use.
    pub fn reload_from_answer(&mut self, answer: Result<Arc<ServerConfig>, String>) -> (result:
        Result<(), TlsConfigError>)
        ensures
            Self::reloaded(*old(self), answer, *final(self), result),
    {
        match answer {
            Ok(server_config) => {
                self.replace_server_config_arc(server_config);
                Ok(())
            },
            Err(error) => Err(TlsConfigError::Rejected(error)),
        }
    }

    /// Whether PEM files that are reloaded have this result, and leave `after`.
    pub open spec fn reloaded_pem(
        before: Self,
        certificates: Seq<u8>,
        private_key: Seq<u8>,
        after: Self,
        result: Result<(), TlsConfigError>,
    ) -> bool {
        match pem_refusal(certificates, private_key) {
            Some(text) => {
                &&& result is Err && !(result->Err_0 is Rejected) && result->Err_0.text_of() == text
                &&& after.current() == before.current()
                &&& after.timeout() == before.timeout()
            },
            None => exists|answer: Result<Arc<ServerConfig>, String>|
                {
                    &&& #[trigger] answered_pem(certificates, private_key, answer)
                    &&& Self::reloaded(before, answer, after, result)
                },
        }
    }

    /// Replaces the configuration from PEM files; refused ones leave the old in
    /// use.
    pub fn reload_from_pem(&mut self, certificates: &[u8], private_key: &[u8]) -> (result: Result<
        (),
        TlsConfigError,
    >)
        ensures
            Self::reloaded_pem(*old(self), certificates@, private_key@, *final(self), result),
    {
        match read_pem(certificates, private_key) {
            Ok(material) => {
                let ghost chain = material.certificates;
                let ghost key = material.private_key;
                let result = self.reload_from_der(material.certificates, material.private_key);
                proof {
                    let answer = choose|answer: Result<Arc<ServerConfig>, String>|
                        {
                            &&& #[trigger] answered(chain, key, answer)
                            &&& Self::reloaded(*old(self), answer, *self, result)
                        };
                    assert(answered_pem(certificates@, private_key@, answer));
                }
                result
            },
            Err(error) => Err(error),
        }
    }

    pub fn provider(&self) -> (provider: NacelleTlsProvider)
        ensures
            provider == NacelleTlsProvider::Rustls,
    {
        NacelleTlsProvider::Rustls
    }

    /// The configuration for the next handshake.
    pub fn server_config(&self) -> (config: Arc<ServerConfig>)
        ensures
            config == self.current(),
    {
        self.server_config.clone()
    }

    pub fn handshake_timeout(&self) -> (timeout: Duration)
        ensures
            timeout@ == self.timeout(),
    {
        self.handshake_timeout
    }
}

/// The certificates of PEM blocks are the contents of those that are tagged so, all
/// of them and in their order, whatever else stands between.
pub proof fn law_certificates_are_taken_in_order(
    first: Seq<(Seq<char>, Seq<u8>)>,
    second: Seq<(Seq<char>, Seq<u8>)>,
    block: (Seq<char>, Seq<u8>),
)
    ensures
        certificates_in(Seq::empty()) == Seq::<Seq<u8>>::empty(),
        block.0 == "CERTIFICATE"@ ==> certificates_in(seq![block]) == seq![block.1],
        block.0 != "CERTIFICATE"@ ==> certificates_in(seq![block]) == Seq::<Seq<u8>>::empty(),
        certificates_in(first + second) == certificates_in(first) + certificates_in(second),
    decreases second.len(),
{
    reveal_with_fuel(certificates_in, 2);
    assert(seq![block].drop_last() =~= Seq::empty());
    assert(Seq::<Seq<u8>>::empty().push(block.1) =~= seq![block.1]);
    if second.len() == 0 {
        assert(first + second =~= first);
        assert(certificates_in(first) + certificates_in(second) =~= certificates_in(first));
    } else {
        law_certificates_are_taken_in_order(first, second.drop_last(), block);
        assert((first + second).drop_last() =~= first + second.drop_last());
        assert(certificates_in(first + second) =~= certificates_in(first) + certificates_in(second));
    }
}

/// Whether a block is tagged as one of the private keys that are known.
pub open spec fn tagged_as_key(block: (Seq<char>, Seq<u8>)) -> bool {
    ||| block.0 == "PRIVATE KEY"@
    ||| block.0 == "RSA PRIVATE KEY"@
    ||| block.0 == "EC PRIVATE KEY"@
    ||| block.0 == "ENCRYPTED PRIVATE KEY"@
}

/// Of several private keys the first counts.
pub proof fn law_the_first_key_counts(blocks: Seq<(Seq<char>, Seq<u8>)>, from: int)
    requires
        0 <= from,
    ensures
        match first_key(blocks, from) {
            Some(place) => from <= place < blocks.len() && tagged_as_key(blocks[place])
                && forall|i: int| from <= i < place ==> !tagged_as_key(#[trigger] blocks[i]),
            None => forall|i: int| from <= i < blocks.len() ==> !tagged_as_key(#[trigger] blocks[i]),
        },
    decreases blocks.len() - from,
{
    if from < blocks.len() && !is_key(blocks[from].0) {
        law_the_first_key_counts(blocks, from + 1);
    }
}

/// A private key is taken from the first block that holds one, with that block's own
/// contents; one that is encrypted is refused, and so is a file without any.
pub proof fn law_the_first_key_is_taken(
    blocks: Vec<PemBlock>,
    result: Result<PrivateKey, TlsConfigError>,
    place: int,
)
    requires
        call_ensures(select_private_key, (blocks,), result),
    ensures
        (forall|i: int| 0 <= i < blocks@.len() ==> !tagged_as_key((#[trigger] blocks@[i])@))
            ==> result == Err::<PrivateKey, _>(TlsConfigError::MissingPrivateKey),
        0 <= place < blocks@.len() && tagged_as_key(blocks@[place]@) && (forall|i: int|
            0 <= i < place ==> !tagged_as_key((#[trigger] blocks@[i])@)) ==> match result {
            Ok(key) => key.der@ == blocks@[place].contents@ && blocks@[place].tag@
                != "ENCRYPTED PRIVATE KEY"@ && Some(key.format) == key_format(
                blocks@[place].contents@,
            ),
            Err(error) => {
                &&& error is EncryptedPrivateKey <==> blocks@[place].tag@
                    == "ENCRYPTED PRIVATE KEY"@
                &&& error is InvalidPrivateKey <==> blocks@[place].tag@ != "ENCRYPTED PRIVATE KEY"@
                &&& error is InvalidPrivateKey ==> key_format(blocks@[place].contents@) is None
            },
        },
{
    reveal_strlit("PRIVATE KEY");
    reveal_strlit("RSA PRIVATE KEY");
    reveal_strlit("EC PRIVATE KEY");
    reveal_strlit("ENCRYPTED PRIVATE KEY");
    assert("PRIVATE KEY"@.len() == 11 && "RSA PRIVATE KEY"@.len() == 15 && "EC PRIVATE KEY"@.len()
        == 14 && "ENCRYPTED PRIVATE KEY"@.len() == 21);
    let views = block_views(blocks@);
    assert(forall|i: int| 0 <= i < views.len() ==> #[trigger] views[i] == blocks@[i]@);
    law_the_first_key_counts(views, 0);
    if let Some(found) = first_key(views, 0) {
        assert(tagged_as_key(blocks@[found]@));
        if 0 <= place < blocks@.len() && tagged_as_key(blocks@[place]@) && (forall|i: int|
            0 <= i < place ==> !tagged_as_key((#[trigger] blocks@[i])@)) {
            if place < found {
                assert(!tagged_as_key(views[place]));
            }
            assert(found == place);
        }
    } else {
        if 0 <= place < blocks@.len() {
            assert(!tagged_as_key(views[place]));
        }
    }
}

/// The encoding of a key follows from the version at the front of its outer sequence,
/// whose length takes one byte, or one and as many more as that one says: version 0
/// is PKCS#1 and version 1 is SEC1, but either is PKCS#8 where a sequence follows.
pub proof fn law_keys_are_told_apart_by_their_version(
    length: u8,
    more: Seq<u8>,
    version: u8,
    rest: Seq<u8>,
)
    requires
        length < 128 ==> more.len() == 0,
        length >= 128 ==> more.len() == length - 128,
    ensures
        ({
            let der = seq![0x30u8, length] + more + (seq![2u8, 1u8, version] + rest);
            let nested = rest.len() > 0 && rest[0] == 0x30;
            &&& nested ==> key_format(der) == Some(KeyFormat::Pkcs8)
            &&& !nested && version == 0 ==> key_format(der) == Some(KeyFormat::Pkcs1)
            &&& !nested && version == 1 ==> key_format(der) == Some(KeyFormat::Sec1)
            &&& !nested && version > 1 ==> key_format(der) is None
        }),
{
    let body = seq![2u8, 1u8, version] + rest;
    let der = seq![0x30u8, length] + more + body;
    assert(der[0] == 0x30 && der[1] == length);
    assert(der.skip(2 + more.len() as int) =~= body);
    if rest.len() > 0 {
        assert(body[3] == rest[0]);
    }
}

/// PEM files are usable exactly if both are well-formed, the first has a
/// certificate, and the first private key of the second is in the clear and in a
/// known encoding.
pub proof fn law_usable_files_have_a_certificate_and_a_key(
    certificates: Seq<u8>,
    private_key: Seq<u8>,
)
    ensures
        usable_pem(certificates, private_key) <==> {
            &&& pem_blocks(certificates) is Ok
            &&& certificates_in(pem_blocks(certificates)->Ok_0).len() > 0
            &&& pem_blocks(private_key) is Ok
            &&& first_key(pem_blocks(private_key)->Ok_0, 0) matches Some(place) && {
                let block = pem_blocks(private_key)->Ok_0[place];
                block.0 != "ENCRYPTED PRIVATE KEY"@ && key_format(block.1) is Some
            }
        },
        pem_blocks(certificates) matches Err(error) ==> pem_refusal(certificates, private_key)
            == Some(error),
        pem_blocks(certificates) is Ok && certificates_in(pem_blocks(certificates)->Ok_0).len() == 0
            ==> pem_refusal(certificates, private_key) == Some("missing certificate"@),
{
    reveal_strlit("PRIVATE KEY");
    reveal_strlit("RSA PRIVATE KEY");
    reveal_strlit("EC PRIVATE KEY");
    reveal_strlit("ENCRYPTED PRIVATE KEY");
    assert("PRIVATE KEY"@.len() == 11 && "RSA PRIVATE KEY"@.len() == 15 && "EC PRIVATE KEY"@.len()
        == 14 && "ENCRYPTED PRIVATE KEY"@.len() == 21);
    if pem_blocks(private_key) is Ok {
        law_the_first_key_counts(pem_blocks(private_key)->Ok_0, 0);
    }
}

/// A reload that fails leaves what is served as it was, and one that succeeds serves
/// what the cryptography answered; neither changes the time for handshakes.
pub proof fn law_failed_reloads_change_nothing(
    before: NacelleTlsConfig,
    certificates: Seq<u8>,
    private_key: Seq<u8>,
    after: NacelleTlsConfig,
    result: Result<(), TlsConfigError>,
)
    requires
        NacelleTlsConfig::reloaded_pem(before, certificates, private_key, after, result),
    ensures
        after.timeout() == before.timeout(),
        result is Err ==> after.current() == before.current(),
        result is Ok ==> answered_pem(certificates, private_key, Ok(after.current())),
        result is Ok ==> usable_pem(certificates, private_key),
        !usable_pem(certificates, private_key) ==> result is Err,
{
}

/// A configuration serves what the cryptography answered, with ten seconds for a
/// handshake until another time is set; a refusal is handed on in its words.
pub proof fn law_answers_are_taken_over(
    answer: Result<Arc<ServerConfig>, String>,
    result: Result<NacelleTlsConfig, TlsConfigError>,
    span: Duration,
    timed: NacelleTlsConfig,
    read: Duration,
)
    requires
        call_ensures(NacelleTlsConfig::from_answer, (answer,), result),
        result matches Ok(config) ==> call_ensures(
            NacelleTlsConfig::with_handshake_timeout,
            (config, span),
            timed,
        ),
        call_ensures(NacelleTlsConfig::handshake_timeout, (&timed,), read),
    ensures
        result is Ok <==> answer is Ok,
        result matches Ok(config) ==> config.current() == answer->Ok_0 && config.timeout()
            == 10_000_000_000 && timed.current() == answer->Ok_0 && read@ == span@,
        answer matches Err(text) ==> result matches Err(TlsConfigError::Rejected(own)) && own
            == text,
{
}

} // verus!
