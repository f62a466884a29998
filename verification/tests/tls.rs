use nacelle::text::TextError;
use nacelle::time::Duration;
use nacelle::tls::{
    parse_pem_certificates, parse_pem_private_key, read_pem, select_certificates, select_private_key,
    GeneratedPem, KeyFormat, NacelleTlsConfig, NacelleTlsProvider, PemBlock, TlsConfigError,
};

fn block(tag: &str, contents: &[u8]) -> PemBlock {
    PemBlock {
        tag: tag.to_string(),
        contents: contents.to_vec(),
    }
}

#[test]
fn tls_config_from_pem_rejects_missing_key() {
    let result = NacelleTlsConfig::from_pem(b"", b"");
    assert!(result.is_err());
}

#[test]
fn self_signed_config_generates_usable_pem() {
    let mut generated =
        NacelleTlsConfig::self_signed(vec!["localhost".to_string()]).expect("self-signed config");
    assert!(generated.certificate_pem.contains("BEGIN CERTIFICATE"));
    assert!(generated.private_key_pem.contains("BEGIN PRIVATE KEY"));
    assert_eq!(generated.tls_config.provider(), NacelleTlsProvider::Rustls);
    generated
        .tls_config
        .reload_from_pem(
            generated.certificate_pem.as_bytes(),
            generated.private_key_pem.as_bytes(),
        )
        .expect("generated certificate should reload");
    assert_eq!(
        generated.tls_config.handshake_timeout(),
        Duration::from_secs(10)
    );
}

#[test]
fn material_is_read_out_of_pem() {
    let generated =
        NacelleTlsConfig::self_signed(vec!["localhost".to_string()]).expect("self-signed config");
    let material = read_pem(
        generated.certificate_pem.as_bytes(),
        generated.private_key_pem.as_bytes(),
    )
    .expect("usable PEM");
    assert_eq!(material.certificates.len(), 1);
    assert_eq!(material.private_key.format, KeyFormat::Pkcs8);

    let mut config = NacelleTlsConfig::from_der(material.certificates, material.private_key)
        .expect("usable DER")
        .with_handshake_timeout(Duration::from_secs(3));
    assert_eq!(config.handshake_timeout(), Duration::from_secs(3));
    let replacement = generated.tls_config.server_config();
    config.replace_server_config_arc(replacement.clone());
    assert!(std::sync::Arc::ptr_eq(&config.server_config(), &replacement));

    let mismatched = NacelleTlsConfig::self_signed(vec!["localhost".to_string()]).expect("another");
    let refused = config
        .reload_from_pem(
            generated.certificate_pem.as_bytes(),
            mismatched.private_key_pem.as_bytes(),
        )
        .expect_err("the key does not fit the certificate");
    assert!(matches!(refused, TlsConfigError::Rejected(_)));
    assert!(std::sync::Arc::ptr_eq(&config.server_config(), &replacement));
}

#[test]
fn pem_without_certificate_or_key_is_refused() {
    let generated =
        NacelleTlsConfig::self_signed(vec!["localhost".to_string()]).expect("self-signed config");
    let certificate = generated.certificate_pem.as_bytes();
    let key = generated.private_key_pem.as_bytes();

    assert!(matches!(
        parse_pem_certificates(key),
        Err(TlsConfigError::MissingCertificate)
    ));
    assert!(matches!(
        parse_pem_private_key(certificate),
        Err(TlsConfigError::MissingPrivateKey)
    ));
    assert_eq!(
        read_pem(key, certificate)
            .err()
            .map(|error| error.to_text()),
        Some("missing certificate".to_string())
    );
    assert!(matches!(
        parse_pem_certificates(b"-----BEGIN CERTIFICATE-----\n!!!\n-----END CERTIFICATE-----\n"),
        Err(TlsConfigError::InvalidPem(_))
    ));
}

#[test]
fn blocks_are_selected_by_their_tags() {
    let certificates = select_certificates(vec![
        block("CERTIFICATE", b"one"),
        block("PRIVATE KEY", b"key"),
        block("CERTIFICATE", b"two"),
    ])
    .expect("two certificates");
    assert_eq!(certificates, vec![b"one".to_vec(), b"two".to_vec()]);

    let sec1 = [0x30, 0x03, 0x02, 0x01, 0x01];
    let key = select_private_key(vec![
        block("CERTIFICATE", b"one"),
        block("EC PRIVATE KEY", &sec1),
        block("ENCRYPTED PRIVATE KEY", b"x"),
    ])
    .ok()
    .expect("an EC key");
    assert_eq!(key.format, KeyFormat::Sec1);
    assert_eq!(key.der, sec1.to_vec());

    assert!(matches!(
        select_private_key(vec![
            block("ENCRYPTED PRIVATE KEY", b"x"),
            block("EC PRIVATE KEY", &sec1)
        ]),
        Err(TlsConfigError::EncryptedPrivateKey)
    ));
    let invalid = select_private_key(vec![block("RSA PRIVATE KEY", b"junk")]).err();
    assert_eq!(
        invalid.map(|error| error.to_text()),
        Some("invalid private key: unknown or invalid key format".to_string())
    );
    assert!(matches!(
        select_private_key(Vec::new()),
        Err(TlsConfigError::MissingPrivateKey)
    ));
}

#[test]
fn key_formats_are_told_by_the_start_of_the_key() {
    let format = |der: &[u8]| {
        select_private_key(vec![block("PRIVATE KEY", der)])
            .ok()
            .map(|key| key.format)
    };
    assert_eq!(
        format(&[0x30, 0x04, 0x02, 0x01, 0x00, 0x30]),
        Some(KeyFormat::Pkcs8)
    );
    assert_eq!(
        format(&[0x30, 0x04, 0x02, 0x01, 0x00, 0x02]),
        Some(KeyFormat::Pkcs1)
    );
    assert_eq!(
        format(&[0x30, 0x82, 0x00, 0x03, 0x02, 0x01, 0x01]),
        Some(KeyFormat::Sec1)
    );
    assert_eq!(format(&[0x30]), None);
    assert_eq!(format(&[0x31, 0x03, 0x02, 0x01, 0x01]), None);
    assert_eq!(format(&[0x30, 0x03, 0x02, 0x01, 0x02]), None);
}

#[test]
fn answers_of_the_cryptography_are_passed_on() {
    let rejected = NacelleTlsConfig::from_answer(Err("no".to_string())).expect_err("rejected");
    assert_eq!(rejected.to_text(), "no");
    let generated =
        NacelleTlsConfig::self_signed(vec!["localhost".to_string()]).expect("self-signed config");
    let accepted =
        NacelleTlsConfig::from_answer(Ok(generated.tls_config.server_config())).expect("accepted");
    assert_eq!(accepted.handshake_timeout(), Duration::from_secs(10));
    assert!(NacelleTlsConfig::from_generated(GeneratedPem {
        certificate: generated.certificate_pem,
        private_key: generated.private_key_pem,
    })
    .is_ok());
}

#[test]
fn configurations_are_replaced() {
    let first =
        NacelleTlsConfig::self_signed(vec!["localhost".to_string()]).expect("self-signed config");
    let second =
        NacelleTlsConfig::self_signed(vec!["localhost".to_string()]).expect("self-signed config");
    let mut config = NacelleTlsConfig::from_server_config((*first.tls_config.server_config()).clone());
    assert_eq!(config.handshake_timeout(), Duration::from_secs(10));

    let before = config.server_config();
    config.replace_server_config((*second.tls_config.server_config()).clone());
    assert!(!std::sync::Arc::ptr_eq(&config.server_config(), &before));

    let before = config.server_config();
    let material = read_pem(
        second.certificate_pem.as_bytes(),
        second.private_key_pem.as_bytes(),
    )
    .expect("usable PEM");
    config
        .reload_from_der(material.certificates, material.private_key)
        .expect("usable DER");
    assert!(!std::sync::Arc::ptr_eq(&config.server_config(), &before));

    let before = config.server_config();
    let material = read_pem(
        first.certificate_pem.as_bytes(),
        second.private_key_pem.as_bytes(),
    )
    .expect("usable PEM");
    assert!(config
        .reload_from_der(material.certificates, material.private_key)
        .is_err());
    assert!(std::sync::Arc::ptr_eq(&config.server_config(), &before));
}

#[test]
fn names_outside_ascii_are_rejected() {
    let rejected = NacelleTlsConfig::self_signed(vec!["h\u{f6}st".to_string()])
        .expect_err("the name is not ASCII");
    assert!(matches!(rejected, TlsConfigError::Rejected(_)));
    assert_eq!(rejected.to_text(), "Invalid IA5String: 'h\u{f6}st'");

    let failed =
        NacelleTlsConfig::from_generation(Err("no entropy".to_string())).expect_err("no key");
    assert_eq!(failed.to_text(), "no entropy");
}

#[test]
fn answers_of_the_cryptography_are_taken_over() {
    let mut config = NacelleTlsConfig::self_signed(vec!["localhost".to_string()])
        .expect("self-signed config")
        .tls_config
        .with_handshake_timeout(Duration::from_secs(3));
    let other = NacelleTlsConfig::self_signed(vec!["localhost".to_string()])
        .expect("self-signed config")
        .tls_config
        .server_config();

    let before = config.server_config();
    let refused = config
        .reload_from_answer(Err("no".to_string()))
        .expect_err("rejected");
    assert_eq!(refused.to_text(), "no");
    assert!(std::sync::Arc::ptr_eq(&config.server_config(), &before));

    config.reload_from_answer(Ok(other.clone())).expect("accepted");
    assert!(std::sync::Arc::ptr_eq(&config.server_config(), &other));
    assert_eq!(config.handshake_timeout(), Duration::from_secs(3));
}
