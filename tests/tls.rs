use browser_impersonate::alpn::{alpn_bytes, alpn_protocols, encode_alpn};
use browser_impersonate::tls::{
    build_tls_config, join_names, rejection_of, settle, CertCompression, ProfileError,
    TlsParameterSet, TlsStep, TlsVersion,
};

fn small_params() -> TlsParameterSet {
    TlsParameterSet {
        ciphers: vec!["A", "B"],
        sigalgs: vec!["s"],
        curves: vec!["X25519"],
        min_version: TlsVersion::Tls1_2,
        max_version: Some(TlsVersion::Tls1_3),
        cert_compression: vec![CertCompression::Zlib, CertCompression::Zlib],
        no_session_ticket: false,
        ocsp_stapling: false,
        signed_cert_timestamps: false,
        grease: false,
    }
}

#[test]
fn join_names_uses_colons_in_order() {
    assert_eq!(join_names(&vec!["b", "a", "b"]), "b:a:b");
    assert_eq!(join_names(&vec!["only"]), "only");
    assert_eq!(join_names(&vec![]), "");
}

#[test]
fn encode_alpn_prefixes_lengths() {
    let protos = vec![b"spdy/1".to_vec(), b"http/1.1".to_vec()];
    assert_eq!(encode_alpn(&protos), b"\x06spdy/1\x08http/1.1".to_vec());
    assert_eq!(encode_alpn(&vec![]), Vec::<u8>::new());
}

#[test]
fn alpn_protocol_lists() {
    assert_eq!(alpn_protocols(true), vec![b"h2".to_vec(), b"http/1.1".to_vec()]);
    assert_eq!(alpn_protocols(false), vec![b"http/1.1".to_vec()]);
    assert_eq!(alpn_bytes(false), b"\x08http/1.1".to_vec());
}

#[test]
fn build_config_from_other_params() {
    let config = build_tls_config(&small_params(), false);
    assert_eq!(config.cipher_list, "A:B");
    assert_eq!(config.sigalgs_list, "s");
    assert_eq!(config.curves_list, "X25519");
    assert_eq!(config.min_version, TlsVersion::Tls1_2);
    assert_eq!(config.max_version, Some(TlsVersion::Tls1_3));
    assert_eq!(
        config.steps(),
        vec![
            TlsStep::LoadTrustRoots,
            TlsStep::Grease,
            TlsStep::CipherList,
            TlsStep::SignatureAlgorithms,
            TlsStep::Curves,
            TlsStep::Alpn,
            TlsStep::CertCompression(CertCompression::Zlib),
            TlsStep::CertCompression(CertCompression::Zlib),
            TlsStep::MinVersion,
            TlsStep::MaxVersion,
        ]
    );
}

#[test]
fn rejected_cipher_list_fails_construction() {
    let steps = vec![TlsStep::LoadTrustRoots, TlsStep::CipherList, TlsStep::Alpn];
    assert_eq!(
        settle(&steps, &vec![true, false, true]),
        Err(ProfileError::ConfigurationRejected(TlsStep::CipherList))
    );
}

#[test]
fn first_rejection_is_reported() {
    let steps = vec![TlsStep::LoadTrustRoots, TlsStep::CipherList, TlsStep::Alpn];
    assert_eq!(
        settle(&steps, &vec![false, false, true]),
        Err(ProfileError::TrustStoreUnavailable)
    );
    assert_eq!(settle(&steps, &vec![true, true, true]), Ok(()));
}

#[test]
fn rejection_kinds() {
    assert_eq!(rejection_of(TlsStep::LoadTrustRoots), ProfileError::TrustStoreUnavailable);
    assert_eq!(
        rejection_of(TlsStep::Curves),
        ProfileError::ConfigurationRejected(TlsStep::Curves)
    );
}
