use browser_impersonate::http2::SettingId;
use browser_impersonate::safari17_2_1::{
    cipher_list, create_headers, create_ssl_connector, curves_list, fits_template, get_settings,
    header_template,    http2_settings, sigalgs_list,
};
use browser_impersonate::tls::{CertCompression, TlsStep, TlsVersion};
use http::header::{HeaderName, HeaderValue};
use http::HeaderMap;

const SAFARI_UA: &str = "Mozilla/5.0 (Macintosh; Intel Mac OS X 10_15_7) AppleWebKit/605.1.15 (KHTML, like Gecko) Version/16.0 Safari/605.1.15";

const CIPHERS: [&str; 20] = [
    "TLS_AES_128_GCM_SHA256",
    "TLS_AES_256_GCM_SHA384",
    "TLS_CHACHA20_POLY1305_SHA256",
    "TLS_ECDHE_ECDSA_WITH_AES_256_GCM_SHA384",
    "TLS_ECDHE_ECDSA_WITH_AES_128_GCM_SHA256",
    "TLS_ECDHE_ECDSA_WITH_CHACHA20_POLY1305_SHA256",
    "TLS_ECDHE_RSA_WITH_AES_256_GCM_SHA384",
    "TLS_ECDHE_RSA_WITH_AES_128_GCM_SHA256",
    "TLS_ECDHE_RSA_WITH_CHACHA20_POLY1305_SHA256",
    "TLS_ECDHE_ECDSA_WITH_AES_256_CBC_SHA",
    "TLS_ECDHE_ECDSA_WITH_AES_128_CBC_SHA",
    "TLS_ECDHE_RSA_WITH_AES_256_CBC_SHA",
    "TLS_ECDHE_RSA_WITH_AES_128_CBC_SHA",
    "TLS_RSA_WITH_AES_256_GCM_SHA384",
    "TLS_RSA_WITH_AES_128_GCM_SHA256",
    "TLS_RSA_WITH_AES_256_CBC_SHA",
    "TLS_RSA_WITH_AES_128_CBC_SHA",
    "TLS_ECDHE_ECDSA_WITH_3DES_EDE_CBC_SHA",
    "TLS_ECDHE_RSA_WITH_3DES_EDE_CBC_SHA",
    "TLS_RSA_WITH_3DES_EDE_CBC_SHA",
];

#[test]
fn end_to_end_http2_profile() {
    let profile = get_settings(HeaderMap::new());
    let config = profile.tls_builder.build(true);
    assert_eq!(config.alpn, b"\x02h2\x08http/1.1".to_vec());
    assert_eq!(config.min_version, TlsVersion::Tls1);
    assert_eq!(config.max_version, None);
    let ciphers: Vec<&str> = config.cipher_list.split(':').collect();
    assert_eq!(ciphers.len(), 20);
    assert_eq!(ciphers, CIPHERS.to_vec());
    assert!(profile.gzip);
    assert!(profile.brotli);
}

#[test]
fn alpn_without_http2_is_http11_only() {
    let config = create_ssl_connector(false);
    assert_eq!(config.alpn, b"\x08http/1.1".to_vec());
}

#[test]
fn alpn_with_http2_lists_h2_first() {
    let config = create_ssl_connector(true);
    assert_eq!(config.alpn, b"\x02h2\x08http/1.1".to_vec());
}

#[test]
fn sigalgs_keep_order_and_duplicate() {
    let config = create_ssl_connector(true);
    assert_eq!(
        config.sigalgs_list,
        "ecdsa_secp256r1_sha256:rsa_pss_rsae_sha256:rsa_pkcs1_sha256:ecdsa_secp384r1_sha384:ecdsa_sha1:rsa_pss_rsae_sha384:rsa_pss_rsae_sha384:rsa_pkcs1_sha384:rsa_pss_rsae_sha512:rsa_pkcs1_sha512:rsa_pkcs1_sha1"
    );
    assert_eq!(sigalgs_list().len(), 11);
}

#[test]
fn curves_in_table_order() {
    let config = create_ssl_connector(false);
    assert_eq!(config.curves_list, "X25519:P-256:P-384:P-521");
    assert_eq!(curves_list(), vec!["X25519", "P-256", "P-384", "P-521"]);
}

#[test]
fn cipher_table_matches_literal_order() {
    assert_eq!(cipher_list(), CIPHERS.to_vec());
}

#[test]
fn config_flags_and_compression() {
    let config = create_ssl_connector(true);
    assert!(config.load_default_trust_roots);
    assert!(config.no_session_ticket);
    assert!(config.grease);
    assert!(config.ocsp_stapling);
    assert!(config.signed_cert_timestamps);
    assert_eq!(config.cert_compression, vec![CertCompression::Zlib]);
}

#[test]
fn steps_follow_setter_order() {
    let config = create_ssl_connector(true);
    assert_eq!(
        config.steps(),
        vec![
            TlsStep::LoadTrustRoots,
            TlsStep::NoSessionTicket,
            TlsStep::Grease,
            TlsStep::OcspStapling,
            TlsStep::CipherList,
            TlsStep::SignatureAlgorithms,
            TlsStep::Curves,
            TlsStep::Alpn,
            TlsStep::SignedCertTimestamps,
            TlsStep::CertCompression(CertCompression::Zlib),
            TlsStep::MinVersion,
        ]
    );
}

#[test]
fn settings_frame_omits_unset_fields() {
    let frame = http2_settings().settings_frame();
    assert_eq!(
        frame,
        vec![
            (SettingId::EnablePush, 0),
            (SettingId::MaxConcurrentStreams, 100),
            (SettingId::InitialStreamWindowSize, 4194304),
            (SettingId::InitialConnectionWindowSize, 10551295),
        ]
    );
    assert!(!frame.iter().any(|(id, _)| *id == SettingId::HeaderTableSize));
    assert!(!frame.iter().any(|(id, _)| *id == SettingId::MaxHeaderListSize));
}

#[test]
fn settings_frame_sends_each_set_field_once() {
    let mut settings = http2_settings();
    settings.header_table_size = Some(65536);
    settings.enable_push = Some(true);
    let frame = settings.settings_frame();
    assert_eq!(frame.len(), 5);
    assert_eq!(frame[0], (SettingId::HeaderTableSize, 65536));
    assert_eq!(frame[1], (SettingId::EnablePush, 1));
    assert_eq!(frame.iter().filter(|(id, _)| *id == SettingId::HeaderTableSize).count(), 1);
}

#[test]
fn header_template_overwrites_user_agent() {
    let mut caller = HeaderMap::new();
    caller.insert("user-agent", HeaderValue::from_static("X"));
    caller.insert("x-custom", HeaderValue::from_static("1"));
    let profile = get_settings(caller);
    assert_eq!(profile.headers.get("user-agent").unwrap(), SAFARI_UA);
    assert_eq!(profile.headers.get_all("user-agent").iter().count(), 1);
    assert_eq!(profile.headers.get("x-custom").unwrap(), "1");
    assert_eq!(profile.headers.keys_len(), 8);
}

#[test]
fn header_template_values() {
    let headers = create_headers(HeaderMap::new());
    assert_eq!(headers.keys_len(), 7);
    assert_eq!(
        headers.get("accept").unwrap(),
        "text/html,application/xhtml+xml,application/xml;q=0.9,*/*;q=0.8"
    );
    assert_eq!(headers.get("sec-fetch-site").unwrap(), "same-origin");
    assert_eq!(headers.get("sec-fetch-dest").unwrap(), "document");
    assert_eq!(
        headers.get("accept-language").unwrap(),
        "de-DE,de;q=0.9,en-US;q=0.8,en;q=0.7"
    );
    assert_eq!(headers.get("sec-fetch-mode").unwrap(), "navigate");
    assert_eq!(headers.get("accept-encoding").unwrap(), "gzip, deflate, br");
}

#[test]
fn header_template_order() {
    let names: Vec<&str> = header_template().iter().map(|(n, _)| *n).collect();
    assert_eq!(
        names,
        vec![
            "accept",
            "sec-fetch-site",
            "sec-fetch-dest",
            "accept-language",
            "sec-fetch-mode",
            "user-agent",
            "accept-encoding",
        ]
    );
}

#[test]
fn two_constructions_are_identical() {
    let a = get_settings(HeaderMap::new());
    let b = get_settings(HeaderMap::new());
    assert_eq!(a.tls_builder.params.ciphers, b.tls_builder.params.ciphers);
    assert_eq!(a.tls_builder.params.sigalgs, b.tls_builder.params.sigalgs);
    assert_eq!(a.tls_builder.params.curves, b.tls_builder.params.curves);
    assert_eq!(a.http2, b.http2);
    assert_eq!(a.headers, b.headers);
    let ca = a.tls_builder.build(true);
    let cb = b.tls_builder.build(true);
    assert_eq!(ca.cipher_list, cb.cipher_list);
    assert_eq!(ca.alpn, cb.alpn);
}

const TEMPLATE_NAMES: [&str; 7] = [
    "accept",
    "sec-fetch-site",
    "sec-fetch-dest",
    "accept-language",
    "sec-fetch-mode",
    "user-agent",
    "accept-encoding",
];

fn names_of(map: &HeaderMap) -> Vec<String> {
    map.keys().map(|k| k.as_str().to_string()).collect()
}

#[test]
fn fits_template_rejects_oversized_map() {
    let mut caller = HeaderMap::new();
    assert!(fits_template(&caller));
    for i in 0..6546 {
        let name = HeaderName::from_bytes(format!("x-h{}", i).as_bytes()).unwrap();
        caller.insert(name, HeaderValue::from_static("v"));
    }
    assert!(fits_template(&caller));
    let headers = create_headers(caller.clone());
    assert_eq!(headers.keys_len(), 6553);
    caller.insert("x-one-more", HeaderValue::from_static("v"));
    assert!(!fits_template(&caller));
}

#[test]
fn template_names_in_profile_order() {
    let headers = create_headers(HeaderMap::new());
    assert_eq!(names_of(&headers), TEMPLATE_NAMES.to_vec());
    for name in TEMPLATE_NAMES {
        assert_eq!(headers.get_all(name).iter().count(), 1);
    }
}

#[test]
fn caller_names_come_first_in_their_order() {
    let mut caller = HeaderMap::new();
    caller.insert("x-b", HeaderValue::from_static("2"));
    caller.insert("x-a", HeaderValue::from_static("1"));
    let headers = create_headers(caller);
    let mut expected = vec!["x-b".to_string(), "x-a".to_string()];
    expected.extend(TEMPLATE_NAMES.iter().map(|n| n.to_string()));
    assert_eq!(names_of(&headers), expected);
}

#[test]
fn overlapping_caller_name_keeps_its_place() {
    let mut caller = HeaderMap::new();
    caller.insert("x-first", HeaderValue::from_static("1"));
    caller.insert("user-agent", HeaderValue::from_static("X"));
    let headers = create_headers(caller);
    let names = names_of(&headers);
    assert_eq!(names[0], "x-first");
    assert_eq!(names[1], "user-agent");
    assert_eq!(names.len(), 8);
    assert_eq!(headers.get("user-agent").unwrap(), SAFARI_UA);
}

#[test]
fn second_merge_changes_nothing() {
    let mut caller = HeaderMap::new();
    caller.insert("x-custom", HeaderValue::from_static("1"));
    let once = create_headers(caller);
    let twice = create_headers(once.clone());
    assert_eq!(names_of(&once), names_of(&twice));
    assert_eq!(once, twice);
}

#[test]
fn mixed_case_caller_name_is_overwritten() {
    let mut caller = HeaderMap::new();
    caller.insert(HeaderName::from_bytes(b"User-Agent").unwrap(), HeaderValue::from_static("X"));
    caller.insert(HeaderName::from_bytes(b"ACCEPT").unwrap(), HeaderValue::from_static("y"));
    let headers = create_headers(caller);
    assert_eq!(headers.keys_len(), 7);
    assert_eq!(headers.get_all("user-agent").iter().count(), 1);
    assert_eq!(headers.get("user-agent").unwrap(), SAFARI_UA);
    assert_eq!(names_of(&headers)[0], "user-agent");
}

#[test]
fn equal_callers_give_equal_order() {
    let build = || {
        let mut caller = HeaderMap::new();
        caller.insert("x-z", HeaderValue::from_static("1"));
        caller.insert("accept", HeaderValue::from_static("a"));
        get_settings(caller)
    };
    let a = build();
    let b = build();
    assert_eq!(names_of(&a.headers), names_of(&b.headers));
    assert_eq!(names_of(&a.headers), names_of(&create_headers(a.headers.clone())));
}
