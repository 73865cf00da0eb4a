use vstd::prelude::*;

use http::header::HeaderValue;
use http::HeaderMap;

use crate::headers::{
    apply_template, ascii_bytes, consistent, has_room, header_contents, header_names, lemma_caller_header_kept,
    lemma_merged_appends, lemma_merged_len_bound, lemma_template_wins, merged_names, overlay,
    template_names, template_view, valid_template, MAX_HEADER_NAMES,
    TemplateEntry,
};
use crate::alpn::{advertised_protocols, alpn_wire};
use crate::http2::Http2Settings;
use crate::profile::{ImpersonationProfile, TlsBuilder};
use crate::tls::{join_colon, lemma_join_keeps_order, names, no_colon, split_colon, CertCompression, TlsContextConfig, TlsParameterSet, TlsVersion};

verus! {

/// Safari 17.2.1's cipher suites, in the order it offers them.
pub open spec fn cipher_table() -> Seq<Seq<char>> {
    seq![
        "TLS_AES_128_GCM_SHA256"@,
        "TLS_AES_256_GCM_SHA384"@,
        "TLS_CHACHA20_POLY1305_SHA256"@,
        "TLS_ECDHE_ECDSA_WITH_AES_256_GCM_SHA384"@,
        "TLS_ECDHE_ECDSA_WITH_AES_128_GCM_SHA256"@,
        "TLS_ECDHE_ECDSA_WITH_CHACHA20_POLY1305_SHA256"@,
        "TLS_ECDHE_RSA_WITH_AES_256_GCM_SHA384"@,
        "TLS_ECDHE_RSA_WITH_AES_128_GCM_SHA256"@,
        "TLS_ECDHE_RSA_WITH_CHACHA20_POLY1305_SHA256"@,
        "TLS_ECDHE_ECDSA_WITH_AES_256_CBC_SHA"@,
        "TLS_ECDHE_ECDSA_WITH_AES_128_CBC_SHA"@,
        "TLS_ECDHE_RSA_WITH_AES_256_CBC_SHA"@,
        "TLS_ECDHE_RSA_WITH_AES_128_CBC_SHA"@,
        "TLS_RSA_WITH_AES_256_GCM_SHA384"@,
        "TLS_RSA_WITH_AES_128_GCM_SHA256"@,
        "TLS_RSA_WITH_AES_256_CBC_SHA"@,
        "TLS_RSA_WITH_AES_128_CBC_SHA"@,
        "TLS_ECDHE_ECDSA_WITH_3DES_EDE_CBC_SHA"@,
        "TLS_ECDHE_RSA_WITH_3DES_EDE_CBC_SHA"@,
        "TLS_RSA_WITH_3DES_EDE_CBC_SHA"@,
    ]
}

/// Safari 17.2.1's signature algorithms, in order, its repeated entry kept.
pub open spec fn sigalg_table() -> Seq<Seq<char>> {
    seq![
        "ecdsa_secp256r1_sha256"@,
        "rsa_pss_rsae_sha256"@,
        "rsa_pkcs1_sha256"@,
        "ecdsa_secp384r1_sha384"@,
        "ecdsa_sha1"@,
        "rsa_pss_rsae_sha384"@,
        "rsa_pss_rsae_sha384"@,
        "rsa_pkcs1_sha384"@,
        "rsa_pss_rsae_sha512"@,
        "rsa_pkcs1_sha512"@,
        "rsa_pkcs1_sha1"@,
    ]
}

/// Safari 17.2.1's named curves, in order.
pub open spec fn curve_table() -> Seq<Seq<char>> {
    seq!["X25519"@, "P-256"@, "P-384"@, "P-521"@]
}

/// Safari 17.2.1's default headers, in the order it sends them.
pub open spec fn header_table() -> Seq<(Seq<char>, Seq<char>)> {
    seq![
        ("accept"@, "text/html,application/xhtml+xml,application/xml;q=0.9,*/*;q=0.8"@),
        ("sec-fetch-site"@, "same-origin"@),
        ("sec-fetch-dest"@, "document"@),
        ("accept-language"@, "de-DE,de;q=0.9,en-US;q=0.8,en;q=0.7"@),
        ("sec-fetch-mode"@, "navigate"@),
        ("user-agent"@, "Mozilla/5.0 (Macintosh; Intel Mac OS X 10_15_7) AppleWebKit/605.1.15 (KHTML, like Gecko) Version/16.0 Safari/605.1.15"@),
        ("accept-encoding"@, "gzip, deflate, br"@),
    ]
}

/// The profile's handshake parameters, field by field.
pub open spec fn is_safari_params(p: TlsParameterSet) -> bool {
    &&& names(p.ciphers@) == cipher_table()
    &&& names(p.sigalgs@) == sigalg_table()
    &&& names(p.curves@) == curve_table()
    &&& p.min_version == TlsVersion::Tls1
    &&& p.max_version is None
    &&& p.cert_compression@ == seq![CertCompression::Zlib]
    &&& p.no_session_ticket
    &&& p.ocsp_stapling
    &&& p.signed_cert_timestamps
    &&& p.grease
}

/// The profile's HTTP/2 settings: stream and connection windows, a stream
/// limit and push disabled; no header list size and no header table size.
pub open spec fn safari_http2() -> Http2Settings {
    Http2Settings {
        initial_stream_window_size: Some(4194304),
        initial_connection_window_size: Some(10551295),
        max_concurrent_streams: Some(100),
        max_header_list_size: None,
        header_table_size: None,
        enable_push: Some(false),
    }
}

pub fn cipher_list() -> (r: Vec<&'static str>)
    ensures
        names(r@) == cipher_table(),
{
    let r = vec![
        "TLS_AES_128_GCM_SHA256",
        "TLS_AES_256_GCM_SHA384",
        "TLS_CHACHA20_POLY1305_SHA256",
        "TLS_ECDHE_ECDSA_WITH_AES_256_GCM_SHA384",
        "TLS_ECDHE_ECDSA_WITH_AES_128_GCM_SHA256",
        "TLS_ECDHE_ECDSA_WITH_CHACHA20_POLY1305_SHA256",
        "TLS_ECDHE_RSA_WITH_AES_256_GCM_SHA384",
        "TLS_ECDHE_RSA_WITH_AES_128_GCM_SHA256",
        "TLS_ECDHE_RSA_WITH_CHACHA20_POLY1305_SHA256",
        "TLS_ECDHE_ECDSA_WITH_AES_256_CBC_SHA",
        "TLS_ECDHE_ECDSA_WITH_AES_128_CBC_SHA",
        "TLS_ECDHE_RSA_WITH_AES_256_CBC_SHA",
        "TLS_ECDHE_RSA_WITH_AES_128_CBC_SHA",
        "TLS_RSA_WITH_AES_256_GCM_SHA384",
        "TLS_RSA_WITH_AES_128_GCM_SHA256",
        "TLS_RSA_WITH_AES_256_CBC_SHA",
        "TLS_RSA_WITH_AES_128_CBC_SHA",
        "TLS_ECDHE_ECDSA_WITH_3DES_EDE_CBC_SHA",
        "TLS_ECDHE_RSA_WITH_3DES_EDE_CBC_SHA",
        "TLS_RSA_WITH_3DES_EDE_CBC_SHA",
    ];
    assert(names(r@) =~= cipher_table());
    r
}

pub fn sigalgs_list() -> (r: Vec<&'static str>)
    ensures
        names(r@) == sigalg_table(),
{
    let r = vec![
        "ecdsa_secp256r1_sha256",
        "rsa_pss_rsae_sha256",
        "rsa_pkcs1_sha256",
        "ecdsa_secp384r1_sha384",
        "ecdsa_sha1",
        "rsa_pss_rsae_sha384",
        "rsa_pss_rsae_sha384",
        "rsa_pkcs1_sha384",
        "rsa_pss_rsae_sha512",
        "rsa_pkcs1_sha512",
        "rsa_pkcs1_sha1",
    ];
    assert(names(r@) =~= sigalg_table());
    r
}

pub fn curves_list() -> (r: Vec<&'static str>)
    ensures
        names(r@) == curve_table(),
{
    let r = vec!["X25519", "P-256", "P-384", "P-521"];
    assert(names(r@) =~= curve_table());
    r
}

/// The profile's handshake parameters.
pub fn tls_parameters() -> (r: TlsParameterSet)
    ensures
        is_safari_params(r),
        r.wf(),
{
    let r = TlsParameterSet {
        ciphers: cipher_list(),
        sigalgs: sigalgs_list(),
        curves: curves_list(),
        min_version: TlsVersion::Tls1,
        max_version: None,
        cert_compression: vec![CertCompression::Zlib],
        no_session_ticket: true,
        ocsp_stapling: true,
        signed_cert_timestamps: true,
        grease: true,
    };
    assert(r.cert_compression@ =~= seq![CertCompression::Zlib]);
    assert(r.ciphers@.len() == names(r.ciphers@).len());
    assert(r.sigalgs@.len() == names(r.sigalgs@).len());
    assert(r.curves@.len() == names(r.curves@).len());
    r
}

/// The TLS configuration of this profile for one connection attempt: the
/// three tables joined in order, ALPN by `negotiate_http2`, TLS 1.0 as the
/// lowest version.
pub fn create_ssl_connector(negotiate_http2: bool) -> (r: TlsContextConfig)
    ensures
        exists|p: TlsParameterSet| is_safari_params(p) && crate::tls::config_of(r, p, negotiate_http2),
        r.cipher_list@ == join_colon(cipher_table()),
        r.sigalgs_list@ == join_colon(sigalg_table()),
        r.curves_list@ == join_colon(curve_table()),
        r.alpn@ == alpn_wire(advertised_protocols(negotiate_http2)),
        r.cert_compression@ == seq![CertCompression::Zlib],
        r.min_version == TlsVersion::Tls1,
        r.max_version is None,
        r.load_default_trust_roots && r.no_session_ticket && r.grease,
        r.ocsp_stapling && r.signed_cert_timestamps,
{
    let builder = TlsBuilder { params: tls_parameters() };
    builder.build(negotiate_http2)
}

/// The profile's header template, in order.
pub fn header_template() -> (r: Vec<TemplateEntry>)
    ensures
        template_view(r@) == header_table(),
        valid_template(header_table()),
{
    let r: Vec<TemplateEntry> = vec![
        ("accept", "text/html,application/xhtml+xml,application/xml;q=0.9,*/*;q=0.8"),
        ("sec-fetch-site", "same-origin"),
        ("sec-fetch-dest", "document"),
        ("accept-language", "de-DE,de;q=0.9,en-US;q=0.8,en;q=0.7"),
        ("sec-fetch-mode", "navigate"),
        ("user-agent", "Mozilla/5.0 (Macintosh; Intel Mac OS X 10_15_7) AppleWebKit/605.1.15 (KHTML, like Gecko) Version/16.0 Safari/605.1.15"),
        ("accept-encoding", "gzip, deflate, br"),
    ];
    assert(template_view(r@) =~= header_table());
    proof {
        lemma_header_table_valid();
    }
    r
}

/// Each name and value of the header table is accepted by the header map,
/// and no name is repeated.
proof fn lemma_header_table_valid()
    ensures
        valid_template(header_table()),
{
    reveal_strlit("accept");
    reveal_strlit("text/html,application/xhtml+xml,application/xml;q=0.9,*/*;q=0.8");
    reveal_strlit("sec-fetch-site");
    reveal_strlit("same-origin");
    reveal_strlit("sec-fetch-dest");
    reveal_strlit("document");
    reveal_strlit("accept-language");
    reveal_strlit("de-DE,de;q=0.9,en-US;q=0.8,en;q=0.7");
    reveal_strlit("sec-fetch-mode");
    reveal_strlit("navigate");
    reveal_strlit("user-agent");
    reveal_strlit("Mozilla/5.0 (Macintosh; Intel Mac OS X 10_15_7) AppleWebKit/605.1.15 (KHTML, like Gecko) Version/16.0 Safari/605.1.15");
    reveal_strlit("accept-encoding");
    reveal_strlit("gzip, deflate, br");
    let t = header_table();
    assert forall|i: int, j: int| 0 <= i < t.len() && 0 <= j < t.len() && i != j implies t[i].0
        != t[j].0 by {
        assert(t[i].0.len() != t[j].0.len() || t[i].0[0] != t[j].0[0] || t[i].0[10] != t[j].0[10]);
    }
}

/// A caller's map that the template can be merged into: its names and
/// contents agree, and the merged map stays within the map's room.
pub open spec fn merge_fits(headers: HeaderMap<HeaderValue>) -> bool {
    &&& consistent(header_contents(headers), header_names(headers))
    &&& merged_names(header_names(headers), header_table()).len() < MAX_HEADER_NAMES
}

/// Whether the caller's map has room for every template name, new or not;
/// when it does, the template can be merged into it.
pub fn fits_template(headers: &HeaderMap<HeaderValue>) -> (r: bool)
    ensures
        r == (header_names(*headers).len() + 7 < MAX_HEADER_NAMES),
        r ==> merge_fits(*headers),
{
    let r = has_room(headers, 7);
    proof {
        lemma_merged_len_bound(header_names(*headers), header_table());
    }
    r
}

/// The caller's headers with the profile's template set over them.
pub fn create_headers(headers: HeaderMap<HeaderValue>) -> (r: HeaderMap<HeaderValue>)
    requires
        merge_fits(headers),
    ensures
        header_contents(r) == overlay(header_contents(headers), header_table()),
        header_names(r) == merged_names(header_names(headers), header_table()),
        consistent(header_contents(r), header_names(r)),
{
    let template = header_template();
    apply_template(headers, &template)
}

/// The profile's HTTP/2 settings.
pub fn http2_settings() -> (r: Http2Settings)
    ensures
        r == safari_http2(),
{
    Http2Settings {
        initial_stream_window_size: Some(4194304),
        initial_connection_window_size: Some(10551295),
        max_concurrent_streams: Some(100),
        max_header_list_size: None,
        header_table_size: None,
        enable_push: Some(false),
    }
}

/// What a bundle built over caller headers with contents `m` and names `ns`
/// holds.
pub open spec fn is_safari_profile(
    p: ImpersonationProfile,
    m: Map<Seq<char>, Seq<Seq<u8>>>,
    ns: Seq<Seq<char>>,
) -> bool {
    &&& is_safari_params(p.tls_builder.params)
    &&& p.http2 == safari_http2()
    &&& header_contents(p.headers) == overlay(m, header_table())
    &&& header_names(p.headers) == merged_names(ns, header_table())
    &&& p.gzip
    &&& p.brotli
}

/// Assembles the profile over the caller's headers.
pub fn get_settings(headers: HeaderMap<HeaderValue>) -> (r: ImpersonationProfile)
    requires
        merge_fits(headers),
    ensures
        is_safari_profile(r, header_contents(headers), header_names(headers)),
{
    ImpersonationProfile {
        tls_builder: TlsBuilder { params: tls_parameters() },
        http2: http2_settings(),
        headers: create_headers(headers),
        gzip: true,
        brotli: true,
    }
}

/// Whatever User-Agent the caller gave, the bundle's headers carry the
/// profile's literal one; a header whose name the template does not hold
/// passes through unchanged.
pub proof fn lemma_user_agent_overwritten(m: Map<Seq<char>, Seq<Seq<u8>>>, other: Seq<char>)
    requires
        forall|k: int| 0 <= k < header_table().len() ==> (#[trigger] header_table()[k]).0 != other,
    ensures
        overlay(m, header_table())["user-agent"@] == seq![
            ascii_bytes(
                "Mozilla/5.0 (Macintosh; Intel Mac OS X 10_15_7) AppleWebKit/605.1.15 (KHTML, like Gecko) Version/16.0 Safari/605.1.15"@,
            ),
        ],
        overlay(m, header_table()).contains_key(other) == m.contains_key(other),
        m.contains_key(other) ==> overlay(m, header_table())[other] == m[other],
{
    lemma_header_table_valid();
    lemma_template_wins(m, header_table(), 5);
    lemma_caller_header_kept(m, header_table(), other);
}

/// Two bundles built over the same caller headers agree field for field: the
/// three parameter lists, the settings record, the headers with their order
/// and the encodings,
/// and so the configuration each builds for a connection attempt.
pub proof fn lemma_construction_deterministic(
    p1: ImpersonationProfile,
    p2: ImpersonationProfile,
    m: Map<Seq<char>, Seq<Seq<u8>>>,
    ns: Seq<Seq<char>>,
    negotiate_http2: bool,
    c1: TlsContextConfig,
    c2: TlsContextConfig,
)
    requires
        is_safari_profile(p1, m, ns),
        is_safari_profile(p2, m, ns),
        crate::tls::config_of(c1, p1.tls_builder.params, negotiate_http2),
        crate::tls::config_of(c2, p2.tls_builder.params, negotiate_http2),
    ensures
        names(p1.tls_builder.params.ciphers@) == names(p2.tls_builder.params.ciphers@),
        names(p1.tls_builder.params.sigalgs@) == names(p2.tls_builder.params.sigalgs@),
        names(p1.tls_builder.params.curves@) == names(p2.tls_builder.params.curves@),
        p1.http2 == p2.http2,
        header_contents(p1.headers) == header_contents(p2.headers),
        header_names(p1.headers) == header_names(p2.headers),
        p1.gzip == p2.gzip && p1.brotli == p2.brotli,
        c1.cipher_list@ == c2.cipher_list@,
        c1.sigalgs_list@ == c2.sigalgs_list@,
        c1.curves_list@ == c2.curves_list@,
        c1.alpn@ == c2.alpn@,
        crate::tls::steps_of(c1) == crate::tls::steps_of(c2),
{
}

/// The cipher, signature-algorithm and curve lists handed to the TLS engine
/// read back, at their ':' separators, as the profile's tables in their
/// declared order.
pub proof fn lemma_profile_lists_in_order()
    ensures
        split_colon(join_colon(cipher_table())) == cipher_table(),
        split_colon(join_colon(sigalg_table())) == sigalg_table(),
        split_colon(join_colon(curve_table())) == curve_table(),
{
    reveal_strlit("TLS_AES_128_GCM_SHA256");
    reveal_strlit("TLS_AES_256_GCM_SHA384");
    reveal_strlit("TLS_CHACHA20_POLY1305_SHA256");
    reveal_strlit("TLS_ECDHE_ECDSA_WITH_AES_256_GCM_SHA384");
    reveal_strlit("TLS_ECDHE_ECDSA_WITH_AES_128_GCM_SHA256");
    reveal_strlit("TLS_ECDHE_ECDSA_WITH_CHACHA20_POLY1305_SHA256");
    reveal_strlit("TLS_ECDHE_RSA_WITH_AES_256_GCM_SHA384");
    reveal_strlit("TLS_ECDHE_RSA_WITH_AES_128_GCM_SHA256");
    reveal_strlit("TLS_ECDHE_RSA_WITH_CHACHA20_POLY1305_SHA256");
    reveal_strlit("TLS_ECDHE_ECDSA_WITH_AES_256_CBC_SHA");
    reveal_strlit("TLS_ECDHE_ECDSA_WITH_AES_128_CBC_SHA");
    reveal_strlit("TLS_ECDHE_RSA_WITH_AES_256_CBC_SHA");
    reveal_strlit("TLS_ECDHE_RSA_WITH_AES_128_CBC_SHA");
    reveal_strlit("TLS_RSA_WITH_AES_256_GCM_SHA384");
    reveal_strlit("TLS_RSA_WITH_AES_128_GCM_SHA256");
    reveal_strlit("TLS_RSA_WITH_AES_256_CBC_SHA");
    reveal_strlit("TLS_RSA_WITH_AES_128_CBC_SHA");
    reveal_strlit("TLS_ECDHE_ECDSA_WITH_3DES_EDE_CBC_SHA");
    reveal_strlit("TLS_ECDHE_RSA_WITH_3DES_EDE_CBC_SHA");
    reveal_strlit("TLS_RSA_WITH_3DES_EDE_CBC_SHA");
    reveal_strlit("ecdsa_secp256r1_sha256");
    reveal_strlit("rsa_pss_rsae_sha256");
    reveal_strlit("rsa_pkcs1_sha256");
    reveal_strlit("ecdsa_secp384r1_sha384");
    reveal_strlit("ecdsa_sha1");
    reveal_strlit("rsa_pss_rsae_sha384");
    reveal_strlit("rsa_pkcs1_sha384");
    reveal_strlit("rsa_pss_rsae_sha512");
    reveal_strlit("rsa_pkcs1_sha512");
    reveal_strlit("rsa_pkcs1_sha1");
    reveal_strlit("X25519");
    reveal_strlit("P-256");
    reveal_strlit("P-384");
    reveal_strlit("P-521");
    let c = cipher_table();
    let g = sigalg_table();
    let v = curve_table();
    assert forall|i: int| 0 <= i < c.len() implies no_colon(#[trigger] c[i]) by {}
    assert forall|i: int| 0 <= i < g.len() implies no_colon(#[trigger] g[i]) by {}
    assert forall|i: int| 0 <= i < v.len() implies no_colon(#[trigger] v[i]) by {}
    lemma_join_keeps_order(c);
    lemma_join_keeps_order(g);
    lemma_join_keeps_order(v);
}

/// Over a caller map with none of the template's names (an empty one among
/// them), the merged names are the caller's followed by the seven template
/// names in the profile's order.
pub proof fn lemma_template_order(ns: Seq<Seq<char>>)
    requires
        forall|k: int| 0 <= k < header_table().len() ==> !ns.contains(#[trigger] header_table()[k].0),
    ensures
        merged_names(ns, header_table()) == ns + seq![
            "accept"@,
            "sec-fetch-site"@,
            "sec-fetch-dest"@,
            "accept-language"@,
            "sec-fetch-mode"@,
            "user-agent"@,
            "accept-encoding"@,
        ],
{
    lemma_header_table_valid();
    lemma_merged_appends(ns, header_table());
    assert(template_names(header_table()) =~= seq![
        "accept"@,
        "sec-fetch-site"@,
        "sec-fetch-dest"@,
        "accept-language"@,
        "sec-fetch-mode"@,
        "user-agent"@,
        "accept-encoding"@,
    ]);
}

} // verus!
