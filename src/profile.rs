use vstd::prelude::*;

use http::header::HeaderValue;
use http::HeaderMap;

use crate::http2::Http2Settings;
use crate::tls::{build_tls_config, config_of, TlsContextConfig, TlsParameterSet};

verus! {

/// The builder that a profile holds: the handshake parameters it captured,
/// turned into a context configuration once per connection attempt.
pub struct TlsBuilder {
    pub params: TlsParameterSet,
}

impl TlsBuilder {
    /// The configuration for one connection attempt.
    pub fn build(&self, negotiate_http2: bool) -> (r: TlsContextConfig)
        ensures
            config_of(r, self.params, negotiate_http2),
    {
        build_tls_config(&self.params, negotiate_http2)
    }
}

/// A complete impersonation bundle: the TLS builder, the HTTP/2 settings, the
/// finished default headers and the content encodings offered.
pub struct ImpersonationProfile {
    pub tls_builder: TlsBuilder,
    pub http2: Http2Settings,
    pub headers: HeaderMap<HeaderValue>,
    pub gzip: bool,
    pub brotli: bool,
}

} // verus!
