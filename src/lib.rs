//! Browser impersonation profiles: the exact TLS handshake parameters, HTTP/2
//! settings and default headers of a browser, and the rules that apply them.
use vstd::prelude::*;

pub mod alpn;
pub mod headers;
pub mod http2;
pub mod profile;
pub mod safari17_2_1;
pub mod tls;

verus! {

} // verus!
