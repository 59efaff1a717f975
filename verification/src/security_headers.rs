//! The defense-in-depth headers added to every response.

use vstd::prelude::*;
use crate::text::string_from_str;

verus! {

/// The Content-Security-Policy: same origin by default; scripts also from
/// the two CDNs; styles also inline and from Google Fonts; fonts from Google
/// Fonts; images also as data, blob and any HTTPS URL; connections also to
/// the cloud API, Workers and quick tunnels.
pub open spec fn content_security_policy() -> Seq<char> {
    "default-src 'self'; script-src 'self' https://cdnjs.cloudflare.com https://cdn.jsdelivr.net; style-src 'self' 'unsafe-inline' https://fonts.googleapis.com; font-src https://fonts.gstatic.com; img-src 'self' data: blob: https:; connect-src 'self' https://cloud.inknironapps.com https://*.workers.dev https://*.trycloudflare.com"@
}

/// The header names, in the order they are set.
pub open spec fn security_header_names() -> Seq<Seq<char>> {
    seq![
        "x-content-type-options"@,
        "x-frame-options"@,
        "x-xss-protection"@,
        "referrer-policy"@,
        "permissions-policy"@,
        "content-security-policy"@,
    ]
}

/// The header values, in the same order.
pub open spec fn security_header_values() -> Seq<Seq<char>> {
    seq![
        "nosniff"@,
        "DENY"@,
        "0"@,
        "strict-origin-when-cross-origin"@,
        "camera=(), microphone=(), geolocation=()"@,
        content_security_policy(),
    ]
}

/// The security headers set on every response, as (name, value) pairs: no
/// MIME sniffing, no framing, the XSS auditor off, a strict referrer policy,
/// no camera, microphone or location, and the content security policy.
pub fn security_headers() -> (out: Vec<(String, String)>)
    ensures
        out@.len() == 6,
        forall|i: int|
            0 <= i < 6 ==> (#[trigger] out@[i]).0@ == security_header_names()[i] && out@[i].1@
                == security_header_values()[i],
{
    let mut out: Vec<(String, String)> = Vec::new();
    out.push((string_from_str("x-content-type-options"), string_from_str("nosniff")));
    out.push((string_from_str("x-frame-options"), string_from_str("DENY")));
    out.push((string_from_str("x-xss-protection"), string_from_str("0")));
    out.push((string_from_str("referrer-policy"), string_from_str("strict-origin-when-cross-origin")));
    out.push(
        (string_from_str("permissions-policy"), string_from_str("camera=(), microphone=(), geolocation=()")),
    );
    out.push(
        (
            string_from_str("content-security-policy"),
            string_from_str(
                "default-src 'self'; script-src 'self' https://cdnjs.cloudflare.com https://cdn.jsdelivr.net; style-src 'self' 'unsafe-inline' https://fonts.googleapis.com; font-src https://fonts.gstatic.com; img-src 'self' data: blob: https:; connect-src 'self' https://cloud.inknironapps.com https://*.workers.dev https://*.trycloudflare.com",
            ),
        ),
    );
    out
}

} // verus!
