//! Header hygiene for the forwarded request and the returned response.
//!
//! A proxy must not blindly forward headers that are meaningful only for
//! one transport leg.  The functions here drop those hop-by-hop headers
//! (plus the transport-managed `host` and `content-length` on the outbound
//! side) and set the gateway authorization header from the selected
//! credential, overriding anything the client sent under that name.

use vstd::prelude::*;
use vstd::string::*;
use vstd::utf8::encode_utf8;

verus! {

/// One HTTP header: a (case-insensitive) name and an opaque byte value.
pub struct HeaderEntry {
    pub name: String,
    pub value: Vec<u8>,
}

/// The code of `c` with an ASCII upper-case letter folded to lower case.
pub open spec fn lower_code(c: char) -> u32 {
    if 65 <= c as u32 && c as u32 <= 90 {
        (c as u32 + 32) as u32
    } else {
        c as u32
    }
}

/// ASCII-case-insensitive equality of two header names.
pub open spec fn name_matches(a: Seq<char>, b: Seq<char>) -> bool {
    a.len() == b.len() && forall|i: int| 0 <= i < a.len() ==> lower_code(a[i]) == lower_code(b[i])
}

/// Decide [`name_matches`] character by character.
pub fn name_eq_ci(a: &str, b: &str) -> (r: bool)
    ensures
        r == name_matches(a@, b@),
{
    let a_len = a.unicode_len();
    let b_len = b.unicode_len();
    if a_len != b_len {
        return false;
    }
    let mut i: usize = 0;
    while i < a_len
        invariant
            a_len == a@.len(),
            b_len == b@.len(),
            a_len == b_len,
            i <= a_len,
            forall|j: int| 0 <= j < i ==> lower_code(a@[j]) == lower_code(b@[j]),
        decreases a_len - i,
    {
        let ca = a.get_char(i) as u32;
        let cb = b.get_char(i) as u32;
        let la = if 65 <= ca && ca <= 90 {
            ca + 32
        } else {
            ca
        };
        let lb = if 65 <= cb && cb <= 90 {
            cb + 32
        } else {
            cb
        };
        if la != lb {
            return false;
        }
        i = i + 1;
    }
    true
}

/// Headers never forwarded upstream: the hop-by-hop set plus `host` and
/// `content-length`, which the transport sets itself.
pub open spec fn is_request_dropped_header(n: Seq<char>) -> bool {
    ||| name_matches(n, "host"@)
    ||| name_matches(n, "content-length"@)
    ||| name_matches(n, "connection"@)
    ||| name_matches(n, "keep-alive"@)
    ||| name_matches(n, "proxy-authenticate"@)
    ||| name_matches(n, "proxy-authorization"@)
    ||| name_matches(n, "te"@)
    ||| name_matches(n, "trailers"@)
    ||| name_matches(n, "transfer-encoding"@)
    ||| name_matches(n, "upgrade"@)
}

/// Hop-by-hop headers never returned to the client.
pub open spec fn is_response_dropped_header(n: Seq<char>) -> bool {
    ||| name_matches(n, "connection"@)
    ||| name_matches(n, "keep-alive"@)
    ||| name_matches(n, "proxy-authenticate"@)
    ||| name_matches(n, "proxy-authorization"@)
    ||| name_matches(n, "te"@)
    ||| name_matches(n, "trailers"@)
    ||| name_matches(n, "transfer-encoding"@)
    ||| name_matches(n, "upgrade"@)
}

fn is_request_dropped(name: &str) -> (r: bool)
    ensures
        r == is_request_dropped_header(name@),
{
    name_eq_ci(name, "host") || name_eq_ci(name, "content-length") || name_eq_ci(
        name,
        "connection",
    ) || name_eq_ci(name, "keep-alive") || name_eq_ci(name, "proxy-authenticate") || name_eq_ci(
        name,
        "proxy-authorization",
    ) || name_eq_ci(name, "te") || name_eq_ci(name, "trailers") || name_eq_ci(
        name,
        "transfer-encoding",
    ) || name_eq_ci(name, "upgrade")
}

fn is_response_dropped(name: &str) -> (r: bool)
    ensures
        r == is_response_dropped_header(name@),
{
    name_eq_ci(name, "connection") || name_eq_ci(name, "keep-alive") || name_eq_ci(
        name,
        "proxy-authenticate",
    ) || name_eq_ci(name, "proxy-authorization") || name_eq_ci(name, "te") || name_eq_ci(
        name,
        "trailers",
    ) || name_eq_ci(name, "transfer-encoding") || name_eq_ci(name, "upgrade")
}

/// The header carrying the gateway bearer token upstream.
pub open spec fn gateway_auth_name() -> Seq<char> {
    "cf-aig-authorization"@
}

/// A client request header survives filtering when it is neither dropped
/// as hop-by-hop nor the gateway authorization header, which the proxy
/// always sets itself.
pub open spec fn request_header_kept(h: HeaderEntry) -> bool {
    !is_request_dropped_header(h.name@) && !name_matches(h.name@, gateway_auth_name())
}

/// The request headers that survive filtering, in their original order.
pub open spec fn spec_request_filtered(hs: Seq<HeaderEntry>) -> Seq<HeaderEntry>
    decreases hs.len(),
{
    if hs.len() == 0 {
        Seq::empty()
    } else {
        let rest = spec_request_filtered(hs.skip(1));
        if request_header_kept(hs[0]) {
            seq![hs[0]] + rest
        } else {
            rest
        }
    }
}

/// The response headers that survive filtering, in their original order.
pub open spec fn spec_response_filtered(hs: Seq<HeaderEntry>) -> Seq<HeaderEntry>
    decreases hs.len(),
{
    if hs.len() == 0 {
        Seq::empty()
    } else {
        let rest = spec_response_filtered(hs.skip(1));
        if !is_response_dropped_header(hs[0].name@) {
            seq![hs[0]] + rest
        } else {
            rest
        }
    }
}

/// Every entry of a filtered request header list was kept by the filter
/// predicate; in particular none is hop-by-hop.
pub proof fn lemma_request_filtered_kept(hs: Seq<HeaderEntry>)
    ensures
        forall|i: int|
            0 <= i < spec_request_filtered(hs).len() ==> request_header_kept(
                #[trigger] spec_request_filtered(hs)[i],
            ),
    decreases hs.len(),
{
    if hs.len() > 0 {
        lemma_request_filtered_kept(hs.skip(1));
        let rest = spec_request_filtered(hs.skip(1));
        if request_header_kept(hs[0]) {
            assert forall|i: int|
                0 <= i < spec_request_filtered(hs).len() implies request_header_kept(
                spec_request_filtered(hs)[i],
            ) by {
                if i == 0 {
                    assert(spec_request_filtered(hs)[0] == hs[0]);
                } else {
                    assert(spec_request_filtered(hs)[i] == rest[i - 1]);
                }
            }
        }
    }
}

/// Every entry of a filtered response header list survives the response
/// drop set; in particular none is hop-by-hop.
pub proof fn lemma_response_filtered_kept(hs: Seq<HeaderEntry>)
    ensures
        forall|i: int|
            0 <= i < spec_response_filtered(hs).len() ==> !is_response_dropped_header(
                (#[trigger] spec_response_filtered(hs)[i]).name@,
            ),
    decreases hs.len(),
{
    if hs.len() > 0 {
        lemma_response_filtered_kept(hs.skip(1));
        let rest = spec_response_filtered(hs.skip(1));
        if !is_response_dropped_header(hs[0].name@) {
            assert forall|i: int|
                0 <= i < spec_response_filtered(hs).len() implies !is_response_dropped_header(
                spec_response_filtered(hs)[i].name@,
            ) by {
                if i == 0 {
                    assert(spec_response_filtered(hs)[0] == hs[0]);
                } else {
                    assert(spec_response_filtered(hs)[i] == rest[i - 1]);
                }
            }
        }
    }
}

/// The upstream authorization value: `Bearer ` followed by the token.
pub open spec fn spec_bearer_value(token: Seq<char>) -> Seq<u8> {
    encode_utf8("Bearer "@ + token)
}

/// The header list with every `authorization` entry removed, in order.
pub open spec fn spec_auth_stripped(hs: Seq<HeaderEntry>) -> Seq<HeaderEntry>
    decreases hs.len(),
{
    if hs.len() == 0 {
        Seq::empty()
    } else {
        let rest = spec_auth_stripped(hs.skip(1));
        if !name_matches(hs[0].name@, "authorization"@) {
            seq![hs[0]] + rest
        } else {
            rest
        }
    }
}

/// Appending one header distributes over the request filter: the appended
/// entry survives exactly when the filter keeps it.
pub proof fn lemma_request_filtered_snoc(hs: Seq<HeaderEntry>, e: HeaderEntry)
    ensures
        spec_request_filtered(hs.push(e)) == spec_request_filtered(hs) + (if request_header_kept(e) {
            seq![e]
        } else {
            Seq::<HeaderEntry>::empty()
        }),
    decreases hs.len(),
{
    let tail = if request_header_kept(e) {
        seq![e]
    } else {
        Seq::<HeaderEntry>::empty()
    };
    if hs.len() == 0 {
        assert(hs.push(e)[0] == e);
        assert(hs.push(e).skip(1) =~= Seq::<HeaderEntry>::empty());
        assert(spec_request_filtered(Seq::<HeaderEntry>::empty()) == Seq::<HeaderEntry>::empty());
        assert(spec_request_filtered(hs) == Seq::<HeaderEntry>::empty());
        assert(spec_request_filtered(hs.push(e)) =~= spec_request_filtered(hs) + tail);
    } else {
        assert(hs.push(e)[0] == hs[0]);
        assert(hs.push(e).skip(1) =~= hs.skip(1).push(e));
        lemma_request_filtered_snoc(hs.skip(1), e);
        if request_header_kept(hs[0]) {
            assert(spec_request_filtered(hs.push(e)) == seq![hs[0]] + spec_request_filtered(
                hs.skip(1).push(e),
            ));
        } else {
            assert(spec_request_filtered(hs.push(e)) == spec_request_filtered(hs.skip(1).push(e)));
        }
        assert(spec_request_filtered(hs.push(e)) =~= spec_request_filtered(hs) + tail);
    }
}

/// Substitute the client's provider credential: remove every
/// `authorization` entry and append one carrying `Bearer <key>`.  Applied
/// only when the configuration supplies a rotated key for the request's
/// provider; otherwise the client's own credential passes through.
pub fn replace_authorization(headers: Vec<HeaderEntry>, key: &str) -> (r: Vec<HeaderEntry>)
    ensures
        r@.len() == spec_auth_stripped(headers@).len() + 1,
        r@.drop_last() == spec_auth_stripped(headers@),
        r@.last().name@ == "authorization"@,
        r@.last().value@ == spec_bearer_value(key@),
{
    let ghost orig = headers@;
    let mut rest = headers;
    let mut out: Vec<HeaderEntry> = Vec::new();
    while rest.len() > 0
        invariant
            spec_auth_stripped(orig) == out@ + spec_auth_stripped(rest@),
        decreases rest@.len(),
    {
        let h = rest.remove(0);
        if !name_eq_ci(h.name.as_str(), "authorization") {
            out.push(h);
        }
    }
    assert(out@ == spec_auth_stripped(orig));
    let mut bearer = String::from_str("Bearer ");
    bearer.append(key);
    out.push(
        HeaderEntry {
            name: String::from_str("authorization"),
            value: bearer.as_str().as_bytes_vec(),
        },
    );
    proof {
        assert(out@.drop_last() =~= spec_auth_stripped(orig));
    }
    out
}

/// Filter the inbound request headers for forwarding: drop the hop-by-hop
/// and transport-managed names, keep everything else in order, and append
/// the gateway authorization header with `Bearer <token>`, overriding any
/// client-supplied value for that name.
pub fn filter_request_headers(headers: Vec<HeaderEntry>, token: &str) -> (r: Vec<HeaderEntry>)
    ensures
        r@.len() == spec_request_filtered(headers@).len() + 1,
        r@.drop_last() == spec_request_filtered(headers@),
        r@.last().name@ == gateway_auth_name(),
        r@.last().value@ == spec_bearer_value(token@),
        forall|i: int| 0 <= i < r@.len() ==> !is_request_dropped_header((#[trigger] r@[i]).name@),
{
    let ghost orig = headers@;
    let mut rest = headers;
    let mut out: Vec<HeaderEntry> = Vec::new();
    while rest.len() > 0
        invariant
            spec_request_filtered(orig) == out@ + spec_request_filtered(rest@),
            forall|i: int| 0 <= i < out@.len() ==> request_header_kept(#[trigger] out@[i]),
        decreases rest@.len(),
    {
        let h = rest.remove(0);
        if !is_request_dropped(h.name.as_str()) && !name_eq_ci(
            h.name.as_str(),
            "cf-aig-authorization",
        ) {
            out.push(h);
        }
    }
    assert(out@ == spec_request_filtered(orig));
    let mut bearer = String::from_str("Bearer ");
    bearer.append(token);
    let auth = HeaderEntry {
        name: String::from_str("cf-aig-authorization"),
        value: bearer.as_str().as_bytes_vec(),
    };
    proof {
        reveal_strlit("cf-aig-authorization");
        reveal_strlit("host");
        reveal_strlit("content-length");
        reveal_strlit("connection");
        reveal_strlit("keep-alive");
        reveal_strlit("proxy-authenticate");
        reveal_strlit("proxy-authorization");
        reveal_strlit("te");
        reveal_strlit("trailers");
        reveal_strlit("transfer-encoding");
        reveal_strlit("upgrade");
        assert(!is_request_dropped_header("cf-aig-authorization"@));
    }
    out.push(auth);
    proof {
        assert(out@.drop_last() =~= spec_request_filtered(orig));
        lemma_request_filtered_kept(orig);
    }
    out
}

/// Filter the upstream response headers before returning them to the
/// client: drop the hop-by-hop names, keep everything else in order.
pub fn filter_response_headers(headers: Vec<HeaderEntry>) -> (r: Vec<HeaderEntry>)
    ensures
        r@ == spec_response_filtered(headers@),
        forall|i: int| 0 <= i < r@.len() ==> !is_response_dropped_header((#[trigger] r@[i]).name@),
{
    let ghost orig = headers@;
    let mut rest = headers;
    let mut out: Vec<HeaderEntry> = Vec::new();
    while rest.len() > 0
        invariant
            spec_response_filtered(orig) == out@ + spec_response_filtered(rest@),
        decreases rest@.len(),
    {
        let h = rest.remove(0);
        if !is_response_dropped(h.name.as_str()) {
            out.push(h);
        }
    }
    assert(out@ == spec_response_filtered(orig));
    proof {
        lemma_response_filtered_kept(orig);
    }
    out
}

/// The fixed response headers of a synthesized event stream: the
/// event-stream media type, caching disabled, and the connection kept
/// alive.
pub fn sse_response_headers() -> (r: Vec<HeaderEntry>)
    ensures
        r@.len() == 3,
        r@[0].name@ == "content-type"@ && r@[0].value@ == encode_utf8("text/event-stream"@),
        r@[1].name@ == "cache-control"@ && r@[1].value@ == encode_utf8("no-cache"@),
        r@[2].name@ == "connection"@ && r@[2].value@ == encode_utf8("keep-alive"@),
{
    let mut out: Vec<HeaderEntry> = Vec::new();
    out.push(
        HeaderEntry {
            name: String::from_str("content-type"),
            value: "text/event-stream".as_bytes_vec(),
        },
    );
    out.push(
        HeaderEntry { name: String::from_str("cache-control"), value: "no-cache".as_bytes_vec() },
    );
    out.push(
        HeaderEntry { name: String::from_str("connection"), value: "keep-alive".as_bytes_vec() },
    );
    out
}

} // verus!
