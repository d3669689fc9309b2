//! The request forwarder: translating one inbound proxy request into one
//! outbound upstream request, and the buffered upstream answer back into
//! the client's response.
//!
//! The transport itself (reading the inbound body, the upstream call) is
//! the caller's business; this module owns every decision around it: the
//! rotation step, the URL with its rewritten path, the header hygiene,
//! the provider-key substitution, the streaming-flag rewrite, and the
//! choice between verbatim pass-through and stream synthesis.

use crate::config::Config;
use crate::config::rotation_index;
use crate::config::spec_api_key_of;
use crate::config::spec_base_url;
use crate::config::spec_providers_after;
use crate::config::wrap_inc;
use crate::headers::HeaderEntry;
use crate::headers::filter_request_headers;
use crate::headers::filter_response_headers;
use crate::headers::gateway_auth_name;
use crate::headers::is_request_dropped_header;
use crate::headers::lemma_request_filtered_snoc;
use crate::headers::replace_authorization;
use crate::headers::request_header_kept;
use crate::headers::spec_auth_stripped;
use crate::headers::spec_bearer_value;
use crate::headers::spec_request_filtered;
use crate::headers::spec_response_filtered;
use crate::headers::sse_response_headers;
use crate::json::json_disable_stream;
use crate::json::json_parses;
use crate::json::json_stream_flag;
use crate::json::stream_disabled_of;
use crate::json::stream_flag_of;
use crate::sse::classify_upstream;
use crate::sse::lemma_stream_terminated;
use crate::sse::plan_view_of;
use crate::sse::spec_frames;
use crate::sse::sse_done;
use crate::sse::synthesize_frames;
use vstd::prelude::*;
use vstd::string::*;
use vstd::utf8::encode_utf8;

verus! {

/// The errors a forwarded request can surface to the client.
#[derive(Debug)]
pub enum ProxyError {
    /// The inbound request could not be handled; surfaced as 400.
    BadRequest(String),
    /// The upstream could not be reached or read; surfaced as 502.
    BadGateway(String),
}

impl ProxyError {
    /// The HTTP status code this error is surfaced as.
    pub fn status_code(&self) -> (r: u16)
        ensures
            r == match *self {
                ProxyError::BadRequest(_) => 400u16,
                ProxyError::BadGateway(_) => 502u16,
            },
    {
        match self {
            ProxyError::BadRequest(_) => 400,
            ProxyError::BadGateway(_) => 502,
        }
    }

    /// The diagnostic message the error carries.
    pub fn message(self) -> (r: String)
        ensures
            r == match self {
                ProxyError::BadRequest(m) => m,
                ProxyError::BadGateway(m) => m,
            },
    {
        match self {
            ProxyError::BadRequest(m) => m,
            ProxyError::BadGateway(m) => m,
        }
    }
}

/// The outcome of the streaming-flag rewrite on an inbound body.
pub struct PreparedBody {
    pub body: Vec<u8>,
    pub wants_stream: bool,
}

/// Rewrite the streaming flag.  Exactly when the body is a JSON document
/// whose `stream` field is boolean `true`, the upstream is called with the
/// re-serialized document whose `stream` is `false` — so the forwarded
/// bytes never carry a raised flag — and the caller's wish for a stream is
/// recorded; any other body, malformed JSON included, is forwarded
/// unchanged with the flag off.  Never an error: re-serializing a parsed
/// document cannot fail.
pub fn prepare_body(body: Vec<u8>) -> (r: Result<PreparedBody, ProxyError>)
    ensures
        r is Ok,
        r matches Ok(p) ==> {
            &&& p.wants_stream == (json_parses(body@) && stream_flag_of(body@))
            &&& (!p.wants_stream ==> p.body == body)
            &&& (p.wants_stream ==> p.body@ == stream_disabled_of(body@) && json_parses(p.body@)
                && !stream_flag_of(p.body@))
        },
{
    if json_stream_flag(&body) {
        match json_disable_stream(&body) {
            Some(bytes) => Ok(PreparedBody { body: bytes, wants_stream: true }),
            // Unreachable: a raised flag means the body parses, and a
            // parsed document always re-serializes.
            None => Err(
                ProxyError::BadRequest(String::from_str("Failed to serialize modified body")),
            ),
        }
    } else {
        Ok(PreparedBody { body, wants_stream: false })
    }
}

/// A path with a leading `/v1` segment stripped, as it is appended to the
/// upstream compatibility suffix.
pub open spec fn strip_version_prefix(path: Seq<char>) -> Seq<char> {
    if path == "/v1"@ {
        Seq::empty()
    } else if path.len() >= 4 && path.take(4) == "/v1/"@ {
        path.skip(3)
    } else {
        path
    }
}

/// Strip a leading `/v1` version segment from the inbound path.
pub fn rewrite_path(path: &str) -> (r: String)
    ensures
        r@ == strip_version_prefix(path@),
{
    proof {
        reveal_strlit("/v1");
        reveal_strlit("/v1/");
    }
    let len = path.unicode_len();
    if len == 3 && path.get_char(0) == '/' && path.get_char(1) == 'v' && path.get_char(2) == '1' {
        proof {
            assert(path@ =~= "/v1"@);
        }
        String::new()
    } else if len >= 4 && path.get_char(0) == '/' && path.get_char(1) == 'v' && path.get_char(2)
        == '1' && path.get_char(3) == '/' {
        proof {
            assert(path@ != "/v1"@);
            assert(path@.take(4) =~= "/v1/"@);
        }
        String::from_str(path.substring_char(3, len))
    } else {
        proof {
            if path@ == "/v1"@ {
                assert(path@[0] == '/' && path@[1] == 'v' && path@[2] == '1');
            }
            if path@.len() >= 4 && path@.take(4) == "/v1/"@ {
                assert(path@[0] == "/v1/"@[0] && path@[1] == "/v1/"@[1] && path@[2] == "/v1/"@[2]
                    && path@[3] == "/v1/"@[3]);
            }
        }
        String::from_str(path)
    }
}

/// Everything the transport needs to forward one request upstream.
pub struct ForwardPlan {
    pub url: String,
    pub headers: Vec<HeaderEntry>,
    pub body: Vec<u8>,
    pub wants_stream: bool,
}

/// Translate one inbound request into its outbound form: select the next
/// gateway — exactly one rotation step —, compose the upstream URL from
/// its base, the fixed compatibility suffix and the inbound path minus any
/// version prefix, filter the headers and set the gateway bearer token
/// from the selected credential, substitute the rotated key of `provider`
/// for the client's `authorization` header when the configuration
/// supplies one (the client's own credential is the fallback), and
/// rewrite the streaming flag in the body.
pub fn plan_forward(
    config: &mut Config,
    path: &str,
    provider: Option<&str>,
    headers: Vec<HeaderEntry>,
    body: Vec<u8>,
) -> (r: Result<ForwardPlan, ProxyError>)
    requires
        old(config).wf(),
    ensures
        r is Ok,
        final(config).wf(),
        final(config).gateway_counter == wrap_inc(old(config).gateway_counter),
        final(config).gateways == old(config).gateways,
        final(config).providers@ == (match provider {
            Some(name) => spec_providers_after(old(config).providers@, name@),
            None => old(config).providers@,
        }),
        final(config).openai_compat_path == old(config).openai_compat_path,
        final(config).http_port == old(config).http_port,
        final(config).https_port == old(config).https_port,
        final(config).https_server == old(config).https_server,
        final(config).tls_cert_path == old(config).tls_cert_path,
        final(config).tls_key_path == old(config).tls_key_path,
        ({
            let g = old(config).gateways@[rotation_index(
                old(config).gateway_counter,
                old(config).gateways@.len() as int,
            )];
            let key = (match provider {
                Some(name) => spec_api_key_of(old(config).providers@, name@),
                None => None,
            });
            match r {
                Ok(plan) => {
                    &&& plan.url@ == spec_base_url(g.account_id@, g.gateway_id@) + old(
                        config,
                    ).openai_compat_path@ + strip_version_prefix(path@)
                    &&& plan.headers@.len() >= 1
                    &&& plan.headers@.last().name@ == gateway_auth_name()
                    &&& plan.headers@.last().value@ == spec_bearer_value(g.token@)
                    &&& (match key {
                        None => {
                            &&& plan.headers@.len() == spec_request_filtered(headers@).len() + 1
                            &&& plan.headers@.drop_last() == spec_request_filtered(headers@)
                        },
                        Some(k) => {
                            let kept = spec_request_filtered(spec_auth_stripped(headers@));
                            &&& plan.headers@.len() == kept.len() + 2
                            &&& plan.headers@.take(kept.len() as int) == kept
                            &&& plan.headers@[kept.len() as int].name@ == "authorization"@
                            &&& plan.headers@[kept.len() as int].value@ == spec_bearer_value(k)
                        },
                    })
                    &&& forall|i: int|
                        0 <= i < plan.headers@.len() ==> !is_request_dropped_header(
                            (#[trigger] plan.headers@[i]).name@,
                        )
                    &&& plan.wants_stream == (json_parses(body@) && stream_flag_of(body@))
                    &&& (!plan.wants_stream ==> plan.body == body)
                    &&& (plan.wants_stream ==> plan.body@ == stream_disabled_of(body@)
                        && !stream_flag_of(plan.body@))
                },
                Err(e) => e matches ProxyError::BadRequest(_),
            }
        }),
{
    let mut url = config.next_target_url();
    url.append(rewrite_path(path).as_str());
    let token = config.current_gateway_token();
    let key = match provider {
        Some(name) => config.next_api_key(name),
        None => None,
    };
    let routed = match &key {
        Some(k) => {
            let replaced = replace_authorization(headers, k.as_str());
            proof {
                reveal_strlit("authorization");
                reveal_strlit("cf-aig-authorization");
                reveal_strlit("host");
                reveal_strlit("content-length");
                reveal_strlit("connection");
                reveal_strlit("keep-alive");
                reveal_strlit("proxy-authenticate");
                reveal_strlit("proxy-authorization");
                reveal_strlit("te");
                reveal_strlit("trailers");
                reveal_strlit("transfer-encoding");
                reveal_strlit("upgrade");
                assert(request_header_kept(replaced@.last()));
                assert(replaced@ =~= spec_auth_stripped(headers@).push(replaced@.last()));
                lemma_request_filtered_snoc(spec_auth_stripped(headers@), replaced@.last());
            }
            replaced
        },
        None => headers,
    };
    let filtered = filter_request_headers(routed, token.as_str());
    proof {
        if key is Some {
            let kept = spec_request_filtered(spec_auth_stripped(headers@));
            let m = kept.len() as int;
            assert(filtered@.take(m) =~= kept);
            assert(spec_request_filtered(routed@) == kept + seq![routed@.last()]);
            assert(filtered@[m] == filtered@.drop_last()[m]);
            assert(filtered@[m] == routed@.last());
        }
    }
    let prepared = match prepare_body(body) {
        Ok(p) => p,
        Err(e) => {
            return Err(e);
        },
    };
    Ok(
        ForwardPlan {
            url,
            headers: filtered,
            body: prepared.body,
            wants_stream: prepared.wants_stream,
        },
    )
}

/// The response handed back to the client.
pub enum ClientResponse {
    /// The upstream response passed through: its status, its headers with
    /// the hop-by-hop set removed, its body verbatim.
    Direct { status: u16, headers: Vec<HeaderEntry>, body: Vec<u8> },
    /// A synthesized event stream: the upstream status, the event-stream
    /// response headers, and the frames to emit in order.
    Stream { status: u16, headers: Vec<HeaderEntry>, frames: Vec<String> },
}

/// Turn the complete, buffered upstream response into what the client
/// receives.  When no stream was requested the body and status pass
/// through verbatim with hop-by-hop headers removed; otherwise the frames
/// are exactly the synthesis of the body's classification, which always
/// ends with the sentinel, whatever the upstream sent.
pub fn finish_response(
    status: u16,
    headers: Vec<HeaderEntry>,
    body: Vec<u8>,
    wants_stream: bool,
) -> (r: ClientResponse)
    ensures
        !wants_stream ==> (r matches ClientResponse::Direct { status: s, headers: h, body: b }
            && s == status && b == body && h@ == spec_response_filtered(headers@)),
        wants_stream ==> (r matches ClientResponse::Stream { status: s, headers: h, frames: f } && {
            &&& s == status
            &&& h@.len() == 3
            &&& h@[0].name@ == "content-type"@ && h@[0].value@ == encode_utf8(
                "text/event-stream"@,
            )
            &&& h@[1].name@ == "cache-control"@ && h@[1].value@ == encode_utf8("no-cache"@)
            &&& h@[2].name@ == "connection"@ && h@[2].value@ == encode_utf8("keep-alive"@)
            &&& f@.len() == spec_frames(plan_view_of(body@)).len()
            &&& forall|i: int|
                0 <= i < f@.len() ==> (#[trigger] f@[i])@ == spec_frames(plan_view_of(body@))[i]
            &&& f@.len() >= 1
            &&& f@[f@.len() - 1]@ == sse_done()
        }),
{
    if wants_stream {
        let plan = classify_upstream(&body);
        let frames = synthesize_frames(&plan);
        proof {
            lemma_stream_terminated(plan@);
        }
        ClientResponse::Stream { status, headers: sse_response_headers(), frames }
    } else {
        ClientResponse::Direct { status, headers: filter_response_headers(headers), body }
    }
}

} // verus!
