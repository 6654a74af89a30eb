//! Legacy SSE transport support: deriving the worker's base URL from the
//! configured SSE URL, resolving the announced POST endpoint, and the event
//! decisions of the endpoint-wait and message phases.
//!
//! Old-style SSE MCP servers announce an `endpoint` event on a GET stream;
//! requests are then POSTed to that endpoint and answers come back as
//! `message` events. Driving the stream is I/O and happens outside the
//! library.

use vstd::prelude::*;
use crate::strutil::{dec_rep, spec_starts_with, trim_spec};

verus! {

/// Errors of the legacy SSE transport.
#[derive(Debug)]
pub enum LegacySseError {
    /// An HTTP request failed, with the client's message.
    Reqwest(String),
    /// The SSE stream ended before an `endpoint` event arrived.
    NoEndpoint,
    /// The SSE stream ended unexpectedly.
    StreamEnded,
    /// A message on the stream was not parseable, with the parser's message.
    Json(String),
    /// The transport channel closed.
    ChannelClosed,
    /// A background task failed, with its message.
    JoinError(String),
    /// The configured URL is unusable, with a description.
    InvalidUrl(String),
}

/// The components of a parsed URL that the worker reads.
pub struct UrlParts {
    pub scheme: String,
    pub host: Option<String>,
    pub port: Option<u16>,
    pub path: String,
}

/// Mathematical form of [`UrlParts`].
pub struct UrlPartsV {
    pub scheme: Seq<char>,
    pub host: Option<Seq<char>>,
    pub port: Option<u16>,
    pub path: Seq<char>,
}

impl View for UrlParts {
    type V = UrlPartsV;

    open spec fn view(&self) -> UrlPartsV {
        UrlPartsV {
            scheme: self.scheme@,
            host: self.host.deep_view(),
            port: self.port,
            path: self.path@,
        }
    }
}

/// What parsing a URL text yields: its components, or the parser's error
/// message. Parsing is a function of the text alone.
pub uninterp spec fn url_parse_of(s: Seq<char>) -> Result<UrlPartsV, Seq<char>>;

/// Relies on `url::Url::parse` (reqwest re-exports the `url` crate), whose
/// outcome depends on the text alone, and on the component readers `scheme`,
/// `host_str`, `port` and `path` of the parsed URL.
#[verifier::external_body]
fn parse_url(s: &str) -> (r: Result<UrlParts, String>)
    ensures
        match r {
            Result::Ok(p) => url_parse_of(s@) == Result::<UrlPartsV, Seq<char>>::Ok(p@),
            Result::Err(e) => url_parse_of(s@) == Result::<UrlPartsV, Seq<char>>::Err(e@),
        },
{
    match reqwest::Url::parse(s) {
        Ok(u) => Result::Ok(UrlParts {
            scheme: u.scheme().to_string(),
            host: u.host_str().map(|h| h.to_string()),
            port: u.port(),
            path: u.path().to_string(),
        }),
        Err(e) => Result::Err(e.to_string()),
    }
}

/// The base URL the worker keeps: scheme, host (or `localhost` when the URL
/// has none) and the port when one is spelled out.
pub open spec fn spec_base_url(p: UrlPartsV) -> Seq<char> {
    p.scheme + "://"@ + (match p.host {
        Option::Some(h) => h,
        Option::None => "localhost"@,
    }) + (match p.port {
        Option::Some(n) => ":"@ + dec_rep(n as nat),
        Option::None => Seq::empty(),
    })
}

/// Worker state of one legacy SSE connection: where to open the stream and
/// which headers to send.
pub struct LegacySseWorker {
    /// The base URL of the SSE server, such as `http://host:port`.
    pub base_url: String,
    /// The SSE endpoint path, such as `/sse`.
    pub sse_path: String,
    /// Extra headers sent on the GET.
    pub headers: Vec<(String, String)>,
}

impl LegacySseWorker {
    /// A worker for the full SSE URL, such as `http://host:port/sse`: the
    /// base URL keeps scheme, host and port; the path becomes the SSE path.
    /// An unparseable URL is reported with the text and the parser's words.
    pub fn from_url(url: &str) -> (r: Result<Self, LegacySseError>)
        ensures
            match r {
                Result::Ok(w) => url_parse_of(url@) matches Result::Ok(p) && w.base_url@
                    == spec_base_url(p) && w.sse_path@ == p.path && w.headers@.len() == 0,
                Result::Err(e) => url_parse_of(url@) matches Result::Err(pe) && (e matches
                LegacySseError::InvalidUrl(m) && m@ == url@ + ": "@ + pe),
            },
    {
        match parse_url(url) {
            Result::Err(pe) => {
                let mut m = url.to_owned();
                m.append(": ");
                m.append(pe.as_str());
                proof {
                    assert(m@ =~= url@ + ": "@ + url_parse_of(url@)->Err_0);
                }
                Err(LegacySseError::InvalidUrl(m))
            },
            Result::Ok(p) => {
                let mut base = p.scheme;
                base.append("://");
                match &p.host {
                    Option::Some(h) => base.append(h.as_str()),
                    Option::None => base.append("localhost"),
                }
                match p.port {
                    Option::Some(n) => {
                        base.append(":");
                        let d = crate::strutil::u64_to_string(n as u64);
                        base.append(d.as_str());
                    },
                    Option::None => {},
                }
                proof {
                    assert(base@ =~= spec_base_url(url_parse_of(url@)->Ok_0));
                }
                Ok(LegacySseWorker { base_url: base, sse_path: p.path, headers: Vec::new() })
            },
        }
    }

    /// The same worker with these extra headers.
    pub fn with_headers(self, headers: Vec<(String, String)>) -> (r: Self)
        ensures
            r.base_url == self.base_url,
            r.sse_path == self.sse_path,
            r.headers == headers,
    {
        LegacySseWorker { headers, ..self }
    }

    /// Resolves an announced endpoint: an absolute URL is used verbatim, a
    /// path is joined onto the worker's base URL.
    pub fn full_url(&self, path: &str) -> (r: String)
        ensures
            r@ == (if spec_starts_with(path@, "http://"@) || spec_starts_with(path@, "https://"@) {
                path@
            } else {
                self.base_url@ + path@
            }),
    {
        if crate::strutil::str_starts_with(path, "http://") || crate::strutil::str_starts_with(
            path,
            "https://",
        ) {
            path.to_owned()
        } else {
            let mut s = self.base_url.clone();
            s.append(path);
            s
        }
    }
}

/// The effective type of an SSE event: the spelled-out type, or `message`
/// when the event has none.
pub open spec fn spec_event_type(event: Option<Seq<char>>) -> Seq<char> {
    match event {
        Option::Some(t) => t,
        Option::None => "message"@,
    }
}

/// The decision of the endpoint-wait phase for one SSE event: an `endpoint`
/// event with data yields the trimmed endpoint; anything else keeps waiting.
pub fn endpoint_event(event: Option<String>, data: Option<String>) -> (r: Option<String>)
    ensures
        match r {
            Option::Some(e) => spec_event_type(event.deep_view()) == "endpoint"@ && (
            data.deep_view() matches Option::Some(d) && e@ == trim_spec(d)),
            Option::None => spec_event_type(event.deep_view()) != "endpoint"@
                || data.deep_view() is None,
        },
{
    let is_endpoint = match &event {
        Option::Some(t) => crate::strutil::str_eq(t.as_str(), "endpoint"),
        Option::None => false,
    };
    proof {
        if event.deep_view() is None {
            vstd::string::axiom_str_literal_len("message");
            vstd::string::axiom_str_literal_len("endpoint");
            reveal_strlit("message");
            reveal_strlit("endpoint");
            assert("message"@ != "endpoint"@);
        }
    }
    if is_endpoint {
        match data {
            Option::Some(d) => Some(crate::strutil::str_trim(d.as_str()).to_owned()),
            Option::None => None,
        }
    } else {
        None
    }
}

/// The decision of the message phase for one SSE event: a `message` event
/// whose data is not blank yields the trimmed JSON-RPC text; duplicate
/// `endpoint` events and every other type are ignored.
pub fn message_event(event: Option<String>, data: Option<String>) -> (r: Option<String>)
    ensures
        match r {
            Option::Some(e) => spec_event_type(event.deep_view()) == "message"@ && (
            data.deep_view() matches Option::Some(d) && e@ == trim_spec(d) && trim_spec(d).len()
                > 0),
            Option::None => spec_event_type(event.deep_view()) != "message"@
                || data.deep_view() is None || (data.deep_view() matches Option::Some(d)
                && trim_spec(d).len() == 0),
        },
{
    let is_message = match &event {
        Option::Some(t) => crate::strutil::str_eq(t.as_str(), "message"),
        Option::None => true,
    };
    if is_message {
        match data {
            Option::Some(d) => {
                let t = crate::strutil::str_trim(d.as_str());
                if t.is_empty() {
                    None
                } else {
                    Some(t.to_owned())
                }
            },
            Option::None => None,
        }
    } else {
        None
    }
}

} // verus!
