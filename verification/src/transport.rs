//! Transport support decisions: tokenizing a configured command line for the
//! child-process transport, rebuilding the command string for diagnostics,
//! and classifying session-delete answers of the Streamable HTTP transport.

use vstd::prelude::*;
use crate::json::{pairs_view, JsonV, JsonValue};
use crate::strutil::{is_ws, trim_spec};
use crate::types::{pairs_keys_unique, spec_has_pair_key};

verus! {

/// Length of the leading whitespace-free run of `s`.
pub open spec fn token_len(s: Seq<char>) -> nat
    decreases s.len(),
{
    if s.len() == 0 || is_ws(s[0]) {
        0
    } else {
        1 + token_len(s.drop_first())
    }
}

proof fn lemma_token_len_le(s: Seq<char>)
    ensures
        token_len(s) <= s.len(),
    decreases s.len(),
{
    if s.len() > 0 && !is_ws(s[0]) {
        lemma_token_len_le(s.drop_first());
    }
}

/// The whitespace-separated tokens of `s`, in order.
pub open spec fn spec_tokens(s: Seq<char>) -> Seq<Seq<char>>
    decreases s.len(),
    via spec_tokens_decreases
{
    if s.len() == 0 {
        Seq::empty()
    } else if is_ws(s[0]) {
        spec_tokens(s.drop_first())
    } else {
        seq![s.take(token_len(s) as int)] + spec_tokens(s.skip(token_len(s) as int))
    }
}

#[via_fn]
proof fn spec_tokens_decreases(s: Seq<char>) {
    lemma_token_len_le(s);
}

/// A maximal whitespace-free run at the front of `s.skip(i)` has the length
/// of the run.
proof fn lemma_tokens_at(s: Seq<char>, i: int, j: int)
    requires
        0 <= i <= j <= s.len(),
        forall|k: int| i <= k < j ==> !is_ws(s[k]),
        j == s.len() || is_ws(s[j]),
        i < j,
    ensures
        token_len(s.skip(i)) == j - i,
    decreases j - i,
{
    let t = s.skip(i);
    assert(t[0] == s[i]);
    assert(!is_ws(s[i]));
    assert(t.drop_first() =~= s.skip(i + 1));
    if i + 1 < j {
        lemma_tokens_at(s, i + 1, j);
    } else {
        let t2 = s.skip(i + 1);
        if j < s.len() {
            assert(t2[0] == s[j]);
            assert(is_ws(t2[0]));
        } else {
            assert(t2.len() == 0);
        }
        assert(token_len(t2) == 0);
    }
    assert(token_len(t) == 1 + token_len(s.skip(i + 1)));
}

/// The whitespace-separated tokens of `s`.
pub fn tokens(s: &str) -> (r: Vec<String>)
    ensures
        r.deep_view() == spec_tokens(s@),
{
    proof {
        assert(s@.skip(0) =~= s@);
    }
    let n = s.unicode_len();
    let mut out: Vec<String> = Vec::new();
    let mut i: usize = 0;
    while i < n
        invariant
            n == s@.len(),
            i <= n,
            spec_tokens(s@) == out.deep_view() + spec_tokens(s@.skip(i as int)),
        decreases n - i,
    {
        let ghost pre = out.deep_view();
        if crate::strutil::is_ws_exec(s.get_char(i)) {
            proof {
                assert(s@.skip(i as int).drop_first() =~= s@.skip(i as int + 1));
            }
            i = i + 1;
        } else {
            let mut j: usize = i + 1;
            while j < n && !crate::strutil::is_ws_exec(s.get_char(j))
                invariant
                    n == s@.len(),
                    i < j <= n,
                    forall|k: int| i <= k < j ==> !is_ws(s@[k]),
                decreases n - j,
            {
                j = j + 1;
            }
            proof {
                lemma_tokens_at(s@, i as int, j as int);
                lemma_token_len_le(s@.skip(i as int));
            }
            let tok = s.substring_char(i, j).to_owned();
            out.push(tok);
            proof {
                let rest = s@.skip(i as int);
                assert(rest.take(j - i) =~= s@.subrange(i as int, j as int));
                assert(rest.skip(j - i) =~= s@.skip(j as int));
                assert(out.deep_view() =~= pre.push(s@.subrange(i as int, j as int)));
                assert(out.deep_view() + spec_tokens(s@.skip(j as int)) =~= pre + spec_tokens(
                    rest,
                ));
            }
            i = j;
        }
    }
    proof {
        assert(s@.skip(n as int) =~= Seq::<char>::empty());
        assert(out.deep_view() + Seq::<Seq<char>>::empty() =~= out.deep_view());
    }
    out
}

/// The message given when a stdio backend has no usable command.
pub open spec fn msg_no_command() -> Seq<char> {
    "No command specified for stdio transport"@
}

/// Splits a configured command line: the first whitespace token is the
/// executable, the remaining tokens come before the configured arguments.
/// A blank command line is refused.
pub fn split_command(command: &str, config_args: &Vec<String>) -> (r: Result<
    (String, Vec<String>),
    String,
>)
    ensures
        match r {
            Result::Ok((exe, args)) => spec_tokens(command@).len() > 0 && exe@ == spec_tokens(
                command@,
            )[0] && args.deep_view() == spec_tokens(command@).drop_first()
                + config_args.deep_view(),
            Result::Err(m) => spec_tokens(command@).len() == 0 && m@ == msg_no_command(),
        },
{
    let mut toks = tokens(command);
    if toks.len() == 0 {
        return Err("No command specified for stdio transport".to_owned());
    }
    let ghost tv = spec_tokens(command@);
    let exe = toks.remove(0);
    proof {
        assert(exe@ == tv[0]);
        assert(toks.deep_view() =~= tv.drop_first());
    }
    let mut args = toks;
    let m = config_args.len();
    let mut i: usize = 0;
    while i < m
        invariant
            m == config_args@.len(),
            i <= m,
            args.deep_view() == tv.drop_first() + config_args.deep_view().take(i as int),
        decreases m - i,
    {
        let ghost pre = args.deep_view();
        args.push(config_args[i].clone());
        proof {
            assert(config_args.deep_view()[i as int] == config_args@[i as int]@);
            assert(args.deep_view() =~= pre.push(config_args.deep_view()[i as int]));
            assert(args.deep_view() =~= tv.drop_first() + config_args.deep_view().take(
                i as int + 1,
            ));
        }
        i = i + 1;
    }
    proof {
        assert(config_args.deep_view().take(m as int) =~= config_args.deep_view());
    }
    Ok((exe, args))
}

/// The arguments joined with single spaces.
pub open spec fn spec_join_space(args: Seq<Seq<char>>) -> Seq<char>
    decreases args.len(),
{
    if args.len() == 0 {
        Seq::empty()
    } else if args.len() == 1 {
        args[0]
    } else {
        args[0] + " "@ + spec_join_space(args.drop_first())
    }
}

proof fn lemma_join_push(args: Seq<Seq<char>>, x: Seq<char>)
    ensures
        spec_join_space(args.push(x)) == if args.len() == 0 {
            x
        } else {
            spec_join_space(args) + " "@ + x
        },
    decreases args.len(),
{
    let p = args.push(x);
    if args.len() == 0 {
        assert(p.len() == 1);
        assert(p[0] == x);
    } else {
        assert(p[0] == args[0]);
        lemma_join_push(args.drop_first(), x);
        assert(p.drop_first() =~= args.drop_first().push(x));
        if args.len() == 1 {
            assert(args[0] + " "@ + x =~= spec_join_space(args) + " "@ + x);
        } else {
            assert(args[0] + " "@ + (spec_join_space(args.drop_first()) + " "@ + x) =~= (args[0]
                + " "@ + spec_join_space(args.drop_first())) + " "@ + x);
        }
    }
}

/// Joins the arguments with single spaces.
pub fn join_space(args: &Vec<String>) -> (r: String)
    ensures
        r@ == spec_join_space(args.deep_view()),
{
    let n = args.len();
    let mut out = String::new();
    let mut i: usize = 0;
    while i < n
        invariant
            n == args@.len(),
            i <= n,
            out@ == spec_join_space(args.deep_view().take(i as int)),
        decreases n - i,
    {
        let ghost prefix = args.deep_view().take(i as int);
        proof {
            assert(args.deep_view().take(i as int + 1) =~= prefix.push(
                args.deep_view()[i as int],
            ));
            lemma_join_push(prefix, args.deep_view()[i as int]);
            assert(args.deep_view()[i as int] == args@[i as int]@);
        }
        if i > 0 {
            out.append(" ");
        }
        out.append(args[i].as_str());
        proof {
            if i > 0 {
                assert(prefix.len() > 0);
            } else {
                assert(out@ =~= args.deep_view()[0]);
            }
        }
        i = i + 1;
    }
    proof {
        assert(args.deep_view().take(n as int) =~= args.deep_view());
    }
    out
}

/// The command string shown in spawn diagnostics: the executable and the
/// arguments joined with spaces, with trailing whitespace trimmed away.
pub fn display_command(exe: &str, args: &Vec<String>) -> (r: String)
    ensures
        r@ == trim_spec(exe@ + " "@ + spec_join_space(args.deep_view())),
{
    let mut s = exe.to_owned();
    s.append(" ");
    let joined = join_space(args);
    s.append(joined.as_str());
    let t = crate::strutil::str_trim(s.as_str());
    let r = t.to_owned();
    proof {
        assert(s@ =~= exe@ + " "@ + spec_join_space(args.deep_view()));
    }
    r
}

/// How a Streamable HTTP server's answer to a session `DELETE` is taken.
#[derive(Clone, Copy, Debug, PartialEq, Eq, Structural)]
pub enum DeleteDisposition {
    /// A success or a 405: the server answered, or does not support
    /// session deletion.
    Accepted,
    /// A 404 or a 400: the server does not recognise the session or the
    /// route; taken as benign rather than as a hard error.
    Benign,
    /// Anything else is only worth a warning; session teardown never fails.
    Warned,
}

/// Classifies the status answered to a session `DELETE`: 2xx and 405 are
/// accepted, 404 and 400 are benign, everything else is merely logged.
pub fn delete_session_disposition(status: u16) -> (r: DeleteDisposition)
    ensures
        r == (if (200 <= status && status < 300) || status == 405 {
            DeleteDisposition::Accepted
        } else if status == 404 || status == 400 {
            DeleteDisposition::Benign
        } else {
            DeleteDisposition::Warned
        }),
{
    if (200 <= status && status < 300) || status == 405 {
        DeleteDisposition::Accepted
    } else if status == 404 || status == 400 {
        DeleteDisposition::Benign
    } else {
        DeleteDisposition::Warned
    }
}


/// A character HTTP allows in a header name: letters, digits, and the token
/// punctuation.
pub open spec fn header_name_char_ok(c: char) -> bool {
    ||| ('a' <= c && c <= 'z')
    ||| ('A' <= c && c <= 'Z')
    ||| ('0' <= c && c <= '9')
    ||| c == '!'
    ||| c == '#'
    ||| c == '$'
    ||| c == '%'
    ||| c == '&'
    ||| c == '\''
    ||| c == '*'
    ||| c == '+'
    ||| c == '-'
    ||| c == '.'
    ||| c == '^'
    ||| c == '_'
    ||| c == '`'
    ||| c == '|'
    ||| c == '~'
}

/// Whether the HTTP client accepts this text as a header name: one to 65535
/// token characters.
pub open spec fn header_name_ok(k: Seq<char>) -> bool {
    &&& 1 <= k.len() <= 0xFFFF
    &&& forall|i: int| 0 <= i < k.len() ==> header_name_char_ok(#[trigger] k[i])
}

/// A character HTTP allows in a header value: the tab, and everything that
/// is neither a control character nor the delete character. Characters past
/// ASCII are allowed (their encoded bytes fall in the allowed range).
pub open spec fn header_value_char_ok(c: char) -> bool {
    c == '\t' || ((c as u32) >= 32 && (c as u32) != 127)
}

/// Whether the HTTP client accepts this text as a header value.
pub open spec fn header_value_ok(v: Seq<char>) -> bool {
    forall|i: int| 0 <= i < v.len() ==> header_value_char_ok(#[trigger] v[i])
}

/// Relies on `reqwest::header::HeaderName::from_bytes`, which accepts
/// exactly the texts of 1 to 65535 bytes whose bytes are all token
/// characters (a byte of a character past ASCII is never one).
#[verifier::external_body]
fn is_valid_header_name(k: &str) -> (r: bool)
    ensures
        r == header_name_ok(k@),
{
    reqwest::header::HeaderName::from_bytes(k.as_bytes()).is_ok()
}

/// Relies on `reqwest::header::HeaderValue::from_str`, which accepts
/// exactly the texts whose bytes are all the tab, or at least 32 and not
/// 127 (every byte of a character past ASCII is).
#[verifier::external_body]
fn is_valid_header_value(v: &str) -> (r: bool)
    ensures
        r == header_value_ok(v@),
{
    reqwest::header::HeaderValue::from_str(v).is_ok()
}

/// Filtering a well-formed table keeps it well-formed: dropping pairs never
/// makes a key appear twice.
proof fn lemma_filter_keeps_keys_unique(
    s: Seq<(Seq<char>, Seq<char>)>,
    pred: spec_fn((Seq<char>, Seq<char>)) -> bool,
)
    requires
        pairs_keys_unique(s),
    ensures
        pairs_keys_unique(s.filter(pred)),
        forall|j: int|
            0 <= j < s.filter(pred).len() ==> spec_has_pair_key(
                s,
                (#[trigger] s.filter(pred)[j]).0,
            ),
    decreases s.len(),
{
    reveal_with_fuel(Seq::filter, 2);
    let fs = s.filter(pred);
    if s.len() == 0 {
        assert(fs =~= s);
    } else {
        let t = s.drop_last();
        assert(pairs_keys_unique(t));
        lemma_filter_keeps_keys_unique(t, pred);
        let ft = t.filter(pred);
        assert forall|j: int| 0 <= j < fs.len() implies spec_has_pair_key(
            s,
            (#[trigger] fs[j]).0,
        ) by {
            if j < ft.len() {
                assert(fs[j] == ft[j]);
                assert(spec_has_pair_key(t, ft[j].0));
                let w = choose|i: int| 0 <= i < t.len() && (#[trigger] t[i]).0 == ft[j].0;
                assert(s[w].0 == fs[j].0);
            } else {
                assert(fs[j] == s.last());
                assert(s[s.len() - 1].0 == fs[j].0);
            }
        }
        assert forall|i: int, j: int| 0 <= i < j < fs.len() implies (#[trigger] fs[i]).0 != (
        #[trigger] fs[j]).0 by {
            if j < ft.len() {
                assert(fs[i] == ft[i] && fs[j] == ft[j]);
            } else {
                assert(fs[i] == ft[i] && fs[j] == s.last());
                if ft[i].0 == s.last().0 {
                    assert(spec_has_pair_key(t, ft[i].0));
                    let w = choose|w: int| 0 <= w < t.len() && (#[trigger] t[w]).0 == ft[i].0;
                    assert(s[w].0 == s[s.len() - 1].0);
                }
            }
        }
    }
}

/// The user-supplied headers that the HTTP client will accept. Users paste
/// noisy values, so an invalid pair is skipped (the caller warns about the
/// difference in length) rather than failing the connect. A table that
/// bound each key once still does.
pub fn select_valid_headers(headers: &Vec<(String, String)>) -> (r: Vec<(String, String)>)
    ensures
        r.deep_view() == headers.deep_view().filter(
            |p: (Seq<char>, Seq<char>)| header_name_ok(p.0) && header_value_ok(p.1),
        ),
        pairs_keys_unique(headers.deep_view()) ==> pairs_keys_unique(r.deep_view()),
{
    proof {
        if pairs_keys_unique(headers.deep_view()) {
            lemma_filter_keeps_keys_unique(
                headers.deep_view(),
                |p: (Seq<char>, Seq<char>)| header_name_ok(p.0) && header_value_ok(p.1),
            );
        }
    }
    let ghost hv = headers.deep_view();
    let ghost pred = |p: (Seq<char>, Seq<char>)| header_name_ok(p.0) && header_value_ok(p.1);
    let n = headers.len();
    let mut out: Vec<(String, String)> = Vec::new();
    let mut i: usize = 0;
    while i < n
        invariant
            n == headers@.len(),
            i <= n,
            hv == headers.deep_view(),
            pred == (|p: (Seq<char>, Seq<char>)| header_name_ok(p.0) && header_value_ok(p.1)),
            out.deep_view() == hv.take(i as int).filter(pred),
        decreases n - i,
    {
        let ghost pre = out.deep_view();
        let ghost prefix = hv.take(i as int);
        let ghost prefix1 = hv.take(i as int + 1);
        proof {
            assert(prefix1.drop_last() =~= prefix);
            assert(prefix1.last() == hv[i as int]);
            assert(hv[i as int] == (headers@[i as int].0@, headers@[i as int].1@));
            reveal_with_fuel(Seq::filter, 2);
        }
        let p = &headers[i];
        if is_valid_header_name(p.0.as_str()) && is_valid_header_value(p.1.as_str()) {
            out.push((p.0.clone(), p.1.clone()));
            proof {
                assert(out.deep_view() =~= pre.push(hv[i as int]));
                assert(out.deep_view() =~= prefix1.filter(pred));
            }
        } else {
            proof {
                assert(out.deep_view() =~= prefix1.filter(pred));
            }
        }
        i = i + 1;
    }
    proof {
        assert(hv.take(n as int) =~= hv);
    }
    out
}


/// A JSON-RPC request envelope as the adapters send it: a fresh numeric id,
/// the method and the parameters.
pub open spec fn spec_request_envelope(id: u64, method: Seq<char>, params: JsonV) -> JsonV {
    JsonV::Obj(
        seq![
            ("jsonrpc"@, JsonV::Str("2.0"@)),
            ("id"@, JsonV::UInt(id)),
            ("method"@, JsonV::Str(method)),
            ("params"@, params),
        ],
    )
}

/// Builds the request envelope an adapter POSTs or writes for one call.
pub fn request_envelope(id: u64, method: &str, params: JsonValue) -> (r: JsonValue)
    ensures
        r@ == spec_request_envelope(id, method@, params@),
{
    let ghost params_v = params@;
    let pairs: Vec<(String, JsonValue)> = vec![
        ("jsonrpc".to_owned(), JsonValue::Str("2.0".to_owned())),
        ("id".to_owned(), JsonValue::UInt(id)),
        ("method".to_owned(), JsonValue::Str(method.to_owned())),
        ("params".to_owned(), params),
    ];
    let r = JsonValue::Object(pairs);
    proof {
        assert(pairs_view(r->Object_0@) =~= spec_request_envelope(id, method@, params_v)->Obj_0);
    }
    r
}

/// A JSON-RPC notification envelope: a method and parameters, and no id, so
/// no response is owed.
pub open spec fn spec_notification_envelope(method: Seq<char>, params: JsonV) -> JsonV {
    JsonV::Obj(
        seq![
            ("jsonrpc"@, JsonV::Str("2.0"@)),
            ("method"@, JsonV::Str(method)),
            ("params"@, params),
        ],
    )
}

/// Builds the notification envelope an adapter sends.
pub fn notification_envelope(method: &str, params: JsonValue) -> (r: JsonValue)
    ensures
        r@ == spec_notification_envelope(method@, params@),
{
    let ghost params_v = params@;
    let pairs: Vec<(String, JsonValue)> = vec![
        ("jsonrpc".to_owned(), JsonValue::Str("2.0".to_owned())),
        ("method".to_owned(), JsonValue::Str(method.to_owned())),
        ("params".to_owned(), params),
    ];
    let r = JsonValue::Object(pairs);
    proof {
        assert(pairs_view(r->Object_0@) =~= spec_notification_envelope(method@, params_v)->Obj_0);
    }
    r
}

/// The parameters of the client-side `initialize` handshake every adapter
/// runs on open: the protocol revision, an empty capabilities envelope, and
/// this client's identity.
pub open spec fn spec_initialize_params() -> JsonV {
    JsonV::Obj(
        seq![
            ("protocolVersion"@, JsonV::Str("2025-03-26"@)),
            ("capabilities"@, JsonV::Obj(Seq::empty())),
            (
                "clientInfo"@,
                JsonV::Obj(
                    seq![
                        ("name"@, JsonV::Str("local-mcp-proxy"@)),
                        ("version"@, JsonV::Str("0.1.0"@)),
                    ],
                ),
            ),
        ],
    )
}

/// Builds the `initialize` handshake parameters.
pub fn initialize_params() -> (r: JsonValue)
    ensures
        r@ == spec_initialize_params(),
{
    let caps = JsonValue::Object(Vec::new());
    let client_info = JsonValue::Object(
        vec![
            ("name".to_owned(), JsonValue::Str("local-mcp-proxy".to_owned())),
            ("version".to_owned(), JsonValue::Str("0.1.0".to_owned())),
        ],
    );
    proof {
        assert(pairs_view(caps->Object_0@) =~= Seq::<(Seq<char>, JsonV)>::empty());
        assert(pairs_view(client_info->Object_0@) =~= seq![
            ("name"@, JsonV::Str("local-mcp-proxy"@)),
            ("version"@, JsonV::Str("0.1.0"@)),
        ]);
    }
    let pairs: Vec<(String, JsonValue)> = vec![
        ("protocolVersion".to_owned(), JsonValue::Str("2025-03-26".to_owned())),
        ("capabilities".to_owned(), caps),
        ("clientInfo".to_owned(), client_info),
    ];
    let r = JsonValue::Object(pairs);
    proof {
        assert(pairs_view(r->Object_0@) =~= spec_initialize_params()->Obj_0);
    }
    r
}

/// What a backend's JSON-RPC response envelope answers.
pub enum BackendReply {
    /// The envelope carries an `error` document.
    Failure(JsonValue),
    /// The envelope carries no error: its `result`, or null when absent.
    Payload(JsonValue),
}

/// Splits a response envelope: the error document when one is present,
/// otherwise the result, null standing in for a missing one.
pub fn split_response(resp: &JsonValue) -> (r: BackendReply)
    ensures
        match r {
            BackendReply::Failure(e) => resp@.get("error"@) == Option::Some(e@),
            BackendReply::Payload(v) => resp@.get("error"@) is None && v@ == (
            match resp@.get("result"@) {
                Option::Some(x) => x,
                Option::None => JsonV::Null,
            }),
        },
{
    match resp.get("error") {
        Option::Some(e) => BackendReply::Failure(e.duplicate()),
        Option::None => match resp.get("result") {
            Option::Some(v) => BackendReply::Payload(v.duplicate()),
            Option::None => BackendReply::Payload(JsonValue::Null),
        },
    }
}

} // verus!
