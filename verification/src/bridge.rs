//! The stdio-to-HTTP bridge decisions: parsing the command line and deciding
//! what to write for each POSTed line. Reading standard input, POSTing to
//! the gateway and writing standard output happen outside the library.

use vstd::prelude::*;
use crate::gateway::spec_error_response;
use crate::json::{JsonV, JsonValue};
use crate::strutil::dec_rep;

verus! {

/// Whether `c` is a decimal digit.
pub open spec fn is_digit(c: char) -> bool {
    '0' <= c && c <= '9'
}

/// The value of a decimal digit.
pub open spec fn digit_val(c: char) -> nat {
    ((c as int) - ('0' as int)) as nat
}

/// The value of a digit string, most significant digit first.
pub open spec fn digits_val(s: Seq<char>) -> nat
    decreases s.len(),
{
    if s.len() == 0 {
        0
    } else {
        digits_val(s.drop_last()) * 10 + digit_val(s.last())
    }
}

/// Whether every character of `s` is a decimal digit.
pub open spec fn all_digits(s: Seq<char>) -> bool
    decreases s.len(),
{
    s.len() == 0 || (is_digit(s[0]) && all_digits(s.drop_first()))
}

/// The number a port argument denotes, exactly as the standard `u16` parser
/// reads it: an optional leading `+`, then at least one digit, nothing else,
/// and a value that fits.
pub open spec fn spec_parse_u16(s: Seq<char>) -> Option<u16> {
    let ds = if s.len() > 0 && s[0] == '+' {
        s.drop_first()
    } else {
        s
    };
    if ds.len() > 0 && all_digits(ds) && digits_val(ds) <= 65535 {
        Option::Some(digits_val(ds) as u16)
    } else {
        Option::None
    }
}

proof fn lemma_all_digits_at(s: Seq<char>, k: int)
    requires
        0 <= k < s.len(),
        all_digits(s),
    ensures
        is_digit(s[k]),
    decreases k,
{
    if k > 0 {
        lemma_all_digits_at(s.drop_first(), k - 1);
    }
}

proof fn lemma_all_digits_from_forall(s: Seq<char>)
    requires
        forall|k: int| 0 <= k < s.len() ==> is_digit(#[trigger] s[k]),
    ensures
        all_digits(s),
    decreases s.len(),
{
    if s.len() > 0 {
        lemma_all_digits_from_forall(s.drop_first());
    }
}

proof fn lemma_digits_val_take_le(s: Seq<char>, i: int)
    requires
        0 <= i <= s.len(),
    ensures
        digits_val(s.take(i)) <= digits_val(s),
    decreases s.len() - i,
{
    if i < s.len() {
        lemma_digits_val_take_le(s, i + 1);
        assert(s.take(i + 1).drop_last() =~= s.take(i));
        assert(digits_val(s.take(i)) <= digits_val(s.take(i + 1)));
    } else {
        assert(s.take(i) =~= s);
    }
}

fn digit_of(c: char) -> (r: Option<u16>)
    ensures
        match r {
            Option::Some(d) => is_digit(c) && d == digit_val(c),
            Option::None => !is_digit(c),
        },
{
    let v = c as u32;
    proof {
        vstd::utf8::char_u32_cast(c, c as u32);
        vstd::utf8::char_u32_cast('0', '0' as u32);
        vstd::utf8::char_u32_cast('9', '9' as u32);
    }
    if ('0' as u32) <= v && v <= ('9' as u32) {
        proof {
            assert(('0' as u32) == ('0' as nat) as u32);
            assert(is_digit(c));
        }
        Some(((v - ('0' as u32)) as u16))
    } else {
        proof {
            if is_digit(c) {
                assert(('0' as u32) <= v && v <= ('9' as u32));
            }
        }
        None
    }
}

/// Parses a port number as the standard `u16` parser would.
pub fn parse_u16(s: &str) -> (r: Option<u16>)
    ensures
        r == spec_parse_u16(s@),
{
    let n = s.unicode_len();
    let mut start: usize = 0;
    if n > 0 && s.get_char(0) == '+' {
        start = 1;
    }
    let ghost ds = if s@.len() > 0 && s@[0] == '+' {
        s@.drop_first()
    } else {
        s@
    };
    proof {
        if start == 1 {
            assert(ds =~= s@.skip(1));
        } else {
            assert(ds =~= s@);
        }
    }
    if start == n {
        proof {
            assert(ds.len() == 0);
        }
        return None;
    }
    let mut acc: u32 = 0;
    let mut i: usize = start;
    while i < n
        invariant
            n == s@.len(),
            start <= i <= n,
            start <= 1,
            start == 1 ==> (s@.len() > 0 && s@[0] == '+'),
            start == 0 ==> !(s@.len() > 0 && s@[0] == '+'),
            ds == (if s@.len() > 0 && s@[0] == '+' {
                s@.drop_first()
            } else {
                s@
            }),
            ds.len() == n - start,
            forall|k: int| 0 <= k < i - start ==> is_digit(#[trigger] ds[k]),
            acc == digits_val(ds.take(i - start)),
            acc <= 65535,
        decreases n - i,
    {
        proof {
            assert(ds[i - start] == s@[i as int]);
        }
        let d = match digit_of(s.get_char(i)) {
            Option::Some(d) => d,
            Option::None => {
                proof {
                    assert(!is_digit(ds[i - start]));
                    if all_digits(ds) {
                        lemma_all_digits_at(ds, i - start);
                    }
                    assert(spec_parse_u16(s@) is None);
                }
                return None;
            },
        };
        proof {
            assert(ds.take(i - start + 1).drop_last() =~= ds.take(i - start));
            assert(ds.take(i - start + 1).last() == ds[i - start]);
        }
        acc = acc * 10 + (d as u32);
        if acc > 65535 {
            proof {
                lemma_digits_val_take_le(ds, i - start + 1);
            }
            return None;
        }
        i = i + 1;
    }
    proof {
        assert(ds.take(n - start) =~= ds);
        lemma_all_digits_from_forall(ds);
    }
    Some(acc as u16)
}

/// The bridge's command line: the backend id to proxy and the gateway port.
#[derive(Debug)]
pub struct BridgeArgs {
    pub port: u16,
    pub mcp_id: String,
}

/// Mathematical form of [`BridgeArgs`].
pub struct BridgeArgsV {
    pub port: u16,
    pub mcp_id: Seq<char>,
}

impl View for BridgeArgs {
    type V = BridgeArgsV;

    open spec fn view(&self) -> BridgeArgsV {
        BridgeArgsV { port: self.port, mcp_id: self.mcp_id@ }
    }
}

/// Argument scanning from a given state: the settings accumulated so far,
/// or the first error in scanning order.
pub open spec fn spec_scan_args(args: Seq<Seq<char>>, port: u16, id: Option<Seq<char>>) -> Result<
    (u16, Option<Seq<char>>),
    Seq<char>,
>
    decreases args.len(),
{
    if args.len() == 0 {
        Result::Ok((port, id))
    } else if args[0] == "--port"@ {
        if args.len() < 2 {
            Result::Err("--port requires a value"@)
        } else {
            match spec_parse_u16(args[1]) {
                Option::Some(p) => spec_scan_args(args.skip(2), p, id),
                Option::None => Result::Err("invalid port: "@ + args[1]),
            }
        }
    } else if args[0] == "--mcp-id"@ {
        if args.len() < 2 {
            Result::Err("--mcp-id requires a value"@)
        } else {
            spec_scan_args(args.skip(2), port, Option::Some(args[1]))
        }
    } else {
        Result::Err("unknown argument: "@ + args[0])
    }
}

/// What the bridge's command line means: `--mcp-id` is required, `--port`
/// falls back to 3001, repeated flags keep their last value, and anything
/// else is the error of the first offending argument.
pub open spec fn spec_parse_args(args: Seq<Seq<char>>) -> Result<BridgeArgsV, Seq<char>> {
    match spec_scan_args(args, 3001u16, Option::None) {
        Result::Ok((port, Option::Some(id))) => Result::Ok(BridgeArgsV { port, mcp_id: id }),
        Result::Ok((_, Option::None)) => Result::Err("--mcp-id is required"@),
        Result::Err(e) => Result::Err(e),
    }
}

/// Parses the bridge's command line (the program name already dropped).
pub fn parse_args(args: &Vec<String>) -> (r: Result<BridgeArgs, String>)
    ensures
        match r {
            Result::Ok(a) => spec_parse_args(args.deep_view()) == Result::<
                BridgeArgsV,
                Seq<char>,
            >::Ok(a@),
            Result::Err(m) => spec_parse_args(args.deep_view()) == Result::<
                BridgeArgsV,
                Seq<char>,
            >::Err(m@),
        },
{
    let ghost av = args.deep_view();
    let n = args.len();
    let mut port: u16 = 3001;
    let mut mcp_id: Option<String> = None;
    let mut i: usize = 0;
    proof {
        assert(av.skip(0) =~= av);
    }
    while i < n
        invariant
            n == args@.len(),
            i <= n,
            av == args.deep_view(),
            spec_scan_args(av, 3001u16, Option::None) == spec_scan_args(
                av.skip(i as int),
                port,
                mcp_id.deep_view(),
            ),
        decreases n - i,
    {
        let ghost rest = av.skip(i as int);
        proof {
            assert(rest[0] == av[i as int]);
            assert(av[i as int] == args@[i as int]@);
            if i + 2 <= n {
                assert(rest.skip(2) =~= av.skip(i as int + 2));
            }
        }
        let arg = &args[i];
        if crate::strutil::str_eq(arg.as_str(), "--port") {
            if i + 1 >= n {
                return Err("--port requires a value".to_owned());
            }
            proof {
                assert(rest[1] == av[i as int + 1]);
                assert(av[i as int + 1] == args@[i as int + 1]@);
            }
            let val = &args[i + 1];
            match parse_u16(val.as_str()) {
                Option::Some(p) => {
                    port = p;
                    i = i + 2;
                },
                Option::None => {
                    let mut m = "invalid port: ".to_owned();
                    m.append(val.as_str());
                    proof {
                        assert(m@ =~= "invalid port: "@ + rest[1]);
                    }
                    return Err(m);
                },
            }
        } else if crate::strutil::str_eq(arg.as_str(), "--mcp-id") {
            if i + 1 >= n {
                return Err("--mcp-id requires a value".to_owned());
            }
            proof {
                assert(rest[1] == av[i as int + 1]);
                assert(av[i as int + 1] == args@[i as int + 1]@);
            }
            mcp_id = Some(args[i + 1].clone());
            i = i + 2;
        } else {
            let mut m = "unknown argument: ".to_owned();
            m.append(arg.as_str());
            proof {
                assert(m@ =~= "unknown argument: "@ + rest[0]);
            }
            return Err(m);
        }
    }
    proof {
        assert(av.skip(n as int) =~= Seq::<Seq<char>>::empty());
    }
    match mcp_id {
        Some(id) => Ok(BridgeArgs { port, mcp_id: id }),
        None => Err("--mcp-id is required".to_owned()),
    }
}

/// Mathematical form of [`PostOutcome`].
pub enum PostOutcomeV {
    NetworkError(Seq<char>),
    Response { status: u16, body: Seq<char> },
}

/// What came of POSTing one line to the gateway.
pub enum PostOutcome {
    /// The gateway could not be reached, with the client's message.
    NetworkError(String),
    /// The gateway answered with this status and body text.
    Response { status: u16, body: String },
}

impl View for PostOutcome {
    type V = PostOutcomeV;

    open spec fn view(&self) -> PostOutcomeV {
        match self {
            PostOutcome::NetworkError(m) => PostOutcomeV::NetworkError(m@),
            PostOutcome::Response { status, body } => PostOutcomeV::Response {
                status: *status,
                body: body@,
            },
        }
    }
}

/// Mathematical form of [`BridgeReply`].
pub enum BridgeReplyV {
    Silent,
    EmitJson(JsonV),
    EmitBody(Seq<char>),
}

/// What the bridge writes to standard output for one line.
pub enum BridgeReply {
    /// Nothing: a notification was acknowledged or an error concerns a
    /// notification.
    Silent,
    /// A synthesized JSON-RPC error document, written as one line.
    EmitJson(JsonValue),
    /// The gateway's response body, written verbatim as one line.
    EmitBody(String),
}

impl View for BridgeReply {
    type V = BridgeReplyV;

    open spec fn view(&self) -> BridgeReplyV {
        match self {
            BridgeReply::Silent => BridgeReplyV::Silent,
            BridgeReply::EmitJson(v) => BridgeReplyV::EmitJson(v@),
            BridgeReply::EmitBody(b) => BridgeReplyV::EmitBody(b@),
        }
    }
}

/// What the bridge writes for a request and the outcome of its POST: a 202
/// stays silent; a success body passes through; a network failure or an
/// error status synthesizes a `-32000` error for id-carrying requests and
/// is swallowed for notifications.
pub open spec fn spec_bridge_reply(req: JsonV, outcome: PostOutcomeV) -> BridgeReplyV {
    match outcome {
        PostOutcomeV::NetworkError(e) => match req.get("id"@) {
            Option::Some(id) => BridgeReplyV::EmitJson(
                spec_error_response(id, -32000i64, "proxy unreachable: "@ + e),
            ),
            Option::None => BridgeReplyV::Silent,
        },
        PostOutcomeV::Response { status, body } => if status == 202 {
            BridgeReplyV::Silent
        } else if !(200 <= status < 300) {
            match req.get("id"@) {
                Option::Some(id) => BridgeReplyV::EmitJson(
                    spec_error_response(
                        id,
                        -32000i64,
                        "HTTP "@ + dec_rep(status as nat) + ": "@ + body,
                    ),
                ),
                Option::None => BridgeReplyV::Silent,
            }
        } else {
            BridgeReplyV::EmitBody(body)
        },
    }
}

/// Decides what the bridge writes for one POSTed request.
pub fn bridge_reply(req: &JsonValue, outcome: PostOutcome) -> (r: BridgeReply)
    ensures
        r@ == spec_bridge_reply(req@, outcome@),
{
    match outcome {
        PostOutcome::NetworkError(e) => match req.get("id") {
            Option::Some(id) => {
                let mut m = "proxy unreachable: ".to_owned();
                m.append(e.as_str());
                proof {
                    assert(m@ =~= "proxy unreachable: "@ + e@);
                }
                BridgeReply::EmitJson(
                    crate::gateway::error_response(id.duplicate(), -32000, m),
                )
            },
            Option::None => BridgeReply::Silent,
        },
        PostOutcome::Response { status, body } => {
            if status == 202 {
                BridgeReply::Silent
            } else if !(200 <= status && status < 300) {
                match req.get("id") {
                    Option::Some(id) => {
                        let mut m = "HTTP ".to_owned();
                        let d = crate::strutil::u64_to_string(status as u64);
                        m.append(d.as_str());
                        m.append(": ");
                        m.append(body.as_str());
                        proof {
                            assert(m@ =~= "HTTP "@ + dec_rep(status as nat) + ": "@ + body@);
                        }
                        BridgeReply::EmitJson(
                            crate::gateway::error_response(id.duplicate(), -32000, m),
                        )
                    },
                    Option::None => BridgeReply::Silent,
                }
            } else {
                BridgeReply::EmitBody(body)
            }
        },
    }
}

} // verus!
