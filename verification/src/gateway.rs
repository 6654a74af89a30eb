//! The JSON-RPC gateway logic of the proxy front door: planning what to do
//! with an incoming request object, answering `initialize` directly, wrapping
//! backend outcomes into response envelopes, filtering disabled capabilities
//! out of listing responses, and assembling batch responses.
//!
//! The HTTP server itself, and the dispatch of a planned call into a backend
//! transport, happen outside the library; they feed the outcome back in as a
//! [`DispatchOutcome`].

use vstd::prelude::*;
use crate::json::{arr_view, pairs_view, JsonV, JsonValue};
use crate::types::ConnectionState;

verus! {

/// Mathematical form of [`RpcAction`].
pub enum RpcActionV {
    Ignore,
    Invalid { id: JsonV },
    Notify { method: Seq<char>, params: JsonV },
    Initialize { id: JsonV },
    Call { method: Seq<char>, params: JsonV, id: JsonV },
}

/// What the gateway does with one JSON-RPC request object.
pub enum RpcAction {
    /// The object has neither a string `method` nor an `id`: nothing is
    /// dispatched and no response element is produced.
    Ignore,
    /// The object carries an `id` but no string `method`: nothing is
    /// dispatched, and the response element is an invalid-request error
    /// echoing the id, so that every id-carrying element is answered.
    Invalid { id: JsonValue },
    /// A notification (no `id` field): dispatched to the backend, but no
    /// response element is produced.
    Notify { method: String, params: JsonValue },
    /// An `initialize` request, which the gateway answers itself.
    Initialize { id: JsonValue },
    /// A request forwarded to the backend; the response element carries `id`.
    Call { method: String, params: JsonValue, id: JsonValue },
}

impl View for RpcAction {
    type V = RpcActionV;

    open spec fn view(&self) -> RpcActionV {
        match self {
            RpcAction::Ignore => RpcActionV::Ignore,
            RpcAction::Invalid { id } => RpcActionV::Invalid { id: id@ },
            RpcAction::Notify { method, params } => RpcActionV::Notify {
                method: method@,
                params: params@,
            },
            RpcAction::Initialize { id } => RpcActionV::Initialize { id: id@ },
            RpcAction::Call { method, params, id } => RpcActionV::Call {
                method: method@,
                params: params@,
                id: id@,
            },
        }
    }
}

/// The parameters a request carries: its `params` field, or null.
pub open spec fn spec_params_of(req: JsonV) -> JsonV {
    match req.get("params"@) {
        Option::Some(p) => p,
        Option::None => JsonV::Null,
    }
}

/// The gateway's plan for one request object. Objects with a string
/// `method` but no `id` are notifications; `initialize` is answered by the
/// gateway itself; every other request is forwarded to the backend. An
/// object without a string `method` is answered with an invalid-request
/// error when it carries an `id`, and dropped when it does not, so that
/// exactly the id-carrying elements of a batch produce response elements.
pub open spec fn spec_plan(req: JsonV) -> RpcActionV {
    match req.get("method"@) {
        Option::Some(JsonV::Str(m)) => match req.get("id"@) {
            Option::None => RpcActionV::Notify { method: m, params: spec_params_of(req) },
            Option::Some(id) => if m == "initialize"@ {
                RpcActionV::Initialize { id }
            } else {
                RpcActionV::Call { method: m, params: spec_params_of(req), id }
            },
        },
        _ => match req.get("id"@) {
            Option::Some(id) => RpcActionV::Invalid { id },
            Option::None => RpcActionV::Ignore,
        },
    }
}

/// Decides what to do with one request object.
pub fn plan_request(req: &JsonValue) -> (r: RpcAction)
    ensures
        r@ == spec_plan(req@),
{
    let method: String = match req.get("method") {
        Option::Some(JsonValue::Str(m)) => m.clone(),
        _ => {
            return match req.get("id") {
                Option::Some(id) => RpcAction::Invalid { id: id.duplicate() },
                Option::None => RpcAction::Ignore,
            };
        },
    };
    let params = match req.get("params") {
        Option::Some(p) => p.duplicate(),
        Option::None => JsonValue::Null,
    };
    match req.get("id") {
        Option::Some(id) => {
            let id = id.duplicate();
            if crate::strutil::str_eq(method.as_str(), "initialize") {
                RpcAction::Initialize { id }
            } else {
                RpcAction::Call { method, params, id }
            }
        },
        Option::None => RpcAction::Notify { method, params },
    }
}

/// The message of an invalid-request error: the element carried an `id`
/// but no string `method`.
pub open spec fn msg_invalid_request() -> Seq<char> {
    "Invalid Request"@
}

/// The response element for an id-carrying element without a string
/// `method`: a `-32600` error echoing the id.
pub fn invalid_request_response(id: JsonValue) -> (r: JsonValue)
    ensures
        r@ == spec_error_response(id@, -32600i64, msg_invalid_request()),
{
    error_response(id, -32600, "Invalid Request".to_owned())
}

/// A JSON-RPC success envelope: `{"jsonrpc":"2.0","id":id,"result":result}`.
pub open spec fn spec_success_response(id: JsonV, result: JsonV) -> JsonV {
    JsonV::Obj(seq![("jsonrpc"@, JsonV::Str("2.0"@)), ("id"@, id), ("result"@, result)])
}

/// A JSON-RPC error envelope with the given code and message.
pub open spec fn spec_error_response(id: JsonV, code: i64, message: Seq<char>) -> JsonV {
    JsonV::Obj(
        seq![
            ("jsonrpc"@, JsonV::Str("2.0"@)),
            ("id"@, id),
            (
                "error"@,
                JsonV::Obj(seq![("code"@, JsonV::Int(code)), ("message"@, JsonV::Str(message))]),
            ),
        ],
    )
}

/// Builds a JSON-RPC success envelope.
pub fn success_response(id: JsonValue, result: JsonValue) -> (r: JsonValue)
    ensures
        r@ == spec_success_response(id@, result@),
{
    let ghost id_v = id@;
    let ghost result_v = result@;
    let pairs: Vec<(String, JsonValue)> = vec![
        ("jsonrpc".to_owned(), JsonValue::Str("2.0".to_owned())),
        ("id".to_owned(), id),
        ("result".to_owned(), result),
    ];
    let r = JsonValue::Object(pairs);
    proof {
        assert(pairs_view(r->Object_0@) =~= seq![
            ("jsonrpc"@, JsonV::Str("2.0"@)),
            ("id"@, id_v),
            ("result"@, result_v),
        ]);
    }
    r
}

/// Builds a JSON-RPC error envelope.
pub fn error_response(id: JsonValue, code: i64, message: String) -> (r: JsonValue)
    ensures
        r@ == spec_error_response(id@, code, message@),
{
    let ghost id_v = id@;
    let ghost msg_v = message@;
    let inner: Vec<(String, JsonValue)> = vec![
        ("code".to_owned(), JsonValue::Int(code)),
        ("message".to_owned(), JsonValue::Str(message)),
    ];
    let err = JsonValue::Object(inner);
    proof {
        assert(pairs_view(err->Object_0@) =~= seq![
            ("code"@, JsonV::Int(code)),
            ("message"@, JsonV::Str(msg_v)),
        ]);
    }
    let pairs: Vec<(String, JsonValue)> = vec![
        ("jsonrpc".to_owned(), JsonValue::Str("2.0".to_owned())),
        ("id".to_owned(), id),
        ("error".to_owned(), err),
    ];
    let r = JsonValue::Object(pairs);
    proof {
        assert(pairs_view(r->Object_0@) =~= spec_error_response(id_v, code, msg_v)->Obj_0);
    }
    r
}

/// The protocol revision the gateway speaks.
pub open spec fn spec_protocol_version() -> Seq<char> {
    "2025-03-26"@
}

/// The capabilities envelope the gateway advertises: tools, resources and
/// prompts, without change notifications or subscriptions.
pub open spec fn spec_capabilities() -> JsonV {
    JsonV::Obj(
        seq![
            ("tools"@, JsonV::Obj(seq![("listChanged"@, JsonV::Bool(false))])),
            (
                "resources"@,
                JsonV::Obj(
                    seq![("subscribe"@, JsonV::Bool(false)), ("listChanged"@, JsonV::Bool(false))],
                ),
            ),
            ("prompts"@, JsonV::Obj(seq![("listChanged"@, JsonV::Bool(false))])),
        ],
    )
}

/// The gateway's own answer to `initialize`.
pub open spec fn spec_initialize_result() -> JsonV {
    JsonV::Obj(
        seq![
            ("protocolVersion"@, JsonV::Str(spec_protocol_version())),
            ("capabilities"@, spec_capabilities()),
            (
                "serverInfo"@,
                JsonV::Obj(
                    seq![
                        ("name"@, JsonV::Str("Local MCP Proxy"@)),
                        ("version"@, JsonV::Str("0.1.0"@)),
                    ],
                ),
            ),
        ],
    )
}

/// Builds the gateway's answer to an `initialize` request carrying `id`.
pub fn initialize_response(id: JsonValue) -> (r: JsonValue)
    ensures
        r@ == spec_success_response(id@, spec_initialize_result()),
{
    let tools_caps = JsonValue::Object(
        vec![("listChanged".to_owned(), JsonValue::Bool(false))],
    );
    let resources_caps = JsonValue::Object(
        vec![
            ("subscribe".to_owned(), JsonValue::Bool(false)),
            ("listChanged".to_owned(), JsonValue::Bool(false)),
        ],
    );
    let prompts_caps = JsonValue::Object(
        vec![("listChanged".to_owned(), JsonValue::Bool(false))],
    );
    proof {
        assert(pairs_view(tools_caps->Object_0@) =~= seq![("listChanged"@, JsonV::Bool(false))]);
        assert(pairs_view(resources_caps->Object_0@) =~= seq![
            ("subscribe"@, JsonV::Bool(false)),
            ("listChanged"@, JsonV::Bool(false)),
        ]);
        assert(pairs_view(prompts_caps->Object_0@) =~= seq![("listChanged"@, JsonV::Bool(false))]);
    }
    let capabilities = JsonValue::Object(
        vec![
            ("tools".to_owned(), tools_caps),
            ("resources".to_owned(), resources_caps),
            ("prompts".to_owned(), prompts_caps),
        ],
    );
    proof {
        assert(pairs_view(capabilities->Object_0@) =~= spec_capabilities()->Obj_0);
    }
    let server_info = JsonValue::Object(
        vec![
            ("name".to_owned(), JsonValue::Str("Local MCP Proxy".to_owned())),
            ("version".to_owned(), JsonValue::Str("0.1.0".to_owned())),
        ],
    );
    proof {
        assert(pairs_view(server_info->Object_0@) =~= seq![
            ("name"@, JsonV::Str("Local MCP Proxy"@)),
            ("version"@, JsonV::Str("0.1.0"@)),
        ]);
    }
    let result = JsonValue::Object(
        vec![
            ("protocolVersion".to_owned(), JsonValue::Str("2025-03-26".to_owned())),
            ("capabilities".to_owned(), capabilities),
            ("serverInfo".to_owned(), server_info),
        ],
    );
    proof {
        assert(pairs_view(result->Object_0@) =~= spec_initialize_result()->Obj_0);
    }
    success_response(id, result)
}


/// Whether a capability entry survives filtering: it is dropped only when
/// its `field` (a tool's name, a resource's URI) is a string on the disabled
/// list.
pub open spec fn spec_entry_kept(t: JsonV, field: Seq<char>, disabled: Seq<Seq<char>>) -> bool {
    match t.get(field) {
        Option::Some(JsonV::Str(n)) => !disabled.contains(n),
        _ => true,
    }
}

/// A listing result with the disabled entries removed: in an object result,
/// every pair named `key` holding an array keeps only the entries whose
/// `field` is not disabled; everything else is untouched.
pub open spec fn spec_filter_listing(
    result: JsonV,
    key: Seq<char>,
    field: Seq<char>,
    disabled: Seq<Seq<char>>,
) -> JsonV {
    match result {
        JsonV::Obj(pairs) => JsonV::Obj(
            Seq::new(
                pairs.len(),
                |i: int|
                    if pairs[i].0 == key && pairs[i].1 is Arr {
                        (
                            pairs[i].0,
                            JsonV::Arr(
                                pairs[i].1->Arr_0.filter(|t: JsonV| spec_entry_kept(t, field, disabled)),
                            ),
                        )
                    } else {
                        pairs[i]
                    },
            ),
        ),
        _ => result,
    }
}

/// Helper statement of the filtering law: if the filtered listing is an
/// object whose pair `i` is named `key` and holds an array, then entry `j`
/// of that array is kept by the filtering rule.
pub open spec fn spec_filtered_entry_kept(
    filtered: JsonV,
    key: Seq<char>,
    field: Seq<char>,
    disabled: Seq<Seq<char>>,
    i: int,
    j: int,
) -> bool {
    ({
        &&& filtered is Obj
        &&& 0 <= i < filtered->Obj_0.len()
        &&& filtered->Obj_0[i].0 == key
        &&& filtered->Obj_0[i].1 is Arr
        &&& 0 <= j < filtered->Obj_0[i].1->Arr_0.len()
    }) ==> {
        &&& spec_entry_kept(filtered->Obj_0[i].1->Arr_0[j], field, disabled)
        &&& (filtered->Obj_0[i].1->Arr_0[j].get(field) matches Option::Some(JsonV::Str(n))
            ==> !disabled.contains(n))
    }
}

/// No disabled entry survives filtering: every array under `key` in the
/// filtered listing holds only entries whose `field` is off the disabled
/// list. With `key` the tools array and `field` the tool name this is the
/// disabled-tool guarantee; with the resources array and the URI it is the
/// disabled-resource guarantee.
pub proof fn lemma_no_disabled_in_filtered(
    result: JsonV,
    key: Seq<char>,
    field: Seq<char>,
    disabled: Seq<Seq<char>>,
)
    ensures
        forall|i: int, j: int|
            spec_filtered_entry_kept(
                spec_filter_listing(result, key, field, disabled),
                key,
                field,
                disabled,
                i,
                j,
            ),
{
    broadcast use vstd::seq_lib::group_filter_ensures;

    let filtered = spec_filter_listing(result, key, field, disabled);
    if result is Obj {
        let pairs = result->Obj_0;
        let fpairs = filtered->Obj_0;
        assert forall|i: int, j: int|
            spec_filtered_entry_kept(filtered, key, field, disabled, i, j) by {
            if fpairs.len() > 0 && 0 <= i < fpairs.len() && fpairs[i].0 == key && fpairs[i].1 is Arr {
                let items = fpairs[i].1->Arr_0;
                if 0 <= j < items.len() {
                    if pairs[i].0 == key && pairs[i].1 is Arr {
                        let orig = pairs[i].1->Arr_0;
                        let pred = |t: JsonV| spec_entry_kept(t, field, disabled);
                        assert(items == orig.filter(pred));
                        orig.lemma_filter_pred(pred, j);
                        assert(spec_entry_kept(items[j], field, disabled));
                    }
                }
            }
        }
    }
}

fn entry_kept(t: &JsonValue, field: &str, disabled: &Vec<String>) -> (r: bool)
    ensures
        r == spec_entry_kept(t@, field@, disabled.deep_view()),
{
    match t.get(field) {
        Option::Some(v) => match v {
            JsonValue::Str(n) => !crate::strutil::vec_contains_str(disabled, n.as_str()),
            _ => true,
        },
        Option::None => true,
    }
}

fn filter_pair(p0: &String, p1: &JsonValue, key: &str, field: &str, disabled: &Vec<String>) -> (r:
    (String, JsonValue))
    ensures
        r.0@ == p0@,
        r.1@ == (if p0@ == key@ && p1@ is Arr {
            JsonV::Arr(
                p1@->Arr_0.filter(|t: JsonV| spec_entry_kept(t, field@, disabled.deep_view())),
            )
        } else {
            p1@
        }),
{
    let ghost dis_v = disabled.deep_view();
    if crate::strutil::str_eq(p0.as_str(), key) {
        match p1 {
            JsonValue::Array(items) => {
                let ghost items_v = arr_view(items@);
                let ghost pred = |t: JsonV| spec_entry_kept(t, field@, dis_v);
                let m = items.len();
                let mut kept: Vec<JsonValue> = Vec::new();
                let mut j: usize = 0;
                while j < m
                    invariant
                        m == items@.len(),
                        j <= m,
                        items_v == arr_view(items@),
                        dis_v == disabled.deep_view(),
                        pred == (|t: JsonV| spec_entry_kept(t, field@, dis_v)),
                        arr_view(kept@) == items_v.take(j as int).filter(pred),
                    decreases m - j,
                {
                    let ghost pre = arr_view(kept@);
                    let ghost prefix = items_v.take(j as int);
                    let ghost prefix1 = items_v.take(j as int + 1);
                    proof {
                        assert(prefix1.drop_last() =~= prefix);
                        assert(prefix1.last() == items_v[j as int]);
                        assert(items_v[j as int] == items@[j as int]@);
                        reveal_with_fuel(Seq::filter, 2);
                    }
                    if entry_kept(&items[j], field, disabled) {
                        kept.push(items[j].duplicate());
                        proof {
                            assert(arr_view(kept@) =~= pre.push(items_v[j as int]));
                            assert(arr_view(kept@) =~= prefix1.filter(pred));
                        }
                    } else {
                        proof {
                            assert(arr_view(kept@) =~= prefix1.filter(pred));
                        }
                    }
                    j = j + 1;
                }
                proof {
                    assert(items_v.take(m as int) =~= items_v);
                }
                return (p0.clone(), JsonValue::Array(kept));
            },
            _ => {},
        }
    }
    (p0.clone(), p1.duplicate())
}

/// Removes the disabled entries from a listing result.
pub fn filter_listing(
    result: JsonValue,
    key: &str,
    field: &str,
    disabled: &Vec<String>,
) -> (r: JsonValue)
    ensures
        r@ == spec_filter_listing(result@, key@, field@, disabled.deep_view()),
{
    let ghost result_v = result@;
    let ghost dis_v = disabled.deep_view();
    match result {
        JsonValue::Object(pairs) => {
            let ghost target = spec_filter_listing(result_v, key@, field@, dis_v)->Obj_0;
            let n = pairs.len();
            let mut out: Vec<(String, JsonValue)> = Vec::new();
            let mut i: usize = 0;
            while i < n
                invariant
                    n == pairs@.len(),
                    i <= n,
                    result_v == JsonV::Obj(pairs_view(pairs@)),
                    target == spec_filter_listing(result_v, key@, field@, dis_v)->Obj_0,
                    dis_v == disabled.deep_view(),
                    target.len() == n,
                    out@.len() == i,
                    forall|k: int| 0 <= k < i ==> #[trigger] pairs_view(out@)[k] == target[k],
                decreases n - i,
            {
                let ghost pre_out = out@;
                let p = &pairs[i];
                let q = filter_pair(&p.0, &p.1, key, field, disabled);
                out.push(q);
                proof {
                    assert(pairs_view(pairs@)[i as int] == (p.0@, p.1@));
                    assert(pairs_view(out@)[i as int] == (q.0@, q.1@));
                    assert(target[i as int] == (q.0@, q.1@));
                    assert forall|k: int| 0 <= k < i + 1 implies #[trigger] pairs_view(out@)[k]
                        == target[k] by {
                        if k < i {
                            assert(out@[k] == pre_out[k]);
                            assert(pairs_view(out@)[k] == (out@[k].0@, crate::json::json_value_view(
                                out@[k].1,
                            )));
                            assert(pairs_view(pre_out)[k] == (pre_out[k].0@,
                            crate::json::json_value_view(pre_out[k].1)));
                        }
                    }
                }
                i = i + 1;
            }
            let r = JsonValue::Object(out);
            proof {
                assert(pairs_view(r->Object_0@) =~= target);
            }
            r
        },
        other => other,
    }
}


/// Mathematical form of [`DispatchOutcome`].
pub enum DispatchOutcomeV {
    Result(JsonV),
    MethodNotFound,
    Failed(Seq<char>),
}

/// What came of dispatching one planned call.
pub enum DispatchOutcome {
    /// The backend answered with this result document.
    Result(JsonValue),
    /// The method is off the whitelist; no backend call was made.
    MethodNotFound,
    /// The call failed, with this message: the backend is not connected, the
    /// transport dropped, or the backend returned an error.
    Failed(String),
}

impl View for DispatchOutcome {
    type V = DispatchOutcomeV;

    open spec fn view(&self) -> DispatchOutcomeV {
        match self {
            DispatchOutcome::Result(v) => DispatchOutcomeV::Result(v@),
            DispatchOutcome::MethodNotFound => DispatchOutcomeV::MethodNotFound,
            DispatchOutcome::Failed(m) => DispatchOutcomeV::Failed(m@),
        }
    }
}

impl DeepView for DispatchOutcome {
    type V = DispatchOutcomeV;

    open spec fn deep_view(&self) -> DispatchOutcomeV {
        self.view()
    }
}

/// The message of a method-not-found error.
pub open spec fn msg_method_not_found(method: Seq<char>) -> Seq<char> {
    "Method not found: "@ + method
}

/// The response element for a dispatched call: a success envelope around the
/// (possibly filtered) result, a `-32601` error for an unknown method, or a
/// `-32000` error for every other failure. Only `tools/list` results have
/// their tools filtered by name, only `resources/list` results have their
/// resources filtered by URI; the caches are never touched.
pub open spec fn spec_wrap(
    method: Seq<char>,
    id: JsonV,
    outcome: DispatchOutcomeV,
    disabled_tools: Seq<Seq<char>>,
    disabled_resources: Seq<Seq<char>>,
) -> JsonV {
    match outcome {
        DispatchOutcomeV::Result(res) => {
            let filtered = if method == "tools/list"@ {
                spec_filter_listing(res, "tools"@, "name"@, disabled_tools)
            } else if method == "resources/list"@ {
                spec_filter_listing(res, "resources"@, "uri"@, disabled_resources)
            } else {
                res
            };
            spec_success_response(id, filtered)
        },
        DispatchOutcomeV::MethodNotFound => spec_error_response(
            id,
            -32601i64,
            msg_method_not_found(method),
        ),
        DispatchOutcomeV::Failed(m) => spec_error_response(id, -32000i64, m),
    }
}

/// Wraps a dispatch outcome into the response element for `id`.
pub fn wrap_response(
    method: &str,
    id: JsonValue,
    outcome: DispatchOutcome,
    disabled_tools: &Vec<String>,
    disabled_resources: &Vec<String>,
) -> (r: JsonValue)
    ensures
        r@ == spec_wrap(
            method@,
            id@,
            outcome@,
            disabled_tools.deep_view(),
            disabled_resources.deep_view(),
        ),
{
    match outcome {
        DispatchOutcome::Result(res) => {
            let filtered = if crate::strutil::str_eq(method, "tools/list") {
                filter_listing(res, "tools", "name", disabled_tools)
            } else if crate::strutil::str_eq(method, "resources/list") {
                filter_listing(res, "resources", "uri", disabled_resources)
            } else {
                res
            };
            success_response(id, filtered)
        },
        DispatchOutcome::MethodNotFound => {
            let mut m = "Method not found: ".to_owned();
            m.append(method);
            proof {
                assert(m@ =~= msg_method_not_found(method@));
            }
            error_response(id, -32601, m)
        },
        DispatchOutcome::Failed(m) => error_response(id, -32000, m),
    }
}

/// How many elements of a batch are forwarded calls.
pub open spec fn spec_calls_count(reqs: Seq<JsonV>) -> nat
    decreases reqs.len(),
{
    if reqs.len() == 0 {
        0
    } else {
        (if spec_plan(reqs[0]) is Call {
            1nat
        } else {
            0nat
        }) + spec_calls_count(reqs.drop_first())
    }
}

/// How many elements of a batch produce a response element: the forwarded
/// calls, the `initialize` requests, and the invalid id-carrying elements.
pub open spec fn spec_respond_count(reqs: Seq<JsonV>) -> nat
    decreases reqs.len(),
{
    if reqs.len() == 0 {
        0
    } else {
        (if spec_plan(reqs[0]) is Call || spec_plan(reqs[0]) is Initialize || spec_plan(
            reqs[0],
        ) is Invalid {
            1nat
        } else {
            0nat
        }) + spec_respond_count(reqs.drop_first())
    }
}

/// How many elements of a batch carry an `id` field.
pub open spec fn spec_id_count(reqs: Seq<JsonV>) -> nat
    decreases reqs.len(),
{
    if reqs.len() == 0 {
        0
    } else {
        (if reqs[0].get("id"@) is Some {
            1nat
        } else {
            0nat
        }) + spec_id_count(reqs.drop_first())
    }
}

/// The response array of a batch: one element per responding request, in
/// request order, with the forwarded calls consuming the dispatch outcomes
/// in order. Notifications contribute nothing; an id-carrying element
/// without a string method contributes an invalid-request error.
pub open spec fn spec_batch_responses(
    reqs: Seq<JsonV>,
    outs: Seq<DispatchOutcomeV>,
    disabled_tools: Seq<Seq<char>>,
    disabled_resources: Seq<Seq<char>>,
) -> Seq<JsonV>
    decreases reqs.len(),
{
    if reqs.len() == 0 {
        Seq::empty()
    } else {
        match spec_plan(reqs[0]) {
            RpcActionV::Initialize { id } => seq![
                spec_success_response(id, spec_initialize_result()),
            ] + spec_batch_responses(reqs.drop_first(), outs, disabled_tools, disabled_resources),
            RpcActionV::Invalid { id } => seq![
                spec_error_response(id, -32600i64, msg_invalid_request()),
            ] + spec_batch_responses(reqs.drop_first(), outs, disabled_tools, disabled_resources),
            RpcActionV::Call { method, params, id } => if outs.len() > 0 {
                seq![spec_wrap(method, id, outs[0], disabled_tools, disabled_resources)]
                    + spec_batch_responses(
                    reqs.drop_first(),
                    outs.drop_first(),
                    disabled_tools,
                    disabled_resources,
                )
            } else {
                spec_batch_responses(reqs.drop_first(), outs, disabled_tools, disabled_resources)
            },
            _ => spec_batch_responses(reqs.drop_first(), outs, disabled_tools, disabled_resources),
        }
    }
}

/// A batch produces exactly one response element per responding request:
/// given one outcome per forwarded call, the response array is as long as
/// the count of `initialize` and forwarded-call elements.
pub proof fn lemma_batch_length(
    reqs: Seq<JsonV>,
    outs: Seq<DispatchOutcomeV>,
    disabled_tools: Seq<Seq<char>>,
    disabled_resources: Seq<Seq<char>>,
)
    requires
        outs.len() == spec_calls_count(reqs),
    ensures
        spec_batch_responses(reqs, outs, disabled_tools, disabled_resources).len()
            == spec_respond_count(reqs),
    decreases reqs.len(),
{
    if reqs.len() > 0 {
        match spec_plan(reqs[0]) {
            RpcActionV::Call { .. } => {
                lemma_batch_length(
                    reqs.drop_first(),
                    outs.drop_first(),
                    disabled_tools,
                    disabled_resources,
                );
            },
            _ => {
                lemma_batch_length(reqs.drop_first(), outs, disabled_tools, disabled_resources);
            },
        }
    }
}

/// The responding elements of a batch are exactly the id-carrying ones:
/// given one outcome per forwarded call, the response array is as long as
/// the count of elements with an `id`, for every batch.
pub proof fn lemma_batch_length_id_carrying(
    reqs: Seq<JsonV>,
    outs: Seq<DispatchOutcomeV>,
    disabled_tools: Seq<Seq<char>>,
    disabled_resources: Seq<Seq<char>>,
)
    requires
        outs.len() == spec_calls_count(reqs),
    ensures
        spec_batch_responses(reqs, outs, disabled_tools, disabled_resources).len()
            == spec_id_count(reqs),
    decreases reqs.len(),
{
    lemma_batch_length(reqs, outs, disabled_tools, disabled_resources);
    lemma_respond_count_is_id_count(reqs);
}

proof fn lemma_respond_count_is_id_count(reqs: Seq<JsonV>)
    ensures
        spec_respond_count(reqs) == spec_id_count(reqs),
    decreases reqs.len(),
{
    if reqs.len() > 0 {
        lemma_respond_count_is_id_count(reqs.drop_first());
    }
}

/// Assembles the response array of a batch from the requests and the
/// outcomes of the forwarded calls, one outcome per call, in order.
pub fn batch_responses(
    reqs: &Vec<JsonValue>,
    outcomes: Vec<DispatchOutcome>,
    disabled_tools: &Vec<String>,
    disabled_resources: &Vec<String>,
) -> (r: Vec<JsonValue>)
    requires
        outcomes.deep_view().len() == spec_calls_count(arr_view(reqs@)),
    ensures
        arr_view(r@) == spec_batch_responses(
            arr_view(reqs@),
            outcomes.deep_view(),
            disabled_tools.deep_view(),
            disabled_resources.deep_view(),
        ),
{
    let ghost rv = arr_view(reqs@);
    let ghost ov = outcomes.deep_view();
    let ghost dtv = disabled_tools.deep_view();
    let ghost drv = disabled_resources.deep_view();
    let mut outs = outcomes;
    let mut r: Vec<JsonValue> = Vec::new();
    let n = reqs.len();
    let mut i: usize = 0;
    proof {
        assert(rv.skip(0) =~= rv);
        assert(outs.deep_view() =~= ov);
        assert(arr_view(r@) =~= Seq::<JsonV>::empty());
        assert(arr_view(r@) + spec_batch_responses(rv, ov, dtv, drv) =~= spec_batch_responses(
            rv,
            ov,
            dtv,
            drv,
        ));
    }
    while i < n
        invariant
            n == reqs@.len(),
            i <= n,
            rv == arr_view(reqs@),
            dtv == disabled_tools.deep_view(),
            drv == disabled_resources.deep_view(),
            outs.deep_view().len() == spec_calls_count(rv.skip(i as int)),
            arr_view(r@) + spec_batch_responses(rv.skip(i as int), outs.deep_view(), dtv, drv)
                == spec_batch_responses(rv, ov, dtv, drv),
        decreases n - i,
    {
        let ghost rest = rv.skip(i as int);
        let ghost pre_r = arr_view(r@);
        let ghost pre_outs = outs.deep_view();
        proof {
            assert(rest[0] == reqs@[i as int]@);
            assert(rest.drop_first() =~= rv.skip(i as int + 1));
        }
        match plan_request(&reqs[i]) {
            RpcAction::Ignore => {
            },
            RpcAction::Notify { method: _, params: _ } => {
            },
            RpcAction::Invalid { id } => {
                let resp = invalid_request_response(id);
                r.push(resp);
                proof {
                    assert(arr_view(r@) =~= pre_r.push(r@.last()@));
                    assert(arr_view(r@) + spec_batch_responses(
                        rv.skip(i as int + 1),
                        outs.deep_view(),
                        dtv,
                        drv,
                    ) =~= spec_batch_responses(rv, ov, dtv, drv));
                }
            },
            RpcAction::Initialize { id } => {
                let resp = initialize_response(id);
                r.push(resp);
                proof {
                    assert(arr_view(r@) =~= pre_r.push(r@.last()@));
                    assert(arr_view(r@) + spec_batch_responses(
                        rv.skip(i as int + 1),
                        outs.deep_view(),
                        dtv,
                        drv,
                    ) =~= spec_batch_responses(rv, ov, dtv, drv));
                }
            },
            RpcAction::Call { method, params: _, id } => {
                proof {
                    assert(spec_calls_count(rest) == 1 + spec_calls_count(rest.drop_first()));
                    assert(pre_outs.len() > 0);
                }
                let out = outs.remove(0);
                proof {
                    assert(out@ == pre_outs[0]);
                    assert(outs.deep_view() =~= pre_outs.drop_first());
                }
                let resp = wrap_response(
                    method.as_str(),
                    id,
                    out,
                    disabled_tools,
                    disabled_resources,
                );
                r.push(resp);
                proof {
                    assert(arr_view(r@) =~= pre_r.push(r@.last()@));
                    assert(arr_view(r@) + spec_batch_responses(
                        rv.skip(i as int + 1),
                        outs.deep_view(),
                        dtv,
                        drv,
                    ) =~= spec_batch_responses(rv, ov, dtv, drv));
                }
            },
        }
        proof {
            if spec_plan(rest[0]) is Ignore || spec_plan(rest[0]) is Notify {
                assert(arr_view(r@) + spec_batch_responses(
                    rv.skip(i as int + 1),
                    outs.deep_view(),
                    dtv,
                    drv,
                ) =~= spec_batch_responses(rv, ov, dtv, drv));
            }
        }
        i = i + 1;
    }
    proof {
        assert(rv.skip(n as int) =~= Seq::<JsonV>::empty());
        assert(arr_view(r@) =~= spec_batch_responses(rv, ov, dtv, drv));
    }
    r
}

/// HTTP status of `GET /mcp/:id`: 404 for an unknown backend, 503 when it is
/// not connected, and otherwise 405 because server-initiated notifications
/// are not proxied.
pub fn stream_get_status(known: bool, state: ConnectionState) -> (r: u16)
    ensures
        r == (if !known {
            404u16
        } else if state != ConnectionState::Connected {
            503u16
        } else {
            405u16
        }),
{
    if !known {
        404
    } else if state != ConnectionState::Connected {
        503
    } else {
        405
    }
}

/// HTTP status of `DELETE /mcp/:id`: the teardown is acknowledged with 200
/// for a known backend and 404 otherwise; the backend itself is untouched.
pub fn delete_status(known: bool) -> (r: u16)
    ensures
        r == (if known {
            200u16
        } else {
            404u16
        }),
{
    if known {
        200
    } else {
        404
    }
}

/// HTTP status of `POST /mcp/:id` once the response elements are known:
/// 202 with an empty body when nothing responds (a lone notification, or a
/// batch of nothing but notifications), 200 with the JSON body otherwise.
pub fn post_status(response_count: usize) -> (r: u16)
    ensures
        r == (if response_count == 0 {
            202u16
        } else {
            200u16
        }),
{
    if response_count == 0 {
        202
    } else {
        200
    }
}

/// How many statuses of the list are connected.
pub open spec fn spec_connected_count(statuses: Seq<crate::types::McpStatusV>) -> nat {
    statuses.filter(|s: crate::types::McpStatusV| s.state == ConnectionState::Connected).len()
}

/// Counts the connected backends in a status list.
pub fn count_connected(statuses: &Vec<crate::types::McpStatus>) -> (r: usize)
    ensures
        r == spec_connected_count(statuses.deep_view()),
{
    broadcast use vstd::seq_lib::group_filter_ensures;

    let ghost sv = statuses.deep_view();
    let ghost pred = |s: crate::types::McpStatusV| s.state == ConnectionState::Connected;
    let n = statuses.len();
    let mut count: usize = 0;
    let mut i: usize = 0;
    while i < n
        invariant
            n == statuses@.len(),
            i <= n,
            sv == statuses.deep_view(),
            pred == (|s: crate::types::McpStatusV| s.state == ConnectionState::Connected),
            count == sv.take(i as int).filter(pred).len(),
            count <= i,
        decreases n - i,
    {
        let ghost prefix = sv.take(i as int);
        let ghost prefix1 = sv.take(i as int + 1);
        proof {
            assert(prefix1.drop_last() =~= prefix);
            assert(prefix1.last() == sv[i as int]);
            assert(sv[i as int] == statuses@[i as int]@);
            reveal_with_fuel(Seq::filter, 2);
            prefix.lemma_filter_len(pred);
        }
        if statuses[i].state == ConnectionState::Connected {
            count = count + 1;
        }
        i = i + 1;
    }
    proof {
        assert(sv.take(n as int) =~= sv);
    }
    count
}

/// The body of `GET /health`.
pub open spec fn spec_health_payload(total: u64, connected: u64, timestamp: Seq<char>) -> JsonV {
    JsonV::Obj(
        seq![
            ("status"@, JsonV::Str("ok"@)),
            ("total_mcps"@, JsonV::UInt(total)),
            ("connected_mcps"@, JsonV::UInt(connected)),
            ("timestamp"@, JsonV::Str(timestamp)),
        ],
    )
}

/// Builds the body of `GET /health`.
pub fn health_payload(total: u64, connected: u64, timestamp: String) -> (r: JsonValue)
    ensures
        r@ == spec_health_payload(total, connected, timestamp@),
{
    let ghost ts = timestamp@;
    let pairs: Vec<(String, JsonValue)> = vec![
        ("status".to_owned(), JsonValue::Str("ok".to_owned())),
        ("total_mcps".to_owned(), JsonValue::UInt(total)),
        ("connected_mcps".to_owned(), JsonValue::UInt(connected)),
        ("timestamp".to_owned(), JsonValue::Str(timestamp)),
    ];
    let r = JsonValue::Object(pairs);
    proof {
        assert(pairs_view(r->Object_0@) =~= spec_health_payload(total, connected, ts)->Obj_0);
    }
    r
}

/// The cached tools with the disabled ones removed, for `GET /mcp/:id/tools`.
pub fn filter_tools(tools: Vec<crate::types::Tool>, disabled: &Vec<String>) -> (r: Vec<
    crate::types::Tool,
>)
    ensures
        r.deep_view() == tools.deep_view().filter(
            |t: crate::types::ToolV| !disabled.deep_view().contains(t.name),
        ),
{
    let ghost tv = tools.deep_view();
    let ghost dv = disabled.deep_view();
    let ghost pred = |t: crate::types::ToolV| !dv.contains(t.name);
    let n = tools.len();
    let mut out: Vec<crate::types::Tool> = Vec::new();
    let mut i: usize = 0;
    while i < n
        invariant
            n == tools@.len(),
            i <= n,
            tv == tools.deep_view(),
            dv == disabled.deep_view(),
            pred == (|t: crate::types::ToolV| !dv.contains(t.name)),
            out.deep_view() == tv.take(i as int).filter(pred),
        decreases n - i,
    {
        let ghost pre = out.deep_view();
        let ghost prefix = tv.take(i as int);
        let ghost prefix1 = tv.take(i as int + 1);
        proof {
            assert(prefix1.drop_last() =~= prefix);
            assert(prefix1.last() == tv[i as int]);
            assert(tv[i as int] == tools@[i as int]@);
            reveal_with_fuel(Seq::filter, 2);
        }
        if !crate::strutil::vec_contains_str(disabled, tools[i].name.as_str()) {
            out.push(tools[i].duplicate());
            proof {
                assert(out.deep_view() =~= pre.push(tv[i as int]));
                assert(out.deep_view() =~= prefix1.filter(pred));
            }
        } else {
            proof {
                assert(out.deep_view() =~= prefix1.filter(pred));
            }
        }
        i = i + 1;
    }
    proof {
        assert(tv.take(n as int) =~= tv);
    }
    out
}

/// The cached resources with the disabled ones removed, for
/// `GET /mcp/:id/resources`.
pub fn filter_resources(resources: Vec<crate::types::Resource>, disabled: &Vec<String>) -> (r: Vec<
    crate::types::Resource,
>)
    ensures
        r.deep_view() == resources.deep_view().filter(
            |t: crate::types::ResourceV| !disabled.deep_view().contains(t.uri),
        ),
{
    let ghost tv = resources.deep_view();
    let ghost dv = disabled.deep_view();
    let ghost pred = |t: crate::types::ResourceV| !dv.contains(t.uri);
    let n = resources.len();
    let mut out: Vec<crate::types::Resource> = Vec::new();
    let mut i: usize = 0;
    while i < n
        invariant
            n == resources@.len(),
            i <= n,
            tv == resources.deep_view(),
            dv == disabled.deep_view(),
            pred == (|t: crate::types::ResourceV| !dv.contains(t.uri)),
            out.deep_view() == tv.take(i as int).filter(pred),
        decreases n - i,
    {
        let ghost pre = out.deep_view();
        let ghost prefix = tv.take(i as int);
        let ghost prefix1 = tv.take(i as int + 1);
        proof {
            assert(prefix1.drop_last() =~= prefix);
            assert(prefix1.last() == tv[i as int]);
            assert(tv[i as int] == resources@[i as int]@);
            reveal_with_fuel(Seq::filter, 2);
        }
        if !crate::strutil::vec_contains_str(disabled, resources[i].uri.as_str()) {
            out.push(resources[i].duplicate());
            proof {
                assert(out.deep_view() =~= pre.push(tv[i as int]));
                assert(out.deep_view() =~= prefix1.filter(pred));
            }
        } else {
            proof {
                assert(out.deep_view() =~= prefix1.filter(pred));
            }
        }
        i = i + 1;
    }
    proof {
        assert(tv.take(n as int) =~= tv);
    }
    out
}

} // verus!
