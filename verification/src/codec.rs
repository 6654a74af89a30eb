//! The JSON shape of the persisted configuration: encoding an `AppConfig`
//! into the document that is written to disk, decoding a document read from
//! disk, and the round-trip law tying the two together. Reading and writing
//! the file, and turning the document into bytes, happen outside the library.
//!
//! Decoding tolerates unknown fields (lookups simply pass over them) and
//! populates defaults for missing ones; encoding writes every field out,
//! with `null` for the absent optional ones.

use vstd::prelude::*;
use crate::json::{JsonV, JsonValue};
use crate::types::{AppConfigV, McpServerConfigV, TransportType};

verus! {

/// The JSON text of a transport kind.
pub open spec fn spec_transport_name(t: TransportType) -> Seq<char> {
    match t {
        TransportType::Stdio => "stdio"@,
        TransportType::Sse => "sse"@,
        TransportType::StreamableHttp => "streamable_http"@,
    }
}

/// An optional string as JSON: the string, or null.
pub open spec fn spec_opt_string_json(o: Option<Seq<char>>) -> JsonV {
    match o {
        Option::Some(s) => JsonV::Str(s),
        Option::None => JsonV::Null,
    }
}

/// A string list as a JSON array.
pub open spec fn spec_str_arr_json(v: Seq<Seq<char>>) -> JsonV {
    JsonV::Arr(Seq::new(v.len(), |i: int| JsonV::Str(v[i])))
}

/// An optional string list as JSON: the array, or null.
pub open spec fn spec_opt_str_arr_json(o: Option<Seq<Seq<char>>>) -> JsonV {
    match o {
        Option::Some(v) => spec_str_arr_json(v),
        Option::None => JsonV::Null,
    }
}

/// A string-to-string table as a JSON object, in table order.
pub open spec fn spec_pairs_json(v: Seq<(Seq<char>, Seq<char>)>) -> JsonV {
    JsonV::Obj(Seq::new(v.len(), |i: int| (v[i].0, JsonV::Str(v[i].1))))
}

/// An optional table as JSON: the object, or null.
pub open spec fn spec_opt_pairs_json(o: Option<Seq<(Seq<char>, Seq<char>)>>) -> JsonV {
    match o {
        Option::Some(v) => spec_pairs_json(v),
        Option::None => JsonV::Null,
    }
}

/// The JSON document of one backend entry.
pub open spec fn spec_mcp_to_json(m: McpServerConfigV) -> JsonV {
    JsonV::Obj(
        seq![
            ("id"@, JsonV::Str(m.id)),
            ("name"@, JsonV::Str(m.name)),
            ("transport_type"@, JsonV::Str(spec_transport_name(m.transport_type))),
            ("command"@, spec_opt_string_json(m.command)),
            ("args"@, spec_opt_str_arr_json(m.args)),
            ("url"@, spec_opt_string_json(m.url)),
            ("env"@, spec_opt_pairs_json(m.env)),
            ("headers"@, spec_opt_pairs_json(m.headers)),
            ("enabled"@, JsonV::Bool(m.enabled)),
            ("disabled_tools"@, spec_str_arr_json(m.disabled_tools)),
            ("disabled_resources"@, spec_str_arr_json(m.disabled_resources)),
        ],
    )
}

/// The JSON document of the whole configuration.
pub open spec fn spec_config_to_json(c: AppConfigV) -> JsonV {
    JsonV::Obj(
        seq![
            ("proxy_port"@, JsonV::UInt(c.proxy_port as u64)),
            ("health_check_interval_secs"@, JsonV::UInt(c.health_check_interval_secs)),
            ("auto_reconnect"@, JsonV::Bool(c.auto_reconnect)),
            ("max_reconnect_attempts"@, JsonV::UInt(c.max_reconnect_attempts as u64)),
            ("connection_timeout_secs"@, JsonV::UInt(c.connection_timeout_secs)),
            ("mcps"@, JsonV::Arr(Seq::new(c.mcps.len(), |i: int| spec_mcp_to_json(c.mcps[i])))),
        ],
    )
}

/// A JSON number read as a `u64`: a non-negative integer.
pub open spec fn spec_dec_u64(j: JsonV) -> Option<u64> {
    match j {
        JsonV::UInt(u) => Option::Some(u),
        JsonV::Int(i) => if i >= 0 {
            Option::Some(i as u64)
        } else {
            Option::None
        },
        _ => Option::None,
    }
}

/// A required string field: present and a string, or the decode fails.
pub open spec fn spec_field_string(j: JsonV, key: Seq<char>) -> Option<Seq<char>> {
    match j.get(key) {
        Option::Some(JsonV::Str(s)) => Option::Some(s),
        _ => Option::None,
    }
}

/// An optional string field: absent and null mean none; a string is kept;
/// anything else fails. The result is doubled: the outer option is the
/// decode outcome, the inner one the value.
pub open spec fn spec_field_opt_string(j: JsonV, key: Seq<char>) -> Option<Option<Seq<char>>> {
    match j.get(key) {
        Option::None => Option::Some(Option::None),
        Option::Some(JsonV::Null) => Option::Some(Option::None),
        Option::Some(JsonV::Str(s)) => Option::Some(Option::Some(s)),
        _ => Option::None,
    }
}

/// The strings of a JSON array element list; fails on anything that is not
/// a string.
pub open spec fn spec_dec_str_elems(es: Seq<JsonV>) -> Option<Seq<Seq<char>>>
    decreases es.len(),
{
    if es.len() == 0 {
        Option::Some(Seq::empty())
    } else {
        match es[0] {
            JsonV::Str(s) => match spec_dec_str_elems(es.drop_first()) {
                Option::Some(rest) => Option::Some(seq![s] + rest),
                Option::None => Option::None,
            },
            _ => Option::None,
        }
    }
}

/// The string pairs of a JSON object pair list; fails on a value that is
/// not a string.
pub open spec fn spec_dec_pair_elems(ps: Seq<(Seq<char>, JsonV)>) -> Option<
    Seq<(Seq<char>, Seq<char>)>,
>
    decreases ps.len(),
{
    if ps.len() == 0 {
        Option::Some(Seq::empty())
    } else {
        match ps[0].1 {
            JsonV::Str(s) => match spec_dec_pair_elems(ps.drop_first()) {
                Option::Some(rest) => Option::Some(seq![(ps[0].0, s)] + rest),
                Option::None => Option::None,
            },
            _ => Option::None,
        }
    }
}

/// An optional string-list field: absent and null mean none; an array of
/// strings is kept; anything else fails.
pub open spec fn spec_field_opt_str_arr(j: JsonV, key: Seq<char>) -> Option<
    Option<Seq<Seq<char>>>,
> {
    match j.get(key) {
        Option::None => Option::Some(Option::None),
        Option::Some(JsonV::Null) => Option::Some(Option::None),
        Option::Some(JsonV::Arr(es)) => match spec_dec_str_elems(es) {
            Option::Some(v) => Option::Some(Option::Some(v)),
            Option::None => Option::None,
        },
        _ => Option::None,
    }
}

/// An optional table field: absent and null mean none; an object with
/// string values is kept; anything else fails.
pub open spec fn spec_field_opt_pairs(j: JsonV, key: Seq<char>) -> Option<
    Option<Seq<(Seq<char>, Seq<char>)>>,
> {
    match j.get(key) {
        Option::None => Option::Some(Option::None),
        Option::Some(JsonV::Null) => Option::Some(Option::None),
        Option::Some(JsonV::Obj(ps)) => match spec_dec_pair_elems(ps) {
            Option::Some(v) => Option::Some(Option::Some(v)),
            Option::None => Option::None,
        },
        _ => Option::None,
    }
}

/// A defaulted string-list field: absent means empty; an array of strings
/// is kept; anything else fails.
pub open spec fn spec_field_str_arr_default(j: JsonV, key: Seq<char>) -> Option<Seq<Seq<char>>> {
    match j.get(key) {
        Option::None => Option::Some(Seq::empty()),
        Option::Some(JsonV::Arr(es)) => spec_dec_str_elems(es),
        _ => Option::None,
    }
}

/// A defaulted boolean field: absent means the default; a boolean is kept;
/// anything else fails.
pub open spec fn spec_field_bool_default(j: JsonV, key: Seq<char>, d: bool) -> Option<bool> {
    match j.get(key) {
        Option::None => Option::Some(d),
        Option::Some(JsonV::Bool(b)) => Option::Some(b),
        _ => Option::None,
    }
}

/// A defaulted `u64` field: absent means the default; a non-negative
/// integer is kept; anything else fails.
pub open spec fn spec_field_u64_default(j: JsonV, key: Seq<char>, d: u64) -> Option<u64> {
    match j.get(key) {
        Option::None => Option::Some(d),
        Option::Some(n) => spec_dec_u64(n),
    }
}

/// The transport kind a JSON value denotes.
pub open spec fn spec_dec_transport(j: JsonV) -> Option<TransportType> {
    match j {
        JsonV::Str(s) => if s == "stdio"@ {
            Option::Some(TransportType::Stdio)
        } else if s == "sse"@ {
            Option::Some(TransportType::Sse)
        } else if s == "streamable_http"@ {
            Option::Some(TransportType::StreamableHttp)
        } else {
            Option::None
        },
        _ => Option::None,
    }
}

/// The backend entry a JSON document denotes, when the document is an
/// object with usable fields.
pub open spec fn spec_mcp_from_json(j: JsonV) -> Option<McpServerConfigV> {
    if !(j is Obj) {
        Option::None
    } else {
        match (
            spec_field_string(j, "id"@),
            spec_field_string(j, "name"@),
            match j.get("transport_type"@) {
                Option::Some(t) => spec_dec_transport(t),
                Option::None => Option::None,
            },
            spec_field_opt_string(j, "command"@),
            spec_field_opt_str_arr(j, "args"@),
            spec_field_opt_string(j, "url"@),
            spec_field_opt_pairs(j, "env"@),
            spec_field_opt_pairs(j, "headers"@),
            spec_field_bool_default(j, "enabled"@, true),
            spec_field_str_arr_default(j, "disabled_tools"@),
            spec_field_str_arr_default(j, "disabled_resources"@),
        ) {
            (
                Option::Some(id),
                Option::Some(name),
                Option::Some(transport_type),
                Option::Some(command),
                Option::Some(args),
                Option::Some(url),
                Option::Some(env),
                Option::Some(headers),
                Option::Some(enabled),
                Option::Some(disabled_tools),
                Option::Some(disabled_resources),
            ) => Option::Some(
                McpServerConfigV {
                    id,
                    name,
                    transport_type,
                    command,
                    args,
                    url,
                    env,
                    headers,
                    enabled,
                    disabled_tools,
                    disabled_resources,
                },
            ),
            _ => Option::None,
        }
    }
}

/// The backend entries a JSON element list denotes; fails when any element
/// fails.
pub open spec fn spec_dec_mcp_elems(es: Seq<JsonV>) -> Option<Seq<McpServerConfigV>>
    decreases es.len(),
{
    if es.len() == 0 {
        Option::Some(Seq::empty())
    } else {
        match spec_mcp_from_json(es[0]) {
            Option::Some(m) => match spec_dec_mcp_elems(es.drop_first()) {
                Option::Some(rest) => Option::Some(seq![m] + rest),
                Option::None => Option::None,
            },
            Option::None => Option::None,
        }
    }
}

/// The configuration a JSON document denotes: defaults are populated for
/// missing fields, unknown fields are passed over, wrongly typed fields
/// fail the decode.
pub open spec fn spec_config_from_json(j: JsonV) -> Option<AppConfigV> {
    if !(j is Obj) {
        Option::None
    } else {
        match (
            spec_field_u64_default(j, "proxy_port"@, 3001),
            spec_field_u64_default(j, "health_check_interval_secs"@, 30),
            spec_field_bool_default(j, "auto_reconnect"@, true),
            spec_field_u64_default(j, "max_reconnect_attempts"@, 5),
            spec_field_u64_default(j, "connection_timeout_secs"@, 30),
            match j.get("mcps"@) {
                Option::None => Option::Some(Seq::<McpServerConfigV>::empty()),
                Option::Some(JsonV::Arr(es)) => spec_dec_mcp_elems(es),
                Option::Some(_) => Option::None,
            },
        ) {
            (
                Option::Some(proxy_port),
                Option::Some(health_check_interval_secs),
                Option::Some(auto_reconnect),
                Option::Some(max_reconnect_attempts),
                Option::Some(connection_timeout_secs),
                Option::Some(mcps),
            ) => if proxy_port <= u16::MAX as u64 && max_reconnect_attempts <= u32::MAX as u64 {
                Option::Some(
                    AppConfigV {
                        proxy_port: proxy_port as u16,
                        health_check_interval_secs,
                        auto_reconnect,
                        max_reconnect_attempts: max_reconnect_attempts as u32,
                        connection_timeout_secs,
                        mcps,
                    },
                )
            } else {
                Option::None
            },
            _ => Option::None,
        }
    }
}

proof fn lemma_dec_str_elems_round(v: Seq<Seq<char>>)
    ensures
        spec_dec_str_elems(spec_str_arr_json(v)->Arr_0) == Option::Some(v),
    decreases v.len(),
{
    let es = spec_str_arr_json(v)->Arr_0;
    if v.len() == 0 {
        assert(v =~= Seq::<Seq<char>>::empty());
    } else {
        lemma_dec_str_elems_round(v.drop_first());
        assert(es.drop_first() =~= spec_str_arr_json(v.drop_first())->Arr_0);
        assert(seq![v[0]] + v.drop_first() =~= v);
    }
}

proof fn lemma_dec_pair_elems_round(v: Seq<(Seq<char>, Seq<char>)>)
    ensures
        spec_dec_pair_elems(spec_pairs_json(v)->Obj_0) == Option::Some(v),
    decreases v.len(),
{
    let ps = spec_pairs_json(v)->Obj_0;
    if v.len() == 0 {
        assert(v =~= Seq::<(Seq<char>, Seq<char>)>::empty());
    } else {
        lemma_dec_pair_elems_round(v.drop_first());
        assert(ps.drop_first() =~= spec_pairs_json(v.drop_first())->Obj_0);
        assert(ps[0] == (v[0].0, JsonV::Str(v[0].1)));
        assert(seq![(v[0].0, v[0].1)] + v.drop_first() =~= v);
    }
}

/// Decoding the document of one backend entry gives the entry back.
#[verifier::rlimit(100)]
pub proof fn lemma_mcp_round_trip(m: McpServerConfigV)
    ensures
        spec_mcp_from_json(spec_mcp_to_json(m)) == Option::Some(m),
{
    reveal_strlit("id");
    reveal_strlit("name");
    reveal_strlit("transport_type");
    reveal_strlit("command");
    reveal_strlit("args");
    reveal_strlit("url");
    reveal_strlit("env");
    reveal_strlit("headers");
    reveal_strlit("enabled");
    reveal_strlit("disabled_tools");
    reveal_strlit("disabled_resources");
    reveal_strlit("stdio");
    reveal_strlit("sse");
    reveal_strlit("streamable_http");
    assert(("id"@).len() == 2);
    assert(("name"@).len() == 4);
    assert(("transport_type"@).len() == 14);
    assert(("command"@).len() == 7);
    assert(("args"@).len() == 4);
    assert(("url"@).len() == 3);
    assert(("env"@).len() == 3);
    assert(("headers"@).len() == 7);
    assert(("enabled"@).len() == 7);
    assert(("disabled_tools"@).len() == 14);
    assert(("disabled_resources"@).len() == 18);
    assert(("name"@)[0] == 'n' && ("args"@)[0] == 'a');
    assert(("url"@)[0] == 'u' && ("env"@)[0] == 'e');
    assert(("command"@)[0] == 'c' && ("headers"@)[0] == 'h' && ("enabled"@)[0] == 'e');
    assert(("transport_type"@)[0] == 't' && ("disabled_tools"@)[0] == 'd');
    assert(("stdio"@).len() == 5);
    assert(("sse"@).len() == 3);
    assert(("streamable_http"@).len() == 15);
    let j = spec_mcp_to_json(m);
    let pairs = j->Obj_0;
    assert(pairs.len() == 11);
    crate::json::lemma_obj_get_at(pairs, "id"@, 0);
    crate::json::lemma_obj_get_at(pairs, "name"@, 1);
    crate::json::lemma_obj_get_at(pairs, "transport_type"@, 2);
    crate::json::lemma_obj_get_at(pairs, "command"@, 3);
    crate::json::lemma_obj_get_at(pairs, "args"@, 4);
    crate::json::lemma_obj_get_at(pairs, "url"@, 5);
    crate::json::lemma_obj_get_at(pairs, "env"@, 6);
    crate::json::lemma_obj_get_at(pairs, "headers"@, 7);
    crate::json::lemma_obj_get_at(pairs, "enabled"@, 8);
    crate::json::lemma_obj_get_at(pairs, "disabled_tools"@, 9);
    crate::json::lemma_obj_get_at(pairs, "disabled_resources"@, 10);
    assert(spec_field_string(j, "id"@) == Option::Some(m.id));
    assert(spec_field_string(j, "name"@) == Option::Some(m.name));
    assert(j.get("transport_type"@) == Option::Some(
        JsonV::Str(spec_transport_name(m.transport_type)),
    ));
    assert(spec_dec_transport(JsonV::Str(spec_transport_name(m.transport_type))) == Option::Some(
        m.transport_type,
    ));
    assert(spec_field_opt_string(j, "command"@) == Option::Some(m.command));
    assert(spec_field_opt_string(j, "url"@) == Option::Some(m.url));
    match m.args {
        Option::Some(v) => {
            lemma_dec_str_elems_round(v);
            assert(spec_field_opt_str_arr(j, "args"@) == Option::Some(m.args));
        },
        Option::None => {
            assert(spec_field_opt_str_arr(j, "args"@) == Option::Some(m.args));
        },
    }
    match m.env {
        Option::Some(v) => {
            lemma_dec_pair_elems_round(v);
            assert(spec_field_opt_pairs(j, "env"@) == Option::Some(m.env));
        },
        Option::None => {
            assert(spec_field_opt_pairs(j, "env"@) == Option::Some(m.env));
        },
    }
    match m.headers {
        Option::Some(v) => {
            lemma_dec_pair_elems_round(v);
            assert(spec_field_opt_pairs(j, "headers"@) == Option::Some(m.headers));
        },
        Option::None => {
            assert(spec_field_opt_pairs(j, "headers"@) == Option::Some(m.headers));
        },
    }
    assert(spec_field_bool_default(j, "enabled"@, true) == Option::Some(m.enabled));
    lemma_dec_str_elems_round(m.disabled_tools);
    assert(spec_field_str_arr_default(j, "disabled_tools"@) == Option::Some(m.disabled_tools));
    lemma_dec_str_elems_round(m.disabled_resources);
    assert(spec_field_str_arr_default(j, "disabled_resources"@) == Option::Some(
        m.disabled_resources,
    ));
}

proof fn lemma_dec_mcp_elems_round(v: Seq<McpServerConfigV>)
    ensures
        spec_dec_mcp_elems(Seq::new(v.len(), |i: int| spec_mcp_to_json(v[i]))) == Option::Some(v),
    decreases v.len(),
{
    let es = Seq::new(v.len(), |i: int| spec_mcp_to_json(v[i]));
    if v.len() == 0 {
        assert(v =~= Seq::<McpServerConfigV>::empty());
    } else {
        lemma_mcp_round_trip(v[0]);
        lemma_dec_mcp_elems_round(v.drop_first());
        assert(es.drop_first() =~= Seq::new(
            v.drop_first().len(),
            |i: int| spec_mcp_to_json(v.drop_first()[i]),
        ));
        assert(seq![v[0]] + v.drop_first() =~= v);
    }
}

/// The round-trip law: saving a configuration and loading the saved
/// document gives the configuration back, field for field.
#[verifier::rlimit(100)]
pub proof fn lemma_config_round_trip(c: AppConfigV)
    ensures
        spec_config_from_json(spec_config_to_json(c)) == Option::Some(c),
{
    reveal_strlit("proxy_port");
    reveal_strlit("health_check_interval_secs");
    reveal_strlit("auto_reconnect");
    reveal_strlit("max_reconnect_attempts");
    reveal_strlit("connection_timeout_secs");
    reveal_strlit("mcps");
    assert(("proxy_port"@).len() == 10);
    assert(("health_check_interval_secs"@).len() == 26);
    assert(("auto_reconnect"@).len() == 14);
    assert(("max_reconnect_attempts"@).len() == 22);
    assert(("connection_timeout_secs"@).len() == 23);
    assert(("mcps"@).len() == 4);
    let j = spec_config_to_json(c);
    let pairs = j->Obj_0;
    assert(pairs.len() == 6);
    crate::json::lemma_obj_get_at(pairs, "proxy_port"@, 0);
    crate::json::lemma_obj_get_at(pairs, "health_check_interval_secs"@, 1);
    crate::json::lemma_obj_get_at(pairs, "auto_reconnect"@, 2);
    crate::json::lemma_obj_get_at(pairs, "max_reconnect_attempts"@, 3);
    crate::json::lemma_obj_get_at(pairs, "connection_timeout_secs"@, 4);
    crate::json::lemma_obj_get_at(pairs, "mcps"@, 5);
    assert(spec_field_u64_default(j, "proxy_port"@, 3001) == Option::Some(c.proxy_port as u64));
    assert(spec_field_u64_default(j, "health_check_interval_secs"@, 30) == Option::Some(
        c.health_check_interval_secs,
    ));
    assert(spec_field_bool_default(j, "auto_reconnect"@, true) == Option::Some(c.auto_reconnect));
    assert(spec_field_u64_default(j, "max_reconnect_attempts"@, 5) == Option::Some(
        c.max_reconnect_attempts as u64,
    ));
    assert(spec_field_u64_default(j, "connection_timeout_secs"@, 30) == Option::Some(
        c.connection_timeout_secs,
    ));
    lemma_dec_mcp_elems_round(c.mcps);
    assert(j.get("mcps"@) == Option::Some(
        JsonV::Arr(Seq::new(c.mcps.len(), |i: int| spec_mcp_to_json(c.mcps[i]))),
    ));
}


fn transport_name(t: TransportType) -> (r: &'static str)
    ensures
        r@ == spec_transport_name(t),
{
    match t {
        TransportType::Stdio => "stdio",
        TransportType::Sse => "sse",
        TransportType::StreamableHttp => "streamable_http",
    }
}

fn str_arr_to_json(v: &Vec<String>) -> (r: JsonValue)
    ensures
        r@ == spec_str_arr_json(v.deep_view()),
{
    let n = v.len();
    let mut out: Vec<JsonValue> = Vec::new();
    let mut i: usize = 0;
    while i < n
        invariant
            n == v@.len(),
            i <= n,
            out@.len() == i,
            forall|k: int|
                0 <= k < i ==> crate::json::json_value_view(#[trigger] out@[k]) == JsonV::Str(
                    v.deep_view()[k],
                ),
        decreases n - i,
    {
        out.push(JsonValue::Str(v[i].clone()));
        proof {
            assert(v.deep_view()[i as int] == v@[i as int]@);
        }
        i = i + 1;
    }
    let r = JsonValue::Array(out);
    proof {
        assert(crate::json::arr_view(r->Array_0@) =~= spec_str_arr_json(v.deep_view())->Arr_0);
    }
    r
}

fn opt_string_to_json(o: &Option<String>) -> (r: JsonValue)
    ensures
        r@ == spec_opt_string_json(o.deep_view()),
{
    match o {
        Option::Some(s) => JsonValue::Str(s.clone()),
        Option::None => JsonValue::Null,
    }
}

fn opt_str_arr_to_json(o: &Option<Vec<String>>) -> (r: JsonValue)
    ensures
        r@ == spec_opt_str_arr_json(o.deep_view()),
{
    match o {
        Option::Some(v) => str_arr_to_json(v),
        Option::None => JsonValue::Null,
    }
}

fn pairs_to_json(v: &Vec<(String, String)>) -> (r: JsonValue)
    ensures
        r@ == spec_pairs_json(v.deep_view()),
{
    let n = v.len();
    let mut out: Vec<(String, JsonValue)> = Vec::new();
    let mut i: usize = 0;
    while i < n
        invariant
            n == v@.len(),
            i <= n,
            out@.len() == i,
            forall|k: int|
                0 <= k < i ==> #[trigger] crate::json::pairs_view(out@)[k] == (
                v.deep_view()[k].0,
                JsonV::Str(v.deep_view()[k].1),
                ),
        decreases n - i,
    {
        let ghost pre = out@;
        let p = &v[i];
        out.push((p.0.clone(), JsonValue::Str(p.1.clone())));
        proof {
            assert(v.deep_view()[i as int] == (v@[i as int].0@, v@[i as int].1@));
            assert forall|k: int| 0 <= k < i + 1 implies #[trigger] crate::json::pairs_view(out@)[k]
                == (v.deep_view()[k].0, JsonV::Str(v.deep_view()[k].1)) by {
                if k < i {
                    assert(out@[k] == pre[k]);
                    assert(crate::json::pairs_view(pre)[k] == (pre[k].0@,
                    crate::json::json_value_view(pre[k].1)));
                }
            }
        }
        i = i + 1;
    }
    let r = JsonValue::Object(out);
    proof {
        assert(crate::json::pairs_view(r->Object_0@) =~= spec_pairs_json(v.deep_view())->Obj_0);
    }
    r
}

fn opt_pairs_to_json(o: &Option<Vec<(String, String)>>) -> (r: JsonValue)
    ensures
        r@ == spec_opt_pairs_json(o.deep_view()),
{
    match o {
        Option::Some(v) => pairs_to_json(v),
        Option::None => JsonValue::Null,
    }
}

/// Encodes one backend entry as the JSON document that is persisted.
pub fn mcp_to_json(m: &crate::types::McpServerConfig) -> (r: JsonValue)
    ensures
        r@ == spec_mcp_to_json(m@),
{
    let pairs: Vec<(String, JsonValue)> = vec![
        ("id".to_owned(), JsonValue::Str(m.id.clone())),
        ("name".to_owned(), JsonValue::Str(m.name.clone())),
        ("transport_type".to_owned(), JsonValue::Str(transport_name(m.transport_type).to_owned())),
        ("command".to_owned(), opt_string_to_json(&m.command)),
        ("args".to_owned(), opt_str_arr_to_json(&m.args)),
        ("url".to_owned(), opt_string_to_json(&m.url)),
        ("env".to_owned(), opt_pairs_to_json(&m.env)),
        ("headers".to_owned(), opt_pairs_to_json(&m.headers)),
        ("enabled".to_owned(), JsonValue::Bool(m.enabled)),
        ("disabled_tools".to_owned(), str_arr_to_json(&m.disabled_tools)),
        ("disabled_resources".to_owned(), str_arr_to_json(&m.disabled_resources)),
    ];
    let r = JsonValue::Object(pairs);
    proof {
        assert(crate::json::pairs_view(r->Object_0@) =~= spec_mcp_to_json(m@)->Obj_0);
    }
    r
}

/// Encodes the whole configuration as the JSON document that is persisted.
pub fn config_to_json(c: &crate::types::AppConfig) -> (r: JsonValue)
    ensures
        r@ == spec_config_to_json(c@),
{
    let n = c.mcps.len();
    let mut mcps: Vec<JsonValue> = Vec::new();
    let mut i: usize = 0;
    while i < n
        invariant
            n == c.mcps@.len(),
            i <= n,
            mcps@.len() == i,
            forall|k: int|
                0 <= k < i ==> crate::json::json_value_view(#[trigger] mcps@[k])
                    == spec_mcp_to_json(c@.mcps[k]),
        decreases n - i,
    {
        let e = mcp_to_json(&c.mcps[i]);
        proof {
            assert(c@.mcps[i as int] == c.mcps@[i as int]@);
        }
        mcps.push(e);
        i = i + 1;
    }
    let mcps_json = JsonValue::Array(mcps);
    proof {
        assert(crate::json::arr_view(mcps_json->Array_0@) =~= Seq::new(
            c@.mcps.len(),
            |i: int| spec_mcp_to_json(c@.mcps[i]),
        ));
    }
    let pairs: Vec<(String, JsonValue)> = vec![
        ("proxy_port".to_owned(), JsonValue::UInt(c.proxy_port as u64)),
        ("health_check_interval_secs".to_owned(), JsonValue::UInt(c.health_check_interval_secs)),
        ("auto_reconnect".to_owned(), JsonValue::Bool(c.auto_reconnect)),
        ("max_reconnect_attempts".to_owned(), JsonValue::UInt(c.max_reconnect_attempts as u64)),
        ("connection_timeout_secs".to_owned(), JsonValue::UInt(c.connection_timeout_secs)),
        ("mcps".to_owned(), mcps_json),
    ];
    let r = JsonValue::Object(pairs);
    proof {
        assert(crate::json::pairs_view(r->Object_0@) =~= spec_config_to_json(c@)->Obj_0);
    }
    r
}

fn field_string(j: &JsonValue, key: &str) -> (r: Option<String>)
    ensures
        match r {
            Option::Some(s) => spec_field_string(j@, key@) == Option::Some(s@),
            Option::None => spec_field_string(j@, key@) is None,
        },
{
    match j.get(key) {
        Option::Some(v) => match v {
            JsonValue::Str(s) => Option::Some(s.clone()),
            _ => Option::None,
        },
        Option::None => Option::None,
    }
}

fn field_opt_string(j: &JsonValue, key: &str) -> (r: Option<Option<String>>)
    ensures
        match r {
            Option::Some(o) => spec_field_opt_string(j@, key@) == Option::Some(o.deep_view()),
            Option::None => spec_field_opt_string(j@, key@) is None,
        },
{
    match j.get(key) {
        Option::None => Option::Some(Option::None),
        Option::Some(v) => match v {
            JsonValue::Null => Option::Some(Option::None),
            JsonValue::Str(s) => Option::Some(Option::Some(s.clone())),
            _ => Option::None,
        },
    }
}

fn dec_str_elems(es: &Vec<JsonValue>) -> (r: Option<Vec<String>>)
    ensures
        match r {
            Option::Some(v) => spec_dec_str_elems(crate::json::arr_view(es@)) == Option::Some(
                v.deep_view(),
            ),
            Option::None => spec_dec_str_elems(crate::json::arr_view(es@)) is None,
        },
{
    let ghost ev = crate::json::arr_view(es@);
    let n = es.len();
    let mut out: Vec<String> = Vec::new();
    let mut i: usize = 0;
    proof {
        assert(ev.skip(0) =~= ev);
    }
    while i < n
        invariant
            n == es@.len(),
            i <= n,
            ev == crate::json::arr_view(es@),
            out@.len() == i,
            spec_dec_str_elems(ev) == (match spec_dec_str_elems(ev.skip(i as int)) {
                Option::Some(rest) => Option::Some(out.deep_view() + rest),
                Option::None => Option::<Seq<Seq<char>>>::None,
            }),
        decreases n - i,
    {
        let ghost rest = ev.skip(i as int);
        let ghost pre = out.deep_view();
        proof {
            assert(rest[0] == es@[i as int]@);
            assert(rest.drop_first() =~= ev.skip(i as int + 1));
        }
        match &es[i] {
            JsonValue::Str(x) => {
                out.push(x.clone());
                proof {
                    assert(out.deep_view() =~= pre.push(rest[0]->Str_0));
                    if spec_dec_str_elems(ev.skip(i as int + 1)) is Some {
                        assert(pre + (seq![rest[0]->Str_0] + spec_dec_str_elems(
                            ev.skip(i as int + 1),
                        )->Some_0) =~= out.deep_view() + spec_dec_str_elems(
                            ev.skip(i as int + 1),
                        )->Some_0);
                    }
                }
            },
            _ => {
                return Option::None;
            },
        }
        i = i + 1;
    }
    proof {
        assert(ev.skip(n as int) =~= Seq::<JsonV>::empty());
        assert(out.deep_view() + Seq::<Seq<char>>::empty() =~= out.deep_view());
    }
    Option::Some(out)
}

fn dec_pair_elems(ps: &Vec<(String, JsonValue)>) -> (r: Option<Vec<(String, String)>>)
    ensures
        match r {
            Option::Some(v) => spec_dec_pair_elems(crate::json::pairs_view(ps@)) == Option::Some(
                v.deep_view(),
            ),
            Option::None => spec_dec_pair_elems(crate::json::pairs_view(ps@)) is None,
        },
{
    let ghost pv = crate::json::pairs_view(ps@);
    let n = ps.len();
    let mut out: Vec<(String, String)> = Vec::new();
    let mut i: usize = 0;
    proof {
        assert(pv.skip(0) =~= pv);
    }
    while i < n
        invariant
            n == ps@.len(),
            i <= n,
            pv == crate::json::pairs_view(ps@),
            out@.len() == i,
            spec_dec_pair_elems(pv) == (match spec_dec_pair_elems(pv.skip(i as int)) {
                Option::Some(rest) => Option::Some(out.deep_view() + rest),
                Option::None => Option::<Seq<(Seq<char>, Seq<char>)>>::None,
            }),
        decreases n - i,
    {
        let ghost rest = pv.skip(i as int);
        let ghost pre = out.deep_view();
        proof {
            assert(rest[0] == (ps@[i as int].0@, crate::json::json_value_view(ps@[i as int].1)));
            assert(rest.drop_first() =~= pv.skip(i as int + 1));
        }
        let p = &ps[i];
        match &p.1 {
            JsonValue::Str(x) => {
                out.push((p.0.clone(), x.clone()));
                proof {
                    assert(out.deep_view() =~= pre.push((rest[0].0, rest[0].1->Str_0)));
                    if spec_dec_pair_elems(pv.skip(i as int + 1)) is Some {
                        assert(pre + (seq![(rest[0].0, rest[0].1->Str_0)] + spec_dec_pair_elems(
                            pv.skip(i as int + 1),
                        )->Some_0) =~= out.deep_view() + spec_dec_pair_elems(
                            pv.skip(i as int + 1),
                        )->Some_0);
                    }
                }
            },
            _ => {
                return Option::None;
            },
        }
        i = i + 1;
    }
    proof {
        assert(pv.skip(n as int) =~= Seq::<(Seq<char>, JsonV)>::empty());
        assert(out.deep_view() + Seq::<(Seq<char>, Seq<char>)>::empty() =~= out.deep_view());
    }
    Option::Some(out)
}

fn field_opt_str_arr(j: &JsonValue, key: &str) -> (r: Option<Option<Vec<String>>>)
    ensures
        match r {
            Option::Some(o) => spec_field_opt_str_arr(j@, key@) == Option::Some(o.deep_view()),
            Option::None => spec_field_opt_str_arr(j@, key@) is None,
        },
{
    match j.get(key) {
        Option::None => Option::Some(Option::None),
        Option::Some(v) => match v {
            JsonValue::Null => Option::Some(Option::None),
            JsonValue::Array(es) => match dec_str_elems(es) {
                Option::Some(out) => Option::Some(Option::Some(out)),
                Option::None => Option::None,
            },
            _ => Option::None,
        },
    }
}

fn field_opt_pairs(j: &JsonValue, key: &str) -> (r: Option<Option<Vec<(String, String)>>>)
    ensures
        match r {
            Option::Some(o) => spec_field_opt_pairs(j@, key@) == Option::Some(o.deep_view()),
            Option::None => spec_field_opt_pairs(j@, key@) is None,
        },
{
    match j.get(key) {
        Option::None => Option::Some(Option::None),
        Option::Some(v) => match v {
            JsonValue::Null => Option::Some(Option::None),
            JsonValue::Object(ps) => match dec_pair_elems(ps) {
                Option::Some(out) => Option::Some(Option::Some(out)),
                Option::None => Option::None,
            },
            _ => Option::None,
        },
    }
}

fn field_str_arr_default(j: &JsonValue, key: &str) -> (r: Option<Vec<String>>)
    ensures
        match r {
            Option::Some(v) => spec_field_str_arr_default(j@, key@) == Option::Some(v.deep_view()),
            Option::None => spec_field_str_arr_default(j@, key@) is None,
        },
{
    match j.get(key) {
        Option::None => Option::Some(Vec::new()),
        Option::Some(v) => match v {
            JsonValue::Array(es) => dec_str_elems(es),
            _ => Option::None,
        },
    }
}

fn field_bool_default(j: &JsonValue, key: &str, d: bool) -> (r: Option<bool>)
    ensures
        r == spec_field_bool_default(j@, key@, d),
{
    match j.get(key) {
        Option::None => Option::Some(d),
        Option::Some(v) => match v {
            JsonValue::Bool(b) => Option::Some(*b),
            _ => Option::None,
        },
    }
}

fn field_u64_default(j: &JsonValue, key: &str, d: u64) -> (r: Option<u64>)
    ensures
        r == spec_field_u64_default(j@, key@, d),
{
    match j.get(key) {
        Option::None => Option::Some(d),
        Option::Some(v) => match v {
            JsonValue::UInt(u) => Option::Some(*u),
            JsonValue::Int(i) => if *i >= 0 {
                Option::Some(*i as u64)
            } else {
                Option::None
            },
            _ => Option::None,
        },
    }
}

fn dec_transport(j: &JsonValue) -> (r: Option<TransportType>)
    ensures
        r == spec_dec_transport(j@),
{
    match j {
        JsonValue::Str(s) => {
            if crate::strutil::str_eq(s.as_str(), "stdio") {
                Option::Some(TransportType::Stdio)
            } else if crate::strutil::str_eq(s.as_str(), "sse") {
                Option::Some(TransportType::Sse)
            } else if crate::strutil::str_eq(s.as_str(), "streamable_http") {
                Option::Some(TransportType::StreamableHttp)
            } else {
                Option::None
            }
        },
        _ => Option::None,
    }
}

/// Decodes one backend entry from its persisted JSON document.
pub fn mcp_from_json(j: &JsonValue) -> (r: Option<crate::types::McpServerConfig>)
    ensures
        match r {
            Option::Some(m) => spec_mcp_from_json(j@) == Option::Some(m@),
            Option::None => spec_mcp_from_json(j@) is None,
        },
{
    let is_obj = match j {
        JsonValue::Object(_) => true,
        _ => false,
    };
    if !is_obj {
        return Option::None;
    }
    let id = match field_string(j, "id") {
        Option::Some(x) => x,
        Option::None => {
            return Option::None;
        },
    };
    let name = match field_string(j, "name") {
        Option::Some(x) => x,
        Option::None => {
            return Option::None;
        },
    };
    let transport_type = match j.get("transport_type") {
        Option::Some(t) => match dec_transport(t) {
            Option::Some(x) => x,
            Option::None => {
                return Option::None;
            },
        },
        Option::None => {
            return Option::None;
        },
    };
    let command = match field_opt_string(j, "command") {
        Option::Some(x) => x,
        Option::None => {
            return Option::None;
        },
    };
    let args = match field_opt_str_arr(j, "args") {
        Option::Some(x) => x,
        Option::None => {
            return Option::None;
        },
    };
    let url = match field_opt_string(j, "url") {
        Option::Some(x) => x,
        Option::None => {
            return Option::None;
        },
    };
    let env = match field_opt_pairs(j, "env") {
        Option::Some(x) => x,
        Option::None => {
            return Option::None;
        },
    };
    let headers = match field_opt_pairs(j, "headers") {
        Option::Some(x) => x,
        Option::None => {
            return Option::None;
        },
    };
    let enabled = match field_bool_default(j, "enabled", true) {
        Option::Some(x) => x,
        Option::None => {
            return Option::None;
        },
    };
    let disabled_tools = match field_str_arr_default(j, "disabled_tools") {
        Option::Some(x) => x,
        Option::None => {
            return Option::None;
        },
    };
    let disabled_resources = match field_str_arr_default(j, "disabled_resources") {
        Option::Some(x) => x,
        Option::None => {
            return Option::None;
        },
    };
    Option::Some(
        crate::types::McpServerConfig {
            id,
            name,
            transport_type,
            command,
            args,
            url,
            env,
            headers,
            enabled,
            disabled_tools,
            disabled_resources,
        },
    )
}

fn dec_mcp_elems(es: &Vec<JsonValue>) -> (r: Option<Vec<crate::types::McpServerConfig>>)
    ensures
        match r {
            Option::Some(v) => spec_dec_mcp_elems(crate::json::arr_view(es@)) == Option::Some(
                v.deep_view(),
            ),
            Option::None => spec_dec_mcp_elems(crate::json::arr_view(es@)) is None,
        },
{
    let ghost ev = crate::json::arr_view(es@);
    let n = es.len();
    let mut out: Vec<crate::types::McpServerConfig> = Vec::new();
    let mut i: usize = 0;
    proof {
        assert(ev.skip(0) =~= ev);
    }
    while i < n
        invariant
            n == es@.len(),
            i <= n,
            ev == crate::json::arr_view(es@),
            out@.len() == i,
            spec_dec_mcp_elems(ev) == (match spec_dec_mcp_elems(ev.skip(i as int)) {
                Option::Some(rest) => Option::Some(out.deep_view() + rest),
                Option::None => Option::<Seq<McpServerConfigV>>::None,
            }),
        decreases n - i,
    {
        let ghost rest = ev.skip(i as int);
        let ghost pre = out.deep_view();
        proof {
            assert(rest[0] == es@[i as int]@);
            assert(rest.drop_first() =~= ev.skip(i as int + 1));
        }
        match mcp_from_json(&es[i]) {
            Option::Some(m) => {
                let ghost mv = m@;
                out.push(m);
                proof {
                    assert(out.deep_view() =~= pre.push(mv));
                    if spec_dec_mcp_elems(ev.skip(i as int + 1)) is Some {
                        assert(pre + (seq![mv] + spec_dec_mcp_elems(
                            ev.skip(i as int + 1),
                        )->Some_0) =~= out.deep_view() + spec_dec_mcp_elems(
                            ev.skip(i as int + 1),
                        )->Some_0);
                    }
                }
            },
            Option::None => {
                return Option::None;
            },
        }
        i = i + 1;
    }
    proof {
        assert(ev.skip(n as int) =~= Seq::<JsonV>::empty());
        assert(out.deep_view() + Seq::<McpServerConfigV>::empty() =~= out.deep_view());
    }
    Option::Some(out)
}

/// Decodes the whole configuration from its persisted JSON document:
/// defaults are populated for missing fields, unknown fields are passed
/// over, and a wrongly typed field fails the decode.
pub fn config_from_json(j: &JsonValue) -> (r: Option<crate::types::AppConfig>)
    ensures
        match r {
            Option::Some(c) => spec_config_from_json(j@) == Option::Some(c@),
            Option::None => spec_config_from_json(j@) is None,
        },
{
    let is_obj = match j {
        JsonValue::Object(_) => true,
        _ => false,
    };
    if !is_obj {
        return Option::None;
    }
    let proxy_port = match field_u64_default(j, "proxy_port", 3001) {
        Option::Some(x) => x,
        Option::None => {
            return Option::None;
        },
    };
    let health_check_interval_secs = match field_u64_default(j, "health_check_interval_secs", 30) {
        Option::Some(x) => x,
        Option::None => {
            return Option::None;
        },
    };
    let auto_reconnect = match field_bool_default(j, "auto_reconnect", true) {
        Option::Some(x) => x,
        Option::None => {
            return Option::None;
        },
    };
    let max_reconnect_attempts = match field_u64_default(j, "max_reconnect_attempts", 5) {
        Option::Some(x) => x,
        Option::None => {
            return Option::None;
        },
    };
    let connection_timeout_secs = match field_u64_default(j, "connection_timeout_secs", 30) {
        Option::Some(x) => x,
        Option::None => {
            return Option::None;
        },
    };
    let mcps = match j.get("mcps") {
        Option::None => {
            let v: Vec<crate::types::McpServerConfig> = Vec::new();
            proof {
                assert(v.deep_view() =~= Seq::<McpServerConfigV>::empty());
            }
            v
        },
        Option::Some(v) => match v {
            JsonValue::Array(es) => match dec_mcp_elems(es) {
                Option::Some(out) => out,
                Option::None => {
                    return Option::None;
                },
            },
            _ => {
                return Option::None;
            },
        },
    };
    if proxy_port > u16::MAX as u64 || max_reconnect_attempts > u32::MAX as u64 {
        return Option::None;
    }
    Option::Some(
        crate::types::AppConfig {
            proxy_port: proxy_port as u16,
            health_check_interval_secs,
            auto_reconnect,
            max_reconnect_attempts: max_reconnect_attempts as u32,
            connection_timeout_secs,
            mcps,
        },
    )
}


/// The tool a listing entry describes: the name is required, the
/// description is kept when it is a string, and the schema is carried
/// through (an empty object when missing).
pub open spec fn spec_tool_of(j: JsonV) -> Option<crate::types::ToolV> {
    match j.get("name"@) {
        Option::Some(JsonV::Str(n)) => Option::Some(
            crate::types::ToolV {
                name: n,
                description: match j.get("description"@) {
                    Option::Some(JsonV::Str(d)) => Option::Some(d),
                    _ => Option::None,
                },
                input_schema: match j.get("inputSchema"@) {
                    Option::Some(v) => v,
                    Option::None => JsonV::Obj(Seq::empty()),
                },
            },
        ),
        _ => Option::None,
    }
}

/// The tools of a listing's element list, skipping entries without a name.
pub open spec fn spec_collect_tools(es: Seq<JsonV>) -> Seq<crate::types::ToolV>
    decreases es.len(),
{
    if es.len() == 0 {
        Seq::empty()
    } else {
        match spec_tool_of(es[0]) {
            Option::Some(t) => seq![t] + spec_collect_tools(es.drop_first()),
            Option::None => spec_collect_tools(es.drop_first()),
        }
    }
}

/// The tools a `tools/list` result advertises: the entries of its `tools`
/// array, or nothing when the result has no such array.
pub open spec fn spec_tools_from_json(result: JsonV) -> Seq<crate::types::ToolV> {
    match result.get("tools"@) {
        Option::Some(JsonV::Arr(es)) => spec_collect_tools(es),
        _ => Seq::empty(),
    }
}

fn tool_of(j: &JsonValue) -> (r: Option<crate::types::Tool>)
    ensures
        match r {
            Option::Some(t) => spec_tool_of(j@) == Option::Some(t@),
            Option::None => spec_tool_of(j@) is None,
        },
{
    let name = match j.get("name") {
        Option::Some(v) => match v {
            JsonValue::Str(n) => n.clone(),
            _ => {
                return Option::None;
            },
        },
        Option::None => {
            return Option::None;
        },
    };
    let description = match j.get("description") {
        Option::Some(v) => match v {
            JsonValue::Str(d) => Option::Some(d.clone()),
            _ => Option::None,
        },
        Option::None => Option::None,
    };
    let input_schema = match j.get("inputSchema") {
        Option::Some(v) => v.duplicate(),
        Option::None => {
            let e = JsonValue::Object(Vec::new());
            proof {
                assert(crate::json::pairs_view(e->Object_0@) =~= Seq::<(Seq<char>, JsonV)>::empty());
            }
            e
        },
    };
    Option::Some(crate::types::Tool { name, description, input_schema })
}

/// Reads the cached tools out of a `tools/list` result.
pub fn tools_from_json(result: &JsonValue) -> (r: Vec<crate::types::Tool>)
    ensures
        r.deep_view() == spec_tools_from_json(result@),
{
    let es: &Vec<JsonValue> = match result.get("tools") {
        Option::Some(v) => match v {
            JsonValue::Array(es) => es,
            _ => {
                let out: Vec<crate::types::Tool> = Vec::new();
                proof {
                    assert(out.deep_view() =~= Seq::<crate::types::ToolV>::empty());
                }
                return out;
            },
        },
        Option::None => {
            let out: Vec<crate::types::Tool> = Vec::new();
            proof {
                assert(out.deep_view() =~= Seq::<crate::types::ToolV>::empty());
            }
            return out;
        },
    };
    let ghost ev = crate::json::arr_view(es@);
    let n = es.len();
    let mut out: Vec<crate::types::Tool> = Vec::new();
    let mut i: usize = 0;
    proof {
        assert(ev.skip(0) =~= ev);
        assert(out.deep_view() + spec_collect_tools(ev) =~= spec_collect_tools(ev));
    }
    while i < n
        invariant
            n == es@.len(),
            i <= n,
            ev == crate::json::arr_view(es@),
            spec_collect_tools(ev) == out.deep_view() + spec_collect_tools(ev.skip(i as int)),
        decreases n - i,
    {
        let ghost rest = ev.skip(i as int);
        let ghost pre = out.deep_view();
        proof {
            assert(rest[0] == es@[i as int]@);
            assert(rest.drop_first() =~= ev.skip(i as int + 1));
        }
        match tool_of(&es[i]) {
            Option::Some(t) => {
                let ghost tv = t@;
                out.push(t);
                proof {
                    assert(out.deep_view() =~= pre.push(tv));
                    assert(pre + (seq![tv] + spec_collect_tools(ev.skip(i as int + 1)))
                        =~= out.deep_view() + spec_collect_tools(ev.skip(i as int + 1)));
                }
            },
            Option::None => {
            },
        }
        i = i + 1;
    }
    proof {
        assert(ev.skip(n as int) =~= Seq::<JsonV>::empty());
        assert(out.deep_view() + Seq::<crate::types::ToolV>::empty() =~= out.deep_view());
    }
    out
}

/// The resource a listing entry describes: the URI is required; name,
/// description and MIME type are kept when they are strings.
pub open spec fn spec_resource_of(j: JsonV) -> Option<crate::types::ResourceV> {
    match j.get("uri"@) {
        Option::Some(JsonV::Str(u)) => Option::Some(
            crate::types::ResourceV {
                uri: u,
                name: match j.get("name"@) {
                    Option::Some(JsonV::Str(x)) => Option::Some(x),
                    _ => Option::None,
                },
                description: match j.get("description"@) {
                    Option::Some(JsonV::Str(x)) => Option::Some(x),
                    _ => Option::None,
                },
                mime_type: match j.get("mimeType"@) {
                    Option::Some(JsonV::Str(x)) => Option::Some(x),
                    _ => Option::None,
                },
            },
        ),
        _ => Option::None,
    }
}

/// The resources of a listing's element list, skipping entries without a
/// URI.
pub open spec fn spec_collect_resources(es: Seq<JsonV>) -> Seq<crate::types::ResourceV>
    decreases es.len(),
{
    if es.len() == 0 {
        Seq::empty()
    } else {
        match spec_resource_of(es[0]) {
            Option::Some(t) => seq![t] + spec_collect_resources(es.drop_first()),
            Option::None => spec_collect_resources(es.drop_first()),
        }
    }
}

/// The resources a `resources/list` result advertises.
pub open spec fn spec_resources_from_json(result: JsonV) -> Seq<crate::types::ResourceV> {
    match result.get("resources"@) {
        Option::Some(JsonV::Arr(es)) => spec_collect_resources(es),
        _ => Seq::empty(),
    }
}

fn resource_of(j: &JsonValue) -> (r: Option<crate::types::Resource>)
    ensures
        match r {
            Option::Some(t) => spec_resource_of(j@) == Option::Some(t@),
            Option::None => spec_resource_of(j@) is None,
        },
{
    let uri = match j.get("uri") {
        Option::Some(v) => match v {
            JsonValue::Str(u) => u.clone(),
            _ => {
                return Option::None;
            },
        },
        Option::None => {
            return Option::None;
        },
    };
    let name = match j.get("name") {
        Option::Some(v) => match v {
            JsonValue::Str(x) => Option::Some(x.clone()),
            _ => Option::None,
        },
        Option::None => Option::None,
    };
    let description = match j.get("description") {
        Option::Some(v) => match v {
            JsonValue::Str(x) => Option::Some(x.clone()),
            _ => Option::None,
        },
        Option::None => Option::None,
    };
    let mime_type = match j.get("mimeType") {
        Option::Some(v) => match v {
            JsonValue::Str(x) => Option::Some(x.clone()),
            _ => Option::None,
        },
        Option::None => Option::None,
    };
    Option::Some(crate::types::Resource { uri, name, description, mime_type })
}

/// Reads the cached resources out of a `resources/list` result.
pub fn resources_from_json(result: &JsonValue) -> (r: Vec<crate::types::Resource>)
    ensures
        r.deep_view() == spec_resources_from_json(result@),
{
    let es: &Vec<JsonValue> = match result.get("resources") {
        Option::Some(v) => match v {
            JsonValue::Array(es) => es,
            _ => {
                let out: Vec<crate::types::Resource> = Vec::new();
                proof {
                    assert(out.deep_view() =~= Seq::<crate::types::ResourceV>::empty());
                }
                return out;
            },
        },
        Option::None => {
            let out: Vec<crate::types::Resource> = Vec::new();
            proof {
                assert(out.deep_view() =~= Seq::<crate::types::ResourceV>::empty());
            }
            return out;
        },
    };
    let ghost ev = crate::json::arr_view(es@);
    let n = es.len();
    let mut out: Vec<crate::types::Resource> = Vec::new();
    let mut i: usize = 0;
    proof {
        assert(ev.skip(0) =~= ev);
        assert(out.deep_view() + spec_collect_resources(ev) =~= spec_collect_resources(ev));
    }
    while i < n
        invariant
            n == es@.len(),
            i <= n,
            ev == crate::json::arr_view(es@),
            spec_collect_resources(ev) == out.deep_view() + spec_collect_resources(
                ev.skip(i as int),
            ),
        decreases n - i,
    {
        let ghost rest = ev.skip(i as int);
        let ghost pre = out.deep_view();
        proof {
            assert(rest[0] == es@[i as int]@);
            assert(rest.drop_first() =~= ev.skip(i as int + 1));
        }
        match resource_of(&es[i]) {
            Option::Some(t) => {
                let ghost tv = t@;
                out.push(t);
                proof {
                    assert(out.deep_view() =~= pre.push(tv));
                    assert(pre + (seq![tv] + spec_collect_resources(ev.skip(i as int + 1)))
                        =~= out.deep_view() + spec_collect_resources(ev.skip(i as int + 1)));
                }
            },
            Option::None => {
            },
        }
        i = i + 1;
    }
    proof {
        assert(ev.skip(n as int) =~= Seq::<JsonV>::empty());
        assert(out.deep_view() + Seq::<crate::types::ResourceV>::empty() =~= out.deep_view());
    }
    out
}

} // verus!
