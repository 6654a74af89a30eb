//! An owned model of JSON documents.
//!
//! JSON-RPC envelopes travel through the gateway and the bridge as values of
//! [`JsonValue`]. Numbers that fit `i64`/`u64` are kept exactly; any other
//! JSON number is carried as its decimal text so that the library itself
//! never holds a floating-point value. Objects keep their key order.

use vstd::prelude::*;

verus! {

/// Mathematical form of a JSON document, used in specifications.
pub enum JsonV {
    Null,
    Bool(bool),
    Int(i64),
    UInt(u64),
    Float(Seq<char>),
    Str(Seq<char>),
    Arr(Seq<JsonV>),
    Obj(Seq<(Seq<char>, JsonV)>),
}

/// A JSON document.
#[derive(Debug)]
pub enum JsonValue {
    Null,
    Bool(bool),
    Int(i64),
    UInt(u64),
    /// Decimal text of a JSON number that is neither an `i64` nor a `u64`.
    Float(String),
    Str(String),
    Array(Vec<JsonValue>),
    Object(Vec<(String, JsonValue)>),
}

broadcast use vstd::std_specs::vec::axiom_vec_decreases_to_view, vstd::seq::axiom_seq_index_decreases;

/// The views of an array's elements, in order.
pub open spec fn arr_view(a: Seq<JsonValue>) -> Seq<JsonV>
    decreases a,
{
    Seq::new(
        a.len(),
        |i: int|
            if 0 <= i < a.len() {
                json_value_view(a[i])
            } else {
                JsonV::Null
            },
    )
}

/// The views of an object's pairs, in order.
pub open spec fn pairs_view(pairs: Seq<(String, JsonValue)>) -> Seq<(Seq<char>, JsonV)>
    decreases pairs,
{
    Seq::new(
        pairs.len(),
        |i: int|
            if 0 <= i < pairs.len() {
                (pairs[i].0@, json_value_view(pairs[i].1))
            } else {
                (Seq::<char>::empty(), JsonV::Null)
            },
    )
}

pub open spec fn json_value_view(v: JsonValue) -> JsonV
    decreases v,
{
    match v {
        JsonValue::Null => JsonV::Null,
        JsonValue::Bool(b) => JsonV::Bool(b),
        JsonValue::Int(i) => JsonV::Int(i),
        JsonValue::UInt(u) => JsonV::UInt(u),
        JsonValue::Float(s) => JsonV::Float(s@),
        JsonValue::Str(s) => JsonV::Str(s@),
        JsonValue::Array(a) => JsonV::Arr(arr_view(a@)),
        JsonValue::Object(o) => JsonV::Obj(pairs_view(o@)),
    }
}

impl View for JsonValue {
    type V = JsonV;

    open spec fn view(&self) -> JsonV {
        json_value_view(*self)
    }
}

impl JsonV {
    /// First value bound to `key`, if any, in an object's pair list.
    pub open spec fn obj_get(pairs: Seq<(Seq<char>, JsonV)>, key: Seq<char>) -> Option<JsonV>
        decreases pairs.len(),
    {
        if pairs.len() == 0 {
            Option::None
        } else if pairs[0].0 == key {
            Option::Some(pairs[0].1)
        } else {
            JsonV::obj_get(pairs.drop_first(), key)
        }
    }

    /// Value of `key` in this document, if it is an object that binds `key`.
    pub open spec fn get(self, key: Seq<char>) -> Option<JsonV> {
        match self {
            JsonV::Obj(pairs) => JsonV::obj_get(pairs, key),
            _ => Option::None,
        }
    }
}

impl JsonValue {
    /// First value bound to `key`, if this document is an object binding it.
    pub fn get<'a>(&'a self, key: &str) -> (r: Option<&'a JsonValue>)
        ensures
            match r {
                Option::Some(v) => self@.get(key@) == Option::Some(v@),
                Option::None => self@.get(key@) is None,
            },
    {
        match self {
            JsonValue::Object(pairs) => {
                let n = pairs.len();
                let mut j: usize = 0;
                while j < n
                    invariant
                        n == pairs@.len(),
                        j <= n,
                        forall|k: int| 0 <= k < j ==> pairs@[k].0@ != key@,
                        self == JsonValue::Object(*pairs),
                    decreases n - j,
                {
                    if crate::strutil::str_eq(pairs[j].0.as_str(), key) {
                        let r = &pairs[j].1;
                        proof {
                            lemma_obj_get_found(pairs@, key@, j as int);
                            assert(r@ == json_value_view(pairs@[j as int].1));
                        }
                        return Some(r);
                    }
                    j = j + 1;
                }
                proof {
                    lemma_obj_get_missing(pairs@, key@);
                }
                None
            },
            _ => None,
        }
    }
}

impl JsonValue {
    /// A structurally equal copy of this document.
    pub fn duplicate(&self) -> (r: JsonValue)
        ensures
            r@ == self@,
        decreases *self,
    {
        match self {
            JsonValue::Null => JsonValue::Null,
            JsonValue::Bool(b) => JsonValue::Bool(*b),
            JsonValue::Int(i) => JsonValue::Int(*i),
            JsonValue::UInt(u) => JsonValue::UInt(*u),
            JsonValue::Float(s) => JsonValue::Float(s.clone()),
            JsonValue::Str(s) => JsonValue::Str(s.clone()),
            JsonValue::Array(a) => {
                let n = a.len();
                let mut out: Vec<JsonValue> = Vec::new();
                let mut i: usize = 0;
                while i < n
                    invariant
                        n == a@.len(),
                        i <= n,
                        *self == JsonValue::Array(*a),
                        out@.len() == i,
                        forall|k: int| 0 <= k < i ==> json_value_view(#[trigger] out@[k])
                            == json_value_view(a@[k]),
                    decreases n - i,
                {
                    proof {
                        assert(decreases_to!(*self => self->Array_0));
                        assert(self->Array_0 == *a);
                        assert(decreases_to!(*a => a@));
                        assert(decreases_to!(a@ => a@[i as int]));
                    }
                    let d = a[i].duplicate();
                    out.push(d);
                    i = i + 1;
                }
                proof {
                    assert(arr_view(out@) =~= arr_view(a@));
                }
                JsonValue::Array(out)
            },
            JsonValue::Object(o) => {
                let n = o.len();
                let mut out: Vec<(String, JsonValue)> = Vec::new();
                let mut i: usize = 0;
                while i < n
                    invariant
                        n == o@.len(),
                        i <= n,
                        *self == JsonValue::Object(*o),
                        out@.len() == i,
                        forall|k: int| 0 <= k < i ==> #[trigger] out@[k].0@ == o@[k].0@
                            && json_value_view(out@[k].1) == json_value_view(o@[k].1),
                    decreases n - i,
                {
                    proof {
                        assert(decreases_to!(*self => self->Object_0));
                        assert(self->Object_0 == *o);
                        assert(decreases_to!(*o => o@));
                        assert(decreases_to!(o@ => o@[i as int]));
                        assert(decreases_to!(o@[i as int] => o@[i as int].1));
                    }
                    let p = &o[i];
                    let d = p.1.duplicate();
                    out.push((p.0.clone(), d));
                    i = i + 1;
                }
                proof {
                    assert(pairs_view(out@) =~= pairs_view(o@));
                }
                JsonValue::Object(out)
            },
        }
    }
}

/// Scanning an object's pairs for `key` finds the first pair named `key`.
pub proof fn lemma_obj_get_at(pairs: Seq<(Seq<char>, JsonV)>, key: Seq<char>, j: int)
    requires
        0 <= j < pairs.len(),
        forall|k: int| 0 <= k < j ==> (#[trigger] pairs[k]).0 != key,
        pairs[j].0 == key,
    ensures
        JsonV::obj_get(pairs, key) == Option::Some(pairs[j].1),
    decreases j,
{
    if j > 0 {
        lemma_obj_get_at(pairs.drop_first(), key, j - 1);
    }
}

proof fn lemma_obj_get_found(pairs: Seq<(String, JsonValue)>, key: Seq<char>, j: int)
    requires
        0 <= j < pairs.len(),
        forall|k: int| 0 <= k < j ==> pairs[k].0@ != key,
        pairs[j].0@ == key,
    ensures
        JsonV::obj_get(pairs_view(pairs), key) == Option::Some(json_value_view(pairs[j].1)),
    decreases j,
{
    let pv = pairs_view(pairs);
    if j == 0 {
        assert(pv[0].0 == key);
    } else {
        assert(pv[0].0 != key);
        lemma_obj_get_found(pairs.drop_first(), key, j - 1);
        assert(pairs_view(pairs.drop_first()) =~= pv.drop_first());
    }
}

proof fn lemma_obj_get_missing(pairs: Seq<(String, JsonValue)>, key: Seq<char>)
    requires
        forall|k: int| 0 <= k < pairs.len() ==> pairs[k].0@ != key,
    ensures
        JsonV::obj_get(pairs_view(pairs), key) is None,
    decreases pairs.len(),
{
    let pv = pairs_view(pairs);
    if pairs.len() > 0 {
        assert(pv[0].0 != key);
        lemma_obj_get_missing(pairs.drop_first(), key);
        assert(pairs_view(pairs.drop_first()) =~= pv.drop_first());
    }
}

} // verus!
