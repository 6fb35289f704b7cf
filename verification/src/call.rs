//! Calls as they go on the wire.

use vstd::prelude::*;
use vstd::string::*;
use serde_json::Value;
use crate::json::{json_field, json_items, json_list, json_null, json_rendered, json_str, json_string, render, set_field, value_clone};

verus! {

/// One call: its correlation identifier, the method, and the parameters in
/// order.
#[derive(Debug)]
pub struct Call {
    pub id: String,
    pub method: String,
    pub params: Vec<Value>,
}

/// Whether a JSON value is the request object of a call: the version tag
/// `2.0`, the identifier, the method and the array of parameters, and no
/// other member.
pub open spec fn is_request(v: Value, id: Seq<char>, method: Seq<char>, params: Seq<Value>) -> bool {
    &&& forall|k: Seq<char>|
        k != "jsonrpc"@ && k != "id"@ && k != "method"@ && k != "params"@ ==> (
        #[trigger] json_field(v, k)) is None
    &&& json_field(v, "jsonrpc"@) matches Some(tag) && json_str(tag) == Some("2.0"@)
    &&& json_field(v, "id"@) matches Some(i) && json_str(i) == Some(id)
    &&& json_field(v, "method"@) matches Some(m) && json_str(m) == Some(method)
    &&& json_field(v, "params"@) matches Some(p) && json_items(p) == Some(params)
}

/// Whether a JSON value is the batch of the given calls, in order.
pub open spec fn is_batch(v: Value, calls: Seq<Call>) -> bool {
    json_items(v) matches Some(items) && items.len() == calls.len() && forall|i: int|
        0 <= i < calls.len() ==> is_request(
            #[trigger] items[i],
            calls[i].id@,
            calls[i].method@,
            calls[i].params@,
        )
}

/// The member names of a request differ from one another.
proof fn lemma_member_names()
    ensures
        "jsonrpc"@ != "id"@,
        "jsonrpc"@ != "method"@,
        "jsonrpc"@ != "params"@,
        "id"@ != "method"@,
        "id"@ != "params"@,
        "method"@ != "params"@,
{
    reveal_strlit("jsonrpc");
    reveal_strlit("id");
    reveal_strlit("method");
    reveal_strlit("params");
    assert("jsonrpc"@.len() == 7);
    assert("id"@.len() == 2);
    assert("method"@.len() == 6);
    assert("method"@[0] == 'm');
    assert("params"@[0] == 'p');
}

/// A copy of a run of values.
pub fn copy_values(items: &Vec<Value>) -> (r: Vec<Value>)
    ensures
        r@ == items@,
{
    let mut out: Vec<Value> = Vec::new();
    let mut i: usize = 0;
    while i < items.len()
        invariant
            i <= items.len(),
            out@ == items@.take(i as int),
        decreases items.len() - i,
    {
        out.push(value_clone(&items[i]));
        assert(items@.take(i + 1) =~= items@.take(i as int).push(items@[i as int]));
        i += 1;
    }
    assert(items@.take(i as int) =~= items@);
    out
}

impl Call {
    /// The request object of the call.
    pub fn to_value(&self) -> (v: Value)
        ensures
            is_request(v, self.id@, self.method@, self.params@),
    {
        proof {
            lemma_member_names();
        }
        let v0 = json_null();
        let v1 = set_field(v0, "jsonrpc", json_string("2.0"));
        let v2 = set_field(v1, "id", json_string(self.id.as_str()));
        let v3 = set_field(v2, "method", json_string(self.method.as_str()));
        let v4 = set_field(v3, "params", json_list(copy_values(&self.params)));
        assert(json_field(v2, "jsonrpc"@) == json_field(v1, "jsonrpc"@));
        assert(json_field(v3, "jsonrpc"@) == json_field(v1, "jsonrpc"@));
        assert(json_field(v3, "id"@) == json_field(v2, "id"@));
        assert(json_field(v4, "jsonrpc"@) == json_field(v1, "jsonrpc"@));
        assert(json_field(v4, "id"@) == json_field(v2, "id"@));
        assert(json_field(v4, "method"@) == json_field(v3, "method"@));
        v4
    }

    /// The text frame that carries the call alone.
    pub fn encode(&self) -> (r: String)
        ensures
            exists|v: Value|
                is_request(v, self.id@, self.method@, self.params@) && r@ == #[trigger] json_rendered(
                    v,
                ),
    {
        let v = self.to_value();
        render(&v)
    }
}

/// The text frame that carries the calls as one batch.
pub fn encode_batch(calls: &Vec<Call>) -> (r: String)
    ensures
        exists|v: Value| is_batch(v, calls@) && r@ == #[trigger] json_rendered(v),
{
    let mut items: Vec<Value> = Vec::new();
    let mut i: usize = 0;
    while i < calls.len()
        invariant
            i <= calls.len(),
            items.len() == i,
            forall|k: int|
                0 <= k < i ==> is_request(
                    #[trigger] items[k],
                    calls[k].id@,
                    calls[k].method@,
                    calls[k].params@,
                ),
        decreases calls.len() - i,
    {
        items.push(calls[i].to_value());
        i += 1;
    }
    let v = json_list(items);
    assert(is_batch(v, calls@));
    render(&v)
}

} // verus!
