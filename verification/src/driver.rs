//! The call sequences that answer a command: which call goes out next,
//! given what has come back.

use vstd::prelude::*;
use vstd::string::*;
use serde_json::Value;
use crate::batch::PendingTable;
use crate::call::Call;
use crate::error::SessionError;
use crate::json::{is_null, json_accepts_fields, json_field, json_items, json_list, json_null, json_number, json_str, json_string, json_uint, set_field, value_clone, value_field, value_is_null, value_is_object, value_text};
use crate::number::{hex_number, identify_if_hexadecimal_or_decimal, normal_form, parse_hex_number};

verus! {

/// A call with the identifier that every call sent alone carries. One such
/// call is outstanding at a time, so the identifier can be fixed.
pub fn single_call(method: &str, params: Vec<Value>) -> (c: Call)
    ensures
        c.id@ == "1"@,
        c.method@ == method@,
        c.params@ == params@,
{
    Call { id: String::from_str("1"), method: String::from_str(method), params }
}

/// Whether the call asks the method with one text parameter.
pub open spec fn asks_with_text(c: Call, method: Seq<char>, text: Seq<char>) -> bool {
    c.id@ == "1"@ && c.method@ == method && c.params@.len() == 1 && json_str(c.params@[0]) == Some(
        text,
    )
}

/// Whether the call asks for the current head: no parameters.
pub open spec fn asks_head(c: Call) -> bool {
    c.id@ == "1"@ && c.method@ == "chain_getHead"@ && c.params@.len() == 0
}

/// Whether a JSON value is the non-negative integer `n`.
pub open spec fn is_number(v: Value, n: u64) -> bool {
    json_uint(v) == Some(n)
}

/// Whether the call asks for a proof for exactly these block numbers: one
/// parameter, the array of the numbers in order.
pub open spec fn asks_proof(c: Call, numbers: Seq<u64>) -> bool {
    c.id@ == "1"@ && c.method@ == "mmr_generateProof"@ && c.params@.len() == 1 && (json_items(
        c.params@[0],
    ) matches Some(items) && items.len() == numbers.len() && forall|i: int|
        0 <= i < numbers.len() ==> is_number(#[trigger] items[i], numbers[i]))
}

/// The call for the hash of the current head.
pub fn head_call() -> (c: Call)
    ensures
        asks_head(c),
{
    single_call("chain_getHead", Vec::new())
}

/// A call of a method with one text parameter.
fn text_call(method: &str, text: &str) -> (c: Call)
    ensures
        asks_with_text(c, method@, text@),
{
    let mut params: Vec<Value> = Vec::new();
    params.push(json_string(text));
    single_call(method, params)
}

/// The call for the block with the given hash.
pub fn block_call(hash: &str) -> (c: Call)
    ensures
        asks_with_text(c, "chain_getBlock"@, hash@),
{
    text_call("chain_getBlock", hash)
}

/// The call for the hash of the block with the given number.
pub fn block_hash_call(number: &str) -> (c: Call)
    ensures
        asks_with_text(c, "chain_getBlockHash"@, number@),
{
    text_call("chain_getBlockHash", number)
}

/// The call for a proof for the given block numbers.
pub fn proof_call(numbers: &Vec<u64>) -> (c: Call)
    ensures
        asks_proof(c, numbers@),
{
    let mut items: Vec<Value> = Vec::new();
    let mut i: usize = 0;
    while i < numbers.len()
        invariant
            i <= numbers.len(),
            items.len() == i,
            forall|k: int| 0 <= k < i ==> is_number(#[trigger] items[k], numbers[k]),
        decreases numbers.len() - i,
    {
        items.push(json_number(numbers[i]));
        i += 1;
    }
    let mut params: Vec<Value> = Vec::new();
    params.push(json_list(items));
    single_call("mmr_generateProof", params)
}

/// The hash that a head or hash-by-number call returned: the result where
/// it is a string.
pub fn fetch_block_head_hash(result: &Value) -> (r: Result<String, SessionError>)
    ensures
        r is Ok <==> json_str(*result) is Some,
        r matches Ok(h) ==> json_str(*result) == Some(h@),
        r matches Err(e) ==> e is MalformedFrameError,
{
    match value_text(result) {
        Some(h) => Ok(h),
        None => Err(SessionError::MalformedFrameError),
    }
}

/// The text under `block.header.number` in a block payload, where each of
/// the three members is there and the last is a string.
pub open spec fn reported_number(v: Value) -> Option<Seq<char>> {
    match json_field(v, "block"@) {
        Some(b) => match json_field(b, "header"@) {
            Some(h) => match json_field(h, "number"@) {
                Some(n) => json_str(n),
                None => None,
            },
            None => None,
        },
        None => None,
    }
}

/// The height of a block, read from the payload of a block-by-hash call.
/// Fails with `MalformedFrameError` where `block.header.number` is missing
/// or no string, with `NumericFormatError` where it is no hexadecimal
/// number.
pub fn fetch_block_number(result: &Value) -> (r: Result<u64, SessionError>)
    ensures
        reported_number(*result) is None ==> r matches Err(SessionError::MalformedFrameError),
        reported_number(*result) matches Some(t) ==> (match hex_number(t) {
            Some(n) => r == Ok::<u64, SessionError>(n),
            None => r matches Err(SessionError::NumericFormatError),
        }),
{
    let block = match value_field(result, "block") {
        Some(b) => b,
        None => {
            return Err(SessionError::MalformedFrameError);
        },
    };
    let header = match value_field(&block, "header") {
        Some(h) => h,
        None => {
            return Err(SessionError::MalformedFrameError);
        },
    };
    let number = match value_field(&header, "number") {
        Some(n) => n,
        None => {
            return Err(SessionError::MalformedFrameError);
        },
    };
    match value_text(&number) {
        Some(t) => parse_hex_number(t.as_str()),
        None => Err(SessionError::MalformedFrameError),
    }
}

/// What a proof request still waits for.
#[derive(Debug, Clone, Copy, PartialEq, Eq, Structural)]
pub enum MmrState {
    /// The hash of the head.
    AwaitHead,
    /// The block behind that hash.
    AwaitBlock,
    /// The proof itself.
    AwaitProof,
}

/// What a sequence does next.
#[derive(Debug)]
pub enum Step<S> {
    /// Send this call and wait for its result in the given state.
    Send { call: Call, next: S },
    /// The answer is there.
    Done(Value),
}

/// Starts a proof request. With explicit numbers the one call is the
/// proof request for exactly those; without, the head is looked up first.
pub fn get_mmr_proof(block_numbers: Option<Vec<u64>>) -> (r: (MmrState, Call))
    ensures
        block_numbers matches Some(ns) ==> r.0 == MmrState::AwaitProof && asks_proof(r.1, ns@),
        block_numbers is None ==> r.0 == MmrState::AwaitHead && asks_head(r.1),
{
    match block_numbers {
        Some(numbers) => (MmrState::AwaitProof, proof_call(&numbers)),
        None => (MmrState::AwaitHead, head_call()),
    }
}

/// Moves a proof request on with the result of the call it waited for:
/// the head's hash leads to the call for its block, the block's height to
/// the proof request for that one height, and the proof ends the sequence.
pub fn mmr_advance(state: MmrState, result: Value) -> (r: Result<Step<MmrState>, SessionError>)
    ensures
        state == MmrState::AwaitHead ==> (match json_str(result) {
            Some(h) => r matches Ok(Step::Send { call, next }) && next == MmrState::AwaitBlock
                && asks_with_text(call, "chain_getBlock"@, h),
            None => r matches Err(SessionError::MalformedFrameError),
        }),
        state == MmrState::AwaitBlock ==> (match reported_number(result) {
            Some(t) => match hex_number(t) {
                Some(n) => r matches Ok(Step::Send { call, next }) && next == MmrState::AwaitProof
                    && asks_proof(call, seq![n]),
                None => r matches Err(SessionError::NumericFormatError),
            },
            None => r matches Err(SessionError::MalformedFrameError),
        }),
        state == MmrState::AwaitProof ==> (r matches Ok(Step::Done(v)) && v == result),
{
    match state {
        MmrState::AwaitHead => match fetch_block_head_hash(&result) {
            Ok(h) => Ok(Step::Send { call: block_call(h.as_str()), next: MmrState::AwaitBlock }),
            Err(e) => Err(e),
        },
        MmrState::AwaitBlock => match fetch_block_number(&result) {
            Ok(n) => {
                let mut numbers: Vec<u64> = Vec::new();
                numbers.push(n);
                assert(numbers@ =~= seq![n]);
                Ok(Step::Send { call: proof_call(&numbers), next: MmrState::AwaitProof })
            },
            Err(e) => Err(e),
        },
        MmrState::AwaitProof => Ok(Step::Done(result)),
    }
}

/// What a block fetch still waits for.
#[derive(Debug, Clone, Copy, PartialEq, Eq, Structural)]
pub enum FetchState {
    /// The hash of the block.
    AwaitHash,
    /// The block itself.
    AwaitBlock,
}

/// Starts a block fetch. A block number is normalised and asked for by
/// number; without one the head is asked for. Fails with
/// `NumericFormatError` exactly where the number has no normal form.
pub fn fetch_block(block_number: Option<&str>) -> (r: Result<(FetchState, Call), SessionError>)
    ensures
        block_number is None ==> (r matches Ok(p) && p.0 == FetchState::AwaitHash && asks_head(
            p.1,
        )),
        block_number matches Some(t) ==> (match normal_form(t@) {
            Some(h) => r matches Ok(p) && p.0 == FetchState::AwaitHash && asks_with_text(
                p.1,
                "chain_getBlockHash"@,
                h,
            ),
            None => r matches Err(SessionError::NumericFormatError),
        }),
{
    match identify_if_hexadecimal_or_decimal(block_number) {
        Ok(Some(h)) => Ok((FetchState::AwaitHash, block_hash_call(h.as_str()))),
        Ok(None) => Ok((FetchState::AwaitHash, head_call())),
        Err(_) => Err(SessionError::NumericFormatError),
    }
}

/// Moves a block fetch on: the hash leads to the call for the block with
/// that hash, and the block ends the sequence.
pub fn fetch_advance(state: FetchState, result: Value) -> (r: Result<
    Step<FetchState>,
    SessionError,
>)
    ensures
        state == FetchState::AwaitHash ==> (match json_str(result) {
            Some(h) => r matches Ok(Step::Send { call, next }) && next == FetchState::AwaitBlock
                && asks_with_text(call, "chain_getBlock"@, h),
            None => r matches Err(SessionError::MalformedFrameError),
        }),
        state == FetchState::AwaitBlock ==> (r matches Ok(Step::Done(v)) && v == result),
{
    match state {
        FetchState::AwaitHash => match fetch_block_head_hash(&result) {
            Ok(h) => Ok(Step::Send { call: block_call(h.as_str()), next: FetchState::AwaitBlock }),
            Err(e) => Err(e),
        },
        FetchState::AwaitBlock => Ok(Step::Done(result)),
    }
}

/// The identifier of the call at a position of the metadata batch.
pub open spec fn batch_id(i: int) -> Seq<char> {
    if i == 0 {
        "1"@
    } else if i == 1 {
        "2"@
    } else if i == 2 {
        "3"@
    } else if i == 3 {
        "4"@
    } else if i == 4 {
        "5"@
    } else if i == 5 {
        "6"@
    } else if i == 6 {
        "7"@
    } else if i == 7 {
        "8"@
    } else {
        "9"@
    }
}

/// The method of the call at a position of the metadata batch. The fifth
/// call asks for the block's hash: by number where one is given, else the
/// head's.
pub open spec fn batch_method(i: int, by_number: bool) -> Seq<char> {
    if i == 0 {
        "system_version"@
    } else if i == 1 {
        "system_name"@
    } else if i == 2 {
        "system_chain"@
    } else if i == 3 {
        "system_health"@
    } else if i == 4 {
        if by_number {
            "chain_getBlockHash"@
        } else {
            "chain_getHead"@
        }
    } else if i == 5 {
        "chain_getFinalizedHead"@
    } else if i == 6 {
        "state_getRuntimeVersion"@
    } else if i == 7 {
        "system_peers"@
    } else {
        "system_syncState"@
    }
}

/// The identifiers whose replies the metadata batch waits for: that of
/// every call in it, in the order of the calls.
pub open spec fn awaited_ids() -> Seq<Seq<char>> {
    Seq::new(9, |i: int| batch_id(i))
}

/// No two calls of the metadata batch carry the same identifier.
pub proof fn lemma_batch_ids_distinct()
    ensures
        forall|i: int, j: int| 0 <= i < j < 9 ==> batch_id(i) != batch_id(j),
{
    reveal_strlit("1");
    reveal_strlit("2");
    reveal_strlit("3");
    reveal_strlit("4");
    reveal_strlit("5");
    reveal_strlit("6");
    reveal_strlit("7");
    reveal_strlit("8");
    reveal_strlit("9");
    assert forall|i: int, j: int| 0 <= i < j < 9 implies batch_id(i) != batch_id(j) by {
        assert(batch_id(i)[0] != batch_id(j)[0]);
    }
}

/// The metadata batch awaits every call it sends: calls that carry the
/// batch's identifiers in order carry exactly the awaited identifiers, so
/// the table is complete only once each of them has been answered.
pub proof fn lemma_every_call_awaited(calls: Seq<Call>)
    requires
        calls.len() == 9,
        forall|i: int| 0 <= i < 9 ==> (#[trigger] calls[i]).id@ == batch_id(i),
    ensures
        awaited_ids().len() == calls.len(),
        forall|i: int| 0 <= i < calls.len() ==> awaited_ids()[i] == (#[trigger] calls[i]).id@,
{
}

/// The identifier and the method at a position of the metadata batch.
fn batch_entry(i: usize, by_number: bool) -> (r: (&'static str, &'static str))
    requires
        i < 9,
    ensures
        r.0@ == batch_id(i as int),
        r.1@ == batch_method(i as int, by_number),
{
    if i == 0 {
        ("1", "system_version")
    } else if i == 1 {
        ("2", "system_name")
    } else if i == 2 {
        ("3", "system_chain")
    } else if i == 3 {
        ("4", "system_health")
    } else if i == 4 {
        if by_number {
            ("5", "chain_getBlockHash")
        } else {
            ("5", "chain_getHead")
        }
    } else if i == 5 {
        ("6", "chain_getFinalizedHead")
    } else if i == 6 {
        ("7", "state_getRuntimeVersion")
    } else if i == 7 {
        ("8", "system_peers")
    } else {
        ("9", "system_syncState")
    }
}

/// The batch of the extended block fetch: nine calls with the identifiers
/// `1` to `9`. All are without parameters but the fifth, whose one
/// parameter is the normalised block number, or null where none is given.
pub fn metadata_calls(block: Option<&str>) -> (r: Vec<Call>)
    ensures
        r@.len() == 9,
        forall|i: int|
            0 <= i < 9 ==> (#[trigger] r@[i]).id@ == batch_id(i) && r@[i].method@ == batch_method(
                i,
                block is Some,
            ),
        forall|i: int, j: int| 0 <= i < j < 9 ==> (#[trigger] r@[i]).id@ != (#[trigger] r@[j]).id@,
        forall|i: int| 0 <= i < 9 && i != 4 ==> (#[trigger] r@[i]).params@.len() == 0,
        r@[4].params@.len() == 1,
        block matches Some(h) ==> json_str(r@[4].params@[0]) == Some(h@),
        block is None ==> is_null(r@[4].params@[0]),
{
    let mut calls: Vec<Call> = Vec::new();
    let mut i: usize = 0;
    while i < 9
        invariant
            i <= 9,
            calls@.len() == i,
            forall|k: int|
                0 <= k < i ==> (#[trigger] calls@[k]).id@ == batch_id(k) && calls@[k].method@
                    == batch_method(k, block is Some),
            forall|k: int| 0 <= k < i && k != 4 ==> (#[trigger] calls@[k]).params@.len() == 0,
            i > 4 ==> calls@[4].params@.len() == 1,
            i > 4 ==> (block matches Some(h) ==> json_str(calls@[4].params@[0]) == Some(h@)),
            i > 4 ==> (block is None ==> is_null(calls@[4].params@[0])),
        decreases 9 - i,
    {
        let entry = batch_entry(i, block.is_some());
        let mut params: Vec<Value> = Vec::new();
        if i == 4 {
            match block {
                Some(h) => params.push(json_string(h)),
                None => params.push(json_null()),
            }
        }
        calls.push(
            Call { id: String::from_str(entry.0), method: String::from_str(entry.1), params },
        );
        i += 1;
    }
    proof {
        lemma_batch_ids_distinct();
    }
    calls
}

/// Starts an extended block fetch: the block number is normalised, and the
/// metadata batch goes out. Fails with `NumericFormatError` exactly where
/// the number has no normal form.
pub fn fetch_block_extended(block_number: Option<&str>) -> (r: Result<Vec<Call>, SessionError>)
    ensures
        r is Ok <==> (block_number matches Some(t) ==> normal_form(t@) is Some),
        r matches Ok(calls) ==> ({
            &&& calls@.len() == 9
            &&& forall|i: int|
                0 <= i < 9 ==> (#[trigger] calls@[i]).id@ == batch_id(i) && calls@[i].method@
                    == batch_method(i, block_number is Some)
            &&& forall|i: int, j: int|
                0 <= i < j < 9 ==> (#[trigger] calls@[i]).id@ != (#[trigger] calls@[j]).id@
            &&& forall|i: int| 0 <= i < 9 && i != 4 ==> (#[trigger] calls@[i]).params@.len() == 0
            &&& calls@[4].params@.len() == 1
            &&& block_number matches Some(t) ==> Some(json_str(calls@[4].params@[0]).unwrap())
                == normal_form(t@) && json_str(calls@[4].params@[0]) is Some
            &&& block_number is None ==> is_null(calls@[4].params@[0])
        }),
        r matches Err(e) ==> e is NumericFormatError,
{
    match identify_if_hexadecimal_or_decimal(block_number) {
        Ok(Some(h)) => Ok(metadata_calls(Some(h.as_str()))),
        Ok(None) => Ok(metadata_calls(None)),
        Err(e) => Err(e),
    }
}

/// The table that waits for the replies to the metadata batch: one slot
/// for each of its calls.
pub fn metadata_table() -> (t: PendingTable)
    ensures
        t.wf(),
        t.ids() == awaited_ids(),
        t.slots().len() == 9,
        forall|i: int| 0 <= i < 9 ==> (#[trigger] t.slots()[i]) is None,
{
    let mut ids: Vec<String> = Vec::new();
    ids.push(String::from_str("1"));
    ids.push(String::from_str("2"));
    ids.push(String::from_str("3"));
    ids.push(String::from_str("4"));
    ids.push(String::from_str("5"));
    ids.push(String::from_str("6"));
    ids.push(String::from_str("7"));
    ids.push(String::from_str("8"));
    ids.push(String::from_str("9"));
    proof {
        reveal_strlit("1");
        reveal_strlit("2");
        reveal_strlit("3");
        reveal_strlit("4");
        reveal_strlit("5");
        reveal_strlit("6");
        reveal_strlit("7");
        reveal_strlit("8");
        reveal_strlit("9");
        let texts = Seq::new(ids@.len(), |i: int| ids@[i]@);
        assert(texts =~= awaited_ids());
        assert forall|i: int, j: int| 0 <= i < j < texts.len() implies texts[i] != texts[j] by {
            assert(texts[i][0] != texts[j][0]);
        }
    }
    PendingTable::new(ids).unwrap()
}

/// The text of a JSON string, and the empty text for any other value.
pub open spec fn text_or_empty(v: Value) -> Seq<char> {
    match json_str(v) {
        Some(s) => s,
        None => Seq::empty(),
    }
}

/// Whether the member under the key is the JSON string with this text.
pub open spec fn has_text(m: Value, key: Seq<char>, text: Seq<char>) -> bool {
    json_field(m, key) matches Some(x) && json_str(x) == Some(text)
}

/// Whether the text is the name of a member of the metadata.
pub open spec fn is_metadata_name(k: Seq<char>) -> bool {
    k == "version"@ || k == "client"@ || k == "chain"@ || k == "health"@ || k == "finalized_head"@
        || k == "peers"@ || k == "sync_state"@
}

/// Whether a JSON value is the metadata made of the batch's results, which
/// come in the order of the calls: these seven members and no other. The
/// hash and the runtime version are awaited with the rest and are no part
/// of the metadata.
pub open spec fn is_metadata(m: Value, results: Seq<Value>) -> bool {
    &&& forall|k: Seq<char>| !is_metadata_name(k) ==> (#[trigger] json_field(m, k)) is None
    &&& has_text(m, "version"@, text_or_empty(results[0]))
    &&& has_text(m, "client"@, text_or_empty(results[1]))
    &&& has_text(m, "chain"@, text_or_empty(results[2]))
    &&& json_field(m, "health"@) == Some(results[3])
    &&& has_text(m, "finalized_head"@, text_or_empty(results[5]))
    &&& json_field(m, "peers"@) == Some(results[7])
    &&& json_field(m, "sync_state"@) == Some(results[8])
}

/// The JSON string of a value's text, or of the empty text.
fn text_value(v: &Value) -> (r: Value)
    ensures
        json_str(r) == Some(text_or_empty(*v)),
{
    match value_text(v) {
        Some(t) => json_string(t.as_str()),
        None => {
            let empty = String::new();
            json_string(empty.as_str())
        },
    }
}

/// The names of the metadata's members differ from one another.
proof fn lemma_metadata_names()
    ensures
        "version"@.len() == 7,
        "client"@.len() == 6 && "client"@[0] == 'c',
        "chain"@.len() == 5 && "chain"@[0] == 'c',
        "health"@.len() == 6 && "health"@[0] == 'h',
        "finalized_head"@.len() == 14,
        "peers"@.len() == 5 && "peers"@[0] == 'p',
        "sync_state"@.len() == 10,
{
    reveal_strlit("version");
    reveal_strlit("client");
    reveal_strlit("chain");
    reveal_strlit("health");
    reveal_strlit("finalized_head");
    reveal_strlit("peers");
    reveal_strlit("sync_state");
}

/// What follows the completed metadata batch: the call for the block with
/// the hash that the fifth call returned, and the metadata made of the
/// other results. Fails with `MalformedFrameError` where the results are
/// not the nine awaited ones, or the hash is no string.
pub fn fetch_metadata(results: &Vec<Value>) -> (r: Result<(Call, Value), SessionError>)
    ensures
        r is Ok <==> results@.len() == 9 && json_str(results@[4]) is Some,
        r matches Ok(p) ==> asks_with_text(p.0, "chain_getBlock"@, json_str(results@[4]).unwrap())
            && is_metadata(p.1, results@),
        r matches Err(e) ==> e is MalformedFrameError,
{
    if results.len() != 9 {
        return Err(SessionError::MalformedFrameError);
    }
    let hash = match value_text(&results[4]) {
        Some(h) => h,
        None => {
            return Err(SessionError::MalformedFrameError);
        },
    };
    proof {
        lemma_metadata_names();
    }
    let m0 = json_null();
    let m1 = set_field(m0, "version", text_value(&results[0]));
    let m2 = set_field(m1, "client", text_value(&results[1]));
    let m3 = set_field(m2, "chain", text_value(&results[2]));
    let m4 = set_field(m3, "health", value_clone(&results[3]));
    let m5 = set_field(m4, "finalized_head", text_value(&results[5]));
    let m6 = set_field(m5, "peers", value_clone(&results[7]));
    let m7 = set_field(m6, "sync_state", value_clone(&results[8]));
    assert(json_field(m7, "version"@) == json_field(m1, "version"@));
    assert(json_field(m7, "client"@) == json_field(m2, "client"@));
    assert(json_field(m7, "chain"@) == json_field(m3, "chain"@));
    assert(json_field(m7, "health"@) == json_field(m4, "health"@));
    assert(json_field(m7, "finalized_head"@) == json_field(m5, "finalized_head"@));
    assert(json_field(m7, "peers"@) == json_field(m6, "peers"@));
    Ok((block_call(hash.as_str()), m7))
}

/// Puts the metadata into the block payload under the member `metadata`;
/// every other member of the payload stays. Fails with
/// `MalformedFrameError` exactly where the payload can take no member:
/// where it is neither an object nor null.
pub fn merge_metadata(block: Value, metadata: Value) -> (r: Result<Value, SessionError>)
    ensures
        r is Ok <==> json_accepts_fields(block),
        r matches Ok(v) ==> json_field(v, "metadata"@) == Some(metadata) && forall|k: Seq<char>|
            k != "metadata"@ ==> (#[trigger] json_field(v, k)) == json_field(block, k),
        r matches Err(e) ==> e is MalformedFrameError,
{
    if value_is_object(&block) || value_is_null(&block) {
        Ok(set_field(block, "metadata", metadata))
    } else {
        Err(SessionError::MalformedFrameError)
    }
}

} // verus!
