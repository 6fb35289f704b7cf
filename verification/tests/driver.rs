use serde_json::Value;
use wsrpc::call::{encode_batch, Call};
use wsrpc::correlate::{await_reply, Inbound};
use wsrpc::driver::{
    block_call, block_hash_call, fetch_advance, fetch_block, fetch_block_extended,
    fetch_block_head_hash, fetch_block_number, fetch_metadata, get_mmr_proof, head_call,
    merge_metadata, metadata_calls, metadata_table, mmr_advance, proof_call, single_call,
    FetchState, MmrState, Step,
};
use wsrpc::error::SessionError;

fn value(text: &str) -> Value {
    serde_json::from_str(text).unwrap()
}

fn wire(call: &Call) -> Value {
    value(&call.encode())
}

#[test]
fn single_calls_carry_the_fixed_identifier() {
    let c = single_call("system_name", vec![value("1")]);
    assert_eq!(c.id, "1");
    assert_eq!(c.method, "system_name");
    assert_eq!(c.params, vec![value("1")]);
}

#[test]
fn the_calls_on_the_wire() {
    assert_eq!(
        wire(&head_call()),
        value(r#"{"jsonrpc":"2.0","id":"1","method":"chain_getHead","params":[]}"#)
    );
    assert_eq!(
        wire(&block_call("0xabc")),
        value(r#"{"jsonrpc":"2.0","id":"1","method":"chain_getBlock","params":["0xabc"]}"#)
    );
    assert_eq!(
        wire(&block_hash_call("0x1a")),
        value(r#"{"jsonrpc":"2.0","id":"1","method":"chain_getBlockHash","params":["0x1a"]}"#)
    );
    assert_eq!(
        wire(&proof_call(&vec![1, 2, 3])),
        value(r#"{"jsonrpc":"2.0","id":"1","method":"mmr_generateProof","params":[[1,2,3]]}"#)
    );
    assert_eq!(
        wire(&proof_call(&vec![u64::MAX])),
        value(r#"{"jsonrpc":"2.0","id":"1","method":"mmr_generateProof","params":[[18446744073709551615]]}"#)
    );
}

#[test]
fn fetch_without_number_asks_head_then_block() {
    let (state, first) = fetch_block(None).unwrap();
    assert_eq!(state, FetchState::AwaitHash);
    assert_eq!(first.method, "chain_getHead");
    assert!(first.params.is_empty());
    let events = vec![
        Inbound::Text(r#"{"jsonrpc":"2.0","id":"1","result":"0xfeed"}"#.to_string()),
    ];
    let hash = await_reply(first.id.as_str(), &events).unwrap().unwrap();
    let second = match fetch_advance(state, hash).unwrap() {
        Step::Send { call, next } => {
            assert_eq!(next, FetchState::AwaitBlock);
            call
        }
        other => panic!("{:?}", other),
    };
    assert_eq!(
        wire(&second),
        value(r#"{"jsonrpc":"2.0","id":"1","method":"chain_getBlock","params":["0xfeed"]}"#)
    );
    let block = value(r#"{"block":{"header":{"number":"0x2a","parentHash":"0x00"},"extrinsics":[]}}"#);
    match fetch_advance(FetchState::AwaitBlock, block.clone()).unwrap() {
        Step::Done(out) => assert_eq!(out, block),
        other => panic!("{:?}", other),
    }
}

#[test]
fn fetch_with_number_asks_hash_by_number() {
    let (state, first) = fetch_block(Some("26")).unwrap();
    assert_eq!(state, FetchState::AwaitHash);
    assert_eq!(
        wire(&first),
        value(r#"{"jsonrpc":"2.0","id":"1","method":"chain_getBlockHash","params":["0x1a"]}"#)
    );
    let (_, again) = fetch_block(Some("0x1a")).unwrap();
    assert_eq!(wire(&again), wire(&first));
}

#[test]
fn fetch_refuses_a_malformed_number() {
    assert!(matches!(fetch_block(Some("latest")), Err(SessionError::NumericFormatError)));
    assert!(matches!(fetch_block_extended(Some("latest")), Err(SessionError::NumericFormatError)));
}

#[test]
fn hash_must_be_text() {
    assert_eq!(fetch_block_head_hash(&value(r#""0xabc""#)), Ok("0xabc".to_string()));
    assert_eq!(
        fetch_block_head_hash(&value(r#"{"hash":"0xabc"}"#)),
        Err(SessionError::MalformedFrameError)
    );
    assert!(matches!(
        fetch_advance(FetchState::AwaitHash, Value::Null),
        Err(SessionError::MalformedFrameError)
    ));
    assert!(matches!(
        mmr_advance(MmrState::AwaitHead, value("17")),
        Err(SessionError::MalformedFrameError)
    ));
}

#[test]
fn block_number_from_payload() {
    assert_eq!(fetch_block_number(&value(r#"{"block":{"header":{"number":"0x1a"}}}"#)), Ok(26));
    assert_eq!(fetch_block_number(&value(r#"{"block":{"header":{"number":"ff"}}}"#)), Ok(255));
}

#[test]
fn block_number_missing_or_malformed() {
    for text in [
        r#"{}"#,
        r#"{"block":{}}"#,
        r#"{"block":{"header":{}}}"#,
        r#"{"block":{"header":{"number":26}}}"#,
        r#"null"#,
        r#"[1]"#,
    ] {
        assert_eq!(fetch_block_number(&value(text)), Err(SessionError::MalformedFrameError), "{}", text);
    }
    assert_eq!(
        fetch_block_number(&value(r#"{"block":{"header":{"number":"0xzz"}}}"#)),
        Err(SessionError::NumericFormatError)
    );
    for text in ["", "0x", "0x0x1a", "0x+1a", "+1a", "0x10000000000000000"] {
        let payload = format!(r#"{{"block":{{"header":{{"number":"{}"}}}}}}"#, text);
        assert_eq!(
            fetch_block_number(&value(&payload)),
            Err(SessionError::NumericFormatError),
            "{:?}",
            text
        );
    }
}

#[test]
fn proof_for_explicit_numbers_is_one_call() {
    let (state, call) = get_mmr_proof(Some(vec![1, 2, 3]));
    assert_eq!(state, MmrState::AwaitProof);
    assert_eq!(call.method, "mmr_generateProof");
    assert_eq!(call.params, vec![value("[1,2,3]")]);
    let proof = value(r#"{"blockHash":"0x01","leaves":"0x02","proof":"0x03"}"#);
    match mmr_advance(state, proof.clone()).unwrap() {
        Step::Done(out) => assert_eq!(out, proof),
        other => panic!("{:?}", other),
    }
}

#[test]
fn proof_without_numbers_looks_up_the_head() {
    let (state, first) = get_mmr_proof(None);
    assert_eq!(state, MmrState::AwaitHead);
    assert_eq!(
        wire(&first),
        value(r#"{"jsonrpc":"2.0","id":"1","method":"chain_getHead","params":[]}"#)
    );
    let (state, second) = match mmr_advance(state, value(r#""0xbeef""#)).unwrap() {
        Step::Send { call, next } => (next, call),
        other => panic!("{:?}", other),
    };
    assert_eq!(state, MmrState::AwaitBlock);
    assert_eq!(
        wire(&second),
        value(r#"{"jsonrpc":"2.0","id":"1","method":"chain_getBlock","params":["0xbeef"]}"#)
    );
    let block = value(r#"{"block":{"header":{"number":"0x1a"}}}"#);
    let (state, third) = match mmr_advance(state, block).unwrap() {
        Step::Send { call, next } => (next, call),
        other => panic!("{:?}", other),
    };
    assert_eq!(state, MmrState::AwaitProof);
    assert_eq!(
        wire(&third),
        value(r#"{"jsonrpc":"2.0","id":"1","method":"mmr_generateProof","params":[[26]]}"#)
    );
}

#[test]
fn proof_sequence_stops_on_a_bad_block() {
    assert!(matches!(
        mmr_advance(MmrState::AwaitBlock, value(r#"{"block":{}}"#)),
        Err(SessionError::MalformedFrameError)
    ));
    assert!(matches!(
        mmr_advance(MmrState::AwaitBlock, value(r#"{"block":{"header":{"number":"0x"}}}"#)),
        Err(SessionError::NumericFormatError)
    ));
}

#[test]
fn closed_channel_during_a_call() {
    let (_, call) = get_mmr_proof(None);
    let events = vec![Inbound::Text(r#"{"id":"other","result":1}"#.to_string()), Inbound::Closed];
    assert_eq!(await_reply(call.id.as_str(), &events), Some(Err(SessionError::ClosedError)));
}

#[test]
fn metadata_batch_by_number() {
    let calls = fetch_block_extended(Some("26")).unwrap();
    assert_eq!(
        value(&encode_batch(&calls)),
        value(
            r#"[
            {"jsonrpc":"2.0","id":"1","method":"system_version","params":[]},
            {"jsonrpc":"2.0","id":"2","method":"system_name","params":[]},
            {"jsonrpc":"2.0","id":"3","method":"system_chain","params":[]},
            {"jsonrpc":"2.0","id":"4","method":"system_health","params":[]},
            {"jsonrpc":"2.0","id":"5","method":"chain_getBlockHash","params":["0x1a"]},
            {"jsonrpc":"2.0","id":"6","method":"chain_getFinalizedHead","params":[]},
            {"jsonrpc":"2.0","id":"7","method":"state_getRuntimeVersion","params":[]},
            {"jsonrpc":"2.0","id":"8","method":"system_peers","params":[]},
            {"jsonrpc":"2.0","id":"9","method":"system_syncState","params":[]}
            ]"#
        )
    );
}

#[test]
fn metadata_batch_for_the_head() {
    let calls = metadata_calls(None);
    assert_eq!(calls.len(), 9);
    assert_eq!(calls[4].method, "chain_getHead");
    assert_eq!(calls[4].params, vec![Value::Null]);
    let same = fetch_block_extended(None).unwrap();
    assert_eq!(value(&encode_batch(&same)), value(&encode_batch(&calls)));
}

#[test]
fn metadata_is_collected_and_merged() {
    let mut table = metadata_table();
    assert_eq!(table.len(), 9);
    table
        .absorb_frame(
            r#"[{"id":"1","result":"1.2.3"},{"id":"2","result":"Node"},{"id":"3","result":"Dev"},
                {"id":"4","result":{"peers":3,"isSyncing":false}}]"#,
        )
        .unwrap();
    assert_eq!(table.finish(), None);
    table
        .absorb_frame(
            r#"[{"id":"9","result":{"currentBlock":26}},{"id":"8","result":[]},
                {"id":"6","result":"0xf1"},{"id":"5","result":"0xabc"}]"#,
        )
        .unwrap();
    assert!(!table.is_complete());
    assert_eq!(table.finish(), None);
    table.absorb_frame(r#"{"id":"7","result":{"specVersion":9}}"#).unwrap();
    let results = table.finish().unwrap().unwrap();
    assert_eq!(results.len(), 9);
    let (call, metadata) = fetch_metadata(&results).unwrap();
    assert_eq!(
        wire(&call),
        value(r#"{"jsonrpc":"2.0","id":"1","method":"chain_getBlock","params":["0xabc"]}"#)
    );
    assert_eq!(
        metadata,
        value(
            r#"{"version":"1.2.3","client":"Node","chain":"Dev","health":{"peers":3,"isSyncing":false},
                "finalized_head":"0xf1","peers":[],"sync_state":{"currentBlock":26}}"#
        )
    );
    let block = value(r#"{"block":{"header":{"number":"0x1a"}},"justifications":null}"#);
    let merged = merge_metadata(block, metadata.clone()).unwrap();
    assert_eq!(merged["metadata"], metadata);
    assert_eq!(merged["block"], value(r#"{"header":{"number":"0x1a"}}"#));
    assert_eq!(merged["justifications"], Value::Null);
    assert_eq!(merged.as_object().unwrap().len(), 3);
}

#[test]
fn metadata_needs_all_results_and_a_hash() {
    assert!(matches!(fetch_metadata(&Vec::new()), Err(SessionError::MalformedFrameError)));
    let mut results: Vec<Value> = Vec::new();
    for _ in 0..8 {
        results.push(Value::Null);
    }
    results[4] = value(r#""0x01""#);
    assert!(matches!(fetch_metadata(&results), Err(SessionError::MalformedFrameError)));
    results[4] = Value::Null;
    results.push(Value::Null);
    assert!(matches!(fetch_metadata(&results), Err(SessionError::MalformedFrameError)));
    results[4] = value(r#""0x01""#);
    let (_, metadata) = fetch_metadata(&results).unwrap();
    assert_eq!(metadata["version"], value(r#""""#));
    assert_eq!(metadata["health"], Value::Null);
}

#[test]
fn merge_into_a_payload_that_is_no_object() {
    assert!(matches!(
        merge_metadata(value(r#""text""#), Value::Null),
        Err(SessionError::MalformedFrameError)
    ));
    assert!(matches!(merge_metadata(value("[1]"), Value::Null), Err(SessionError::MalformedFrameError)));
    let merged = merge_metadata(Value::Null, value("1")).unwrap();
    assert_eq!(merged, value(r#"{"metadata":1}"#));
}

#[test]
fn every_call_of_the_batch_is_awaited() {
    let calls = metadata_calls(Some("0x1a"));
    let mut table = metadata_table();
    assert_eq!(table.len(), calls.len());
    for (k, call) in calls.iter().enumerate() {
        assert_eq!(table.finish(), None, "complete before the reply to {}", call.id);
        let frame = format!(r#"{{"id":"{}","result":"r{}"}}"#, call.id, k);
        table.absorb_frame(&frame).unwrap();
    }
    let results = table.finish().unwrap().unwrap();
    for (k, got) in results.iter().enumerate() {
        assert_eq!(*got, Value::from(format!("r{}", k)));
    }
}
