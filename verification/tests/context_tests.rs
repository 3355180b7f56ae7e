use wasmlib::context::PostRequestParams;
use wasmlib::context::ScFuncContext;
use wasmlib::context::ScTransfers;
use wasmlib::context::ScViewContext;
use wasmlib::hashtypes::ScAddress;
use wasmlib::hashtypes::ScChainId;
use wasmlib::hashtypes::ScColor;
use wasmlib::hashtypes::ScContractId;
use wasmlib::hashtypes::ScHname;
use wasmlib::host::Host;
use wasmlib::host::OBJ_ID_ROOT;
use wasmlib::host::TYPE_AGENT_ID;
use wasmlib::host::TYPE_CONTRACT_ID;
use wasmlib::host::TYPE_INT;
use wasmlib::keys::KEY_CALLER;
use wasmlib::keys::KEY_CHAIN_OWNER_ID;
use wasmlib::keys::KEY_CONTRACT_CREATOR;
use wasmlib::keys::KEY_CONTRACT_ID;
use wasmlib::keys::Key32;

fn seeded_host() -> Host {
    let mut host = Host::new();
    host.set_bytes(OBJ_ID_ROOT, Key32(KEY_CALLER), TYPE_AGENT_ID, &[9u8; 37]);
    host.set_bytes(OBJ_ID_ROOT, Key32(KEY_CHAIN_OWNER_ID), TYPE_AGENT_ID, &[8u8; 37]);
    host.set_bytes(OBJ_ID_ROOT, Key32(KEY_CONTRACT_CREATOR), TYPE_AGENT_ID, &[9u8; 37]);
    host.set_bytes(OBJ_ID_ROOT, Key32(KEY_CONTRACT_ID), TYPE_CONTRACT_ID, &[6u8; 37]);
    host
}

#[test]
fn context_identities_read_back() {
    let mut host = seeded_host();
    let ctx = ScFuncContext::new();
    assert_eq!(ctx.caller(&host).to_bytes(), vec![9u8; 37]);
    assert_eq!(ctx.chain_owner_id(&host).to_bytes(), vec![8u8; 37]);
    assert_eq!(ctx.contract_creator(&host).to_bytes(), vec![9u8; 37]);
    assert_eq!(ctx.contract_id(&host).to_bytes(), vec![6u8; 37]);
    let vctx = ScViewContext::new();
    assert_eq!(vctx.chain_owner_id(&host).to_bytes(), vec![8u8; 37]);
    let _ = &mut host;
}

#[test]
fn state_written_by_full_context_is_visible_to_view() {
    let mut host = Host::new();
    let ctx = ScFuncContext::new();
    ctx.state(&mut host).get_int("x", &mut host).set_value(&mut host, 7);
    let vctx = ScViewContext::new();
    let ro = vctx.state(&mut host);
    assert!(ro.get_int("x", &mut host).present(&host));
    assert_eq!(ro.get_int("x", &mut host).value(&host), 7);
}

#[test]
fn results_map_is_shared_surface() {
    let mut host = Host::new();
    let ctx = ScFuncContext::new();
    let vctx = ScViewContext::new();
    vctx.results(&mut host).get_string("out", &mut host).set_value(&mut host, "ok");
    assert_eq!(ctx.results(&mut host).get_string("out", &mut host).value(&host), "ok");
}

#[test]
fn balances_default_to_zero() {
    let mut host = Host::new();
    let ctx = ScFuncContext::new();
    let balances = ctx.balances(&mut host);
    assert_eq!(balances.balance(&ScColor::iota(), &mut host), 0);
}

#[test]
fn incoming_balance_reads_seeded_amount() {
    let mut host = Host::new();
    let ctx = ScFuncContext::new();
    let incoming = ctx.incoming(&mut host);
    // seed the incoming balance for the iota color by hand
    let ck = host.intern_key_bytes(ScColor::iota().to_bytes().as_slice());
    let mut enc: Vec<u8> = Vec::new();
    wasmlib::codec::append_u64_le(&mut enc, 25);
    host.set_bytes(incoming.obj_id, ck, TYPE_INT, enc.as_slice());
    assert_eq!(incoming.balance(&ScColor::iota(), &mut host), 25);
}

#[test]
fn call_records_one_effect_and_yields_empty_results() {
    let mut host = Host::new();
    let ctx = ScFuncContext::new();
    let ret = ctx.call(ScHname(1), ScHname(2), None, None, &mut host);
    assert_eq!(host.effect_count(), 1);
    assert!(!ret.get_int("anything", &mut host).present(&host));
}

#[test]
fn post_deploy_transfer_record_effects() {
    let mut host = Host::new();
    let ctx = ScFuncContext::new();
    let chain = ScChainId::from_bytes(&[1u8; 33]);
    let target = ScContractId::new(&chain, &ScHname(5));
    let par = PostRequestParams {
        contract_id: target,
        function: ScHname(6),
        params: None,
        transfer: Some(ScTransfers::new(&ScColor::iota(), 2)),
        delay: 10,
    };
    ctx.post(&par, &mut host);
    let hash = ctx.utility().hash_blake2b("program".as_bytes());
    ctx.deploy(&hash, "other", "another instance", None, &mut host);
    let addr = ScAddress::from_bytes(&[2u8; 33]);
    ctx.transfer_to_address(&addr, ScTransfers::new(&ScColor::iota(), 7), &mut host);
    assert_eq!(host.effect_count(), 3);
}

#[test]
fn context_log_and_event_append() {
    let mut host = Host::new();
    let ctx = ScFuncContext::new();
    ctx.log("a line", &mut host);
    ctx.event("an event", &mut host);
    let vctx = ScViewContext::new();
    vctx.log("view line", &mut host);
    assert_eq!(host.log_count(), 2);
    assert_eq!(host.log_at(1), "view line");
    assert_eq!(host.event_count(), 1);
}

#[test]
fn utility_hname_matches_schname_new() {
    let ctx = ScFuncContext::new();
    let a = ctx.utility().hname("accounts");
    let b = ScHname::new("accounts");
    assert!(a == b);
    let c = ScHname::new("account5");
    assert!(!(a == c));
}

#[test]
fn utility_base58_and_blake2b() {
    let ctx = ScFuncContext::new();
    assert_eq!(ctx.utility().base58_encode(&[]), "");
    assert_eq!(ctx.utility().base58_encode(&[0]), "1");
    assert_eq!(ctx.utility().base58_encode(&[0, 0]), "11");
    assert_eq!(ctx.utility().base58_decode("1"), Some(vec![0u8]));
    assert_eq!(ctx.utility().base58_decode("0"), None);
    let text = ctx.utility().base58_encode(&[1, 2, 3, 255]);
    assert_eq!(ctx.utility().base58_decode(&text), Some(vec![1u8, 2, 3, 255]));
    let d1 = ctx.utility().hash_blake2b(b"abc");
    let d2 = ctx.utility().hash_blake2b(b"abc");
    let d3 = ctx.utility().hash_blake2b(b"abd");
    assert!(d1 == d2);
    assert!(!(d1 == d3));
    assert_eq!(d1.to_bytes().len(), 32);
}
