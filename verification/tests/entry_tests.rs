use wasmlib::codec::append_u64_le;
use wasmlib::codec::read_u64_le;
use wasmlib::context::ScFuncContext;
use wasmlib::context::ScViewContext;
use wasmlib::hashtypes::ScHname;
use wasmlib::host::Host;
use wasmlib::host::OBJ_ID_ROOT;
use wasmlib::host::TYPE_AGENT_ID;
use wasmlib::host::TYPE_CONTRACT_ID;
use wasmlib::host::TYPE_HASH;
use wasmlib::host::TYPE_HNAME;
use wasmlib::host::TYPE_INT;
use wasmlib::host::TYPE_MAP;
use wasmlib::host::TYPE_STRING;
use wasmlib::keys::KEY_CALLER;
use wasmlib::keys::KEY_CHAIN_OWNER_ID;
use wasmlib::keys::KEY_CONTRACT_CREATOR;
use wasmlib::keys::KEY_CONTRACT_ID;
use wasmlib::keys::KEY_PARAMS;
use wasmlib::keys::KEY_RESULTS;
use wasmlib::keys::KEY_STATE;
use wasmlib::keys::Key32;
use wasmlib::testcore::func_call_on_chain;
use wasmlib::testcore::func_do_nothing;
use wasmlib::testcore::func_set_int;
use wasmlib::testcore::func_test_event_log_generic_data;
use wasmlib::testcore::func_test_panic_full_ep;
use wasmlib::testcore::func_withdraw_to_chain;
use wasmlib::testcore::view_fibonacci;
use wasmlib::testcore::view_get_counter;
use wasmlib::testcore::view_get_int;
use wasmlib::testcore::view_pass_types_view;
use wasmlib::testcore::view_test_sandbox_call;

fn seeded_host() -> Host {
    let mut host = Host::new();
    host.set_bytes(OBJ_ID_ROOT, Key32(KEY_CALLER), TYPE_AGENT_ID, &[9u8; 37]);
    host.set_bytes(OBJ_ID_ROOT, Key32(KEY_CHAIN_OWNER_ID), TYPE_AGENT_ID, &[8u8; 37]);
    host.set_bytes(OBJ_ID_ROOT, Key32(KEY_CONTRACT_CREATOR), TYPE_AGENT_ID, &[9u8; 37]);
    host.set_bytes(OBJ_ID_ROOT, Key32(KEY_CONTRACT_ID), TYPE_CONTRACT_ID, &[6u8; 37]);
    host
}

fn set_param_int(host: &mut Host, name: &str, v: i64) {
    let pid = host.get_object_id(OBJ_ID_ROOT, Key32(KEY_PARAMS), TYPE_MAP);
    let k = host.intern_key(name);
    let mut enc: Vec<u8> = Vec::new();
    append_u64_le(&mut enc, v as u64);
    host.set_bytes(pid, k, TYPE_INT, enc.as_slice());
}

fn set_param_string(host: &mut Host, name: &str, v: &str) {
    let pid = host.get_object_id(OBJ_ID_ROOT, Key32(KEY_PARAMS), TYPE_MAP);
    let k = host.intern_key(name);
    host.set_bytes(pid, k, TYPE_STRING, v.as_bytes());
}

fn set_state_int(host: &mut Host, name: &str, v: i64) {
    let sid = host.get_object_id(OBJ_ID_ROOT, Key32(KEY_STATE), TYPE_MAP);
    let k = host.intern_key(name);
    let mut enc: Vec<u8> = Vec::new();
    append_u64_le(&mut enc, v as u64);
    host.set_bytes(sid, k, TYPE_INT, enc.as_slice());
}

/// Line up a reply map holding one integer under "intValue", as the host
/// would after running a nested call.
fn prepare_int_reply(host: &mut Host, v: i64) {
    let m = wasmlib::mutable::ScMutableMap::new(host);
    m.get_int("intValue", host).set_value(host, v);
    host.push_reply(m.obj_id);
}

fn result_int(host: &mut Host, name: &str) -> i64 {
    let rid = host.get_object_id(OBJ_ID_ROOT, Key32(KEY_RESULTS), TYPE_MAP);
    let k = host.intern_key(name);
    assert!(host.value_exists(rid, k, TYPE_INT));
    let b = host.get_bytes(rid, k, TYPE_INT);
    read_u64_le(b.as_slice(), 0) as i64
}

fn state_int(host: &mut Host, name: &str) -> i64 {
    let sid = host.get_object_id(OBJ_ID_ROOT, Key32(KEY_STATE), TYPE_MAP);
    let k = host.intern_key(name);
    assert!(host.value_exists(sid, k, TYPE_INT));
    let b = host.get_bytes(sid, k, TYPE_INT);
    read_u64_le(b.as_slice(), 0) as i64
}

#[test]
fn do_nothing_only_logs() {
    let mut host = Host::new();
    func_do_nothing(&ScFuncContext::new(), &mut host);
    assert_eq!(host.log_count(), 1);
    assert_eq!(host.log_at(0), "calling doNothing");
    assert_eq!(host.effect_count(), 0);
}

#[test]
fn panic_entry_point_aborts() {
    let mut host = Host::new();
    let err = func_test_panic_full_ep(&ScFuncContext::new(), &mut host).unwrap_err();
    assert_eq!(err.msg, "========== panic FULL ENTRY POINT =========");
}

#[test]
fn set_int_stores_and_get_int_reads_back() {
    let mut host = seeded_host();
    set_param_int(&mut host, "intValue", 99);
    set_param_string(&mut host, "name", "answer");
    func_set_int(&ScFuncContext::new(), &mut host).unwrap();
    assert_eq!(state_int(&mut host, "answer"), 99);
    view_get_int(&ScViewContext::new(), &mut host).unwrap();
    assert_eq!(result_int(&mut host, "answer"), 99);
}

#[test]
fn set_int_missing_parameter_aborts() {
    let mut host = seeded_host();
    let err = func_set_int(&ScFuncContext::new(), &mut host).unwrap_err();
    assert_eq!(err.msg, "missing mandatory intValue");
}

#[test]
fn get_int_missing_state_value_aborts() {
    let mut host = seeded_host();
    set_param_string(&mut host, "name", "nothere");
    let err = view_get_int(&ScViewContext::new(), &mut host).unwrap_err();
    assert_eq!(err.msg, "param 'value' not found");
}

#[test]
fn get_counter_reads_the_stored_counter() {
    let mut host = seeded_host();
    set_state_int(&mut host, "counter", 5);
    view_get_counter(&ScViewContext::new(), &mut host).unwrap();
    assert_eq!(result_int(&mut host, "counter"), 5);
}

#[test]
fn get_counter_aborts_before_any_increment() {
    let mut host = seeded_host();
    let err = view_get_counter(&ScViewContext::new(), &mut host).unwrap_err();
    assert_eq!(err.msg, "counter not set");
}

#[test]
fn call_on_chain_increments_counter_and_records_call() {
    let mut host = seeded_host();
    set_state_int(&mut host, "counter", 0);
    set_param_int(&mut host, "intValue", 3);
    func_call_on_chain(&ScFuncContext::new(), &mut host).unwrap();
    assert_eq!(state_int(&mut host, "counter"), 1);
    assert_eq!(host.effect_count(), 1);
    func_call_on_chain(&ScFuncContext::new(), &mut host).unwrap();
    assert_eq!(state_int(&mut host, "counter"), 2);
    assert_eq!(host.effect_count(), 2);
    // with no reply lined up the nested call's reply map is empty
    assert_eq!(result_int(&mut host, "intValue"), 0);
}

#[test]
fn call_on_chain_copies_a_host_supplied_reply() {
    let mut host = seeded_host();
    set_state_int(&mut host, "counter", 0);
    set_param_int(&mut host, "intValue", 3);
    prepare_int_reply(&mut host, 77);
    func_call_on_chain(&ScFuncContext::new(), &mut host).unwrap();
    assert_eq!(result_int(&mut host, "intValue"), 77);
}

#[test]
fn call_on_chain_aborts_without_counter() {
    let mut host = seeded_host();
    set_param_int(&mut host, "intValue", 3);
    let err = func_call_on_chain(&ScFuncContext::new(), &mut host).unwrap_err();
    assert_eq!(err.msg, "counter not set");
}

#[test]
fn fibonacci_base_cases_answer_directly() {
    let mut host = seeded_host();
    set_param_int(&mut host, "intValue", 1);
    view_fibonacci(&ScViewContext::new(), &mut host).unwrap();
    assert_eq!(result_int(&mut host, "intValue"), 1);
    assert_eq!(host.effect_count(), 0);
}

#[test]
fn fibonacci_recursive_case_posts_two_calls() {
    let mut host = seeded_host();
    set_param_int(&mut host, "intValue", 5);
    view_fibonacci(&ScViewContext::new(), &mut host).unwrap();
    assert_eq!(host.effect_count(), 2);
}

#[test]
fn fibonacci_sums_the_host_replies() {
    // the host answers the two nested calls with fib(1) and fib(0), so the
    // entry point reports fib(2)
    let mut host = seeded_host();
    set_param_int(&mut host, "intValue", 2);
    prepare_int_reply(&mut host, 1);
    prepare_int_reply(&mut host, 0);
    view_fibonacci(&ScViewContext::new(), &mut host).unwrap();
    assert_eq!(result_int(&mut host, "intValue"), 1);
    assert_eq!(host.effect_count(), 2);
}

#[test]
fn pass_types_accepts_the_expected_values() {
    let mut host = seeded_host();
    let pid = host.get_object_id(OBJ_ID_ROOT, Key32(KEY_PARAMS), TYPE_MAP);
    let ctx = ScViewContext::new();
    let hash = ctx.utility().hash_blake2b("hash".as_bytes());
    let k = host.intern_key("hash");
    host.set_bytes(pid, k, TYPE_HASH, hash.to_bytes().as_slice());
    let k = host.intern_key("hname");
    host.set_bytes(pid, k, TYPE_HNAME, ScHname::new("hname").to_bytes().as_slice());
    let k = host.intern_key("hnameZero");
    host.set_bytes(pid, k, TYPE_HNAME, ScHname(0).to_bytes().as_slice());
    set_param_int(&mut host, "int64", 42);
    set_param_int(&mut host, "int64Zero", 0);
    set_param_string(&mut host, "string", "string");
    set_param_string(&mut host, "stringZero", "");
    view_pass_types_view(&ctx, &mut host).unwrap();
}

#[test]
fn pass_types_rejects_a_wrong_value() {
    let mut host = seeded_host();
    let pid = host.get_object_id(OBJ_ID_ROOT, Key32(KEY_PARAMS), TYPE_MAP);
    let ctx = ScViewContext::new();
    let hash = ctx.utility().hash_blake2b("hash".as_bytes());
    let k = host.intern_key("hash");
    host.set_bytes(pid, k, TYPE_HASH, hash.to_bytes().as_slice());
    let k = host.intern_key("hname");
    host.set_bytes(pid, k, TYPE_HNAME, ScHname::new("hname").to_bytes().as_slice());
    let k = host.intern_key("hnameZero");
    host.set_bytes(pid, k, TYPE_HNAME, ScHname(0).to_bytes().as_slice());
    set_param_int(&mut host, "int64", 41);
    set_param_int(&mut host, "int64Zero", 0);
    set_param_string(&mut host, "string", "string");
    set_param_string(&mut host, "stringZero", "");
    let err = view_pass_types_view(&ctx, &mut host).unwrap_err();
    assert_eq!(err.msg, "int64 wrong");
}

#[test]
fn withdraw_to_chain_posts_a_request() {
    let mut host = seeded_host();
    let pid = host.get_object_id(OBJ_ID_ROOT, Key32(KEY_PARAMS), TYPE_MAP);
    let k = host.intern_key("chainID");
    host.set_bytes(pid, k, wasmlib::host::TYPE_CHAIN_ID, &[3u8; 33]);
    func_withdraw_to_chain(&ScFuncContext::new(), &mut host).unwrap();
    assert_eq!(host.effect_count(), 1);
}

#[test]
fn sandbox_call_copies_the_reply() {
    let mut host = seeded_host();
    view_test_sandbox_call(&ScViewContext::new(), &mut host);
    assert_eq!(host.effect_count(), 1);
    let rid = host.get_object_id(OBJ_ID_ROOT, Key32(KEY_RESULTS), TYPE_MAP);
    let k = host.intern_key("sandboxCall");
    assert!(host.value_exists(rid, k, TYPE_STRING));
    assert_eq!(host.get_bytes(rid, k, TYPE_STRING), Vec::<u8>::new());
}

#[test]
fn event_log_generic_data_renders_the_counter() {
    let mut host = seeded_host();
    set_param_int(&mut host, "counter", 7);
    func_test_event_log_generic_data(&ScFuncContext::new(), &mut host).unwrap();
    assert_eq!(host.event_count(), 1);
    assert_eq!(host.event_at(0), "[GenericData] Counter Number: 7");
}
