//! Sandbox-exercising entry points: each one reads its parameters, validates
//! them explicitly, works through the typed maps and answers through the
//! results map.  An entry point that can abort returns the abort message as
//! an error; one that cannot returns nothing.

use vstd::prelude::*;

use crate::context::ScError;
use crate::context::ScFuncContext;
use crate::context::ScTransfers;
use crate::context::ScViewContext;
use crate::context::PostRequestParams;
use crate::context::ctx_ready;
use crate::codec::dec_int64_val;
use crate::codec::enc_int64;
use crate::codec::u32_of_le;
use crate::hashtypes::ScColor;
use crate::hashtypes::ScContractId;
use crate::mutable::ScMutableMap;
use crate::hashtypes::ScHname;
use crate::host::Effect;
use crate::host::Host;
use crate::host::OBJ_ID_ROOT;
use crate::host::TYPE_AGENT_ID;
use crate::host::TYPE_CONTRACT_ID;
use crate::host::TYPE_HASH;
use crate::host::TYPE_HNAME;
use crate::host::TYPE_INT;
use crate::host::TYPE_MAP;
use crate::host::TYPE_STRING;
use crate::host::lemma_extends_handle;
use crate::host::lemma_extends_obj_lookup;
use crate::host::lemma_extends_trans;
use crate::keys::KEY_BALANCES;
use crate::keys::KEY_CALLER;
use crate::keys::KEY_CHAIN_OWNER_ID;
use crate::keys::KEY_CONTRACT_CREATOR;
use crate::keys::KEY_CONTRACT_ID;
use crate::keys::KEY_PARAMS;
use crate::keys::KEY_RESULTS;
use crate::keys::KEY_STATE;
use crate::utility::blake2b_of;

verus! {

use vstd::utf8::encode_utf8;
use vstd::utf8::decode_utf8;
use vstd::string::StringSliceAdditionalSpecFns;

broadcast use crate::codec::lemma_int64_roundtrip, crate::codec::lemma_u32_le_value_roundtrip;


pub const PARAM_ADDRESS: &'static str = "address";

pub const PARAM_AGENT_ID: &'static str = "agentID";

pub const PARAM_CALLER: &'static str = "caller";

pub const PARAM_CHAIN_ID: &'static str = "chainID";

pub const PARAM_CHAIN_OWNER_ID: &'static str = "chainOwnerID";

pub const PARAM_CONTRACT_CREATOR: &'static str = "contractCreator";

pub const PARAM_CONTRACT_ID: &'static str = "contractID";

pub const PARAM_COUNTER: &'static str = "counter";

pub const PARAM_HASH: &'static str = "hash";

pub const PARAM_HNAME: &'static str = "hname";

pub const PARAM_HNAME_CONTRACT: &'static str = "hnameContract";

pub const PARAM_HNAME_EP: &'static str = "hnameEP";

pub const PARAM_HNAME_ZERO: &'static str = "hnameZero";

pub const PARAM_INT64: &'static str = "int64";

pub const PARAM_INT64_ZERO: &'static str = "int64Zero";

pub const PARAM_INT_VALUE: &'static str = "intValue";

pub const PARAM_NAME: &'static str = "name";

pub const PARAM_STRING: &'static str = "string";

pub const PARAM_STRING_ZERO: &'static str = "stringZero";

pub const VAR_COUNTER: &'static str = "counter";

/// Id of the map hung off the root under a reserved key, once resolved.
pub open spec fn root_map(h: Host, key: i32) -> i32 {
    match h.obj_lookup(OBJ_ID_ROOT, key, TYPE_MAP) {
        Some(i) => i as i32,
        None => 0,
    }
}

/// The handle a field name resolves to.
pub open spec fn name_key(h: Host, s: Seq<char>) -> i32 {
    h.handle_of(encode_utf8(s)) as i32
}

/// The integer stored at a map slot, if present.
pub open spec fn int_at(h: Host, obj: i32, key: i32) -> Option<i64> {
    if h.has(obj, key, TYPE_INT) {
        Some(dec_int64_val(h.store()[(obj, key, TYPE_INT)]))
    } else {
        None
    }
}

/// The text stored at a map slot, if present.
pub open spec fn str_at(h: Host, obj: i32, key: i32) -> Option<Seq<char>> {
    if h.has(obj, key, TYPE_STRING) {
        Some(decode_utf8(h.store()[(obj, key, TYPE_STRING)]))
    } else {
        None
    }
}

/// The raw bytes stored at a map slot under a fixed-width kind, if present.
pub open spec fn fixed_at(h: Host, obj: i32, key: i32, tag: i32) -> Option<Seq<u8>> {
    if h.has(obj, key, tag) {
        Some(h.store()[(obj, key, tag)])
    } else {
        None
    }
}

/// The selector stored at a map slot, if present.
pub open spec fn hname_at(h: Host, obj: i32, key: i32) -> Option<u32> {
    if h.has(obj, key, TYPE_HNAME) {
        Some(u32_of_le(h.store()[(obj, key, TYPE_HNAME)]))
    } else {
        None
    }
}

/// Entry point that only logs its invocation.
pub fn func_do_nothing(ctx: &ScFuncContext, host: &mut Host)
    requires
        old(host).wf(),
    ensures
        final(host).wf(),
        final(host).extends(*old(host)),
        final(host).same_values(*old(host)),
        final(host).same_objects(*old(host)),
        final(host).log_view() == old(host).log_view().push("calling doNothing"@),
        final(host).event_view() == old(host).event_view(),
        final(host).effect_view() == old(host).effect_view(),
{
    ctx.log("calling doNothing", host);
}

/// Initialization entry point; this contract keeps no setup state.
pub fn func_init(ctx: &ScFuncContext, host: &mut Host)
    requires
        old(host).wf(),
    ensures
        final(host).wf(),
        final(host).extends(*old(host)),
        final(host).same_values(*old(host)),
        final(host).same_objects(*old(host)),
        final(host).log_view() == old(host).log_view().push("calling init"@),
        final(host).event_view() == old(host).event_view(),
        final(host).effect_view() == old(host).effect_view(),
{
    ctx.log("calling init", host);
}

/// View that only logs its invocation; it can mutate nothing.
pub fn view_just_view(ctx: &ScViewContext, host: &mut Host)
    requires
        old(host).wf(),
    ensures
        final(host).wf(),
        final(host).extends(*old(host)),
        final(host).same_values(*old(host)),
        final(host).same_objects(*old(host)),
        final(host).log_view() == old(host).log_view().push("calling justView"@),
        final(host).event_view() == old(host).event_view(),
        final(host).effect_view() == old(host).effect_view(),
{
    ctx.log("calling justView", host);
}

/// Entry point that always aborts, with a fixed message.
pub fn func_test_panic_full_ep(ctx: &ScFuncContext, host: &mut Host) -> (r: Result<(), ScError>)
    requires
        old(host).wf(),
    ensures
        final(host).wf(),
        final(host).extends(*old(host)),
        final(host).same_values(*old(host)),
        r matches Err(e) && e.msg@ == "========== panic FULL ENTRY POINT ========="@,
{
    ctx.log("calling testPanicFullEP", host);
    Err(ScError::new("========== panic FULL ENTRY POINT ========="))
}

/// View that always aborts, with a fixed message.
pub fn view_test_panic_view_ep(ctx: &ScViewContext, host: &mut Host) -> (r: Result<(), ScError>)
    requires
        old(host).wf(),
    ensures
        final(host).wf(),
        final(host).extends(*old(host)),
        final(host).same_values(*old(host)),
        r matches Err(e) && e.msg@ == "========== panic VIEW ========="@,
{
    ctx.log("calling testPanicViewEP", host);
    Err(ScError::new("========== panic VIEW ========="))
}

/// Entry point that appends one fixed event entry.
pub fn func_test_event_log_event_data(ctx: &ScFuncContext, host: &mut Host)
    requires
        old(host).wf(),
    ensures
        final(host).wf(),
        final(host).extends(*old(host)),
        final(host).same_values(*old(host)),
        final(host).same_objects(*old(host)),
        final(host).event_view() == old(host).event_view().push("[Event] - Testing Event..."@),
        final(host).effect_view() == old(host).effect_view(),
{
    ctx.log("calling testEventLogEventData", host);
    ctx.event("[Event] - Testing Event...", host);
}

/// Entry point that asks the host to deploy this same program under another
/// name.
pub fn func_test_event_log_deploy(ctx: &ScFuncContext, host: &mut Host)
    requires
        old(host).wf(),
    ensures
        final(host).wf(),
        final(host).extends(*old(host)),
        final(host).same_values(*old(host)),
        final(host).same_objects(*old(host)),
        final(host).effect_view().len() == old(host).effect_view().len() + 1,
        final(host).effect_view().last() matches Effect::Deploy {
            program_hash,
            name,
            description,
            params,
        } && program_hash@ == blake2b_of(encode_utf8("test_sandbox"@)) && name@
            == "exampleDeployTR"@ && description@ == "test contract deploy log"@ && params == 0,
{
    ctx.log("calling testEventLogDeploy", host);
    let program_hash = ctx.utility().hash_blake2b("test_sandbox".as_bytes());
    ctx.deploy(&program_hash, "exampleDeployTR", "test contract deploy log", None, host);
}

/// Entry point that records one event holding the `counter` parameter in
/// decimal; aborts when the parameter is missing.
pub fn func_test_event_log_generic_data(ctx: &ScFuncContext, host: &mut Host) -> (r: Result<
    (),
    ScError,
>)
    requires
        old(host).wf(),
        old(host).headroom(8),
    ensures
        final(host).wf(),
        final(host).extends(*old(host)),
        final(host).same_values(*old(host)),
        ({
            let fh = *final(host);
            let pm = root_map(fh, KEY_PARAMS);
            let counter = int_at(*old(host), pm, name_key(fh, "counter"@));
            &&& (r is Ok <==> counter is Some)
            &&& r matches Err(e) ==> e.msg@ == "missing mandatory counter"@
                && fh.event_view() == old(host).event_view()
            &&& r is Ok ==> fh.event_view() == old(host).event_view().push(
                "[GenericData] Counter Number: "@ + crate::strutil::dec_int_chars(
                    counter->Some_0 as int,
                ),
            )
        }),
{
    ctx.log("calling testEventLogGenericData", host);
    let p = ctx.params(host);
    proof {
        reveal_strlit("counter");
    }
    let param_counter = p.get_int(PARAM_COUNTER, host);
    if !param_counter.present(host) {
        return Err(ScError::new("missing mandatory counter"));
    }
    let counter = param_counter.value(host);
    let ghost h1 = *host;
    let text = "[GenericData] Counter Number: ".to_owned().concat(
        crate::strutil::i64_to_dec_string(counter).as_str(),
    );
    ctx.event(text.as_str(), host);
    proof {
        lemma_extends_handle(h1, *host, encode_utf8("counter"@));
    }
    Ok(())
}

/// Entry point that writes the chain owner's identity into the results map.
pub fn func_test_chain_owner_idfull(ctx: &ScFuncContext, host: &mut Host)
    requires
        old(host).wf(),
        old(host).headroom(8),
        old(host).has(OBJ_ID_ROOT, KEY_CHAIN_OWNER_ID, TYPE_AGENT_ID),
    ensures
        final(host).wf(),
        final(host).extends(*old(host)),
        ({
            let fh = *final(host);
            fh.store() == old(host).store().insert(
                (root_map(fh, KEY_RESULTS), name_key(fh, "chainOwnerID"@), TYPE_AGENT_ID),
                old(host).store()[(OBJ_ID_ROOT, KEY_CHAIN_OWNER_ID, TYPE_AGENT_ID)],
            )
        }),
{
    ctx.log("calling testChainOwnerIDFull", host);
    let owner = ctx.chain_owner_id(host);
    let results = ctx.results(host);
    let ghost h1 = *host;
    proof {
        reveal_strlit("chainOwnerID");
    }
    let slot = results.get_agent_id(PARAM_CHAIN_OWNER_ID, host);
    let ghost h2 = *host;
    slot.set_value(host, &owner);
    proof {
        lemma_extends_obj_lookup(h1, *host, OBJ_ID_ROOT, KEY_RESULTS, TYPE_MAP);
        lemma_extends_handle(h2, *host, encode_utf8("chainOwnerID"@));
    }
}

/// View that writes the chain owner's identity into the results map.
pub fn view_test_chain_owner_idview(ctx: &ScViewContext, host: &mut Host)
    requires
        old(host).wf(),
        old(host).headroom(8),
        old(host).has(OBJ_ID_ROOT, KEY_CHAIN_OWNER_ID, TYPE_AGENT_ID),
    ensures
        final(host).wf(),
        final(host).extends(*old(host)),
        ({
            let fh = *final(host);
            fh.store() == old(host).store().insert(
                (root_map(fh, KEY_RESULTS), name_key(fh, "chainOwnerID"@), TYPE_AGENT_ID),
                old(host).store()[(OBJ_ID_ROOT, KEY_CHAIN_OWNER_ID, TYPE_AGENT_ID)],
            )
        }),
{
    ctx.log("calling testChainOwnerIDView", host);
    let owner = ctx.chain_owner_id(host);
    let results = ctx.results(host);
    let ghost h1 = *host;
    proof {
        reveal_strlit("chainOwnerID");
    }
    let slot = results.get_agent_id(PARAM_CHAIN_OWNER_ID, host);
    let ghost h2 = *host;
    slot.set_value(host, &owner);
    proof {
        lemma_extends_obj_lookup(h1, *host, OBJ_ID_ROOT, KEY_RESULTS, TYPE_MAP);
        lemma_extends_handle(h2, *host, encode_utf8("chainOwnerID"@));
    }
}

/// Entry point that writes this contract's identity into the results map.
pub fn func_test_contract_idfull(ctx: &ScFuncContext, host: &mut Host)
    requires
        old(host).wf(),
        old(host).headroom(8),
        old(host).has(OBJ_ID_ROOT, KEY_CONTRACT_ID, TYPE_CONTRACT_ID),
    ensures
        final(host).wf(),
        final(host).extends(*old(host)),
        ({
            let fh = *final(host);
            fh.store() == old(host).store().insert(
                (root_map(fh, KEY_RESULTS), name_key(fh, "contractID"@), TYPE_CONTRACT_ID),
                old(host).store()[(OBJ_ID_ROOT, KEY_CONTRACT_ID, TYPE_CONTRACT_ID)],
            )
        }),
{
    ctx.log("calling testContractIDFull", host);
    let cid = ctx.contract_id(host);
    let results = ctx.results(host);
    let ghost h1 = *host;
    proof {
        reveal_strlit("contractID");
    }
    let slot = results.get_contract_id(PARAM_CONTRACT_ID, host);
    let ghost h2 = *host;
    slot.set_value(host, &cid);
    proof {
        lemma_extends_obj_lookup(h1, *host, OBJ_ID_ROOT, KEY_RESULTS, TYPE_MAP);
        lemma_extends_handle(h2, *host, encode_utf8("contractID"@));
    }
}

/// View that writes this contract's identity into the results map.
pub fn view_test_contract_idview(ctx: &ScViewContext, host: &mut Host)
    requires
        old(host).wf(),
        old(host).headroom(8),
        old(host).has(OBJ_ID_ROOT, KEY_CONTRACT_ID, TYPE_CONTRACT_ID),
    ensures
        final(host).wf(),
        final(host).extends(*old(host)),
        ({
            let fh = *final(host);
            fh.store() == old(host).store().insert(
                (root_map(fh, KEY_RESULTS), name_key(fh, "contractID"@), TYPE_CONTRACT_ID),
                old(host).store()[(OBJ_ID_ROOT, KEY_CONTRACT_ID, TYPE_CONTRACT_ID)],
            )
        }),
{
    ctx.log("calling testContractIDView", host);
    let cid = ctx.contract_id(host);
    let results = ctx.results(host);
    let ghost h1 = *host;
    proof {
        reveal_strlit("contractID");
    }
    let slot = results.get_contract_id(PARAM_CONTRACT_ID, host);
    let ghost h2 = *host;
    slot.set_value(host, &cid);
    proof {
        lemma_extends_obj_lookup(h1, *host, OBJ_ID_ROOT, KEY_RESULTS, TYPE_MAP);
        lemma_extends_handle(h2, *host, encode_utf8("contractID"@));
    }
}

/// Entry point that calls this contract's always-aborting entry point; the
/// model records the request, the host runs it.
pub fn func_test_call_panic_full_ep(ctx: &ScFuncContext, host: &mut Host)
    requires
        old(host).wf(),
        old(host).headroom(8),
        old(host).has(OBJ_ID_ROOT, KEY_CONTRACT_ID, TYPE_CONTRACT_ID),
    ensures
        final(host).wf(),
        final(host).extends(*old(host)),
        final(host).same_values(*old(host)),
        final(host).effect_view().len() == old(host).effect_view().len() + 1,
        final(host).effect_view().last() matches Effect::Call { function, .. } && function
            == crate::hashtypes::hname_of("testPanicFullEP"@),
{
    ctx.log("calling testCallPanicFullEP", host);
    let f = ScHname::new("testPanicFullEP");
    let _ = ctx.call_self(f, None, None, host);
}

/// Entry point that calls this contract's always-aborting view.
pub fn func_test_call_panic_view_epfrom_full(ctx: &ScFuncContext, host: &mut Host)
    requires
        old(host).wf(),
        old(host).headroom(8),
        old(host).has(OBJ_ID_ROOT, KEY_CONTRACT_ID, TYPE_CONTRACT_ID),
    ensures
        final(host).wf(),
        final(host).extends(*old(host)),
        final(host).same_values(*old(host)),
        final(host).effect_view().len() == old(host).effect_view().len() + 1,
        final(host).effect_view().last() matches Effect::Call { function, .. } && function
            == crate::hashtypes::hname_of("testPanicViewEP"@),
{
    ctx.log("calling testCallPanicViewEPFromFull", host);
    let f = ScHname::new("testPanicViewEP");
    let _ = ctx.call_self(f, None, None, host);
}

/// View that calls this contract's always-aborting view.
pub fn view_test_call_panic_view_epfrom_view(ctx: &ScViewContext, host: &mut Host)
    requires
        old(host).wf(),
        old(host).headroom(8),
        old(host).has(OBJ_ID_ROOT, KEY_CONTRACT_ID, TYPE_CONTRACT_ID),
    ensures
        final(host).wf(),
        final(host).extends(*old(host)),
        final(host).same_values(*old(host)),
        final(host).effect_view().len() == old(host).effect_view().len() + 1,
        final(host).effect_view().last() matches Effect::Call { function, .. } && function
            == crate::hashtypes::hname_of("testPanicViewEP"@),
{
    ctx.log("calling testCallPanicViewEPFromView", host);
    let f = ScHname::new("testPanicViewEP");
    let _ = ctx.call_self(f, None, host);
}

/// Entry point that stores an integer parameter into the state map under a
/// caller-chosen name; aborts when a parameter is missing or the name empty.
pub fn func_set_int(ctx: &ScFuncContext, host: &mut Host) -> (r: Result<(), ScError>)
    requires
        old(host).wf(),
        old(host).headroom(8),
    ensures
        final(host).wf(),
        final(host).extends(*old(host)),
        ({
            let fh = *final(host);
            let pm = root_map(fh, KEY_PARAMS);
            let iv = int_at(*old(host), pm, name_key(fh, "intValue"@));
            let nm = str_at(*old(host), pm, name_key(fh, "name"@));
            &&& (r is Ok <==> iv is Some && nm is Some && nm->Some_0.len() > 0)
            &&& r is Ok ==> fh.store() == old(host).store().insert(
                (root_map(fh, KEY_STATE), name_key(fh, nm->Some_0), TYPE_INT),
                enc_int64(iv->Some_0),
            )
            &&& r is Err ==> fh.same_values(*old(host))
        }),
{
    ctx.log("calling setInt", host);
    let p = ctx.params(host);
    let ghost h1 = *host;
    proof {
        reveal_strlit("intValue");
        reveal_strlit("name");
    }
    let param_int_value = p.get_int(PARAM_INT_VALUE, host);
    let ghost h2 = *host;
    let param_name = p.get_string(PARAM_NAME, host);
    let ghost h3 = *host;
    proof {
        lemma_extends_handle(h2, h3, encode_utf8("intValue"@));
    }
    if !param_int_value.present(host) {
        return Err(ScError::new("missing mandatory intValue"));
    }
    if !param_name.present(host) {
        return Err(ScError::new("missing mandatory name"));
    }
    let v = param_int_value.value(host);
    let name = param_name.value(host);
    if name.as_str().is_empty() {
        return Err(ScError::new("missing mandatory name"));
    }
    let sm = ctx.state(host);
    let ghost h4 = *host;
    let slot = sm.get_int(&name, host);
    let ghost h5 = *host;
    slot.set_value(host, v);
    proof {
        lemma_extends_obj_lookup(h1, *host, OBJ_ID_ROOT, KEY_PARAMS, TYPE_MAP);
        lemma_extends_obj_lookup(h4, *host, OBJ_ID_ROOT, KEY_STATE, TYPE_MAP);
        lemma_extends_handle(h3, *host, encode_utf8("intValue"@));
        lemma_extends_handle(h3, *host, encode_utf8("name"@));
        lemma_extends_handle(h5, *host, encode_utf8(name@));
    }
    Ok(())
}

/// View that copies one named state integer into the results map; aborts
/// when the name parameter or the state value is missing.
pub fn view_get_int(ctx: &ScViewContext, host: &mut Host) -> (r: Result<(), ScError>)
    requires
        old(host).wf(),
        old(host).headroom(8),
    ensures
        final(host).wf(),
        final(host).extends(*old(host)),
        ({
            let fh = *final(host);
            let pm = root_map(fh, KEY_PARAMS);
            let nm = str_at(*old(host), pm, name_key(fh, "name"@));
            let sv = if nm is Some && nm->Some_0.len() > 0 {
                int_at(*old(host), root_map(fh, KEY_STATE), name_key(fh, nm->Some_0))
            } else {
                None
            };
            &&& (r is Ok <==> nm is Some && nm->Some_0.len() > 0 && sv is Some)
            &&& r is Ok ==> fh.store() == old(host).store().insert(
                (root_map(fh, KEY_RESULTS), name_key(fh, nm->Some_0), TYPE_INT),
                enc_int64(sv->Some_0),
            )
            &&& r is Err ==> fh.same_values(*old(host))
        }),
{
    ctx.log("calling getInt", host);
    let p = ctx.params(host);
    let ghost h1 = *host;
    proof {
        reveal_strlit("name");
    }
    let param_name = p.get_string(PARAM_NAME, host);
    let ghost h2 = *host;
    if !param_name.present(host) {
        return Err(ScError::new("missing mandatory name"));
    }
    let name = param_name.value(host);
    if name.as_str().is_empty() {
        return Err(ScError::new("missing mandatory name"));
    }
    let sm = ctx.state(host);
    let ghost h3 = *host;
    let value = sm.get_int(&name, host);
    let ghost h4 = *host;
    if !value.present(host) {
        proof {
            lemma_extends_obj_lookup(h1, *host, OBJ_ID_ROOT, KEY_PARAMS, TYPE_MAP);
            lemma_extends_obj_lookup(h3, *host, OBJ_ID_ROOT, KEY_STATE, TYPE_MAP);
            lemma_extends_handle(h2, *host, encode_utf8("name"@));
            lemma_extends_handle(h4, *host, encode_utf8(name@));
        }
        return Err(ScError::new("param 'value' not found"));
    }
    let v = value.value(host);
    let rm = ctx.results(host);
    let ghost h5 = *host;
    let slot = rm.get_int(&name, host);
    let ghost h6 = *host;
    slot.set_value(host, v);
    proof {
        lemma_extends_obj_lookup(h1, *host, OBJ_ID_ROOT, KEY_PARAMS, TYPE_MAP);
        lemma_extends_obj_lookup(h3, *host, OBJ_ID_ROOT, KEY_STATE, TYPE_MAP);
        lemma_extends_obj_lookup(h5, *host, OBJ_ID_ROOT, KEY_RESULTS, TYPE_MAP);
        lemma_extends_handle(h2, *host, encode_utf8("name"@));
        lemma_extends_handle(h4, *host, encode_utf8(name@));
        lemma_extends_handle(h6, *host, encode_utf8(name@));
    }
    Ok(())
}

/// View that copies the state counter into the results map; reading the
/// counter before it was ever set is fatal (an absent slot has no 8-byte
/// integer), so that aborts.
pub fn view_get_counter(ctx: &ScViewContext, host: &mut Host) -> (r: Result<(), ScError>)
    requires
        old(host).wf(),
        old(host).headroom(8),
    ensures
        final(host).wf(),
        final(host).extends(*old(host)),
        ({
            let fh = *final(host);
            let c = int_at(*old(host), root_map(fh, KEY_STATE), name_key(fh, "counter"@));
            &&& (r is Ok <==> c is Some)
            &&& r matches Err(e) ==> e.msg@ == "counter not set"@ && fh.same_values(*old(host))
            &&& r is Ok ==> fh.store() == old(host).store().insert(
                (root_map(fh, KEY_RESULTS), name_key(fh, "counter"@), TYPE_INT),
                enc_int64(c->Some_0),
            )
        }),
{
    ctx.log("calling getCounter", host);
    let sm = ctx.state(host);
    let ghost h1 = *host;
    proof {
        reveal_strlit("counter");
    }
    let counter = sm.get_int(VAR_COUNTER, host);
    let ghost h2 = *host;
    if !counter.present(host) {
        proof {
            lemma_extends_obj_lookup(h1, *host, OBJ_ID_ROOT, KEY_STATE, TYPE_MAP);
            lemma_extends_handle(h2, *host, encode_utf8("counter"@));
        }
        return Err(ScError::new("counter not set"));
    }
    let c = counter.value(host);
    let rm = ctx.results(host);
    let ghost h3 = *host;
    let slot = rm.get_int(VAR_COUNTER, host);
    let ghost h4 = *host;
    slot.set_value(host, c);
    proof {
        lemma_extends_obj_lookup(h1, *host, OBJ_ID_ROOT, KEY_STATE, TYPE_MAP);
        lemma_extends_obj_lookup(h3, *host, OBJ_ID_ROOT, KEY_RESULTS, TYPE_MAP);
        lemma_extends_handle(h2, *host, encode_utf8("counter"@));
        lemma_extends_handle(h4, *host, encode_utf8("counter"@));
    }
    Ok(())
}

/// What the type-passing entry points demand of their parameters: every
/// field present, and each value equal to the compiled-in expectation.
pub open spec fn pass_types_ok(old_h: Host, fh: Host) -> bool {
    let pm = root_map(fh, KEY_PARAMS);
    &&& fixed_at(old_h, pm, name_key(fh, "hash"@), TYPE_HASH) == Some(
        blake2b_of(encode_utf8("hash"@)),
    )
    &&& hname_at(old_h, pm, name_key(fh, "hname"@)) == Some(crate::hashtypes::hname_of("hname"@))
    &&& hname_at(old_h, pm, name_key(fh, "hnameZero"@)) == Some(0u32)
    &&& int_at(old_h, pm, name_key(fh, "int64"@)) == Some(42i64)
    &&& int_at(old_h, pm, name_key(fh, "int64Zero"@)) == Some(0i64)
    &&& str_at(old_h, pm, name_key(fh, "string"@)) == Some("string"@)
    &&& str_at(old_h, pm, name_key(fh, "stringZero"@)) is Some
}

/// Entry point that validates one parameter of every primitive kind against
/// its expected value; aborts on the first missing or wrong one.
pub fn func_pass_types_full(ctx: &ScFuncContext, host: &mut Host) -> (r: Result<(), ScError>)
    requires
        old(host).wf(),
        old(host).headroom(16),
    ensures
        final(host).wf(),
        final(host).extends(*old(host)),
        final(host).same_values(*old(host)),
        r is Ok <==> pass_types_ok(*old(host), *final(host)),
{
    ctx.log("calling passTypesFull", host);
    let p = ctx.params(host);
    let ghost h0 = *host;
    proof {
        reveal_strlit("hash");
        reveal_strlit("hname");
        reveal_strlit("hnameZero");
        reveal_strlit("int64");
        reveal_strlit("int64Zero");
        reveal_strlit("string");
        reveal_strlit("stringZero");
    }
    let param_hash = p.get_hash(PARAM_HASH, host);
    let ghost g_hash = *host;
    let param_hname = p.get_hname(PARAM_HNAME, host);
    let ghost g_hname = *host;
    let param_hname_zero = p.get_hname(PARAM_HNAME_ZERO, host);
    let ghost g_hname_zero = *host;
    let param_int64 = p.get_int(PARAM_INT64, host);
    let ghost g_int64 = *host;
    let param_int64_zero = p.get_int(PARAM_INT64_ZERO, host);
    let ghost g_int64_zero = *host;
    let param_string = p.get_string(PARAM_STRING, host);
    let ghost g_string = *host;
    let param_string_zero = p.get_string(PARAM_STRING_ZERO, host);
    proof {
        lemma_extends_obj_lookup(h0, *host, OBJ_ID_ROOT, KEY_PARAMS, TYPE_MAP);
        lemma_extends_handle(g_hash, *host, encode_utf8("hash"@));
        lemma_extends_handle(g_hname, *host, encode_utf8("hname"@));
        lemma_extends_handle(g_hname_zero, *host, encode_utf8("hnameZero"@));
        lemma_extends_handle(g_int64, *host, encode_utf8("int64"@));
        lemma_extends_handle(g_int64_zero, *host, encode_utf8("int64Zero"@));
        lemma_extends_handle(g_string, *host, encode_utf8("string"@));
    }
    if !param_hash.present(host) {
        return Err(ScError::new("missing mandatory hash"));
    }
    if !param_hname.present(host) {
        return Err(ScError::new("missing mandatory hname"));
    }
    if !param_hname_zero.present(host) {
        return Err(ScError::new("missing mandatory hnameZero"));
    }
    if !param_int64.present(host) {
        return Err(ScError::new("missing mandatory int64"));
    }
    if !param_int64_zero.present(host) {
        return Err(ScError::new("missing mandatory int64Zero"));
    }
    if !param_string.present(host) {
        return Err(ScError::new("missing mandatory string"));
    }
    if !param_string_zero.present(host) {
        return Err(ScError::new("missing mandatory stringZero"));
    }
    let hash = ctx.utility().hash_blake2b(PARAM_HASH.as_bytes());
    if !(param_hash.value(host) == hash) {
        return Err(ScError::new("Hash wrong"));
    }
    if param_int64.value(host) != 42 {
        return Err(ScError::new("int64 wrong"));
    }
    if param_int64_zero.value(host) != 0 {
        return Err(ScError::new("int64-0 wrong"));
    }
    let s = param_string.value(host);
    if !crate::strutil::str_eq(s.as_str(), PARAM_STRING) {
        return Err(ScError::new("string wrong"));
    }
    if !(param_hname.value(host) == ScHname::new(PARAM_HNAME)) {
        return Err(ScError::new("Hname wrong"));
    }
    if !(param_hname_zero.value(host) == ScHname(0)) {
        return Err(ScError::new("Hname-0 wrong"));
    }
    Ok(())
}

/// View that validates one parameter of every primitive kind against its
/// expected value, the empty string included; it can mutate nothing.
pub fn view_pass_types_view(ctx: &ScViewContext, host: &mut Host) -> (r: Result<(), ScError>)
    requires
        old(host).wf(),
        old(host).headroom(16),
    ensures
        final(host).wf(),
        final(host).extends(*old(host)),
        final(host).same_values(*old(host)),
        r is Ok <==> pass_types_ok(*old(host), *final(host)) && str_at(
            *old(host),
            root_map(*final(host), KEY_PARAMS),
            name_key(*final(host), "stringZero"@),
        ) == Some(""@),
{
    ctx.log("calling passTypesView", host);
    let p = ctx.params(host);
    let ghost h0 = *host;
    proof {
        reveal_strlit("hash");
        reveal_strlit("hname");
        reveal_strlit("hnameZero");
        reveal_strlit("int64");
        reveal_strlit("int64Zero");
        reveal_strlit("string");
        reveal_strlit("stringZero");
        reveal_strlit("");
    }
    let param_hash = p.get_hash(PARAM_HASH, host);
    let ghost g_hash = *host;
    let param_hname = p.get_hname(PARAM_HNAME, host);
    let ghost g_hname = *host;
    let param_hname_zero = p.get_hname(PARAM_HNAME_ZERO, host);
    let ghost g_hname_zero = *host;
    let param_int64 = p.get_int(PARAM_INT64, host);
    let ghost g_int64 = *host;
    let param_int64_zero = p.get_int(PARAM_INT64_ZERO, host);
    let ghost g_int64_zero = *host;
    let param_string = p.get_string(PARAM_STRING, host);
    let ghost g_string = *host;
    let param_string_zero = p.get_string(PARAM_STRING_ZERO, host);
    proof {
        lemma_extends_obj_lookup(h0, *host, OBJ_ID_ROOT, KEY_PARAMS, TYPE_MAP);
        lemma_extends_handle(g_hash, *host, encode_utf8("hash"@));
        lemma_extends_handle(g_hname, *host, encode_utf8("hname"@));
        lemma_extends_handle(g_hname_zero, *host, encode_utf8("hnameZero"@));
        lemma_extends_handle(g_int64, *host, encode_utf8("int64"@));
        lemma_extends_handle(g_int64_zero, *host, encode_utf8("int64Zero"@));
        lemma_extends_handle(g_string, *host, encode_utf8("string"@));
    }
    if !param_hash.present(host) {
        return Err(ScError::new("missing mandatory hash"));
    }
    if !param_hname.present(host) {
        return Err(ScError::new("missing mandatory hname"));
    }
    if !param_hname_zero.present(host) {
        return Err(ScError::new("missing mandatory hnameZero"));
    }
    if !param_int64.present(host) {
        return Err(ScError::new("missing mandatory int64"));
    }
    if !param_int64_zero.present(host) {
        return Err(ScError::new("missing mandatory int64Zero"));
    }
    if !param_string.present(host) {
        return Err(ScError::new("missing mandatory string"));
    }
    if !param_string_zero.present(host) {
        return Err(ScError::new("missing mandatory stringZero"));
    }
    let hash = ctx.utility().hash_blake2b(PARAM_HASH.as_bytes());
    if !(param_hash.value(host) == hash) {
        return Err(ScError::new("Hash wrong"));
    }
    if param_int64.value(host) != 42 {
        return Err(ScError::new("int64 wrong"));
    }
    if param_int64_zero.value(host) != 0 {
        return Err(ScError::new("int64-0 wrong"));
    }
    let s = param_string.value(host);
    if !crate::strutil::str_eq(s.as_str(), PARAM_STRING) {
        return Err(ScError::new("string wrong"));
    }
    let s0 = param_string_zero.value(host);
    if !crate::strutil::str_eq(s0.as_str(), "") {
        return Err(ScError::new("string-0 wrong"));
    }
    if !(param_hname.value(host) == ScHname::new(PARAM_HNAME)) {
        return Err(ScError::new("Hname wrong"));
    }
    if !(param_hname_zero.value(host) == ScHname(0)) {
        return Err(ScError::new("Hname-0 wrong"));
    }
    Ok(())
}

/// What the context-checking entry point demands: each parameter equal to
/// the corresponding identity the host seeded for this invocation.
pub open spec fn full_ctx_ok(old_h: Host, fh: Host) -> bool {
    let pm = root_map(fh, KEY_PARAMS);
    let cid = old_h.store()[(OBJ_ID_ROOT, KEY_CONTRACT_ID, TYPE_CONTRACT_ID)];
    &&& fixed_at(old_h, pm, name_key(fh, "chainID"@), crate::host::TYPE_CHAIN_ID) == Some(
        cid.subrange(0, 33),
    )
    &&& fixed_at(old_h, pm, name_key(fh, "chainOwnerID"@), TYPE_AGENT_ID) == Some(
        old_h.store()[(OBJ_ID_ROOT, KEY_CHAIN_OWNER_ID, TYPE_AGENT_ID)],
    )
    &&& fixed_at(old_h, pm, name_key(fh, "contractID"@), TYPE_CONTRACT_ID) == Some(cid)
    &&& fixed_at(old_h, pm, name_key(fh, "agentID"@), TYPE_AGENT_ID) == Some(cid)
    &&& fixed_at(old_h, pm, name_key(fh, "contractCreator"@), TYPE_AGENT_ID) == Some(
        old_h.store()[(OBJ_ID_ROOT, KEY_CONTRACT_CREATOR, TYPE_AGENT_ID)],
    )
}

/// Entry point that checks each identity parameter against the invocation's
/// context, the caller included.
pub fn func_check_context_from_full_ep(ctx: &ScFuncContext, host: &mut Host) -> (r: Result<
    (),
    ScError,
>)
    requires
        old(host).wf(),
        old(host).headroom(16),
        ctx_ready(*old(host)),
    ensures
        final(host).wf(),
        final(host).extends(*old(host)),
        final(host).same_values(*old(host)),
        r is Ok <==> full_ctx_ok(*old(host), *final(host)) && fixed_at(
            *old(host),
            root_map(*final(host), KEY_PARAMS),
            name_key(*final(host), "caller"@),
            TYPE_AGENT_ID,
        ) == Some(old(host).store()[(OBJ_ID_ROOT, KEY_CALLER, TYPE_AGENT_ID)]),
{
    ctx.log("calling checkContextFromFullEP", host);
    let p = ctx.params(host);
    let ghost h0 = *host;
    proof {
        reveal_strlit("agentID");
        reveal_strlit("caller");
        reveal_strlit("chainID");
        reveal_strlit("chainOwnerID");
        reveal_strlit("contractCreator");
        reveal_strlit("contractID");
    }
    let param_agent_id = p.get_agent_id(PARAM_AGENT_ID, host);
    let ghost g_agent = *host;
    let param_caller = p.get_agent_id(PARAM_CALLER, host);
    let ghost g_caller = *host;
    let param_chain_id = p.get_chain_id(PARAM_CHAIN_ID, host);
    let ghost g_chain = *host;
    let param_chain_owner_id = p.get_agent_id(PARAM_CHAIN_OWNER_ID, host);
    let ghost g_owner = *host;
    let param_contract_creator = p.get_agent_id(PARAM_CONTRACT_CREATOR, host);
    let ghost g_creator = *host;
    let param_contract_id = p.get_contract_id(PARAM_CONTRACT_ID, host);
    proof {
        lemma_extends_obj_lookup(h0, *host, OBJ_ID_ROOT, KEY_PARAMS, TYPE_MAP);
        lemma_extends_handle(g_agent, *host, encode_utf8("agentID"@));
        lemma_extends_handle(g_caller, *host, encode_utf8("caller"@));
        lemma_extends_handle(g_chain, *host, encode_utf8("chainID"@));
        lemma_extends_handle(g_owner, *host, encode_utf8("chainOwnerID"@));
        lemma_extends_handle(g_creator, *host, encode_utf8("contractCreator"@));
    }
    if !param_chain_id.present(host) {
        return Err(ScError::new("fail: chainID"));
    }
    if !(param_chain_id.value(host) == ctx.contract_id(host).chain_id()) {
        return Err(ScError::new("fail: chainID"));
    }
    if !param_chain_owner_id.present(host) {
        return Err(ScError::new("fail: chainOwnerID"));
    }
    if !(param_chain_owner_id.value(host) == ctx.chain_owner_id(host)) {
        return Err(ScError::new("fail: chainOwnerID"));
    }
    if !param_caller.present(host) {
        return Err(ScError::new("fail: caller"));
    }
    if !(param_caller.value(host) == ctx.caller(host)) {
        return Err(ScError::new("fail: caller"));
    }
    if !param_contract_id.present(host) {
        return Err(ScError::new("fail: contractID"));
    }
    if !(param_contract_id.value(host) == ctx.contract_id(host)) {
        return Err(ScError::new("fail: contractID"));
    }
    if !param_agent_id.present(host) {
        return Err(ScError::new("fail: agentID"));
    }
    if !(param_agent_id.value(host) == ctx.contract_id(host).as_agent_id()) {
        return Err(ScError::new("fail: agentID"));
    }
    if !param_contract_creator.present(host) {
        return Err(ScError::new("fail: contractCreator"));
    }
    if !(param_contract_creator.value(host) == ctx.contract_creator(host)) {
        return Err(ScError::new("fail: contractCreator"));
    }
    Ok(())
}

/// View that checks each identity parameter against the invocation's
/// context; a view has no caller identity.
pub fn view_check_context_from_view_ep(ctx: &ScViewContext, host: &mut Host) -> (r: Result<
    (),
    ScError,
>)
    requires
        old(host).wf(),
        old(host).headroom(16),
        ctx_ready(*old(host)),
    ensures
        final(host).wf(),
        final(host).extends(*old(host)),
        final(host).same_values(*old(host)),
        r is Ok <==> full_ctx_ok(*old(host), *final(host)),
{
    ctx.log("calling checkContextFromViewEP", host);
    let p = ctx.params(host);
    let ghost h0 = *host;
    proof {
        reveal_strlit("agentID");
        reveal_strlit("chainID");
        reveal_strlit("chainOwnerID");
        reveal_strlit("contractCreator");
        reveal_strlit("contractID");
    }
    let param_agent_id = p.get_agent_id(PARAM_AGENT_ID, host);
    let ghost g_agent = *host;
    let param_chain_id = p.get_chain_id(PARAM_CHAIN_ID, host);
    let ghost g_chain = *host;
    let param_chain_owner_id = p.get_agent_id(PARAM_CHAIN_OWNER_ID, host);
    let ghost g_owner = *host;
    let param_contract_creator = p.get_agent_id(PARAM_CONTRACT_CREATOR, host);
    let ghost g_creator = *host;
    let param_contract_id = p.get_contract_id(PARAM_CONTRACT_ID, host);
    proof {
        lemma_extends_obj_lookup(h0, *host, OBJ_ID_ROOT, KEY_PARAMS, TYPE_MAP);
        lemma_extends_handle(g_agent, *host, encode_utf8("agentID"@));
        lemma_extends_handle(g_chain, *host, encode_utf8("chainID"@));
        lemma_extends_handle(g_owner, *host, encode_utf8("chainOwnerID"@));
        lemma_extends_handle(g_creator, *host, encode_utf8("contractCreator"@));
    }
    if !param_chain_id.present(host) {
        return Err(ScError::new("fail: chainID"));
    }
    if !(param_chain_id.value(host) == ctx.contract_id(host).chain_id()) {
        return Err(ScError::new("fail: chainID"));
    }
    if !param_chain_owner_id.present(host) {
        return Err(ScError::new("fail: chainOwnerID"));
    }
    if !(param_chain_owner_id.value(host) == ctx.chain_owner_id(host)) {
        return Err(ScError::new("fail: chainOwnerID"));
    }
    if !param_contract_id.present(host) {
        return Err(ScError::new("fail: contractID"));
    }
    if !(param_contract_id.value(host) == ctx.contract_id(host)) {
        return Err(ScError::new("fail: contractID"));
    }
    if !param_agent_id.present(host) {
        return Err(ScError::new("fail: agentID"));
    }
    if !(param_agent_id.value(host) == ctx.contract_id(host).as_agent_id()) {
        return Err(ScError::new("fail: agentID"));
    }
    if !param_contract_creator.present(host) {
        return Err(ScError::new("fail: contractCreator"));
    }
    if !(param_contract_creator.value(host) == ctx.contract_creator(host)) {
        return Err(ScError::new("fail: contractCreator"));
    }
    Ok(())
}

/// Entry point that bumps the state counter and forwards its integer
/// parameter through a nested call, copying the nested reply's integer (as
/// the host supplied it, or 0 if the reply lacks one) into the results map.
/// Aborts when the integer parameter or the state counter is missing, or the
/// counter cannot grow.
#[verifier::rlimit(100)]
pub fn func_call_on_chain(ctx: &ScFuncContext, host: &mut Host) -> (r: Result<(), ScError>)
    requires
        old(host).wf(),
        old(host).headroom(16),
        ctx_ready(*old(host)),
    ensures
        final(host).wf(),
        final(host).extends(*old(host)),
        ({
            let fh = *final(host);
            let pm = root_map(fh, KEY_PARAMS);
            let sm = root_map(fh, KEY_STATE);
            let iv = int_at(*old(host), pm, name_key(fh, "intValue"@));
            let c0 = int_at(*old(host), sm, name_key(fh, "counter"@));
            &&& (r is Ok <==> iv is Some && c0 is Some && c0->Some_0 < i64::MAX)
            &&& r is Err ==> fh.same_values(*old(host))
            &&& r is Ok ==> {
                &&& int_at(fh, sm, name_key(fh, "counter"@)) == Some((c0->Some_0 + 1) as i64)
                &&& fh.effect_view().len() == old(host).effect_view().len() + 1
                &&& fh.effect_view().last() matches Effect::Call {
                    contract,
                    function,
                    params: p,
                    results: res,
                    ..
                } && contract == (match hname_at(*old(host), pm, name_key(fh, "hnameContract"@)) {
                    Some(h) => h,
                    None => u32_of_le(
                        old(host).store()[(OBJ_ID_ROOT, KEY_CONTRACT_ID, TYPE_CONTRACT_ID)].subrange(
                            33,
                            37,
                        ),
                    ),
                }) && function == (match hname_at(*old(host), pm, name_key(fh, "hnameEP"@)) {
                    Some(h) => h,
                    None => crate::hashtypes::hname_of("callOnChain"@),
                }) && int_at(fh, p, name_key(fh, "intValue"@)) == Some(iv->Some_0) && int_at(
                    fh,
                    root_map(fh, KEY_RESULTS),
                    name_key(fh, "intValue"@),
                ) == Some(
                    match int_at(*old(host), res, name_key(fh, "intValue"@)) {
                        Some(v) => v,
                        None => 0i64,
                    },
                )
            }
        }),
{
    ctx.log("calling callOnChain", host);
    let p = ctx.params(host);
    let ghost h0 = *host;
    proof {
        reveal_strlit("hnameContract");
        reveal_strlit("hnameEP");
        reveal_strlit("intValue");
        reveal_strlit("counter");
    }
    let param_hname_contract = p.get_hname(PARAM_HNAME_CONTRACT, host);
    let ghost g_hc = *host;
    let param_hname_ep = p.get_hname(PARAM_HNAME_EP, host);
    let ghost g_ep = *host;
    let param_int_value = p.get_int(PARAM_INT_VALUE, host);
    let ghost g_iv = *host;
    if !param_int_value.present(host) {
        proof {
            lemma_extends_obj_lookup(h0, *host, OBJ_ID_ROOT, KEY_PARAMS, TYPE_MAP);
            lemma_extends_handle(g_iv, *host, encode_utf8("intValue"@));
        }
        return Err(ScError::new("missing mandatory intValue"));
    }
    let param_int = param_int_value.value(host);
    let mut target_contract = ctx.contract_id(host).hname();
    if param_hname_contract.present(host) {
        target_contract = param_hname_contract.value(host);
    }
    let mut target_ep = ScHname::new("callOnChain");
    if param_hname_ep.present(host) {
        target_ep = param_hname_ep.value(host);
    }
    let sm = ctx.state(host);
    let ghost g_sm = *host;
    let var_counter = sm.get_int(VAR_COUNTER, host);
    let ghost g_ctr = *host;
    if !var_counter.present(host) {
        proof {
            lemma_extends_obj_lookup(h0, *host, OBJ_ID_ROOT, KEY_PARAMS, TYPE_MAP);
            lemma_extends_obj_lookup(g_sm, *host, OBJ_ID_ROOT, KEY_STATE, TYPE_MAP);
            lemma_extends_handle(g_iv, *host, encode_utf8("intValue"@));
            lemma_extends_handle(g_ctr, *host, encode_utf8("counter"@));
        }
        return Err(ScError::new("counter not set"));
    }
    let counter = var_counter.value(host);
    if counter == i64::MAX {
        proof {
            lemma_extends_obj_lookup(h0, *host, OBJ_ID_ROOT, KEY_PARAMS, TYPE_MAP);
            lemma_extends_obj_lookup(g_sm, *host, OBJ_ID_ROOT, KEY_STATE, TYPE_MAP);
            lemma_extends_handle(g_iv, *host, encode_utf8("intValue"@));
            lemma_extends_handle(g_ctr, *host, encode_utf8("counter"@));
        }
        return Err(ScError::new("counter overflow"));
    }
    let params = ScMutableMap::new(host);
    let ghost g_new_pre = *host;
    let slot = params.get_int(PARAM_INT_VALUE, host);
    let ghost g_ps = *host;
    slot.set_value(host, param_int);
    let ghost g_call_pre = *host;
    let ret = ctx.call(target_contract, target_ep, Some(params), None, host);
    let ghost g_call = *host;
    let ret_val = ret.get_int(PARAM_INT_VALUE, host);
    let ghost g_rv = *host;
    let rv = if ret_val.present(host) {
        ret_val.value(host)
    } else {
        0
    };
    proof {
        lemma_extends_trans(g_ps, g_call_pre, g_call);
        lemma_extends_trans(g_ps, g_call, g_rv);
        lemma_extends_handle(g_ps, g_rv, encode_utf8("intValue"@));
        assert(slot.key_id == ret_val.key_id);
        lemma_call_reply_read(
            *old(host),
            g_call_pre,
            ret.obj_id,
            ret_val.key_id.0,
            params.obj_id,
            enc_int64(param_int),
        );
    }
    var_counter.set_value(host, counter + 1);
    let rm = ctx.results(host);
    let ghost g_rm = *host;
    let out = rm.get_int(PARAM_INT_VALUE, host);
    let ghost g_out = *host;
    out.set_value(host, rv);
    proof {
        lemma_extends_obj_lookup(h0, *host, OBJ_ID_ROOT, KEY_PARAMS, TYPE_MAP);
        lemma_extends_obj_lookup(g_sm, *host, OBJ_ID_ROOT, KEY_STATE, TYPE_MAP);
        lemma_extends_obj_lookup(g_rm, *host, OBJ_ID_ROOT, KEY_RESULTS, TYPE_MAP);
        lemma_extends_handle(g_hc, *host, encode_utf8("hnameContract"@));
        lemma_extends_handle(g_ep, *host, encode_utf8("hnameEP"@));
        lemma_extends_handle(g_iv, *host, encode_utf8("intValue"@));
        lemma_extends_handle(g_ctr, *host, encode_utf8("counter"@));
        lemma_extends_handle(g_ps, *host, encode_utf8("intValue"@));
        lemma_extends_handle(g_out, *host, encode_utf8("intValue"@));
        crate::host::lemma_obj_lookup_sound(*host, OBJ_ID_ROOT, KEY_STATE, TYPE_MAP);
        crate::host::lemma_obj_lookup_sound(*host, OBJ_ID_ROOT, KEY_RESULTS, TYPE_MAP);
        crate::host::lemma_obj_lookup_distinct(
            *host,
            OBJ_ID_ROOT,
            KEY_STATE,
            TYPE_MAP,
            OBJ_ID_ROOT,
            KEY_RESULTS,
            TYPE_MAP,
        );
        crate::host::lemma_extends_objects(g_new_pre, *host, params.obj_id);
    }
    Ok(())
}

/// The integer a nested-call reply map holds at `key`, read right after the
/// call, equals what the pre-entry host state holds there: a lined-up reply
/// is an object the entry point never wrote into, and a fresh reply map is
/// empty.  `written` is the one (fresh) object the entry point wrote an
/// integer into before calling.
proof fn lemma_call_reply_read(
    h_entry: Host,
    call_pre: Host,
    res: i32,
    key: i32,
    written: i32,
    v: Seq<u8>,
)
    requires
        h_entry.wf(),
        h_entry.objs().len() <= call_pre.objs().len(),
        call_pre.same_replies(h_entry),
        call_pre.pending_replies().len() > 0 ==> res == call_pre.pending_replies()[0],
        call_pre.pending_replies().len() == 0 ==> !call_pre.is_obj(res),
        !h_entry.is_obj(written),
        call_pre.is_obj(written),
        call_pre.store() == h_entry.store().insert((written, key, TYPE_INT), v),
    ensures
        int_at(call_pre, res, key) == int_at(h_entry, res, key),
{
    if call_pre.pending_replies().len() > 0 {
        assert(h_entry.pending_replies()[0] == h_entry.reply_seq()[h_entry.replies_taken()]);
        assert(h_entry.is_map_obj(h_entry.reply_seq()[h_entry.replies_taken()]));
        assert(h_entry.is_obj(res));
        assert(res != written);
    } else {
        assert(!h_entry.is_obj(res));
        crate::host::lemma_fresh_obj_empty(h_entry, res, key, TYPE_INT);
        assert(res != written);
    }
}

/// Entry point that asks the host to run itself again with a decremented
/// depth, and reports the decremented depth.
pub fn func_run_recursion(ctx: &ScFuncContext, host: &mut Host) -> (r: Result<(), ScError>)
    requires
        old(host).wf(),
        old(host).headroom(16),
        ctx_ready(*old(host)),
    ensures
        final(host).wf(),
        final(host).extends(*old(host)),
        ({
            let fh = *final(host);
            let pm = root_map(fh, KEY_PARAMS);
            let iv = int_at(*old(host), pm, name_key(fh, "intValue"@));
            &&& (r is Ok <==> iv is Some)
            &&& r is Err ==> fh.same_values(*old(host)) && fh.effect_view() == old(
                host,
            ).effect_view()
            &&& (r is Ok && iv->Some_0 <= 0) ==> fh.same_values(*old(host)) && fh.effect_view()
                == old(host).effect_view()
            &&& (r is Ok && iv->Some_0 > 0) ==> {
                &&& fh.effect_view().len() == old(host).effect_view().len() + 1
                &&& fh.effect_view().last() matches Effect::Call { function, params: p, .. }
                    && function == crate::hashtypes::hname_of("callOnChain"@) && int_at(
                    fh,
                    p,
                    name_key(fh, "intValue"@),
                ) == Some((iv->Some_0 - 1) as i64) && hname_at(fh, p, name_key(fh, "hnameEP"@))
                    == Some(crate::hashtypes::hname_of("runRecursion"@))
                &&& int_at(fh, root_map(fh, KEY_RESULTS), name_key(fh, "intValue"@)) == Some(
                    (iv->Some_0 - 1) as i64,
                )
            }
        }),
{
    ctx.log("calling runRecursion", host);
    let p = ctx.params(host);
    let ghost h0 = *host;
    proof {
        reveal_strlit("intValue");
        reveal_strlit("hnameEP");
    }
    let param_int_value = p.get_int(PARAM_INT_VALUE, host);
    let ghost g_iv = *host;
    if !param_int_value.present(host) {
        proof {
            lemma_extends_obj_lookup(h0, *host, OBJ_ID_ROOT, KEY_PARAMS, TYPE_MAP);
        }
        return Err(ScError::new("missing mandatory intValue"));
    }
    let depth = param_int_value.value(host);
    if depth <= 0 {
        proof {
            lemma_extends_obj_lookup(h0, *host, OBJ_ID_ROOT, KEY_PARAMS, TYPE_MAP);
            lemma_extends_handle(g_iv, *host, encode_utf8("intValue"@));
        }
        return Ok(());
    }
    let params = ScMutableMap::new(host);
    let ghost g_new = *host;
    let s1 = params.get_int(PARAM_INT_VALUE, host);
    let ghost g_s1 = *host;
    s1.set_value(host, depth - 1);
    let s2 = params.get_hname(PARAM_HNAME_EP, host);
    let ghost g_s2 = *host;
    s2.set_value(host, ScHname::new("runRecursion"));
    let f = ScHname::new("callOnChain");
    let _ = ctx.call_self(f, Some(params), None, host);
    let rm = ctx.results(host);
    let ghost g_rm = *host;
    let out = rm.get_int(PARAM_INT_VALUE, host);
    let ghost g_out = *host;
    out.set_value(host, depth - 1);
    proof {
        lemma_extends_obj_lookup(h0, *host, OBJ_ID_ROOT, KEY_PARAMS, TYPE_MAP);
        lemma_extends_obj_lookup(g_rm, *host, OBJ_ID_ROOT, KEY_RESULTS, TYPE_MAP);
        lemma_extends_handle(g_iv, *host, encode_utf8("intValue"@));
        lemma_extends_handle(g_s1, *host, encode_utf8("intValue"@));
        lemma_extends_handle(g_s2, *host, encode_utf8("hnameEP"@));
        lemma_extends_handle(g_out, *host, encode_utf8("intValue"@));
        crate::host::lemma_obj_lookup_sound(*host, OBJ_ID_ROOT, KEY_RESULTS, TYPE_MAP);
        crate::host::lemma_extends_objects(g_new, *host, params.obj_id);
    }
    Ok(())
}

/// View that computes a Fibonacci number by calling itself through the host
/// for the two predecessors and summing whatever the host's reply maps hold
/// (0 where a reply lacks the integer).  The host executes the nested calls
/// outside this model and lines the replies up beforehand.
#[verifier::rlimit(100)]
pub fn view_fibonacci(ctx: &ScViewContext, host: &mut Host) -> (r: Result<(), ScError>)
    requires
        old(host).wf(),
        old(host).headroom(16),
        ctx_ready(*old(host)),
    ensures
        final(host).wf(),
        final(host).extends(*old(host)),
        ({
            let fh = *final(host);
            let pm = root_map(fh, KEY_PARAMS);
            let iv = int_at(*old(host), pm, name_key(fh, "intValue"@));
            &&& (iv is None ==> r is Err && fh.same_values(*old(host)))
            &&& (iv matches Some(n) ==> (n < 0 ==> r is Err && fh.same_values(*old(host))))
            &&& (iv matches Some(n) ==> ((n == 0 || n == 1) ==> r is Ok && int_at(
                fh,
                root_map(fh, KEY_RESULTS),
                name_key(fh, "intValue"@),
            ) == Some(n)))
            &&& (iv matches Some(n) ==> n >= 2 ==> {
                let k = name_key(fh, "intValue"@);
                &&& fh.effect_view().len() == old(host).effect_view().len() + 2
                &&& fh.effect_view()[fh.effect_view().len() - 2] matches Effect::Call {
                    function: f1,
                    params: p1,
                    results: r1,
                    ..
                } && f1 == crate::hashtypes::hname_of("fibonacci"@) && int_at(fh, p1, k) == Some(
                    (n - 1) as i64,
                ) && ({
                    let v1 = match int_at(*old(host), r1, k) {
                        Some(v) => v,
                        None => 0i64,
                    };
                    fh.effect_view().last() matches Effect::Call {
                        function: f2,
                        params: p2,
                        results: r2,
                        ..
                    } && f2 == crate::hashtypes::hname_of("fibonacci"@) && int_at(fh, p2, k)
                        == Some((n - 2) as i64) && ({
                        let v2 = match int_at(*old(host), r2, k) {
                            Some(v) => v,
                            None => 0i64,
                        };
                        &&& (r is Ok <==> i64::MIN <= v1 + v2 <= i64::MAX)
                        &&& (r is Ok ==> int_at(fh, root_map(fh, KEY_RESULTS), k) == Some(
                            (v1 + v2) as i64,
                        ))
                    })
                })
            })
        }),
{
    ctx.log("calling fibonacci", host);
    let p = ctx.params(host);
    let ghost h0 = *host;
    proof {
        reveal_strlit("intValue");
    }
    let param_int_value = p.get_int(PARAM_INT_VALUE, host);
    let ghost g_iv = *host;
    if !param_int_value.present(host) {
        proof {
            lemma_extends_obj_lookup(h0, *host, OBJ_ID_ROOT, KEY_PARAMS, TYPE_MAP);
        }
        return Err(ScError::new("missing mandatory intValue"));
    }
    let n = param_int_value.value(host);
    if n < 0 {
        proof {
            lemma_extends_obj_lookup(h0, *host, OBJ_ID_ROOT, KEY_PARAMS, TYPE_MAP);
        }
        return Err(ScError::new("intValue must be non-negative"));
    }
    if n == 0 || n == 1 {
        let rm = ctx.results(host);
        let ghost g_rm = *host;
        let out = rm.get_int(PARAM_INT_VALUE, host);
        let ghost g_out = *host;
        out.set_value(host, n);
        proof {
            lemma_extends_obj_lookup(h0, *host, OBJ_ID_ROOT, KEY_PARAMS, TYPE_MAP);
            lemma_extends_obj_lookup(g_rm, *host, OBJ_ID_ROOT, KEY_RESULTS, TYPE_MAP);
            lemma_extends_handle(g_iv, *host, encode_utf8("intValue"@));
            lemma_extends_handle(g_out, *host, encode_utf8("intValue"@));
        }
        return Ok(());
    }
    let fib = ScHname::new("fibonacci");
    let params1 = ScMutableMap::new(host);
    let ghost g_new1 = *host;
    let s1 = params1.get_int(PARAM_INT_VALUE, host);
    let ghost g_s1 = *host;
    s1.set_value(host, n - 1);
    let ghost g_c1pre = *host;
    let results1 = ctx.call_self(fib, Some(params1), host);
    let ghost g_c1 = *host;
    let rv1 = results1.get_int(PARAM_INT_VALUE, host);
    let ghost g_r1 = *host;
    let n1 = if rv1.present(host) {
        rv1.value(host)
    } else {
        0
    };
    proof {
        lemma_extends_trans(g_s1, g_c1pre, g_c1);
        lemma_extends_trans(g_s1, g_c1, g_r1);
        lemma_extends_handle(g_s1, g_r1, encode_utf8("intValue"@));
        assert(s1.key_id == rv1.key_id);
        lemma_call_reply_read(
            *old(host),
            g_c1pre,
            results1.obj_id,
            rv1.key_id.0,
            params1.obj_id,
            enc_int64((n - 1) as i64),
        );
    }
    let params2 = ScMutableMap::new(host);
    let ghost g_new2 = *host;
    let s2 = params2.get_int(PARAM_INT_VALUE, host);
    let ghost g_s2 = *host;
    s2.set_value(host, n - 2);
    let ghost g_c2pre = *host;
    let results2 = ctx.call_self(fib, Some(params2), host);
    let ghost g_c2 = *host;
    let rv2 = results2.get_int(PARAM_INT_VALUE, host);
    let ghost g_r2 = *host;
    let n2 = if rv2.present(host) {
        rv2.value(host)
    } else {
        0
    };
    proof {
        lemma_extends_trans(g_s2, g_c2pre, g_c2);
        lemma_extends_trans(g_s2, g_c2, g_r2);
        lemma_extends_handle(g_s2, g_r2, encode_utf8("intValue"@));
        assert(s2.key_id == rv2.key_id);
        lemma_extends_trans(g_s1, g_r1, g_new2);
        lemma_extends_trans(g_s1, g_new2, g_s2);
        lemma_extends_handle(g_s1, g_s2, encode_utf8("intValue"@));
        assert(s1.key_id == s2.key_id);
        assert(g_c2pre.store() == old(host).store().insert(
            (params1.obj_id, rv2.key_id.0, TYPE_INT),
            enc_int64((n - 1) as i64),
        ).insert((params2.obj_id, rv2.key_id.0, TYPE_INT), enc_int64((n - 2) as i64)));
        lemma_second_reply_read(
            *old(host),
            g_c2pre,
            results2.obj_id,
            rv2.key_id.0,
            params1.obj_id,
            params2.obj_id,
        );
    }
    let overflow = (n2 > 0 && n1 > i64::MAX - n2) || (n2 < 0 && n1 < i64::MIN - n2);
    if overflow {
        proof {
            lemma_extends_obj_lookup(h0, *host, OBJ_ID_ROOT, KEY_PARAMS, TYPE_MAP);
            lemma_extends_handle(g_iv, *host, encode_utf8("intValue"@));
            lemma_extends_handle(g_s1, *host, encode_utf8("intValue"@));
            lemma_extends_handle(g_s2, *host, encode_utf8("intValue"@));
            crate::host::lemma_extends_objects(g_new1, *host, params1.obj_id);
            crate::host::lemma_extends_objects(g_new2, *host, params2.obj_id);
        }
        return Err(ScError::new("fibonacci result out of range"));
    }
    let rm = ctx.results(host);
    let ghost g_rm = *host;
    let out = rm.get_int(PARAM_INT_VALUE, host);
    let ghost g_out = *host;
    out.set_value(host, n1 + n2);
    proof {
        lemma_extends_obj_lookup(h0, *host, OBJ_ID_ROOT, KEY_PARAMS, TYPE_MAP);
        lemma_extends_obj_lookup(g_rm, *host, OBJ_ID_ROOT, KEY_RESULTS, TYPE_MAP);
        lemma_extends_handle(g_iv, *host, encode_utf8("intValue"@));
        lemma_extends_handle(g_s1, *host, encode_utf8("intValue"@));
        lemma_extends_handle(g_s2, *host, encode_utf8("intValue"@));
        lemma_extends_handle(g_out, *host, encode_utf8("intValue"@));
        crate::host::lemma_obj_lookup_sound(*host, OBJ_ID_ROOT, KEY_RESULTS, TYPE_MAP);
        crate::host::lemma_extends_objects(g_new1, *host, params1.obj_id);
        crate::host::lemma_extends_objects(g_new2, *host, params2.obj_id);
    }
    Ok(())
}

/// As `lemma_call_reply_read`, for the second nested call: by then the entry
/// point has written one integer into each of its two fresh params maps, and
/// neither is the reply object.
proof fn lemma_second_reply_read(
    h_entry: Host,
    call_pre: Host,
    res: i32,
    key: i32,
    written1: i32,
    written2: i32,
)
    requires
        h_entry.wf(),
        call_pre.wf(),
        h_entry.objs().len() <= call_pre.objs().len(),
        call_pre.reply_seq() == h_entry.reply_seq(),
        call_pre.pending_replies().len() > 0 ==> res == call_pre.pending_replies()[0],
        call_pre.pending_replies().len() == 0 ==> !call_pre.is_obj(res),
        !h_entry.is_obj(written1),
        !h_entry.is_obj(written2),
        call_pre.is_obj(written1),
        call_pre.is_obj(written2),
        exists|v1: Seq<u8>, v2: Seq<u8>|
            call_pre.store() == h_entry.store().insert((written1, key, TYPE_INT), v1).insert(
                (written2, key, TYPE_INT),
                v2,
            ),
    ensures
        int_at(call_pre, res, key) == int_at(h_entry, res, key),
{
    if call_pre.pending_replies().len() > 0 {
        let i = call_pre.replies_taken();
        assert(call_pre.pending_replies()[0] == call_pre.reply_seq().skip(i)[0]);
        assert(call_pre.reply_seq().skip(i)[0] == call_pre.reply_seq()[i]);
        assert(h_entry.is_map_obj(h_entry.reply_seq()[i]));
        assert(h_entry.is_obj(res));
        assert(res != written1 && res != written2);
    } else {
        assert(!h_entry.is_obj(res));
        crate::host::lemma_fresh_obj_empty(h_entry, res, key, TYPE_INT);
        assert(res != written1 && res != written2);
    }
}

/// Entry point, restricted to the contract's creator, that sends this
/// contract's plain-token balance to a given address.
pub fn func_send_to_address(ctx: &ScFuncContext, host: &mut Host) -> (r: Result<(), ScError>)
    requires
        old(host).wf(),
        old(host).headroom(16),
        ctx_ready(*old(host)),
    ensures
        final(host).wf(),
        final(host).extends(*old(host)),
        final(host).same_values(*old(host)),
        ({
            let fh = *final(host);
            let pm = root_map(fh, KEY_PARAMS);
            let addr = fixed_at(
                *old(host),
                pm,
                name_key(fh, "address"@),
                crate::host::TYPE_ADDRESS,
            );
            let permitted = old(host).store()[(OBJ_ID_ROOT, KEY_CALLER, TYPE_AGENT_ID)] == old(
                host,
            ).store()[(OBJ_ID_ROOT, KEY_CONTRACT_CREATOR, TYPE_AGENT_ID)];
            let iota = Seq::new(32, |i: int| 0u8);
            &&& (r is Ok <==> permitted && addr is Some)
            &&& r is Ok ==> fh.effect_view().len() == old(host).effect_view().len() + 1
                && fh.has_ikey(iota) && (fh.effect_view().last() matches Effect::Transfer {
                address,
                color,
                amount,
            } && address@ == addr->Some_0 && color@ == iota && amount == (match int_at(
                *old(host),
                root_map(fh, KEY_BALANCES),
                fh.handle_of(iota) as i32,
            ) {
                Some(v) => v,
                None => 0i64,
            }))
            &&& r is Err ==> fh.effect_view() == old(host).effect_view()
        }),
{
    ctx.log("calling sendToAddress", host);
    if !(ctx.caller(host) == ctx.contract_creator(host)) {
        return Err(ScError::new("no permission"));
    }
    let p = ctx.params(host);
    let ghost h0 = *host;
    proof {
        reveal_strlit("address");
    }
    let param_address = p.get_address(PARAM_ADDRESS, host);
    let ghost g_addr = *host;
    if !param_address.present(host) {
        proof {
            lemma_extends_obj_lookup(h0, *host, OBJ_ID_ROOT, KEY_PARAMS, TYPE_MAP);
        }
        return Err(ScError::new("missing mandatory address"));
    }
    let address = param_address.value(host);
    let iota = ScColor::iota();
    let balances = ctx.balances(host);
    let ghost g_bal = *host;
    let amount = balances.balance(&iota, host);
    let ghost g_read = *host;
    let transfers = ScTransfers::new(&iota, amount);
    ctx.transfer_to_address(&address, transfers, host);
    proof {
        lemma_extends_obj_lookup(h0, *host, OBJ_ID_ROOT, KEY_PARAMS, TYPE_MAP);
        lemma_extends_obj_lookup(g_bal, *host, OBJ_ID_ROOT, KEY_BALANCES, TYPE_MAP);
        lemma_extends_handle(g_addr, *host, encode_utf8("address"@));
        lemma_extends_handle(g_read, *host, Seq::new(32, |i: int| 0u8));
    }
    Ok(())
}

/// Entry point that posts an asynchronous withdraw request to the accounts
/// contract on another chain, with a two-token transfer; fire and forget,
/// the module receives no completion signal.
pub fn func_withdraw_to_chain(ctx: &ScFuncContext, host: &mut Host) -> (r: Result<(), ScError>)
    requires
        old(host).wf(),
        old(host).headroom(16),
    ensures
        final(host).wf(),
        final(host).extends(*old(host)),
        final(host).same_values(*old(host)),
        ({
            let fh = *final(host);
            let pm = root_map(fh, KEY_PARAMS);
            let chain = fixed_at(
                *old(host),
                pm,
                name_key(fh, "chainID"@),
                crate::host::TYPE_CHAIN_ID,
            );
            &&& (r is Ok <==> chain is Some)
            &&& r is Ok ==> fh.effect_view().len() == old(host).effect_view().len() + 1 && (
            fh.effect_view().last() matches Effect::Post {
                contract_id,
                function,
                transfer_amount,
                delay,
                ..
            } && contract_id@ == chain->Some_0 + crate::codec::u32_le_bytes(
                crate::hashtypes::hname_of("accounts"@),
            ) && function == crate::hashtypes::hname_of("withdrawToChain"@) && transfer_amount
                == 2 && delay == 0)
            &&& r is Err ==> fh.effect_view() == old(host).effect_view()
        }),
{
    ctx.log("calling withdrawToChain", host);
    let p = ctx.params(host);
    let ghost h0 = *host;
    proof {
        reveal_strlit("chainID");
    }
    let param_chain_id = p.get_chain_id(PARAM_CHAIN_ID, host);
    let ghost g_chain = *host;
    if !param_chain_id.present(host) {
        proof {
            lemma_extends_obj_lookup(h0, *host, OBJ_ID_ROOT, KEY_PARAMS, TYPE_MAP);
        }
        return Err(ScError::new("missing mandatory chainId"));
    }
    let chain = param_chain_id.value(host);
    let accounts = ScHname::new("accounts");
    let target_contract_id = ScContractId::new(&chain, &accounts);
    let iota = ScColor::iota();
    let transfers = ScTransfers::new(&iota, 2);
    let par = PostRequestParams {
        contract_id: target_contract_id,
        function: ScHname::new("withdrawToChain"),
        params: None,
        transfer: Some(transfers),
        delay: 0,
    };
    ctx.post(&par, host);
    ctx.log("====  success ====", host);
    proof {
        lemma_extends_obj_lookup(h0, *host, OBJ_ID_ROOT, KEY_PARAMS, TYPE_MAP);
        lemma_extends_handle(g_chain, *host, encode_utf8("chainID"@));
    }
    Ok(())
}

/// View that asks the host's root contract for the chain description and
/// copies the reply's text (as the host supplied it, or the empty string if
/// the reply lacks one) into the results map.
pub fn view_test_sandbox_call(ctx: &ScViewContext, host: &mut Host)
    requires
        old(host).wf(),
        old(host).headroom(16),
    ensures
        final(host).wf(),
        final(host).extends(*old(host)),
        ({
            let fh = *final(host);
            &&& fh.effect_view().len() == old(host).effect_view().len() + 1
            &&& fh.effect_view().last() matches Effect::Call { contract, function, results, .. }
                && contract == crate::hashtypes::hname_of("root"@) && function
                == crate::hashtypes::hname_of("getChainInfo"@) && str_at(
                fh,
                root_map(fh, KEY_RESULTS),
                name_key(fh, "sandboxCall"@),
            ) == Some(decode_utf8(old(host).read(results, name_key(fh, "d"@), TYPE_STRING)))
        }),
{
    ctx.log("calling testSandboxCall", host);
    let root = ScHname::new("root");
    let get_chain_info = ScHname::new("getChainInfo");
    let ghost g_pre = *host;
    let ret = ctx.call(root, get_chain_info, None, host);
    let ghost g_call = *host;
    proof {
        reveal_strlit("d");
        reveal_strlit("sandboxCall");
    }
    let slot = ret.get_string("d", host);
    let ghost g_d = *host;
    let desc = slot.value(host);
    proof {
        if g_pre.pending_replies().len() == 0 {
            crate::host::lemma_fresh_obj_empty(*old(host), ret.obj_id, slot.key_id.0, TYPE_STRING);
        }
    }
    let rm = ctx.results(host);
    let ghost g_rm = *host;
    let out = rm.get_string("sandboxCall", host);
    let ghost g_out = *host;
    out.set_value(host, desc.as_str());
    proof {
        lemma_extends_obj_lookup(g_rm, *host, OBJ_ID_ROOT, KEY_RESULTS, TYPE_MAP);
        lemma_extends_handle(g_d, *host, encode_utf8("d"@));
        lemma_extends_handle(g_out, *host, encode_utf8("sandboxCall"@));
        vstd::utf8::encode_utf8_decode_utf8(desc@);
    }
}

} // verus!
