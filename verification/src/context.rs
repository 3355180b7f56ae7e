//! The call-scoped execution contexts: the full (state-mutating, transacting)
//! variant and the read-only view variant.
//!
//! Both expose the top-level typed maps (state, params, results) rooted in
//! the host's object graph.  What sets them apart is capability by type: the
//! view context returns the state map through the read-only proxy type and
//! has no funds access and no transfer, post or deploy operation, so state
//! mutation from a view is a type-level impossibility, not a runtime check.
//! Every read-only operation is also proved to leave the value store
//! untouched (`same_values`).

use vstd::prelude::*;

use crate::hashtypes::ScAddress;
use crate::hashtypes::ScAgentId;
use crate::hashtypes::ScColor;
use crate::hashtypes::ScContractId;
use crate::hashtypes::ScHash;
use crate::hashtypes::ScHname;
use crate::hashtypes::hname_of;
use crate::host::Effect;
use crate::host::Host;
use crate::host::OBJ_ID_ROOT;
use crate::host::TYPE_AGENT_ID;
use crate::host::TYPE_CONTRACT_ID;
use crate::host::TYPE_INT;
use crate::host::TYPE_MAP;
use crate::immutable::ScImmutableMap;
use crate::keys::KEY_BALANCES;
use crate::keys::KEY_CALLER;
use crate::keys::KEY_CHAIN_OWNER_ID;
use crate::keys::KEY_CONTRACT_CREATOR;
use crate::keys::KEY_CONTRACT_ID;
use crate::keys::KEY_INCOMING;
use crate::keys::KEY_PARAMS;
use crate::keys::KEY_RESULTS;
use crate::keys::KEY_STATE;
use crate::keys::Key32;
use crate::mutable::ScMutableMap;
use crate::codec::dec_int64_val;
use crate::strutil::bytes_to_string;
use crate::utility::base58_of;
use crate::utility::base58_string;
use crate::utility::blake2b_of;
use crate::utility::blake2b_digest;

verus! {

use vstd::string::StrSliceExecFns;
use vstd::string::StringExecFns;

/// An aborted invocation: the human-readable message surfaced to the caller.
/// All aborts are all-or-nothing; no results are committed.
#[derive(Debug)]
pub struct ScError {
    pub msg: String,
}

impl ScError {
    pub fn new(msg: &str) -> (r: ScError)
        ensures
            r.msg@ == msg@,
    {
        ScError { msg: msg.to_owned() }
    }
}

/// A single-color fund transfer.
pub struct ScTransfers {
    pub color: ScColor,
    pub amount: i64,
}

impl ScTransfers {
    pub fn new(color: &ScColor, amount: i64) -> (r: ScTransfers)
        requires
            color.wf(),
        ensures
            r.color@ == color@,
            r.amount == amount,
            r.color.wf(),
    {
        ScTransfers { color: ScColor::from_bytes(color.to_bytes().as_slice()), amount }
    }
}

/// Everything an asynchronous cross-chain request carries.
pub struct PostRequestParams {
    pub contract_id: ScContractId,
    pub function: ScHname,
    pub params: Option<ScMutableMap>,
    pub transfer: Option<ScTransfers>,
    pub delay: i64,
}

/// Deterministic utility functions the host offers.
#[derive(Clone, Copy)]
pub struct ScUtility {}

impl ScUtility {
    /// 32-byte BLAKE2b digest of the given bytes.
    pub fn hash_blake2b(&self, value: &[u8]) -> (r: ScHash)
        ensures
            r@ == blake2b_of(value@),
            r.wf(),
    {
        let d = blake2b_digest(value);
        ScHash::from_bytes(d.as_slice())
    }

    /// Base58 rendering of the given bytes.
    pub fn base58_encode(&self, value: &[u8]) -> (r: String)
        ensures
            r@ == base58_of(value@),
    {
        base58_string(value)
    }

    /// The bytes behind a base58 rendering, or nothing for text that is no
    /// base58 rendering at all.
    pub fn base58_decode(&self, value: &str) -> (r: Option<Vec<u8>>)
        ensures
            r matches Some(b) ==> base58_of(b@) == value@,
    {
        crate::utility::base58_bytes(value)
    }

    /// The 32-bit selector of a contract or function name.
    pub fn hname(&self, name: &str) -> (r: ScHname)
        ensures
            r.0 == hname_of(name@),
    {
        ScHname::new(name)
    }
}

/// Read-only access to a balances map: token color to amount.
#[derive(Clone, Copy)]
pub struct ScBalances {
    pub obj_id: i32,
}

impl ScBalances {
    /// The balance of the given color; 0 if the color is absent.
    pub fn balance(&self, color: &ScColor, host: &mut Host) -> (r: i64)
        requires
            old(host).wf(),
            old(host).headroom(1),
            color.wf(),
        ensures
            final(host).wf(),
            final(host).extends(*old(host)),
            final(host).same_values(*old(host)),
            final(host).same_records(*old(host)),
            final(host).objs() == old(host).objs(),
            final(host).ikeys().len() <= old(host).ikeys().len() + 1,
            final(host).has_ikey(color@),
            ({
                let k = (self.obj_id, final(host).handle_of(color@) as i32, TYPE_INT);
                r == if final(host).store().contains_key(k) {
                    dec_int64_val(final(host).store()[k])
                } else {
                    0
                }
            }),
    {
        let cb = color.to_bytes();
        let key = host.intern_key_bytes(cb.as_slice());
        if host.value_exists(self.obj_id, key, TYPE_INT) {
            let b = host.get_bytes(self.obj_id, key, TYPE_INT);
            proof {
                assert(host.store().contains_key((self.obj_id, key.0, TYPE_INT)));
                assert(b@.subrange(0, 8) =~= b@);
            }
            crate::codec::read_u64_le(b.as_slice(), 0) as i64
        } else {
            0
        }
    }
}

/// The slots the host seeds before dispatching an invocation: caller and
/// chain metadata under the root scope.
pub open spec fn ctx_ready(h: Host) -> bool {
    &&& h.has(OBJ_ID_ROOT, KEY_CALLER, TYPE_AGENT_ID)
    &&& h.has(OBJ_ID_ROOT, KEY_CHAIN_OWNER_ID, TYPE_AGENT_ID)
    &&& h.has(OBJ_ID_ROOT, KEY_CONTRACT_CREATOR, TYPE_AGENT_ID)
    &&& h.has(OBJ_ID_ROOT, KEY_CONTRACT_ID, TYPE_CONTRACT_ID)
}

/// The full execution context: reads params, reads and writes state and
/// results, moves funds, and issues cross-contract requests.
#[derive(Clone, Copy)]
pub struct ScFuncContext {}

/// The read-only execution context: reads params and state, writes results;
/// no funds, no state mutation, no transfer, post or deploy.
#[derive(Clone, Copy)]
pub struct ScViewContext {}

impl ScFuncContext {
    pub fn new() -> (r: ScFuncContext) {
        ScFuncContext {  }
    }

    /// The mutable state map of this contract.
    pub fn state(&self, host: &mut Host) -> (r: ScMutableMap)
        requires
            old(host).wf(),
            old(host).headroom(1),
        ensures
            final(host).wf(),
            final(host).extends(*old(host)),
            final(host).same_values(*old(host)),
            final(host).same_records(*old(host)),
            final(host).ikeys() == old(host).ikeys(),
            final(host).objs().len() <= old(host).objs().len() + 1,
            final(host).obj_lookup(OBJ_ID_ROOT, KEY_STATE, TYPE_MAP) == Some(r.obj_id as int),
            r.valid(*final(host)),
    {
        let id = host.get_object_id(OBJ_ID_ROOT, Key32(KEY_STATE), TYPE_MAP);
        ScMutableMap { obj_id: id }
    }

    /// The read-only params map of this invocation.
    pub fn params(&self, host: &mut Host) -> (r: ScImmutableMap)
        requires
            old(host).wf(),
            old(host).headroom(1),
        ensures
            final(host).wf(),
            final(host).extends(*old(host)),
            final(host).same_values(*old(host)),
            final(host).same_records(*old(host)),
            final(host).ikeys() == old(host).ikeys(),
            final(host).objs().len() <= old(host).objs().len() + 1,
            final(host).obj_lookup(OBJ_ID_ROOT, KEY_PARAMS, TYPE_MAP) == Some(r.obj_id as int),
            r.valid(*final(host)),
    {
        let id = host.get_object_id(OBJ_ID_ROOT, Key32(KEY_PARAMS), TYPE_MAP);
        ScImmutableMap { obj_id: id }
    }

    /// The mutable results map, populated before return to answer the caller.
    pub fn results(&self, host: &mut Host) -> (r: ScMutableMap)
        requires
            old(host).wf(),
            old(host).headroom(1),
        ensures
            final(host).wf(),
            final(host).extends(*old(host)),
            final(host).same_values(*old(host)),
            final(host).same_records(*old(host)),
            final(host).ikeys() == old(host).ikeys(),
            final(host).objs().len() <= old(host).objs().len() + 1,
            final(host).obj_lookup(OBJ_ID_ROOT, KEY_RESULTS, TYPE_MAP) == Some(r.obj_id as int),
            r.valid(*final(host)),
    {
        let id = host.get_object_id(OBJ_ID_ROOT, Key32(KEY_RESULTS), TYPE_MAP);
        ScMutableMap { obj_id: id }
    }

    /// The agent that invoked this contract.
    pub fn caller(&self, host: &Host) -> (r: ScAgentId)
        requires
            host.wf(),
            host.has(OBJ_ID_ROOT, KEY_CALLER, TYPE_AGENT_ID),
        ensures
            r@ == host.store()[(OBJ_ID_ROOT, KEY_CALLER, TYPE_AGENT_ID)],
            r.wf(),
    {
        let b = host.get_bytes(OBJ_ID_ROOT, Key32(KEY_CALLER), TYPE_AGENT_ID);
        proof {
            assert(host.store().contains_key((OBJ_ID_ROOT, KEY_CALLER, TYPE_AGENT_ID)));
        }
        ScAgentId::from_bytes(b.as_slice())
    }

    /// The agent that owns the chain.
    pub fn chain_owner_id(&self, host: &Host) -> (r: ScAgentId)
        requires
            host.wf(),
            host.has(OBJ_ID_ROOT, KEY_CHAIN_OWNER_ID, TYPE_AGENT_ID),
        ensures
            r@ == host.store()[(OBJ_ID_ROOT, KEY_CHAIN_OWNER_ID, TYPE_AGENT_ID)],
            r.wf(),
    {
        let b = host.get_bytes(OBJ_ID_ROOT, Key32(KEY_CHAIN_OWNER_ID), TYPE_AGENT_ID);
        proof {
            assert(host.store().contains_key((OBJ_ID_ROOT, KEY_CHAIN_OWNER_ID, TYPE_AGENT_ID)));
        }
        ScAgentId::from_bytes(b.as_slice())
    }

    /// The agent that created this contract instance.
    pub fn contract_creator(&self, host: &Host) -> (r: ScAgentId)
        requires
            host.wf(),
            host.has(OBJ_ID_ROOT, KEY_CONTRACT_CREATOR, TYPE_AGENT_ID),
        ensures
            r@ == host.store()[(OBJ_ID_ROOT, KEY_CONTRACT_CREATOR, TYPE_AGENT_ID)],
            r.wf(),
    {
        let b = host.get_bytes(OBJ_ID_ROOT, Key32(KEY_CONTRACT_CREATOR), TYPE_AGENT_ID);
        proof {
            assert(host.store().contains_key((OBJ_ID_ROOT, KEY_CONTRACT_CREATOR, TYPE_AGENT_ID)));
        }
        ScAgentId::from_bytes(b.as_slice())
    }

    /// This contract's identity.
    pub fn contract_id(&self, host: &Host) -> (r: ScContractId)
        requires
            host.wf(),
            host.has(OBJ_ID_ROOT, KEY_CONTRACT_ID, TYPE_CONTRACT_ID),
        ensures
            r@ == host.store()[(OBJ_ID_ROOT, KEY_CONTRACT_ID, TYPE_CONTRACT_ID)],
            r.wf(),
    {
        let b = host.get_bytes(OBJ_ID_ROOT, Key32(KEY_CONTRACT_ID), TYPE_CONTRACT_ID);
        proof {
            assert(host.store().contains_key((OBJ_ID_ROOT, KEY_CONTRACT_ID, TYPE_CONTRACT_ID)));
        }
        ScContractId::from_bytes(b.as_slice())
    }

    /// Read-only access to this contract's own funds.
    pub fn balances(&self, host: &mut Host) -> (r: ScBalances)
        requires
            old(host).wf(),
            old(host).headroom(1),
        ensures
            final(host).wf(),
            final(host).extends(*old(host)),
            final(host).same_values(*old(host)),
            final(host).same_records(*old(host)),
            final(host).ikeys() == old(host).ikeys(),
            final(host).objs().len() <= old(host).objs().len() + 1,
            final(host).obj_lookup(OBJ_ID_ROOT, KEY_BALANCES, TYPE_MAP) == Some(r.obj_id as int),
    {
        let id = host.get_object_id(OBJ_ID_ROOT, Key32(KEY_BALANCES), TYPE_MAP);
        ScBalances { obj_id: id }
    }

    /// Read-only access to the funds that came in with this invocation.
    pub fn incoming(&self, host: &mut Host) -> (r: ScBalances)
        requires
            old(host).wf(),
            old(host).headroom(1),
        ensures
            final(host).wf(),
            final(host).extends(*old(host)),
            final(host).same_values(*old(host)),
            final(host).same_records(*old(host)),
            final(host).ikeys() == old(host).ikeys(),
            final(host).objs().len() <= old(host).objs().len() + 1,
            final(host).obj_lookup(OBJ_ID_ROOT, KEY_INCOMING, TYPE_MAP) == Some(r.obj_id as int),
    {
        let id = host.get_object_id(OBJ_ID_ROOT, Key32(KEY_INCOMING), TYPE_MAP);
        ScBalances { obj_id: id }
    }

    /// The host's deterministic utility functions.
    pub fn utility(&self) -> (r: ScUtility) {
        ScUtility {  }
    }

    /// Record a log line.
    pub fn log(&self, text: &str, host: &mut Host)
        requires
            old(host).wf(),
        ensures
            final(host).wf(),
            final(host).extends(*old(host)),
            final(host).same_values(*old(host)),
            final(host).same_objects(*old(host)),
            final(host).log_view() == old(host).log_view().push(text@),
            final(host).event_view() == old(host).event_view(),
            final(host).effect_view() == old(host).effect_view(),
            final(host).same_replies(*old(host)),
    {
        host.append_log(text);
    }

    /// Append an immutable event entry.
    pub fn event(&self, text: &str, host: &mut Host)
        requires
            old(host).wf(),
        ensures
            final(host).wf(),
            final(host).extends(*old(host)),
            final(host).same_values(*old(host)),
            final(host).same_objects(*old(host)),
            final(host).event_view() == old(host).event_view().push(text@),
            final(host).log_view() == old(host).log_view(),
            final(host).effect_view() == old(host).effect_view(),
            final(host).same_replies(*old(host)),
    {
        host.append_event(text);
    }

    /// Synchronous same-chain call: record the request and wrap the results
    /// object the host designates for it.  The host executes the target
    /// outside this model and lines up the reply map beforehand
    /// (`Host::push_reply`); with no reply lined up the wrapped map is fresh
    /// and empty.  Nothing is assumed about what a lined-up reply holds.
    pub fn call(
        &self,
        contract: ScHname,
        function: ScHname,
        params: Option<ScMutableMap>,
        transfer: Option<ScTransfers>,
        host: &mut Host,
    ) -> (r: ScImmutableMap)
        requires
            old(host).wf(),
            old(host).headroom(1),
        ensures
            final(host).wf(),
            final(host).extends(*old(host)),
            final(host).same_values(*old(host)),
            final(host).ikeys() == old(host).ikeys(),
            final(host).objs().len() <= old(host).objs().len() + 1,
            final(host).log_view() == old(host).log_view(),
            final(host).event_view() == old(host).event_view(),
            final(host).effect_view().len() == old(host).effect_view().len() + 1,
            final(host).effect_view().last() matches Effect::Call {
                contract: c,
                function: f,
                params: p,
                results: res,
                transfer_color: tc,
                transfer_amount: ta,
            } && c == contract.0 && f == function.0 && p == (match params {
                Some(m) => m.obj_id,
                None => 0,
            }) && res == r.obj_id && ta == (match transfer {
                Some(t) => t.amount,
                None => 0,
            }),
            final(host).reply_seq() == old(host).reply_seq(),
            old(host).pending_replies().len() > 0 ==> r.obj_id == old(host).pending_replies()[0]
                && final(host).replies_taken() == old(host).replies_taken() + 1
                && final(host).objs() == old(host).objs(),
            old(host).pending_replies().len() == 0 ==> !old(host).is_obj(r.obj_id)
                && final(host).replies_taken() == old(host).replies_taken()
                && final(host).desc_of(r.obj_id).parent == 0,
            r.valid(*final(host)),
    {
        let rid = match host.take_reply() {
            Some(id) => id,
            None => host.create_object(TYPE_MAP),
        };
        let pid: i32 = match &params {
            Some(p) => p.obj_id,
            None => 0,
        };
        let (tc, ta): (Vec<u8>, i64) = match &transfer {
            Some(t) => (t.color.to_bytes(), t.amount),
            None => (Vec::new(), 0),
        };
        host.push_effect(
            Effect::Call {
                contract: contract.0,
                function: function.0,
                params: pid,
                results: rid,
                transfer_color: tc,
                transfer_amount: ta,
            },
        );
        ScImmutableMap { obj_id: rid }
    }

    /// Synchronous call into this same contract.
    pub fn call_self(
        &self,
        function: ScHname,
        params: Option<ScMutableMap>,
        transfer: Option<ScTransfers>,
        host: &mut Host,
    ) -> (r: ScImmutableMap)
        requires
            old(host).wf(),
            old(host).headroom(1),
            old(host).has(OBJ_ID_ROOT, KEY_CONTRACT_ID, TYPE_CONTRACT_ID),
        ensures
            final(host).wf(),
            final(host).extends(*old(host)),
            final(host).same_values(*old(host)),
            final(host).ikeys() == old(host).ikeys(),
            final(host).objs().len() <= old(host).objs().len() + 1,
            final(host).log_view() == old(host).log_view(),
            final(host).event_view() == old(host).event_view(),
            final(host).effect_view().len() == old(host).effect_view().len() + 1,
            final(host).effect_view().last() matches Effect::Call {
                function: f,
                params: p,
                results,
                ..
            } && f == function.0 && results == r.obj_id && p == (match params {
                Some(m) => m.obj_id,
                None => 0,
            }),
            final(host).reply_seq() == old(host).reply_seq(),
            old(host).pending_replies().len() > 0 ==> r.obj_id == old(host).pending_replies()[0]
                && final(host).replies_taken() == old(host).replies_taken() + 1
                && final(host).objs() == old(host).objs(),
            old(host).pending_replies().len() == 0 ==> !old(host).is_obj(r.obj_id)
                && final(host).replies_taken() == old(host).replies_taken()
                && final(host).desc_of(r.obj_id).parent == 0,
            r.valid(*final(host)),
    {
        let own = self.contract_id(host).hname();
        self.call(own, function, params, transfer, host)
    }

    /// Asynchronous cross-chain request: fire and forget.  The module gets
    /// no completion signal; the host alone tracks the posted request, so
    /// the model only records it.
    pub fn post(&self, par: &PostRequestParams, host: &mut Host)
        requires
            old(host).wf(),
            par.contract_id.wf(),
            par.transfer matches Some(t) ==> t.color.wf(),
        ensures
            final(host).wf(),
            final(host).extends(*old(host)),
            final(host).same_values(*old(host)),
            final(host).same_objects(*old(host)),
            final(host).log_view() == old(host).log_view(),
            final(host).event_view() == old(host).event_view(),
            final(host).same_replies(*old(host)),
            final(host).effect_view().len() == old(host).effect_view().len() + 1,
            final(host).effect_view().last() matches Effect::Post {
                contract_id,
                function,
                params,
                transfer_color,
                transfer_amount,
                delay,
            } && contract_id@ == par.contract_id@ && function == par.function.0 && params == (
            match par.params {
                Some(p) => p.obj_id,
                None => 0,
            }) && delay == par.delay && transfer_amount == (match par.transfer {
                Some(t) => t.amount,
                None => 0,
            }),
    {
        let pid: i32 = match &par.params {
            Some(p) => p.obj_id,
            None => 0,
        };
        let (tc, ta): (Vec<u8>, i64) = match &par.transfer {
            Some(t) => (t.color.to_bytes(), t.amount),
            None => (Vec::new(), 0),
        };
        host.push_effect(
            Effect::Post {
                contract_id: par.contract_id.to_bytes(),
                function: par.function.0,
                params: pid,
                transfer_color: tc,
                transfer_amount: ta,
                delay: par.delay,
            },
        );
    }

    /// Ask the host to install another contract instance.
    pub fn deploy(
        &self,
        program_hash: &ScHash,
        name: &str,
        description: &str,
        init_params: Option<ScMutableMap>,
        host: &mut Host,
    )
        requires
            old(host).wf(),
            program_hash.wf(),
        ensures
            final(host).wf(),
            final(host).extends(*old(host)),
            final(host).same_values(*old(host)),
            final(host).same_objects(*old(host)),
            final(host).log_view() == old(host).log_view(),
            final(host).event_view() == old(host).event_view(),
            final(host).same_replies(*old(host)),
            final(host).effect_view().len() == old(host).effect_view().len() + 1,
            final(host).effect_view().last() matches Effect::Deploy {
                program_hash: h,
                name: n,
                description: d,
                params,
            } && h@ == program_hash@ && n@ == name@ && d@ == description@ && params == (
            match init_params {
                Some(p) => p.obj_id,
                None => 0,
            }),
    {
        let pid: i32 = match &init_params {
            Some(p) => p.obj_id,
            None => 0,
        };
        host.push_effect(
            Effect::Deploy {
                program_hash: program_hash.to_bytes(),
                name: name.to_owned(),
                description: description.to_owned(),
                params: pid,
            },
        );
    }

    /// Ask the host to move funds to a ledger address.
    pub fn transfer_to_address(&self, address: &ScAddress, transfer: ScTransfers, host: &mut Host)
        requires
            old(host).wf(),
            address.wf(),
            transfer.color.wf(),
        ensures
            final(host).wf(),
            final(host).extends(*old(host)),
            final(host).same_values(*old(host)),
            final(host).same_objects(*old(host)),
            final(host).log_view() == old(host).log_view(),
            final(host).event_view() == old(host).event_view(),
            final(host).same_replies(*old(host)),
            final(host).effect_view().len() == old(host).effect_view().len() + 1,
            final(host).effect_view().last() matches Effect::Transfer {
                address: a,
                color: c,
                amount,
            } && a@ == address@ && c@ == transfer.color@ && amount == transfer.amount,
    {
        host.push_effect(
            Effect::Transfer {
                address: address.to_bytes(),
                color: transfer.color.to_bytes(),
                amount: transfer.amount,
            },
        );
    }
}

impl ScViewContext {
    pub fn new() -> (r: ScViewContext) {
        ScViewContext {  }
    }

    /// The state map, read-only: a view cannot mutate state by construction.
    pub fn state(&self, host: &mut Host) -> (r: ScImmutableMap)
        requires
            old(host).wf(),
            old(host).headroom(1),
        ensures
            final(host).wf(),
            final(host).extends(*old(host)),
            final(host).same_values(*old(host)),
            final(host).same_records(*old(host)),
            final(host).ikeys() == old(host).ikeys(),
            final(host).objs().len() <= old(host).objs().len() + 1,
            final(host).obj_lookup(OBJ_ID_ROOT, KEY_STATE, TYPE_MAP) == Some(r.obj_id as int),
            r.valid(*final(host)),
    {
        let id = host.get_object_id(OBJ_ID_ROOT, Key32(KEY_STATE), TYPE_MAP);
        ScImmutableMap { obj_id: id }
    }

    /// The read-only params map of this invocation.
    pub fn params(&self, host: &mut Host) -> (r: ScImmutableMap)
        requires
            old(host).wf(),
            old(host).headroom(1),
        ensures
            final(host).wf(),
            final(host).extends(*old(host)),
            final(host).same_values(*old(host)),
            final(host).same_records(*old(host)),
            final(host).ikeys() == old(host).ikeys(),
            final(host).objs().len() <= old(host).objs().len() + 1,
            final(host).obj_lookup(OBJ_ID_ROOT, KEY_PARAMS, TYPE_MAP) == Some(r.obj_id as int),
            r.valid(*final(host)),
    {
        let id = host.get_object_id(OBJ_ID_ROOT, Key32(KEY_PARAMS), TYPE_MAP);
        ScImmutableMap { obj_id: id }
    }

    /// The mutable results map: even a view answers its caller.
    pub fn results(&self, host: &mut Host) -> (r: ScMutableMap)
        requires
            old(host).wf(),
            old(host).headroom(1),
        ensures
            final(host).wf(),
            final(host).extends(*old(host)),
            final(host).same_values(*old(host)),
            final(host).same_records(*old(host)),
            final(host).ikeys() == old(host).ikeys(),
            final(host).objs().len() <= old(host).objs().len() + 1,
            final(host).obj_lookup(OBJ_ID_ROOT, KEY_RESULTS, TYPE_MAP) == Some(r.obj_id as int),
            r.valid(*final(host)),
    {
        let id = host.get_object_id(OBJ_ID_ROOT, Key32(KEY_RESULTS), TYPE_MAP);
        ScMutableMap { obj_id: id }
    }

    /// The agent that owns the chain.
    pub fn chain_owner_id(&self, host: &Host) -> (r: ScAgentId)
        requires
            host.wf(),
            host.has(OBJ_ID_ROOT, KEY_CHAIN_OWNER_ID, TYPE_AGENT_ID),
        ensures
            r@ == host.store()[(OBJ_ID_ROOT, KEY_CHAIN_OWNER_ID, TYPE_AGENT_ID)],
            r.wf(),
    {
        let b = host.get_bytes(OBJ_ID_ROOT, Key32(KEY_CHAIN_OWNER_ID), TYPE_AGENT_ID);
        proof {
            assert(host.store().contains_key((OBJ_ID_ROOT, KEY_CHAIN_OWNER_ID, TYPE_AGENT_ID)));
        }
        ScAgentId::from_bytes(b.as_slice())
    }

    /// The agent that created this contract instance.
    pub fn contract_creator(&self, host: &Host) -> (r: ScAgentId)
        requires
            host.wf(),
            host.has(OBJ_ID_ROOT, KEY_CONTRACT_CREATOR, TYPE_AGENT_ID),
        ensures
            r@ == host.store()[(OBJ_ID_ROOT, KEY_CONTRACT_CREATOR, TYPE_AGENT_ID)],
            r.wf(),
    {
        let b = host.get_bytes(OBJ_ID_ROOT, Key32(KEY_CONTRACT_CREATOR), TYPE_AGENT_ID);
        proof {
            assert(host.store().contains_key((OBJ_ID_ROOT, KEY_CONTRACT_CREATOR, TYPE_AGENT_ID)));
        }
        ScAgentId::from_bytes(b.as_slice())
    }

    /// This contract's identity.
    pub fn contract_id(&self, host: &Host) -> (r: ScContractId)
        requires
            host.wf(),
            host.has(OBJ_ID_ROOT, KEY_CONTRACT_ID, TYPE_CONTRACT_ID),
        ensures
            r@ == host.store()[(OBJ_ID_ROOT, KEY_CONTRACT_ID, TYPE_CONTRACT_ID)],
            r.wf(),
    {
        let b = host.get_bytes(OBJ_ID_ROOT, Key32(KEY_CONTRACT_ID), TYPE_CONTRACT_ID);
        proof {
            assert(host.store().contains_key((OBJ_ID_ROOT, KEY_CONTRACT_ID, TYPE_CONTRACT_ID)));
        }
        ScContractId::from_bytes(b.as_slice())
    }

    /// The host's deterministic utility functions.
    pub fn utility(&self) -> (r: ScUtility) {
        ScUtility {  }
    }

    /// Record a log line.
    pub fn log(&self, text: &str, host: &mut Host)
        requires
            old(host).wf(),
        ensures
            final(host).wf(),
            final(host).extends(*old(host)),
            final(host).same_values(*old(host)),
            final(host).same_objects(*old(host)),
            final(host).log_view() == old(host).log_view().push(text@),
            final(host).event_view() == old(host).event_view(),
            final(host).effect_view() == old(host).effect_view(),
            final(host).same_replies(*old(host)),
    {
        host.append_log(text);
    }

    /// Synchronous call restricted to other views: no transfer parameter
    /// exists on this variant.  The reply map comes from the host's lined-up
    /// replies, or is fresh and empty when none is lined up.
    pub fn call(
        &self,
        contract: ScHname,
        function: ScHname,
        params: Option<ScMutableMap>,
        host: &mut Host,
    ) -> (r: ScImmutableMap)
        requires
            old(host).wf(),
            old(host).headroom(1),
        ensures
            final(host).wf(),
            final(host).extends(*old(host)),
            final(host).same_values(*old(host)),
            final(host).ikeys() == old(host).ikeys(),
            final(host).objs().len() <= old(host).objs().len() + 1,
            final(host).log_view() == old(host).log_view(),
            final(host).event_view() == old(host).event_view(),
            final(host).effect_view().len() == old(host).effect_view().len() + 1,
            final(host).effect_view().last() matches Effect::Call {
                contract: c,
                function: f,
                params: p,
                results: res,
                transfer_amount: ta,
                ..
            } && c == contract.0 && f == function.0 && p == (match params {
                Some(m) => m.obj_id,
                None => 0,
            }) && res == r.obj_id && ta == 0,
            final(host).reply_seq() == old(host).reply_seq(),
            old(host).pending_replies().len() > 0 ==> r.obj_id == old(host).pending_replies()[0]
                && final(host).replies_taken() == old(host).replies_taken() + 1
                && final(host).objs() == old(host).objs(),
            old(host).pending_replies().len() == 0 ==> !old(host).is_obj(r.obj_id)
                && final(host).replies_taken() == old(host).replies_taken()
                && final(host).desc_of(r.obj_id).parent == 0,
            r.valid(*final(host)),
    {
        let rid = match host.take_reply() {
            Some(id) => id,
            None => host.create_object(TYPE_MAP),
        };
        let pid: i32 = match &params {
            Some(p) => p.obj_id,
            None => 0,
        };
        host.push_effect(
            Effect::Call {
                contract: contract.0,
                function: function.0,
                params: pid,
                results: rid,
                transfer_color: Vec::new(),
                transfer_amount: 0,
            },
        );
        ScImmutableMap { obj_id: rid }
    }

    /// Synchronous view call into this same contract.
    pub fn call_self(&self, function: ScHname, params: Option<ScMutableMap>, host: &mut Host) -> (r:
        ScImmutableMap)
        requires
            old(host).wf(),
            old(host).headroom(1),
            old(host).has(OBJ_ID_ROOT, KEY_CONTRACT_ID, TYPE_CONTRACT_ID),
        ensures
            final(host).wf(),
            final(host).extends(*old(host)),
            final(host).same_values(*old(host)),
            final(host).ikeys() == old(host).ikeys(),
            final(host).objs().len() <= old(host).objs().len() + 1,
            final(host).log_view() == old(host).log_view(),
            final(host).event_view() == old(host).event_view(),
            final(host).effect_view().len() == old(host).effect_view().len() + 1,
            final(host).effect_view().last() matches Effect::Call {
                function: f,
                params: p,
                results,
                ..
            } && f == function.0 && results == r.obj_id && p == (match params {
                Some(m) => m.obj_id,
                None => 0,
            }),
            final(host).reply_seq() == old(host).reply_seq(),
            old(host).pending_replies().len() > 0 ==> r.obj_id == old(host).pending_replies()[0]
                && final(host).replies_taken() == old(host).replies_taken() + 1
                && final(host).objs() == old(host).objs(),
            old(host).pending_replies().len() == 0 ==> !old(host).is_obj(r.obj_id)
                && final(host).replies_taken() == old(host).replies_taken()
                && final(host).desc_of(r.obj_id).parent == 0,
            r.valid(*final(host)),
    {
        let own = self.contract_id(host).hname();
        self.call(own, function, params, host)
    }
}

} // verus!
