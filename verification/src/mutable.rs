//! Mutable typed proxies over host objects: the read-only surface plus `set_value`.
//!
//! A proxy is a cheap value holding exactly an (object id, key handle) pair
//! or an object id; all state lives in the host.  Proxies are freely
//! copyable and valid only within the invocation whose host state they were
//! resolved against.

use vstd::prelude::*;

use crate::hashtypes::ScAddress;
use crate::hashtypes::ScAgentId;
use crate::hashtypes::ScChainId;
use crate::hashtypes::ScColor;
use crate::hashtypes::ScContractId;
use crate::hashtypes::ScHash;
use crate::hashtypes::ScHname;
use crate::host::Host;
use crate::host::OBJ_ID_ROOT;
use crate::host::TYPE_ADDRESS;
use crate::host::TYPE_AGENT_ID;
use crate::host::TYPE_ARRAY;
use crate::host::TYPE_BYTES;
use crate::host::TYPE_CHAIN_ID;
use crate::host::TYPE_COLOR;
use crate::host::TYPE_CONTRACT_ID;
use crate::host::TYPE_HASH;
use crate::host::TYPE_HNAME;
use crate::host::TYPE_INT;
use crate::host::TYPE_MAP;
use crate::host::TYPE_STRING;
use crate::keys::Key32;
use crate::keys::MapKey;
use crate::keys::key_resolved;
use crate::codec::append_u64_le;
use crate::codec::dec_int64_val;
use crate::codec::enc_int64;
use crate::codec::read_u64_le;
use crate::codec::u32_le_bytes;
use crate::codec::u32_of_le;
use crate::strutil::bytes_to_string;
use crate::strutil::dec_chars;
use crate::strutil::dec_int_chars;
use crate::strutil::i64_to_dec_string;
use crate::utility::base58_of;
use crate::utility::base58_string;
use crate::immutable::ScImmutableMap;

verus! {

use vstd::utf8::decode_utf8;
use vstd::utf8::encode_utf8;
use vstd::utf8::valid_utf8;
use vstd::string::StrSliceExecFns;
use vstd::string::StringExecFns;

/// Proxy for a address value bound to one (object id, key handle) slot;
/// it holds no data of its own, every read goes to the host.
#[derive(Clone, Copy)]
pub struct ScMutableAddress {
    pub obj_id: i32,
    pub key_id: Key32,
}

impl ScMutableAddress {
    /// Whether a value of this kind is present at the bound slot.
    pub fn present(&self, host: &Host) -> (r: bool)
        ensures
            r == host.has(self.obj_id, self.key_id.0, TYPE_ADDRESS),
    {
        host.value_exists(self.obj_id, self.key_id, TYPE_ADDRESS)
    }

    /// The stored value, decoded from its fixed-width bytes; reading an
    /// absent slot is fatal, so it is excluded.
    pub fn value(&self, host: &Host) -> (r: ScAddress)
        requires
            host.wf(),
            host.has(self.obj_id, self.key_id.0, TYPE_ADDRESS),
        ensures
            r@ == host.store()[(self.obj_id, self.key_id.0, TYPE_ADDRESS)],
            r.wf(),
    {
        let b = host.get_bytes(self.obj_id, self.key_id, TYPE_ADDRESS);
        proof {
            assert(host.store().contains_key((self.obj_id, self.key_id.0, TYPE_ADDRESS)));
        }
        ScAddress::from_bytes(b.as_slice())
    }

    /// Human-readable base58 rendering of the stored value.
    pub fn to_string(&self, host: &Host) -> (r: String)
        requires
            host.wf(),
            host.has(self.obj_id, self.key_id.0, TYPE_ADDRESS),
        ensures
            r@ == base58_of(host.store()[(self.obj_id, self.key_id.0, TYPE_ADDRESS)]),
    {
        self.value(host).to_string()
    }

    /// Store a value at the bound slot, overwriting any prior value; a write
    /// the host would reject (past an array's length, or into an array of
    /// another kind) is fatal and excluded.
    pub fn set_value(&self, host: &mut Host, v: &ScAddress)
        requires
            old(host).wf(),
            old(host).writable(self.obj_id, self.key_id.0, TYPE_ADDRESS),
            v.wf(),
        ensures
            final(host).wf(),
            final(host).extends(*old(host)),
            final(host).same_objects(*old(host)),
            final(host).same_records(*old(host)),
            final(host).store() == old(host).store().insert(
                (self.obj_id, self.key_id.0, TYPE_ADDRESS),
                v@,
            ),
            final(host).arr_len(self.obj_id) == if old(host).is_array_obj(self.obj_id)
                && self.key_id.0 as int == old(host).arr_len(self.obj_id) {
                old(host).arr_len(self.obj_id) + 1
            } else {
                old(host).arr_len(self.obj_id)
            },
            forall|id: i32| id != self.obj_id ==> #[trigger] final(host).arr_len(id) == old(
                host,
            ).arr_len(id),
    {
        let b = v.to_bytes();
        host.set_bytes(self.obj_id, self.key_id, TYPE_ADDRESS, b.as_slice());
    }
}

/// Proxy for a agent id value bound to one (object id, key handle) slot;
/// it holds no data of its own, every read goes to the host.
#[derive(Clone, Copy)]
pub struct ScMutableAgentId {
    pub obj_id: i32,
    pub key_id: Key32,
}

impl ScMutableAgentId {
    /// Whether a value of this kind is present at the bound slot.
    pub fn present(&self, host: &Host) -> (r: bool)
        ensures
            r == host.has(self.obj_id, self.key_id.0, TYPE_AGENT_ID),
    {
        host.value_exists(self.obj_id, self.key_id, TYPE_AGENT_ID)
    }

    /// The stored value, decoded from its fixed-width bytes; reading an
    /// absent slot is fatal, so it is excluded.
    pub fn value(&self, host: &Host) -> (r: ScAgentId)
        requires
            host.wf(),
            host.has(self.obj_id, self.key_id.0, TYPE_AGENT_ID),
        ensures
            r@ == host.store()[(self.obj_id, self.key_id.0, TYPE_AGENT_ID)],
            r.wf(),
    {
        let b = host.get_bytes(self.obj_id, self.key_id, TYPE_AGENT_ID);
        proof {
            assert(host.store().contains_key((self.obj_id, self.key_id.0, TYPE_AGENT_ID)));
        }
        ScAgentId::from_bytes(b.as_slice())
    }

    /// Human-readable base58 rendering of the stored value.
    pub fn to_string(&self, host: &Host) -> (r: String)
        requires
            host.wf(),
            host.has(self.obj_id, self.key_id.0, TYPE_AGENT_ID),
        ensures
            r@ == base58_of(host.store()[(self.obj_id, self.key_id.0, TYPE_AGENT_ID)]),
    {
        self.value(host).to_string()
    }

    /// Store a value at the bound slot, overwriting any prior value; a write
    /// the host would reject (past an array's length, or into an array of
    /// another kind) is fatal and excluded.
    pub fn set_value(&self, host: &mut Host, v: &ScAgentId)
        requires
            old(host).wf(),
            old(host).writable(self.obj_id, self.key_id.0, TYPE_AGENT_ID),
            v.wf(),
        ensures
            final(host).wf(),
            final(host).extends(*old(host)),
            final(host).same_objects(*old(host)),
            final(host).same_records(*old(host)),
            final(host).store() == old(host).store().insert(
                (self.obj_id, self.key_id.0, TYPE_AGENT_ID),
                v@,
            ),
            final(host).arr_len(self.obj_id) == if old(host).is_array_obj(self.obj_id)
                && self.key_id.0 as int == old(host).arr_len(self.obj_id) {
                old(host).arr_len(self.obj_id) + 1
            } else {
                old(host).arr_len(self.obj_id)
            },
            forall|id: i32| id != self.obj_id ==> #[trigger] final(host).arr_len(id) == old(
                host,
            ).arr_len(id),
    {
        let b = v.to_bytes();
        host.set_bytes(self.obj_id, self.key_id, TYPE_AGENT_ID, b.as_slice());
    }
}

/// Proxy for a bytes value bound to one (object id, key handle) slot;
/// it holds no data of its own, every read goes to the host.
#[derive(Clone, Copy)]
pub struct ScMutableBytes {
    pub obj_id: i32,
    pub key_id: Key32,
}

impl ScMutableBytes {
    /// Whether a value of this kind is present at the bound slot.
    pub fn present(&self, host: &Host) -> (r: bool)
        ensures
            r == host.has(self.obj_id, self.key_id.0, TYPE_BYTES),
    {
        host.value_exists(self.obj_id, self.key_id, TYPE_BYTES)
    }

    /// The stored bytes; empty if the slot is absent.
    pub fn value(&self, host: &Host) -> (r: Vec<u8>)
        ensures
            r@ == host.read(self.obj_id, self.key_id.0, TYPE_BYTES),
    {
        host.get_bytes(self.obj_id, self.key_id, TYPE_BYTES)
    }

    /// Human-readable base58 rendering of the stored bytes.
    pub fn to_string(&self, host: &Host) -> (r: String)
        ensures
            r@ == base58_of(host.read(self.obj_id, self.key_id.0, TYPE_BYTES)),
    {
        let b = self.value(host);
        base58_string(b.as_slice())
    }

    /// Store raw bytes at the bound slot.
    pub fn set_value(&self, host: &mut Host, v: &[u8])
        requires
            old(host).wf(),
            old(host).writable(self.obj_id, self.key_id.0, TYPE_BYTES),
        ensures
            final(host).wf(),
            final(host).extends(*old(host)),
            final(host).same_objects(*old(host)),
            final(host).same_records(*old(host)),
            final(host).store() == old(host).store().insert(
                (self.obj_id, self.key_id.0, TYPE_BYTES),
                v@,
            ),
            final(host).arr_len(self.obj_id) == if old(host).is_array_obj(self.obj_id)
                && self.key_id.0 as int == old(host).arr_len(self.obj_id) {
                old(host).arr_len(self.obj_id) + 1
            } else {
                old(host).arr_len(self.obj_id)
            },
            forall|id: i32| id != self.obj_id ==> #[trigger] final(host).arr_len(id) == old(
                host,
            ).arr_len(id),
    {
        host.set_bytes(self.obj_id, self.key_id, TYPE_BYTES, v);
    }
}

/// Proxy for a chain id value bound to one (object id, key handle) slot;
/// it holds no data of its own, every read goes to the host.
#[derive(Clone, Copy)]
pub struct ScMutableChainId {
    pub obj_id: i32,
    pub key_id: Key32,
}

impl ScMutableChainId {
    /// Whether a value of this kind is present at the bound slot.
    pub fn present(&self, host: &Host) -> (r: bool)
        ensures
            r == host.has(self.obj_id, self.key_id.0, TYPE_CHAIN_ID),
    {
        host.value_exists(self.obj_id, self.key_id, TYPE_CHAIN_ID)
    }

    /// The stored value, decoded from its fixed-width bytes; reading an
    /// absent slot is fatal, so it is excluded.
    pub fn value(&self, host: &Host) -> (r: ScChainId)
        requires
            host.wf(),
            host.has(self.obj_id, self.key_id.0, TYPE_CHAIN_ID),
        ensures
            r@ == host.store()[(self.obj_id, self.key_id.0, TYPE_CHAIN_ID)],
            r.wf(),
    {
        let b = host.get_bytes(self.obj_id, self.key_id, TYPE_CHAIN_ID);
        proof {
            assert(host.store().contains_key((self.obj_id, self.key_id.0, TYPE_CHAIN_ID)));
        }
        ScChainId::from_bytes(b.as_slice())
    }

    /// Human-readable base58 rendering of the stored value.
    pub fn to_string(&self, host: &Host) -> (r: String)
        requires
            host.wf(),
            host.has(self.obj_id, self.key_id.0, TYPE_CHAIN_ID),
        ensures
            r@ == base58_of(host.store()[(self.obj_id, self.key_id.0, TYPE_CHAIN_ID)]),
    {
        self.value(host).to_string()
    }

    /// Store a value at the bound slot, overwriting any prior value; a write
    /// the host would reject (past an array's length, or into an array of
    /// another kind) is fatal and excluded.
    pub fn set_value(&self, host: &mut Host, v: &ScChainId)
        requires
            old(host).wf(),
            old(host).writable(self.obj_id, self.key_id.0, TYPE_CHAIN_ID),
            v.wf(),
        ensures
            final(host).wf(),
            final(host).extends(*old(host)),
            final(host).same_objects(*old(host)),
            final(host).same_records(*old(host)),
            final(host).store() == old(host).store().insert(
                (self.obj_id, self.key_id.0, TYPE_CHAIN_ID),
                v@,
            ),
            final(host).arr_len(self.obj_id) == if old(host).is_array_obj(self.obj_id)
                && self.key_id.0 as int == old(host).arr_len(self.obj_id) {
                old(host).arr_len(self.obj_id) + 1
            } else {
                old(host).arr_len(self.obj_id)
            },
            forall|id: i32| id != self.obj_id ==> #[trigger] final(host).arr_len(id) == old(
                host,
            ).arr_len(id),
    {
        let b = v.to_bytes();
        host.set_bytes(self.obj_id, self.key_id, TYPE_CHAIN_ID, b.as_slice());
    }
}

/// Proxy for a color value bound to one (object id, key handle) slot;
/// it holds no data of its own, every read goes to the host.
#[derive(Clone, Copy)]
pub struct ScMutableColor {
    pub obj_id: i32,
    pub key_id: Key32,
}

impl ScMutableColor {
    /// Whether a value of this kind is present at the bound slot.
    pub fn present(&self, host: &Host) -> (r: bool)
        ensures
            r == host.has(self.obj_id, self.key_id.0, TYPE_COLOR),
    {
        host.value_exists(self.obj_id, self.key_id, TYPE_COLOR)
    }

    /// The stored value, decoded from its fixed-width bytes; reading an
    /// absent slot is fatal, so it is excluded.
    pub fn value(&self, host: &Host) -> (r: ScColor)
        requires
            host.wf(),
            host.has(self.obj_id, self.key_id.0, TYPE_COLOR),
        ensures
            r@ == host.store()[(self.obj_id, self.key_id.0, TYPE_COLOR)],
            r.wf(),
    {
        let b = host.get_bytes(self.obj_id, self.key_id, TYPE_COLOR);
        proof {
            assert(host.store().contains_key((self.obj_id, self.key_id.0, TYPE_COLOR)));
        }
        ScColor::from_bytes(b.as_slice())
    }

    /// Human-readable base58 rendering of the stored value.
    pub fn to_string(&self, host: &Host) -> (r: String)
        requires
            host.wf(),
            host.has(self.obj_id, self.key_id.0, TYPE_COLOR),
        ensures
            r@ == base58_of(host.store()[(self.obj_id, self.key_id.0, TYPE_COLOR)]),
    {
        self.value(host).to_string()
    }

    /// Store a value at the bound slot, overwriting any prior value; a write
    /// the host would reject (past an array's length, or into an array of
    /// another kind) is fatal and excluded.
    pub fn set_value(&self, host: &mut Host, v: &ScColor)
        requires
            old(host).wf(),
            old(host).writable(self.obj_id, self.key_id.0, TYPE_COLOR),
            v.wf(),
        ensures
            final(host).wf(),
            final(host).extends(*old(host)),
            final(host).same_objects(*old(host)),
            final(host).same_records(*old(host)),
            final(host).store() == old(host).store().insert(
                (self.obj_id, self.key_id.0, TYPE_COLOR),
                v@,
            ),
            final(host).arr_len(self.obj_id) == if old(host).is_array_obj(self.obj_id)
                && self.key_id.0 as int == old(host).arr_len(self.obj_id) {
                old(host).arr_len(self.obj_id) + 1
            } else {
                old(host).arr_len(self.obj_id)
            },
            forall|id: i32| id != self.obj_id ==> #[trigger] final(host).arr_len(id) == old(
                host,
            ).arr_len(id),
    {
        let b = v.to_bytes();
        host.set_bytes(self.obj_id, self.key_id, TYPE_COLOR, b.as_slice());
    }
}

/// Proxy for a contract id value bound to one (object id, key handle) slot;
/// it holds no data of its own, every read goes to the host.
#[derive(Clone, Copy)]
pub struct ScMutableContractId {
    pub obj_id: i32,
    pub key_id: Key32,
}

impl ScMutableContractId {
    /// Whether a value of this kind is present at the bound slot.
    pub fn present(&self, host: &Host) -> (r: bool)
        ensures
            r == host.has(self.obj_id, self.key_id.0, TYPE_CONTRACT_ID),
    {
        host.value_exists(self.obj_id, self.key_id, TYPE_CONTRACT_ID)
    }

    /// The stored value, decoded from its fixed-width bytes; reading an
    /// absent slot is fatal, so it is excluded.
    pub fn value(&self, host: &Host) -> (r: ScContractId)
        requires
            host.wf(),
            host.has(self.obj_id, self.key_id.0, TYPE_CONTRACT_ID),
        ensures
            r@ == host.store()[(self.obj_id, self.key_id.0, TYPE_CONTRACT_ID)],
            r.wf(),
    {
        let b = host.get_bytes(self.obj_id, self.key_id, TYPE_CONTRACT_ID);
        proof {
            assert(host.store().contains_key((self.obj_id, self.key_id.0, TYPE_CONTRACT_ID)));
        }
        ScContractId::from_bytes(b.as_slice())
    }

    /// Human-readable base58 rendering of the stored value.
    pub fn to_string(&self, host: &Host) -> (r: String)
        requires
            host.wf(),
            host.has(self.obj_id, self.key_id.0, TYPE_CONTRACT_ID),
        ensures
            r@ == base58_of(host.store()[(self.obj_id, self.key_id.0, TYPE_CONTRACT_ID)]),
    {
        self.value(host).to_string()
    }

    /// Store a value at the bound slot, overwriting any prior value; a write
    /// the host would reject (past an array's length, or into an array of
    /// another kind) is fatal and excluded.
    pub fn set_value(&self, host: &mut Host, v: &ScContractId)
        requires
            old(host).wf(),
            old(host).writable(self.obj_id, self.key_id.0, TYPE_CONTRACT_ID),
            v.wf(),
        ensures
            final(host).wf(),
            final(host).extends(*old(host)),
            final(host).same_objects(*old(host)),
            final(host).same_records(*old(host)),
            final(host).store() == old(host).store().insert(
                (self.obj_id, self.key_id.0, TYPE_CONTRACT_ID),
                v@,
            ),
            final(host).arr_len(self.obj_id) == if old(host).is_array_obj(self.obj_id)
                && self.key_id.0 as int == old(host).arr_len(self.obj_id) {
                old(host).arr_len(self.obj_id) + 1
            } else {
                old(host).arr_len(self.obj_id)
            },
            forall|id: i32| id != self.obj_id ==> #[trigger] final(host).arr_len(id) == old(
                host,
            ).arr_len(id),
    {
        let b = v.to_bytes();
        host.set_bytes(self.obj_id, self.key_id, TYPE_CONTRACT_ID, b.as_slice());
    }
}

/// Proxy for a hash value bound to one (object id, key handle) slot;
/// it holds no data of its own, every read goes to the host.
#[derive(Clone, Copy)]
pub struct ScMutableHash {
    pub obj_id: i32,
    pub key_id: Key32,
}

impl ScMutableHash {
    /// Whether a value of this kind is present at the bound slot.
    pub fn present(&self, host: &Host) -> (r: bool)
        ensures
            r == host.has(self.obj_id, self.key_id.0, TYPE_HASH),
    {
        host.value_exists(self.obj_id, self.key_id, TYPE_HASH)
    }

    /// The stored value, decoded from its fixed-width bytes; reading an
    /// absent slot is fatal, so it is excluded.
    pub fn value(&self, host: &Host) -> (r: ScHash)
        requires
            host.wf(),
            host.has(self.obj_id, self.key_id.0, TYPE_HASH),
        ensures
            r@ == host.store()[(self.obj_id, self.key_id.0, TYPE_HASH)],
            r.wf(),
    {
        let b = host.get_bytes(self.obj_id, self.key_id, TYPE_HASH);
        proof {
            assert(host.store().contains_key((self.obj_id, self.key_id.0, TYPE_HASH)));
        }
        ScHash::from_bytes(b.as_slice())
    }

    /// Human-readable base58 rendering of the stored value.
    pub fn to_string(&self, host: &Host) -> (r: String)
        requires
            host.wf(),
            host.has(self.obj_id, self.key_id.0, TYPE_HASH),
        ensures
            r@ == base58_of(host.store()[(self.obj_id, self.key_id.0, TYPE_HASH)]),
    {
        self.value(host).to_string()
    }

    /// Store a value at the bound slot, overwriting any prior value; a write
    /// the host would reject (past an array's length, or into an array of
    /// another kind) is fatal and excluded.
    pub fn set_value(&self, host: &mut Host, v: &ScHash)
        requires
            old(host).wf(),
            old(host).writable(self.obj_id, self.key_id.0, TYPE_HASH),
            v.wf(),
        ensures
            final(host).wf(),
            final(host).extends(*old(host)),
            final(host).same_objects(*old(host)),
            final(host).same_records(*old(host)),
            final(host).store() == old(host).store().insert(
                (self.obj_id, self.key_id.0, TYPE_HASH),
                v@,
            ),
            final(host).arr_len(self.obj_id) == if old(host).is_array_obj(self.obj_id)
                && self.key_id.0 as int == old(host).arr_len(self.obj_id) {
                old(host).arr_len(self.obj_id) + 1
            } else {
                old(host).arr_len(self.obj_id)
            },
            forall|id: i32| id != self.obj_id ==> #[trigger] final(host).arr_len(id) == old(
                host,
            ).arr_len(id),
    {
        let b = v.to_bytes();
        host.set_bytes(self.obj_id, self.key_id, TYPE_HASH, b.as_slice());
    }
}

/// Proxy for a hname value bound to one (object id, key handle) slot;
/// it holds no data of its own, every read goes to the host.
#[derive(Clone, Copy)]
pub struct ScMutableHname {
    pub obj_id: i32,
    pub key_id: Key32,
}

impl ScMutableHname {
    /// Whether a value of this kind is present at the bound slot.
    pub fn present(&self, host: &Host) -> (r: bool)
        ensures
            r == host.has(self.obj_id, self.key_id.0, TYPE_HNAME),
    {
        host.value_exists(self.obj_id, self.key_id, TYPE_HNAME)
    }

    /// The stored selector, decoded from its 4 little-endian bytes; reading
    /// an absent slot is fatal, so it is excluded.
    pub fn value(&self, host: &Host) -> (r: ScHname)
        requires
            host.wf(),
            host.has(self.obj_id, self.key_id.0, TYPE_HNAME),
        ensures
            r.0 == u32_of_le(host.store()[(self.obj_id, self.key_id.0, TYPE_HNAME)]),
    {
        let b = host.get_bytes(self.obj_id, self.key_id, TYPE_HNAME);
        proof {
            assert(host.store().contains_key((self.obj_id, self.key_id.0, TYPE_HNAME)));
        }
        ScHname::from_bytes(b.as_slice())
    }

    /// Decimal rendering of the stored selector.
    pub fn to_string(&self, host: &Host) -> (r: String)
        requires
            host.wf(),
            host.has(self.obj_id, self.key_id.0, TYPE_HNAME),
        ensures
            r@ == dec_chars(u32_of_le(host.store()[(self.obj_id, self.key_id.0, TYPE_HNAME)]) as nat),
    {
        self.value(host).to_string()
    }

    /// Store a selector at the bound slot as 4 little-endian bytes.
    pub fn set_value(&self, host: &mut Host, v: ScHname)
        requires
            old(host).wf(),
            old(host).writable(self.obj_id, self.key_id.0, TYPE_HNAME),
        ensures
            final(host).wf(),
            final(host).extends(*old(host)),
            final(host).same_objects(*old(host)),
            final(host).same_records(*old(host)),
            final(host).store() == old(host).store().insert(
                (self.obj_id, self.key_id.0, TYPE_HNAME),
                u32_le_bytes(v.0),
            ),
            final(host).arr_len(self.obj_id) == if old(host).is_array_obj(self.obj_id)
                && self.key_id.0 as int == old(host).arr_len(self.obj_id) {
                old(host).arr_len(self.obj_id) + 1
            } else {
                old(host).arr_len(self.obj_id)
            },
            forall|id: i32| id != self.obj_id ==> #[trigger] final(host).arr_len(id) == old(
                host,
            ).arr_len(id),
    {
        let b = v.to_bytes();
        host.set_bytes(self.obj_id, self.key_id, TYPE_HNAME, b.as_slice());
    }
}

/// Proxy for a int value bound to one (object id, key handle) slot;
/// it holds no data of its own, every read goes to the host.
#[derive(Clone, Copy)]
pub struct ScMutableInt {
    pub obj_id: i32,
    pub key_id: Key32,
}

impl ScMutableInt {
    /// Whether a value of this kind is present at the bound slot.
    pub fn present(&self, host: &Host) -> (r: bool)
        ensures
            r == host.has(self.obj_id, self.key_id.0, TYPE_INT),
    {
        host.value_exists(self.obj_id, self.key_id, TYPE_INT)
    }

    /// The stored integer, decoded from its 8 little-endian bytes; reading
    /// an absent slot is fatal, so it is excluded.
    pub fn value(&self, host: &Host) -> (r: i64)
        requires
            host.wf(),
            host.has(self.obj_id, self.key_id.0, TYPE_INT),
        ensures
            r == dec_int64_val(host.store()[(self.obj_id, self.key_id.0, TYPE_INT)]),
    {
        let b = host.get_bytes(self.obj_id, self.key_id, TYPE_INT);
        proof {
            assert(host.store().contains_key((self.obj_id, self.key_id.0, TYPE_INT)));
            assert(b@.subrange(0, 8) =~= b@);
        }
        let r = read_u64_le(b.as_slice(), 0) as i64;
        r
    }

    /// Decimal rendering of the stored integer.
    pub fn to_string(&self, host: &Host) -> (r: String)
        requires
            host.wf(),
            host.has(self.obj_id, self.key_id.0, TYPE_INT),
        ensures
            r@ == dec_int_chars(
                dec_int64_val(host.store()[(self.obj_id, self.key_id.0, TYPE_INT)]) as int,
            ),
    {
        i64_to_dec_string(self.value(host))
    }

    /// Store an integer at the bound slot as 8 little-endian bytes.
    pub fn set_value(&self, host: &mut Host, v: i64)
        requires
            old(host).wf(),
            old(host).writable(self.obj_id, self.key_id.0, TYPE_INT),
        ensures
            final(host).wf(),
            final(host).extends(*old(host)),
            final(host).same_objects(*old(host)),
            final(host).same_records(*old(host)),
            final(host).store() == old(host).store().insert(
                (self.obj_id, self.key_id.0, TYPE_INT),
                enc_int64(v),
            ),
            final(host).arr_len(self.obj_id) == if old(host).is_array_obj(self.obj_id)
                && self.key_id.0 as int == old(host).arr_len(self.obj_id) {
                old(host).arr_len(self.obj_id) + 1
            } else {
                old(host).arr_len(self.obj_id)
            },
            forall|id: i32| id != self.obj_id ==> #[trigger] final(host).arr_len(id) == old(
                host,
            ).arr_len(id),
    {
        let mut b: Vec<u8> = Vec::new();
        append_u64_le(&mut b, v as u64);
        proof {
            assert(b@ =~= enc_int64(v));
        }
        host.set_bytes(self.obj_id, self.key_id, TYPE_INT, b.as_slice());
    }
}

/// Proxy for a string value bound to one (object id, key handle) slot;
/// it holds no data of its own, every read goes to the host.
#[derive(Clone, Copy)]
pub struct ScMutableString {
    pub obj_id: i32,
    pub key_id: Key32,
}

impl ScMutableString {
    /// Whether a value of this kind is present at the bound slot.
    pub fn present(&self, host: &Host) -> (r: bool)
        ensures
            r == host.has(self.obj_id, self.key_id.0, TYPE_STRING),
    {
        host.value_exists(self.obj_id, self.key_id, TYPE_STRING)
    }

    /// The stored text; the empty string if the slot is absent.  The host
    /// model only holds valid UTF-8 under the string kind.
    pub fn value(&self, host: &Host) -> (r: String)
        requires
            host.wf(),
        ensures
            r@ == decode_utf8(host.read(self.obj_id, self.key_id.0, TYPE_STRING)),
    {
        let b = host.get_bytes(self.obj_id, self.key_id, TYPE_STRING);
        proof {
            if host.has(self.obj_id, self.key_id.0, TYPE_STRING) {
                assert(host.store().contains_key((self.obj_id, self.key_id.0, TYPE_STRING)));
            } else {
                assert(valid_utf8(Seq::<u8>::empty()));
            }
        }
        match bytes_to_string(b) {
            Some(s) => s,
            None => {
                proof {
                    assert(false);
                }
                "".to_owned()
            },
        }
    }

    /// Same as `value`: the stored text is its own rendering.
    pub fn to_string(&self, host: &Host) -> (r: String)
        requires
            host.wf(),
        ensures
            r@ == decode_utf8(host.read(self.obj_id, self.key_id.0, TYPE_STRING)),
    {
        self.value(host)
    }

    /// Store text at the bound slot as its UTF-8 bytes.
    pub fn set_value(&self, host: &mut Host, v: &str)
        requires
            old(host).wf(),
            old(host).writable(self.obj_id, self.key_id.0, TYPE_STRING),
        ensures
            final(host).wf(),
            final(host).extends(*old(host)),
            final(host).same_objects(*old(host)),
            final(host).same_records(*old(host)),
            final(host).store() == old(host).store().insert(
                (self.obj_id, self.key_id.0, TYPE_STRING),
                encode_utf8(v@),
            ),
            final(host).arr_len(self.obj_id) == if old(host).is_array_obj(self.obj_id)
                && self.key_id.0 as int == old(host).arr_len(self.obj_id) {
                old(host).arr_len(self.obj_id) + 1
            } else {
                old(host).arr_len(self.obj_id)
            },
            forall|id: i32| id != self.obj_id ==> #[trigger] final(host).arr_len(id) == old(
                host,
            ).arr_len(id),
    {
        proof {
            vstd::utf8::encode_utf8_valid_utf8(v@);
        }
        host.set_bytes(self.obj_id, self.key_id, TYPE_STRING, v.as_bytes());
    }
}

/// Proxy for an array of address values, bound to the array's object id.
#[derive(Clone, Copy)]
pub struct ScMutableAddressArray {
    pub obj_id: i32,
}

impl ScMutableAddressArray {
    /// The bound object is an array of this element kind.
    pub open spec fn valid(self, h: Host) -> bool {
        h.is_array_obj(self.obj_id) && h.elem_tag(self.obj_id) == TYPE_ADDRESS
    }

    /// Proxy for the element at `index`; bounds are enforced lazily, a read
    /// through the returned proxy at or past the length sees absence.
    pub fn get_address(&self, index: i32) -> (r: ScMutableAddress)
        ensures
            r == (ScMutableAddress { obj_id: self.obj_id, key_id: Key32(index) }),
    {
        ScMutableAddress { obj_id: self.obj_id, key_id: Key32(index) }
    }

    /// Number of elements written so far.
    pub fn length(&self, host: &Host) -> (r: i32)
        requires
            host.wf(),
            self.valid(*host),
        ensures
            r as int == host.arr_len(self.obj_id),
    {
        host.get_length(self.obj_id)
    }
}

/// Proxy for an array of agent id values, bound to the array's object id.
#[derive(Clone, Copy)]
pub struct ScMutableAgentIdArray {
    pub obj_id: i32,
}

impl ScMutableAgentIdArray {
    /// The bound object is an array of this element kind.
    pub open spec fn valid(self, h: Host) -> bool {
        h.is_array_obj(self.obj_id) && h.elem_tag(self.obj_id) == TYPE_AGENT_ID
    }

    /// Proxy for the element at `index`; bounds are enforced lazily, a read
    /// through the returned proxy at or past the length sees absence.
    pub fn get_agent_id(&self, index: i32) -> (r: ScMutableAgentId)
        ensures
            r == (ScMutableAgentId { obj_id: self.obj_id, key_id: Key32(index) }),
    {
        ScMutableAgentId { obj_id: self.obj_id, key_id: Key32(index) }
    }

    /// Number of elements written so far.
    pub fn length(&self, host: &Host) -> (r: i32)
        requires
            host.wf(),
            self.valid(*host),
        ensures
            r as int == host.arr_len(self.obj_id),
    {
        host.get_length(self.obj_id)
    }
}

/// Proxy for an array of bytes values, bound to the array's object id.
#[derive(Clone, Copy)]
pub struct ScMutableBytesArray {
    pub obj_id: i32,
}

impl ScMutableBytesArray {
    /// The bound object is an array of this element kind.
    pub open spec fn valid(self, h: Host) -> bool {
        h.is_array_obj(self.obj_id) && h.elem_tag(self.obj_id) == TYPE_BYTES
    }

    /// Proxy for the element at `index`; bounds are enforced lazily, a read
    /// through the returned proxy at or past the length sees absence.
    pub fn get_bytes(&self, index: i32) -> (r: ScMutableBytes)
        ensures
            r == (ScMutableBytes { obj_id: self.obj_id, key_id: Key32(index) }),
    {
        ScMutableBytes { obj_id: self.obj_id, key_id: Key32(index) }
    }

    /// Number of elements written so far.
    pub fn length(&self, host: &Host) -> (r: i32)
        requires
            host.wf(),
            self.valid(*host),
        ensures
            r as int == host.arr_len(self.obj_id),
    {
        host.get_length(self.obj_id)
    }
}

/// Proxy for an array of color values, bound to the array's object id.
#[derive(Clone, Copy)]
pub struct ScMutableColorArray {
    pub obj_id: i32,
}

impl ScMutableColorArray {
    /// The bound object is an array of this element kind.
    pub open spec fn valid(self, h: Host) -> bool {
        h.is_array_obj(self.obj_id) && h.elem_tag(self.obj_id) == TYPE_COLOR
    }

    /// Proxy for the element at `index`; bounds are enforced lazily, a read
    /// through the returned proxy at or past the length sees absence.
    pub fn get_color(&self, index: i32) -> (r: ScMutableColor)
        ensures
            r == (ScMutableColor { obj_id: self.obj_id, key_id: Key32(index) }),
    {
        ScMutableColor { obj_id: self.obj_id, key_id: Key32(index) }
    }

    /// Number of elements written so far.
    pub fn length(&self, host: &Host) -> (r: i32)
        requires
            host.wf(),
            self.valid(*host),
        ensures
            r as int == host.arr_len(self.obj_id),
    {
        host.get_length(self.obj_id)
    }
}

/// Proxy for an array of hash values, bound to the array's object id.
#[derive(Clone, Copy)]
pub struct ScMutableHashArray {
    pub obj_id: i32,
}

impl ScMutableHashArray {
    /// The bound object is an array of this element kind.
    pub open spec fn valid(self, h: Host) -> bool {
        h.is_array_obj(self.obj_id) && h.elem_tag(self.obj_id) == TYPE_HASH
    }

    /// Proxy for the element at `index`; bounds are enforced lazily, a read
    /// through the returned proxy at or past the length sees absence.
    pub fn get_hash(&self, index: i32) -> (r: ScMutableHash)
        ensures
            r == (ScMutableHash { obj_id: self.obj_id, key_id: Key32(index) }),
    {
        ScMutableHash { obj_id: self.obj_id, key_id: Key32(index) }
    }

    /// Number of elements written so far.
    pub fn length(&self, host: &Host) -> (r: i32)
        requires
            host.wf(),
            self.valid(*host),
        ensures
            r as int == host.arr_len(self.obj_id),
    {
        host.get_length(self.obj_id)
    }
}

/// Proxy for an array of int values, bound to the array's object id.
#[derive(Clone, Copy)]
pub struct ScMutableIntArray {
    pub obj_id: i32,
}

impl ScMutableIntArray {
    /// The bound object is an array of this element kind.
    pub open spec fn valid(self, h: Host) -> bool {
        h.is_array_obj(self.obj_id) && h.elem_tag(self.obj_id) == TYPE_INT
    }

    /// Proxy for the element at `index`; bounds are enforced lazily, a read
    /// through the returned proxy at or past the length sees absence.
    pub fn get_int(&self, index: i32) -> (r: ScMutableInt)
        ensures
            r == (ScMutableInt { obj_id: self.obj_id, key_id: Key32(index) }),
    {
        ScMutableInt { obj_id: self.obj_id, key_id: Key32(index) }
    }

    /// Number of elements written so far.
    pub fn length(&self, host: &Host) -> (r: i32)
        requires
            host.wf(),
            self.valid(*host),
        ensures
            r as int == host.arr_len(self.obj_id),
    {
        host.get_length(self.obj_id)
    }
}

/// Proxy for an array of string values, bound to the array's object id.
#[derive(Clone, Copy)]
pub struct ScMutableStringArray {
    pub obj_id: i32,
}

impl ScMutableStringArray {
    /// The bound object is an array of this element kind.
    pub open spec fn valid(self, h: Host) -> bool {
        h.is_array_obj(self.obj_id) && h.elem_tag(self.obj_id) == TYPE_STRING
    }

    /// Proxy for the element at `index`; bounds are enforced lazily, a read
    /// through the returned proxy at or past the length sees absence.
    pub fn get_string(&self, index: i32) -> (r: ScMutableString)
        ensures
            r == (ScMutableString { obj_id: self.obj_id, key_id: Key32(index) }),
    {
        ScMutableString { obj_id: self.obj_id, key_id: Key32(index) }
    }

    /// Number of elements written so far.
    pub fn length(&self, host: &Host) -> (r: i32)
        requires
            host.wf(),
            self.valid(*host),
        ensures
            r as int == host.arr_len(self.obj_id),
    {
        host.get_length(self.obj_id)
    }
}

/// Proxy for an array of nested maps.  In this model an array's length
/// counts written value slots, so a sub-object array reports length 0; its
/// elements are still resolved deterministically by index.
#[derive(Clone, Copy)]
pub struct ScMutableMapArray {
    pub obj_id: i32,
}

impl ScMutableMapArray {
    /// The bound object is an array of maps.
    pub open spec fn valid(self, h: Host) -> bool {
        h.is_array_obj(self.obj_id) && h.elem_tag(self.obj_id) == TYPE_MAP
    }

    /// Resolve or create the mutable map at `index` and wrap its object id.
    pub fn get_map(&self, index: i32, host: &mut Host) -> (r: ScMutableMap)
        requires
            old(host).wf(),
            old(host).headroom(1),
            self.valid(*old(host)),
        ensures
            final(host).wf(),
            final(host).extends(*old(host)),
            final(host).same_values(*old(host)),
            final(host).same_records(*old(host)),
            final(host).ikeys() == old(host).ikeys(),
            final(host).objs().len() <= old(host).objs().len() + 1,
            final(host).obj_lookup(self.obj_id, index, TYPE_MAP) == Some(r.obj_id as int),
            r.valid(*final(host)),
    {
        let id = host.get_object_id(self.obj_id, Key32(index), TYPE_MAP);
        ScMutableMap { obj_id: id }
    }

    /// Number of value elements written; sub-object arrays report 0.
    pub fn length(&self, host: &Host) -> (r: i32)
        requires
            host.wf(),
            self.valid(*host),
        ensures
            r as int == host.arr_len(self.obj_id),
    {
        host.get_length(self.obj_id)
    }
}

/// Mutable proxy for a map object: one typed accessor per value kind, plus
/// nested map and array accessors.
#[derive(Clone, Copy)]
pub struct ScMutableMap {
    pub obj_id: i32,
}

impl ScMutableMap {
    /// The bound object is a map.
    pub open spec fn valid(self, h: Host) -> bool {
        h.is_map_obj(self.obj_id)
    }

    /// Proxy for the address value at `key` in this map.
    pub fn get_address<T: MapKey + ?Sized>(&self, key: &T, host: &mut Host) -> (r: ScMutableAddress)
        requires
            old(host).wf(),
            old(host).headroom(1),
            key.key_valid(),
        ensures
            final(host).wf(),
            final(host).extends(*old(host)),
            final(host).same_values(*old(host)),
            final(host).same_records(*old(host)),
            final(host).objs() == old(host).objs(),
            final(host).ikeys().len() <= old(host).ikeys().len() + 1,
            r.obj_id == self.obj_id,
            key_resolved(key, *final(host), r.key_id),
    {
        let k = key.get_id(host);
        ScMutableAddress { obj_id: self.obj_id, key_id: k }
    }

    /// Proxy for the agent id value at `key` in this map.
    pub fn get_agent_id<T: MapKey + ?Sized>(&self, key: &T, host: &mut Host) -> (r: ScMutableAgentId)
        requires
            old(host).wf(),
            old(host).headroom(1),
            key.key_valid(),
        ensures
            final(host).wf(),
            final(host).extends(*old(host)),
            final(host).same_values(*old(host)),
            final(host).same_records(*old(host)),
            final(host).objs() == old(host).objs(),
            final(host).ikeys().len() <= old(host).ikeys().len() + 1,
            r.obj_id == self.obj_id,
            key_resolved(key, *final(host), r.key_id),
    {
        let k = key.get_id(host);
        ScMutableAgentId { obj_id: self.obj_id, key_id: k }
    }

    /// Proxy for the bytes value at `key` in this map.
    pub fn get_bytes<T: MapKey + ?Sized>(&self, key: &T, host: &mut Host) -> (r: ScMutableBytes)
        requires
            old(host).wf(),
            old(host).headroom(1),
            key.key_valid(),
        ensures
            final(host).wf(),
            final(host).extends(*old(host)),
            final(host).same_values(*old(host)),
            final(host).same_records(*old(host)),
            final(host).objs() == old(host).objs(),
            final(host).ikeys().len() <= old(host).ikeys().len() + 1,
            r.obj_id == self.obj_id,
            key_resolved(key, *final(host), r.key_id),
    {
        let k = key.get_id(host);
        ScMutableBytes { obj_id: self.obj_id, key_id: k }
    }

    /// Proxy for the chain id value at `key` in this map.
    pub fn get_chain_id<T: MapKey + ?Sized>(&self, key: &T, host: &mut Host) -> (r: ScMutableChainId)
        requires
            old(host).wf(),
            old(host).headroom(1),
            key.key_valid(),
        ensures
            final(host).wf(),
            final(host).extends(*old(host)),
            final(host).same_values(*old(host)),
            final(host).same_records(*old(host)),
            final(host).objs() == old(host).objs(),
            final(host).ikeys().len() <= old(host).ikeys().len() + 1,
            r.obj_id == self.obj_id,
            key_resolved(key, *final(host), r.key_id),
    {
        let k = key.get_id(host);
        ScMutableChainId { obj_id: self.obj_id, key_id: k }
    }

    /// Proxy for the color value at `key` in this map.
    pub fn get_color<T: MapKey + ?Sized>(&self, key: &T, host: &mut Host) -> (r: ScMutableColor)
        requires
            old(host).wf(),
            old(host).headroom(1),
            key.key_valid(),
        ensures
            final(host).wf(),
            final(host).extends(*old(host)),
            final(host).same_values(*old(host)),
            final(host).same_records(*old(host)),
            final(host).objs() == old(host).objs(),
            final(host).ikeys().len() <= old(host).ikeys().len() + 1,
            r.obj_id == self.obj_id,
            key_resolved(key, *final(host), r.key_id),
    {
        let k = key.get_id(host);
        ScMutableColor { obj_id: self.obj_id, key_id: k }
    }

    /// Proxy for the contract id value at `key` in this map.
    pub fn get_contract_id<T: MapKey + ?Sized>(&self, key: &T, host: &mut Host) -> (r: ScMutableContractId)
        requires
            old(host).wf(),
            old(host).headroom(1),
            key.key_valid(),
        ensures
            final(host).wf(),
            final(host).extends(*old(host)),
            final(host).same_values(*old(host)),
            final(host).same_records(*old(host)),
            final(host).objs() == old(host).objs(),
            final(host).ikeys().len() <= old(host).ikeys().len() + 1,
            r.obj_id == self.obj_id,
            key_resolved(key, *final(host), r.key_id),
    {
        let k = key.get_id(host);
        ScMutableContractId { obj_id: self.obj_id, key_id: k }
    }

    /// Proxy for the hash value at `key` in this map.
    pub fn get_hash<T: MapKey + ?Sized>(&self, key: &T, host: &mut Host) -> (r: ScMutableHash)
        requires
            old(host).wf(),
            old(host).headroom(1),
            key.key_valid(),
        ensures
            final(host).wf(),
            final(host).extends(*old(host)),
            final(host).same_values(*old(host)),
            final(host).same_records(*old(host)),
            final(host).objs() == old(host).objs(),
            final(host).ikeys().len() <= old(host).ikeys().len() + 1,
            r.obj_id == self.obj_id,
            key_resolved(key, *final(host), r.key_id),
    {
        let k = key.get_id(host);
        ScMutableHash { obj_id: self.obj_id, key_id: k }
    }

    /// Proxy for the hname value at `key` in this map.
    pub fn get_hname<T: MapKey + ?Sized>(&self, key: &T, host: &mut Host) -> (r: ScMutableHname)
        requires
            old(host).wf(),
            old(host).headroom(1),
            key.key_valid(),
        ensures
            final(host).wf(),
            final(host).extends(*old(host)),
            final(host).same_values(*old(host)),
            final(host).same_records(*old(host)),
            final(host).objs() == old(host).objs(),
            final(host).ikeys().len() <= old(host).ikeys().len() + 1,
            r.obj_id == self.obj_id,
            key_resolved(key, *final(host), r.key_id),
    {
        let k = key.get_id(host);
        ScMutableHname { obj_id: self.obj_id, key_id: k }
    }

    /// Proxy for the int value at `key` in this map.
    pub fn get_int<T: MapKey + ?Sized>(&self, key: &T, host: &mut Host) -> (r: ScMutableInt)
        requires
            old(host).wf(),
            old(host).headroom(1),
            key.key_valid(),
        ensures
            final(host).wf(),
            final(host).extends(*old(host)),
            final(host).same_values(*old(host)),
            final(host).same_records(*old(host)),
            final(host).objs() == old(host).objs(),
            final(host).ikeys().len() <= old(host).ikeys().len() + 1,
            r.obj_id == self.obj_id,
            key_resolved(key, *final(host), r.key_id),
    {
        let k = key.get_id(host);
        ScMutableInt { obj_id: self.obj_id, key_id: k }
    }

    /// Proxy for the string value at `key` in this map.
    pub fn get_string<T: MapKey + ?Sized>(&self, key: &T, host: &mut Host) -> (r: ScMutableString)
        requires
            old(host).wf(),
            old(host).headroom(1),
            key.key_valid(),
        ensures
            final(host).wf(),
            final(host).extends(*old(host)),
            final(host).same_values(*old(host)),
            final(host).same_records(*old(host)),
            final(host).objs() == old(host).objs(),
            final(host).ikeys().len() <= old(host).ikeys().len() + 1,
            r.obj_id == self.obj_id,
            key_resolved(key, *final(host), r.key_id),
    {
        let k = key.get_id(host);
        ScMutableString { obj_id: self.obj_id, key_id: k }
    }

    /// Resolve or create the array at `key` and wrap its object id; the
    /// same key always yields the same object within one invocation.
    pub fn get_address_array<T: MapKey + ?Sized>(&self, key: &T, host: &mut Host) -> (r: ScMutableAddressArray)
        requires
            old(host).wf(),
            old(host).headroom(2),
            key.key_valid(),
            self.valid(*old(host)),
        ensures
            final(host).wf(),
            final(host).extends(*old(host)),
            final(host).same_values(*old(host)),
            final(host).same_records(*old(host)),
            final(host).ikeys().len() <= old(host).ikeys().len() + 1,
            final(host).objs().len() <= old(host).objs().len() + 1,
            key.is_named() ==> final(host).has_ikey(encode_utf8(key.name_of()))
                && final(host).obj_lookup(
                self.obj_id,
                final(host).handle_of(encode_utf8(key.name_of())) as i32,
                ((TYPE_ADDRESS + TYPE_ARRAY) as i32),
            ) == Some(r.obj_id as int),
            !key.is_named() ==> final(host).obj_lookup(self.obj_id, key.raw_id() as i32, ((TYPE_ADDRESS + TYPE_ARRAY) as i32))
                == Some(r.obj_id as int),
            r.valid(*final(host)),
    {
        let k = key.get_id(host);
        let id = host.get_object_id(self.obj_id, k, TYPE_ADDRESS + TYPE_ARRAY);
        ScMutableAddressArray { obj_id: id }
    }

    /// Resolve or create the array at `key` and wrap its object id; the
    /// same key always yields the same object within one invocation.
    pub fn get_agent_id_array<T: MapKey + ?Sized>(&self, key: &T, host: &mut Host) -> (r: ScMutableAgentIdArray)
        requires
            old(host).wf(),
            old(host).headroom(2),
            key.key_valid(),
            self.valid(*old(host)),
        ensures
            final(host).wf(),
            final(host).extends(*old(host)),
            final(host).same_values(*old(host)),
            final(host).same_records(*old(host)),
            final(host).ikeys().len() <= old(host).ikeys().len() + 1,
            final(host).objs().len() <= old(host).objs().len() + 1,
            key.is_named() ==> final(host).has_ikey(encode_utf8(key.name_of()))
                && final(host).obj_lookup(
                self.obj_id,
                final(host).handle_of(encode_utf8(key.name_of())) as i32,
                ((TYPE_AGENT_ID + TYPE_ARRAY) as i32),
            ) == Some(r.obj_id as int),
            !key.is_named() ==> final(host).obj_lookup(self.obj_id, key.raw_id() as i32, ((TYPE_AGENT_ID + TYPE_ARRAY) as i32))
                == Some(r.obj_id as int),
            r.valid(*final(host)),
    {
        let k = key.get_id(host);
        let id = host.get_object_id(self.obj_id, k, TYPE_AGENT_ID + TYPE_ARRAY);
        ScMutableAgentIdArray { obj_id: id }
    }

    /// Resolve or create the array at `key` and wrap its object id; the
    /// same key always yields the same object within one invocation.
    pub fn get_bytes_array<T: MapKey + ?Sized>(&self, key: &T, host: &mut Host) -> (r: ScMutableBytesArray)
        requires
            old(host).wf(),
            old(host).headroom(2),
            key.key_valid(),
            self.valid(*old(host)),
        ensures
            final(host).wf(),
            final(host).extends(*old(host)),
            final(host).same_values(*old(host)),
            final(host).same_records(*old(host)),
            final(host).ikeys().len() <= old(host).ikeys().len() + 1,
            final(host).objs().len() <= old(host).objs().len() + 1,
            key.is_named() ==> final(host).has_ikey(encode_utf8(key.name_of()))
                && final(host).obj_lookup(
                self.obj_id,
                final(host).handle_of(encode_utf8(key.name_of())) as i32,
                ((TYPE_BYTES + TYPE_ARRAY) as i32),
            ) == Some(r.obj_id as int),
            !key.is_named() ==> final(host).obj_lookup(self.obj_id, key.raw_id() as i32, ((TYPE_BYTES + TYPE_ARRAY) as i32))
                == Some(r.obj_id as int),
            r.valid(*final(host)),
    {
        let k = key.get_id(host);
        let id = host.get_object_id(self.obj_id, k, TYPE_BYTES + TYPE_ARRAY);
        ScMutableBytesArray { obj_id: id }
    }

    /// Resolve or create the array at `key` and wrap its object id; the
    /// same key always yields the same object within one invocation.
    pub fn get_color_array<T: MapKey + ?Sized>(&self, key: &T, host: &mut Host) -> (r: ScMutableColorArray)
        requires
            old(host).wf(),
            old(host).headroom(2),
            key.key_valid(),
            self.valid(*old(host)),
        ensures
            final(host).wf(),
            final(host).extends(*old(host)),
            final(host).same_values(*old(host)),
            final(host).same_records(*old(host)),
            final(host).ikeys().len() <= old(host).ikeys().len() + 1,
            final(host).objs().len() <= old(host).objs().len() + 1,
            key.is_named() ==> final(host).has_ikey(encode_utf8(key.name_of()))
                && final(host).obj_lookup(
                self.obj_id,
                final(host).handle_of(encode_utf8(key.name_of())) as i32,
                ((TYPE_COLOR + TYPE_ARRAY) as i32),
            ) == Some(r.obj_id as int),
            !key.is_named() ==> final(host).obj_lookup(self.obj_id, key.raw_id() as i32, ((TYPE_COLOR + TYPE_ARRAY) as i32))
                == Some(r.obj_id as int),
            r.valid(*final(host)),
    {
        let k = key.get_id(host);
        let id = host.get_object_id(self.obj_id, k, TYPE_COLOR + TYPE_ARRAY);
        ScMutableColorArray { obj_id: id }
    }

    /// Resolve or create the array at `key` and wrap its object id; the
    /// same key always yields the same object within one invocation.
    pub fn get_hash_array<T: MapKey + ?Sized>(&self, key: &T, host: &mut Host) -> (r: ScMutableHashArray)
        requires
            old(host).wf(),
            old(host).headroom(2),
            key.key_valid(),
            self.valid(*old(host)),
        ensures
            final(host).wf(),
            final(host).extends(*old(host)),
            final(host).same_values(*old(host)),
            final(host).same_records(*old(host)),
            final(host).ikeys().len() <= old(host).ikeys().len() + 1,
            final(host).objs().len() <= old(host).objs().len() + 1,
            key.is_named() ==> final(host).has_ikey(encode_utf8(key.name_of()))
                && final(host).obj_lookup(
                self.obj_id,
                final(host).handle_of(encode_utf8(key.name_of())) as i32,
                ((TYPE_HASH + TYPE_ARRAY) as i32),
            ) == Some(r.obj_id as int),
            !key.is_named() ==> final(host).obj_lookup(self.obj_id, key.raw_id() as i32, ((TYPE_HASH + TYPE_ARRAY) as i32))
                == Some(r.obj_id as int),
            r.valid(*final(host)),
    {
        let k = key.get_id(host);
        let id = host.get_object_id(self.obj_id, k, TYPE_HASH + TYPE_ARRAY);
        ScMutableHashArray { obj_id: id }
    }

    /// Resolve or create the array at `key` and wrap its object id; the
    /// same key always yields the same object within one invocation.
    pub fn get_int_array<T: MapKey + ?Sized>(&self, key: &T, host: &mut Host) -> (r: ScMutableIntArray)
        requires
            old(host).wf(),
            old(host).headroom(2),
            key.key_valid(),
            self.valid(*old(host)),
        ensures
            final(host).wf(),
            final(host).extends(*old(host)),
            final(host).same_values(*old(host)),
            final(host).same_records(*old(host)),
            final(host).ikeys().len() <= old(host).ikeys().len() + 1,
            final(host).objs().len() <= old(host).objs().len() + 1,
            key.is_named() ==> final(host).has_ikey(encode_utf8(key.name_of()))
                && final(host).obj_lookup(
                self.obj_id,
                final(host).handle_of(encode_utf8(key.name_of())) as i32,
                ((TYPE_INT + TYPE_ARRAY) as i32),
            ) == Some(r.obj_id as int),
            !key.is_named() ==> final(host).obj_lookup(self.obj_id, key.raw_id() as i32, ((TYPE_INT + TYPE_ARRAY) as i32))
                == Some(r.obj_id as int),
            r.valid(*final(host)),
    {
        let k = key.get_id(host);
        let id = host.get_object_id(self.obj_id, k, TYPE_INT + TYPE_ARRAY);
        ScMutableIntArray { obj_id: id }
    }

    /// Resolve or create the array at `key` and wrap its object id; the
    /// same key always yields the same object within one invocation.
    pub fn get_string_array<T: MapKey + ?Sized>(&self, key: &T, host: &mut Host) -> (r: ScMutableStringArray)
        requires
            old(host).wf(),
            old(host).headroom(2),
            key.key_valid(),
            self.valid(*old(host)),
        ensures
            final(host).wf(),
            final(host).extends(*old(host)),
            final(host).same_values(*old(host)),
            final(host).same_records(*old(host)),
            final(host).ikeys().len() <= old(host).ikeys().len() + 1,
            final(host).objs().len() <= old(host).objs().len() + 1,
            key.is_named() ==> final(host).has_ikey(encode_utf8(key.name_of()))
                && final(host).obj_lookup(
                self.obj_id,
                final(host).handle_of(encode_utf8(key.name_of())) as i32,
                ((TYPE_STRING + TYPE_ARRAY) as i32),
            ) == Some(r.obj_id as int),
            !key.is_named() ==> final(host).obj_lookup(self.obj_id, key.raw_id() as i32, ((TYPE_STRING + TYPE_ARRAY) as i32))
                == Some(r.obj_id as int),
            r.valid(*final(host)),
    {
        let k = key.get_id(host);
        let id = host.get_object_id(self.obj_id, k, TYPE_STRING + TYPE_ARRAY);
        ScMutableStringArray { obj_id: id }
    }

    /// Resolve or create the array at `key` and wrap its object id; the
    /// same key always yields the same object within one invocation.
    pub fn get_map_array<T: MapKey + ?Sized>(&self, key: &T, host: &mut Host) -> (r: ScMutableMapArray)
        requires
            old(host).wf(),
            old(host).headroom(2),
            key.key_valid(),
            self.valid(*old(host)),
        ensures
            final(host).wf(),
            final(host).extends(*old(host)),
            final(host).same_values(*old(host)),
            final(host).same_records(*old(host)),
            final(host).ikeys().len() <= old(host).ikeys().len() + 1,
            final(host).objs().len() <= old(host).objs().len() + 1,
            key.is_named() ==> final(host).has_ikey(encode_utf8(key.name_of()))
                && final(host).obj_lookup(
                self.obj_id,
                final(host).handle_of(encode_utf8(key.name_of())) as i32,
                ((TYPE_MAP + TYPE_ARRAY) as i32),
            ) == Some(r.obj_id as int),
            !key.is_named() ==> final(host).obj_lookup(self.obj_id, key.raw_id() as i32, ((TYPE_MAP + TYPE_ARRAY) as i32))
                == Some(r.obj_id as int),
            r.valid(*final(host)),
    {
        let k = key.get_id(host);
        let id = host.get_object_id(self.obj_id, k, TYPE_MAP + TYPE_ARRAY);
        ScMutableMapArray { obj_id: id }
    }

    /// Resolve or create the nested map at `key` and wrap its object id; the
    /// same key always yields the same object within one invocation.
    pub fn get_map<T: MapKey + ?Sized>(&self, key: &T, host: &mut Host) -> (r: ScMutableMap)
        requires
            old(host).wf(),
            old(host).headroom(2),
            key.key_valid(),
            self.valid(*old(host)),
        ensures
            final(host).wf(),
            final(host).extends(*old(host)),
            final(host).same_values(*old(host)),
            final(host).same_records(*old(host)),
            final(host).ikeys().len() <= old(host).ikeys().len() + 1,
            final(host).objs().len() <= old(host).objs().len() + 1,
            key.is_named() ==> final(host).has_ikey(encode_utf8(key.name_of()))
                && final(host).obj_lookup(
                self.obj_id,
                final(host).handle_of(encode_utf8(key.name_of())) as i32,
                TYPE_MAP,
            ) == Some(r.obj_id as int),
            !key.is_named() ==> final(host).obj_lookup(self.obj_id, key.raw_id() as i32, TYPE_MAP)
                == Some(r.obj_id as int),
            r.valid(*final(host)),
    {
        let k = key.get_id(host);
        let id = host.get_object_id(self.obj_id, k, TYPE_MAP);
        ScMutableMap { obj_id: id }
    }

    /// A brand-new, empty map object: its id was no object before this call.
    pub fn new(host: &mut Host) -> (r: ScMutableMap)
        requires
            old(host).wf(),
            old(host).headroom(1),
        ensures
            final(host).wf(),
            final(host).extends(*old(host)),
            final(host).same_values(*old(host)),
            final(host).same_records(*old(host)),
            final(host).ikeys() == old(host).ikeys(),
            final(host).objs().len() == old(host).objs().len() + 1,
            !old(host).is_obj(r.obj_id),
            final(host).desc_of(r.obj_id).parent == 0,
            r.valid(*final(host)),
    {
        let id = host.create_object(TYPE_MAP);
        ScMutableMap { obj_id: id }
    }

    /// The same map, seen through the read-only proxy type.
    pub fn immutable(&self) -> (r: ScImmutableMap)
        ensures
            r.obj_id == self.obj_id,
    {
        ScImmutableMap { obj_id: self.obj_id }
    }

}

/// Write-then-read consistency for integers: after a store of `v` at a slot,
/// a read of that slot decodes to `v` again.
pub proof fn lemma_write_then_read_int(pre: Host, post: Host, obj: i32, key: i32, v: i64)
    requires
        post.store() == pre.store().insert((obj, key, TYPE_INT), enc_int64(v)),
    ensures
        post.has(obj, key, TYPE_INT),
        dec_int64_val(post.store()[(obj, key, TYPE_INT)]) == v,
{
    crate::codec::lemma_int64_roundtrip(v);
}

/// Write-then-read consistency for strings: after a store of text at a slot,
/// a read of that slot decodes to the same characters.
pub proof fn lemma_write_then_read_string(pre: Host, post: Host, obj: i32, key: i32, s: Seq<char>)
    requires
        post.store() == pre.store().insert((obj, key, TYPE_STRING), encode_utf8(s)),
    ensures
        post.has(obj, key, TYPE_STRING),
        decode_utf8(post.store()[(obj, key, TYPE_STRING)]) == s,
{
    vstd::utf8::encode_utf8_decode_utf8(s);
}

/// Write-then-read consistency for name selectors.
pub proof fn lemma_write_then_read_hname(pre: Host, post: Host, obj: i32, key: i32, v: u32)
    requires
        post.store() == pre.store().insert((obj, key, TYPE_HNAME), u32_le_bytes(v)),
    ensures
        post.has(obj, key, TYPE_HNAME),
        u32_of_le(post.store()[(obj, key, TYPE_HNAME)]) == v,
{
    crate::codec::lemma_u32_le_value_roundtrip(v);
}

/// Write-then-read consistency for the fixed-width identifier kinds and raw
/// bytes: the read returns exactly the stored bytes.
pub proof fn lemma_write_then_read_bytes(pre: Host, post: Host, obj: i32, key: i32, tag: i32, v: Seq<
    u8,
>)
    requires
        post.store() == pre.store().insert((obj, key, tag), v),
    ensures
        post.has(obj, key, tag),
        post.store()[(obj, key, tag)] == v,
{
}

} // verus!
