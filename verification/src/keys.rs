//! Key handles: protocol-reserved negative handles and host-interned
//! non-negative handles for arbitrary field names.

use vstd::prelude::*;

use crate::host::Host;

verus! {

use vstd::utf8::encode_utf8;
use vstd::string::StringSliceAdditionalSpecFns;

/// A numeric key handle, as the host addresses map slots.
#[derive(Clone, Copy, Debug, PartialEq, Eq, Structural)]
pub struct Key32(pub i32);

/// What handle a key resolves to: for a named key, its interned handle in the
/// host state after resolution; for a numeric key, the number itself.
pub open spec fn key_resolved<T: MapKey + ?Sized>(key: &T, post: Host, r: Key32) -> bool {
    if key.is_named() {
        &&& post.has_ikey(encode_utf8(key.name_of()))
        &&& r.0 as int == post.handle_of(encode_utf8(key.name_of()))
        &&& r.0 >= 0
    } else {
        r.0 as int == key.raw_id()
    }
}

/// Anything that can name a map slot: an interned string key or a raw
/// numeric handle.
pub trait MapKey {
    /// Whether this key is a name that resolves through interning.
    spec fn is_named(&self) -> bool;

    /// The name, for a named key.
    spec fn name_of(&self) -> Seq<char>;

    /// The numeric handle, for a numeric key.
    spec fn raw_id(&self) -> int;

    /// Names must be non-empty; numeric handles are unconstrained.
    spec fn key_valid(&self) -> bool;

    /// Resolve the key to its numeric handle, interning a name through the
    /// host on first use; resolving the same name again yields the same
    /// handle.
    fn get_id(&self, host: &mut Host) -> (r: Key32)
        requires
            old(host).wf(),
            old(host).headroom(1),
            self.key_valid(),
        ensures
            final(host).wf(),
            final(host).extends(*old(host)),
            final(host).same_values(*old(host)),
            final(host).same_records(*old(host)),
            final(host).objs() == old(host).objs(),
            final(host).ikeys().len() <= old(host).ikeys().len() + 1,
            self.is_named() ==> final(host).has_ikey(encode_utf8(self.name_of())) && r.0 as int
                == final(host).handle_of(encode_utf8(self.name_of())) && r.0 >= 0,
            !self.is_named() ==> *final(host) == *old(host) && r.0 as int == self.raw_id(),
    ;
}

impl MapKey for str {
    open spec fn is_named(&self) -> bool {
        true
    }

    open spec fn name_of(&self) -> Seq<char> {
        self@
    }

    open spec fn raw_id(&self) -> int {
        0
    }

    open spec fn key_valid(&self) -> bool {
        self@.len() > 0
    }

    fn get_id(&self, host: &mut Host) -> (r: Key32) {
        host.intern_key(self)
    }
}

impl MapKey for String {
    open spec fn is_named(&self) -> bool {
        true
    }

    open spec fn name_of(&self) -> Seq<char> {
        self@
    }

    open spec fn raw_id(&self) -> int {
        0
    }

    open spec fn key_valid(&self) -> bool {
        self@.len() > 0
    }

    fn get_id(&self, host: &mut Host) -> (r: Key32) {
        host.intern_key(self.as_str())
    }
}

impl MapKey for Key32 {
    open spec fn is_named(&self) -> bool {
        false
    }

    open spec fn name_of(&self) -> Seq<char> {
        Seq::empty()
    }

    open spec fn raw_id(&self) -> int {
        self.0 as int
    }

    open spec fn key_valid(&self) -> bool {
        true
    }

    fn get_id(&self, _host: &mut Host) -> (r: Key32) {
        *self
    }
}

pub const KEY_ADDRESS: i32 = (-1);

pub const KEY_AGGREGATE_BLS: i32 = (-2);

pub const KEY_BALANCES: i32 = (-3);

pub const KEY_BASE58_BYTES: i32 = (-4);

pub const KEY_BASE58_STRING: i32 = (-5);

pub const KEY_CALL: i32 = (-6);

pub const KEY_CALLER: i32 = (-7);

pub const KEY_CHAIN_OWNER_ID: i32 = (-8);

pub const KEY_COLOR: i32 = (-9);

pub const KEY_CONTRACT_CREATOR: i32 = (-10);

pub const KEY_CONTRACT_ID: i32 = (-11);

pub const KEY_DEPLOY: i32 = (-12);

pub const KEY_EVENT: i32 = (-13);

pub const KEY_EXPORTS: i32 = (-14);

pub const KEY_HASH_BLAKE2B: i32 = (-15);

pub const KEY_HASH_SHA3: i32 = (-16);

pub const KEY_HNAME: i32 = (-17);

pub const KEY_INCOMING: i32 = (-18);

pub const KEY_LENGTH: i32 = (-19);

pub const KEY_LOG: i32 = (-20);

pub const KEY_MAPS: i32 = (-21);

pub const KEY_NAME: i32 = (-22);

pub const KEY_PANIC: i32 = (-23);

pub const KEY_PARAMS: i32 = (-24);

pub const KEY_POST: i32 = (-25);

pub const KEY_RANDOM: i32 = (-26);

pub const KEY_RESULTS: i32 = (-27);

pub const KEY_RETURN: i32 = (-28);

pub const KEY_STATE: i32 = (-29);

pub const KEY_TIMESTAMP: i32 = (-30);

pub const KEY_TRACE: i32 = (-31);

pub const KEY_TRANSFERS: i32 = (-32);

pub const KEY_UTILITY: i32 = (-33);

pub const KEY_VALID: i32 = (-34);

pub const KEY_VALID_BLS: i32 = (-35);

pub const KEY_VALID_ED25519: i32 = (-36);

pub const KEY_ZZZZZZZ: i32 = (-37);

} // verus!
