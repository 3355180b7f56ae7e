//! The fixed-width identifier kinds a module exchanges with the host, and
//! the 32-bit name selector.

use vstd::prelude::*;

use crate::codec::read_u32_le;
use crate::codec::append_u32_le;
use crate::codec::u32_le_bytes;
use crate::codec::u32_of_le;
use crate::strutil::dec_chars;
use crate::strutil::u64_to_dec_string;
use crate::utility::base58_of;
use crate::utility::base58_string;
use crate::utility::blake2b_of;
use crate::utility::blake2b_digest;

verus! {

use vstd::utf8::encode_utf8;
use vstd::string::StringSliceAdditionalSpecFns;
use vstd::std_specs::cmp::PartialEqSpec;

/// Fixed-width value kind: a ledger address, 33 raw bytes.
#[derive(Clone, Debug)]
pub struct ScAddress {
    pub(crate) bytes: Vec<u8>,
}

impl View for ScAddress {
    type V = Seq<u8>;

    closed spec fn view(&self) -> Seq<u8> {
        self.bytes@
    }
}

impl ScAddress {
    pub open spec fn wf(self) -> bool {
        self@.len() == 33
    }

    /// Decode from exactly 33 raw bytes; fewer or more is a fatal protocol
    /// violation, so such input is excluded.
    pub fn from_bytes(b: &[u8]) -> (r: ScAddress)
        requires
            b@.len() == 33,
        ensures
            r@ == b@,
            r.wf(),
    {
        ScAddress { bytes: vstd::slice::slice_to_vec(b) }
    }

    /// The fixed-width raw byte encoding.
    pub fn to_bytes(&self) -> (r: Vec<u8>)
        ensures
            r@ == self@,
    {
        vstd::slice::slice_to_vec(self.bytes.as_slice())
    }

    /// Human-readable base58 rendering.
    pub fn to_string(&self) -> (r: String)
        ensures
            r@ == base58_of(self@),
    {
        base58_string(self.bytes.as_slice())
    }
}

impl PartialEq for ScAddress {
    fn eq(&self, other: &ScAddress) -> (r: bool) {
        let r = self.bytes == other.bytes;
        proof {
            if r {
                assert(self.bytes@ =~= other.bytes@);
            } else {
                if self.bytes@ == other.bytes@ {
                    assert(self.bytes.eq_spec(&other.bytes));
                }
            }
        }
        r
    }
}

impl Eq for ScAddress {

}

impl vstd::std_specs::cmp::PartialEqSpecImpl for ScAddress {
    open spec fn obeys_eq_spec() -> bool {
        true
    }

    open spec fn eq_spec(&self, other: &ScAddress) -> bool {
        self@ == other@
    }
}

/// Fixed-width value kind: an agent identity (address plus contract selector), 37 raw bytes.
#[derive(Clone, Debug)]
pub struct ScAgentId {
    pub(crate) bytes: Vec<u8>,
}

impl View for ScAgentId {
    type V = Seq<u8>;

    closed spec fn view(&self) -> Seq<u8> {
        self.bytes@
    }
}

impl ScAgentId {
    pub open spec fn wf(self) -> bool {
        self@.len() == 37
    }

    /// Decode from exactly 37 raw bytes; fewer or more is a fatal protocol
    /// violation, so such input is excluded.
    pub fn from_bytes(b: &[u8]) -> (r: ScAgentId)
        requires
            b@.len() == 37,
        ensures
            r@ == b@,
            r.wf(),
    {
        ScAgentId { bytes: vstd::slice::slice_to_vec(b) }
    }

    /// The fixed-width raw byte encoding.
    pub fn to_bytes(&self) -> (r: Vec<u8>)
        ensures
            r@ == self@,
    {
        vstd::slice::slice_to_vec(self.bytes.as_slice())
    }

    /// Human-readable base58 rendering.
    pub fn to_string(&self) -> (r: String)
        ensures
            r@ == base58_of(self@),
    {
        base58_string(self.bytes.as_slice())
    }
}

impl PartialEq for ScAgentId {
    fn eq(&self, other: &ScAgentId) -> (r: bool) {
        let r = self.bytes == other.bytes;
        proof {
            if r {
                assert(self.bytes@ =~= other.bytes@);
            } else {
                if self.bytes@ == other.bytes@ {
                    assert(self.bytes.eq_spec(&other.bytes));
                }
            }
        }
        r
    }
}

impl Eq for ScAgentId {

}

impl vstd::std_specs::cmp::PartialEqSpecImpl for ScAgentId {
    open spec fn obeys_eq_spec() -> bool {
        true
    }

    open spec fn eq_spec(&self, other: &ScAgentId) -> bool {
        self@ == other@
    }
}

/// Fixed-width value kind: a chain identity, 33 raw bytes.
#[derive(Clone, Debug)]
pub struct ScChainId {
    pub(crate) bytes: Vec<u8>,
}

impl View for ScChainId {
    type V = Seq<u8>;

    closed spec fn view(&self) -> Seq<u8> {
        self.bytes@
    }
}

impl ScChainId {
    pub open spec fn wf(self) -> bool {
        self@.len() == 33
    }

    /// Decode from exactly 33 raw bytes; fewer or more is a fatal protocol
    /// violation, so such input is excluded.
    pub fn from_bytes(b: &[u8]) -> (r: ScChainId)
        requires
            b@.len() == 33,
        ensures
            r@ == b@,
            r.wf(),
    {
        ScChainId { bytes: vstd::slice::slice_to_vec(b) }
    }

    /// The fixed-width raw byte encoding.
    pub fn to_bytes(&self) -> (r: Vec<u8>)
        ensures
            r@ == self@,
    {
        vstd::slice::slice_to_vec(self.bytes.as_slice())
    }

    /// Human-readable base58 rendering.
    pub fn to_string(&self) -> (r: String)
        ensures
            r@ == base58_of(self@),
    {
        base58_string(self.bytes.as_slice())
    }
}

impl PartialEq for ScChainId {
    fn eq(&self, other: &ScChainId) -> (r: bool) {
        let r = self.bytes == other.bytes;
        proof {
            if r {
                assert(self.bytes@ =~= other.bytes@);
            } else {
                if self.bytes@ == other.bytes@ {
                    assert(self.bytes.eq_spec(&other.bytes));
                }
            }
        }
        r
    }
}

impl Eq for ScChainId {

}

impl vstd::std_specs::cmp::PartialEqSpecImpl for ScChainId {
    open spec fn obeys_eq_spec() -> bool {
        true
    }

    open spec fn eq_spec(&self, other: &ScChainId) -> bool {
        self@ == other@
    }
}

/// Fixed-width value kind: a token color, 32 raw bytes.
#[derive(Clone, Debug)]
pub struct ScColor {
    pub(crate) bytes: Vec<u8>,
}

impl View for ScColor {
    type V = Seq<u8>;

    closed spec fn view(&self) -> Seq<u8> {
        self.bytes@
    }
}

impl ScColor {
    pub open spec fn wf(self) -> bool {
        self@.len() == 32
    }

    /// Decode from exactly 32 raw bytes; fewer or more is a fatal protocol
    /// violation, so such input is excluded.
    pub fn from_bytes(b: &[u8]) -> (r: ScColor)
        requires
            b@.len() == 32,
        ensures
            r@ == b@,
            r.wf(),
    {
        ScColor { bytes: vstd::slice::slice_to_vec(b) }
    }

    /// The fixed-width raw byte encoding.
    pub fn to_bytes(&self) -> (r: Vec<u8>)
        ensures
            r@ == self@,
    {
        vstd::slice::slice_to_vec(self.bytes.as_slice())
    }

    /// Human-readable base58 rendering.
    pub fn to_string(&self) -> (r: String)
        ensures
            r@ == base58_of(self@),
    {
        base58_string(self.bytes.as_slice())
    }
}

impl PartialEq for ScColor {
    fn eq(&self, other: &ScColor) -> (r: bool) {
        let r = self.bytes == other.bytes;
        proof {
            if r {
                assert(self.bytes@ =~= other.bytes@);
            } else {
                if self.bytes@ == other.bytes@ {
                    assert(self.bytes.eq_spec(&other.bytes));
                }
            }
        }
        r
    }
}

impl Eq for ScColor {

}

impl vstd::std_specs::cmp::PartialEqSpecImpl for ScColor {
    open spec fn obeys_eq_spec() -> bool {
        true
    }

    open spec fn eq_spec(&self, other: &ScColor) -> bool {
        self@ == other@
    }
}

/// Fixed-width value kind: a contract identity (chain id plus contract selector), 37 raw bytes.
#[derive(Clone, Debug)]
pub struct ScContractId {
    pub(crate) bytes: Vec<u8>,
}

impl View for ScContractId {
    type V = Seq<u8>;

    closed spec fn view(&self) -> Seq<u8> {
        self.bytes@
    }
}

impl ScContractId {
    pub open spec fn wf(self) -> bool {
        self@.len() == 37
    }

    /// Decode from exactly 37 raw bytes; fewer or more is a fatal protocol
    /// violation, so such input is excluded.
    pub fn from_bytes(b: &[u8]) -> (r: ScContractId)
        requires
            b@.len() == 37,
        ensures
            r@ == b@,
            r.wf(),
    {
        ScContractId { bytes: vstd::slice::slice_to_vec(b) }
    }

    /// The fixed-width raw byte encoding.
    pub fn to_bytes(&self) -> (r: Vec<u8>)
        ensures
            r@ == self@,
    {
        vstd::slice::slice_to_vec(self.bytes.as_slice())
    }

    /// Human-readable base58 rendering.
    pub fn to_string(&self) -> (r: String)
        ensures
            r@ == base58_of(self@),
    {
        base58_string(self.bytes.as_slice())
    }
}

impl PartialEq for ScContractId {
    fn eq(&self, other: &ScContractId) -> (r: bool) {
        let r = self.bytes == other.bytes;
        proof {
            if r {
                assert(self.bytes@ =~= other.bytes@);
            } else {
                if self.bytes@ == other.bytes@ {
                    assert(self.bytes.eq_spec(&other.bytes));
                }
            }
        }
        r
    }
}

impl Eq for ScContractId {

}

impl vstd::std_specs::cmp::PartialEqSpecImpl for ScContractId {
    open spec fn obeys_eq_spec() -> bool {
        true
    }

    open spec fn eq_spec(&self, other: &ScContractId) -> bool {
        self@ == other@
    }
}

/// Fixed-width value kind: a 32-byte hash, 32 raw bytes.
#[derive(Clone, Debug)]
pub struct ScHash {
    pub(crate) bytes: Vec<u8>,
}

impl View for ScHash {
    type V = Seq<u8>;

    closed spec fn view(&self) -> Seq<u8> {
        self.bytes@
    }
}

impl ScHash {
    pub open spec fn wf(self) -> bool {
        self@.len() == 32
    }

    /// Decode from exactly 32 raw bytes; fewer or more is a fatal protocol
    /// violation, so such input is excluded.
    pub fn from_bytes(b: &[u8]) -> (r: ScHash)
        requires
            b@.len() == 32,
        ensures
            r@ == b@,
            r.wf(),
    {
        ScHash { bytes: vstd::slice::slice_to_vec(b) }
    }

    /// The fixed-width raw byte encoding.
    pub fn to_bytes(&self) -> (r: Vec<u8>)
        ensures
            r@ == self@,
    {
        vstd::slice::slice_to_vec(self.bytes.as_slice())
    }

    /// Human-readable base58 rendering.
    pub fn to_string(&self) -> (r: String)
        ensures
            r@ == base58_of(self@),
    {
        base58_string(self.bytes.as_slice())
    }
}

impl PartialEq for ScHash {
    fn eq(&self, other: &ScHash) -> (r: bool) {
        let r = self.bytes == other.bytes;
        proof {
            if r {
                assert(self.bytes@ =~= other.bytes@);
            } else {
                if self.bytes@ == other.bytes@ {
                    assert(self.bytes.eq_spec(&other.bytes));
                }
            }
        }
        r
    }
}

impl Eq for ScHash {

}

impl vstd::std_specs::cmp::PartialEqSpecImpl for ScHash {
    open spec fn obeys_eq_spec() -> bool {
        true
    }

    open spec fn eq_spec(&self, other: &ScHash) -> bool {
        self@ == other@
    }
}

impl ScAgentId {
    /// The address part: the first 33 bytes.
    pub fn address(&self) -> (r: ScAddress)
        requires
            self.wf(),
        ensures
            r@ == self@.subrange(0, 33),
            r.wf(),
    {
        ScAddress::from_bytes(vstd::slice::slice_subrange(self.bytes.as_slice(), 0, 33))
    }
}

impl ScContractId {
    /// Compose a contract identity out of its chain and its name selector.
    pub fn new(chain_id: &ScChainId, hname: &ScHname) -> (r: ScContractId)
        requires
            chain_id.wf(),
        ensures
            r@ == chain_id@ + u32_le_bytes(hname.0),
            r.wf(),
    {
        let mut bytes = chain_id.to_bytes();
        append_u32_le(&mut bytes, hname.0);
        ScContractId { bytes }
    }

    /// The chain part: the first 33 bytes.
    pub fn chain_id(&self) -> (r: ScChainId)
        requires
            self.wf(),
        ensures
            r@ == self@.subrange(0, 33),
            r.wf(),
    {
        ScChainId::from_bytes(vstd::slice::slice_subrange(self.bytes.as_slice(), 0, 33))
    }

    /// The contract's name selector: the last 4 bytes, little endian.
    pub fn hname(&self) -> (r: ScHname)
        requires
            self.wf(),
        ensures
            r.0 == u32_of_le(self@.subrange(33, 37)),
    {
        ScHname(read_u32_le(self.bytes.as_slice(), 33))
    }

    /// The same 37 bytes seen as an agent identity.
    pub fn as_agent_id(&self) -> (r: ScAgentId)
        requires
            self.wf(),
        ensures
            r@ == self@,
            r.wf(),
    {
        ScAgentId::from_bytes(self.bytes.as_slice())
    }
}

impl ScColor {
    /// The color of plain iota tokens: 32 zero bytes.
    pub fn iota() -> (r: ScColor)
        ensures
            r@ == Seq::new(32, |i: int| 0u8),
            r.wf(),
    {
        let bytes = vec![0u8; 32];
        proof {
            assert(bytes@ =~= Seq::new(32, |i: int| 0u8));
        }
        ScColor { bytes }
    }

    /// The color reserved for freshly minted tokens: 32 `0xff` bytes.
    pub fn mint() -> (r: ScColor)
        ensures
            r@ == Seq::new(32, |i: int| 0xffu8),
            r.wf(),
    {
        let bytes = vec![0xffu8; 32];
        proof {
            assert(bytes@ =~= Seq::new(32, |i: int| 0xffu8));
        }
        ScColor { bytes }
    }
}

/// The 32-bit selector a contract or function name hashes to: the first four
/// bytes of the name's BLAKE2b digest, little endian.
pub open spec fn hname_of(s: Seq<char>) -> u32 {
    u32_of_le(blake2b_of(encode_utf8(s)).subrange(0, 4))
}

/// A 32-bit name selector; the only addressing mechanism across the call
/// boundary.
#[derive(Clone, Copy, Debug, PartialEq, Eq, Structural)]
pub struct ScHname(pub u32);

impl ScHname {
    /// Compute the selector of a name.
    pub fn new(name: &str) -> (r: ScHname)
        ensures
            r.0 == hname_of(name@),
    {
        let digest = blake2b_digest(name.as_bytes());
        ScHname(read_u32_le(digest.as_slice(), 0))
    }

    /// The 4-byte little-endian encoding.
    pub fn to_bytes(&self) -> (r: Vec<u8>)
        ensures
            r@ == u32_le_bytes(self.0),
    {
        let mut bytes: Vec<u8> = Vec::new();
        append_u32_le(&mut bytes, self.0);
        proof {
            assert(bytes@ =~= u32_le_bytes(self.0));
        }
        bytes
    }

    /// Decode from exactly 4 bytes.
    pub fn from_bytes(b: &[u8]) -> (r: ScHname)
        requires
            b@.len() == 4,
        ensures
            r.0 == u32_of_le(b@),
    {
        let r = ScHname(read_u32_le(b, 0));
        proof {
            assert(b@.subrange(0, 4) =~= b@);
        }
        r
    }

    /// Decimal rendering of the selector.
    pub fn to_string(&self) -> (r: String)
        ensures
            r@ == dec_chars(self.0 as nat),
    {
        u64_to_dec_string(self.0 as u64)
    }
}

} // verus!
