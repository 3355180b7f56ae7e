//! The binary codec: deterministic, positional encoding of composite records
//! into flat byte sequences.
//!
//! Primitives: 64-bit integers as 8 little-endian bytes; strings as UTF-8
//! bytes behind a 4-byte little-endian length prefix; identifiers as their
//! fixed-width raw bytes.  Decoding consumes fields in exactly the order they
//! were encoded and fails (rather than inventing a value) on a buffer too
//! short for the field being read.

use vstd::prelude::*;

use crate::hashtypes::ScAddress;
use crate::hashtypes::ScAgentId;
use crate::hashtypes::ScChainId;
use crate::hashtypes::ScColor;
use crate::hashtypes::ScContractId;
use crate::hashtypes::ScHash;
use crate::hashtypes::ScHname;

verus! {

use vstd::utf8::encode_utf8;
use vstd::utf8::decode_utf8;
use vstd::utf8::valid_utf8;
use vstd::string::StrSliceExecFns;
use vstd::string::StringSliceAdditionalSpecFns;

/// Why a decode failed: the buffer ended inside a field, or a string field
/// held ill-formed UTF-8.
#[derive(Clone, Copy, Debug, PartialEq, Eq, Structural)]
pub enum CodecError {
    Truncated,
    InvalidUtf8,
}

pub open spec fn u32_le_bytes(v: u32) -> Seq<u8> {
    seq![
        (v & 0xff) as u8,
        ((v >> 8) & 0xff) as u8,
        ((v >> 16) & 0xff) as u8,
        ((v >> 24) & 0xff) as u8,
    ]
}

pub open spec fn u32_of_le(s: Seq<u8>) -> u32
    recommends
        s.len() == 4,
{
    (s[0] as u32) | (s[1] as u32) << 8 | (s[2] as u32) << 16 | (s[3] as u32) << 24
}

pub open spec fn u64_le_bytes(v: u64) -> Seq<u8> {
    seq![
        (v & 0xff) as u8,
        ((v >> 8) & 0xff) as u8,
        ((v >> 16) & 0xff) as u8,
        ((v >> 24) & 0xff) as u8,
        ((v >> 32) & 0xff) as u8,
        ((v >> 40) & 0xff) as u8,
        ((v >> 48) & 0xff) as u8,
        ((v >> 56) & 0xff) as u8,
    ]
}

pub open spec fn u64_of_le(s: Seq<u8>) -> u64
    recommends
        s.len() == 8,
{
    (s[0] as u64) | (s[1] as u64) << 8 | (s[2] as u64) << 16 | (s[3] as u64) << 24 | (
    s[4] as u64) << 32 | (s[5] as u64) << 40 | (s[6] as u64) << 48 | (s[7] as u64) << 56
}

pub broadcast proof fn lemma_u32_le_value_roundtrip(v: u32)
    ensures
        #[trigger] u32_of_le(u32_le_bytes(v)) == v,
{
    assert({
        &&& v & 0xff < 256
        &&& (v >> 8) & 0xff < 256
        &&& (v >> 16) & 0xff < 256
        &&& (v >> 24) & 0xff < 256
    }) by (bit_vector);
    assert(v == ((v & 0xff) | ((v >> 8) & 0xff) << 8 | ((v >> 16) & 0xff) << 16 | ((v >> 24)
        & 0xff) << 24)) by (bit_vector);
}

pub broadcast proof fn lemma_u64_le_value_roundtrip(v: u64)
    ensures
        #[trigger] u64_of_le(u64_le_bytes(v)) == v,
{
    assert({
        &&& v & 0xff < 256
        &&& (v >> 8) & 0xff < 256
        &&& (v >> 16) & 0xff < 256
        &&& (v >> 24) & 0xff < 256
        &&& (v >> 32) & 0xff < 256
        &&& (v >> 40) & 0xff < 256
        &&& (v >> 48) & 0xff < 256
        &&& (v >> 56) & 0xff < 256
    }) by (bit_vector);
    assert(v == ((v & 0xff) | ((v >> 8) & 0xff) << 8 | ((v >> 16) & 0xff) << 16 | ((v >> 24)
        & 0xff) << 24 | ((v >> 32) & 0xff) << 32 | ((v >> 40) & 0xff) << 40 | ((v >> 48) & 0xff)
        << 48 | ((v >> 56) & 0xff) << 56)) by (bit_vector);
}

/// A 64-bit integer encodes as 8 little-endian bytes.
pub open spec fn enc_int64(v: i64) -> Seq<u8> {
    u64_le_bytes(v as u64)
}

pub open spec fn dec_int64_val(b: Seq<u8>) -> i64
    recommends
        b.len() == 8,
{
    u64_of_le(b) as i64
}

pub broadcast proof fn lemma_int64_roundtrip(v: i64)
    ensures
        #[trigger] dec_int64_val(enc_int64(v)) == v,
{
    lemma_u64_le_value_roundtrip(v as u64);
    assert(((v as u64) as i64) == v) by (bit_vector);
}

/// A string encodes as its UTF-8 bytes behind a 4-byte length prefix.
pub open spec fn enc_string(s: Seq<char>) -> Seq<u8>
    recommends
        encode_utf8(s).len() <= u32::MAX,
{
    u32_le_bytes(encode_utf8(s).len() as u32) + encode_utf8(s)
}

/// Exec mirror of `u32_le_bytes`, appending to a buffer.
pub fn append_u32_le(data: &mut Vec<u8>, v: u32)
    ensures
        final(data)@ == old(data)@ + u32_le_bytes(v),
{
    data.push((v & 0xff) as u8);
    data.push(((v >> 8) & 0xff) as u8);
    data.push(((v >> 16) & 0xff) as u8);
    data.push(((v >> 24) & 0xff) as u8);
    proof {
        assert(data@ =~= old(data)@ + u32_le_bytes(v));
    }
}

/// Exec mirror of `u64_le_bytes`, appending to a buffer.
pub fn append_u64_le(data: &mut Vec<u8>, v: u64)
    ensures
        final(data)@ == old(data)@ + u64_le_bytes(v),
{
    data.push((v & 0xff) as u8);
    data.push(((v >> 8) & 0xff) as u8);
    data.push(((v >> 16) & 0xff) as u8);
    data.push(((v >> 24) & 0xff) as u8);
    data.push(((v >> 32) & 0xff) as u8);
    data.push(((v >> 40) & 0xff) as u8);
    data.push(((v >> 48) & 0xff) as u8);
    data.push(((v >> 56) & 0xff) as u8);
    proof {
        assert(data@ =~= old(data)@ + u64_le_bytes(v));
    }
}

/// Read 4 little-endian bytes as a `u32`.
pub fn read_u32_le(b: &[u8], at: usize) -> (r: u32)
    requires
        at + 4 <= b@.len(),
    ensures
        r == u32_of_le(b@.subrange(at as int, at + 4)),
{
    let r = (b[at] as u32) | (b[at + 1] as u32) << 8 | (b[at + 2] as u32) << 16 | (b[at
        + 3] as u32) << 24;
    proof {
        let s = b@.subrange(at as int, at + 4);
        assert(s[0] == b@[at as int] && s[1] == b@[at + 1] && s[2] == b@[at + 2] && s[3] == b@[at
            + 3]);
    }
    r
}

/// A raw byte field encodes as the bytes behind a 4-byte length prefix.
pub open spec fn enc_blob(b: Seq<u8>) -> Seq<u8>
    recommends
        b.len() <= u32::MAX,
{
    u32_le_bytes(b.len() as u32) + b
}

/// Decode a 64-bit integer from the front of a buffer: the value and what
/// remains, or nothing if fewer than 8 bytes remain.
pub open spec fn dec_int64(b: Seq<u8>) -> Option<(i64, Seq<u8>)> {
    if b.len() < 8 {
        None
    } else {
        Some((dec_int64_val(b.take(8)), b.skip(8)))
    }
}

/// Decode a fixed-width field of `w` bytes from the front of a buffer.
pub open spec fn dec_fixed(b: Seq<u8>, w: int) -> Option<(Seq<u8>, Seq<u8>)> {
    if b.len() < w {
        None
    } else {
        Some((b.take(w), b.skip(w)))
    }
}

/// Decode a length-prefixed string from the front of a buffer; fails if the
/// buffer ends inside the prefix or the payload, or if the payload is not
/// valid UTF-8.
pub open spec fn dec_string(b: Seq<u8>) -> Option<(Seq<char>, Seq<u8>)> {
    if b.len() < 4 {
        None
    } else {
        let n = u32_of_le(b.take(4)) as int;
        if b.len() < 4 + n {
            None
        } else if !valid_utf8(b.subrange(4, 4 + n)) {
            None
        } else {
            Some((decode_utf8(b.subrange(4, 4 + n)), b.skip(4 + n)))
        }
    }
}

/// Which error a failing string decode reports: the buffer ending inside
/// the prefix or the payload is truncation; a complete but ill-formed
/// payload is an encoding error.
pub open spec fn dec_string_err(b: Seq<u8>) -> CodecError {
    if b.len() < 4 || b.len() < 4 + u32_of_le(b.take(4)) as int {
        CodecError::Truncated
    } else {
        CodecError::InvalidUtf8
    }
}

/// Decode a length-prefixed byte field from the front of a buffer.
pub open spec fn dec_blob(b: Seq<u8>) -> Option<(Seq<u8>, Seq<u8>)> {
    if b.len() < 4 {
        None
    } else {
        let n = u32_of_le(b.take(4)) as int;
        if b.len() < 4 + n {
            None
        } else {
            Some((b.subrange(4, 4 + n), b.skip(4 + n)))
        }
    }
}

/// Fixed-width rejection: a buffer shorter than the field being read fails
/// to decode; no partially populated value comes back.
pub proof fn lemma_truncated_decode_fails(b: Seq<u8>, w: int)
    requires
        b.len() < w,
    ensures
        dec_fixed(b, w) is None,
        b.len() < 8 ==> dec_int64(b) is None,
        b.len() < 4 ==> dec_string(b) is None && dec_blob(b) is None,
{
}

/// Decoding an integer consumes exactly what encoding produced.
pub proof fn lemma_dec_int64_enc(v: i64, rest: Seq<u8>)
    ensures
        dec_int64(enc_int64(v) + rest) == Some((v, rest)),
{
    let b = enc_int64(v) + rest;
    assert(b.take(8) =~= enc_int64(v));
    assert(b.skip(8) =~= rest);
    lemma_int64_roundtrip(v);
}

/// Decoding a fixed-width field consumes exactly what encoding produced.
pub proof fn lemma_dec_fixed_enc(v: Seq<u8>, w: int, rest: Seq<u8>)
    requires
        v.len() == w,
    ensures
        dec_fixed(v + rest, w) == Some((v, rest)),
{
    let b = v + rest;
    assert(b.take(w) =~= v);
    assert(b.skip(w) =~= rest);
}

/// Decoding a string consumes exactly what encoding produced and restores
/// the same characters.
pub proof fn lemma_dec_string_enc(s: Seq<char>, rest: Seq<u8>)
    requires
        encode_utf8(s).len() <= u32::MAX,
    ensures
        dec_string(enc_string(s) + rest) == Some((s, rest)),
{
    let e = encode_utf8(s);
    let n32 = e.len() as u32;
    let b = enc_string(s) + rest;
    assert(b.take(4) =~= u32_le_bytes(n32));
    lemma_u32_le_value_roundtrip(n32);
    assert(u32_of_le(b.take(4)) == n32);
    assert(b.len() == 4 + e.len() + rest.len());
    assert(b.subrange(4, 4 + e.len() as int) =~= e);
    assert(b.skip(4 + e.len() as int) =~= rest);
    vstd::utf8::encode_utf8_valid_utf8(s);
    vstd::utf8::encode_utf8_decode_utf8(s);
}

/// Decoding a byte field consumes exactly what encoding produced.
pub proof fn lemma_dec_blob_enc(v: Seq<u8>, rest: Seq<u8>)
    requires
        v.len() <= u32::MAX,
    ensures
        dec_blob(enc_blob(v) + rest) == Some((v, rest)),
{
    let n32 = v.len() as u32;
    let b = enc_blob(v) + rest;
    assert(b.take(4) =~= u32_le_bytes(n32));
    lemma_u32_le_value_roundtrip(n32);
    assert(b.subrange(4, 4 + v.len() as int) =~= v);
    assert(b.skip(4 + v.len() as int) =~= rest);
}

/// Read 8 little-endian bytes as a `u64`.
pub fn read_u64_le(b: &[u8], at: usize) -> (r: u64)
    requires
        at + 8 <= b@.len(),
    ensures
        r == u64_of_le(b@.subrange(at as int, at + 8)),
{
    let r = (b[at] as u64) | (b[at + 1] as u64) << 8 | (b[at + 2] as u64) << 16 | (b[at
        + 3] as u64) << 24 | (b[at + 4] as u64) << 32 | (b[at + 5] as u64) << 40 | (b[at
        + 6] as u64) << 48 | (b[at + 7] as u64) << 56;
    proof {
        let s = b@.subrange(at as int, at + 8);
        assert(s[0] == b@[at as int] && s[1] == b@[at + 1] && s[2] == b@[at + 2] && s[3] == b@[at
            + 3] && s[4] == b@[at + 4] && s[5] == b@[at + 5] && s[6] == b@[at + 6] && s[7] == b@[at
            + 7]);
    }
    r
}

/// Append a byte slice to a buffer.
#[verifier::loop_isolation(false)]
fn append_bytes(data: &mut Vec<u8>, b: &[u8])
    ensures
        final(data)@ == old(data)@ + b@,
{
    let n = b.len();
    let mut i: usize = 0;
    while i < n
        invariant
            i <= n,
            n == b@.len(),
            data@ == old(data)@ + b@.take(i as int),
        decreases n - i,
    {
        data.push(b[i]);
        proof {
            assert(data@ =~= old(data)@ + b@.take(i + 1));
        }
        i = i + 1;
    }
    proof {
        assert(data@ =~= old(data)@ + b@);
    }
}

/// Builds the byte sequence of a composite record, field by field, in
/// encounter order.
pub struct BytesEncoder {
    data: Vec<u8>,
}

impl View for BytesEncoder {
    type V = Seq<u8>;

    closed spec fn view(&self) -> Seq<u8> {
        self.data@
    }
}

impl BytesEncoder {
    pub fn new() -> (r: BytesEncoder)
        ensures
            r@ == Seq::<u8>::empty(),
    {
        let r = BytesEncoder { data: Vec::new() };
        proof {
            assert(r@ =~= Seq::<u8>::empty());
        }
        r
    }

    /// Append a 64-bit integer field.
    pub fn int64(&mut self, v: i64)
        ensures
            final(self)@ == old(self)@ + enc_int64(v),
    {
        append_u64_le(&mut self.data, v as u64);
    }

    /// Append a string field (length prefix, then UTF-8 bytes).
    pub fn string(&mut self, s: &str)
        requires
            s.spec_bytes().len() <= u32::MAX,
        ensures
            final(self)@ == old(self)@ + enc_string(s@),
    {
        let b = s.as_bytes();
        append_u32_le(&mut self.data, b.len() as u32);
        append_bytes(&mut self.data, b);
        proof {
            assert(self.data@ =~= old(self)@ + enc_string(s@));
        }
    }

    /// Append a raw byte field (length prefix, then the bytes).
    pub fn bytes(&mut self, b: &[u8])
        requires
            b@.len() <= u32::MAX,
        ensures
            final(self)@ == old(self)@ + enc_blob(b@),
    {
        append_u32_le(&mut self.data, b.len() as u32);
        append_bytes(&mut self.data, b);
        proof {
            assert(self.data@ =~= old(self)@ + enc_blob(b@));
        }
    }

    /// Append an address field.
    pub fn address(&mut self, v: &ScAddress)
        requires
            v.wf(),
        ensures
            final(self)@ == old(self)@ + v@,
    {
        let b = v.to_bytes();
        append_bytes(&mut self.data, b.as_slice());
    }

    /// Append an agent-identity field.
    pub fn agent_id(&mut self, v: &ScAgentId)
        requires
            v.wf(),
        ensures
            final(self)@ == old(self)@ + v@,
    {
        let b = v.to_bytes();
        append_bytes(&mut self.data, b.as_slice());
    }

    /// Append a chain-identity field.
    pub fn chain_id(&mut self, v: &ScChainId)
        requires
            v.wf(),
        ensures
            final(self)@ == old(self)@ + v@,
    {
        let b = v.to_bytes();
        append_bytes(&mut self.data, b.as_slice());
    }

    /// Append a color field.
    pub fn color(&mut self, v: &ScColor)
        requires
            v.wf(),
        ensures
            final(self)@ == old(self)@ + v@,
    {
        let b = v.to_bytes();
        append_bytes(&mut self.data, b.as_slice());
    }

    /// Append a contract-identity field.
    pub fn contract_id(&mut self, v: &ScContractId)
        requires
            v.wf(),
        ensures
            final(self)@ == old(self)@ + v@,
    {
        let b = v.to_bytes();
        append_bytes(&mut self.data, b.as_slice());
    }

    /// Append a hash field.
    pub fn hash(&mut self, v: &ScHash)
        requires
            v.wf(),
        ensures
            final(self)@ == old(self)@ + v@,
    {
        let b = v.to_bytes();
        append_bytes(&mut self.data, b.as_slice());
    }

    /// Append a name-selector field (4 little-endian bytes).
    pub fn hname(&mut self, v: &ScHname)
        ensures
            final(self)@ == old(self)@ + u32_le_bytes(v.0),
    {
        append_u32_le(&mut self.data, v.0);
    }

    /// The encoded record.
    pub fn data(self) -> (r: Vec<u8>)
        ensures
            r@ == self@,
    {
        self.data
    }
}

/// Consumes the byte sequence of a composite record, field by field, in the
/// exact order it was encoded.
pub struct BytesDecoder<'a> {
    buf: &'a [u8],
    pos: usize,
}

impl<'a> BytesDecoder<'a> {
    /// What is left to consume.
    pub closed spec fn remaining(self) -> Seq<u8> {
        self.buf@.skip(self.pos as int)
    }

    pub closed spec fn wf(self) -> bool {
        self.pos <= self.buf@.len()
    }

    pub fn new(bytes: &'a [u8]) -> (r: BytesDecoder<'a>)
        ensures
            r.wf(),
            r.remaining() == bytes@,
    {
        let r = BytesDecoder { buf: bytes, pos: 0 };
        proof {
            assert(r.remaining() =~= bytes@);
        }
        r
    }

    /// Consume a 64-bit integer field; fails on a buffer shorter than 8
    /// bytes, leaving the decoder unchanged.
    pub fn int64(&mut self) -> (r: Result<i64, CodecError>)
        requires
            old(self).wf(),
        ensures
            final(self).wf(),
            match r {
                Ok(v) => dec_int64(old(self).remaining()) == Some((v, final(self).remaining())),
                Err(e) => dec_int64(old(self).remaining()) is None && e == CodecError::Truncated
                    && *final(self) == *old(self),
            },
    {
        if self.buf.len() - self.pos < 8 {
            return Err(CodecError::Truncated);
        }
        let v = read_u64_le(self.buf, self.pos) as i64;
        let ghost pre = *self;
        self.pos = self.pos + 8;
        proof {
            assert(pre.remaining().take(8) =~= pre.buf@.subrange(pre.pos as int, pre.pos + 8));
            assert(self.remaining() =~= pre.remaining().skip(8));
            let x: u64 = u64_of_le(pre.remaining().take(8));
            assert(((x as i64) as u64) == x) by (bit_vector);
        }
        Ok(v)
    }

    /// Consume a fixed-width field of `n` bytes; fails on a shorter buffer,
    /// leaving the decoder unchanged.
    fn take_fixed(&mut self, n: usize) -> (r: Option<&'a [u8]>)
        requires
            old(self).wf(),
        ensures
            final(self).wf(),
            match r {
                Some(s) => dec_fixed(old(self).remaining(), n as int) == Some((
                    s@,
                    final(self).remaining(),
                )) && s@.len() == n,
                None => dec_fixed(old(self).remaining(), n as int) is None && *final(self)
                    == *old(self),
            },
    {
        if self.buf.len() - self.pos < n {
            return None;
        }
        let s = vstd::slice::slice_subrange(self.buf, self.pos, self.pos + n);
        let ghost pre = *self;
        self.pos = self.pos + n;
        proof {
            assert(pre.remaining().take(n as int) =~= pre.buf@.subrange(
                pre.pos as int,
                pre.pos + n,
            ));
            assert(self.remaining() =~= pre.remaining().skip(n as int));
        }
        Some(s)
    }

    /// Consume a string field; fails on a buffer that ends inside the prefix
    /// or the payload, or on ill-formed UTF-8, leaving the decoder unchanged.
    pub fn string(&mut self) -> (r: Result<String, CodecError>)
        requires
            old(self).wf(),
        ensures
            final(self).wf(),
            match r {
                Ok(s) => dec_string(old(self).remaining()) == Some((
                    s@,
                    final(self).remaining(),
                )),
                Err(e) => dec_string(old(self).remaining()) is None && e == dec_string_err(
                    old(self).remaining(),
                ) && *final(self) == *old(self),
            },
    {
        let ghost pre = *self;
        if self.buf.len() - self.pos < 4 {
            return Err(CodecError::Truncated);
        }
        let n32 = read_u32_le(self.buf, self.pos);
        proof {
            assert(pre.remaining().take(4) =~= pre.buf@.subrange(pre.pos as int, pre.pos + 4));
        }
        let n = n32 as usize;
        if self.buf.len() - (self.pos + 4) < n {
            return Err(CodecError::Truncated);
        }
        let payload = vstd::slice::slice_subrange(self.buf, self.pos + 4, self.pos + 4 + n);
        proof {
            assert(payload@ =~= pre.remaining().subrange(4, 4 + n as int));
        }
        match crate::strutil::bytes_to_string(vstd::slice::slice_to_vec(payload)) {
            Some(s) => {
                self.pos = self.pos + 4 + n;
                proof {
                    assert(self.remaining() =~= pre.remaining().skip(4 + n as int));
                }
                Ok(s)
            },
            None => Err(CodecError::InvalidUtf8),
        }
    }

    /// Consume a raw byte field; fails on a buffer that ends inside the
    /// prefix or the payload, leaving the decoder unchanged.
    pub fn bytes(&mut self) -> (r: Result<Vec<u8>, CodecError>)
        requires
            old(self).wf(),
        ensures
            final(self).wf(),
            match r {
                Ok(v) => dec_blob(old(self).remaining()) == Some((v@, final(self).remaining())),
                Err(e) => dec_blob(old(self).remaining()) is None && e == CodecError::Truncated
                    && *final(self) == *old(self),
            },
    {
        let ghost pre = *self;
        if self.buf.len() - self.pos < 4 {
            return Err(CodecError::Truncated);
        }
        let n32 = read_u32_le(self.buf, self.pos);
        proof {
            assert(pre.remaining().take(4) =~= pre.buf@.subrange(pre.pos as int, pre.pos + 4));
        }
        let n = n32 as usize;
        if self.buf.len() - (self.pos + 4) < n {
            return Err(CodecError::Truncated);
        }
        let payload = vstd::slice::slice_subrange(self.buf, self.pos + 4, self.pos + 4 + n);
        proof {
            assert(payload@ =~= pre.remaining().subrange(4, 4 + n as int));
        }
        self.pos = self.pos + 4 + n;
        proof {
            assert(self.remaining() =~= pre.remaining().skip(4 + n as int));
        }
        Ok(vstd::slice::slice_to_vec(payload))
    }

    /// Consume an address field.
    pub fn address(&mut self) -> (r: Result<ScAddress, CodecError>)
        requires
            old(self).wf(),
        ensures
            final(self).wf(),
            match r {
                Ok(v) => dec_fixed(old(self).remaining(), 33) == Some((
                    v@,
                    final(self).remaining(),
                )) && v.wf(),
                Err(e) => dec_fixed(old(self).remaining(), 33) is None && e
                    == CodecError::Truncated && *final(self) == *old(self),
            },
    {
        match self.take_fixed(33) {
            Some(s) => Ok(ScAddress::from_bytes(s)),
            None => Err(CodecError::Truncated),
        }
    }

    /// Consume an agent-identity field.
    pub fn agent_id(&mut self) -> (r: Result<ScAgentId, CodecError>)
        requires
            old(self).wf(),
        ensures
            final(self).wf(),
            match r {
                Ok(v) => dec_fixed(old(self).remaining(), 37) == Some((
                    v@,
                    final(self).remaining(),
                )) && v.wf(),
                Err(e) => dec_fixed(old(self).remaining(), 37) is None && e
                    == CodecError::Truncated && *final(self) == *old(self),
            },
    {
        match self.take_fixed(37) {
            Some(s) => Ok(ScAgentId::from_bytes(s)),
            None => Err(CodecError::Truncated),
        }
    }

    /// Consume a chain-identity field.
    pub fn chain_id(&mut self) -> (r: Result<ScChainId, CodecError>)
        requires
            old(self).wf(),
        ensures
            final(self).wf(),
            match r {
                Ok(v) => dec_fixed(old(self).remaining(), 33) == Some((
                    v@,
                    final(self).remaining(),
                )) && v.wf(),
                Err(e) => dec_fixed(old(self).remaining(), 33) is None && e
                    == CodecError::Truncated && *final(self) == *old(self),
            },
    {
        match self.take_fixed(33) {
            Some(s) => Ok(ScChainId::from_bytes(s)),
            None => Err(CodecError::Truncated),
        }
    }

    /// Consume a color field.
    pub fn color(&mut self) -> (r: Result<ScColor, CodecError>)
        requires
            old(self).wf(),
        ensures
            final(self).wf(),
            match r {
                Ok(v) => dec_fixed(old(self).remaining(), 32) == Some((
                    v@,
                    final(self).remaining(),
                )) && v.wf(),
                Err(e) => dec_fixed(old(self).remaining(), 32) is None && e
                    == CodecError::Truncated && *final(self) == *old(self),
            },
    {
        match self.take_fixed(32) {
            Some(s) => Ok(ScColor::from_bytes(s)),
            None => Err(CodecError::Truncated),
        }
    }

    /// Consume a contract-identity field.
    pub fn contract_id(&mut self) -> (r: Result<ScContractId, CodecError>)
        requires
            old(self).wf(),
        ensures
            final(self).wf(),
            match r {
                Ok(v) => dec_fixed(old(self).remaining(), 37) == Some((
                    v@,
                    final(self).remaining(),
                )) && v.wf(),
                Err(e) => dec_fixed(old(self).remaining(), 37) is None && e
                    == CodecError::Truncated && *final(self) == *old(self),
            },
    {
        match self.take_fixed(37) {
            Some(s) => Ok(ScContractId::from_bytes(s)),
            None => Err(CodecError::Truncated),
        }
    }

    /// Consume a hash field.
    pub fn hash(&mut self) -> (r: Result<ScHash, CodecError>)
        requires
            old(self).wf(),
        ensures
            final(self).wf(),
            match r {
                Ok(v) => dec_fixed(old(self).remaining(), 32) == Some((
                    v@,
                    final(self).remaining(),
                )) && v.wf(),
                Err(e) => dec_fixed(old(self).remaining(), 32) is None && e
                    == CodecError::Truncated && *final(self) == *old(self),
            },
    {
        match self.take_fixed(32) {
            Some(s) => Ok(ScHash::from_bytes(s)),
            None => Err(CodecError::Truncated),
        }
    }

    /// Consume a name-selector field (4 little-endian bytes).
    pub fn hname(&mut self) -> (r: Result<ScHname, CodecError>)
        requires
            old(self).wf(),
        ensures
            final(self).wf(),
            match r {
                Ok(v) => dec_fixed(old(self).remaining(), 4) == Some((
                    u32_le_bytes(v.0),
                    final(self).remaining(),
                )),
                Err(e) => dec_fixed(old(self).remaining(), 4) is None && e
                    == CodecError::Truncated && *final(self) == *old(self),
            },
    {
        match self.take_fixed(4) {
            Some(s) => {
                let v = ScHname::from_bytes(s);
                proof {
                    lemma_u32_bytes_roundtrip(s@);
                }
                Ok(v)
            },
            None => Err(CodecError::Truncated),
        }
    }
}

/// Rebuilding a `u32` from 4 bytes and re-encoding it gives the same bytes.
pub proof fn lemma_u32_bytes_roundtrip(s: Seq<u8>)
    requires
        s.len() == 4,
    ensures
        u32_le_bytes(u32_of_le(s)) =~= s,
{
    let b0 = s[0];
    let b1 = s[1];
    let b2 = s[2];
    let b3 = s[3];
    let x = u32_of_le(s);
    assert(((x == (b0 as u32) | (b1 as u32) << 8 | (b2 as u32) << 16 | (b3 as u32) << 24)) ==> (b0
        == (x & 0xff) as u8 && b1 == ((x >> 8) & 0xff) as u8 && b2 == ((x >> 16) & 0xff) as u8
        && b3 == ((x >> 24) & 0xff) as u8)) by (bit_vector);
}

} // verus!
