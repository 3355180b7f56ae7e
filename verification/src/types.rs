//! Composite application records, stored as single byte-buffer values through
//! the binary codec.

use vstd::prelude::*;

use crate::codec::BytesDecoder;
use crate::codec::BytesEncoder;
use crate::codec::CodecError;
use crate::codec::dec_fixed;
use crate::codec::dec_int64;
use crate::codec::dec_string;
use crate::codec::enc_int64;
use crate::codec::enc_string;
use crate::codec::lemma_dec_fixed_enc;
use crate::codec::lemma_dec_int64_enc;
use crate::codec::lemma_dec_string_enc;
use crate::hashtypes::ScAddress;
use crate::hashtypes::ScAgentId;

verus! {

use vstd::utf8::encode_utf8;
use vstd::string::StringSliceAdditionalSpecFns;

/// The fields of a token registry entry, as mathematical values: creation
/// time, description, minter, owner, supply, update time, user-defined text.
pub type TokenData = (i64, Seq<char>, Seq<u8>, Seq<u8>, i64, i64, Seq<char>);

/// A registered token: the record the token registry keeps per color.
pub struct Token {
    pub created: i64,
    pub description: String,
    pub minted_by: ScAgentId,
    pub owner: ScAgentId,
    pub supply: i64,
    pub updated: i64,
    pub user_defined: String,
}

impl View for Token {
    type V = TokenData;

    open spec fn view(&self) -> TokenData {
        (
            self.created,
            self.description@,
            self.minted_by@,
            self.owner@,
            self.supply,
            self.updated,
            self.user_defined@,
        )
    }
}

pub open spec fn token_wf(t: TokenData) -> bool {
    &&& t.2.len() == 37
    &&& t.3.len() == 37
    &&& encode_utf8(t.1).len() <= u32::MAX
    &&& encode_utf8(t.6).len() <= u32::MAX
}

/// The byte encoding of a token record: fields concatenated in encounter
/// order, with no padding and no tags.
pub open spec fn token_enc(t: TokenData) -> Seq<u8> {
    enc_int64(t.0) + enc_string(t.1) + t.2 + t.3 + enc_int64(t.4) + enc_int64(t.5) + enc_string(
        t.6,
    )
}

/// Field-by-field decoding of a token record, in exactly the encoded order;
/// fails if the buffer ends inside any field.
pub open spec fn token_dec(b: Seq<u8>) -> Option<TokenData> {
    match dec_int64(b) {
        None => None,
        Some((created, b1)) => match dec_string(b1) {
            None => None,
            Some((description, b2)) => match dec_fixed(b2, 37) {
                None => None,
                Some((minted_by, b3)) => match dec_fixed(b3, 37) {
                    None => None,
                    Some((owner, b4)) => match dec_int64(b4) {
                        None => None,
                        Some((supply, b5)) => match dec_int64(b5) {
                            None => None,
                            Some((updated, b6)) => match dec_string(b6) {
                                None => None,
                                Some((user_defined, _b7)) => Some(
                                    (
                                        created,
                                        description,
                                        minted_by,
                                        owner,
                                        supply,
                                        updated,
                                        user_defined,
                                    ),
                                ),
                            },
                        },
                    },
                },
            },
        },
    }
}

/// Round trip: decoding an encoded token record restores every field, for
/// the full 64-bit integer range and arbitrary strings, the empty string
/// included.
pub proof fn lemma_token_round_trip(t: TokenData)
    requires
        token_wf(t),
    ensures
        token_dec(token_enc(t)) == Some(t),
{
    let r6 = enc_string(t.6);
    let r5 = enc_int64(t.5) + r6;
    let r4 = enc_int64(t.4) + r5;
    let r3 = t.3 + r4;
    let r2 = t.2 + r3;
    let r1 = enc_string(t.1) + r2;
    assert(token_enc(t) =~= enc_int64(t.0) + r1);
    lemma_dec_int64_enc(t.0, r1);
    lemma_dec_string_enc(t.1, r2);
    lemma_dec_fixed_enc(t.2, 37, r3);
    lemma_dec_fixed_enc(t.3, 37, r4);
    lemma_dec_int64_enc(t.4, r5);
    lemma_dec_int64_enc(t.5, r6);
    assert(r6 =~= enc_string(t.6) + Seq::<u8>::empty());
    lemma_dec_string_enc(t.6, Seq::<u8>::empty());
}

impl Token {
    pub open spec fn wf(self) -> bool {
        token_wf(self@)
    }

    /// Decode a token record from its byte encoding; fails rather than
    /// returning a partially populated record.
    pub fn from_bytes(bytes: &[u8]) -> (r: Result<Token, CodecError>)
        ensures
            match r {
                Ok(t) => token_dec(bytes@) == Some(t@) && t.wf(),
                Err(_) => token_dec(bytes@) is None,
            },
    {
        let mut decode = BytesDecoder::new(bytes);
        let created = match decode.int64() {
            Ok(v) => v,
            Err(e) => {
                return Err(e);
            },
        };
        let ghost b1 = decode.remaining();
        let description = match decode.string() {
            Ok(v) => v,
            Err(e) => {
                return Err(e);
            },
        };
        proof {
            lemma_dec_string_bounds(b1);
        }
        let minted_by = match decode.agent_id() {
            Ok(v) => v,
            Err(e) => {
                return Err(e);
            },
        };
        let owner = match decode.agent_id() {
            Ok(v) => v,
            Err(e) => {
                return Err(e);
            },
        };
        let supply = match decode.int64() {
            Ok(v) => v,
            Err(e) => {
                return Err(e);
            },
        };
        let updated = match decode.int64() {
            Ok(v) => v,
            Err(e) => {
                return Err(e);
            },
        };
        let ghost b6 = decode.remaining();
        let user_defined = match decode.string() {
            Ok(v) => v,
            Err(e) => {
                return Err(e);
            },
        };
        proof {
            lemma_dec_string_bounds(b6);
        }
        Ok(
            Token {
                created,
                description,
                minted_by,
                owner,
                supply,
                updated,
                user_defined,
            },
        )
    }

    /// Encode the record: fields concatenated in encounter order.
    pub fn to_bytes(&self) -> (r: Vec<u8>)
        requires
            self.wf(),
        ensures
            r@ == token_enc(self@),
    {
        let mut encode = BytesEncoder::new();
        encode.int64(self.created);
        encode.string(self.description.as_str());
        encode.agent_id(&self.minted_by);
        encode.agent_id(&self.owner);
        encode.int64(self.supply);
        encode.int64(self.updated);
        encode.string(self.user_defined.as_str());
        let r = encode.data();
        proof {
            assert(r@ =~= token_enc(self@));
        }
        r
    }
}

/// A string taken out of a buffer by decoding re-encodes to at most the
/// buffer's length, so it fits the length prefix again.
proof fn lemma_dec_string_bounds(b: Seq<u8>)
    ensures
        dec_string(b) matches Some(p) ==> encode_utf8(p.0).len() <= u32::MAX,
{
    if dec_string(b) is Some {
        let n = crate::codec::u32_of_le(b.take(4)) as int;
        vstd::utf8::decode_utf8_encode_utf8(b.subrange(4, 4 + n));
    }
}

/// A dividend recipient: an address and its relative division factor.
pub struct Member {
    pub address: ScAddress,
    pub factor: i64,
}

impl View for Member {
    type V = (Seq<u8>, i64);

    open spec fn view(&self) -> (Seq<u8>, i64) {
        (self.address@, self.factor)
    }
}

pub open spec fn member_wf(m: (Seq<u8>, i64)) -> bool {
    m.0.len() == 33
}

/// The byte encoding of a member record.
pub open spec fn member_enc(m: (Seq<u8>, i64)) -> Seq<u8> {
    m.0 + enc_int64(m.1)
}

/// Field-by-field decoding of a member record.
pub open spec fn member_dec(b: Seq<u8>) -> Option<(Seq<u8>, i64)> {
    match dec_fixed(b, 33) {
        None => None,
        Some((address, b1)) => match dec_int64(b1) {
            None => None,
            Some((factor, _b2)) => Some((address, factor)),
        },
    }
}

/// Round trip: decoding an encoded member record restores both fields.
pub proof fn lemma_member_round_trip(m: (Seq<u8>, i64))
    requires
        member_wf(m),
    ensures
        member_dec(member_enc(m)) == Some(m),
{
    let r1 = enc_int64(m.1);
    lemma_dec_fixed_enc(m.0, 33, r1);
    assert(r1 =~= enc_int64(m.1) + Seq::<u8>::empty());
    lemma_dec_int64_enc(m.1, Seq::<u8>::empty());
}

impl Member {
    pub open spec fn wf(self) -> bool {
        member_wf(self@)
    }

    /// Decode a member record from its byte encoding.
    pub fn from_bytes(bytes: &[u8]) -> (r: Result<Member, CodecError>)
        ensures
            match r {
                Ok(m) => member_dec(bytes@) == Some(m@) && m.wf(),
                Err(_) => member_dec(bytes@) is None,
            },
    {
        let mut decode = BytesDecoder::new(bytes);
        let address = match decode.address() {
            Ok(v) => v,
            Err(e) => {
                return Err(e);
            },
        };
        let factor = match decode.int64() {
            Ok(v) => v,
            Err(e) => {
                return Err(e);
            },
        };
        Ok(Member { address, factor })
    }

    /// Encode the record: address, then factor.
    pub fn to_bytes(&self) -> (r: Vec<u8>)
        requires
            self.wf(),
        ensures
            r@ == member_enc(self@),
    {
        let mut encode = BytesEncoder::new();
        encode.address(&self.address);
        encode.int64(self.factor);
        let r = encode.data();
        proof {
            assert(r@ =~= member_enc(self@));
        }
        r
    }
}

} // verus!
