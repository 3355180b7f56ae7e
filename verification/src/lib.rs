//! A typed host-object marshaling layer for sandboxed smart-contract modules.
//!
//! A module exchanges structured values (integers, strings, identifiers,
//! nested maps, arrays, byte buffers) with a host runtime through a small,
//! untyped boundary: get/set bytes by (object id, key handle, type tag),
//! resolve-or-create sub-objects, array lengths, and key interning.  This
//! crate provides the verified core of that layer: the host object-graph
//! model, key interning, the binary codec for composite records, typed
//! read-only and mutable proxy objects, and the call-scoped execution
//! contexts.

#![allow(unused_imports)]

use vstd::prelude::*;

verus! {

/// Copy a byte vector into a fixed 37-byte array (the width of an agent
/// identity), truncating longer input and zero-padding shorter input.
pub fn vector_as_u8_array(vector: Vec<u8>) -> (r: [u8; 37])
    ensures
        forall|i: int| 0 <= i < 37 ==> r@[i] == if i < vector@.len() {
            vector@[i]
        } else {
            0u8
        },
{
    let mut arr = [0u8; 37];
    let n = if vector.len() < 37 {
        vector.len()
    } else {
        37
    };
    let mut i: usize = 0;
    while i < n
        invariant
            i <= n,
            n <= 37,
            n <= vector@.len(),
            arr@.len() == 37,
            forall|j: int| 0 <= j < i ==> arr@[j] == vector@[j],
            forall|j: int| i <= j < 37 ==> arr@[j] == 0u8,
        decreases n - i,
    {
        arr[i] = vector[i];
        i = i + 1;
    }
    arr
}

} // verus!

pub mod codec;
pub mod context;
pub mod game;
pub mod hashtypes;
pub mod host;
pub mod immutable;
pub mod keys;
pub mod mutable;
pub mod strutil;
pub mod testcore;
pub mod types;
pub mod utility;
