//! Principals: the parties and assets an escrow speaks of.
//!
//! A principal is identified by its native encoding, an arbitrary byte
//! string. The engine never inspects the encoding; it only compares
//! principals and, for identifier derivation, normalizes them to a
//! fixed 32-byte key by hashing (see `id`).

use vstd::prelude::*;
use crate::encode::{bytes_eq, copy_bytes};

verus! {

/// A party or asset, identified by its native byte encoding.
#[derive(Debug)]
pub struct Principal {
    bytes: Vec<u8>,
}

impl View for Principal {
    type V = Seq<u8>;

    closed spec fn view(&self) -> Seq<u8> {
        self.bytes@
    }
}

impl Principal {
    /// Wraps a native encoding.
    pub fn new(bytes: Vec<u8>) -> (r: Principal)
        ensures
            r@ == bytes@,
    {
        Principal { bytes }
    }

    /// The native encoding.
    pub fn as_bytes(&self) -> (r: &Vec<u8>)
        ensures
            r@ == self@,
    {
        &self.bytes
    }

    /// A fresh principal with the same encoding.
    pub fn duplicate(&self) -> (r: Principal)
        ensures
            r@ == self@,
    {
        Principal { bytes: copy_bytes(&self.bytes) }
    }
}

impl PartialEq for Principal {
    fn eq(&self, other: &Principal) -> (r: bool) {
        bytes_eq(&self.bytes, &other.bytes)
    }
}

impl vstd::std_specs::cmp::PartialEqSpecImpl for Principal {
    open spec fn obeys_eq_spec() -> bool {
        true
    }

    open spec fn eq_spec(&self, other: &Principal) -> bool {
        self@ == other@
    }
}

} // verus!
