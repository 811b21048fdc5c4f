//! Ledger addresses, identified by their strkey text.

use vstd::prelude::*;
use crate::table::TableKey;
use crate::text::{
    bytes_equal, bytes_less, bytes_precede, copy_bytes, lemma_bytes_less_irreflexive,
    lemma_bytes_less_total, lemma_bytes_less_transitive,
};

verus! {

/// An account or contract address, held as the bytes of its strkey
/// (for example `GA...` or `CA...`). Two addresses are the same address
/// exactly when their strkeys are equal.
#[derive(Clone, Debug, PartialEq, Eq)]
pub struct Address {
    strkey: Vec<u8>,
}

impl View for Address {
    type V = Seq<u8>;

    closed spec fn view(&self) -> Seq<u8> {
        self.strkey@
    }
}

impl Address {
    /// The address whose strkey is `strkey`.
    pub fn from_strkey(strkey: Vec<u8>) -> (a: Address)
        ensures
            a@ == strkey@,
    {
        Address { strkey }
    }

    /// The strkey bytes of this address.
    pub fn strkey(&self) -> (b: Vec<u8>)
        ensures
            b@ == self@,
    {
        copy_bytes(&self.strkey)
    }

    /// Whether both denote the same address.
    pub fn equals(&self, other: &Address) -> (r: bool)
        ensures
            r == (self@ == other@),
    {
        bytes_equal(&self.strkey, &other.strkey)
    }

    /// A copy of this address.
    pub fn duplicate(&self) -> (a: Address)
        ensures
            a@ == self@,
    {
        Address { strkey: copy_bytes(&self.strkey) }
    }
}

impl TableKey for Address {
    open spec fn key_less(a: Seq<u8>, b: Seq<u8>) -> bool {
        bytes_less(a, b)
    }

    proof fn lemma_key_order(a: Seq<u8>, b: Seq<u8>, c: Seq<u8>) {
        lemma_bytes_less_irreflexive(a);
        lemma_bytes_less_total(a, b);
        if bytes_less(a, b) && bytes_less(b, c) {
            lemma_bytes_less_transitive(a, b, c);
        }
    }

    fn less_than(&self, other: &Address) -> (r: bool) {
        bytes_precede(&self.strkey, &other.strkey)
    }

    fn same_key(&self, other: &Address) -> (r: bool) {
        self.equals(other)
    }

    fn copy_key(&self) -> (r: Address) {
        self.duplicate()
    }
}

} // verus!
