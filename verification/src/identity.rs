//! Account identity resolution: the address space and the deterministic
//! derivation of program-owned ("derived") addresses from a label and seed.
//!
//! A derived address is computed from a fixed label (`"user"`, `"escrow"`) and
//! caller-supplied seed bytes. The derivation is deterministic and
//! collision-free, and a derived address can never coincide with an address
//! held by an ordinary keypair, so checking an account's address against a
//! fresh derivation is a sound defense against account substitution.

use vstd::prelude::*;

verus! {

/// An on-ledger account address.
#[derive(Clone, Debug, PartialEq, Eq)]
pub enum Address {
    /// An address held by an independent keypair outside the program's control.
    External(Vec<u8>),
    /// A program-derived address, determined entirely by a label and seed bytes.
    Derived { label: Vec<u8>, seed: Vec<u8> },
}

/// Mathematical model of an [`Address`].
pub enum AddressView {
    External(Seq<u8>),
    Derived { label: Seq<u8>, seed: Seq<u8> },
}

impl View for Address {
    type V = AddressView;

    open spec fn view(&self) -> AddressView {
        match self {
            Address::External(bytes) => AddressView::External(bytes@),
            Address::Derived { label, seed } => AddressView::Derived {
                label: label@,
                seed: seed@,
            },
        }
    }
}

/// The address derived from `label` and `seed`.
pub open spec fn spec_derive(label: Seq<u8>, seed: Seq<u8>) -> AddressView {
    AddressView::Derived { label, seed }
}

/// The salt ("bump") handed out with every derivation; the runtime demands it
/// when the program authorizes a transfer out of a derived account.
pub const DERIVATION_SALT: u8 = 255;

/// A capability for writing to one derived address: holding a `Derivation`
/// whose address equals an account's address is what authorizes the engine to
/// move funds out of that account.
pub struct Derivation {
    pub address: Address,
    pub salt: u8,
}

impl Derivation {
    /// The capability is exactly for the derived address it carries.
    pub open spec fn wf(&self) -> bool {
        &&& self.address@ matches AddressView::Derived { .. }
        &&& self.salt == DERIVATION_SALT
    }
}

/// Copies a byte string.
pub fn clone_bytes(v: &Vec<u8>) -> (r: Vec<u8>)
    ensures
        r@ == v@,
{
    vstd::slice::slice_to_vec(v.as_slice())
}

/// Derives the program-owned address for `label` and `seed`, together with the
/// salt that authorizes writes to it.
pub fn derive_address(label: &Vec<u8>, seed: &Vec<u8>) -> (r: Derivation)
    ensures
        r.address@ == spec_derive(label@, seed@),
        r.salt == DERIVATION_SALT,
        r.wf(),
{
    Derivation {
        address: Address::Derived { label: clone_bytes(label), seed: clone_bytes(seed) },
        salt: DERIVATION_SALT,
    }
}

/// Byte-string equality.
pub fn bytes_eq(a: &Vec<u8>, b: &Vec<u8>) -> (r: bool)
    ensures
        r <==> a@ == b@,
{
    if a.len() != b.len() {
        return false;
    }
    let mut i: usize = 0;
    while i < a.len()
        invariant
            i <= a.len(),
            a.len() == b.len(),
            forall|j: int| 0 <= j < i ==> a@[j] == b@[j],
        decreases a.len() - i,
    {
        if a[i] != b[i] {
            return false;
        }
        i += 1;
    }
    proof {
        assert(a@ =~= b@);
    }
    true
}

/// Address equality, decided structurally.
pub fn address_eq(a: &Address, b: &Address) -> (r: bool)
    ensures
        r <==> a@ == b@,
{
    match (a, b) {
        (Address::External(x), Address::External(y)) => bytes_eq(x, y),
        (
            Address::Derived { label: la, seed: sa },
            Address::Derived { label: lb, seed: sb },
        ) => bytes_eq(la, lb) && bytes_eq(sa, sb),
        _ => false,
    }
}

/// Copies an address.
pub fn clone_address(a: &Address) -> (r: Address)
    ensures
        r@ == a@,
{
    match a {
        Address::External(bytes) => Address::External(clone_bytes(bytes)),
        Address::Derived { label, seed } => Address::Derived {
            label: clone_bytes(label),
            seed: clone_bytes(seed),
        },
    }
}

/// The label under which user accounts are derived: the bytes of `"user"`.
pub open spec fn user_label() -> Seq<u8> {
    seq![117u8, 115u8, 101u8, 114u8]
}

/// The label under which escrow pools are derived: the bytes of `"escrow"`.
pub open spec fn escrow_label() -> Seq<u8> {
    seq![101u8, 115u8, 99u8, 114u8, 111u8, 119u8]
}

/// The `"user"` label as a byte string.
pub fn user_label_bytes() -> (r: Vec<u8>)
    ensures
        r@ == user_label(),
{
    let mut v: Vec<u8> = Vec::new();
    v.push(117);
    v.push(115);
    v.push(101);
    v.push(114);
    proof {
        assert(v@ =~= user_label());
    }
    v
}

/// The `"escrow"` label as a byte string.
pub fn escrow_label_bytes() -> (r: Vec<u8>)
    ensures
        r@ == escrow_label(),
{
    let mut v: Vec<u8> = Vec::new();
    v.push(101);
    v.push(115);
    v.push(99);
    v.push(114);
    v.push(111);
    v.push(119);
    proof {
        assert(v@ =~= escrow_label());
    }
    v
}

/// Derivation exactness: two derivations agree exactly when their labels and
/// seeds agree. The forward direction is collision-freedom, the backward
/// direction determinism.
pub proof fn lemma_derivation_exact(l1: Seq<u8>, s1: Seq<u8>, l2: Seq<u8>, s2: Seq<u8>)
    ensures
        spec_derive(l1, s1) == spec_derive(l2, s2) <==> (l1 == l2 && s1 == s2),
{
}

/// A derived address never lies in the space of independently held keypair
/// addresses.
pub proof fn lemma_derived_outside_keypair_space(l: Seq<u8>, s: Seq<u8>, k: Seq<u8>)
    ensures
        spec_derive(l, s) != AddressView::External(k),
{
}

} // verus!
