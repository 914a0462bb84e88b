//! Identities, storage addresses and the total order on identities.

use vstd::prelude::*;

verus! {

/// Whether two byte strings agree at every position below `n`.
pub open spec fn agree_below(a: Seq<u8>, b: Seq<u8>, n: int) -> bool {
    forall|j: int| 0 <= j < n ==> a[j] == b[j]
}

/// Byte-lexicographic "strictly before" on strings of equal length: at the
/// first position where the two differ, `a` holds the smaller byte.
pub open spec fn lex_before(a: Seq<u8>, b: Seq<u8>) -> bool {
    exists|i: int|
        0 <= i < a.len() && i < b.len() && agree_below(a, b, i) && #[trigger] a[i] < b[i]
}

fn same_bytes(a: &[u8; 32], b: &[u8; 32]) -> (r: bool)
    ensures
        r == (*a == *b),
        r == (a@ == b@),
{
    let mut i: usize = 0;
    while i < 32
        invariant
            i <= 32,
            agree_below(a@, b@, i as int),
        decreases 32 - i,
    {
        if a[i] != b[i] {
            return false;
        }
        i += 1;
    }
    assert(a@ =~= b@);
    assert(*a =~= *b);
    true
}

/// The stable identity of a participant: 32 bytes, ordered
/// byte-lexicographically.
#[derive(Clone, Copy, Debug)]
pub struct Identity {
    pub bytes: [u8; 32],
}

impl View for Identity {
    type V = Seq<u8>;

    open spec fn view(&self) -> Seq<u8> {
        self.bytes@
    }
}

impl PartialEq for Identity {
    fn eq(&self, other: &Self) -> (r: bool) {
        same_bytes(&self.bytes, &other.bytes)
    }
}

impl Eq for Identity {

}

impl vstd::std_specs::cmp::PartialEqSpecImpl for Identity {
    open spec fn obeys_eq_spec() -> bool {
        true
    }

    open spec fn eq_spec(&self, other: &Self) -> bool {
        *self == *other
    }
}

impl Identity {
    /// The identity made of `bytes`.
    pub fn new(bytes: [u8; 32]) -> (r: Identity)
        ensures
            r.bytes == bytes,
    {
        Identity { bytes }
    }

    /// An identity is determined by its bytes.
    pub proof fn lemma_same_bytes(self, other: Identity)
        requires
            self@ == other@,
        ensures
            self == other,
    {
        assert(self.bytes =~= other.bytes);
    }

    /// Whether `self` comes strictly before `other`.
    pub open spec fn precedes(self, other: Identity) -> bool {
        lex_before(self@, other@)
    }

    /// Whether `self` comes strictly before `other` in byte-lexicographic
    /// order.
    pub fn before(&self, other: &Identity) -> (r: bool)
        ensures
            r == self.precedes(*other),
    {
        let mut i: usize = 0;
        while i < 32
            invariant
                i <= 32,
                agree_below(self@, other@, i as int),
            decreases 32 - i,
        {
            if self.bytes[i] != other.bytes[i] {
                let smaller = self.bytes[i] < other.bytes[i];
                return smaller;
            }
            i += 1;
        }
        false
    }
}

/// The address of a storage slot: 32 bytes.
#[derive(Clone, Copy, Debug)]
pub struct Address {
    pub bytes: [u8; 32],
}

impl View for Address {
    type V = Seq<u8>;

    open spec fn view(&self) -> Seq<u8> {
        self.bytes@
    }
}

impl PartialEq for Address {
    fn eq(&self, other: &Self) -> (r: bool) {
        same_bytes(&self.bytes, &other.bytes)
    }
}

impl Eq for Address {

}

impl vstd::std_specs::cmp::PartialEqSpecImpl for Address {
    open spec fn obeys_eq_spec() -> bool {
        true
    }

    open spec fn eq_spec(&self, other: &Self) -> bool {
        *self == *other
    }
}

impl Address {
    /// The address made of `bytes`.
    pub fn new(bytes: [u8; 32]) -> (r: Address)
        ensures
            r.bytes == bytes,
    {
        Address { bytes }
    }

    /// The address whose bytes are `bytes`, for a string of 32 bytes.
    pub open spec fn of(bytes: Seq<u8>) -> Address {
        choose|a: Address| a@ == bytes
    }

    /// An address is determined by its bytes.
    pub proof fn lemma_of_view(self)
        ensures
            Address::of(self@) == self,
    {
        let other = Address::of(self@);
        assert(other@ == self@);
        assert(other.bytes =~= self.bytes);
    }
}

/// The pair `{a, b}` in canonical order: the identity that comes first in
/// byte-lexicographic order stands first.
pub open spec fn canonical(a: Identity, b: Identity) -> (Identity, Identity) {
    if b.precedes(a) {
        (b, a)
    } else {
        (a, b)
    }
}

/// Puts a pair of identities in canonical order.
pub fn canonical_pair(a: Identity, b: Identity) -> (r: (Identity, Identity))
    ensures
        r == canonical(a, b),
{
    if b.before(&a) {
        (b, a)
    } else {
        (a, b)
    }
}

proof fn lemma_first_difference(a: Seq<u8>, b: Seq<u8>, n: int)
    requires
        a.len() == b.len(),
        0 <= n <= a.len(),
        agree_below(a, b, n),
    ensures
        a == b || lex_before(a, b) || lex_before(b, a),
    decreases a.len() - n,
{
    if n == a.len() {
        assert(a =~= b);
    } else if a[n] == b[n] {
        lemma_first_difference(a, b, n + 1);
    } else if a[n] < b[n] {
        assert(agree_below(a, b, n) && a[n] < b[n]);
    } else {
        assert(agree_below(b, a, n) && b[n] < a[n]);
    }
}

/// Of two identities, one comes before the other or they are the same.
pub proof fn lemma_order_total(a: Identity, b: Identity)
    ensures
        a == b || a.precedes(b) || b.precedes(a),
{
    lemma_first_difference(a@, b@, 0);
    if a@ == b@ {
        a.lemma_same_bytes(b);
    }
}

/// No identity comes both before and after another, and none before itself.
pub proof fn lemma_order_asymmetric(a: Identity, b: Identity)
    ensures
        !(a.precedes(b) && b.precedes(a)),
        !a.precedes(a),
{
    if a.precedes(b) && b.precedes(a) {
        let i = choose|i: int|
            0 <= i < a@.len() && i < b@.len() && agree_below(a@, b@, i) && #[trigger] a@[i] < b@[i];
        let j = choose|j: int|
            0 <= j < b@.len() && j < a@.len() && agree_below(b@, a@, j) && #[trigger] b@[j] < a@[j];
        if i < j {
            assert(b@[i] == a@[i]);
        } else if j < i {
            assert(a@[j] == b@[j]);
        }
    }
}

/// The canonical order of a pair does not depend on which identity is named
/// first, and its first member never comes after its second.
pub proof fn lemma_canonical_symmetric(a: Identity, b: Identity)
    ensures
        canonical(a, b) == canonical(b, a),
        !canonical(a, b).1.precedes(canonical(a, b).0),
        a != b ==> canonical(a, b).0.precedes(canonical(a, b).1),
{
    lemma_order_total(a, b);
    lemma_order_asymmetric(a, b);
    lemma_order_asymmetric(b, a);
}

} // verus!
