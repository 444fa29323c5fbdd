use vstd::prelude::*;

verus! {

/// Lexicographic order on byte strings of the same length: `a` is below `b`
/// when they agree up to some index where `a` holds the smaller byte.
pub open spec fn bytes_lt(a: Seq<u8>, b: Seq<u8>) -> bool {
    exists|i: int|
        0 <= i < a.len() && i < b.len() && #[trigger] a[i] < b[i] && (forall|j: int|
            0 <= j < i ==> a[j] == b[j])
}

/// `bytes_lt` is transitive.
pub proof fn lemma_bytes_lt_transitive(a: Seq<u8>, b: Seq<u8>, c: Seq<u8>)
    requires
        a.len() == b.len(),
        b.len() == c.len(),
        bytes_lt(a, b),
        bytes_lt(b, c),
    ensures
        bytes_lt(a, c),
{
    let i = choose|i: int|
        0 <= i < a.len() && i < b.len() && #[trigger] a[i] < b[i] && (forall|j: int|
            0 <= j < i ==> a[j] == b[j]);
    let k = choose|k: int|
        0 <= k < b.len() && k < c.len() && #[trigger] b[k] < c[k] && (forall|j: int|
            0 <= j < k ==> b[j] == c[j]);
    if i <= k {
        assert(a[i] < c[i]);
    } else {
        assert(a[k] == b[k]);
        assert(a[k] < c[k]);
    }
}

/// `bytes_lt` is irreflexive and asymmetric.
pub proof fn lemma_bytes_lt_asymmetric(a: Seq<u8>, b: Seq<u8>)
    requires
        bytes_lt(a, b),
    ensures
        !bytes_lt(b, a),
        a != b,
{
    let i = choose|i: int|
        0 <= i < a.len() && i < b.len() && #[trigger] a[i] < b[i] && (forall|j: int|
            0 <= j < i ==> a[j] == b[j]);
    if bytes_lt(b, a) {
        let k = choose|k: int|
            0 <= k < b.len() && k < a.len() && #[trigger] b[k] < a[k] && (forall|j: int|
                0 <= j < k ==> b[j] == a[j]);
        if i < k {
            assert(b[i] == a[i]);
        } else if k < i {
            assert(a[k] == b[k]);
        }
    }
}

/// Result of comparing two byte strings.
#[derive(Clone, Copy, Debug, PartialEq, Eq, Structural)]
pub enum ByteOrder {
    Less,
    Equal,
    Greater,
}

/// Compares two byte strings of the same length lexicographically.
pub fn compare_bytes(a: &[u8], b: &[u8]) -> (r: ByteOrder)
    requires
        a@.len() == b@.len(),
    ensures
        r == ByteOrder::Less <==> bytes_lt(a@, b@),
        r == ByteOrder::Greater <==> bytes_lt(b@, a@),
        r == ByteOrder::Equal <==> a@ == b@,
{
    let n = a.len();
    let mut i: usize = 0;
    while i < n
        invariant
            n == a@.len(),
            n == b@.len(),
            0 <= i <= n,
            forall|j: int| 0 <= j < i ==> a@[j] == b@[j],
        decreases n - i,
    {
        if a[i] < b[i] {
            proof {
                assert(a@[i as int] < b@[i as int]);
                lemma_bytes_lt_asymmetric(a@, b@);
            }
            return ByteOrder::Less;
        } else if a[i] > b[i] {
            proof {
                assert(b@[i as int] < a@[i as int]);
                lemma_bytes_lt_asymmetric(b@, a@);
            }
            return ByteOrder::Greater;
        }
        i = i + 1;
    }
    proof {
        assert(a@ =~= b@);
        if bytes_lt(a@, b@) {
            let k = choose|k: int|
                0 <= k < a@.len() && k < b@.len() && #[trigger] a@[k] < b@[k] && (forall|j: int|
                    0 <= j < k ==> a@[j] == b@[j]);
            assert(a@[k] == b@[k]);
        }
        if bytes_lt(b@, a@) {
            let k = choose|k: int|
                0 <= k < a@.len() && k < b@.len() && #[trigger] b@[k] < a@[k] && (forall|j: int|
                    0 <= j < k ==> b@[j] == a@[j]);
            assert(a@[k] == b@[k]);
        }
    }
    ByteOrder::Equal
}

/// A validator's long-lived public identity: the bytes of its spend-auth
/// verification key. Identity keys are totally ordered by their bytes.
#[derive(Clone, Copy, Debug)]
pub struct IdentityKey {
    pub bytes: [u8; 32],
}

impl IdentityKey {
    pub open spec fn key_lt(self, other: IdentityKey) -> bool {
        bytes_lt(self.bytes@, other.bytes@)
    }

    /// Compares two identity keys by their bytes.
    pub fn compare(&self, other: &IdentityKey) -> (r: ByteOrder)
        ensures
            r == ByteOrder::Less <==> self.key_lt(*other),
            r == ByteOrder::Greater <==> other.key_lt(*self),
            r == ByteOrder::Equal <==> self.bytes@ == other.bytes@,
    {
        compare_bytes(self.bytes.as_slice(), other.bytes.as_slice())
    }
}

impl PartialEq for IdentityKey {
    fn eq(&self, other: &IdentityKey) -> (r: bool) {
        let c = compare_bytes(self.bytes.as_slice(), other.bytes.as_slice());
        c == ByteOrder::Equal
    }
}

impl vstd::std_specs::cmp::PartialEqSpecImpl for IdentityKey {
    open spec fn obeys_eq_spec() -> bool {
        true
    }

    open spec fn eq_spec(&self, other: &IdentityKey) -> bool {
        self.bytes@ == other.bytes@
    }
}

impl Eq for IdentityKey {}

/// The key by which the consensus engine knows a validator.
#[derive(Clone, Copy, Debug)]
pub struct ConsensusKey {
    pub bytes: [u8; 32],
}

impl PartialEq for ConsensusKey {
    fn eq(&self, other: &ConsensusKey) -> (r: bool) {
        let c = compare_bytes(self.bytes.as_slice(), other.bytes.as_slice());
        c == ByteOrder::Equal
    }
}

impl vstd::std_specs::cmp::PartialEqSpecImpl for ConsensusKey {
    open spec fn obeys_eq_spec() -> bool {
        true
    }

    open spec fn eq_spec(&self, other: &ConsensusKey) -> bool {
        self.bytes@ == other.bytes@
    }
}

impl Eq for ConsensusKey {}

} // verus!
