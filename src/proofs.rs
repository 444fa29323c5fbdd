//! Transparent spend and output proofs: the binding checks between a note's
//! private witness and the public inputs of a transaction.
//!
//! The curve and hash primitives (commitments, key derivation, the Merkle
//! node hash) are computed by the caller from the witness; this module holds
//! the rules that decide, from those results, whether a proof is valid and
//! which check fails first.
use vstd::prelude::*;

use crate::keys::{compare_bytes, ByteOrder};

verus! {

/// Depth of the note commitment tree.
pub const MERKLE_DEPTH: usize = 32;

/// Why a transparent proof was rejected.
#[derive(Debug, Clone, Copy, PartialEq, Eq, Structural)]
pub enum Error {
    InvalidSpendAuthRandomizer,
    NoteCommitmentMismatch,
    TransmissionKeyMismatch,
    ValueCommitmentMismatch,
    EphemeralPublicKeyMismatch,
    IdentityUnexpected,
    MerklePathMismatch,
    MerkleRootMismatch,
    InvalidDiversifiedAddress,
    BadNullifier,
    ProtoMalformed,
}

/// Compares two 32-byte strings.
pub fn bytes_eq(a: &[u8; 32], b: &[u8; 32]) -> (r: bool)
    ensures
        r == (a@ == b@),
{
    compare_bytes(a.as_slice(), b.as_slice()) == ByteOrder::Equal
}

/// Whether, at `level` of the path, the sibling node is the left child: the
/// bit `level` of the note's position is set.
pub fn sibling_is_left(position: u64, level: u32) -> (r: bool)
    requires
        level < 64,
    ensures
        r == ((position >> level) & 1u64 == 1u64),
{
    (position >> level) & 1 == 1
}

/// Transparent proof for spending an existing note: the private witness.
#[derive(Debug)]
pub struct SpendProof {
    /// Altitude at which the authentication path starts.
    pub merkle_path_altitude: u32,
    /// Authentication path of the note in the note commitment tree, leaf first.
    pub merkle_path: Vec<[u8; 32]>,
    /// Position of the note in the tree.
    pub position: u64,
    /// The diversified base of the address.
    pub g_d: [u8; 32],
    /// The transmission key of the address.
    pub pk_d: [u8; 32],
    pub value_amount: u64,
    pub value_asset_id: [u8; 32],
    /// Blinding factor of the value commitment.
    pub v_blinding: [u8; 32],
    pub note_commitment: [u8; 32],
    /// Blinding factor of the note commitment.
    pub note_blinding: [u8; 32],
    /// Randomizer of the spend authorization key.
    pub spend_auth_randomizer: [u8; 32],
    /// The spend authorization (verification) key.
    pub ak: [u8; 32],
    /// The nullifier-deriving key.
    pub nk: [u8; 32],
}

/// What the curve and hash primitives yield on a spend proof's witness.
#[derive(Debug, Clone, Copy)]
pub struct SpendDerivation {
    /// The note commitment recomputed from the witness; `None` when the
    /// transmission key has no field-element form.
    pub note_commitment: Option<[u8; 32]>,
    /// The root reached by folding the authentication path from the
    /// witnessed note commitment.
    pub merkle_root: [u8; 32],
    /// The value commitment of the witnessed value and blinding.
    pub value_commitment: [u8; 32],
    pub g_d_is_identity: bool,
    pub ak_is_identity: bool,
    /// The nullifier derived from `nk`, the position and the note commitment.
    pub nullifier: [u8; 32],
    /// `ak` randomized by the witnessed randomizer.
    pub rk: [u8; 32],
    /// The transmission key that the viewing key of `(ak, nk)` derives for `g_d`.
    pub diversified_pk_d: [u8; 32],
}

/// Outcome of the checks on a spend proof, in the order they are made: the
/// identity check first, then the bindings.
pub open spec fn spend_outcome(
    proof: SpendProof,
    anchor: Seq<u8>,
    value_commitment: Seq<u8>,
    nullifier: Seq<u8>,
    rk: Seq<u8>,
    derived: SpendDerivation,
) -> Result<(), Error> {
    if derived.g_d_is_identity || derived.ak_is_identity {
        Err(Error::IdentityUnexpected)
    } else if derived.note_commitment is None {
        Err(Error::TransmissionKeyMismatch)
    } else if derived.note_commitment->0@ != proof.note_commitment@ {
        Err(Error::NoteCommitmentMismatch)
    } else if proof.merkle_path@.len() != MERKLE_DEPTH {
        Err(Error::MerklePathMismatch)
    } else if derived.merkle_root@ != anchor {
        Err(Error::MerkleRootMismatch)
    } else if derived.value_commitment@ != value_commitment {
        Err(Error::ValueCommitmentMismatch)
    } else if derived.nullifier@ != nullifier {
        Err(Error::BadNullifier)
    } else if derived.rk@ != rk {
        Err(Error::InvalidSpendAuthRandomizer)
    } else if derived.diversified_pk_d@ != proof.pk_d@ {
        Err(Error::InvalidDiversifiedAddress)
    } else {
        Ok(())
    }
}

impl SpendProof {
    /// Verifies the proof against the public inputs: the anchor (root of the
    /// note commitment tree), the value commitment, the nullifier and the
    /// randomized spend authorization key.
    pub fn verify(
        &self,
        anchor: &[u8; 32],
        value_commitment: &[u8; 32],
        nullifier: &[u8; 32],
        rk: &[u8; 32],
        derived: &SpendDerivation,
    ) -> (r: Result<(), Error>)
        ensures
            r == spend_outcome(*self, anchor@, value_commitment@, nullifier@, rk@, *derived),
    {
        // An identity diversified base or key makes every other binding
        // meaningless, so it is refused first.
        if derived.g_d_is_identity || derived.ak_is_identity {
            return Err(Error::IdentityUnexpected);
        }
        match &derived.note_commitment {
            None => {
                return Err(Error::TransmissionKeyMismatch);
            },
            Some(c) => {
                if !bytes_eq(c, &self.note_commitment) {
                    return Err(Error::NoteCommitmentMismatch);
                }
            },
        }
        if self.merkle_path.len() != MERKLE_DEPTH {
            return Err(Error::MerklePathMismatch);
        }
        if !bytes_eq(&derived.merkle_root, anchor) {
            return Err(Error::MerkleRootMismatch);
        }
        if !bytes_eq(&derived.value_commitment, value_commitment) {
            return Err(Error::ValueCommitmentMismatch);
        }
        if !bytes_eq(&derived.nullifier, nullifier) {
            return Err(Error::BadNullifier);
        }
        if !bytes_eq(&derived.rk, rk) {
            return Err(Error::InvalidSpendAuthRandomizer);
        }
        if !bytes_eq(&derived.diversified_pk_d, &self.pk_d) {
            return Err(Error::InvalidDiversifiedAddress);
        }
        Ok(())
    }
}

/// A spend proof is accepted only when every binding holds: the witnessed
/// note commitment is the recomputed one, the path has full depth and leads
/// to the anchor, and the value commitment, nullifier, randomized key and
/// address all match.
pub proof fn lemma_spend_accepted_binds(
    proof: SpendProof,
    anchor: Seq<u8>,
    value_commitment: Seq<u8>,
    nullifier: Seq<u8>,
    rk: Seq<u8>,
    derived: SpendDerivation,
)
    requires
        spend_outcome(proof, anchor, value_commitment, nullifier, rk, derived) is Ok,
    ensures
        derived.note_commitment matches Some(c) && c@ == proof.note_commitment@,
        proof.merkle_path@.len() == MERKLE_DEPTH,
        derived.merkle_root@ == anchor,
        derived.value_commitment@ == value_commitment,
        !derived.g_d_is_identity && !derived.ak_is_identity,
        derived.nullifier@ == nullifier,
        derived.rk@ == rk,
        derived.diversified_pk_d@ == proof.pk_d@,
{
}

/// Transparent proof for creating a new note: the private witness.
#[derive(Debug, Clone, Copy)]
pub struct OutputProof {
    /// The diversified base of the destination address.
    pub g_d: [u8; 32],
    /// The transmission key of the destination address.
    pub pk_d: [u8; 32],
    pub value_amount: u64,
    pub value_asset_id: [u8; 32],
    /// Blinding factor of the value commitment.
    pub v_blinding: [u8; 32],
    /// Blinding factor of the note commitment.
    pub note_blinding: [u8; 32],
    /// The ephemeral secret key.
    pub esk: [u8; 32],
}

/// What the curve and hash primitives yield on an output proof's witness.
#[derive(Debug, Clone, Copy)]
pub struct OutputDerivation {
    /// The note commitment recomputed from the witness; `None` when the
    /// transmission key has no field-element form.
    pub note_commitment: Option<[u8; 32]>,
    /// The negated value commitment of the witnessed value and blinding (an
    /// output contributes negative value).
    pub negated_value_commitment: [u8; 32],
    /// The ephemeral public key that `esk` derives for `g_d`.
    pub epk: [u8; 32],
    pub g_d_is_identity: bool,
}

/// Outcome of the checks on an output proof, in the order they are made: the
/// identity check first, then the bindings.
pub open spec fn output_outcome(
    value_commitment: Seq<u8>,
    note_commitment: Seq<u8>,
    epk: Seq<u8>,
    derived: OutputDerivation,
) -> Result<(), Error> {
    if derived.g_d_is_identity {
        Err(Error::IdentityUnexpected)
    } else if derived.note_commitment is None {
        Err(Error::TransmissionKeyMismatch)
    } else if derived.note_commitment->0@ != note_commitment {
        Err(Error::NoteCommitmentMismatch)
    } else if derived.negated_value_commitment@ != value_commitment {
        Err(Error::ValueCommitmentMismatch)
    } else if derived.epk@ != epk {
        Err(Error::EphemeralPublicKeyMismatch)
    } else {
        Ok(())
    }
}

impl OutputProof {
    /// Verifies the proof against the public inputs: the value commitment
    /// and note commitment of the new note, and the ephemeral public key.
    pub fn verify(
        &self,
        value_commitment: &[u8; 32],
        note_commitment: &[u8; 32],
        epk: &[u8; 32],
        derived: &OutputDerivation,
    ) -> (r: Result<(), Error>)
        ensures
            r == output_outcome(value_commitment@, note_commitment@, epk@, *derived),
    {
        // An identity diversified base makes every other binding
        // meaningless, so it is refused first.
        if derived.g_d_is_identity {
            return Err(Error::IdentityUnexpected);
        }
        match &derived.note_commitment {
            None => {
                return Err(Error::TransmissionKeyMismatch);
            },
            Some(c) => {
                if !bytes_eq(c, note_commitment) {
                    return Err(Error::NoteCommitmentMismatch);
                }
            },
        }
        if !bytes_eq(&derived.negated_value_commitment, value_commitment) {
            return Err(Error::ValueCommitmentMismatch);
        }
        if !bytes_eq(&derived.epk, epk) {
            return Err(Error::EphemeralPublicKeyMismatch);
        }
        Ok(())
    }
}


/// The 32 bytes of `v`, or `None` when it does not hold exactly 32.
pub fn bytes_32(v: &Vec<u8>) -> (r: Option<[u8; 32]>)
    ensures
        r matches Some(a) ==> a@ == v@,
        r is None <==> v@.len() != 32,
{
    if v.len() != 32 {
        return None;
    }
    let mut a: [u8; 32] = [0; 32];
    let mut i: usize = 0;
    while i < 32
        invariant
            v@.len() == 32,
            0 <= i <= 32,
            forall|j: int| 0 <= j < i ==> a@[j] == v@[j],
        decreases 32 - i,
    {
        a[i] = v[i];
        i = i + 1;
    }
    proof {
        assert(a@ =~= v@);
    }
    Some(a)
}

/// The bytes of `a` as a vector.
pub fn bytes_vec(a: &[u8; 32]) -> (r: Vec<u8>)
    ensures
        r@ == a@,
{
    let mut v: Vec<u8> = Vec::new();
    let mut i: usize = 0;
    while i < 32
        invariant
            0 <= i <= 32,
            v@ == a@.take(i as int),
        decreases 32 - i,
    {
        v.push(a[i]);
        proof {
            assert(v@ =~= a@.take(i as int + 1));
        }
        i = i + 1;
    }
    proof {
        assert(a@.take(32) =~= a@);
    }
    v
}

/// The fields of a spend proof as carried on the wire: byte strings that
/// must each be 32 bytes long.
#[derive(Debug)]
pub struct SpendProofPayload {
    pub merkle_path_altitude: u32,
    pub merkle_path_siblings: Vec<Vec<u8>>,
    pub position: u64,
    pub g_d: Vec<u8>,
    pub pk_d: Vec<u8>,
    pub value_amount: u64,
    pub value_asset_id: Vec<u8>,
    pub v_blinding: Vec<u8>,
    pub note_commitment: Vec<u8>,
    pub note_blinding: Vec<u8>,
    pub spend_auth_randomizer: Vec<u8>,
    pub ak: Vec<u8>,
    pub nk: Vec<u8>,
}

/// The payload carries exactly the fields of the proof.
pub open spec fn spend_payload_of(p: SpendProofPayload, x: SpendProof) -> bool {
    &&& p.merkle_path_altitude == x.merkle_path_altitude
    &&& p.merkle_path_siblings@.len() == x.merkle_path@.len()
    &&& forall|i: int|
        0 <= i < x.merkle_path@.len() ==> (#[trigger] p.merkle_path_siblings@[i])@
            == x.merkle_path@[i]@
    &&& p.position == x.position
    &&& p.g_d@ == x.g_d@
    &&& p.pk_d@ == x.pk_d@
    &&& p.value_amount == x.value_amount
    &&& p.value_asset_id@ == x.value_asset_id@
    &&& p.v_blinding@ == x.v_blinding@
    &&& p.note_commitment@ == x.note_commitment@
    &&& p.note_blinding@ == x.note_blinding@
    &&& p.spend_auth_randomizer@ == x.spend_auth_randomizer@
    &&& p.ak@ == x.ak@
    &&& p.nk@ == x.nk@
}

/// Every byte string of the payload is 32 bytes long.
pub open spec fn spend_payload_well_formed(p: SpendProofPayload) -> bool {
    &&& forall|i: int|
        0 <= i < p.merkle_path_siblings@.len() ==> (#[trigger] p.merkle_path_siblings@[i])@.len()
            == 32
    &&& p.g_d@.len() == 32
    &&& p.pk_d@.len() == 32
    &&& p.value_asset_id@.len() == 32
    &&& p.v_blinding@.len() == 32
    &&& p.note_commitment@.len() == 32
    &&& p.note_blinding@.len() == 32
    &&& p.spend_auth_randomizer@.len() == 32
    &&& p.ak@.len() == 32
    &&& p.nk@.len() == 32
}

impl SpendProof {
    /// The wire fields of the proof.
    pub fn to_payload(&self) -> (r: SpendProofPayload)
        ensures
            spend_payload_of(r, *self),
    {
        let mut siblings: Vec<Vec<u8>> = Vec::new();
        let mut i: usize = 0;
        while i < self.merkle_path.len()
            invariant
                0 <= i <= self.merkle_path@.len(),
                siblings@.len() == i,
                forall|j: int| 0 <= j < i ==> (#[trigger] siblings@[j])@ == self.merkle_path@[j]@,
            decreases self.merkle_path@.len() - i,
        {
            siblings.push(bytes_vec(&self.merkle_path[i]));
            i = i + 1;
        }
        SpendProofPayload {
            merkle_path_altitude: self.merkle_path_altitude,
            merkle_path_siblings: siblings,
            position: self.position,
            g_d: bytes_vec(&self.g_d),
            pk_d: bytes_vec(&self.pk_d),
            value_amount: self.value_amount,
            value_asset_id: bytes_vec(&self.value_asset_id),
            v_blinding: bytes_vec(&self.v_blinding),
            note_commitment: bytes_vec(&self.note_commitment),
            note_blinding: bytes_vec(&self.note_blinding),
            spend_auth_randomizer: bytes_vec(&self.spend_auth_randomizer),
            ak: bytes_vec(&self.ak),
            nk: bytes_vec(&self.nk),
        }
    }

    /// The proof that the wire fields carry; a byte string of the wrong
    /// length makes the payload malformed.
    pub fn from_payload(p: &SpendProofPayload) -> (r: Result<SpendProof, Error>)
        ensures
            r is Ok <==> spend_payload_well_formed(*p),
            r matches Ok(x) ==> spend_payload_of(*p, x),
            r is Err ==> r == Err::<SpendProof, Error>(Error::ProtoMalformed),
    {
        let mut path: Vec<[u8; 32]> = Vec::new();
        let mut i: usize = 0;
        while i < p.merkle_path_siblings.len()
            invariant
                0 <= i <= p.merkle_path_siblings@.len(),
                path@.len() == i,
                forall|j: int| 0 <= j < i ==> (#[trigger] path@[j])@ == p.merkle_path_siblings@[j]@,
                forall|j: int| 0 <= j < i ==> (#[trigger] p.merkle_path_siblings@[j])@.len() == 32,
            decreases p.merkle_path_siblings@.len() - i,
        {
            match bytes_32(&p.merkle_path_siblings[i]) {
                Some(a) => path.push(a),
                None => {
                    return Err(Error::ProtoMalformed);
                },
            }
            i = i + 1;
        }
        let g_d = match bytes_32(&p.g_d) { Some(a) => a, None => { return Err(Error::ProtoMalformed); } };
        let pk_d = match bytes_32(&p.pk_d) { Some(a) => a, None => { return Err(Error::ProtoMalformed); } };
        let value_asset_id = match bytes_32(&p.value_asset_id) { Some(a) => a, None => { return Err(Error::ProtoMalformed); } };
        let v_blinding = match bytes_32(&p.v_blinding) { Some(a) => a, None => { return Err(Error::ProtoMalformed); } };
        let note_commitment = match bytes_32(&p.note_commitment) { Some(a) => a, None => { return Err(Error::ProtoMalformed); } };
        let note_blinding = match bytes_32(&p.note_blinding) { Some(a) => a, None => { return Err(Error::ProtoMalformed); } };
        let spend_auth_randomizer = match bytes_32(&p.spend_auth_randomizer) { Some(a) => a, None => { return Err(Error::ProtoMalformed); } };
        let ak = match bytes_32(&p.ak) { Some(a) => a, None => { return Err(Error::ProtoMalformed); } };
        let nk = match bytes_32(&p.nk) { Some(a) => a, None => { return Err(Error::ProtoMalformed); } };
        Ok(SpendProof {
            merkle_path_altitude: p.merkle_path_altitude,
            merkle_path: path,
            position: p.position,
            g_d,
            pk_d,
            value_amount: p.value_amount,
            value_asset_id,
            v_blinding,
            note_commitment,
            note_blinding,
            spend_auth_randomizer,
            ak,
            nk,
        })
    }
}

/// Two spend proofs hold the same fields.
pub open spec fn same_spend_proof(x: SpendProof, y: SpendProof) -> bool {
    &&& x.merkle_path_altitude == y.merkle_path_altitude
    &&& x.merkle_path@.len() == y.merkle_path@.len()
    &&& forall|i: int|
        0 <= i < x.merkle_path@.len() ==> (#[trigger] x.merkle_path@[i])@ == y.merkle_path@[i]@
    &&& x.position == y.position
    &&& x.g_d@ == y.g_d@
    &&& x.pk_d@ == y.pk_d@
    &&& x.value_amount == y.value_amount
    &&& x.value_asset_id@ == y.value_asset_id@
    &&& x.v_blinding@ == y.v_blinding@
    &&& x.note_commitment@ == y.note_commitment@
    &&& x.note_blinding@ == y.note_blinding@
    &&& x.spend_auth_randomizer@ == y.spend_auth_randomizer@
    &&& x.ak@ == y.ak@
    &&& x.nk@ == y.nk@
}

/// Round trip: the payload of a spend proof is well formed, and the proof
/// read back from it holds the same fields.
pub proof fn lemma_spend_payload_round_trip(x: SpendProof, p: SpendProofPayload, y: SpendProof)
    requires
        spend_payload_of(p, x),
        spend_payload_of(p, y),
    ensures
        spend_payload_well_formed(p),
        same_spend_proof(x, y),
{
    assert forall|i: int| 0 <= i < p.merkle_path_siblings@.len() implies (
    #[trigger] p.merkle_path_siblings@[i])@.len() == 32 by {
        assert(p.merkle_path_siblings@[i]@ == x.merkle_path@[i]@);
    }
    assert forall|i: int| 0 <= i < x.merkle_path@.len() implies (#[trigger] x.merkle_path@[i])@
        == y.merkle_path@[i]@ by {
        assert(x.merkle_path@[i]@ == p.merkle_path_siblings@[i]@);
    }
}

/// The fields of an output proof as carried on the wire.
#[derive(Debug)]
pub struct OutputProofPayload {
    pub g_d: Vec<u8>,
    pub pk_d: Vec<u8>,
    pub value_amount: u64,
    pub value_asset_id: Vec<u8>,
    pub v_blinding: Vec<u8>,
    pub note_blinding: Vec<u8>,
    pub esk: Vec<u8>,
}

/// The payload carries exactly the fields of the proof.
pub open spec fn output_payload_of(p: OutputProofPayload, x: OutputProof) -> bool {
    &&& p.g_d@ == x.g_d@
    &&& p.pk_d@ == x.pk_d@
    &&& p.value_amount == x.value_amount
    &&& p.value_asset_id@ == x.value_asset_id@
    &&& p.v_blinding@ == x.v_blinding@
    &&& p.note_blinding@ == x.note_blinding@
    &&& p.esk@ == x.esk@
}

/// Every byte string of the payload is 32 bytes long.
pub open spec fn output_payload_well_formed(p: OutputProofPayload) -> bool {
    &&& p.g_d@.len() == 32
    &&& p.pk_d@.len() == 32
    &&& p.value_asset_id@.len() == 32
    &&& p.v_blinding@.len() == 32
    &&& p.note_blinding@.len() == 32
    &&& p.esk@.len() == 32
}

impl OutputProof {
    /// The wire fields of the proof.
    pub fn to_payload(&self) -> (r: OutputProofPayload)
        ensures
            output_payload_of(r, *self),
    {
        OutputProofPayload {
            g_d: bytes_vec(&self.g_d),
            pk_d: bytes_vec(&self.pk_d),
            value_amount: self.value_amount,
            value_asset_id: bytes_vec(&self.value_asset_id),
            v_blinding: bytes_vec(&self.v_blinding),
            note_blinding: bytes_vec(&self.note_blinding),
            esk: bytes_vec(&self.esk),
        }
    }

    /// The proof that the wire fields carry; a byte string of the wrong
    /// length makes the payload malformed.
    pub fn from_payload(p: &OutputProofPayload) -> (r: Result<OutputProof, Error>)
        ensures
            r is Ok <==> output_payload_well_formed(*p),
            r matches Ok(x) ==> output_payload_of(*p, x),
            r is Err ==> r == Err::<OutputProof, Error>(Error::ProtoMalformed),
    {
        let g_d = match bytes_32(&p.g_d) { Some(a) => a, None => { return Err(Error::ProtoMalformed); } };
        let pk_d = match bytes_32(&p.pk_d) { Some(a) => a, None => { return Err(Error::ProtoMalformed); } };
        let value_asset_id = match bytes_32(&p.value_asset_id) { Some(a) => a, None => { return Err(Error::ProtoMalformed); } };
        let v_blinding = match bytes_32(&p.v_blinding) { Some(a) => a, None => { return Err(Error::ProtoMalformed); } };
        let note_blinding = match bytes_32(&p.note_blinding) { Some(a) => a, None => { return Err(Error::ProtoMalformed); } };
        let esk = match bytes_32(&p.esk) { Some(a) => a, None => { return Err(Error::ProtoMalformed); } };
        Ok(OutputProof { g_d, pk_d, value_amount: p.value_amount, value_asset_id, v_blinding, note_blinding, esk })
    }
}

/// Round trip: the payload of an output proof is well formed, and the proof
/// read back from it holds the same fields.
pub proof fn lemma_output_payload_round_trip(x: OutputProof, p: OutputProofPayload, y: OutputProof)
    requires
        output_payload_of(p, x),
        output_payload_of(p, y),
    ensures
        output_payload_well_formed(p),
        x.g_d@ == y.g_d@,
        x.pk_d@ == y.pk_d@,
        x.value_amount == y.value_amount,
        x.value_asset_id@ == y.value_asset_id@,
        x.v_blinding@ == y.v_blinding@,
        x.note_blinding@ == y.note_blinding@,
        x.esk@ == y.esk@,
{
}

} // verus!
