use penumbra_stake_core::proofs::{
    bytes_32, sibling_is_left, Error, OutputDerivation, OutputProof, SpendDerivation, SpendProof,
    MERKLE_DEPTH,
};
use penumbra_stake_core::registry::known_assets;

// The witness and public values are byte strings; the curve and hash results
// that a caller derives from the witness are given directly.

fn output_proof() -> OutputProof {
    OutputProof {
        g_d: [1; 32],
        pk_d: [2; 32],
        value_amount: 10,
        value_asset_id: [3; 32],
        v_blinding: [4; 32],
        note_blinding: [5; 32],
        esk: [6; 32],
    }
}

fn output_derivation() -> OutputDerivation {
    OutputDerivation {
        note_commitment: Some([7; 32]),
        negated_value_commitment: [8; 32],
        epk: [9; 32],
        g_d_is_identity: false,
    }
}

fn spend_proof() -> SpendProof {
    SpendProof {
        merkle_path_altitude: 0,
        merkle_path: vec![[0; 32]; 32],
        position: 0,
        g_d: [1; 32],
        pk_d: [2; 32],
        value_amount: 10,
        value_asset_id: [3; 32],
        v_blinding: [4; 32],
        note_commitment: [7; 32],
        note_blinding: [5; 32],
        spend_auth_randomizer: [6; 32],
        ak: [10; 32],
        nk: [11; 32],
    }
}

fn spend_derivation() -> SpendDerivation {
    SpendDerivation {
        note_commitment: Some([7; 32]),
        merkle_root: [12; 32],
        value_commitment: [8; 32],
        g_d_is_identity: false,
        ak_is_identity: false,
        nullifier: [13; 32],
        rk: [14; 32],
        diversified_pk_d: [2; 32],
    }
}

#[test]
fn test_output_proof_verification_success() {
    let upenumbra = known_assets().parse_denom("upenumbra").unwrap();
    assert_eq!(upenumbra.base_denom, "upenumbra");
    let proof = output_proof();
    assert_eq!(proof.value_amount, 10);
    assert!(proof.verify(&[8; 32], &[7; 32], &[9; 32], &output_derivation()).is_ok());
}

#[test]
fn test_output_proof_verification_note_commitment_integrity_failure() {
    let proof = output_proof();
    // the public note commitment is not the one the witness commits to
    assert_eq!(proof.verify(&[8; 32], &[70; 32], &[9; 32], &output_derivation()), Err(Error::NoteCommitmentMismatch));
    let mut d = output_derivation();
    d.note_commitment = None;
    assert_eq!(proof.verify(&[8; 32], &[7; 32], &[9; 32], &d), Err(Error::TransmissionKeyMismatch));
}

#[test]
fn test_output_proof_verification_value_commitment_integrity_failure() {
    let proof = output_proof();
    assert_eq!(proof.verify(&[80; 32], &[7; 32], &[9; 32], &output_derivation()), Err(Error::ValueCommitmentMismatch));
}

#[test]
fn test_output_proof_verification_ephemeral_public_key_integrity_failure() {
    let proof = output_proof();
    assert_eq!(proof.verify(&[8; 32], &[7; 32], &[90; 32], &output_derivation()), Err(Error::EphemeralPublicKeyMismatch));
}

#[test]
fn test_output_proof_verification_identity_check_failure() {
    let mut proof = output_proof();
    proof.g_d = [0; 32];
    // With the identity as diversified base, neither the recomputed note
    // commitment nor the ephemeral key matches the public ones.
    let d = OutputDerivation {
        note_commitment: Some([70; 32]),
        negated_value_commitment: [8; 32],
        epk: [0; 32],
        g_d_is_identity: true,
    };
    assert_eq!(proof.verify(&[8; 32], &[7; 32], &[9; 32], &d), Err(Error::IdentityUnexpected));
}

#[test]
fn test_spend_proof_verification_success() {
    let proof = spend_proof();
    assert_eq!(proof.merkle_path.len(), MERKLE_DEPTH);
    assert_eq!(MERKLE_DEPTH, 32);
    assert!(proof.verify(&[12; 32], &[8; 32], &[13; 32], &[14; 32], &spend_derivation()).is_ok());
}

#[test]
fn test_spend_proof_verification_merkle_path_integrity_failure() {
    let proof = spend_proof();
    // a path that leads elsewhere than the anchor
    assert_eq!(proof.verify(&[120; 32], &[8; 32], &[13; 32], &[14; 32], &spend_derivation()), Err(Error::MerkleRootMismatch));
    let mut short = spend_proof();
    short.merkle_path.pop();
    assert_eq!(short.verify(&[12; 32], &[8; 32], &[13; 32], &[14; 32], &spend_derivation()), Err(Error::MerklePathMismatch));
}

#[test]
fn test_spend_proof_verification_value_commitment_integrity_failure() {
    let proof = spend_proof();
    assert_eq!(proof.verify(&[12; 32], &[80; 32], &[13; 32], &[14; 32], &spend_derivation()), Err(Error::ValueCommitmentMismatch));
}

#[test]
fn test_spend_proof_verification_nullifier_integrity_failure() {
    let proof = spend_proof();
    // a nullifier derived at another position
    assert_eq!(proof.verify(&[12; 32], &[8; 32], &[130; 32], &[14; 32], &spend_derivation()), Err(Error::BadNullifier));
}

#[test]
fn spend_proof_rejects_each_tampered_binding() {
    let proof = spend_proof();
    let mut tampered = spend_proof();
    tampered.note_commitment = [71; 32];
    assert_eq!(tampered.verify(&[12; 32], &[8; 32], &[13; 32], &[14; 32], &spend_derivation()), Err(Error::NoteCommitmentMismatch));
    let mut d = spend_derivation();
    d.ak_is_identity = true;
    d.rk = [0; 32];
    d.diversified_pk_d = [0; 32];
    assert_eq!(proof.verify(&[12; 32], &[8; 32], &[13; 32], &[14; 32], &d), Err(Error::IdentityUnexpected));
    assert_eq!(proof.verify(&[12; 32], &[8; 32], &[13; 32], &[140; 32], &spend_derivation()), Err(Error::InvalidSpendAuthRandomizer));
    let mut d = spend_derivation();
    d.diversified_pk_d = [20; 32];
    assert_eq!(proof.verify(&[12; 32], &[8; 32], &[13; 32], &[14; 32], &d), Err(Error::InvalidDiversifiedAddress));
    let mut d = spend_derivation();
    d.note_commitment = None;
    assert_eq!(proof.verify(&[12; 32], &[8; 32], &[13; 32], &[14; 32], &d), Err(Error::TransmissionKeyMismatch));
}

#[test]
fn merkle_path_sides_follow_position_bits() {
    assert!(!sibling_is_left(0b1010, 0));
    assert!(sibling_is_left(0b1010, 1));
    assert!(sibling_is_left(0b1010, 3));
    assert!(!sibling_is_left(0b1010, 63));
    assert!(sibling_is_left(u64::MAX, 63));
}

#[test]
fn spend_proof_payload_round_trip() {
    let mut proof = spend_proof();
    proof.merkle_path[3] = [33; 32];
    proof.position = 77;
    let payload = proof.to_payload();
    assert_eq!(payload.g_d, vec![1; 32]);
    assert_eq!(payload.merkle_path_siblings[3], vec![33; 32]);
    let back = SpendProof::from_payload(&payload).unwrap();
    assert_eq!(back.merkle_path, proof.merkle_path);
    assert_eq!(back.position, 77);
    assert_eq!(back.nk, proof.nk);
    assert_eq!(back.note_commitment, proof.note_commitment);
}

#[test]
fn spend_proof_payload_with_short_field_is_malformed() {
    let mut payload = spend_proof().to_payload();
    payload.ak.pop();
    assert_eq!(SpendProof::from_payload(&payload).err(), Some(Error::ProtoMalformed));
    let mut payload = spend_proof().to_payload();
    payload.merkle_path_siblings[0].push(0);
    assert_eq!(SpendProof::from_payload(&payload).err(), Some(Error::ProtoMalformed));
}

#[test]
fn output_proof_payload_round_trip() {
    let proof = output_proof();
    let payload = proof.to_payload();
    assert_eq!(payload.esk, vec![6; 32]);
    let back = OutputProof::from_payload(&payload).unwrap();
    assert_eq!(back.esk, proof.esk);
    assert_eq!(back.g_d, proof.g_d);
    assert_eq!(back.value_amount, 10);
    let mut bad = proof.to_payload();
    bad.esk = vec![];
    assert_eq!(OutputProof::from_payload(&bad).err(), Some(Error::ProtoMalformed));
    assert_eq!(bytes_32(&vec![5; 31]), None);
    assert_eq!(bytes_32(&vec![5; 32]), Some([5; 32]));
}

#[test]
fn spend_proof_with_identity_base_is_refused_first() {
    let mut proof = spend_proof();
    proof.g_d = [0; 32];
    let mut d = spend_derivation();
    d.g_d_is_identity = true;
    d.note_commitment = Some([70; 32]);
    d.diversified_pk_d = [0; 32];
    assert_eq!(proof.verify(&[12; 32], &[8; 32], &[13; 32], &[14; 32], &d), Err(Error::IdentityUnexpected));
}
