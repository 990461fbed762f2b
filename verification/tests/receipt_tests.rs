//! Receipt verification: corrupted and counterfeit receipts fail
//! cleanly, and serialization round trips preserve the verdict.

use zkpod::claims::CustomClaims;
use zkpod::output::{encode_output, PublicOutput};
use zkpod::receipt::{verify_receipt, VerifyError};

const IMAGE_ID: [u32; 8] = [7, 11, 13, 17, 19, 23, 29, 31];

fn counterfeit_receipt_bytes() -> Vec<u8> {
    let mut claims = CustomClaims::new();
    claims.add("reference".to_string(), "r1".to_string(), false);
    let out = PublicOutput { pks: vec!["key".to_string()], claims };
    let journal = encode_output(&out);
    let claim = risc0_zkvm::ReceiptClaim::ok(risc0_zkvm::sha::Digest::new(IMAGE_ID), journal);
    let fake = risc0_zkvm::FakeReceipt::new(claim);
    let receipt: risc0_zkvm::Receipt = fake.try_into().expect("journal present");
    borsh::to_vec(&receipt).expect("receipt serializes")
}

#[test]
fn garbage_bytes_are_rejected_not_a_crash() {
    assert_eq!(verify_receipt(&vec![], &IMAGE_ID).unwrap_err(), VerifyError::ProofRejected);
    assert_eq!(
        verify_receipt(&vec![0xde, 0xad, 0xbe, 0xef], &IMAGE_ID).unwrap_err(),
        VerifyError::ProofRejected
    );
}

#[test]
fn counterfeit_proof_is_rejected() {
    // A receipt whose claim looks right but whose proof is absent must be
    // rejected: only the engine's cryptographic check admits a receipt.
    let bytes = counterfeit_receipt_bytes();
    assert_eq!(verify_receipt(&bytes, &IMAGE_ID).unwrap_err(), VerifyError::ProofRejected);
}

#[test]
fn serialization_round_trip_preserves_verdict() {
    let bytes = counterfeit_receipt_bytes();
    let before = verify_receipt(&bytes, &IMAGE_ID);
    let receipt: risc0_zkvm::Receipt = borsh::from_slice(&bytes).expect("round trip");
    let again = borsh::to_vec(&receipt).expect("serializes again");
    assert_eq!(again, bytes);
    let after = verify_receipt(&again, &IMAGE_ID);
    assert!(matches!(before, Err(VerifyError::ProofRejected)));
    assert!(matches!(after, Err(VerifyError::ProofRejected)));
}

#[test]
fn every_single_byte_flip_still_fails_cleanly() {
    let bytes = counterfeit_receipt_bytes();
    for i in 0..bytes.len() {
        let mut tampered = bytes.clone();
        tampered[i] ^= 0x01;
        assert!(verify_receipt(&tampered, &IMAGE_ID).is_err());
    }
}
