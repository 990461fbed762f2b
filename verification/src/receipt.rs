//! Checking a proving run's receipt and decoding its committed output.
//!
//! A receipt is an opaque proof artifact plus the journal bytes the guest
//! committed, cryptographically bound to one guest program.  The program
//! identity is explicit configuration here: the verifier passes the
//! expected identity in, and receipts bound to any other program are
//! rejected.  The proof check itself is the verifiable-computation
//! engine's work, behind a trusted wrapper; interpreting the journal is
//! verified code.

use crate::output::{parse_output, PublicOutput};
use vstd::prelude::*;

verus! {

/// Whether the engine accepts the serialized receipt as a proof of the
/// program with the given identity words.  Deterministic in the bytes
/// and the identity.
pub uninterp spec fn receipt_accepted(bytes: Seq<u8>, image_id: Seq<u32>) -> bool;

/// The journal bytes carried by a serialized receipt, a function of the
/// bytes alone.
pub uninterp spec fn receipt_journal(bytes: Seq<u8>) -> Seq<u8>;

/// Relies on borsh deserialization of `risc0_zkvm::Receipt` and on
/// `Receipt::verify_with_context` with dev-mode explicitly disabled:
/// both are deterministic in the receipt bytes and the program identity,
/// and the journal is part of the receipt itself.
#[verifier::external_body]
fn check_receipt(bytes: &Vec<u8>, image_id: &[u32; 8]) -> (r: Option<Vec<u8>>)
    ensures
        r is Some <==> receipt_accepted(bytes@, image_id@),
        r is Some ==> r.unwrap()@ == receipt_journal(bytes@),
{
    let receipt: risc0_zkvm::Receipt = match borsh::from_slice(bytes.as_slice()) {
        Ok(rec) => rec,
        Err(_) => {
            return None;
        },
    };
    let ctx = risc0_zkvm::VerifierContext::default().with_dev_mode(false);
    let digest = risc0_zkvm::sha::Digest::new(*image_id);
    match receipt.verify_with_context(&ctx, digest) {
        Ok(()) => Some(receipt.journal.bytes),
        Err(_) => None,
    }
}

/// Why verification failed: the proof is not valid for the expected
/// program, or the journal does not decode as a committed output — the
/// latter an integrity bug between prover and verifier, not a user
/// error.
#[derive(Clone, Copy, Debug, PartialEq, Eq, Structural)]
pub enum VerifyError {
    ProofRejected,
    OutputDecodeFailure,
}

/// Verifies a serialized receipt against the expected guest program
/// identity and decodes the committed output.  Never panics, whatever
/// the bytes: corruption surfaces as an explicit error.
pub fn verify_receipt(bytes: &Vec<u8>, image_id: &[u32; 8]) -> (r: Result<
    PublicOutput,
    VerifyError,
>)
    ensures
        (match r {
            Ok(out) => receipt_accepted(bytes@, image_id@) && parse_output(
                receipt_journal(bytes@),
            ) == Some(out@),
            Err(VerifyError::ProofRejected) => !receipt_accepted(bytes@, image_id@),
            Err(VerifyError::OutputDecodeFailure) => receipt_accepted(bytes@, image_id@)
                && parse_output(receipt_journal(bytes@)) is None,
        }),
{
    let journal = match check_receipt(bytes, image_id) {
        Some(j) => j,
        None => {
            return Err(VerifyError::ProofRejected);
        },
    };
    match crate::output::decode_output(&journal) {
        Some(out) => Ok(out),
        None => Err(VerifyError::OutputDecodeFailure),
    }
}

} // verus!
