//! The prover dispatcher: turning an execution result into a proof, locally
//! or through a remote proving service, behind one interface.
//!
//! The engine does not model the zero-knowledge backend; a proof here is the
//! binding between a transaction id and the commitment of the witness it
//! proves, which is what the submission pipeline checks. Local proving
//! computes that binding directly. Remote proving sends the witness out —
//! that call lives outside the engine — and what came back is classified
//! here: an unreachable service is retryable (`ProverUnavailable`), a
//! rejection or a proof for the wrong witness is not (`ProofRejected`).
//! Both paths yield proofs that submission accepts for the same execution
//! result: see [`lemma_prover_agnostic`].
use vstd::prelude::*;
use crate::digest::{digest_words, spec_digest};
use crate::executor::{ExecutionResult, ExecutionResultV};
use crate::types::EngineError;

verus! {

/// A validity proof, as the engine sees it: which transaction it proves and
/// the commitment of the witness it proves it for.
#[derive(Clone, Copy, PartialEq, Eq, Structural, Debug)]
pub struct Proof {
    pub tx_id: u64,
    pub witness_commitment: u64,
}

/// Commitment of an execution result: the digest of its identifying fields.
pub open spec fn spec_witness_commitment(r: ExecutionResultV) -> u64 {
    spec_digest(
        seq![
            r.tx_id,
            r.account_id.prefix,
            r.account_id.suffix,
            r.old_nonce,
            r.account_after.nonce,
            r.created_notes.len() as u64,
            r.consumed_notes.len() as u64,
        ],
    )
}

/// The proof the local prover produces for a result.
pub open spec fn spec_local_proof(r: ExecutionResultV) -> Proof {
    Proof { tx_id: r.tx_id, witness_commitment: spec_witness_commitment(r) }
}

/// Whether a proof proves exactly this execution result: the acceptance
/// check of the submission pipeline.
pub open spec fn spec_proof_matches(p: Proof, r: ExecutionResultV) -> bool {
    p.tx_id == r.tx_id && p.witness_commitment == spec_witness_commitment(r)
}

/// Computes the witness commitment of an execution result.
pub fn witness_commitment_of(result: &ExecutionResult) -> (c: u64)
    ensures
        c == spec_witness_commitment(result@),
{
    let mut ws: Vec<u64> = Vec::new();
    ws.push(result.tx_id);
    ws.push(result.account_id.prefix);
    ws.push(result.account_id.suffix);
    ws.push(result.old_nonce);
    ws.push(result.account_after.nonce);
    ws.push(result.created_notes.len() as u64);
    ws.push(result.consumed_notes.len() as u64);
    proof {
        assert(ws@ =~= seq![
            result@.tx_id,
            result@.account_id.prefix,
            result@.account_id.suffix,
            result@.old_nonce,
            result@.account_after.nonce,
            result@.created_notes.len() as u64,
            result@.consumed_notes.len() as u64,
        ]);
    }
    digest_words(&ws)
}

/// Proves an execution result locally: the proof binds the transaction id to
/// the witness commitment, so submission accepts it.
pub fn prove_local(result: &ExecutionResult) -> (p: Proof)
    ensures
        p == spec_local_proof(result@),
        spec_proof_matches(p, result@),
{
    let witness_commitment = witness_commitment_of(result);
    Proof { tx_id: result.tx_id, witness_commitment }
}

/// What one remote proving call came back with: a claimed proof, an
/// unreachable or overloaded service, or an explicit rejection of the
/// witness.
#[derive(Clone, Copy, PartialEq, Eq, Structural, Debug)]
pub enum RemoteProverOutcome {
    Proof { tx_id: u64, witness_commitment: u64 },
    Unavailable,
    Rejected,
}

/// Classification of a remote outcome for one execution result.
pub open spec fn spec_accept_remote(r: ExecutionResultV, outcome: RemoteProverOutcome) -> Result<
    Proof,
    EngineError,
> {
    match outcome {
        RemoteProverOutcome::Unavailable => Err(EngineError::ProverUnavailable),
        RemoteProverOutcome::Rejected => Err(EngineError::ProofRejected),
        RemoteProverOutcome::Proof { tx_id, witness_commitment } => {
            let p = Proof { tx_id, witness_commitment };
            if spec_proof_matches(p, r) {
                Ok(p)
            } else {
                Err(EngineError::ProofRejected)
            }
        },
    }
}

/// Classifies what a remote prover returned for this execution result.
///
/// An unreachable service is `ProverUnavailable` and worth retrying; an
/// explicit rejection, or a proof that does not bind this transaction and
/// witness, is `ProofRejected` — the witness itself must change. A proof is
/// returned exactly when submission would accept it.
pub fn accept_remote_proof(result: &ExecutionResult, outcome: RemoteProverOutcome) -> (r: Result<
    Proof,
    EngineError,
>)
    ensures
        match r {
            Ok(p) => spec_accept_remote(result@, outcome) == Ok::<Proof, EngineError>(p)
                && spec_proof_matches(p, result@),
            Err(e) => spec_accept_remote(result@, outcome) == Err::<Proof, EngineError>(e),
        },
{
    match outcome {
        RemoteProverOutcome::Unavailable => Err(EngineError::ProverUnavailable),
        RemoteProverOutcome::Rejected => Err(EngineError::ProofRejected),
        RemoteProverOutcome::Proof { tx_id, witness_commitment } => {
            let p = Proof { tx_id, witness_commitment };
            if verify_proof(&p, result) {
                Ok(p)
            } else {
                Err(EngineError::ProofRejected)
            }
        },
    }
}

/// Checks whether a proof proves exactly this execution result.
pub fn verify_proof(p: &Proof, result: &ExecutionResult) -> (b: bool)
    ensures
        b == spec_proof_matches(*p, result@),
{
    let c = witness_commitment_of(result);
    p.tx_id == result.tx_id && p.witness_commitment == c
}

/// Where a proof comes from: the local prover, or a remote proving service
/// whose call the caller has already made — its outcome is carried in.
#[derive(Clone, Copy, PartialEq, Eq, Structural, Debug)]
pub enum ProverDispatch {
    Local,
    Remote { outcome: RemoteProverOutcome },
}

/// Proves an execution result through either prover, behind one interface:
/// callers never need to know which prover ran. The local path always
/// produces the binding proof; the remote path classifies what the service
/// returned. Every proof returned passes the acceptance check of
/// submission.
pub fn prove(result: &ExecutionResult, dispatch: ProverDispatch) -> (r: Result<
    Proof,
    EngineError,
>)
    ensures
        match dispatch {
            ProverDispatch::Local => r == Ok::<Proof, EngineError>(spec_local_proof(result@)),
            ProverDispatch::Remote { outcome } => r == spec_accept_remote(result@, outcome),
        },
        r is Ok ==> spec_proof_matches(r->Ok_0, result@),
{
    match dispatch {
        ProverDispatch::Local => Ok(prove_local(result)),
        ProverDispatch::Remote { outcome } => accept_remote_proof(result, outcome),
    }
}

/// Round trip: a proof produced locally for any execution result passes
/// verification against that result.
pub proof fn lemma_prove_verify_round_trip(r: ExecutionResultV)
    ensures
        spec_proof_matches(spec_local_proof(r), r),
{
}

/// Prover-agnostic dispatch: for one execution result, the local proof and
/// any accepted remote proof both pass the acceptance check that submission
/// applies — the caller never needs to know which prover ran.
pub proof fn lemma_prover_agnostic(
    r: ExecutionResultV,
    outcome: RemoteProverOutcome,
    remote: Proof,
)
    requires
        spec_accept_remote(r, outcome) == Ok::<Proof, EngineError>(remote),
    ensures
        spec_proof_matches(spec_local_proof(r), r),
        spec_proof_matches(remote, r),
        remote == spec_local_proof(r),
{
}

} // verus!
