//! Deterministic test inputs for a bridge claim note.
//!
//! Claiming a bridged deposit needs two sparse-merkle-tree proofs against
//! the exit roots, the leaf's coordinates and the destination data. The
//! fixture below fills all of them with fixed, recognizable values, so that
//! a claim can be assembled and checked without a live bridge.
use vstd::prelude::*;

verus! {

/// The proof node at one level of a mock sparse-merkle-tree proof: the level
/// tag in the first byte, zero elsewhere.
pub open spec fn spec_proof_node(b: u8) -> Seq<u8> {
    Seq::new(32, |j: int| if j == 0 { b } else { 0u8 })
}

/// Builds the fixed claim-note test inputs, in order: the local exit-root
/// proof (32 nodes, node `i` tagged `i`), the rollup exit-root proof (32
/// nodes, node `i` tagged `i + 32`), the global index (one), the mainnet
/// exit root (all ones), the rollup exit root (all twos), the origin
/// network (zero), the origin token address (all threes), the destination
/// network (one), and empty metadata.
pub fn claim_note_test_inputs() -> (r: (
    Vec<[u8; 32]>,  // smt_proof_local_exit_root
    Vec<[u8; 32]>,  // smt_proof_rollup_exit_root
    u32,  // global_index
    [u8; 32],  // mainnet_exit_root
    [u8; 32],  // rollup_exit_root
    u32,  // origin_network
    [u8; 20],  // origin_token_address
    u32,  // destination_network
    Vec<u8>,  // metadata
))
    ensures
        r.0@.len() == 32,
        forall|i: int| 0 <= i < 32 ==> (#[trigger] r.0@[i])@ == spec_proof_node(i as u8),
        r.1@.len() == 32,
        forall|i: int| 0 <= i < 32 ==> (#[trigger] r.1@[i])@ == spec_proof_node((i + 32) as u8),
        r.2 == 1u32,
        forall|j: int| 0 <= j < 32 ==> r.3@[j] == 1u8,
        forall|j: int| 0 <= j < 32 ==> r.4@[j] == 2u8,
        r.5 == 0u32,
        forall|j: int| 0 <= j < 20 ==> r.6@[j] == 3u8,
        r.7 == 1u32,
        r.8@.len() == 0,
{
    let mut smt_proof_local: Vec<[u8; 32]> = Vec::new();
    let mut i: usize = 0;
    while i < 32
        invariant
            0 <= i <= 32,
            smt_proof_local@.len() == i as int,
            forall|k: int|
                0 <= k < i ==> (#[trigger] smt_proof_local@[k])@ == spec_proof_node(k as u8),
        decreases 32 - i,
    {
        let mut bytes = [0u8; 32];
        bytes[0] = i as u8;
        proof {
            assert(bytes@ =~= spec_proof_node(i as u8));
        }
        smt_proof_local.push(bytes);
        i = i + 1;
    }

    let mut smt_proof_rollup: Vec<[u8; 32]> = Vec::new();
    let mut m: usize = 0;
    while m < 32
        invariant
            0 <= m <= 32,
            smt_proof_rollup@.len() == m as int,
            forall|k: int|
                0 <= k < m ==> (#[trigger] smt_proof_rollup@[k])@ == spec_proof_node(
                    (k + 32) as u8,
                ),
        decreases 32 - m,
    {
        let mut bytes = [0u8; 32];
        bytes[0] = (m + 32) as u8;
        proof {
            assert(bytes@ =~= spec_proof_node((m + 32) as u8));
        }
        smt_proof_rollup.push(bytes);
        m = m + 1;
    }

    (
        smt_proof_local,
        smt_proof_rollup,
        1,
        [1u8; 32],
        [2u8; 32],
        0,
        [3u8; 20],
        1,
        Vec::new(),
    )
}

} // verus!
