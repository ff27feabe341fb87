//! Record commitments: a deterministic digest over a sequence of words.
//!
//! Note and transaction identity is a fixed-width digest of the record's
//! contents. The digest is a left fold of a multiply-xor mixing step, so it
//! is a pure function of the encoded record: equal contents give equal ids.
use vstd::prelude::*;

verus! {

/// Multiplier of the mixing step.
pub const DIGEST_MULTIPLIER: u64 = 0x100000001b3;

/// Initial digest state.
pub const DIGEST_SEED: u64 = 0xcbf29ce484222325;

/// One mixing step: fold one word into the running digest state.
pub open spec fn spec_mix(h: u64, w: u64) -> u64 {
    vstd::wrapping::u64_specs::wrapping_mul(h ^ w, DIGEST_MULTIPLIER)
}

/// Digest of a word sequence: the mixing step folded over the words.
pub open spec fn spec_digest(ws: Seq<u64>) -> u64
    decreases ws.len(),
{
    if ws.len() == 0 {
        DIGEST_SEED
    } else {
        spec_mix(spec_digest(ws.drop_last()), ws.last())
    }
}

/// Computes the commitment of an encoded record.
pub fn digest_words(ws: &Vec<u64>) -> (d: u64)
    ensures
        d == spec_digest(ws@),
{
    let mut h: u64 = DIGEST_SEED;
    let mut i: usize = 0;
    while i < ws.len()
        invariant
            0 <= i <= ws@.len(),
            h == spec_digest(ws@.take(i as int)),
        decreases ws@.len() - i,
    {
        h = (h ^ ws[i]).wrapping_mul(DIGEST_MULTIPLIER);
        proof {
            assert(ws@.take(i as int + 1).drop_last() =~= ws@.take(i as int));
            assert(ws@.take(i as int + 1).last() == ws@[i as int]);
        }
        i = i + 1;
    }
    proof {
        assert(ws@.take(ws@.len() as int) =~= ws@);
    }
    h
}

} // verus!
