//! Transaction records: the local mirror of a submitted transaction's
//! identity, status and note sets.
use vstd::prelude::*;
use crate::types::{AccountId, TransactionStatus, copy_vec};

verus! {

/// A locally tracked transaction: its id (a digest of inputs, outputs, script
/// and account), the account it ran against, its status, its ordered input
/// and output note ids, and the block at which it committed, if any.
pub struct TransactionRecord {
    pub id: u64,
    pub account: AccountId,
    pub status: TransactionStatus,
    pub input_notes: Vec<u64>,
    pub output_notes: Vec<u64>,
}

/// Mathematical view of [`TransactionRecord`].
#[verifier::ext_equal]
pub struct TransactionRecordV {
    pub id: u64,
    pub account: AccountId,
    pub status: TransactionStatus,
    pub input_notes: Seq<u64>,
    pub output_notes: Seq<u64>,
}

impl View for TransactionRecord {
    type V = TransactionRecordV;

    open spec fn view(&self) -> TransactionRecordV {
        TransactionRecordV {
            id: self.id,
            account: self.account,
            status: self.status,
            input_notes: self.input_notes@,
            output_notes: self.output_notes@,
        }
    }
}

/// Views of a transaction list.
pub open spec fn tx_views(s: Seq<TransactionRecord>) -> Seq<TransactionRecordV> {
    s.map_values(|t: TransactionRecord| t@)
}

impl TransactionRecord {
    /// Copies the record.
    pub fn duplicate(&self) -> (r: Self)
        ensures
            r@ == self@,
    {
        let r = TransactionRecord {
            id: self.id,
            account: self.account,
            status: self.status,
            input_notes: copy_vec(&self.input_notes),
            output_notes: copy_vec(&self.output_notes),
        };
        proof {
            assert(r@ =~= self@);
        }
        r
    }

    /// The block height recorded at commitment, if the transaction committed.
    pub fn commit_height(&self) -> (r: Option<u32>)
        ensures
            r == match self.status {
                TransactionStatus::Committed { block } => Some(block),
                _ => None::<u32>,
            },
    {
        match self.status {
            TransactionStatus::Committed { block } => Some(block),
            _ => None,
        }
    }
}

} // verus!
