//! Foreign-account planning for a decentralized oracle.
//!
//! The oracle account's storage lists its data publishers: slot one holds
//! the publisher count, and the following slots hold one publisher account
//! id each, packed into a word. Reading a price goes through a nested
//! foreign-procedure call into every publisher, so a transaction against the
//! oracle needs a foreign read of each publisher's price map — keyed by the
//! trading pair — plus the oracle account itself. This module derives that
//! plan from a synced oracle record; importing the accounts over the network
//! is the caller's business.
use vstd::prelude::*;
use crate::account::{AccountRecord, AccountRecordV, spec_get_item};
use crate::builder::ForeignRead;
use crate::types::{AccountId, EngineError, Word4};

verus! {

/// The storage-map key under which a publisher stores a trading pair.
pub open spec fn spec_pair_key(trading_pair: u64) -> Word4 {
    Word4 { e0: 0u64, e1: 0u64, e2: 0u64, e3: trading_pair }
}

/// The publisher count an oracle record declares, from storage slot one.
pub open spec fn spec_publisher_count(a: AccountRecordV) -> Option<u64> {
    match spec_get_item(a.storage, 1) {
        Some(w) => Some(w.e0),
        None => None,
    }
}

/// The foreign read of the publisher stored at offset `i` behind the count
/// slot: its account id is packed into the last two elements of the word,
/// and its price map is read at slot one under the trading pair's key.
pub open spec fn spec_publisher_read(a: AccountRecordV, i: int, trading_pair: u64) -> Option<
    ForeignRead,
> {
    match spec_get_item(a.storage, 2 + i) {
        Some(w) => Some(
            ForeignRead {
                account: AccountId { prefix: w.e3, suffix: w.e2 },
                slot_index: 1u8,
                map_key: Some(spec_pair_key(trading_pair)),
            },
        ),
        None => None,
    }
}

/// How many publishers the plan covers for a declared count: the entries at
/// offsets one through count minus two.
pub open spec fn spec_publisher_span(count: u64) -> int {
    if count >= 2 {
        count - 2
    } else {
        0
    }
}

/// Whether the oracle record declares a readable publisher table.
pub open spec fn spec_oracle_ok(a: AccountRecordV) -> bool {
    &&& spec_publisher_count(a) is Some
    &&& forall|i: int|
        1 <= i < spec_publisher_count(a)->Some_0 - 1 ==> #[trigger] spec_get_item(
            a.storage,
            2 + i,
        ) is Some
}

/// The foreign accounts a price read must pull: one read per publisher, and
/// the oracle itself.
pub struct OracleAccessPlan {
    pub publisher_reads: Vec<ForeignRead>,
    pub oracle: AccountId,
}

/// Derives the foreign-account plan for reading a trading pair through the
/// oracle: the publisher list from the oracle's storage, each with a read of
/// its price map under the pair's key, plus the oracle account itself.
/// Fails with `NotFound` exactly when the count slot or a listed publisher
/// slot is missing or not scalar — the record is not synced far enough.
pub fn get_oracle_foreign_accounts(
    oracle_record: &AccountRecord,
    oracle_id: AccountId,
    trading_pair: u64,
) -> (r: Result<OracleAccessPlan, EngineError>)
    ensures
        (r is Ok) == spec_oracle_ok(oracle_record@),
        match r {
            Ok(plan) => {
                &&& plan.oracle == oracle_id
                &&& plan.publisher_reads@.len() == spec_publisher_span(
                    spec_publisher_count(oracle_record@)->Some_0,
                )
                &&& forall|k: int|
                    0 <= k < plan.publisher_reads@.len() ==> Some(
                        #[trigger] plan.publisher_reads@[k],
                    ) == spec_publisher_read(oracle_record@, k + 1, trading_pair)
            },
            Err(e) => e == EngineError::NotFound,
        },
{
    let count_word = match oracle_record.get_item(1) {
        Some(w) => w,
        None => {
            return Err(EngineError::NotFound);
        },
    };
    let publisher_count = count_word.e0;
    let last = if publisher_count >= 1 {
        publisher_count - 1
    } else {
        0
    };
    let pair_key = Word4 { e0: 0, e1: 0, e2: 0, e3: trading_pair };
    let mut publisher_reads: Vec<ForeignRead> = Vec::new();
    let mut i: u64 = 1;
    while i < last
        invariant
            1 <= i,
            i <= last || i == 1,
            spec_publisher_count(oracle_record@) == Some(publisher_count),
            last == (if publisher_count >= 1 { (publisher_count - 1) as u64 } else { 0u64 }),
            pair_key == spec_pair_key(trading_pair),
            publisher_reads@.len() == i - 1,
            forall|k: int|
                0 <= k < publisher_reads@.len() ==> Some(#[trigger] publisher_reads@[k])
                    == spec_publisher_read(oracle_record@, k + 1, trading_pair),
            forall|k: int|
                1 <= k < i && k < last ==> #[trigger] spec_get_item(
                    oracle_record@.storage,
                    2 + k,
                ) is Some,
        decreases last - i,
    {
        let word = match oracle_record.get_item_u64(2 + i) {
            Some(w) => w,
            None => {
                proof {
                    assert(spec_get_item(oracle_record@.storage, 2 + i as int) is None);
                    assert(!spec_oracle_ok(oracle_record@));
                }
                return Err(EngineError::NotFound);
            },
        };
        let read = ForeignRead {
            account: AccountId { prefix: word.e3, suffix: word.e2 },
            slot_index: 1,
            map_key: Some(pair_key),
        };
        publisher_reads.push(read);
        i = i + 1;
    }
    proof {
        assert(spec_oracle_ok(oracle_record@));
        assert(publisher_reads@.len() == spec_publisher_span(publisher_count));
    }
    Ok(OracleAccessPlan { publisher_reads, oracle: oracle_id })
}

} // verus!
