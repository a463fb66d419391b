//! The records that drive the ledger.

use vstd::prelude::*;

verus! {

/// What a record asks the ledger to do.
#[derive(Debug, Clone, Copy, PartialEq, Eq, Structural)]
pub enum TypeTx {
    Deposit,
    Withdrawal,
    Dispute,
    Resolve,
    Chargeback,
}

/// One record of the input stream.
///
/// `amount` is read for deposits and withdrawals only; a missing amount
/// counts as zero.
#[derive(Debug, Clone, Copy)]
pub struct Tx {
    pub kind: TypeTx,
    pub client: u16,
    pub tx: u64,
    pub amount: Option<i64>,
}

impl Tx {
    /// The amount the record carries, zero where it carries none.
    pub open spec fn amount_or_zero(self) -> i64 {
        match self.amount {
            Some(amount) => amount,
            None => 0,
        }
    }
}

} // verus!
