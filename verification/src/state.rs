//! The state machine of one client, as mathematics.
//!
//! A [`ClientState`] is what a client's account and history stand for, and
//! the functions here say what each kind of record does to it. The
//! executable ledger is specified against them.

use vstd::prelude::*;
use crate::account::Balances;
use crate::record::{Tx, TypeTx};
use crate::tally::sum_all;

verus! {

/// A deposit as the history remembers it.
#[derive(Debug, Clone, Copy)]
pub struct ClientTransaction {
    pub amount: i64,
    pub in_dispute: bool,
}

/// The deposits of one client, by transaction identifier.
pub type History = Map<u64, ClientTransaction>;

/// What a disputed deposit adds to the held funds: its amount while it is
/// in dispute, nothing otherwise.
pub open spec fn disputed_weight(history: History) -> spec_fn(u64) -> int {
    |id: u64|
        if history.contains_key(id) && history[id].in_dispute {
            history[id].amount as int
        } else {
            0
        }
}

/// The amounts of all deposits that are in dispute, added up.
pub open spec fn disputed(history: History) -> int {
    sum_all(disputed_weight(history))
}

/// The most that an identifier can still bring in: nothing once a deposit
/// has used it, the largest amount a record can carry until then.
pub open spec fn vacancy_weight(history: History) -> spec_fn(u64) -> int {
    |id: u64|
        if history.contains_key(id) {
            0
        } else {
            i64::MAX as int
        }
}

/// The most that all deposits still to come can add to the total.
pub open spec fn headroom(history: History) -> int {
    sum_all(vacancy_weight(history))
}

/// No deposit in the history has a negative amount.
pub open spec fn amounts_nonnegative(history: History) -> bool {
    forall|id: u64| history.contains_key(id) ==> 0 <= (#[trigger] history[id]).amount
}

/// The balances and the history of one client.
pub struct ClientState {
    pub acc: Balances,
    pub history: History,
}

impl ClientState {
    /// The state of a client that no record has touched yet.
    pub open spec fn fresh(client: u16) -> ClientState {
        ClientState { acc: Balances::zero(client), history: Map::empty() }
    }

    /// The states the ledger works on.
    ///
    /// The total is what is available plus what is held. What is held is
    /// never negative and never more than what is in dispute, and is exactly
    /// that until the account is locked. What is available never falls below
    /// the negated amount in dispute. The total leaves room, within an
    /// `i128`, for every deposit that can still arrive.
    pub open spec fn wf(self) -> bool {
        &&& amounts_nonnegative(self.history)
        &&& self.acc.balanced()
        &&& 0 <= self.acc.held <= disputed(self.history)
        &&& !self.acc.locked ==> self.acc.held == disputed(self.history)
        &&& 0 <= self.acc.available + disputed(self.history)
        &&& self.acc.total + headroom(self.history) <= i128::MAX
    }

    /// The deposit recorded under `id`, if there is one.
    pub open spec fn entry(self, id: u64) -> Option<ClientTransaction> {
        if self.history.contains_key(id) {
            Some(self.history[id])
        } else {
            None
        }
    }

    /// Whether `id` names a deposit that is in dispute.
    pub open spec fn is_disputed(self, id: u64) -> bool {
        self.history.contains_key(id) && self.history[id].in_dispute
    }

    /// Whether `id` names a deposit that is not in dispute.
    pub open spec fn is_settled(self, id: u64) -> bool {
        self.history.contains_key(id) && !self.history[id].in_dispute
    }

    /// Whether a deposit or withdrawal is looked at at all: the account is
    /// not locked, no deposit has used the identifier, and the amount is
    /// not negative.
    pub open spec fn admits(self, tx: Tx) -> bool {
        &&& !self.acc.locked
        &&& !self.history.contains_key(tx.tx)
        &&& 0 <= tx.amount_or_zero()
    }

    /// The state with `amount` added to the available funds and the total,
    /// and remembered under `id`.
    pub open spec fn credited(self, id: u64, amount: i64) -> ClientState {
        ClientState {
            acc: Balances {
                available: self.acc.available + amount,
                total: self.acc.total + amount,
                ..self.acc
            },
            history: self.history.insert(id, ClientTransaction { amount, in_dispute: false }),
        }
    }

    /// The state with `amount` taken from the available funds and the total.
    pub open spec fn debited(self, amount: i64) -> ClientState {
        ClientState {
            acc: Balances {
                available: self.acc.available - amount,
                total: self.acc.total - amount,
                ..self.acc
            },
            ..self
        }
    }

    /// What a deposit or withdrawal leaves behind.
    ///
    /// A deposit that is admitted is credited. A withdrawal that is admitted
    /// is debited if strictly more than its amount is available. Everything
    /// else changes nothing.
    pub open spec fn process(self, tx: Tx) -> ClientState {
        if !self.admits(tx) {
            self
        } else {
            match tx.kind {
                TypeTx::Deposit => self.credited(tx.tx, tx.amount_or_zero()),
                TypeTx::Withdrawal => if self.acc.available > tx.amount_or_zero() {
                    self.debited(tx.amount_or_zero())
                } else {
                    self
                },
                _ => self,
            }
        }
    }

    /// What a dispute of `id` leaves behind: a deposit that is not in
    /// dispute moves from the available funds to the held ones and is
    /// marked; anything else changes nothing. A lock does not stop it.
    pub open spec fn dispute(self, id: u64) -> ClientState {
        if self.is_settled(id) {
            let amount = self.history[id].amount;
            ClientState {
                acc: Balances {
                    available: self.acc.available - amount,
                    held: self.acc.held + amount,
                    ..self.acc
                },
                history: self.history.insert(id, ClientTransaction { amount, in_dispute: true }),
            }
        } else {
            self
        }
    }

    /// What a resolve of `id` leaves behind: on an unlocked account a
    /// deposit in dispute moves back from the held funds to the available
    /// ones and is unmarked; anything else changes nothing.
    pub open spec fn resolve(self, id: u64) -> ClientState {
        if !self.acc.locked && self.is_disputed(id) {
            let amount = self.history[id].amount;
            ClientState {
                acc: Balances {
                    available: self.acc.available + amount,
                    held: self.acc.held - amount,
                    ..self.acc
                },
                history: self.history.insert(id, ClientTransaction { amount, in_dispute: false }),
            }
        } else {
            self
        }
    }

    /// What a chargeback of `id` leaves behind: on an unlocked account a
    /// deposit in dispute leaves the held funds and the total, and the
    /// account is locked; the deposit stays marked. Anything else changes
    /// nothing.
    pub open spec fn chargeback(self, id: u64) -> ClientState {
        if !self.acc.locked && self.is_disputed(id) {
            let amount = self.history[id].amount;
            ClientState {
                acc: Balances {
                    held: self.acc.held - amount,
                    total: self.acc.total - amount,
                    locked: true,
                    ..self.acc
                },
                ..self
            }
        } else {
            self
        }
    }

    /// What a record of any kind leaves behind.
    pub open spec fn apply(self, tx: Tx) -> ClientState {
        match tx.kind {
            TypeTx::Deposit | TypeTx::Withdrawal => self.process(tx),
            TypeTx::Dispute => self.dispute(tx.tx),
            TypeTx::Resolve => self.resolve(tx.tx),
            TypeTx::Chargeback => self.chargeback(tx.tx),
        }
    }
}

} // verus!
