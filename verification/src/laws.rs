//! What holds of the ledger whatever records arrive.

use vstd::prelude::*;
use crate::engine::{ledger_after, ledger_wf, state_of, Ledger};
use crate::record::{Tx, TypeTx};
use crate::wellformed::{lemma_apply_wf, lemma_fresh_wf};
use crate::state::{ClientState, ClientTransaction};

verus! {

/// The state that `records`, applied in order, lead to from `state`.
pub open spec fn replay(state: ClientState, records: Seq<Tx>) -> ClientState
    decreases records.len(),
{
    if records.len() == 0 {
        state
    } else {
        replay(state, records.drop_last()).apply(records.last())
    }
}

/// The ledger that `records`, applied in order, lead to from an empty one.
pub open spec fn ledger_replay(records: Seq<Tx>) -> Ledger
    decreases records.len(),
{
    if records.len() == 0 {
        Map::empty()
    } else {
        ledger_after(ledger_replay(records.drop_last()), records.last())
    }
}

/// Whatever records a client has seen, its state is well formed; so its
/// total is what is available plus what is held.
pub proof fn lemma_replay_wf(client: u16, records: Seq<Tx>)
    ensures
        replay(ClientState::fresh(client), records).wf(),
        replay(ClientState::fresh(client), records).acc.balanced(),
        replay(ClientState::fresh(client), records).acc.client == client,
    decreases records.len(),
{
    if records.len() == 0 {
        lemma_fresh_wf(client);
    } else {
        lemma_replay_wf(client, records.drop_last());
        lemma_apply_wf(replay(ClientState::fresh(client), records.drop_last()), records.last());
    }
}

/// One record leaves a well-formed ledger well formed.
pub proof fn lemma_ledger_step_wf(ledger: Ledger, tx: Tx)
    requires
        ledger_wf(ledger),
    ensures
        ledger_wf(ledger_after(ledger, tx)),
{
    lemma_fresh_wf(tx.client);
    lemma_apply_wf(state_of(ledger, tx.client), tx);
}

/// Whatever records have arrived, every client of the ledger is well
/// formed: its total is what is available plus what is held.
pub proof fn lemma_ledger_replay_wf(records: Seq<Tx>)
    ensures
        ledger_wf(ledger_replay(records)),
        forall|client: u16| #[trigger]
            ledger_replay(records).contains_key(client) ==> ledger_replay(
                records,
            )[client].acc.balanced(),
    decreases records.len(),
{
    if records.len() > 0 {
        lemma_ledger_replay_wf(records.drop_last());
        lemma_ledger_step_wf(ledger_replay(records.drop_last()), records.last());
    }
}

/// No record unlocks an account.
pub proof fn lemma_lock_survives_step(state: ClientState, tx: Tx)
    requires
        state.acc.locked,
    ensures
        state.apply(tx).acc.locked,
{
}

/// No run of records unlocks an account.
pub proof fn lemma_lock_survives_replay(state: ClientState, records: Seq<Tx>)
    requires
        state.acc.locked,
    ensures
        replay(state, records).acc.locked,
    decreases records.len(),
{
    if records.len() > 0 {
        lemma_lock_survives_replay(state, records.drop_last());
        lemma_lock_survives_step(replay(state, records.drop_last()), records.last());
    }
}

/// A client that is locked in a ledger is still there, and still locked,
/// after any further record.
pub proof fn lemma_lock_survives_in_ledger(ledger: Ledger, client: u16, tx: Tx)
    requires
        ledger.contains_key(client),
        ledger[client].acc.locked,
    ensures
        ledger_after(ledger, tx).contains_key(client),
        ledger_after(ledger, tx)[client].acc.locked,
{
}

/// Only a chargeback locks an account: a record that finds an account
/// unlocked and leaves it locked is a chargeback of a deposit in dispute.
pub proof fn lemma_only_chargeback_locks(state: ClientState, tx: Tx)
    requires
        !state.acc.locked,
        state.apply(tx).acc.locked,
    ensures
        tx.kind == TypeTx::Chargeback,
        state.is_disputed(tx.tx),
{
}

/// A record leaves every deposit of the history in place with its amount,
/// and adds at most one: a deposit record's own, under that record's
/// identifier, which was unused, and not in dispute.
pub proof fn lemma_history_grows_by_deposits(state: ClientState, tx: Tx)
    ensures
        forall|id: u64| #[trigger]
            state.history.contains_key(id) ==> state.apply(tx).history.contains_key(id)
                && state.apply(tx).history[id].amount == state.history[id].amount,
        forall|id: u64|
            !state.history.contains_key(id) && #[trigger] state.apply(tx).history.contains_key(id)
                ==> {
                &&& tx.kind == TypeTx::Deposit
                &&& id == tx.tx
                &&& state.admits(tx)
                &&& state.apply(tx).history[id] == ClientTransaction {
                    amount: tx.amount_or_zero(),
                    in_dispute: false,
                }
            },
{
}

/// A deposit or withdrawal under an identifier that a deposit has used
/// changes nothing.
pub proof fn lemma_used_id_changes_nothing(state: ClientState, tx: Tx)
    requires
        tx.kind == TypeTx::Deposit || tx.kind == TypeTx::Withdrawal,
        state.history.contains_key(tx.tx),
    ensures
        state.apply(tx) == state,
{
}

/// A withdrawal leaves no history entry, so the same identifier can be
/// withdrawn under again, and deposited under afterwards.
pub proof fn lemma_withdrawal_leaves_no_trace(state: ClientState, tx: Tx)
    requires
        tx.kind == TypeTx::Withdrawal,
    ensures
        state.apply(tx).history == state.history,
{
}

/// A withdrawal either changes nothing or takes an amount that is not
/// negative and strictly less than what was available, so that what is
/// available stays above zero. It never touches what is held.
pub proof fn lemma_withdrawal_keeps_funds(state: ClientState, tx: Tx)
    requires
        tx.kind == TypeTx::Withdrawal,
    ensures
        state.apply(tx) == state || {
            &&& state.admits(tx)
            &&& 0 <= tx.amount_or_zero() < state.acc.available
            &&& state.apply(tx) == state.debited(tx.amount_or_zero())
            &&& 0 < state.apply(tx).acc.available
        },
        state.apply(tx).acc.held == state.acc.held,
        0 <= state.acc.available ==> 0 <= state.apply(tx).acc.available,
{
}

/// A withdrawal of exactly what is available, or of more, changes nothing.
pub proof fn lemma_withdrawal_needs_more_than_amount(state: ClientState, tx: Tx)
    requires
        tx.kind == TypeTx::Withdrawal,
        state.acc.available <= tx.amount_or_zero(),
    ensures
        state.apply(tx) == state,
{
}

/// A deposit comes to be in dispute only through a dispute record that
/// names it, and only if it was recorded and not in dispute before.
pub proof fn lemma_dispute_starts_from_settled(state: ClientState, tx: Tx, id: u64)
    requires
        !state.is_disputed(id),
        state.apply(tx).is_disputed(id),
    ensures
        tx.kind == TypeTx::Dispute,
        tx.tx == id,
        state.is_settled(id),
{
}

/// A deposit leaves dispute only through a resolve record that names it,
/// on an unlocked account.
pub proof fn lemma_dispute_ends_by_resolve(state: ClientState, tx: Tx, id: u64)
    requires
        state.is_disputed(id),
        !state.apply(tx).is_disputed(id),
    ensures
        tx.kind == TypeTx::Resolve,
        tx.tx == id,
        !state.acc.locked,
        state.apply(tx).is_settled(id),
{
}

/// Disputing a deposit twice is disputing it once.
pub proof fn lemma_dispute_idempotent(state: ClientState, id: u64)
    ensures
        state.dispute(id).dispute(id) == state.dispute(id),
{
    assert(state.dispute(id).dispute(id) =~= state.dispute(id));
}

/// A dispute, resolve or chargeback that names no recorded deposit changes
/// nothing.
pub proof fn lemma_unknown_id_changes_nothing(state: ClientState, id: u64)
    requires
        !state.history.contains_key(id),
    ensures
        state.dispute(id) == state,
        state.resolve(id) == state,
        state.chargeback(id) == state,
{
}

/// A resolve or chargeback of a deposit that is not in dispute, or on a
/// locked account, changes nothing.
pub proof fn lemma_settlement_needs_open_dispute(state: ClientState, id: u64)
    requires
        state.acc.locked || !state.is_disputed(id),
    ensures
        state.resolve(id) == state,
        state.chargeback(id) == state,
{
}

/// On a locked account every record but a dispute changes nothing.
pub proof fn lemma_lock_blocks_all_but_dispute(state: ClientState, tx: Tx)
    requires
        state.acc.locked,
        tx.kind != TypeTx::Dispute,
    ensures
        state.apply(tx) == state,
{
}

/// On an unlocked account, resolving a dispute undoes it.
pub proof fn lemma_resolve_undoes_dispute(state: ClientState, id: u64)
    requires
        !state.acc.locked,
        state.is_settled(id),
    ensures
        state.dispute(id).resolve(id) == state,
{
    let entry = state.history[id];
    assert(entry == ClientTransaction { amount: entry.amount, in_dispute: false });
    assert(state.dispute(id).resolve(id).history =~= state.history);
}

/// A record changes at most two of the three balances, and a change of
/// any of them is one of the four moves of the ledger: a credit, a debit,
/// a transfer between what is available and what is held, or a release of
/// what is held.
pub proof fn lemma_step_is_compensating(state: ClientState, tx: Tx)
    ensures
        ({
            let next = state.apply(tx);
            let available = next.acc.available - state.acc.available;
            let held = next.acc.held - state.acc.held;
            let total = next.acc.total - state.acc.total;
            &&& total == available + held
            &&& available == 0 || held == 0 || total == 0
            &&& next.acc.client == state.acc.client
        }),
{
}

/// A record touches no client but the one it names.
pub proof fn lemma_step_is_local(ledger: Ledger, tx: Tx, other: u16)
    requires
        other != tx.client,
    ensures
        ledger_after(ledger, tx).contains_key(other) == ledger.contains_key(other),
        ledger.contains_key(other) ==> ledger_after(ledger, tx)[other] == ledger[other],
{
}

/// A record of any kind makes its client known to the ledger, and no
/// record makes the ledger forget a client.
pub proof fn lemma_clients_are_kept(ledger: Ledger, tx: Tx)
    ensures
        ledger_after(ledger, tx).contains_key(tx.client),
        forall|client: u16| #[trigger]
            ledger.contains_key(client) ==> ledger_after(ledger, tx).contains_key(client),
{
}

/// The state after the first `n` of `records`.
pub open spec fn state_after(state: ClientState, records: Seq<Tx>, n: int) -> ClientState {
    replay(state, records.subrange(0, n))
}

/// The state after one record more is the state before with that record
/// applied; the state after all records is the replay of them all.
pub proof fn lemma_state_after_step(state: ClientState, records: Seq<Tx>, n: int)
    requires
        0 <= n < records.len(),
    ensures
        state_after(state, records, 0) == state,
        state_after(state, records, n + 1) == state_after(state, records, n).apply(records[n]),
        state_after(state, records, records.len() as int) == replay(state, records),
{
    assert(records.subrange(0, n + 1).drop_last() =~= records.subrange(0, n));
    assert(records.subrange(0, records.len() as int) =~= records);
}

/// Once an account is locked it stays locked: if it is locked after the
/// first `i` records, it is locked after the first `j`, for every later `j`.
pub proof fn lemma_lock_is_monotonic(state: ClientState, records: Seq<Tx>, i: int, j: int)
    requires
        0 <= i <= j <= records.len(),
        state_after(state, records, i).acc.locked,
    ensures
        state_after(state, records, j).acc.locked,
    decreases j - i,
{
    if i < j {
        lemma_lock_is_monotonic(state, records, i, j - 1);
        lemma_state_after_step(state, records, j - 1);
    }
}

/// A deposit that is in the history after the first `i` records is there,
/// with the same amount, after the first `j`, for every later `j`.
pub proof fn lemma_history_is_monotonic(
    state: ClientState,
    records: Seq<Tx>,
    i: int,
    j: int,
    id: u64,
)
    requires
        0 <= i <= j <= records.len(),
        state_after(state, records, i).history.contains_key(id),
    ensures
        state_after(state, records, j).history.contains_key(id),
        state_after(state, records, j).history[id].amount == state_after(
            state,
            records,
            i,
        ).history[id].amount,
    decreases j - i,
{
    if i < j {
        lemma_history_is_monotonic(state, records, i, j - 1, id);
        lemma_state_after_step(state, records, j - 1);
        lemma_history_grows_by_deposits(state_after(state, records, j - 1), records[j - 1]);
    }
}

/// Whether record `n` of `records` is the one that put `id` into the
/// history: `id` was not there before it and is there after it.
pub open spec fn records_deposit(state: ClientState, records: Seq<Tx>, n: int, id: u64) -> bool {
    &&& 0 <= n < records.len()
    &&& !state_after(state, records, n).history.contains_key(id)
    &&& state_after(state, records, n + 1).history.contains_key(id)
}

/// The record that put `id` into the history is a deposit under `id` that
/// was admitted, and the history holds its amount from then on.
pub proof fn lemma_recorded_deposit(state: ClientState, records: Seq<Tx>, n: int, id: u64)
    requires
        records_deposit(state, records, n, id),
    ensures
        records[n].kind == TypeTx::Deposit,
        records[n].tx == id,
        state_after(state, records, n).admits(records[n]),
        replay(state, records).history.contains_key(id),
        replay(state, records).history[id].amount == records[n].amount_or_zero(),
{
    lemma_state_after_step(state, records, n);
    lemma_history_grows_by_deposits(state_after(state, records, n), records[n]);
    lemma_history_is_monotonic(state, records, n + 1, records.len() as int, id);
}

/// Every deposit in the history was put there by exactly one record.
pub proof fn lemma_each_entry_has_one_deposit(state: ClientState, records: Seq<Tx>, id: u64)
    requires
        !state.history.contains_key(id),
        replay(state, records).history.contains_key(id),
    ensures
        exists|n: int| records_deposit(state, records, n, id),
        forall|n: int, m: int|
            records_deposit(state, records, n, id) && records_deposit(state, records, m, id)
                ==> n == m,
{
    assert(records.subrange(0, records.len() as int) =~= records);
    lemma_first_deposit(state, records, records.len() as int, id);
    assert forall|n: int, m: int|
        records_deposit(state, records, n, id) && records_deposit(
            state,
            records,
            m,
            id,
        ) implies n == m by {
        if n < m {
            lemma_history_is_monotonic(state, records, n + 1, m, id);
        }
        if m < n {
            lemma_history_is_monotonic(state, records, m + 1, n, id);
        }
    }
}

/// If `id` is not in the history at the start and is there after the first
/// `upto` records, one of those records put it there.
proof fn lemma_first_deposit(state: ClientState, records: Seq<Tx>, upto: int, id: u64)
    requires
        0 <= upto <= records.len(),
        !state.history.contains_key(id),
        state_after(state, records, upto).history.contains_key(id),
    ensures
        exists|n: int| n < upto && records_deposit(state, records, n, id),
    decreases upto,
{
    if upto == 0 {
        assert(records.subrange(0, 0) =~= Seq::<Tx>::empty());
    } else if state_after(state, records, upto - 1).history.contains_key(id) {
        lemma_first_deposit(state, records, upto - 1, id);
        let n = choose|n: int| n < upto - 1 && records_deposit(state, records, n, id);
        assert(n < upto && records_deposit(state, records, n, id));
    } else {
        assert(records_deposit(state, records, upto - 1, id));
    }
}

} // verus!
