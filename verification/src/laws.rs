//! What holds of every ledger and every event stream.

use crate::account::{AccountModel, DisputeState, InRow, TxType};
use crate::ledger::{account_of, ledger_step, row_of, rows_below, rows_of, run};
use vstd::prelude::*;

verus! {

/// What one event adds to the total of the account that takes it: a deposit
/// its amount, a withdrawal that goes through minus its amount, a chargeback
/// that goes through minus the amount of the deposit; anything else nothing.
pub open spec fn effect(a: AccountModel, e: InRow) -> int {
    match e.typ {
        TxType::Deposit => match e.amount {
            Some(x) => x as int,
            None => 0,
        },
        TxType::Withdrawal => match e.amount {
            Some(x) => if !a.locked && a.available >= x {
                -(x as int)
            } else {
                0
            },
            None => 0,
        },
        TxType::Chargeback => if a.has_deposit_in(e.tx, DisputeState::Initiated) {
            -(a.deposits[e.tx].amount as int)
        } else {
            0
        },
        TxType::Dispute => 0,
        TxType::Resolve => 0,
    }
}

/// The sum of the effects that the events `es`, applied in order from `l`,
/// have on the total of client `c`.
pub open spec fn effects(l: Map<u16, AccountModel>, es: Seq<InRow>, c: u16) -> int
    decreases es.len(),
{
    if es.len() == 0 {
        0
    } else if es.last().client == c {
        effects(l, es.drop_last(), c) + effect(
            account_of(run(l, es.drop_last()), c),
            es.last(),
        )
    } else {
        effects(l, es.drop_last(), c)
    }
}

/// The sum of the amounts that the events `es` deposit for client `c`.
pub open spec fn deposited(es: Seq<InRow>, c: u16) -> int
    decreases es.len(),
{
    if es.len() == 0 {
        0
    } else if es.last().client == c && es.last().typ == TxType::Deposit {
        deposited(es.drop_last(), c) + match es.last().amount {
            Some(x) => x as int,
            None => 0,
        }
    } else {
        deposited(es.drop_last(), c)
    }
}

/// No event of `es` carries a negative amount.
pub open spec fn amounts_nonnegative(es: Seq<InRow>) -> bool {
    forall|i: int|
        0 <= i < es.len() ==> match (#[trigger] es[i]).amount {
            Some(x) => x >= 0,
            None => true,
        }
}

/// No deposit on record in `a` has a negative amount.
pub open spec fn deposits_nonnegative(a: AccountModel) -> bool {
    forall|tx: u32| a.deposits.contains_key(tx) ==> (#[trigger] a.deposits[tx]).amount >= 0
}

/// One event changes the total of the account that takes it by its effect.
pub proof fn lemma_step_total(a: AccountModel, e: InRow)
    ensures
        a.step(e).total() == a.total() + effect(a, e),
{
}

/// After any event stream, the total of every client is what it was before
/// plus the sum of the effects of the events applied to that client.
pub proof fn lemma_total_is_sum_of_effects(l: Map<u16, AccountModel>, es: Seq<InRow>, c: u16)
    ensures
        account_of(run(l, es), c).total() == account_of(l, c).total() + effects(l, es, c),
    decreases es.len(),
{
    if es.len() > 0 {
        lemma_total_is_sum_of_effects(l, es.drop_last(), c);
        lemma_step_total(account_of(run(l, es.drop_last()), c), es.last());
    }
}

/// Where no amount is negative, the total of a client never grows by more
/// than what the stream deposits for that client.
pub proof fn lemma_total_bounded_by_deposits(l: Map<u16, AccountModel>, es: Seq<InRow>, c: u16)
    requires
        amounts_nonnegative(es),
        deposits_nonnegative(account_of(l, c)),
    ensures
        account_of(run(l, es), c).total() <= account_of(l, c).total() + deposited(es, c),
        deposits_nonnegative(account_of(run(l, es), c)),
    decreases es.len(),
{
    if es.len() > 0 {
        let front = es.drop_last();
        let e = es.last();
        assert forall|i: int| 0 <= i < front.len() implies match (#[trigger] front[i]).amount {
            Some(x) => x >= 0,
            None => true,
        } by {
            assert(front[i] == es[i]);
        }
        lemma_total_bounded_by_deposits(l, front, c);
        assert(e == es[es.len() - 1]);
        let a = account_of(run(l, front), c);
        if e.client == c {
            assert(a.deposits.contains_key(e.tx) ==> a.deposits[e.tx].amount >= 0);
            assert(deposits_nonnegative(a.step(e)));
        }
    }
}

/// An account is never deleted, and the client of an event has one from then
/// on.
pub proof fn lemma_accounts_are_kept(l: Map<u16, AccountModel>, e: InRow, c: u16)
    ensures
        l.contains_key(c) ==> ledger_step(l, e).contains_key(c),
        ledger_step(l, e).contains_key(e.client),
{
}

/// A deposit on record stays on record with its amount, unless a later
/// deposit under the same transaction id replaces it.
pub proof fn lemma_deposits_are_kept(a: AccountModel, e: InRow, tx: u32)
    requires
        a.deposits.contains_key(tx),
    ensures
        a.step(e).deposits.contains_key(tx),
        !(e.typ == TxType::Deposit && e.tx == tx && e.amount.is_some()) ==> a.step(
            e,
        ).deposits[tx].amount == a.deposits[tx].amount,
{
}

/// An event changes no account but that of its own client.
pub proof fn lemma_other_clients_untouched(l: Map<u16, AccountModel>, e: InRow, c: u16)
    requires
        e.client != c,
    ensures
        account_of(ledger_step(l, e), c) == account_of(l, c),
        ledger_step(l, e).contains_key(c) == l.contains_key(c),
{
}

/// A deposit is charged back only from the initiated state: where one event
/// leaves deposit `tx` of client `c` charged back, either it was so before, or
/// the event is a chargeback of that client's `tx` and the dispute was open.
pub proof fn lemma_chargeback_only_from_initiated(
    l: Map<u16, AccountModel>,
    e: InRow,
    c: u16,
    tx: u32,
)
    requires
        account_of(ledger_step(l, e), c).has_deposit_in(tx, DisputeState::ChargedBack),
    ensures
        account_of(l, c).has_deposit_in(tx, DisputeState::ChargedBack) || (e.client == c && e.tx
            == tx && e.typ == TxType::Chargeback && account_of(l, c).has_deposit_in(
            tx,
            DisputeState::Initiated,
        )),
{
}

/// A locked account stays locked, whatever events follow.
pub proof fn lemma_lock_is_permanent(l: Map<u16, AccountModel>, es: Seq<InRow>, c: u16)
    requires
        account_of(l, c).locked,
    ensures
        account_of(run(l, es), c).locked,
    decreases es.len(),
{
    if es.len() > 0 {
        lemma_lock_is_permanent(l, es.drop_last(), c);
    }
}

/// Once an account is locked, a withdrawal that comes after any further
/// events leaves it as it is, whatever its amount and the funds available.
pub proof fn lemma_locked_account_ignores_withdrawal(
    l: Map<u16, AccountModel>,
    es: Seq<InRow>,
    e: InRow,
    c: u16,
)
    requires
        account_of(l, c).locked,
        e.typ == TxType::Withdrawal,
    ensures
        account_of(run(l, es.push(e)), c) == account_of(run(l, es), c),
{
    lemma_lock_is_permanent(l, es, c);
    assert(es.push(e).drop_last() =~= es);
}

/// A dispute followed by its resolve leaves every account as it was, balances
/// and deposit records alike, unless the dispute was already open before: the
/// first event is then ignored and the second closes the earlier dispute.
pub proof fn lemma_dispute_then_resolve_restores(
    l: Map<u16, AccountModel>,
    dispute: InRow,
    resolve: InRow,
    c: u16,
)
    requires
        dispute.typ == TxType::Dispute,
        resolve.typ == TxType::Resolve,
        dispute.client == resolve.client,
        dispute.tx == resolve.tx,
        !account_of(l, dispute.client).has_deposit_in(dispute.tx, DisputeState::Initiated),
    ensures
        account_of(ledger_step(ledger_step(l, dispute), resolve), c) == account_of(l, c),
{
    let a = account_of(l, dispute.client);
    assert(a.step(dispute).step(resolve).deposits =~= a.deposits);
}

/// The rows below a bound are those of the accounts below it: each row is the
/// row of an account, rows come by strictly ascending client, and every
/// account below the bound has its row.
pub proof fn lemma_rows_below(l: Map<u16, AccountModel>, n: nat)
    requires
        n <= 0x1_0000,
    ensures
        forall|i: int|
            0 <= i < rows_below(l, n).len() ==> {
                let r = #[trigger] rows_below(l, n)[i];
                r.client < n && l.contains_key(r.client) && r == row_of(r.client, l[r.client])
            },
        forall|i: int, j: int|
            0 <= i < j < rows_below(l, n).len() ==> (#[trigger] rows_below(l, n)[i]).client < (
            #[trigger] rows_below(l, n)[j]).client,
        forall|c: u16|
            c < n && l.contains_key(c) ==> rows_below(l, n).contains(#[trigger] row_of(c, l[c])),
    decreases n,
{
    if n > 0 {
        let m = (n - 1) as nat;
        let last = m as u16;
        lemma_rows_below(l, m);
        let prev = rows_below(l, m);
        let rows = rows_below(l, n);
        assert forall|c: u16| c < n && l.contains_key(c) implies rows.contains(
            #[trigger] row_of(c, l[c]),
        ) by {
            if c < m {
                let i = choose|i: int| 0 <= i < prev.len() && prev[i] == row_of(c, l[c]);
                assert(rows[i] == row_of(c, l[c]));
            } else {
                assert(c == last);
                assert(rows[rows.len() - 1] == row_of(c, l[c]));
            }
        }
    }
}

/// The snapshot holds exactly one row for every account, whatever else is
/// said of its order: each row is the row of an account, no client has two
/// rows, and every account has its row.
pub proof fn lemma_rows_are_the_accounts(l: Map<u16, AccountModel>)
    ensures
        forall|i: int|
            0 <= i < rows_of(l).len() ==> {
                let r = #[trigger] rows_of(l)[i];
                l.contains_key(r.client) && r == row_of(r.client, l[r.client])
            },
        forall|i: int, j: int|
            0 <= i < j < rows_of(l).len() ==> (#[trigger] rows_of(l)[i]).client != (
            #[trigger] rows_of(l)[j]).client,
        forall|c: u16| l.contains_key(c) ==> rows_of(l).contains(#[trigger] row_of(c, l[c])),
{
    lemma_rows_below(l, 0x1_0000);
}

} // verus!
