//! The ledger: every client's account, the fold of an event stream over it,
//! and the final snapshot of balances.

use crate::account::{Account, AccountModel, InRow};
use crate::amount::{major_text, to_major, to_major_wide};
use std::collections::HashMap;
use vstd::prelude::*;

verus! {

/// The account of client `c` in `l`; a client not yet seen has the empty one.
pub open spec fn account_of(l: Map<u16, AccountModel>, c: u16) -> AccountModel {
    if l.contains_key(c) {
        l[c]
    } else {
        AccountModel::empty()
    }
}

/// The ledger after one event: the event's client has an account from now on,
/// and that account has taken the event.
pub open spec fn ledger_step(l: Map<u16, AccountModel>, e: InRow) -> Map<u16, AccountModel> {
    l.insert(e.client, account_of(l, e.client).step(e))
}

/// Event `e` leads `l` to balances that are representable in 64 bits.
pub open spec fn accepts(l: Map<u16, AccountModel>, e: InRow) -> bool {
    account_of(l, e.client).step(e).in_range()
}

/// The ledger after the events `es`, applied in order.
pub open spec fn run(l: Map<u16, AccountModel>, es: Seq<InRow>) -> Map<u16, AccountModel>
    decreases es.len(),
{
    if es.len() == 0 {
        l
    } else {
        ledger_step(run(l, es.drop_last()), es.last())
    }
}

/// Every event of `es`, applied in order from `l`, leads to representable
/// balances.
pub open spec fn run_accepts(l: Map<u16, AccountModel>, es: Seq<InRow>) -> bool
    decreases es.len(),
{
    if es.len() == 0 {
        true
    } else {
        run_accepts(l, es.drop_last()) && accepts(run(l, es.drop_last()), es.last())
    }
}

/// Where a stream is accepted, so is each of its prefixes.
pub proof fn lemma_prefix_accepted(l: Map<u16, AccountModel>, es: Seq<InRow>, n: int)
    requires
        run_accepts(l, es),
        0 <= n <= es.len(),
    ensures
        run_accepts(l, es.take(n)),
    decreases es.len(),
{
    if n == es.len() {
        assert(es.take(n) =~= es);
    } else {
        lemma_prefix_accepted(l, es.drop_last(), n);
        assert(es.drop_last().take(n) =~= es.take(n));
    }
}

/// The mathematical value of an output row.
pub struct RowModel {
    pub client: u16,
    pub available: Seq<char>,
    pub held: Seq<char>,
    pub total: Seq<char>,
    pub locked: bool,
}

/// The output row of client `c` with account `a`.
pub open spec fn row_of(c: u16, a: AccountModel) -> RowModel {
    RowModel {
        client: c,
        available: major_text(a.available),
        held: major_text(a.held),
        total: major_text(a.total()),
        locked: a.locked,
    }
}

/// The rows of the clients below `n` that have an account, by ascending
/// client.
pub open spec fn rows_below(l: Map<u16, AccountModel>, n: nat) -> Seq<RowModel>
    decreases n,
{
    if n == 0 {
        Seq::empty()
    } else {
        let c = (n - 1) as u16;
        if l.contains_key(c) {
            rows_below(l, (n - 1) as nat).push(row_of(c, l[c]))
        } else {
            rows_below(l, (n - 1) as nat)
        }
    }
}

/// One row for every account of `l`, by ascending client.
pub open spec fn rows_of(l: Map<u16, AccountModel>) -> Seq<RowModel> {
    rows_below(l, 0x1_0000)
}

/// A row of the output.
#[derive(Clone, Debug, PartialEq, Eq)]
pub struct OutRow {
    /// Client ID
    pub client: u16,
    /// Available amount in major currency units
    pub available: String,
    /// Held amount in major currency units
    pub held: String,
    /// Total amount in major currency units
    pub total: String,
    /// Account locked due to a chargeback. No more withdrawals are possible.
    pub locked: bool,
}

impl View for OutRow {
    type V = RowModel;

    open spec fn view(&self) -> RowModel {
        RowModel {
            client: self.client,
            available: self.available@,
            held: self.held@,
            total: self.total@,
            locked: self.locked,
        }
    }
}

/// The values of a sequence of rows.
pub open spec fn row_values(rows: Seq<OutRow>) -> Seq<RowModel> {
    rows.map_values(|r: OutRow| r@)
}

/// The accounts of all clients seen so far.
pub struct Ledger {
    pub accounts: HashMap<u16, Account>,
}

impl View for Ledger {
    type V = Map<u16, AccountModel>;

    open spec fn view(&self) -> Map<u16, AccountModel> {
        Map::new(|c: u16| self.accounts@.contains_key(c), |c: u16| self.accounts@[c]@)
    }
}

impl Ledger {
    /// A ledger without accounts.
    pub fn new() -> (l: Ledger)
        ensures
            l@ == Map::<u16, AccountModel>::empty(),
    {
        let l = Ledger { accounts: HashMap::new() };
        assert(l@ =~= Map::<u16, AccountModel>::empty());
        l
    }

    /// Applies one event to its client's account, which is created if the
    /// client is new, provided that the balances it leads to are representable.
    /// Returns whether they are; if not, the ledger is unchanged.
    pub fn try_apply(&mut self, e: &InRow) -> (applied: bool)
        ensures
            applied == accepts(old(self)@, *e),
            final(self)@ == if applied {
                ledger_step(old(self)@, *e)
            } else {
                old(self)@
            },
    {
        broadcast use vstd::std_specs::hash::group_hash_axioms;

        let (mut account, known) = match self.accounts.remove(&e.client) {
            Some(a) => (a, true),
            None => (Account::default(), false),
        };
        assert(account@ == account_of(old(self)@, e.client));
        let applied = account.try_apply(e);
        if applied || known {
            self.accounts.insert(e.client, account);
        }
        assert(final(self)@ =~= if applied {
            ledger_step(old(self)@, *e)
        } else {
            old(self)@
        });
        applied
    }

    /// Applies one event to its client's account, which is created if the
    /// client is new.
    pub fn apply(&mut self, e: &InRow)
        requires
            accepts(old(self)@, *e),
        ensures
            final(self)@ == ledger_step(old(self)@, *e),
    {
        let _ = self.try_apply(e);
    }

    /// Applies the events in order, up to the first that leads to balances
    /// that are not representable. Returns how many were applied.
    pub fn try_apply_all(&mut self, es: &Vec<InRow>) -> (n: usize)
        ensures
            n <= es@.len(),
            run_accepts(old(self)@, es@.take(n as int)),
            final(self)@ == run(old(self)@, es@.take(n as int)),
            n < es@.len() ==> !accepts(final(self)@, es@[n as int]),
            n == es@.len() <==> run_accepts(old(self)@, es@),
    {
        let mut n: usize = 0;
        assert(es@.take(0) =~= Seq::<InRow>::empty());
        while n < es.len()
            invariant
                n <= es@.len(),
                run_accepts(old(self)@, es@.take(n as int)),
                self@ == run(old(self)@, es@.take(n as int)),
            decreases es@.len() - n,
        {
            assert(es@.take(n + 1).drop_last() =~= es@.take(n as int));
            if !self.try_apply(&es[n]) {
                proof {
                    if run_accepts(old(self)@, es@) {
                        lemma_prefix_accepted(old(self)@, es@, n + 1);
                    }
                }
                return n;
            }
            n += 1;
        }
        assert(es@.take(n as int) =~= es@);
        n
    }

    /// Applies the events in order.
    pub fn apply_all(&mut self, es: &Vec<InRow>)
        requires
            run_accepts(old(self)@, es@),
        ensures
            final(self)@ == run(old(self)@, es@),
    {
        let n = self.try_apply_all(es);
        assert(es@.take(n as int) =~= es@);
    }

    /// The account of a client, if the client has been seen.
    pub fn account(&self, client: u16) -> (a: Option<&Account>)
        ensures
            match a {
                Some(a) => self@.contains_key(client) && a@ == self@[client],
                None => !self@.contains_key(client),
            },
    {
        broadcast use vstd::std_specs::hash::group_hash_axioms;

        self.accounts.get(&client)
    }

    /// The final balances: one row for every account, by ascending client.
    pub fn snapshot(&self) -> (rows: Vec<OutRow>)
        ensures
            row_values(rows@) == rows_of(self@),
    {
        let mut rows: Vec<OutRow> = Vec::new();
        let mut c: u32 = 0;
        assert(row_values(rows@) =~= rows_below(self@, 0));
        while c < 0x1_0000
            invariant
                c <= 0x1_0000,
                row_values(rows@) == rows_below(self@, c as nat),
            decreases 0x1_0000 - c,
        {
            let client = c as u16;
            let ghost before = rows@;
            match self.account(client) {
                Some(a) => {
                    let r = out_row(client, a);
                    rows.push(r);
                    assert(row_values(rows@) =~= row_values(before).push(r@));
                },
                None => {},
            }
            c += 1;
        }
        rows
    }
}

/// The output row of one account.
pub fn out_row(client: u16, a: &Account) -> (r: OutRow)
    ensures
        r@ == row_of(client, a@),
{
    OutRow {
        client,
        available: to_major(a.available),
        held: to_major(a.held),
        total: to_major_wide(a.total()),
        locked: a.locked,
    }
}

/// Folds an event stream over an empty ledger and returns the final balances,
/// one row for every client seen, by ascending client. There is no result
/// where some event leads to a balance that is not representable in 64 bits.
pub fn process(es: &Vec<InRow>) -> (out: Option<Vec<OutRow>>)
    ensures
        match out {
            Some(rows) => run_accepts(Map::empty(), es@) && row_values(rows@) == rows_of(
                run(Map::empty(), es@),
            ),
            None => !run_accepts(Map::empty(), es@),
        },
{
    let mut ledger = Ledger::new();
    let n = ledger.try_apply_all(es);
    if n == es.len() {
        assert(es@.take(n as int) =~= es@);
        Some(ledger.snapshot())
    } else {
        None
    }
}

} // verus!
