//! One client's account and the rules by which a single event changes it.

use std::collections::HashMap;
use vstd::prelude::*;

verus! {

/// Supported transaction types.
#[derive(Clone, Copy, Debug, PartialEq, Eq, Structural)]
pub enum TxType {
    Deposit,
    Withdrawal,
    Dispute,
    Resolve,
    Chargeback,
}

/// One event of the input stream. The amount is in minor units; deposits and
/// withdrawals need one, the other types ignore it.
#[derive(Clone, Copy, Debug, PartialEq, Eq, Structural)]
pub struct InRow {
    /// Transaction type
    pub typ: TxType,
    /// Client ID
    pub client: u16,
    /// Transaction ID
    pub tx: u32,
    /// Transaction amount in minor currency units
    pub amount: Option<i64>,
}

/// State of a possibly initiated dispute for a deposit transaction.
#[derive(Clone, Copy, Debug, PartialEq, Eq, Structural)]
pub enum DisputeState {
    NotInitiated,
    Initiated,
    ChargedBack,
}

/// Deposit transaction state and amount, kept so that later events can
/// dispute it.
#[derive(Clone, Copy, Debug, PartialEq, Eq, Structural)]
pub struct Deposit {
    /// State of a possibly initiated dispute for the transaction
    pub dispute_state: DisputeState,
    /// Transaction amount in minor units
    pub amount: i64,
}

/// The mathematical value of an account: balances as unbounded integers and
/// the deposit registry as a map.
pub struct AccountModel {
    pub locked: bool,
    pub available: int,
    pub held: int,
    pub deposits: Map<u32, Deposit>,
}

impl AccountModel {
    /// The account that every client starts with.
    pub open spec fn empty() -> AccountModel {
        AccountModel { locked: false, available: 0, held: 0, deposits: Map::empty() }
    }

    /// Available plus held funds.
    pub open spec fn total(self) -> int {
        self.available + self.held
    }

    /// Both balances are representable in 64 bits.
    pub open spec fn in_range(self) -> bool {
        &&& i64::MIN <= self.available <= i64::MAX
        &&& i64::MIN <= self.held <= i64::MAX
    }

    /// Deposit `tx` is on record in dispute state `state`.
    pub open spec fn has_deposit_in(self, tx: u32, state: DisputeState) -> bool {
        self.deposits.contains_key(tx) && self.deposits[tx].dispute_state == state
    }

    /// The record of deposit `tx`, moved to dispute state `state`.
    pub open spec fn with_state(self, tx: u32, state: DisputeState) -> Map<u32, Deposit> {
        self.deposits.insert(
            tx,
            Deposit { dispute_state: state, amount: self.deposits[tx].amount },
        )
    }

    /// The account after one event addressed to it. An event whose
    /// precondition fails leaves the account as it is.
    pub open spec fn step(self, e: InRow) -> AccountModel {
        match e.typ {
            TxType::Deposit => match e.amount {
                Some(x) => AccountModel {
                    available: self.available + x,
                    deposits: self.deposits.insert(
                        e.tx,
                        Deposit { dispute_state: DisputeState::NotInitiated, amount: x },
                    ),
                    ..self
                },
                None => self,
            },
            TxType::Withdrawal => match e.amount {
                Some(x) => if !self.locked && self.available >= x {
                    AccountModel { available: self.available - x, ..self }
                } else {
                    self
                },
                None => self,
            },
            TxType::Dispute => if self.has_deposit_in(e.tx, DisputeState::NotInitiated) {
                AccountModel {
                    available: self.available - self.deposits[e.tx].amount,
                    held: self.held + self.deposits[e.tx].amount,
                    deposits: self.with_state(e.tx, DisputeState::Initiated),
                    ..self
                }
            } else {
                self
            },
            TxType::Resolve => if self.has_deposit_in(e.tx, DisputeState::Initiated) {
                AccountModel {
                    available: self.available + self.deposits[e.tx].amount,
                    held: self.held - self.deposits[e.tx].amount,
                    deposits: self.with_state(e.tx, DisputeState::NotInitiated),
                    ..self
                }
            } else {
                self
            },
            TxType::Chargeback => if self.has_deposit_in(e.tx, DisputeState::Initiated) {
                AccountModel {
                    held: self.held - self.deposits[e.tx].amount,
                    locked: true,
                    deposits: self.with_state(e.tx, DisputeState::ChargedBack),
                    ..self
                }
            } else {
                self
            },
        }
    }
}

/// Current state of a client's account.
pub struct Account {
    /// Account locked due to a chargeback. No more withdrawals are possible.
    pub locked: bool,
    /// Funds currently available for withdrawal in minor currency units
    pub available: i64,
    /// Funds currently held from withdrawal in minor currency units
    pub held: i64,
    /// Deposit transaction registry by transaction ID
    pub deposits: HashMap<u32, Deposit>,
}

impl View for Account {
    type V = AccountModel;

    open spec fn view(&self) -> AccountModel {
        AccountModel {
            locked: self.locked,
            available: self.available as int,
            held: self.held as int,
            deposits: self.deposits@,
        }
    }
}

impl Default for Account {
    fn default() -> (a: Account)
        ensures
            a@ == AccountModel::empty(),
    {
        Account { locked: false, available: 0, held: 0, deposits: HashMap::new() }
    }
}

/// `a + b`, where it is representable.
fn sum(a: i64, b: i64) -> (r: Option<i64>)
    ensures
        r == if i64::MIN <= a + b <= i64::MAX {
            Some((a + b) as i64)
        } else {
            None
        },
{
    let wide: i128 = a as i128 + b as i128;
    if -0x8000_0000_0000_0000 <= wide && wide <= 0x7fff_ffff_ffff_ffff {
        Some(wide as i64)
    } else {
        None
    }
}

/// `a - b`, where it is representable.
fn difference(a: i64, b: i64) -> (r: Option<i64>)
    ensures
        r == if i64::MIN <= a - b <= i64::MAX {
            Some((a - b) as i64)
        } else {
            None
        },
{
    let wide: i128 = a as i128 - b as i128;
    if -0x8000_0000_0000_0000 <= wide && wide <= 0x7fff_ffff_ffff_ffff {
        Some(wide as i64)
    } else {
        None
    }
}

impl Account {
    /// The record of deposit `tx`, if there is one.
    pub fn deposit(&self, tx: u32) -> (d: Option<Deposit>)
        ensures
            d == if self@.deposits.contains_key(tx) {
                Some(self@.deposits[tx])
            } else {
                None
            },
    {
        broadcast use vstd::std_specs::hash::group_hash_axioms;

        match self.deposits.get(&tx) {
            Some(d) => Some(*d),
            None => None,
        }
    }

    /// Available plus held funds. The sum of two balances can exceed the range
    /// of one, so it is returned in a wider type.
    pub fn total(&self) -> (t: i128)
        ensures
            t == self@.total(),
    {
        self.available as i128 + self.held as i128
    }

    /// Applies one event if the balances that it leads to are representable.
    /// Returns whether they are; if not, the account is unchanged.
    pub fn try_apply(&mut self, e: &InRow) -> (applied: bool)
        ensures
            applied == old(self)@.step(*e).in_range(),
            final(self)@ == if applied {
                old(self)@.step(*e)
            } else {
                old(self)@
            },
    {
        broadcast use vstd::std_specs::hash::group_hash_axioms;

        match e.typ {
            TxType::Deposit => match e.amount {
                Some(x) => match sum(self.available, x) {
                    Some(available) => {
                        self.available = available;
                        self.deposits.insert(
                            e.tx,
                            Deposit { dispute_state: DisputeState::NotInitiated, amount: x },
                        );
                        true
                    },
                    None => false,
                },
                None => true,
            },
            TxType::Withdrawal => match e.amount {
                Some(x) => if !self.locked && self.available >= x {
                    match difference(self.available, x) {
                        Some(available) => {
                            self.available = available;
                            true
                        },
                        None => false,
                    }
                } else {
                    true
                },
                None => true,
            },
            TxType::Dispute => match self.deposit(e.tx) {
                Some(Deposit { dispute_state: DisputeState::NotInitiated, amount }) => {
                    match (difference(self.available, amount), sum(self.held, amount)) {
                        (Some(available), Some(held)) => {
                            self.available = available;
                            self.held = held;
                            self.deposits.insert(
                                e.tx,
                                Deposit { dispute_state: DisputeState::Initiated, amount },
                            );
                            true
                        },
                        _ => false,
                    }
                },
                _ => true,
            },
            TxType::Resolve => match self.deposit(e.tx) {
                Some(Deposit { dispute_state: DisputeState::Initiated, amount }) => {
                    match (sum(self.available, amount), difference(self.held, amount)) {
                        (Some(available), Some(held)) => {
                            self.available = available;
                            self.held = held;
                            self.deposits.insert(
                                e.tx,
                                Deposit { dispute_state: DisputeState::NotInitiated, amount },
                            );
                            true
                        },
                        _ => false,
                    }
                },
                _ => true,
            },
            TxType::Chargeback => match self.deposit(e.tx) {
                Some(Deposit { dispute_state: DisputeState::Initiated, amount }) => {
                    match difference(self.held, amount) {
                        Some(held) => {
                            self.held = held;
                            self.locked = true;
                            self.deposits.insert(
                                e.tx,
                                Deposit { dispute_state: DisputeState::ChargedBack, amount },
                            );
                            true
                        },
                        None => false,
                    }
                },
                _ => true,
            },
        }
    }

    /// Applies one event: a deposit, a withdrawal, or a move in the dispute
    /// lifecycle of an earlier deposit.
    pub fn apply(&mut self, e: &InRow)
        requires
            old(self)@.step(*e).in_range(),
        ensures
            final(self)@ == old(self)@.step(*e),
    {
        let _ = self.try_apply(e);
    }
}

} // verus!
