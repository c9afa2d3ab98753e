//! The type field of an input record, as text.

use crate::account::TxType;
use vstd::prelude::*;
use vstd::string::*;

verus! {

/// The lower-case form of an ASCII capital; any other character itself.
pub open spec fn lower(c: char) -> char {
    if 'A' <= c <= 'Z' {
        ((c as u8) + 32) as char
    } else {
        c
    }
}

/// `s` with its ASCII capitals in lower case.
pub open spec fn folded(s: Seq<char>) -> Seq<char> {
    s.map_values(|c: char| lower(c))
}

/// The name of a transaction type.
pub open spec fn name_of(t: TxType) -> Seq<char> {
    match t {
        TxType::Deposit => seq!['d', 'e', 'p', 'o', 's', 'i', 't'],
        TxType::Withdrawal => seq!['w', 'i', 't', 'h', 'd', 'r', 'a', 'w', 'a', 'l'],
        TxType::Dispute => seq!['d', 'i', 's', 'p', 'u', 't', 'e'],
        TxType::Resolve => seq!['r', 'e', 's', 'o', 'l', 'v', 'e'],
        TxType::Chargeback => seq!['c', 'h', 'a', 'r', 'g', 'e', 'b', 'a', 'c', 'k'],
    }
}

/// The transaction type that `token` names, in any mix of upper and lower
/// case, if it names one.
pub open spec fn type_of(token: Seq<char>) -> Option<TxType> {
    if folded(token) == name_of(TxType::Deposit) {
        Some(TxType::Deposit)
    } else if folded(token) == name_of(TxType::Withdrawal) {
        Some(TxType::Withdrawal)
    } else if folded(token) == name_of(TxType::Dispute) {
        Some(TxType::Dispute)
    } else if folded(token) == name_of(TxType::Resolve) {
        Some(TxType::Resolve)
    } else if folded(token) == name_of(TxType::Chargeback) {
        Some(TxType::Chargeback)
    } else {
        None
    }
}

fn to_lower(c: char) -> (r: char)
    ensures
        r == lower(c),
{
    if 'A' <= c && c <= 'Z' {
        ((c as u8) + 32) as char
    } else {
        c
    }
}

fn names(token: &str, name: &str) -> (b: bool)
    ensures
        b == (folded(token@) == name@),
{
    let n = token.unicode_len();
    if n != name.unicode_len() {
        return false;
    }
    let mut i: usize = 0;
    while i < n
        invariant
            i <= n,
            n == token@.len(),
            n == name@.len(),
            forall|j: int| 0 <= j < i ==> lower(token@[j]) == name@[j],
        decreases n - i,
    {
        if to_lower(token.get_char(i)) != name.get_char(i) {
            assert(folded(token@)[i as int] != name@[i as int]);
            return false;
        }
        i += 1;
    }
    assert(folded(token@) =~= name@);
    true
}

/// Reads the type field of a record: one of the five type names, in any mix
/// of upper and lower case.
pub fn parse_type(token: &str) -> (t: Option<TxType>)
    ensures
        t == type_of(token@),
{
    proof {
        reveal_strlit("deposit");
        reveal_strlit("withdrawal");
        reveal_strlit("dispute");
        reveal_strlit("resolve");
        reveal_strlit("chargeback");
        assert("deposit"@ =~= name_of(TxType::Deposit));
        assert("withdrawal"@ =~= name_of(TxType::Withdrawal));
        assert("dispute"@ =~= name_of(TxType::Dispute));
        assert("resolve"@ =~= name_of(TxType::Resolve));
        assert("chargeback"@ =~= name_of(TxType::Chargeback));
    }
    if names(token, "deposit") {
        Some(TxType::Deposit)
    } else if names(token, "withdrawal") {
        Some(TxType::Withdrawal)
    } else if names(token, "dispute") {
        Some(TxType::Dispute)
    } else if names(token, "resolve") {
        Some(TxType::Resolve)
    } else if names(token, "chargeback") {
        Some(TxType::Chargeback)
    } else {
        None
    }
}

} // verus!
