//! Ledger records and the rules that decide which records reach the pipeline.
//!
//! Money is held as a whole number of hundredths (cents), so that every
//! comparison and every doubling below is exact.
use vstd::prelude::*;

verus! {

broadcast use vstd::string::axiom_spec_iter, vstd::string::next_postcondition;

/// Amount (in cents) above which a record is flagged: 200000.00.
pub const FLAG_THRESHOLD_CENTS: u64 = 20_000_000;

/// The five transaction categories, in one-hot slot order.
#[derive(Clone, Copy, Debug, PartialEq, Eq, Structural)]
pub enum TxType {
    CashIn,
    CashOut,
    Debit,
    Payment,
    Transfer,
}

impl TxType {
    /// Position of this category in the one-hot block.
    pub open spec fn spec_slot(self) -> nat {
        match self {
            TxType::CashIn => 0,
            TxType::CashOut => 1,
            TxType::Debit => 2,
            TxType::Payment => 3,
            TxType::Transfer => 4,
        }
    }

    pub fn slot(&self) -> (r: usize)
        ensures
            r == self.spec_slot(),
    {
        match self {
            TxType::CashIn => 0,
            TxType::CashOut => 1,
            TxType::Debit => 2,
            TxType::Payment => 3,
            TxType::Transfer => 4,
        }
    }
}

/// The category that a type label names, if any.
pub open spec fn spec_tx_type(s: Seq<char>) -> Option<TxType> {
    if s == "CASH_IN"@ {
        Some(TxType::CashIn)
    } else if s == "CASH_OUT"@ {
        Some(TxType::CashOut)
    } else if s == "DEBIT"@ {
        Some(TxType::Debit)
    } else if s == "PAYMENT"@ {
        Some(TxType::Payment)
    } else if s == "TRANSFER"@ {
        Some(TxType::Transfer)
    } else {
        None
    }
}

/// Reads a type label; an unknown label gives `None`.
pub fn tx_type_of(s: &String) -> (r: Option<TxType>)
    ensures
        r == spec_tx_type(s@),
{
    if *s == "CASH_IN".to_owned() {
        Some(TxType::CashIn)
    } else if *s == "CASH_OUT".to_owned() {
        Some(TxType::CashOut)
    } else if *s == "DEBIT".to_owned() {
        Some(TxType::Debit)
    } else if *s == "PAYMENT".to_owned() {
        Some(TxType::Payment)
    } else if *s == "TRANSFER".to_owned() {
        Some(TxType::Transfer)
    } else {
        None
    }
}

/// One ledger row. Amounts and balances are in cents; `is_fraud` and
/// `is_flagged_fraud` are 0/1 markers.
#[derive(Clone, Debug)]
pub struct Transaction {
    pub step: u32,
    pub ttype: String,
    pub amount: u64,
    pub name_orig: String,
    pub old_balance_orig: i64,
    pub new_balance_orig: i64,
    pub name_dest: String,
    pub old_balance_dest: i64,
    pub new_balance_dest: i64,
    pub is_fraud: u8,
    pub is_flagged_fraud: u8,
}

/// An account identifier that the ledger accepts: it starts with `M` or `C`.
pub open spec fn is_account_id(s: Seq<char>) -> bool {
    s.len() > 0 && (s[0] == 'M' || s[0] == 'C')
}

pub fn has_account_prefix(s: &String) -> (r: bool)
    ensures
        r == is_account_id(s@),
{
    let mut it = s.as_str().chars();
    match it.next() {
        Some(c) => c == 'M' || c == 'C',
        None => false,
    }
}

/// Whether a record passes the filter.
pub open spec fn is_admissible(rec: Transaction) -> bool {
    &&& spec_tx_type(rec.ttype@) is Some
    &&& is_account_id(rec.name_orig@)
    &&& is_account_id(rec.name_dest@)
}

/// The flag marker after the threshold rule.
pub open spec fn flag_after(rec: Transaction, threshold: u64) -> u8 {
    if rec.amount > threshold {
        1
    } else {
        rec.is_flagged_fraud
    }
}

/// Filters and normalises one record: it is dropped when its type is unknown
/// or an account id does not start with `M` or `C`; a kept record is flagged
/// when its amount exceeds `threshold`, and is otherwise unchanged.
pub fn clean_record(rec: Transaction, threshold: u64) -> (r: Option<Transaction>)
    ensures
        r is Some <==> is_admissible(rec),
        r matches Some(out) ==> {
            &&& out.is_flagged_fraud == flag_after(rec, threshold)
            &&& out.step == rec.step
            &&& out.ttype@ == rec.ttype@
            &&& out.amount == rec.amount
            &&& out.name_orig@ == rec.name_orig@
            &&& out.old_balance_orig == rec.old_balance_orig
            &&& out.new_balance_orig == rec.new_balance_orig
            &&& out.name_dest@ == rec.name_dest@
            &&& out.old_balance_dest == rec.old_balance_dest
            &&& out.new_balance_dest == rec.new_balance_dest
            &&& out.is_fraud == rec.is_fraud
        },
{
    let mut rec = rec;
    if tx_type_of(&rec.ttype).is_none() {
        return None;
    }
    if rec.amount > threshold {
        rec.is_flagged_fraud = 1;
    }
    if !has_account_prefix(&rec.name_orig) || !has_account_prefix(&rec.name_dest) {
        return None;
    }
    Some(rec)
}

} // verus!
