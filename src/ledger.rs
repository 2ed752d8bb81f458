use vstd::prelude::*;

verus! {

/// The balance after asking to spend `amount`: spent only when it is affordable.
pub open spec fn debit_result(balance: int, amount: int) -> int {
    if balance >= amount {
        balance - amount
    } else {
        balance
    }
}

/// The balance after a credit; it saturates at the largest balance a ledger holds.
pub open spec fn credit_result(balance: int, amount: int) -> int {
    if balance + amount > u64::MAX {
        u64::MAX as int
    } else {
        balance + amount
    }
}

/// One operation on a ledger.
pub enum LedgerOp {
    Debit(u64),
    Credit(u64),
}

/// The balance after a sequence of operations, applied in order.
pub open spec fn run_ledger(balance: int, ops: Seq<LedgerOp>) -> int
    decreases ops.len(),
{
    if ops.len() == 0 {
        balance
    } else {
        let before = run_ledger(balance, ops.drop_last());
        match ops.last() {
            LedgerOp::Debit(a) => debit_result(before, a as int),
            LedgerOp::Credit(a) => credit_result(before, a as int),
        }
    }
}

/// The sun balance of a game.
pub struct Ledger {
    balance: u64,
}

impl View for Ledger {
    type V = int;

    closed spec fn view(&self) -> int {
        self.balance as int
    }
}

impl Ledger {
    pub open spec fn wf(&self) -> bool {
        0 <= self@ <= u64::MAX
    }

    pub fn new(balance: u64) -> (r: Ledger)
        ensures
            r@ == balance,
            r.wf(),
    {
        Ledger { balance }
    }

    pub fn balance(&self) -> (r: u64)
        ensures
            r == self@,
    {
        self.balance
    }

    /// Spends `amount` if the balance covers it; nothing is spent otherwise.
    pub fn try_debit(&mut self, amount: u64) -> (r: bool)
        ensures
            r == (old(self)@ >= amount),
            final(self)@ == debit_result(old(self)@, amount as int),
            final(self).wf(),
    {
        if self.balance >= amount {
            self.balance = self.balance - amount;
            true
        } else {
            false
        }
    }

    /// Adds `amount` to the balance.
    pub fn credit(&mut self, amount: u64)
        ensures
            final(self)@ == credit_result(old(self)@, amount as int),
            final(self).wf(),
    {
        self.balance = self.balance.saturating_add(amount);
    }
}

/// Whatever debits and credits are made, in whatever order, a ledger that
/// starts with a balance of zero or more never has a negative balance.
pub proof fn lemma_balance_never_negative(balance: int, ops: Seq<LedgerOp>)
    requires
        0 <= balance <= u64::MAX,
    ensures
        0 <= run_ledger(balance, ops) <= u64::MAX,
    decreases ops.len(),
{
    if ops.len() > 0 {
        lemma_balance_never_negative(balance, ops.drop_last());
    }
}

} // verus!
