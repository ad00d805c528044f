//! Token balances of accounts: the free balance of each account in each currency, and the
//! reserved balance of each account in the native currency.
use vstd::prelude::*;
use crate::error::{DispatchError, TokenError};
use crate::primitives::{AccountId, Balance, CurrencyId};
use crate::table::{Table, TableKey};

verus! {

/// Key of a free balance.
#[derive(Clone, Copy, Debug, PartialEq, Eq, Structural)]
pub struct AccountCurrency {
    pub who: AccountId,
    pub currency: CurrencyId,
}

impl TableKey for AccountCurrency {
    fn key_eq(&self, other: &Self) -> (r: bool) {
        self.who == other.who && self.currency == other.currency
    }
}

/// Free balances of all accounts, as a function.
pub type Balances = spec_fn(AccountId, CurrencyId) -> Balance;

/// A transfer of `amount` of `currency` from `from` to `to` succeeds.
pub open spec fn transfer_ok(b: Balances, currency: CurrencyId, from: AccountId, to: AccountId, amount: Balance) -> bool {
    amount == 0 || from == to || (b(from, currency) >= amount && b(to, currency) + amount <= u128::MAX)
}

/// A failing transfer's error: the balance of the sender is too low, or the receiver's would
/// overflow.
pub open spec fn transfer_error(b: Balances, currency: CurrencyId, from: AccountId, amount: Balance) -> DispatchError {
    if b(from, currency) < amount {
        DispatchError::Tokens(TokenError::BalanceTooLow)
    } else {
        DispatchError::Tokens(TokenError::BalanceOverflow)
    }
}

/// The balances after a transfer that succeeds.
pub open spec fn after_transfer(
    b: Balances,
    currency: CurrencyId,
    from: AccountId,
    to: AccountId,
    amount: Balance,
) -> Balances {
    if amount == 0 || from == to {
        b
    } else {
        |w: AccountId, c: CurrencyId|
            if w == from && c == currency {
                (b(w, c) - amount) as u128
            } else if w == to && c == currency {
                (b(w, c) + amount) as u128
            } else {
                b(w, c)
            }
    }
}

/// Creating `amount` of `currency` for `who` succeeds.
pub open spec fn deposit_ok(b: Balances, currency: CurrencyId, who: AccountId, amount: Balance) -> bool {
    b(who, currency) + amount <= u128::MAX
}

/// The balances after creating `amount` of `currency` for `who`.
pub open spec fn after_deposit(b: Balances, currency: CurrencyId, who: AccountId, amount: Balance) -> Balances {
    |w: AccountId, c: CurrencyId|
        if w == who && c == currency {
            (b(w, c) + amount) as u128
        } else {
            b(w, c)
        }
}

/// Destroying `amount` of `currency` of `who` succeeds.
pub open spec fn withdraw_ok(b: Balances, currency: CurrencyId, who: AccountId, amount: Balance) -> bool {
    b(who, currency) >= amount
}

/// The balances after destroying `amount` of `currency` of `who`.
pub open spec fn after_withdraw(b: Balances, currency: CurrencyId, who: AccountId, amount: Balance) -> Balances {
    |w: AccountId, c: CurrencyId|
        if w == who && c == currency {
            (b(w, c) - amount) as u128
        } else {
            b(w, c)
        }
}

/// Balances of all accounts.
pub struct Ledger {
    pub(crate) free: Table<AccountCurrency, Balance>,
    pub(crate) reserved: Table<AccountId, Balance>,
}

impl Ledger {
    pub closed spec fn wf(&self) -> bool {
        self.free.wf() && self.reserved.wf()
    }

    /// Free balance of `who` in `currency`; zero if never set.
    pub closed spec fn balance(&self, who: AccountId, currency: CurrencyId) -> Balance {
        match self.free.spec_get(AccountCurrency { who, currency }) {
            Some(b) => b,
            None => 0,
        }
    }

    /// All free balances.
    pub open spec fn view(&self) -> Balances {
        |w: AccountId, c: CurrencyId| self.balance(w, c)
    }

    /// Reserved balance of `who` in the native currency; zero if never set.
    pub closed spec fn reserved_balance(&self, who: AccountId) -> Balance {
        match self.reserved.spec_get(who) {
            Some(b) => b,
            None => 0,
        }
    }

    /// `other` is `self` with `amount` of the native currency of `who` moved from free to
    /// reserved; every other balance is unchanged.
    pub open spec fn reserved_into(&self, other: &Ledger, who: AccountId, amount: Balance) -> bool {
        &&& other.balance(who, CurrencyId::LAMI) == self.balance(who, CurrencyId::LAMI) - amount
        &&& other.reserved_balance(who) == self.reserved_balance(who) + amount
        &&& forall|w: AccountId, c: CurrencyId|
            !(w == who && c == CurrencyId::LAMI) ==> #[trigger] other.balance(w, c) == self.balance(w, c)
        &&& forall|w: AccountId| w != who ==> #[trigger] other.reserved_balance(w) == self.reserved_balance(w)
    }

    /// The part of `amount` that unreserving it for `who` moves back to free: no more than is
    /// reserved, and no more than the free balance has room for.
    pub open spec fn unreserve_moved(&self, who: AccountId, amount: Balance) -> Balance {
        let moved = if amount <= self.reserved_balance(who) {
            amount
        } else {
            self.reserved_balance(who)
        };
        if self.balance(who, CurrencyId::LAMI) + moved > u128::MAX {
            (u128::MAX - self.balance(who, CurrencyId::LAMI)) as u128
        } else {
            moved
        }
    }

    /// `other` is `self` with up to `amount` of the reserved native currency of `who` moved
    /// back to free (`unreserve_moved`); every other balance is unchanged.
    pub open spec fn unreserved_into(&self, other: &Ledger, who: AccountId, amount: Balance) -> bool {
        let moved = self.unreserve_moved(who, amount);
        &&& other.reserved_balance(who) == self.reserved_balance(who) - moved
        &&& other.balance(who, CurrencyId::LAMI) == self.balance(who, CurrencyId::LAMI) + moved
        &&& forall|w: AccountId, c: CurrencyId|
            !(w == who && c == CurrencyId::LAMI) ==> #[trigger] other.balance(w, c) == self.balance(w, c)
        &&& forall|w: AccountId| w != who ==> #[trigger] other.reserved_balance(w) == self.reserved_balance(w)
    }

    /// The reserved balances of two ledgers are equal.
    pub open spec fn same_reserved(&self, other: &Ledger) -> bool {
        forall|w: AccountId| #[trigger] other.reserved_balance(w) == self.reserved_balance(w)
    }

    /// Only the free balance of `(who, currency)` may differ between two ledgers, and the
    /// reserved balances are equal.
    pub open spec fn same_except(
        &self,
        other: &Ledger,
        who: AccountId,
        currency: CurrencyId,
    ) -> bool {
        &&& forall|w: AccountId, c: CurrencyId|
            !(w == who && c == currency) ==> #[trigger] other.balance(w, c) == self.balance(w, c)
        &&& forall|w: AccountId| #[trigger] other.reserved_balance(w) == self.reserved_balance(w)
    }

    pub fn new() -> (r: Ledger)
        ensures
            r.wf(),
            forall|w: AccountId, c: CurrencyId| #[trigger] r.balance(w, c) == 0,
            forall|w: AccountId| #[trigger] r.reserved_balance(w) == 0,
    {
        Ledger { free: Table::new(), reserved: Table::new() }
    }

    pub fn free_balance(&self, who: AccountId, currency: CurrencyId) -> (r: Balance)
        requires
            self.wf(),
        ensures
            r == self.balance(who, currency),
    {
        match self.free.get_copy(&AccountCurrency { who, currency }) {
            Some(b) => b,
            None => 0,
        }
    }

    pub fn reserved_of(&self, who: AccountId) -> (r: Balance)
        requires
            self.wf(),
        ensures
            r == self.reserved_balance(who),
    {
        match self.reserved.get_copy(&who) {
            Some(b) => b,
            None => 0,
        }
    }

    /// A copy of the ledger.
    pub fn snapshot(&self) -> (r: Ledger)
        requires
            self.wf(),
        ensures
            r.wf(),
            r.view() == self.view(),
            forall|w: AccountId| #[trigger] r.reserved_balance(w) == self.reserved_balance(w),
    {
        let r = Ledger { free: self.free.snapshot(), reserved: self.reserved.snapshot() };
        proof {
            assert(r.view() =~= self.view());
        }
        r
    }

    /// Sets the free balance of `who` in `currency`.
    pub fn set_balance(&mut self, who: AccountId, currency: CurrencyId, amount: Balance)
        requires
            old(self).wf(),
        ensures
            final(self).wf(),
            final(self).balance(who, currency) == amount,
            old(self).same_except(&*final(self), who, currency),
    {
        self.free.insert(AccountCurrency { who, currency }, amount);
    }

    /// Moves `amount` of `currency` from `from` to `to`. A zero amount, or equal accounts,
    /// change nothing.
    pub fn transfer(
        &mut self,
        currency: CurrencyId,
        from: AccountId,
        to: AccountId,
        amount: Balance,
    ) -> (r: Result<(), DispatchError>)
        requires
            old(self).wf(),
        ensures
            final(self).wf(),
            amount == 0 || from == to ==> r is Ok && *final(self) == *old(self),
            amount > 0 && from != to && old(self).balance(from, currency) < amount ==> r
                == Err::<(), DispatchError>(DispatchError::Tokens(TokenError::BalanceTooLow)),
            amount > 0 && from != to && old(self).balance(from, currency) >= amount && old(
                self,
            ).balance(to, currency) + amount > u128::MAX ==> r == Err::<(), DispatchError>(
                DispatchError::Tokens(TokenError::BalanceOverflow),
            ),
            r is Err ==> *final(self) == *old(self),
            r is Ok && amount > 0 && from != to ==> {
                &&& final(self).balance(from, currency) == old(self).balance(from, currency)
                    - amount
                &&& final(self).balance(to, currency) == old(self).balance(to, currency) + amount
                &&& forall|w: AccountId, c: CurrencyId|
                    !(w == from && c == currency) && !(w == to && c == currency)
                        ==> #[trigger] final(self).balance(w, c) == old(self).balance(w, c)
                &&& forall|w: AccountId| #[trigger] final(self).reserved_balance(w) == old(
                    self,
                ).reserved_balance(w)
            },
            r is Ok <==> (amount == 0 || from == to || (old(self).balance(from, currency)
                >= amount && old(self).balance(to, currency) + amount <= u128::MAX)),
            r is Ok <==> transfer_ok(old(self).view(), currency, from, to, amount),
            r is Err ==> r == Err::<(), DispatchError>(transfer_error(old(self).view(), currency, from, amount)),
            r is Ok ==> final(self).view() == after_transfer(old(self).view(), currency, from, to, amount),
            r is Err ==> final(self).view() == old(self).view(),
            old(self).same_reserved(&*final(self)),
    {
        if amount == 0 || from == to {
            return Ok(());
        }
        let from_balance = self.free_balance(from, currency);
        if from_balance < amount {
            return Err(DispatchError::Tokens(TokenError::BalanceTooLow));
        }
        let to_balance = self.free_balance(to, currency);
        let new_to = match to_balance.checked_add(amount) {
            Some(v) => v,
            None => {
                return Err(DispatchError::Tokens(TokenError::BalanceOverflow));
            },
        };
        self.set_balance(from, currency, from_balance - amount);
        self.set_balance(to, currency, new_to);
        proof {
            assert(self.view() =~= after_transfer(old(self).view(), currency, from, to, amount));
        }
        Ok(())
    }

    /// Creates `amount` of `currency` in the account of `who`.
    pub fn deposit(&mut self, currency: CurrencyId, who: AccountId, amount: Balance) -> (r: Result<
        (),
        DispatchError,
    >)
        requires
            old(self).wf(),
        ensures
            final(self).wf(),
            r is Ok <==> old(self).balance(who, currency) + amount <= u128::MAX,
            r is Err ==> r == Err::<(), DispatchError>(
                DispatchError::Tokens(TokenError::BalanceOverflow),
            ) && *final(self) == *old(self),
            r is Ok ==> final(self).balance(who, currency) == old(self).balance(who, currency)
                + amount && old(self).same_except(&*final(self), who, currency),
            r is Ok <==> deposit_ok(old(self).view(), currency, who, amount),
            r is Ok ==> final(self).view() == after_deposit(old(self).view(), currency, who, amount),
            r is Err ==> final(self).view() == old(self).view(),
            old(self).same_reserved(&*final(self)),
    {
        let b = self.free_balance(who, currency);
        match b.checked_add(amount) {
            Some(v) => {
                self.set_balance(who, currency, v);
                proof {
                    assert(self.view() =~= after_deposit(old(self).view(), currency, who, amount));
                }
                Ok(())
            },
            None => Err(DispatchError::Tokens(TokenError::BalanceOverflow)),
        }
    }

    /// Destroys `amount` of `currency` from the account of `who`.
    pub fn withdraw(&mut self, currency: CurrencyId, who: AccountId, amount: Balance) -> (r: Result<
        (),
        DispatchError,
    >)
        requires
            old(self).wf(),
        ensures
            final(self).wf(),
            r is Ok <==> old(self).balance(who, currency) >= amount,
            r is Err ==> r == Err::<(), DispatchError>(
                DispatchError::Tokens(TokenError::BalanceTooLow),
            ) && *final(self) == *old(self),
            r is Ok ==> final(self).balance(who, currency) == old(self).balance(who, currency)
                - amount && old(self).same_except(&*final(self), who, currency),
            r is Ok <==> withdraw_ok(old(self).view(), currency, who, amount),
            r is Ok ==> final(self).view() == after_withdraw(old(self).view(), currency, who, amount),
            r is Err ==> final(self).view() == old(self).view(),
            old(self).same_reserved(&*final(self)),
    {
        let b = self.free_balance(who, currency);
        if b < amount {
            return Err(DispatchError::Tokens(TokenError::BalanceTooLow));
        }
        self.set_balance(who, currency, b - amount);
        proof {
            assert(self.view() =~= after_withdraw(old(self).view(), currency, who, amount));
        }
        Ok(())
    }

    /// Moves `amount` of the native currency of `who` from free to reserved.
    pub fn reserve(&mut self, who: AccountId, amount: Balance) -> (r: Result<(), DispatchError>)
        requires
            old(self).wf(),
        ensures
            final(self).wf(),
            r is Ok <==> old(self).balance(who, CurrencyId::LAMI) >= amount && old(
                self,
            ).reserved_balance(who) + amount <= u128::MAX,
            r is Err ==> *final(self) == *old(self),
            old(self).balance(who, CurrencyId::LAMI) < amount ==> r == Err::<(), DispatchError>(
                DispatchError::Tokens(TokenError::BalanceTooLow),
            ),
            r is Ok ==> old(self).reserved_into(&*final(self), who, amount),
            r is Ok ==> {
                &&& final(self).balance(who, CurrencyId::LAMI) == old(self).balance(
                    who,
                    CurrencyId::LAMI,
                ) - amount
                &&& final(self).reserved_balance(who) == old(self).reserved_balance(who) + amount
                &&& forall|w: AccountId, c: CurrencyId|
                    !(w == who && c == CurrencyId::LAMI) ==> #[trigger] final(self).balance(w, c)
                        == old(self).balance(w, c)
                &&& forall|w: AccountId|
                    w != who ==> #[trigger] final(self).reserved_balance(w) == old(
                        self,
                    ).reserved_balance(w)
            },
    {
        let b = self.free_balance(who, CurrencyId::LAMI);
        if b < amount {
            return Err(DispatchError::Tokens(TokenError::BalanceTooLow));
        }
        let rb = self.reserved_of(who);
        let new_rb = match rb.checked_add(amount) {
            Some(v) => v,
            None => {
                return Err(DispatchError::Tokens(TokenError::BalanceOverflow));
            },
        };
        let ghost before = *self;
        self.set_balance(who, CurrencyId::LAMI, b - amount);
        let ghost mid = *self;
        self.reserved.insert(who, new_rb);
        proof {
            assert forall|w: AccountId, c: CurrencyId| #[trigger] self.balance(w, c) == mid.balance(w, c) by {
                assert(self.free == mid.free);
            }
            assert forall|w: AccountId| w != who implies #[trigger] self.reserved_balance(w)
                == before.reserved_balance(w) by {
                assert(self.reserved.spec_get(w) == mid.reserved.spec_get(w));
                assert(mid.reserved_balance(w) == before.reserved_balance(w));
            }
        }
        Ok(())
    }

    /// Moves up to `amount` of the reserved native currency of `who` back to free. Returns the
    /// part of `amount` that was not reserved.
    pub fn unreserve(&mut self, who: AccountId, amount: Balance) -> (r: Balance)
        requires
            old(self).wf(),
        ensures
            final(self).wf(),
            ({
                let moved = if amount <= old(self).reserved_balance(who) {
                    amount
                } else {
                    old(self).reserved_balance(who)
                };
                let moved = if old(self).balance(who, CurrencyId::LAMI) + moved > u128::MAX {
                    (u128::MAX - old(self).balance(who, CurrencyId::LAMI)) as u128
                } else {
                    moved
                };
                &&& r == amount - moved
                &&& final(self).reserved_balance(who) == old(self).reserved_balance(who) - moved
                &&& final(self).balance(who, CurrencyId::LAMI) == old(self).balance(
                    who,
                    CurrencyId::LAMI,
                ) + moved
                &&& forall|w: AccountId, c: CurrencyId|
                    !(w == who && c == CurrencyId::LAMI) ==> #[trigger] final(self).balance(w, c)
                        == old(self).balance(w, c)
                &&& forall|w: AccountId|
                    w != who ==> #[trigger] final(self).reserved_balance(w) == old(
                        self,
                    ).reserved_balance(w)
            }),
            r == amount - old(self).unreserve_moved(who, amount),
            old(self).unreserved_into(&*final(self), who, amount),
    {
        let rb = self.reserved_of(who);
        let b = self.free_balance(who, CurrencyId::LAMI);
        let mut moved = if amount <= rb {
            amount
        } else {
            rb
        };
        if moved > u128::MAX - b {
            moved = u128::MAX - b;
        }
        let ghost before = *self;
        self.reserved.insert(who, rb - moved);
        let ghost mid = *self;
        proof {
            assert forall|w: AccountId, c: CurrencyId| #[trigger] mid.balance(w, c) == before.balance(w, c) by {
                assert(mid.free == before.free);
            }
        }
        self.set_balance(who, CurrencyId::LAMI, b + moved);
        proof {
            assert forall|w: AccountId| w != who implies #[trigger] self.reserved_balance(w)
                == before.reserved_balance(w) by {
                assert(mid.reserved.spec_get(w) == before.reserved.spec_get(w));
            }
        }
        amount - moved
    }
}

/// A transfer that succeeds can be sent back: the transfer back succeeds and restores every
/// balance.
pub proof fn lemma_transfer_back(b: Balances, currency: CurrencyId, from: AccountId, to: AccountId, amount: Balance)
    requires
        transfer_ok(b, currency, from, to, amount),
    ensures
        transfer_ok(after_transfer(b, currency, from, to, amount), currency, to, from, amount),
        after_transfer(after_transfer(b, currency, from, to, amount), currency, to, from, amount) == b,
{
    let b1 = after_transfer(b, currency, from, to, amount);
    let b2 = after_transfer(b1, currency, to, from, amount);
    assert(b2 =~= b);
}

/// A transfer moves the amount from one account to the other: their total is unchanged, and
/// so is every other balance.
pub proof fn lemma_transfer_conserves(
    b: Balances,
    currency: CurrencyId,
    from: AccountId,
    to: AccountId,
    amount: Balance,
    w: AccountId,
    c: CurrencyId,
)
    requires
        transfer_ok(b, currency, from, to, amount),
    ensures
        after_transfer(b, currency, from, to, amount)(from, currency) + after_transfer(b, currency, from, to, amount)(
            to,
            currency,
        ) == if from == to {
            2 * b(from, currency)
        } else {
            b(from, currency) + b(to, currency)
        },
        !(c == currency && (w == from || w == to)) ==> after_transfer(b, currency, from, to, amount)(w, c) == b(w, c),
{
}

/// Destroying what was just created succeeds and restores every balance.
pub proof fn lemma_deposit_then_withdraw(b: Balances, currency: CurrencyId, who: AccountId, amount: Balance)
    requires
        deposit_ok(b, currency, who, amount),
    ensures
        withdraw_ok(after_deposit(b, currency, who, amount), currency, who, amount),
        after_withdraw(after_deposit(b, currency, who, amount), currency, who, amount) == b,
{
    assert(after_withdraw(after_deposit(b, currency, who, amount), currency, who, amount) =~= b);
}

} // verus!
