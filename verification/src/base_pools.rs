//! Base liquidity pools: creation, ownership, liquidity balances and identities of pools.
//!
//! The protocol that uses the pools answers two questions for them: whether a pool may be
//! removed, and whether an amount may be withdrawn. The calls that need an answer take it as
//! an argument; the callbacks on disabling and removing are made by the caller after `Ok`.
use vstd::prelude::*;
use crate::error::{BasePoolsError, DispatchError};
use crate::ledger::{after_transfer, transfer_error, transfer_ok, Balances, Ledger};
use crate::primitives::{AccountId, Balance, CurrencyId, IdentityInfo, LiquidityPoolId};
use crate::table::{seq_has_key, Table};

verus! {

/// Liquidity pool information.
#[derive(Clone, Copy, Debug, PartialEq, Eq, Structural)]
pub struct Pool {
    /// The owner of the liquidity pool.
    pub owner: AccountId,
    /// The balance of the liquidity pool.
    pub balance: Balance,
}

impl Pool {
    pub fn new(owner: AccountId, balance: Balance) -> (r: Pool)
        ensures
            r == (Pool { owner, balance }),
    {
        Pool { owner, balance }
    }
}

/// Identity of a pool: the information, the reserved deposit and whether it is verified.
pub struct IdentityRecord {
    pub info: IdentityInfo,
    pub deposit: Balance,
    pub verified: bool,
}

/// The longest accepted legal name, display name, web address, email and image URL.
pub const MAX_LEGAL_NAME_LEN: usize = 100;
pub const MAX_DISPLAY_NAME_LEN: usize = 200;
pub const MAX_WEB_LEN: usize = 100;
pub const MAX_EMAIL_LEN: usize = 50;
pub const MAX_IMAGE_URL_LEN: usize = 100;

/// An identity is accepted when none of its fields is too long.
pub open spec fn identity_fits(info: IdentityInfo) -> bool {
    &&& info.legal_name@.len() <= MAX_LEGAL_NAME_LEN
    &&& info.display_name@.len() <= MAX_DISPLAY_NAME_LEN
    &&& info.web@.len() <= MAX_WEB_LEN
    &&& info.email@.len() <= MAX_EMAIL_LEN
    &&& info.image_url@.len() <= MAX_IMAGE_URL_LEN
}

/// Moving `amount` of the liquidity of pool `pool` to `to` succeeds in the base pools.
pub open spec fn pool_withdraw_ok(base: BaseLiquidityPools, b: Balances, pool: LiquidityPoolId, to: AccountId, amount: Balance) -> bool {
    &&& base.pool(pool) is Some
    &&& base.spec_liquidity(pool) >= amount
    &&& transfer_ok(b, base.spec_currency(), base.spec_account(), to, amount)
}

/// Moving `amount` from `from` into pool `pool` succeeds in the base pools.
pub open spec fn pool_deposit_ok(base: BaseLiquidityPools, b: Balances, pool: LiquidityPoolId, from: AccountId, amount: Balance) -> bool {
    &&& base.pool(pool) is Some
    &&& base.spec_liquidity(pool) + amount <= u128::MAX
    &&& transfer_ok(b, base.spec_currency(), from, base.spec_account(), amount)
}

/// The error of a failing move into a pool.
pub open spec fn pool_deposit_error(base: BaseLiquidityPools, b: Balances, pool: LiquidityPoolId, from: AccountId, amount: Balance) -> DispatchError {
    if base.pool(pool) is None {
        DispatchError::BaseLiquidityPools(BasePoolsError::PoolNotFound)
    } else if base.spec_liquidity(pool) + amount > u128::MAX {
        DispatchError::BaseLiquidityPools(BasePoolsError::LiquidityOverflow)
    } else {
        transfer_error(b, base.spec_currency(), from, amount)
    }
}

/// The error of a failing move out of a pool.
pub open spec fn pool_withdraw_error(base: BaseLiquidityPools, b: Balances, pool: LiquidityPoolId, amount: Balance) -> DispatchError {
    if base.pool(pool) is None {
        DispatchError::BaseLiquidityPools(BasePoolsError::PoolNotFound)
    } else if base.spec_liquidity(pool) < amount {
        DispatchError::BaseLiquidityPools(BasePoolsError::NotEnoughBalance)
    } else {
        transfer_error(b, base.spec_currency(), base.spec_account(), amount)
    }
}

/// The base pools after changing the liquidity of `pool` to `balance`.
pub open spec fn pools_after(before: BaseLiquidityPools, after: BaseLiquidityPools, pool: LiquidityPoolId, balance: int) -> bool {
    &&& after.spec_liquidity(pool) == balance
    &&& before.same_except_balance(&after, pool)
}

/// The base liquidity pools module.
pub struct BaseLiquidityPools {
    pub(crate) next_pool_id: LiquidityPoolId,
    pub(crate) pools: Table<LiquidityPoolId, Pool>,
    pub(crate) identity_infos: Table<LiquidityPoolId, IdentityRecord>,
    pub(crate) account: AccountId,
    pub(crate) currency: CurrencyId,
    pub(crate) existential_deposit: Balance,
    pub(crate) identity_deposit: Balance,
    pub(crate) update_origin: AccountId,
}

fn base_err(e: BasePoolsError) -> (r: DispatchError)
    ensures
        r == DispatchError::BaseLiquidityPools(e),
{
    DispatchError::BaseLiquidityPools(e)
}

impl BaseLiquidityPools {
    pub closed spec fn wf(&self) -> bool {
        self.pools.wf() && self.identity_infos.wf()
    }

    /// The pool stored under `id`.
    pub closed spec fn pool(&self, id: LiquidityPoolId) -> Option<Pool> {
        self.pools.spec_get(id)
    }

    /// Deposit and verification flag of the identity of `id`.
    pub closed spec fn identity(&self, id: LiquidityPoolId) -> Option<(Balance, bool)> {
        match self.identity_infos.spec_get(id) {
            Some(rec) => Some((rec.deposit, rec.verified)),
            None => None,
        }
    }

    /// The information of the identity of `id`.
    pub closed spec fn identity_info(&self, id: LiquidityPoolId) -> Option<IdentityInfo> {
        match self.identity_infos.spec_get(id) {
            Some(rec) => Some(rec.info),
            None => None,
        }
    }

    /// The deposit of the identity of `id`; zero when it has none.
    pub open spec fn deposit_of(&self, id: LiquidityPoolId) -> Balance {
        match self.identity(id) {
            Some((d, _)) => d,
            None => 0,
        }
    }

    /// `after` is `before` with the deposit of the identity of `pool_id` released to `who`;
    /// the same ledger when the pool has no identity.
    pub open spec fn identity_released(&self, before: Ledger, after: Ledger, who: AccountId, pool_id: LiquidityPoolId) -> bool {
        if self.identity(pool_id) is Some {
            before.unreserved_into(&after, who, self.deposit_of(pool_id))
        } else {
            after == before
        }
    }

    /// Ids of the pools, in creation order.
    pub closed spec fn pool_ids(&self) -> Seq<LiquidityPoolId> {
        self.pools.keys()
    }

    pub closed spec fn spec_next_pool_id(&self) -> LiquidityPoolId {
        self.next_pool_id
    }

    /// The account holding the liquidity of all pools.
    pub closed spec fn spec_account(&self) -> AccountId {
        self.account
    }

    /// The currency of the liquidity.
    pub closed spec fn spec_currency(&self) -> CurrencyId {
        self.currency
    }

    pub closed spec fn spec_existential_deposit(&self) -> Balance {
        self.existential_deposit
    }

    pub closed spec fn spec_identity_deposit(&self) -> Balance {
        self.identity_deposit
    }

    pub closed spec fn spec_update_origin(&self) -> AccountId {
        self.update_origin
    }

    /// Liquidity of a pool; zero for an unknown pool.
    pub open spec fn spec_liquidity(&self, id: LiquidityPoolId) -> Balance {
        match self.pool(id) {
            Some(p) => p.balance,
            None => 0,
        }
    }

    pub open spec fn spec_is_owner(&self, id: LiquidityPoolId, who: AccountId) -> bool {
        match self.pool(id) {
            Some(p) => p.owner == who,
            None => false,
        }
    }

    /// The configuration of two states is the same.
    pub open spec fn same_config(&self, other: &BaseLiquidityPools) -> bool {
        &&& other.spec_account() == self.spec_account()
        &&& other.spec_currency() == self.spec_currency()
        &&& other.spec_existential_deposit() == self.spec_existential_deposit()
        &&& other.spec_identity_deposit() == self.spec_identity_deposit()
        &&& other.spec_update_origin() == self.spec_update_origin()
    }

    /// Only the balance of pool `id` may differ between two states.
    pub open spec fn same_except_balance(&self, other: &BaseLiquidityPools, id: LiquidityPoolId) -> bool {
        &&& self.same_config(other)
        &&& other.spec_next_pool_id() == self.spec_next_pool_id()
        &&& other.pool_ids() == self.pool_ids()
        &&& forall|i: LiquidityPoolId| i != id ==> #[trigger] other.pool(i) == self.pool(i)
        &&& forall|i: LiquidityPoolId| #[trigger] other.identity(i) == self.identity(i)
        &&& forall|i: LiquidityPoolId| #[trigger] other.identity_info(i) == self.identity_info(i)
        &&& other.pool(id) is Some == self.pool(id) is Some
        &&& other.pool(id) is Some ==> other.pool(id)->0.owner == self.pool(id)->0.owner
    }

    /// Two states hold the same pools, identities and configuration.
    pub open spec fn same_state(&self, other: &BaseLiquidityPools) -> bool {
        &&& self.same_config(other)
        &&& other.spec_next_pool_id() == self.spec_next_pool_id()
        &&& other.pool_ids() == self.pool_ids()
        &&& forall|i: LiquidityPoolId| #[trigger] other.pool(i) == self.pool(i)
        &&& forall|i: LiquidityPoolId| #[trigger] other.identity(i) == self.identity(i)
        &&& forall|i: LiquidityPoolId| #[trigger] other.identity_info(i) == self.identity_info(i)
    }

    /// Adding to the liquidity of a pool and taking the same amount out again leaves the
    /// pools as they were.
    pub proof fn lemma_balance_round_trip(a: BaseLiquidityPools, c: BaseLiquidityPools, id: LiquidityPoolId)
        requires
            exists|b: BaseLiquidityPools| #[trigger] a.same_except_balance(&b, id) && b.same_except_balance(&c, id),
            c.spec_liquidity(id) == a.spec_liquidity(id),
        ensures
            a.same_state(&c),
    {
        let b = choose|b: BaseLiquidityPools| #[trigger] a.same_except_balance(&b, id) && b.same_except_balance(&c, id);
        if a.pool(id) is Some {
            assert(c.pool(id) == a.pool(id));
        }
    }

    /// Changing only the balance of a pool twice changes only its balance.
    pub proof fn lemma_same_except_balance_trans(a: BaseLiquidityPools, b: BaseLiquidityPools, c: BaseLiquidityPools, id: LiquidityPoolId)
        requires
            a.same_except_balance(&b, id),
            b.same_except_balance(&c, id),
        ensures
            a.same_except_balance(&c, id),
    {
        assert forall|i: LiquidityPoolId| i != id implies #[trigger] c.pool(i) == a.pool(i) by {
            assert(c.pool(i) == b.pool(i));
        }
        assert forall|i: LiquidityPoolId| #[trigger] c.identity(i) == a.identity(i) by {
            assert(c.identity(i) == b.identity(i));
        }
    }

    /// The pool ids are distinct, and they are exactly the ids that have a pool.
    pub proof fn lemma_pool_ids(&self)
        requires
            self.wf(),
        ensures
            forall|i: int, j: int|
                0 <= i < self.pool_ids().len() && 0 <= j < self.pool_ids().len() && i != j
                    ==> self.pool_ids()[i] != self.pool_ids()[j],
            forall|id: LiquidityPoolId| #[trigger] self.pool_ids().contains(id) <==> self.pool(id) is Some,
    {
        self.pools.lemma_wf();
        assert forall|id: LiquidityPoolId| #[trigger] self.pool_ids().contains(id) <==> self.pool(id) is Some by {
            if self.pool_ids().contains(id) {
                let i = choose|i: int| 0 <= i < self.pool_ids().len() && self.pool_ids()[i] == id;
                assert(self.pools.entries()[i].0 == id);
                assert(seq_has_key(self.pools.entries(), id));
            }
            if self.pool(id) is Some {
                assert(self.pools.spec_contains(id));
                let i = choose|i: int| 0 <= i < self.pools.entries().len() && self.pools.entries()[i].0 == id;
                assert(self.pool_ids()[i] == id);
            }
        }
    }

    /// A copy of the pools.
    pub(crate) fn save_pools(&self) -> (r: Table<LiquidityPoolId, Pool>)
        requires
            self.wf(),
        ensures
            r.wf(),
            r.entries() == self.pools.entries(),
    {
        self.pools.snapshot()
    }

    /// Puts back pools saved from `orig`, which differs from `self` at most in the pools.
    pub(crate) fn restore_pools(&mut self, t: Table<LiquidityPoolId, Pool>, Ghost(orig): Ghost<BaseLiquidityPools>)
        requires
            old(self).wf(),
            t.wf(),
            t.entries() == orig.pools.entries(),
            forall|i: LiquidityPoolId| #[trigger] orig.identity(i) == old(self).identity(i),
            forall|i: LiquidityPoolId| #[trigger] orig.identity_info(i) == old(self).identity_info(i),
            orig.spec_next_pool_id() == old(self).spec_next_pool_id(),
            orig.same_config(&*old(self)),
        ensures
            final(self).wf(),
            final(self).same_state(&orig),
    {
        self.pools = t;
    }

    /// A module with no pools; liquidity is held by `account` in `currency`.
    pub fn new(
        account: AccountId,
        currency: CurrencyId,
        existential_deposit: Balance,
        identity_deposit: Balance,
        update_origin: AccountId,
    ) -> (r: BaseLiquidityPools)
        ensures
            r.wf(),
            r.spec_account() == account,
            r.spec_currency() == currency,
            r.spec_existential_deposit() == existential_deposit,
            r.spec_identity_deposit() == identity_deposit,
            r.spec_update_origin() == update_origin,
            r.spec_next_pool_id() == 0,
            forall|i: LiquidityPoolId| #[trigger] r.pool(i) is None,
            forall|i: LiquidityPoolId| #[trigger] r.identity(i) is None,
            r.pool_ids() == Seq::<LiquidityPoolId>::empty(),
    {
        BaseLiquidityPools {
            next_pool_id: 0,
            pools: Table::new(),
            identity_infos: Table::new(),
            account,
            currency,
            existential_deposit,
            identity_deposit,
            update_origin,
        }
    }

    pub fn account_id(&self) -> (r: AccountId)
        ensures
            r == self.spec_account(),
    {
        self.account
    }

    pub fn next_pool_id(&self) -> (r: LiquidityPoolId)
        ensures
            r == self.spec_next_pool_id(),
    {
        self.next_pool_id
    }

    /// The pool stored under `pool_id`.
    pub fn pools(&self, pool_id: LiquidityPoolId) -> (r: Option<Pool>)
        requires
            self.wf(),
        ensures
            r == self.pool(pool_id),
    {
        self.pools.get_copy(&pool_id)
    }

    /// Balance of a liquidity pool; zero for an unknown pool.
    pub fn balance(&self, pool_id: LiquidityPoolId) -> (r: Balance)
        requires
            self.wf(),
        ensures
            r == self.spec_liquidity(pool_id),
    {
        match self.pools.get_copy(&pool_id) {
            Some(p) => p.balance,
            None => 0,
        }
    }

    /// Liquidity of a pool; zero for an unknown pool.
    pub fn liquidity(&self, pool_id: LiquidityPoolId) -> (r: Balance)
        requires
            self.wf(),
        ensures
            r == self.spec_liquidity(pool_id),
    {
        self.balance(pool_id)
    }

    /// Owner of a liquidity pool.
    pub fn owner(&self, pool_id: LiquidityPoolId) -> (r: Option<AccountId>)
        requires
            self.wf(),
        ensures
            r is Some <==> self.pool(pool_id) is Some,
            r is Some ==> r->0 == self.pool(pool_id)->0.owner,
    {
        match self.pools.get_copy(&pool_id) {
            Some(p) => Some(p.owner),
            None => None,
        }
    }

    pub fn is_owner(&self, pool_id: LiquidityPoolId, who: AccountId) -> (r: bool)
        requires
            self.wf(),
        ensures
            r == self.spec_is_owner(pool_id, who),
    {
        match self.owner(pool_id) {
            Some(o) => o == who,
            None => false,
        }
    }

    pub fn pool_exists(&self, pool_id: LiquidityPoolId) -> (r: bool)
        requires
            self.wf(),
        ensures
            r == self.pool(pool_id) is Some,
    {
        self.pools.contains(&pool_id)
    }

    /// All pool ids, in creation order.
    pub fn all(&self) -> (r: Vec<LiquidityPoolId>)
        requires
            self.wf(),
        ensures
            r@ == self.pool_ids(),
    {
        let mut v: Vec<LiquidityPoolId> = Vec::new();
        let n = self.pools.len();
        let mut i: usize = 0;
        while i < n
            invariant
                n == self.pools.entries().len(),
                i <= n,
                v@ == self.pools.entries().subrange(0, i as int).map_values(
                    |e: (LiquidityPoolId, Pool)| e.0,
                ),
            decreases n - i,
        {
            v.push(self.pools.key_at(i));
            i = i + 1;
            assert(self.pools.entries().subrange(0, i as int).drop_last()
                =~= self.pools.entries().subrange(0, i - 1));
            assert(v@ =~= self.pools.entries().subrange(0, i as int).map_values(
                |e: (LiquidityPoolId, Pool)| e.0,
            ));
        }
        assert(self.pools.entries().subrange(0, n as int) =~= self.pools.entries());
        v
    }

    /// Identity of a pool: the information, the deposit and whether it is verified.
    pub fn identity_infos(&self, pool_id: LiquidityPoolId) -> (r: Option<&IdentityRecord>)
        requires
            self.wf(),
        ensures
            r is Some <==> self.identity(pool_id) is Some,
            r is Some ==> (r->0.deposit, r->0.verified) == self.identity(pool_id)->0,
            r is Some <==> self.identity_info(pool_id) is Some,
            r is Some ==> r->0.info == self.identity_info(pool_id)->0,
    {
        self.identity_infos.get(&pool_id)
    }

    /// Creates a pool owned by `who` with no liquidity, under the next pool id.
    pub fn create_pool(&mut self, who: AccountId) -> (r: Result<LiquidityPoolId, DispatchError>)
        requires
            old(self).wf(),
        ensures
            final(self).wf(),
            final(self).same_config(&*old(self)),
            r is Ok <==> old(self).spec_next_pool_id() < u32::MAX,
            r is Err ==> r == Err::<LiquidityPoolId, DispatchError>(
                DispatchError::BaseLiquidityPools(BasePoolsError::NoAvailablePoolId),
            ) && *final(self) == *old(self),
            r is Ok ==> {
                let id = old(self).spec_next_pool_id();
                &&& r->Ok_0 == id
                &&& final(self).spec_next_pool_id() == id + 1
                &&& final(self).pool(id) == Some(Pool { owner: who, balance: 0 })
                &&& forall|i: LiquidityPoolId| i != id ==> #[trigger] final(self).pool(i) == old(
                    self,
                ).pool(i)
                &&& forall|i: LiquidityPoolId| #[trigger] final(self).identity(i) == old(
                    self,
                ).identity(i)
            },
    {
        let pool_id = self.next_pool_id;
        let next = match pool_id.checked_add(1) {
            Some(n) => n,
            None => {
                return Err(base_err(BasePoolsError::NoAvailablePoolId));
            },
        };
        self.next_pool_id = next;
        self.pools.insert(pool_id, Pool::new(who, 0));
        Ok(pool_id)
    }

    /// Checks that `who` may disable `pool_id`; the caller then disables the pool in the
    /// protocol that uses it.
    pub fn disable_pool(&self, who: AccountId, pool_id: LiquidityPoolId) -> (r: Result<(), DispatchError>)
        requires
            self.wf(),
        ensures
            r is Ok <==> self.spec_is_owner(pool_id, who),
            r is Err ==> r == Err::<(), DispatchError>(
                DispatchError::BaseLiquidityPools(BasePoolsError::NoPermission),
            ),
    {
        if !self.is_owner(pool_id, who) {
            return Err(base_err(BasePoolsError::NoPermission));
        }
        Ok(())
    }

    /// Removes the identity of `pool_id`, releasing its deposit to `who`.
    fn clear_identity_of(&mut self, ledger: &mut Ledger, who: AccountId, pool_id: LiquidityPoolId)
        requires
            old(self).wf(),
            old(ledger).wf(),
        ensures
            final(self).wf(),
            final(ledger).wf(),
            final(self).same_config(&*old(self)),
            final(self).spec_next_pool_id() == old(self).spec_next_pool_id(),
            final(self).pool_ids() == old(self).pool_ids(),
            forall|i: LiquidityPoolId| #[trigger] final(self).pool(i) == old(self).pool(i),
            forall|i: LiquidityPoolId| #[trigger]
                final(self).identity(i) == if i == pool_id {
                    None
                } else {
                    old(self).identity(i)
                },
            old(self).identity_released(*old(ledger), *final(ledger), who, pool_id),
    {
        let deposit = match self.identity_infos.get(&pool_id) {
            Some(rec) => Some(rec.deposit),
            None => None,
        };
        if let Some(d) = deposit {
            ledger.unreserve(who, d);
            self.identity_infos.remove(&pool_id);
        }
    }

    /// Removes a pool owned by `who`, paying its liquidity out to `who`. `can_remove` is the
    /// answer of the protocol that uses the pool: whether it holds no liability in the pool.
    pub fn remove_pool(
        &mut self,
        ledger: &mut Ledger,
        who: AccountId,
        pool_id: LiquidityPoolId,
        can_remove: bool,
    ) -> (r: Result<(), DispatchError>)
        requires
            old(self).wf(),
            old(ledger).wf(),
        ensures
            final(self).wf(),
            final(ledger).wf(),
            final(self).same_config(&*old(self)),
            !old(self).spec_is_owner(pool_id, who) ==> r == Err::<(), DispatchError>(
                DispatchError::BaseLiquidityPools(BasePoolsError::NoPermission),
            ),
            old(self).spec_is_owner(pool_id, who) && !can_remove ==> r == Err::<(), DispatchError>(
                DispatchError::BaseLiquidityPools(BasePoolsError::CannotRemovePool),
            ),
            r is Err ==> *final(self) == *old(self) && *final(ledger) == *old(ledger),
            r is Ok <==> old(self).spec_is_owner(pool_id, who) && can_remove && (old(
                self,
            ).spec_liquidity(pool_id) == 0 || old(self).spec_account() == who || (old(ledger).balance(
                old(self).spec_account(),
                old(self).spec_currency(),
            ) >= old(self).spec_liquidity(pool_id) && old(ledger).balance(
                who,
                old(self).spec_currency(),
            ) + old(self).spec_liquidity(pool_id) <= u128::MAX)),
            r is Ok ==> {
                &&& final(self).pool(pool_id) is None
                &&& final(self).identity(pool_id) is None
                &&& forall|i: LiquidityPoolId| i != pool_id ==> #[trigger] final(self).pool(i) == old(
                    self,
                ).pool(i)
                &&& forall|i: LiquidityPoolId| i != pool_id ==> #[trigger] final(self).identity(i)
                    == old(self).identity(i)
                &&& final(self).spec_next_pool_id() == old(self).spec_next_pool_id()
                &&& exists|mid: Ledger| #![trigger old(self).identity_released(mid, *final(ledger), who, pool_id)]
                    {
                        &&& mid.view() == after_transfer(
                            old(ledger).view(),
                            old(self).spec_currency(),
                            old(self).spec_account(),
                            who,
                            old(self).spec_liquidity(pool_id),
                        )
                        &&& old(ledger).same_reserved(&mid)
                        &&& old(self).identity_released(mid, *final(ledger), who, pool_id)
                    }
            },
    {
        if !self.is_owner(pool_id, who) {
            return Err(base_err(BasePoolsError::NoPermission));
        }
        if !can_remove {
            return Err(base_err(BasePoolsError::CannotRemovePool));
        }
        let balance = self.balance(pool_id);
        let account = self.account;
        ledger.transfer(self.currency, account, who, balance)?;
        let ghost mid = *ledger;
        let ghost s0 = *self;
        self.clear_identity_of(ledger, who, pool_id);
        assert(old(self).identity_released(mid, *ledger, who, pool_id));
        let ghost s1 = *self;
        self.pools.remove(&pool_id);
        proof {
            assert forall|i: LiquidityPoolId| i != pool_id implies #[trigger] self.pool(i) == s0.pool(i) by {
                assert(s1.pool(i) == s0.pool(i));
            }
            assert forall|i: LiquidityPoolId| #[trigger] self.identity(i) == s1.identity(i) by {}
        }
        Ok(())
    }

    /// Moves `amount` from `source` into pool `pool_id`.
    pub fn deposit_liquidity(
        &mut self,
        ledger: &mut Ledger,
        source: AccountId,
        pool_id: LiquidityPoolId,
        amount: Balance,
    ) -> (r: Result<(), DispatchError>)
        requires
            old(self).wf(),
            old(ledger).wf(),
        ensures
            final(self).wf(),
            final(ledger).wf(),
            old(ledger).same_reserved(&*final(ledger)),
            old(self).pool(pool_id) is None ==> r == Err::<(), DispatchError>(
                DispatchError::BaseLiquidityPools(BasePoolsError::PoolNotFound),
            ),
            old(self).pool(pool_id) is Some && old(self).spec_liquidity(pool_id) + amount
                > u128::MAX ==> r == Err::<(), DispatchError>(
                DispatchError::BaseLiquidityPools(BasePoolsError::LiquidityOverflow),
            ),
            r is Err ==> *final(self) == *old(self) && *final(ledger) == *old(ledger),
            r is Ok <==> old(self).pool(pool_id) is Some && old(self).spec_liquidity(pool_id) + amount
                <= u128::MAX && (amount == 0 || source == old(self).spec_account() || (old(
                ledger,
            ).balance(source, old(self).spec_currency()) >= amount && old(ledger).balance(
                old(self).spec_account(),
                old(self).spec_currency(),
            ) + amount <= u128::MAX)),
            r is Ok <==> old(self).pool(pool_id) is Some && old(self).spec_liquidity(pool_id) + amount
                <= u128::MAX && transfer_ok(old(ledger).view(), old(self).spec_currency(), source, old(self).spec_account(), amount),
            r is Ok ==> final(ledger).view() == after_transfer(old(ledger).view(), old(self).spec_currency(), source, old(self).spec_account(), amount),
            r is Err && old(self).pool(pool_id) is Some && old(self).spec_liquidity(pool_id) + amount <= u128::MAX
                ==> r == Err::<(), DispatchError>(transfer_error(old(ledger).view(), old(self).spec_currency(), source, amount)),
            r is Err ==> final(ledger).view() == old(ledger).view(),
            r is Ok ==> {
                &&& final(self).spec_liquidity(pool_id) == old(self).spec_liquidity(pool_id) + amount
                &&& old(self).same_except_balance(&*final(self), pool_id)
                &&& (amount > 0 && source != old(self).spec_account()) ==> {
                    &&& final(ledger).balance(source, old(self).spec_currency()) == old(ledger).balance(
                        source,
                        old(self).spec_currency(),
                    ) - amount
                    &&& final(ledger).balance(old(self).spec_account(), old(self).spec_currency())
                        == old(ledger).balance(old(self).spec_account(), old(self).spec_currency())
                        + amount
                }
            },
    {
        if !self.pool_exists(pool_id) {
            return Err(base_err(BasePoolsError::PoolNotFound));
        }
        let new_balance = match self.balance(pool_id).checked_add(amount) {
            Some(b) => b,
            None => {
                return Err(base_err(BasePoolsError::LiquidityOverflow));
            },
        };
        let account = self.account;
        ledger.transfer(self.currency, source, account, amount)?;
        self.set_balance(pool_id, new_balance);
        Ok(())
    }

    /// Moves `amount` from pool `pool_id` to `dest`.
    pub fn withdraw_liquidity_to(
        &mut self,
        ledger: &mut Ledger,
        dest: AccountId,
        pool_id: LiquidityPoolId,
        amount: Balance,
    ) -> (r: Result<(), DispatchError>)
        requires
            old(self).wf(),
            old(ledger).wf(),
        ensures
            final(self).wf(),
            final(ledger).wf(),
            old(ledger).same_reserved(&*final(ledger)),
            old(self).pool(pool_id) is None ==> r == Err::<(), DispatchError>(
                DispatchError::BaseLiquidityPools(BasePoolsError::PoolNotFound),
            ),
            old(self).pool(pool_id) is Some && old(self).spec_liquidity(pool_id) < amount ==> r
                == Err::<(), DispatchError>(
                DispatchError::BaseLiquidityPools(BasePoolsError::NotEnoughBalance),
            ),
            r is Err ==> *final(self) == *old(self) && *final(ledger) == *old(ledger),
            r is Ok <==> old(self).pool(pool_id) is Some && old(self).spec_liquidity(pool_id) >= amount
                && (amount == 0 || dest == old(self).spec_account() || (old(ledger).balance(
                old(self).spec_account(),
                old(self).spec_currency(),
            ) >= amount && old(ledger).balance(dest, old(self).spec_currency()) + amount
                <= u128::MAX)),
            r is Ok <==> old(self).pool(pool_id) is Some && old(self).spec_liquidity(pool_id) >= amount
                && transfer_ok(old(ledger).view(), old(self).spec_currency(), old(self).spec_account(), dest, amount),
            r is Ok ==> final(ledger).view() == after_transfer(old(ledger).view(), old(self).spec_currency(), old(self).spec_account(), dest, amount),
            r is Err && old(self).pool(pool_id) is Some && old(self).spec_liquidity(pool_id) >= amount
                ==> r == Err::<(), DispatchError>(transfer_error(old(ledger).view(), old(self).spec_currency(), old(self).spec_account(), amount)),
            r is Err ==> final(ledger).view() == old(ledger).view(),
            r is Ok ==> {
                &&& final(self).spec_liquidity(pool_id) == old(self).spec_liquidity(pool_id) - amount
                &&& old(self).same_except_balance(&*final(self), pool_id)
                &&& (amount > 0 && dest != old(self).spec_account()) ==> {
                    &&& final(ledger).balance(dest, old(self).spec_currency()) == old(ledger).balance(
                        dest,
                        old(self).spec_currency(),
                    ) + amount
                    &&& final(ledger).balance(old(self).spec_account(), old(self).spec_currency())
                        == old(ledger).balance(old(self).spec_account(), old(self).spec_currency())
                        - amount
                }
            },
    {
        if !self.pool_exists(pool_id) {
            return Err(base_err(BasePoolsError::PoolNotFound));
        }
        let balance = self.balance(pool_id);
        if balance < amount {
            return Err(base_err(BasePoolsError::NotEnoughBalance));
        }
        let account = self.account;
        ledger.transfer(self.currency, account, dest, amount)?;
        self.set_balance(pool_id, balance - amount);
        Ok(())
    }

    fn set_balance(&mut self, pool_id: LiquidityPoolId, balance: Balance)
        requires
            old(self).wf(),
            old(self).pool(pool_id) is Some,
        ensures
            final(self).wf(),
            final(self).spec_liquidity(pool_id) == balance,
            old(self).same_except_balance(&*final(self), pool_id),
    {
        proof {
            self.pools.lemma_wf();
        }
        let p = self.pools.get_copy(&pool_id).unwrap();
        assert(self.pools.spec_contains(pool_id));
        assert(seq_has_key(self.pools.entries(), pool_id));
        let ghost s0 = *self;
        self.pools.insert(pool_id, Pool { owner: p.owner, balance });
        proof {
            assert(self.pool_ids() == s0.pool_ids());
            assert forall|i: LiquidityPoolId| #[trigger] self.identity(i) == s0.identity(i) by {}
            assert forall|i: LiquidityPoolId| i != pool_id implies #[trigger] self.pool(i) == s0.pool(i) by {}
        }
    }

    /// Withdraws `amount` from pool `pool_id` to its owner `who`. `manager_check` is the
    /// answer of the protocol that uses the pool to whether `amount` may leave it.
    pub fn withdraw_liquidity(
        &mut self,
        ledger: &mut Ledger,
        who: AccountId,
        pool_id: LiquidityPoolId,
        amount: Balance,
        manager_check: Result<(), DispatchError>,
    ) -> (r: Result<(), DispatchError>)
        requires
            old(self).wf(),
            old(ledger).wf(),
        ensures
            final(self).wf(),
            final(ledger).wf(),
            old(ledger).same_reserved(&*final(ledger)),
            !old(self).spec_is_owner(pool_id, who) ==> r == Err::<(), DispatchError>(
                DispatchError::BaseLiquidityPools(BasePoolsError::NoPermission),
            ),
            old(self).spec_is_owner(pool_id, who) && manager_check is Err ==> r == manager_check,
            old(self).spec_is_owner(pool_id, who) && manager_check is Ok && old(self).spec_liquidity(
                pool_id,
            ) < amount ==> r == Err::<(), DispatchError>(
                DispatchError::BaseLiquidityPools(BasePoolsError::NotEnoughBalance),
            ),
            old(self).spec_is_owner(pool_id, who) && manager_check is Ok && old(self).spec_liquidity(
                pool_id,
            ) >= amount && old(self).spec_liquidity(pool_id) - amount < old(
                self,
            ).spec_existential_deposit() ==> r == Err::<(), DispatchError>(
                DispatchError::BaseLiquidityPools(BasePoolsError::CannotWithdrawExistentialDeposit),
            ),
            r is Err ==> *final(self) == *old(self) && *final(ledger) == *old(ledger),
            r is Ok <==> old(self).spec_is_owner(pool_id, who) && manager_check is Ok && old(
                self,
            ).spec_liquidity(pool_id) >= amount && old(self).spec_liquidity(pool_id) - amount >= old(
                self,
            ).spec_existential_deposit() && (amount == 0 || who == old(self).spec_account() || (old(
                ledger,
            ).balance(old(self).spec_account(), old(self).spec_currency()) >= amount && old(
                ledger,
            ).balance(who, old(self).spec_currency()) + amount <= u128::MAX)),
            r is Ok ==> final(self).spec_liquidity(pool_id) == old(self).spec_liquidity(pool_id)
                - amount && old(self).same_except_balance(&*final(self), pool_id),
    {
        if !self.is_owner(pool_id, who) {
            return Err(base_err(BasePoolsError::NoPermission));
        }
        manager_check?;
        let balance = self.balance(pool_id);
        if balance < amount {
            return Err(base_err(BasePoolsError::NotEnoughBalance));
        }
        if balance - amount < self.existential_deposit {
            return Err(base_err(BasePoolsError::CannotWithdrawExistentialDeposit));
        }
        self.withdraw_liquidity_to(ledger, who, pool_id, amount)
    }

    /// Sets the identity of a pool owned by `who`. The first identity of a pool reserves the
    /// identity deposit from `who`; a later one keeps the deposit. A new identity is not
    /// verified.
    pub fn set_identity(
        &mut self,
        ledger: &mut Ledger,
        who: AccountId,
        pool_id: LiquidityPoolId,
        identity_info: IdentityInfo,
    ) -> (r: Result<(), DispatchError>)
        requires
            old(self).wf(),
            old(ledger).wf(),
        ensures
            final(self).wf(),
            final(ledger).wf(),
            final(self).same_config(&*old(self)),
            !old(self).spec_is_owner(pool_id, who) ==> r == Err::<(), DispatchError>(
                DispatchError::BaseLiquidityPools(BasePoolsError::NoPermission),
            ),
            old(self).spec_is_owner(pool_id, who) && !identity_fits(identity_info) ==> r == Err::<
                (),
                DispatchError,
            >(DispatchError::BaseLiquidityPools(BasePoolsError::IdentityInfoTooLong)),
            r is Err ==> *final(self) == *old(self) && *final(ledger) == *old(ledger),
            r is Ok <==> old(self).spec_is_owner(pool_id, who) && identity_fits(identity_info) && (old(
                self,
            ).identity(pool_id) is Some || (old(ledger).balance(who, CurrencyId::LAMI) >= old(
                self,
            ).spec_identity_deposit() && old(ledger).reserved_balance(who) + old(
                self,
            ).spec_identity_deposit() <= u128::MAX)),
            r is Ok ==> {
                &&& old(self).identity(pool_id) is Some ==> final(self).identity(pool_id) == Some(
                    (old(self).deposit_of(pool_id), false),
                ) && *final(ledger) == *old(ledger)
                &&& old(self).identity(pool_id) is None ==> final(self).identity(pool_id) == Some(
                    (old(self).spec_identity_deposit(), false),
                ) && old(ledger).reserved_into(&*final(ledger), who, old(self).spec_identity_deposit())
                &&& forall|i: LiquidityPoolId| i != pool_id ==> #[trigger] final(self).identity(i)
                    == old(self).identity(i)
                &&& final(self).identity_info(pool_id) == Some(identity_info)
                &&& forall|i: LiquidityPoolId| i != pool_id ==> #[trigger] final(self).identity_info(i)
                    == old(self).identity_info(i)
                &&& forall|i: LiquidityPoolId| #[trigger] final(self).pool(i) == old(self).pool(i)
            },
    {
        if !self.is_owner(pool_id, who) {
            return Err(base_err(BasePoolsError::NoPermission));
        }
        if !(identity_info.legal_name.len() <= MAX_LEGAL_NAME_LEN && identity_info.display_name.len()
            <= MAX_DISPLAY_NAME_LEN && identity_info.web.len() <= MAX_WEB_LEN
            && identity_info.email.len() <= MAX_EMAIL_LEN && identity_info.image_url.len()
            <= MAX_IMAGE_URL_LEN) {
            return Err(base_err(BasePoolsError::IdentityInfoTooLong));
        }
        let existing = match self.identity_infos.get(&pool_id) {
            Some(rec) => Some(rec.deposit),
            None => None,
        };
        match existing {
            Some(deposit) => {
                self.identity_infos.insert(
                    pool_id,
                    IdentityRecord { info: identity_info, deposit, verified: false },
                );
            },
            None => {
                let deposit = self.identity_deposit;
                ledger.reserve(who, deposit)?;
                self.identity_infos.insert(
                    pool_id,
                    IdentityRecord { info: identity_info, deposit, verified: false },
                );
            },
        }
        Ok(())
    }

    /// Marks the identity of a pool as verified. May only be called from the update origin.
    pub fn verify_identity(&mut self, origin: AccountId, pool_id: LiquidityPoolId) -> (r: Result<
        (),
        DispatchError,
    >)
        requires
            old(self).wf(),
        ensures
            final(self).wf(),
            final(self).same_config(&*old(self)),
            origin != old(self).spec_update_origin() ==> r == Err::<(), DispatchError>(
                DispatchError::BadOrigin,
            ),
            origin == old(self).spec_update_origin() && old(self).identity(pool_id) is None ==> r
                == Err::<(), DispatchError>(
                DispatchError::BaseLiquidityPools(BasePoolsError::IdentityInfoNotFound),
            ),
            r is Err ==> *final(self) == *old(self),
            r is Ok <==> origin == old(self).spec_update_origin() && old(self).identity(pool_id) is Some,
            r is Ok ==> final(self).identity(pool_id) == Some((old(self).deposit_of(pool_id), true))
                && forall|i: LiquidityPoolId| i != pool_id ==> #[trigger] final(self).identity(i)
                == old(self).identity(i),
            r is Ok ==> forall|i: LiquidityPoolId| #[trigger] final(self).identity_info(i) == old(self).identity_info(i),
            r is Ok ==> forall|i: LiquidityPoolId| #[trigger] final(self).pool(i) == old(self).pool(i),
    {
        if origin != self.update_origin {
            return Err(DispatchError::BadOrigin);
        }
        if !self.identity_infos.contains(&pool_id) {
            return Err(base_err(BasePoolsError::IdentityInfoNotFound));
        }
        let rec = self.identity_infos.remove(&pool_id).unwrap();
        self.identity_infos.insert(
            pool_id,
            IdentityRecord { info: rec.info, deposit: rec.deposit, verified: true },
        );
        Ok(())
    }

    /// Removes the identity of a pool owned by `who`, releasing the deposit.
    pub fn clear_identity(&mut self, ledger: &mut Ledger, who: AccountId, pool_id: LiquidityPoolId) -> (r:
        Result<(), DispatchError>)
        requires
            old(self).wf(),
            old(ledger).wf(),
        ensures
            final(self).wf(),
            final(ledger).wf(),
            final(self).same_config(&*old(self)),
            old(self).identity(pool_id) is None ==> r == Err::<(), DispatchError>(
                DispatchError::BaseLiquidityPools(BasePoolsError::IdentityInfoNotFound),
            ),
            old(self).identity(pool_id) is Some && !old(self).spec_is_owner(pool_id, who) ==> r
                == Err::<(), DispatchError>(
                DispatchError::BaseLiquidityPools(BasePoolsError::NoPermission),
            ),
            r is Err ==> *final(self) == *old(self) && *final(ledger) == *old(ledger),
            r is Ok <==> old(self).identity(pool_id) is Some && old(self).spec_is_owner(pool_id, who),
            r is Ok ==> final(self).identity(pool_id) is None && forall|i: LiquidityPoolId|
                i != pool_id ==> #[trigger] final(self).identity(i) == old(self).identity(i),
            r is Ok ==> old(self).identity_released(*old(ledger), *final(ledger), who, pool_id),
            r is Ok ==> forall|i: LiquidityPoolId| #[trigger] final(self).pool(i) == old(self).pool(i),
    {
        if !self.identity_infos.contains(&pool_id) {
            return Err(base_err(BasePoolsError::IdentityInfoNotFound));
        }
        if !self.is_owner(pool_id, who) {
            return Err(base_err(BasePoolsError::NoPermission));
        }
        self.clear_identity_of(ledger, who, pool_id);
        Ok(())
    }

    /// Gives pool `pool_id`, owned by `who`, to `to`; its identity is cleared.
    pub fn transfer_liquidity_pool(
        &mut self,
        ledger: &mut Ledger,
        who: AccountId,
        pool_id: LiquidityPoolId,
        to: AccountId,
    ) -> (r: Result<(), DispatchError>)
        requires
            old(self).wf(),
            old(ledger).wf(),
        ensures
            final(self).wf(),
            final(ledger).wf(),
            final(self).same_config(&*old(self)),
            r is Ok <==> old(self).spec_is_owner(pool_id, who),
            r is Err ==> r == Err::<(), DispatchError>(
                DispatchError::BaseLiquidityPools(BasePoolsError::NoPermission),
            ) && *final(self) == *old(self) && *final(ledger) == *old(ledger),
            r is Ok ==> {
                &&& final(self).pool(pool_id) == Some(
                    Pool { owner: to, balance: old(self).spec_liquidity(pool_id) },
                )
                &&& final(self).identity(pool_id) is None
                &&& forall|i: LiquidityPoolId| i != pool_id ==> #[trigger] final(self).pool(i) == old(
                    self,
                ).pool(i)
                &&& forall|i: LiquidityPoolId| i != pool_id ==> #[trigger] final(self).identity(i)
                    == old(self).identity(i)
                &&& old(self).identity_released(*old(ledger), *final(ledger), who, pool_id)
            },
    {
        if !self.is_owner(pool_id, who) {
            return Err(base_err(BasePoolsError::NoPermission));
        }
        let ghost before = *self;
        self.clear_identity_of(ledger, who, pool_id);
        assert(self.pool(pool_id) == before.pool(pool_id));
        let p = self.pools.get_copy(&pool_id).unwrap();
        let ghost s1 = *self;
        self.pools.insert(pool_id, Pool { owner: to, balance: p.balance });
        proof {
            assert forall|i: LiquidityPoolId| i != pool_id implies #[trigger] self.pool(i) == before.pool(i) by {
                assert(s1.pool(i) == before.pool(i));
            }
            assert forall|i: LiquidityPoolId| #[trigger] self.identity(i) == s1.identity(i) by {}
        }
        Ok(())
    }
}

} // verus!
