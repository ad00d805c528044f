//! The oracle: operators feed values for keys; each operator's latest value of a key is
//! kept with the time it was fed.
use vstd::prelude::*;
use crate::error::{DispatchError, OracleError};
use crate::fixed::Price;
use crate::primitives::{AccountId, CurrencyId, Moment};
use crate::table::{Table, TableKey};

verus! {

/// A value and the time it was fed.
#[derive(Clone, Copy, Debug, PartialEq, Eq, Structural)]
pub struct TimestampedValue {
    pub value: Price,
    pub timestamp: Moment,
}

/// Key of the values fed by an operator.
#[derive(Clone, Copy, Debug, PartialEq, Eq, Structural)]
pub struct OperatorKey {
    pub operator: AccountId,
    pub key: CurrencyId,
}

impl TableKey for OperatorKey {
    fn key_eq(&self, other: &Self) -> (r: bool) {
        *self == *other
    }
}

/// The oracle module.
pub struct Oracle {
    pub(crate) operators: Vec<AccountId>,
    pub(crate) raw_values: Table<OperatorKey, TimestampedValue>,
    pub(crate) has_update: Table<CurrencyId, bool>,
    pub(crate) root: AccountId,
}

/// The values fed for `key` by the operators in `ops`, in their order; operators that fed
/// none are skipped.
pub open spec fn raw_values_of(ops: Seq<AccountId>, raw: spec_fn(AccountId) -> Option<TimestampedValue>) -> Seq<
    TimestampedValue,
>
    decreases ops.len(),
{
    if ops.len() == 0 {
        Seq::empty()
    } else {
        let rest = raw_values_of(ops.drop_last(), raw);
        match raw(ops.last()) {
            Some(v) => rest.push(v),
            None => rest,
        }
    }
}

impl Oracle {
    pub closed spec fn wf(&self) -> bool {
        self.raw_values.wf() && self.has_update.wf()
    }

    /// The operators, in the order they were added; an operator added twice is listed twice.
    pub closed spec fn spec_operators(&self) -> Seq<AccountId> {
        self.operators@
    }

    /// The latest value of `key` fed by `operator`.
    pub closed spec fn raw_value(&self, operator: AccountId, key: CurrencyId) -> Option<TimestampedValue> {
        self.raw_values.spec_get(OperatorKey { operator, key })
    }

    /// Whether a value of `key` was fed.
    pub closed spec fn spec_has_update(&self, key: CurrencyId) -> bool {
        self.has_update.spec_get(key) == Some(true)
    }

    pub closed spec fn spec_root(&self) -> AccountId {
        self.root
    }

    /// The latest values of `key` as a function of the operator.
    pub open spec fn raw_of(&self, key: CurrencyId) -> spec_fn(AccountId) -> Option<TimestampedValue> {
        |o: AccountId| self.raw_value(o, key)
    }

    /// An oracle with no operators; `root` manages them.
    pub fn new(root: AccountId) -> (r: Oracle)
        ensures
            r.wf(),
            r.spec_operators() == Seq::<AccountId>::empty(),
            forall|o: AccountId, k: CurrencyId| #[trigger] r.raw_value(o, k) is None,
            forall|k: CurrencyId| !#[trigger] r.spec_has_update(k),
            r.spec_root() == root,
    {
        Oracle { operators: Vec::new(), raw_values: Table::new(), has_update: Table::new(), root }
    }

    /// The operators.
    pub fn operators(&self) -> (r: Vec<AccountId>)
        ensures
            r@ == self.spec_operators(),
    {
        self.operators.clone()
    }

    /// Whether `who` is an operator.
    pub fn is_operator(&self, who: AccountId) -> (r: bool)
        ensures
            r == self.spec_operators().contains(who),
    {
        let mut i: usize = 0;
        while i < self.operators.len()
            invariant
                i <= self.operators@.len(),
                forall|j: int| 0 <= j < i ==> self.operators@[j] != who,
            decreases self.operators@.len() - i,
        {
            if self.operators[i] == who {
                assert(self.operators@[i as int] == who);
                return true;
            }
            i = i + 1;
        }
        false
    }

    /// Whether a value of `key` was fed.
    pub fn has_update(&self, key: CurrencyId) -> (r: bool)
        requires
            self.wf(),
        ensures
            r == self.spec_has_update(key),
    {
        match self.has_update.get_copy(&key) {
            Some(b) => b,
            None => false,
        }
    }

    /// The latest value of `key` fed by `operator`.
    pub fn raw_values(&self, operator: AccountId, key: CurrencyId) -> (r: Option<TimestampedValue>)
        requires
            self.wf(),
        ensures
            r == self.raw_value(operator, key),
    {
        self.raw_values.get_copy(&OperatorKey { operator, key })
    }

    /// Adds `operator`. May only be called from root.
    pub fn add_operator(&mut self, origin: AccountId, operator: AccountId) -> (r: Result<(), DispatchError>)
        requires
            old(self).wf(),
        ensures
            final(self).wf(),
            r is Ok <==> origin == old(self).spec_root(),
            r is Err ==> r == Err::<(), DispatchError>(DispatchError::BadOrigin) && *final(self) == *old(self),
            r is Ok ==> final(self).spec_operators() == old(self).spec_operators().push(operator),
            forall|o: AccountId, k: CurrencyId| #[trigger] final(self).raw_value(o, k) == old(self).raw_value(o, k),
            forall|k: CurrencyId| #[trigger] final(self).spec_has_update(k) == old(self).spec_has_update(k),
            final(self).spec_root() == old(self).spec_root(),
    {
        if origin != self.root {
            return Err(DispatchError::BadOrigin);
        }
        self.operators.push(operator);
        Ok(())
    }

    /// Removes the first occurrence of `operator`. May only be called from root; from root,
    /// `operator` must be one.
    pub fn remove_operator(&mut self, origin: AccountId, operator: AccountId) -> (r: Result<(), DispatchError>)
        requires
            old(self).wf(),
            origin == old(self).spec_root() ==> old(self).spec_operators().contains(operator),
        ensures
            final(self).wf(),
            r is Ok <==> origin == old(self).spec_root(),
            r is Err ==> r == Err::<(), DispatchError>(DispatchError::BadOrigin) && *final(self) == *old(self),
            r is Ok ==> exists|i: int|
                0 <= i < old(self).spec_operators().len() && old(self).spec_operators()[i] == operator && (forall|j: int|
                    0 <= j < i ==> old(self).spec_operators()[j] != operator) && final(self).spec_operators() == old(
                    self,
                ).spec_operators().remove(i),
            forall|o: AccountId, k: CurrencyId| #[trigger] final(self).raw_value(o, k) == old(self).raw_value(o, k),
            forall|k: CurrencyId| #[trigger] final(self).spec_has_update(k) == old(self).spec_has_update(k),
            final(self).spec_root() == old(self).spec_root(),
    {
        if origin != self.root {
            return Err(DispatchError::BadOrigin);
        }
        let mut i: usize = 0;
        while i < self.operators.len() && self.operators[i] != operator
            invariant
                i <= self.operators@.len(),
                self.operators@.contains(operator),
                forall|j: int| 0 <= j < i ==> self.operators@[j] != operator,
            decreases self.operators@.len() - i,
        {
            i = i + 1;
        }
        proof {
            if i == self.operators@.len() {
                let j = choose|j: int| 0 <= j < self.operators@.len() && self.operators@[j] == operator;
                assert(self.operators@[j] != operator);
            }
        }
        self.operators.remove(i);
        Ok(())
    }

    /// Feeds `value` of `key` from `who` at time `now`; `who` must be an operator.
    pub fn feed_data(&mut self, who: AccountId, key: CurrencyId, value: Price, now: Moment) -> (r: Result<
        (),
        DispatchError,
    >)
        requires
            old(self).wf(),
        ensures
            final(self).wf(),
            r is Ok <==> old(self).spec_operators().contains(who),
            r is Err ==> r == Err::<(), DispatchError>(DispatchError::Oracle(OracleError::NotOperator)) && *final(self)
                == *old(self),
            r is Ok ==> final(self).raw_value(who, key) == Some(TimestampedValue { value, timestamp: now })
                && final(self).spec_has_update(key),
            r is Ok ==> forall|o: AccountId, k: CurrencyId|
                !(o == who && k == key) ==> #[trigger] final(self).raw_value(o, k) == old(self).raw_value(o, k),
            r is Ok ==> forall|k: CurrencyId| k != key ==> #[trigger] final(self).spec_has_update(k) == old(
                self,
            ).spec_has_update(k),
            final(self).spec_operators() == old(self).spec_operators(),
            final(self).spec_root() == old(self).spec_root(),
    {
        if !self.is_operator(who) {
            return Err(DispatchError::Oracle(OracleError::NotOperator));
        }
        self.raw_values.insert(OperatorKey { operator: who, key }, TimestampedValue { value, timestamp: now });
        self.has_update.insert(key, true);
        proof {
            assert forall|o: AccountId, k: CurrencyId| !(o == who && k == key) implies #[trigger] self.raw_value(o, k)
                == old(self).raw_value(o, k) by {
                assert(OperatorKey { operator: o, key: k } != OperatorKey { operator: who, key });
            }
        }
        Ok(())
    }

    /// The latest values of `key`, one for each operator that fed one, in the order of the
    /// operators.
    pub fn read_raw_values(&self, key: CurrencyId) -> (r: Vec<TimestampedValue>)
        requires
            self.wf(),
        ensures
            r@ == raw_values_of(self.spec_operators(), self.raw_of(key)),
    {
        let mut r: Vec<TimestampedValue> = Vec::new();
        let mut i: usize = 0;
        while i < self.operators.len()
            invariant
                self.wf(),
                i <= self.operators@.len(),
                r@ == raw_values_of(self.operators@.take(i as int), self.raw_of(key)),
            decreases self.operators@.len() - i,
        {
            let o = self.operators[i];
            assert(self.operators@.take(i + 1).drop_last() =~= self.operators@.take(i as int));
            if let Some(v) = self.raw_values(o, key) {
                r.push(v);
            }
            i = i + 1;
        }
        assert(self.operators@.take(self.operators@.len() as int) =~= self.operators@);
        r
    }
}

/// A value that an operator fed for a key is among the values read for that key.
pub proof fn lemma_fed_value_is_read(
    ops: Seq<AccountId>,
    raw: spec_fn(AccountId) -> Option<TimestampedValue>,
    who: AccountId,
)
    requires
        ops.contains(who),
        raw(who) is Some,
    ensures
        raw_values_of(ops, raw).contains(raw(who)->0),
    decreases ops.len(),
{
    let v = raw(who)->0;
    let rest = raw_values_of(ops.drop_last(), raw);
    if ops.last() == who {
        assert(raw_values_of(ops, raw) == rest.push(v));
        assert(rest.push(v)[rest.len() as int] == v);
    } else {
        let i = choose|i: int| 0 <= i < ops.len() && ops[i] == who;
        assert(i < ops.len() - 1);
        assert(ops.drop_last()[i] == who);
        lemma_fed_value_is_read(ops.drop_last(), raw, who);
        let j = choose|j: int| 0 <= j < rest.len() && rest[j] == v;
        match raw(ops.last()) {
            Some(x) => {
                assert(rest.push(x)[j] == v);
            },
            None => {},
        }
    }
}

/// At most one value is read for each operator.
pub proof fn lemma_read_at_most_one_per_operator(
    ops: Seq<AccountId>,
    raw: spec_fn(AccountId) -> Option<TimestampedValue>,
)
    ensures
        raw_values_of(ops, raw).len() <= ops.len(),
    decreases ops.len(),
{
    if ops.len() > 0 {
        lemma_read_at_most_one_per_operator(ops.drop_last(), raw);
    }
}

} // verus!
