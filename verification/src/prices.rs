//! Oracle prices of currencies, and the price of one currency in another.
use vstd::prelude::*;
use crate::fixed::{spec_ufixed_div, Price, UFixed};
use crate::primitives::CurrencyId;
use crate::table::Table;

verus! {

/// The latest price fed for each currency.
pub struct Prices {
    pub(crate) table: Table<CurrencyId, Price>,
}

/// The price of `base` in `quote`: the quotient of their fed prices.
pub open spec fn spec_get_price(base: Option<Price>, quote: Option<Price>) -> Option<Price> {
    match (base, quote) {
        (Some(b), Some(q)) => match spec_ufixed_div(b.inner, q.inner) {
            Some(v) => Some(UFixed { inner: v }),
            None => None,
        },
        _ => None,
    }
}

impl Prices {
    pub closed spec fn wf(&self) -> bool {
        self.table.wf()
    }

    /// The fed price of `c`.
    pub closed spec fn fed(&self, c: CurrencyId) -> Option<Price> {
        self.table.spec_get(c)
    }

    /// The price of `base` in `quote`.
    pub open spec fn price(&self, base: CurrencyId, quote: CurrencyId) -> Option<Price> {
        spec_get_price(self.fed(base), self.fed(quote))
    }

    pub fn new() -> (r: Prices)
        ensures
            r.wf(),
            forall|c: CurrencyId| #[trigger] r.fed(c) is None,
    {
        Prices { table: Table::new() }
    }

    /// Feeds the price of `c`; `None` removes it.
    pub fn set_price(&mut self, c: CurrencyId, price: Option<Price>)
        requires
            old(self).wf(),
        ensures
            final(self).wf(),
            final(self).fed(c) == price,
            forall|c2: CurrencyId| c2 != c ==> #[trigger] final(self).fed(c2) == old(self).fed(c2),
    {
        match price {
            Some(p) => {
                self.table.insert(c, p);
            },
            None => {
                self.table.remove(&c);
            },
        }
    }

    /// The fed price of `c`.
    pub fn get(&self, c: CurrencyId) -> (r: Option<Price>)
        requires
            self.wf(),
        ensures
            r == self.fed(c),
    {
        self.table.get_copy(&c)
    }

    /// The price of `base` in `quote`.
    pub fn get_price(&self, base: CurrencyId, quote: CurrencyId) -> (r: Option<Price>)
        requires
            self.wf(),
        ensures
            r == self.price(base, quote),
    {
        let b = self.get(base)?;
        let q = self.get(quote)?;
        b.checked_div(&q)
    }
}

} // verus!
