//! The figures of a portfolio summary.
use vstd::prelude::*;
use crate::models::{DividendEntry, Investment};
use crate::portfolio::{counts_types, groups_values, PortfolioAnalytics};
use crate::storage::Storage;

verus! {

/// The amount invested in each investment, in order.
pub open spec fn invested_amounts<M>(s: Seq<Investment<M>>) -> Seq<M>
    decreases s.len(),
{
    if s.len() == 0 {
        Seq::empty()
    } else {
        invested_amounts(s.drop_last()).push(s.last().amount)
    }
}

/// The current values that are set, in order; an investment without one
/// contributes nothing (it counts as zero in the total).
pub open spec fn set_current_values<M>(s: Seq<Investment<M>>) -> Seq<M>
    decreases s.len(),
{
    if s.len() == 0 {
        Seq::empty()
    } else {
        let rest = set_current_values(s.drop_last());
        match s.last().current_value {
            Some(v) => rest.push(v),
            None => rest,
        }
    }
}

/// The amounts of an investment's dividend payments, in order.
pub open spec fn payment_amounts<M>(inv: Investment<M>) -> Seq<M> {
    inv.dividends@.map_values(|d: DividendEntry<M>| d.amount)
}

/// The figures a portfolio summary adds up: each total is the sum of the
/// values listed for it.
pub struct PortfolioFigures<M> {
    /// How many investments the portfolio holds.
    pub total_investments: usize,
    /// The amounts invested (their sum is the total invested).
    pub invested: Vec<M>,
    /// The current values that are set (their sum is the total current value).
    pub current_values: Vec<M>,
    /// The valuations grouped by type, as `calculate_allocation_by_type` gives them.
    pub allocation_by_type: Vec<(String, Vec<M>)>,
    /// The counts by type, as `calculate_count_by_type` gives them.
    pub count_by_type: Vec<(String, usize)>,
    /// For each investment, in order, the amounts of its dividend payments
    /// (the total of dividends adds up each investment's sum).
    pub dividends: Vec<Vec<M>>,
}

impl<M: Copy> PortfolioAnalytics<Storage<M>> {
    /// The figures of the summary of every investment in the storage.
    pub fn get_summary(&self) -> (res: PortfolioFigures<M>)
        ensures
            res.total_investments == self.spec_storage()@.len(),
            res.invested@ == invested_amounts(self.spec_storage()@),
            res.current_values@ == set_current_values(self.spec_storage()@),
            groups_values(self.spec_storage()@, res.allocation_by_type@),
            counts_types(self.spec_storage()@, res.count_by_type@),
            res.dividends@.len() == self.spec_storage()@.len(),
            forall|k: int|
                0 <= k < res.dividends@.len() ==> #[trigger] res.dividends@[k]@ == payment_amounts(
                    self.spec_storage()@[k],
                ),
    {
        let investments = self.storage().get_all_investments();
        let n = investments.len();
        let ghost s = investments@;
        let mut invested: Vec<M> = Vec::new();
        let mut current_values: Vec<M> = Vec::new();
        let mut dividends: Vec<Vec<M>> = Vec::new();
        let mut i: usize = 0;
        assert(s.take(0) =~= Seq::<Investment<M>>::empty());
        while i < n
            invariant
                n == s.len(),
                s == investments@,
                i <= n,
                invested@ == invested_amounts(s.take(i as int)),
                current_values@ == set_current_values(s.take(i as int)),
                dividends@.len() == i,
                forall|k: int| 0 <= k < i ==> #[trigger] dividends@[k]@ == payment_amounts(s[k]),
            decreases n - i,
        {
            let inv = &investments[i];
            proof {
                assert(s.take(i as int + 1).drop_last() =~= s.take(i as int));
                assert(s.take(i as int + 1).last() == s[i as int]);
            }
            invested.push(inv.amount);
            match inv.current_value {
                Some(v) => current_values.push(v),
                None => {},
            }
            let mut payments: Vec<M> = Vec::new();
            let mut j: usize = 0;
            while j < inv.dividends.len()
                invariant
                    j <= inv.dividends@.len(),
                    payments@ == inv.dividends@.take(j as int).map_values(|d: DividendEntry<M>| d.amount),
                decreases inv.dividends@.len() - j,
            {
                payments.push(inv.dividends[j].amount);
                assert(inv.dividends@.take(j as int + 1).map_values(|d: DividendEntry<M>| d.amount)
                    =~= inv.dividends@.take(j as int).map_values(|d: DividendEntry<M>| d.amount).push(
                    inv.dividends@[j as int].amount,
                ));
                j = j + 1;
            }
            assert(inv.dividends@.take(j as int) =~= inv.dividends@);
            dividends.push(payments);
            i = i + 1;
        }
        assert(s.take(n as int) =~= s);
        PortfolioFigures {
            total_investments: n,
            invested,
            current_values,
            allocation_by_type: self.calculate_allocation_by_type(investments),
            count_by_type: self.calculate_count_by_type(investments),
            dividends,
        }
    }
}

} // verus!
