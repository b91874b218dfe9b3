//! Portfolio-wide analytics over a collection of investments.
use vstd::prelude::*;
use crate::models::Investment;
use crate::text::text_eq;

verus! {

/// Computes portfolio-wide analytics over the investments of `storage`.
pub struct PortfolioAnalytics<S> {
    storage: S,
}

/// How many investments are displayed under the type name `name`.
pub open spec fn type_count<M>(s: Seq<Investment<M>>, name: Seq<char>) -> nat
    decreases s.len(),
{
    if s.len() == 0 {
        0
    } else {
        type_count(s.drop_last(), name) + if s.last().investment_type.spec_display() == name {
            1nat
        } else {
            0nat
        }
    }
}

/// `counts` lists each type name of `s` once, with the number of investments
/// of that type.
pub open spec fn counts_types<M>(s: Seq<Investment<M>>, counts: Seq<(String, usize)>) -> bool {
    &&& forall|a: int, b: int|
        0 <= a < b < counts.len() ==> #[trigger] counts[a].0@ != #[trigger] counts[b].0@
    &&& forall|a: int|
        0 <= a < counts.len() ==> #[trigger] counts[a].1 == type_count(s, counts[a].0@)
            && counts[a].1 > 0
    &&& forall|i: int|
        0 <= i < s.len() ==> exists|a: int|
            0 <= a < counts.len() && #[trigger] counts[a].0@
                == #[trigger] s[i].investment_type.spec_display()
}

proof fn lemma_type_count_zero<M>(s: Seq<Investment<M>>, name: Seq<char>)
    requires
        forall|i: int| 0 <= i < s.len() ==> #[trigger] s[i].investment_type.spec_display() != name,
    ensures
        type_count(s, name) == 0,
    decreases s.len(),
{
    if s.len() > 0 {
        let s1 = s.drop_last();
        assert forall|i: int| 0 <= i < s1.len() implies #[trigger] s1[i].investment_type.spec_display()
            != name by {
            assert(s1[i] == s[i]);
        }
        lemma_type_count_zero(s1, name);
        assert(s.last() == s[s.len() - 1]);
    }
}

/// The value an investment counts with in the allocation: its current
/// value, or the amount invested when that is unset.
pub open spec fn valuation<M>(inv: Investment<M>) -> M {
    match inv.current_value {
        Some(v) => v,
        None => inv.amount,
    }
}

/// The valuations of the investments displayed under the type name `name`,
/// in order.
pub open spec fn type_values<M>(s: Seq<Investment<M>>, name: Seq<char>) -> Seq<M>
    decreases s.len(),
{
    if s.len() == 0 {
        Seq::empty()
    } else {
        let rest = type_values(s.drop_last(), name);
        if s.last().investment_type.spec_display() == name {
            rest.push(valuation(s.last()))
        } else {
            rest
        }
    }
}

/// `groups` lists each type name of `s` once, with the valuations of the
/// investments of that type.
pub open spec fn groups_values<M>(s: Seq<Investment<M>>, groups: Seq<(String, Vec<M>)>) -> bool {
    &&& forall|a: int, b: int|
        0 <= a < b < groups.len() ==> #[trigger] groups[a].0@ != #[trigger] groups[b].0@
    &&& forall|a: int|
        0 <= a < groups.len() ==> #[trigger] groups[a].1@ == type_values(s, groups[a].0@)
            && groups[a].1@.len() > 0
    &&& forall|i: int|
        0 <= i < s.len() ==> exists|a: int|
            0 <= a < groups.len() && #[trigger] groups[a].0@
                == #[trigger] s[i].investment_type.spec_display()
}

proof fn lemma_type_values_empty<M>(s: Seq<Investment<M>>, name: Seq<char>)
    requires
        forall|i: int| 0 <= i < s.len() ==> #[trigger] s[i].investment_type.spec_display() != name,
    ensures
        type_values(s, name) == Seq::<M>::empty(),
    decreases s.len(),
{
    if s.len() > 0 {
        let s1 = s.drop_last();
        assert forall|i: int| 0 <= i < s1.len() implies #[trigger] s1[i].investment_type.spec_display()
            != name by {
            assert(s1[i] == s[i]);
        }
        lemma_type_values_empty(s1, name);
        assert(s.last() == s[s.len() - 1]);
    }
}

fn valuation_of<M: Copy>(inv: &Investment<M>) -> (res: M)
    ensures
        res == valuation(*inv),
{
    match inv.current_value {
        Some(v) => v,
        None => inv.amount,
    }
}

impl<S> PortfolioAnalytics<S> {
    /// The storage the analytics read.
    pub closed spec fn spec_storage(&self) -> S {
        self.storage
    }

    /// Creates analytics backed by `storage`.
    pub fn new(storage: S) -> (res: Self)
        ensures
            res.spec_storage() == storage,
    {
        PortfolioAnalytics { storage }
    }

    /// The storage the analytics read.
    pub fn storage(&self) -> (res: &S)
        ensures
            *res == self.spec_storage(),
    {
        &self.storage
    }

    /// The number of investments of each type, keyed by the type's display
    /// name, listed in the order the types first occur.
    pub fn calculate_count_by_type<M>(&self, investments: &[Investment<M>]) -> (res: Vec<(String, usize)>)
        ensures
            counts_types(investments@, res@),
    {
        let n = investments.len();
        let ghost s = investments@;
        let mut counts: Vec<(String, usize)> = Vec::new();
        let mut i: usize = 0;
        assert(s.take(0) =~= Seq::<Investment<M>>::empty());
        while i < n
            invariant
                n == s.len(),
                s == investments@,
                i <= n,
                counts_types(s.take(i as int), counts@),
                forall|a: int| 0 <= a < counts@.len() ==> #[trigger] counts@[a].1 <= i,
            decreases n - i,
        {
            let name = investments[i].investment_type.display_name();
            let ghost t = s.take(i as int + 1);
            let ghost prev = s.take(i as int);
            proof {
                assert(t.drop_last() =~= prev);
                assert(t.last() == s[i as int]);
            }
            let m = counts.len();
            let mut j: usize = 0;
            while j < m && !text_eq(counts[j].0.as_str(), name.as_str())
                invariant
                    m == counts@.len(),
                    j <= m,
                    forall|a: int| 0 <= a < j ==> #[trigger] counts@[a].0@ != name@,
                decreases m - j,
            {
                j = j + 1;
            }
            let ghost before = counts@;
            if j < m {
                let c = counts[j].1;
                let entry = counts.remove(j);
                counts.insert(j, (entry.0, c + 1));
                proof {
                    assert(counts@ =~= before.update(j as int, (before[j as int].0, (c + 1) as usize)));
                    assert forall|a: int| 0 <= a < counts@.len() implies #[trigger] counts@[a].1
                        == type_count(t, counts@[a].0@) && counts@[a].1 > 0 by {
                        assert(type_count(t, counts@[a].0@) == type_count(prev, counts@[a].0@) + if s[i as int].investment_type.spec_display() == counts@[a].0@ { 1nat } else { 0nat });
                        if a != j {
                            assert(counts@[a] == before[a]);
                        }
                    }
                    assert forall|k: int| 0 <= k < t.len() implies exists|a: int|
                        0 <= a < counts@.len() && #[trigger] counts@[a].0@
                            == #[trigger] t[k].investment_type.spec_display() by {
                        if k < i {
                            assert(t[k] == prev[k]);
                            let a = choose|a: int| 0 <= a < before.len() && #[trigger] before[a].0@ == #[trigger] prev[k].investment_type.spec_display();
                            assert(counts@[a].0@ == before[a].0@);
                        } else {
                            assert(counts@[j as int].0@ == t[k].investment_type.spec_display());
                        }
                    }
                }
            } else {
                proof {
                    assert forall|k: int| 0 <= k < prev.len() implies #[trigger] prev[k].investment_type.spec_display() != name@ by {
                        let a = choose|a: int| 0 <= a < before.len() && #[trigger] before[a].0@ == #[trigger] prev[k].investment_type.spec_display();
                    }
                    lemma_type_count_zero(prev, name@);
                }
                counts.push((name, 1));
                proof {
                    assert forall|a: int| 0 <= a < counts@.len() implies #[trigger] counts@[a].1
                        == type_count(t, counts@[a].0@) && counts@[a].1 > 0 by {
                        if a < m {
                            assert(counts@[a] == before[a]);
                        }
                    }
                    assert forall|k: int| 0 <= k < t.len() implies exists|a: int|
                        0 <= a < counts@.len() && #[trigger] counts@[a].0@
                            == #[trigger] t[k].investment_type.spec_display() by {
                        if k < i {
                            assert(t[k] == prev[k]);
                            let a = choose|a: int| 0 <= a < before.len() && #[trigger] before[a].0@ == #[trigger] prev[k].investment_type.spec_display();
                            assert(counts@[a].0@ == before[a].0@);
                        } else {
                            assert(counts@[m as int].0@ == t[k].investment_type.spec_display());
                        }
                    }
                }
            }
            i = i + 1;
        }
        assert(s.take(n as int) =~= s);
        counts
    }

    /// The allocation by type: for each type's display name, in the order
    /// the types first occur, the valuation of each investment of that type
    /// (its current value, or the amount invested when that is unset).  The
    /// allocated total of a type is the sum of its valuations.
    pub fn calculate_allocation_by_type<M: Copy>(&self, investments: &[Investment<M>]) -> (res: Vec<(String, Vec<M>)>)
        ensures
            groups_values(investments@, res@),
    {
        let n = investments.len();
        let ghost s = investments@;
        let mut groups: Vec<(String, Vec<M>)> = Vec::new();
        let mut i: usize = 0;
        assert(s.take(0) =~= Seq::<Investment<M>>::empty());
        while i < n
            invariant
                n == s.len(),
                s == investments@,
                i <= n,
                groups_values(s.take(i as int), groups@),
            decreases n - i,
        {
            let name = investments[i].investment_type.display_name();
            let value = valuation_of(&investments[i]);
            let ghost t = s.take(i as int + 1);
            let ghost prev = s.take(i as int);
            proof {
                assert(t.drop_last() =~= prev);
                assert(t.last() == s[i as int]);
            }
            let m = groups.len();
            let mut j: usize = 0;
            while j < m && !text_eq(groups[j].0.as_str(), name.as_str())
                invariant
                    m == groups@.len(),
                    j <= m,
                    forall|a: int| 0 <= a < j ==> #[trigger] groups@[a].0@ != name@,
                decreases m - j,
            {
                j = j + 1;
            }
            let ghost before = groups@;
            if j < m {
                let (key, mut values) = groups.remove(j);
                values.push(value);
                groups.insert(j, (key, values));
                proof {
                    assert(groups@[j as int].0 == before[j as int].0);
                    assert(groups@[j as int].1@ == before[j as int].1@.push(value));
                    assert forall|a: int| 0 <= a < groups@.len() implies #[trigger] groups@[a].1@
                        == type_values(t, groups@[a].0@) && groups@[a].1@.len() > 0 by {
                        if a != j {
                            assert(groups@[a] == before[a]);
                        }
                    }
                    assert forall|a: int, b: int| 0 <= a < b < groups@.len() implies #[trigger] groups@[a].0@
                        != #[trigger] groups@[b].0@ by {
                        assert(groups@[a].0 == before[a].0 && groups@[b].0 == before[b].0);
                    }
                    assert forall|k: int| 0 <= k < t.len() implies exists|a: int|
                        0 <= a < groups@.len() && #[trigger] groups@[a].0@
                            == #[trigger] t[k].investment_type.spec_display() by {
                        if k < i {
                            assert(t[k] == prev[k]);
                            let a = choose|a: int| 0 <= a < before.len() && #[trigger] before[a].0@ == #[trigger] prev[k].investment_type.spec_display();
                            assert(groups@[a].0@ == before[a].0@);
                        } else {
                            assert(groups@[j as int].0@ == t[k].investment_type.spec_display());
                        }
                    }
                }
            } else {
                proof {
                    assert forall|k: int| 0 <= k < prev.len() implies #[trigger] prev[k].investment_type.spec_display() != name@ by {
                        let a = choose|a: int| 0 <= a < before.len() && #[trigger] before[a].0@ == #[trigger] prev[k].investment_type.spec_display();
                    }
                    lemma_type_values_empty(prev, name@);
                }
                let mut values: Vec<M> = Vec::new();
                values.push(value);
                groups.push((name, values));
                proof {
                    assert(groups@[m as int].1@ =~= Seq::<M>::empty().push(value));
                    assert forall|a: int| 0 <= a < groups@.len() implies #[trigger] groups@[a].1@
                        == type_values(t, groups@[a].0@) && groups@[a].1@.len() > 0 by {
                        if a < m {
                            assert(groups@[a] == before[a]);
                        }
                    }
                    assert forall|k: int| 0 <= k < t.len() implies exists|a: int|
                        0 <= a < groups@.len() && #[trigger] groups@[a].0@
                            == #[trigger] t[k].investment_type.spec_display() by {
                        if k < i {
                            assert(t[k] == prev[k]);
                            let a = choose|a: int| 0 <= a < before.len() && #[trigger] before[a].0@ == #[trigger] prev[k].investment_type.spec_display();
                            assert(groups@[a].0@ == before[a].0@);
                        } else {
                            assert(groups@[m as int].0@ == t[k].investment_type.spec_display());
                        }
                    }
                }
            }
            i = i + 1;
        }
        assert(s.take(n as int) =~= s);
        groups
    }
}

} // verus!
