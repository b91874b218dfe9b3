//! The collection of investments kept in the data file, and the operations
//! that find, add, replace and remove investments in it.
//!
//! Reading and writing the file happens outside this library: a `Storage`
//! holds the file's path and the investments read from it.
use vstd::prelude::*;
use std::path::PathBuf;
use crate::error::{ChangeError, InvestmentError, StorageError};
use crate::models::{dividend_result, price_entry_result, AmountSign, Investment};
use crate::text::{text_eq, text_starts_with};

verus! {

#[verifier::external_type_specification]
#[verifier::external_body]
pub struct ExPathBuf(PathBuf);

// ── Looking investments up ───────────────────────────────────────────────────

/// The index of the first investment whose ID is exactly `id`, or the length
/// of `s` when there is none.
pub open spec fn index_of_id<M>(s: Seq<Investment<M>>, id: Seq<char>) -> int
    decreases s.len(),
{
    if s.len() == 0 {
        0
    } else if s[0].id@ == id {
        0
    } else {
        1 + index_of_id(s.drop_first(), id)
    }
}

/// Some investment has exactly the ID `id`.
pub open spec fn has_id<M>(s: Seq<Investment<M>>, id: Seq<char>) -> bool {
    exists|k: int| 0 <= k < s.len() && #[trigger] s[k].id@ == id
}

/// How many investments have an ID starting with `prefix`.
pub open spec fn prefix_count<M>(s: Seq<Investment<M>>, prefix: Seq<char>) -> nat
    decreases s.len(),
{
    if s.len() == 0 {
        0
    } else {
        prefix_count(s.drop_last(), prefix) + if prefix.is_prefix_of(s.last().id@) {
            1nat
        } else {
            0nat
        }
    }
}

/// The ID of the last investment whose ID starts with `prefix`.
pub open spec fn last_prefix_match<M>(s: Seq<Investment<M>>, prefix: Seq<char>) -> Seq<char>
    decreases s.len(),
{
    if s.len() == 0 {
        Seq::empty()
    } else if prefix.is_prefix_of(s.last().id@) {
        s.last().id@
    } else {
        last_prefix_match(s.drop_last(), prefix)
    }
}

/// How a user-supplied ID resolves to a full ID: an exact match always
/// wins; otherwise a prefix shared by exactly one ID resolves to that ID, a
/// prefix shared by none resolves to nothing, and a prefix shared by several
/// is ambiguous (`Err` with their number).
pub open spec fn spec_resolve_id<M>(s: Seq<Investment<M>>, id: Seq<char>) -> Result<
    Option<Seq<char>>,
    nat,
> {
    if has_id(s, id) {
        Ok(Some(id))
    } else if prefix_count(s, id) == 0 {
        Ok(None)
    } else if prefix_count(s, id) == 1 {
        Ok(Some(last_prefix_match(s, id)))
    } else {
        Err(prefix_count(s, id))
    }
}

/// `res` reports the resolution `spec_resolve_id(s, id)`.
pub open spec fn reports_resolution<M>(
    s: Seq<Investment<M>>,
    id: Seq<char>,
    res: Result<Option<String>, StorageError>,
) -> bool {
    match spec_resolve_id(s, id) {
        Ok(None) => res matches Ok(None),
        Ok(Some(full)) => res matches Ok(Some(r)) && r@ == full,
        Err(n) => res matches Err(StorageError::AmbiguousId { prefix, matches }) && prefix@ == id
            && matches == n,
    }
}

/// The first investment with ID `id` is at `i` when none before `i` has it.
pub proof fn lemma_index_of_id<M>(s: Seq<Investment<M>>, id: Seq<char>, i: int)
    requires
        0 <= i <= s.len(),
        forall|k: int| 0 <= k < i ==> #[trigger] s[k].id@ != id,
        i == s.len() || s[i].id@ == id,
    ensures
        index_of_id(s, id) == i,
    decreases s.len(),
{
    if s.len() > 0 && i > 0 {
        let s1 = s.drop_first();
        assert forall|k: int| 0 <= k < i - 1 implies #[trigger] s1[k].id@ != id by {
            assert(s1[k] == s[k + 1]);
        }
        lemma_index_of_id(s1, id, i - 1);
    }
}

/// The first investment with an ID is found at `index_of_id`.
pub proof fn lemma_index_of_id_found<M>(s: Seq<Investment<M>>, id: Seq<char>)
    ensures
        0 <= index_of_id(s, id) <= s.len(),
        has_id(s, id) <==> index_of_id(s, id) < s.len(),
        index_of_id(s, id) < s.len() ==> s[index_of_id(s, id)].id@ == id,
        forall|k: int| 0 <= k < index_of_id(s, id) ==> #[trigger] s[k].id@ != id,
    decreases s.len(),
{
    if s.len() > 0 && s[0].id@ != id {
        let s1 = s.drop_first();
        lemma_index_of_id_found(s1, id);
        assert forall|k: int| 0 <= k < index_of_id(s, id) implies #[trigger] s[k].id@ != id by {
            if k > 0 {
                assert(s[k] == s1[k - 1]);
            }
        }
        if has_id(s, id) {
            let k = choose|k: int| 0 <= k < s.len() && #[trigger] s[k].id@ == id;
            assert(s1[k - 1].id@ == id);
        }
        if has_id(s1, id) {
            let k = choose|k: int| 0 <= k < s1.len() && #[trigger] s1[k].id@ == id;
            assert(s[k + 1].id@ == id);
        }
    }
}

/// A resolved ID is the ID of some investment.
pub proof fn lemma_resolved_id_present<M>(s: Seq<Investment<M>>, id: Seq<char>)
    ensures
        spec_resolve_id(s, id) matches Ok(Some(full)) ==> has_id(s, full),
    decreases s.len(),
{
    if !has_id(s, id) && prefix_count(s, id) == 1 {
        lemma_last_prefix_match_present(s, id);
    }
}

proof fn lemma_last_prefix_match_present<M>(s: Seq<Investment<M>>, p: Seq<char>)
    requires
        prefix_count(s, p) > 0,
    ensures
        has_id(s, last_prefix_match(s, p)),
        p.is_prefix_of(last_prefix_match(s, p)),
    decreases s.len(),
{
    if s.len() > 0 && !p.is_prefix_of(s.last().id@) {
        let s1 = s.drop_last();
        lemma_last_prefix_match_present(s1, p);
        let k = choose|k: int| 0 <= k < s1.len() && #[trigger] s1[k].id@ == last_prefix_match(s1, p);
        assert(s[k].id@ == last_prefix_match(s, p));
    } else if s.len() > 0 {
        assert(s[s.len() - 1].id@ == last_prefix_match(s, p));
    }
}

// ── Identifiers ──────────────────────────────────────────────────────────────

/// A lower-case hexadecimal digit.
pub open spec fn is_lower_hex(c: char) -> bool {
    ('0' <= c && c <= '9') || ('a' <= c && c <= 'f')
}

/// The hyphenated form of a UUID: 36 characters, hyphens at positions 8, 13,
/// 18 and 23, lower-case hexadecimal digits elsewhere.
pub open spec fn is_hyphenated_uuid(s: Seq<char>) -> bool {
    &&& s.len() == 36
    &&& forall|i: int|
        0 <= i < 36 ==> if i == 8 || i == 13 || i == 18 || i == 23 {
            #[trigger] s[i] == '-'
        } else {
            is_lower_hex(s[i])
        }
}

/// A version-4 UUID in hyphenated lower-case form: the version digit (the
/// fifteenth character) is `4` and the variant digit (the twentieth) is one
/// of `8`, `9`, `a`, `b`.
pub open spec fn is_v4_uuid(s: Seq<char>) -> bool {
    &&& is_hyphenated_uuid(s)
    &&& s[14] == '4'
    &&& (s[19] == '8' || s[19] == '9' || s[19] == 'a' || s[19] == 'b')
}

/// A fresh random ID: `uuid::Uuid::new_v4()` written by its `Display`,
/// which is the hyphenated lower-case form.  `new_v4` masks random bits so
/// that the version nibble is 4 and the variant bits are `10`.  The value
/// itself is random.
#[verifier::external_body]
pub(crate) fn new_uuid_text() -> (res: String)
    ensures
        is_v4_uuid(res@),
{
    uuid::Uuid::new_v4().to_string()
}

/// `saved` is `inv` as the collection stores it: unchanged when it has an
/// ID, and otherwise with a fresh version-4 UUID as its ID.
pub open spec fn saved_as<M>(inv: Investment<M>, saved: Investment<M>) -> bool {
    if inv.id@.len() > 0 {
        saved == inv
    } else {
        is_v4_uuid(saved.id@) && saved == Investment { id: saved.id, ..inv }
    }
}

fn assign_id<M>(inv: Investment<M>) -> (res: Investment<M>)
    ensures
        saved_as(inv, res),
{
    let mut inv = inv;
    if inv.id.as_str().is_empty() {
        inv.id = new_uuid_text();
    }
    inv
}

// ── The collection ───────────────────────────────────────────────────────────

/// The investments held in the data file at `data_file`.
pub struct Storage<M> {
    data_file: PathBuf,
    investments: Vec<Investment<M>>,
}

impl<M> View for Storage<M> {
    type V = Seq<Investment<M>>;

    closed spec fn view(&self) -> Seq<Investment<M>> {
        self.investments@
    }
}

impl<M> Storage<M> {
    /// The path of the data file.
    pub closed spec fn spec_data_file(&self) -> PathBuf {
        self.data_file
    }

    /// A `Storage` for the data file at `data_file`, holding no investments.
    pub fn new(data_file: PathBuf) -> (res: Self)
        ensures
            res@ == Seq::<Investment<M>>::empty(),
            res.spec_data_file() == data_file,
    {
        Storage { data_file, investments: Vec::new() }
    }

    /// Opens the collection kept in the data file at `data_file`, holding the
    /// investments read from it.  Finding the default path and reading the
    /// file are the caller's part.
    pub fn open(data_file: PathBuf, investments: Vec<Investment<M>>) -> (res: Self)
        ensures
            res@ == investments@,
            res.spec_data_file() == data_file,
    {
        Storage { data_file, investments }
    }

    /// The path of the data file.
    pub fn data_file(&self) -> (res: &PathBuf)
        ensures
            *res == self.spec_data_file(),
    {
        &self.data_file
    }

    /// Every investment held, in order.
    pub fn get_all_investments(&self) -> (res: &[Investment<M>])
        ensures
            res@ == self@,
    {
        self.investments.as_slice()
    }

    /// Gives up the investments held, in order.
    pub fn into_investments(self) -> (res: Vec<Investment<M>>)
        ensures
            res@ == self@,
    {
        self.investments
    }

    /// Resolves a user-supplied ID (full UUID or short prefix) against
    /// `investments`: an exact match always wins, a prefix matching one ID
    /// resolves to it, a prefix matching none resolves to nothing, and a
    /// prefix matching several IDs is an error.
    pub fn resolve_id(&self, id: &str, investments: &[Investment<M>]) -> (res: Result<
        Option<String>,
        StorageError,
    >)
        ensures
            reports_resolution(investments@, id@, res),
    {
        let n = investments.len();
        let ghost s = investments@;
        let mut i: usize = 0;
        let mut exact = false;
        let mut count: usize = 0;
        let mut last_match: usize = 0;
        assert(s.take(0) =~= Seq::<Investment<M>>::empty());
        while i < n
            invariant
                n == s.len(),
                s == investments@,
                i <= n,
                count <= i,
                exact == has_id(s.take(i as int), id@),
                count == prefix_count(s.take(i as int), id@),
                count > 0 ==> last_match < i && s[last_match as int].id@ == last_prefix_match(
                    s.take(i as int),
                    id@,
                ),
            decreases n - i,
        {
            let cur = investments[i].id.as_str();
            let is_exact = text_eq(cur, id);
            let is_prefix = text_starts_with(cur, id);
            proof {
                let t = s.take(i as int + 1);
                assert(t.drop_last() =~= s.take(i as int));
                assert(t.last() == s[i as int]);
                if is_exact {
                    assert(t[i as int].id@ == id@);
                }
                if has_id(s.take(i as int), id@) {
                    let k = choose|k: int| 0 <= k < i && #[trigger] s.take(i as int)[k].id@ == id@;
                    assert(t[k].id@ == id@);
                }
                if has_id(t, id@) && !is_exact {
                    let k = choose|k: int| 0 <= k < i + 1 && #[trigger] t[k].id@ == id@;
                    assert(s.take(i as int)[k].id@ == id@);
                }
            }
            exact = exact || is_exact;
            if is_prefix {
                count = count + 1;
                last_match = i;
            }
            i = i + 1;
        }
        assert(s.take(n as int) =~= s);
        if exact {
            return Ok(Some(String::from_str(id)));
        }
        if count == 0 {
            Ok(None)
        } else if count == 1 {
            Ok(Some(investments[last_match].id.clone()))
        } else {
            Err(StorageError::AmbiguousId { prefix: String::from_str(id), matches: count })
        }
    }

    /// The position of the first investment whose ID is exactly `id`.
    fn position_of_id(&self, id: &str) -> (res: usize)
        ensures
            res == index_of_id(self@, id@),
    {
        let n = self.investments.len();
        let mut i: usize = 0;
        while i < n
            invariant
                n == self@.len(),
                i <= n,
                forall|k: int| 0 <= k < i ==> #[trigger] self@[k].id@ != id@,
            decreases n - i,
        {
            if text_eq(self.investments[i].id.as_str(), id) {
                proof {
                    lemma_index_of_id(self@, id@, i as int);
                }
                return i;
            }
            i = i + 1;
        }
        proof {
            lemma_index_of_id(self@, id@, n as int);
        }
        n
    }

    /// The position of the investment that the user-supplied `id` resolves
    /// to, if any.
    pub fn locate_investment(&self, id: &str) -> (res: Result<Option<usize>, StorageError>)
        ensures
            match spec_resolve_id(self@, id@) {
                Ok(None) => res matches Ok(None),
                Ok(Some(full)) => res matches Ok(Some(p)) && p == index_of_id(self@, full) && p
                    < self@.len(),
                Err(n) => res matches Err(StorageError::AmbiguousId { prefix, matches })
                    && prefix@ == id@ && matches == n,
            },
    {
        let resolved = self.resolve_id(id, self.investments.as_slice());
        match resolved {
            Err(e) => Err(e),
            Ok(None) => Ok(None),
            Ok(Some(full)) => {
                proof {
                    lemma_resolved_id_present(self@, id@);
                    lemma_index_of_id_found(self@, full@);
                }
                Ok(Some(self.position_of_id(full.as_str())))
            },
        }
    }

    /// Looks up a single investment by full UUID or prefix.
    pub fn get_investment(&self, id: &str) -> (res: Result<Option<&Investment<M>>, StorageError>)
        ensures
            match spec_resolve_id(self@, id@) {
                Ok(None) => res matches Ok(None),
                Ok(Some(full)) => res matches Ok(Some(inv)) && *inv == self@[index_of_id(
                    self@,
                    full,
                )] && inv.id@ == full,
                Err(n) => res matches Err(StorageError::AmbiguousId { prefix, matches })
                    && prefix@ == id@ && matches == n,
            },
    {
        match self.locate_investment(id) {
            Err(e) => Err(e),
            Ok(None) => Ok(None),
            Ok(Some(p)) => {
                proof {
                    if let Ok(Some(full)) = spec_resolve_id(self@, id@) {
                        lemma_index_of_id_found(self@, full);
                        lemma_resolved_id_present(self@, id@);
                    }
                }
                Ok(Some(&self.investments[p]))
            },
        }
    }

    /// Adds an investment, giving it a fresh UUID when its ID is empty, and
    /// returns it as stored.
    pub fn add_investment(&mut self, investment: Investment<M>) -> (res: &Investment<M>)
        ensures
            saved_as(investment, *res),
            final(self)@ == old(self)@.push(*res),
            final(self).spec_data_file() == old(self).spec_data_file(),
    {
        let saved = assign_id(investment);
        self.investments.push(saved);
        let n = self.investments.len();
        &self.investments[n - 1]
    }

    /// Adds several investments in order, giving each one without an ID a
    /// fresh UUID, and returns them as stored.
    pub fn add_investments(&mut self, investments: Vec<Investment<M>>) -> (res: &[Investment<M>])
        ensures
            res@.len() == investments@.len(),
            forall|k: int| 0 <= k < res@.len() ==> saved_as(investments@[k], #[trigger] res@[k]),
            final(self)@ == old(self)@ + res@,
            final(self).spec_data_file() == old(self).spec_data_file(),
    {
        let start = self.investments.len();
        let ghost orig = investments@;
        let ghost before = self.investments@;
        assert(orig.len() == investments.len());
        let mut rest = investments;
        let mut i: usize = 0;
        while rest.len() > 0
            invariant
                i <= orig.len(),
                i + rest@.len() == orig.len(),
                rest@ == orig.skip(i as int),
                orig.len() <= usize::MAX,
                start == before.len(),
                before == old(self)@,
                self.data_file == old(self).data_file,
                self.investments@.len() == start + i,
                forall|k: int| 0 <= k < start ==> #[trigger] self.investments@[k] == before[k],
                forall|k: int|
                    0 <= k < i ==> saved_as(orig[k], #[trigger] self.investments@[start + k]),
            decreases rest.len(),
        {
            let inv = rest.remove(0);
            proof {
                assert(orig.skip(i as int).drop_first() =~= orig.skip(i as int + 1));
            }
            let saved = assign_id(inv);
            self.investments.push(saved);
            i = i + 1;
        }
        let end = self.investments.len();
        let added = vstd::slice::slice_subrange(self.investments.as_slice(), start, end);
        assert forall|k: int| 0 <= k < added@.len() implies saved_as(orig[k], #[trigger] added@[k]) by {
            assert(added@[k] == self.investments@[start + k]);
        }
        assert(self.investments@ =~= before + added@);
        added
    }

    /// Replaces the investment whose ID is exactly the ID of `updated` (the
    /// first one, should several share it) and returns the previous record.
    /// Changes nothing and returns `None` when no ID matches.
    pub fn update_investment(&mut self, updated: Investment<M>) -> (res: Option<Investment<M>>)
        ensures
            ({
                let p = index_of_id(old(self)@, updated.id@);
                if p < old(self)@.len() {
                    res == Some(old(self)@[p]) && final(self)@ == old(self)@.update(p, updated)
                } else {
                    res is None && final(self)@ == old(self)@
                }
            }),
            final(self).spec_data_file() == old(self).spec_data_file(),
    {
        let p = self.position_of_id(updated.id.as_str());
        if p < self.investments.len() {
            let previous = self.investments.remove(p);
            self.investments.insert(p, updated);
            assert(self.investments@ =~= old(self)@.update(p as int, updated));
            Some(previous)
        } else {
            None
        }
    }

    /// Removes and returns the investment that `id` (full UUID or prefix)
    /// resolves to.
    pub fn delete_investment(&mut self, id: &str) -> (res: Result<Option<Investment<M>>, StorageError>)
        ensures
            match spec_resolve_id(old(self)@, id@) {
                Ok(None) => res matches Ok(None) && final(self)@ == old(self)@,
                Ok(Some(full)) => {
                    let p = index_of_id(old(self)@, full);
                    &&& p < old(self)@.len()
                    &&& res matches Ok(Some(inv)) && inv == old(self)@[p]
                    &&& final(self)@ == old(self)@.remove(p)
                },
                Err(n) => res matches Err(StorageError::AmbiguousId { prefix, matches })
                    && prefix@ == id@ && matches == n && final(self)@ == old(self)@,
            },
            final(self).spec_data_file() == old(self).spec_data_file(),
    {
        match self.locate_investment(id) {
            Err(e) => Err(e),
            Ok(None) => Ok(None),
            Ok(Some(p)) => Ok(Some(self.investments.remove(p))),
        }
    }

    /// Replaces the investment at `index` and returns the previous one.
    pub fn replace_investment(&mut self, index: usize, investment: Investment<M>) -> (res: Investment<M>)
        requires
            index < old(self)@.len(),
        ensures
            res == old(self)@[index as int],
            final(self)@ == old(self)@.update(index as int, investment),
            final(self).spec_data_file() == old(self).spec_data_file(),
    {
        let previous = self.investments.remove(index);
        self.investments.insert(index, investment);
        assert(self.investments@ =~= old(self)@.update(index as int, investment));
        previous
    }
}

// ── Changing a stored investment ─────────────────────────────────────────────

/// A change recorded on one stored investment.
pub enum Change<M> {
    /// Record a price (see `Investment::add_price_entry`).
    PriceEntry { date: String, price: M, sign: AmountSign, notes: Option<String> },
    /// Record a dividend payment (see `Investment::add_dividend`).
    Dividend { date: String, amount: M, sign: AmountSign, notes: Option<String> },
}

/// `after` and `res` are what `change` makes of `before`.
pub open spec fn change_result<M>(
    before: Investment<M>,
    change: Change<M>,
    after: Investment<M>,
    res: Result<(), InvestmentError>,
) -> bool {
    match change {
        Change::PriceEntry { date, price, sign, notes } => price_entry_result(
            before,
            date,
            price,
            sign,
            notes,
            after,
            res,
        ),
        Change::Dividend { date, amount, sign, notes } => dividend_result(
            before,
            date,
            amount,
            sign,
            notes,
            after,
            res,
        ),
    }
}

impl<M: Copy> Storage<M> {
    /// Applies `change` to the investment that the user-supplied `id`
    /// resolves to, and returns its position.  Nothing changes when the ID
    /// resolves to nothing, is ambiguous, or the investment refuses the
    /// change.
    pub fn mutate_investment(&mut self, id: &str, change: Change<M>) -> (res: Result<
        Option<usize>,
        ChangeError,
    >)
        ensures
            final(self).spec_data_file() == old(self).spec_data_file(),
            match spec_resolve_id(old(self)@, id@) {
                Ok(None) => res matches Ok(None) && final(self)@ == old(self)@,
                Err(n) => res matches Err(ChangeError::Lookup(StorageError::AmbiguousId { prefix, matches }))
                    && prefix@ == id@ && matches == n && final(self)@ == old(self)@,
                Ok(Some(full)) => {
                    let p = index_of_id(old(self)@, full);
                    &&& p < old(self)@.len()
                    &&& final(self)@ == old(self)@.update(p, final(self)@[p])
                    &&& match res {
                        Ok(Some(q)) => q == p && change_result(
                            old(self)@[p],
                            change,
                            final(self)@[p],
                            Ok(()),
                        ),
                        Err(ChangeError::Refused(e)) => change_result(
                            old(self)@[p],
                            change,
                            final(self)@[p],
                            Err(e),
                        ) && final(self)@ == old(self)@,
                        _ => false,
                    }
                },
            },
    {
        match self.locate_investment(id) {
            Err(e) => Err(ChangeError::Lookup(e)),
            Ok(None) => Ok(None),
            Ok(Some(p)) => {
                let ghost before = self.investments@;
                let mut inv = self.investments.remove(p);
                let r = match change {
                    Change::PriceEntry { date, price, sign, notes } => inv.add_price_entry(
                        date,
                        price,
                        sign,
                        notes,
                    ),
                    Change::Dividend { date, amount, sign, notes } => inv.add_dividend(
                        date,
                        amount,
                        sign,
                        notes,
                    ),
                };
                self.investments.insert(p, inv);
                assert(self.investments@ =~= before.update(p as int, inv));
                match r {
                    Ok(()) => Ok(Some(p)),
                    Err(e) => {
                        assert(self.investments@ =~= before);
                        Err(ChangeError::Refused(e))
                    },
                }
            },
        }
    }
}

// ── Laws ─────────────────────────────────────────────────────────────────────

/// No two investments share an ID.
pub open spec fn ids_distinct<M>(s: Seq<Investment<M>>) -> bool {
    forall|i: int, j: int|
        0 <= i < j < s.len() ==> #[trigger] s[i].id@ != #[trigger] s[j].id@
}

/// After adding an investment whose ID no other investment has, looking its
/// ID up finds exactly that investment, at the end of the collection;
/// deleting it then gives back the collection as it was; and the IDs stay
/// distinct.
pub proof fn law_get_after_add<M>(s: Seq<Investment<M>>, x: Investment<M>)
    requires
        !has_id(s, x.id@),
    ensures
        spec_resolve_id(s.push(x), x.id@) == Ok::<Option<Seq<char>>, nat>(Some(x.id@)),
        index_of_id(s.push(x), x.id@) == s.len(),
        s.push(x)[index_of_id(s.push(x), x.id@)] == x,
        s.push(x).remove(index_of_id(s.push(x), x.id@)) == s,
        ids_distinct(s) ==> ids_distinct(s.push(x)),
{
    let t = s.push(x);
    assert(t.remove(s.len() as int) =~= s);
    assert(t[s.len() as int].id@ == x.id@);
    assert forall|k: int| 0 <= k < s.len() implies #[trigger] t[k].id@ != x.id@ by {
        assert(t[k] == s[k]);
    }
    lemma_index_of_id(t, x.id@, s.len() as int);
    if ids_distinct(s) {
        assert forall|i: int, j: int| 0 <= i < j < t.len() implies #[trigger] t[i].id@
            != #[trigger] t[j].id@ by {
            if j == s.len() {
                assert(t[i] == s[i]);
            } else {
                assert(t[i] == s[i] && t[j] == s[j]);
            }
        }
    }
}

/// After an update replaced the investment with the new record's ID,
/// looking that ID up finds the new record at the replaced position, and
/// every other position is untouched.
pub proof fn law_get_after_update<M>(s: Seq<Investment<M>>, u: Investment<M>)
    requires
        has_id(s, u.id@),
    ensures
        ({
            let p = index_of_id(s, u.id@);
            let t = s.update(p, u);
            &&& spec_resolve_id(t, u.id@) == Ok::<Option<Seq<char>>, nat>(Some(u.id@))
            &&& index_of_id(t, u.id@) == p
            &&& t[index_of_id(t, u.id@)] == u
            &&& forall|k: int| 0 <= k < s.len() && k != p ==> #[trigger] t[k] == s[k]
        }),
{
    let p = index_of_id(s, u.id@);
    let t = s.update(p, u);
    lemma_index_of_id_found(s, u.id@);
    assert forall|k: int| 0 <= k < p implies #[trigger] t[k].id@ != u.id@ by {
        assert(t[k] == s[k]);
    }
    lemma_index_of_id(t, u.id@, p);
    assert(t[p].id@ == u.id@);
}

/// When IDs are distinct, deleting the investment an ID resolves to leaves no
/// investment with the resolved ID, removes exactly one investment, and keeps
/// the IDs distinct.
pub proof fn law_delete_removes<M>(s: Seq<Investment<M>>, id: Seq<char>)
    requires
        ids_distinct(s),
    ensures
        spec_resolve_id(s, id) matches Ok(Some(full)) ==> ({
            let t = s.remove(index_of_id(s, full));
            &&& !has_id(t, full)
            &&& t.len() == s.len() - 1
            &&& ids_distinct(t)
        }),
{
    if let Ok(Some(full)) = spec_resolve_id(s, id) {
        lemma_resolved_id_present(s, id);
        lemma_index_of_id_found(s, full);
        let p = index_of_id(s, full);
        let t = s.remove(p);
        if has_id(t, full) {
            let k = choose|k: int| 0 <= k < t.len() && #[trigger] t[k].id@ == full;
            if k < p {
                assert(t[k] == s[k]);
            } else {
                assert(t[k] == s[k + 1]);
                assert(s[p].id@ == s[k + 1].id@);
            }
        }
        assert forall|i: int, j: int| 0 <= i < j < t.len() implies #[trigger] t[i].id@
            != #[trigger] t[j].id@ by {
            let a = if i < p { i } else { i + 1 };
            let b = if j < p { j } else { j + 1 };
            assert(t[i] == s[a] && t[j] == s[b]);
        }
    }
}

} // verus!
