//! The funds of one wallet: a map from fund id to fund, kept as a list in
//! ascending order of id.

use vstd::prelude::*;
use crate::key_order::ascending;
use crate::key_order::key_before;
use crate::key_order::key_lt;
use crate::key_order::lemma_ascending_distinct;
use crate::key_order::lemma_ascending_insert;
use crate::key_order::lemma_ascending_remove;
use crate::key_order::lemma_ascending_unique;
use crate::key_order::lemma_key_lt_total;
use crate::types::Fund;
use crate::types::FundModel;

verus! {

/// The models of a sequence of funds.
pub open spec fn fund_models(funds: Seq<Fund>) -> Seq<FundModel> {
    funds.map_values(|f: Fund| f@)
}

/// The ids of a sequence of funds.
pub open spec fn fund_keys(funds: Seq<FundModel>) -> Seq<Seq<char>> {
    funds.map_values(|f: FundModel| f.id)
}

/// Some fund of the sequence has the given id.
pub open spec fn has_fund(funds: Seq<FundModel>, id: Seq<char>) -> bool {
    exists|i: int| 0 <= i < funds.len() && (#[trigger] funds[i]).id == id
}

/// Where the fund with the given id stands.
pub open spec fn fund_index(funds: Seq<FundModel>, id: Seq<char>) -> int {
    choose|i: int| 0 <= i < funds.len() && (#[trigger] funds[i]).id == id
}

/// The funds as a map from id to fund.
pub open spec fn fund_map(funds: Seq<FundModel>) -> Map<Seq<char>, FundModel> {
    Map::new(|id: Seq<char>| has_fund(funds, id), |id: Seq<char>| funds[fund_index(funds, id)])
}

/// The sum of what the funds hold.
pub open spec fn total_saved(funds: Seq<FundModel>) -> int
    decreases funds.len(),
{
    if funds.len() == 0 {
        0
    } else {
        total_saved(funds.drop_last()) + funds.last().current_amount
    }
}

/// Every fund of the sequence has a positive target and holds between
/// nothing and its target.
pub open spec fn all_valid(funds: Seq<FundModel>) -> bool {
    forall|i: int| 0 <= i < funds.len() ==> (#[trigger] funds[i]).valid()
}

/// In a list in ascending order of id, the fund at a place is the one that
/// the map has under its id.
pub proof fn lemma_fund_map_at(funds: Seq<FundModel>, i: int)
    requires
        ascending(fund_keys(funds)),
        0 <= i < funds.len(),
    ensures
        has_fund(funds, funds[i].id),
        fund_index(funds, funds[i].id) == i,
        fund_map(funds).dom().contains(funds[i].id),
        fund_map(funds)[funds[i].id] == funds[i],
{
    let id = funds[i].id;
    let j = fund_index(funds, id);
    let keys = fund_keys(funds);
    assert(keys[i] == keys[j]);
    lemma_ascending_distinct(keys, i, j);
}

/// A list in ascending order of id is determined by its map: there is one
/// listing of given funds.
pub proof fn lemma_listing_unique(a: Seq<FundModel>, b: Seq<FundModel>)
    requires
        ascending(fund_keys(a)),
        ascending(fund_keys(b)),
        fund_map(a) == fund_map(b),
    ensures
        a == b,
{
    let keys_a = fund_keys(a);
    let keys_b = fund_keys(b);
    assert forall|id: Seq<char>| keys_a.contains(id) <==> keys_b.contains(id) by {
        if keys_a.contains(id) {
            let i = choose|i: int| 0 <= i < keys_a.len() && keys_a[i] == id;
            lemma_fund_map_at(a, i);
            assert(fund_map(b).dom().contains(id));
            let j = fund_index(b, id);
            assert(keys_b[j] == id);
        }
        if keys_b.contains(id) {
            let i = choose|i: int| 0 <= i < keys_b.len() && keys_b[i] == id;
            lemma_fund_map_at(b, i);
            assert(fund_map(a).dom().contains(id));
            let j = fund_index(a, id);
            assert(keys_a[j] == id);
        }
    }
    assert(keys_a.to_set() =~= keys_b.to_set());
    lemma_ascending_unique(keys_a, keys_b);
    assert(a.len() == keys_a.len());
    assert(b.len() == keys_b.len());
    assert forall|i: int| 0 <= i < a.len() implies a[i] == b[i] by {
        lemma_fund_map_at(a, i);
        lemma_fund_map_at(b, i);
        assert(keys_a[i] == a[i].id);
        assert(keys_b[i] == b[i].id);
    }
    assert(a =~= b);
}

/// The sum of valid funds is not negative.
pub proof fn lemma_total_saved_nonnegative(funds: Seq<FundModel>)
    requires
        all_valid(funds),
    ensures
        0 <= total_saved(funds),
    decreases funds.len(),
{
    if funds.len() > 0 {
        let rest = funds.drop_last();
        assert forall|i: int| 0 <= i < rest.len() implies (#[trigger] rest[i]).valid() by {
            assert(rest[i] == funds[i]);
        }
        lemma_total_saved_nonnegative(rest);
        assert(funds.last() == funds[funds.len() - 1]);
    }
}

/// The sum of the first funds of a valid list is no more than the sum of all.
pub proof fn lemma_total_saved_prefix(funds: Seq<FundModel>, n: int)
    requires
        all_valid(funds),
        0 <= n <= funds.len(),
    ensures
        total_saved(funds.take(n)) <= total_saved(funds),
    decreases funds.len() - n,
{
    if n == funds.len() {
        assert(funds.take(n) =~= funds);
    } else {
        let longer = funds.take(n + 1);
        assert(longer.drop_last() =~= funds.take(n));
        assert(longer.last() == funds[n]);
        assert(funds[n].valid());
        lemma_total_saved_prefix(funds, n + 1);
    }
}

/// A fund put into the list adds what it holds to the sum.
pub proof fn lemma_total_saved_insert(funds: Seq<FundModel>, p: int, f: FundModel)
    requires
        0 <= p <= funds.len(),
    ensures
        total_saved(funds.insert(p, f)) == total_saved(funds) + f.current_amount,
    decreases funds.len(),
{
    let out = funds.insert(p, f);
    if p == funds.len() {
        assert(out.drop_last() =~= funds);
    } else {
        assert(out.drop_last() =~= funds.drop_last().insert(p, f));
        assert(out.last() == funds.last());
        lemma_total_saved_insert(funds.drop_last(), p, f);
    }
}

/// A fund taken out of the list takes what it holds from the sum.
pub proof fn lemma_total_saved_remove(funds: Seq<FundModel>, p: int)
    requires
        0 <= p < funds.len(),
    ensures
        total_saved(funds.remove(p)) == total_saved(funds) - funds[p].current_amount,
{
    let out = funds.remove(p);
    assert(out.insert(p, funds[p]) =~= funds);
    lemma_total_saved_insert(out, p, funds[p]);
}

/// Replacing a fund changes the sum by the difference of what the two hold.
pub proof fn lemma_total_saved_update(funds: Seq<FundModel>, p: int, f: FundModel)
    requires
        0 <= p < funds.len(),
    ensures
        total_saved(funds.update(p, f)) == total_saved(funds) - funds[p].current_amount
            + f.current_amount,
{
    let without = funds.remove(p);
    lemma_total_saved_remove(funds, p);
    assert(without.insert(p, f) =~= funds.update(p, f));
    lemma_total_saved_insert(without, p, f);
}

/// Putting a fund with a new id at its place in the order adds it to the map.
pub proof fn lemma_fund_map_insert(funds: Seq<FundModel>, p: int, f: FundModel)
    requires
        ascending(fund_keys(funds)),
        0 <= p <= funds.len(),
        forall|i: int| 0 <= i < p ==> key_lt((#[trigger] funds[i]).id, f.id),
        p < funds.len() ==> key_lt(f.id, funds[p].id),
    ensures
        ascending(fund_keys(funds.insert(p, f))),
        !has_fund(funds, f.id),
        fund_map(funds.insert(p, f)) == fund_map(funds).insert(f.id, f),
{
    let out = funds.insert(p, f);
    let keys = fund_keys(funds);
    assert(fund_keys(out) =~= keys.insert(p, f.id));
    assert forall|i: int| 0 <= i < p implies key_lt(#[trigger] keys[i], f.id) by {
        assert(keys[i] == funds[i].id);
    }
    lemma_ascending_insert(keys, p, f.id);
    let out_keys = fund_keys(out);
    if has_fund(funds, f.id) {
        let j = fund_index(funds, f.id);
        let jj = if j < p { j } else { j + 1 };
        assert(out_keys[jj] == f.id);
        assert(out_keys[p] == f.id);
        lemma_ascending_distinct(out_keys, jj, p);
    }
    assert forall|id: Seq<char>| has_fund(out, id) <==> (id == f.id || has_fund(funds, id)) by {
        if has_fund(out, id) {
            let j = fund_index(out, id);
            if j != p {
                let jj = if j < p { j } else { j - 1 };
                assert(funds[jj].id == id);
            }
        }
        if id == f.id {
            assert(out[p].id == id);
        }
        if has_fund(funds, id) {
            let j = fund_index(funds, id);
            let jj = if j < p { j } else { j + 1 };
            assert(out[jj].id == id);
        }
    }
    assert forall|id: Seq<char>| has_fund(out, id) implies #[trigger] fund_map(out)[id]
        == fund_map(funds).insert(f.id, f)[id] by {
        let j = fund_index(out, id);
        lemma_fund_map_at(out, j);
        if j != p {
            let jj = if j < p { j } else { j - 1 };
            assert(funds[jj] == out[j]);
            lemma_fund_map_at(funds, jj);
            assert(out_keys[j] == id);
            assert(out_keys[p] == f.id);
            if id == f.id {
                lemma_ascending_distinct(out_keys, j, p);
            }
        }
    }
    assert(fund_map(out) =~= fund_map(funds).insert(f.id, f));
}

/// Taking the fund at a place out of the list removes its id from the map.
pub proof fn lemma_fund_map_remove(funds: Seq<FundModel>, p: int)
    requires
        ascending(fund_keys(funds)),
        0 <= p < funds.len(),
    ensures
        ascending(fund_keys(funds.remove(p))),
        fund_map(funds.remove(p)) == fund_map(funds).remove(funds[p].id),
{
    let out = funds.remove(p);
    let keys = fund_keys(funds);
    let gone = funds[p].id;
    assert(fund_keys(out) =~= keys.remove(p));
    lemma_ascending_remove(keys, p);
    assert forall|id: Seq<char>| has_fund(out, id) <==> (id != gone && has_fund(funds, id)) by {
        if has_fund(out, id) {
            let j = fund_index(out, id);
            let jj = if j < p { j } else { j + 1 };
            assert(funds[jj].id == id);
            assert(keys[jj] == id);
            assert(keys[p] == gone);
            if id == gone {
                lemma_ascending_distinct(keys, jj, p);
            }
        }
        if id != gone && has_fund(funds, id) {
            let j = fund_index(funds, id);
            let jj = if j < p { j } else { j - 1 };
            assert(out[jj].id == id);
        }
    }
    assert forall|id: Seq<char>| has_fund(out, id) implies #[trigger] fund_map(out)[id]
        == fund_map(funds).remove(gone)[id] by {
        let j = fund_index(out, id);
        lemma_fund_map_at(out, j);
        let jj = if j < p { j } else { j + 1 };
        assert(funds[jj] == out[j]);
        lemma_fund_map_at(funds, jj);
    }
    assert(fund_map(out) =~= fund_map(funds).remove(gone));
}

/// Replacing the fund at a place by one of the same id replaces it in the
/// map.
pub proof fn lemma_fund_map_update(funds: Seq<FundModel>, p: int, f: FundModel)
    requires
        ascending(fund_keys(funds)),
        0 <= p < funds.len(),
        f.id == funds[p].id,
    ensures
        ascending(fund_keys(funds.update(p, f))),
        fund_map(funds.update(p, f)) == fund_map(funds).insert(f.id, f),
{
    let out = funds.update(p, f);
    assert(fund_keys(out) =~= fund_keys(funds));
    assert forall|id: Seq<char>| has_fund(out, id) <==> has_fund(funds, id) by {
        if has_fund(out, id) {
            let j = fund_index(out, id);
            assert(funds[j].id == id);
        }
        if has_fund(funds, id) {
            let j = fund_index(funds, id);
            assert(out[j].id == id);
        }
    }
    lemma_fund_map_at(funds, p);
    assert forall|id: Seq<char>| has_fund(out, id) implies #[trigger] fund_map(out)[id]
        == fund_map(funds).insert(f.id, f)[id] by {
        let j = fund_index(out, id);
        lemma_fund_map_at(out, j);
        if j != p {
            assert(funds[j] == out[j]);
            lemma_fund_map_at(funds, j);
            let keys = fund_keys(funds);
            assert(keys[j] == id);
            assert(keys[p] == f.id);
            if id == f.id {
                lemma_ascending_distinct(keys, j, p);
            }
        }
    }
    assert(fund_map(out) =~= fund_map(funds).insert(f.id, f));
}

/// No two funds of the sequence have the same id.
pub open spec fn distinct_ids(funds: Seq<FundModel>) -> bool {
    forall|i: int, j: int|
        0 <= i < j < funds.len() ==> (#[trigger] funds[i]).id != (#[trigger] funds[j]).id
}

/// Where no id occurs twice, the fund at a place is the one that the map has
/// under its id.
pub proof fn lemma_fund_map_at_distinct(funds: Seq<FundModel>, i: int)
    requires
        distinct_ids(funds),
        0 <= i < funds.len(),
    ensures
        fund_map(funds).dom().contains(funds[i].id),
        fund_map(funds)[funds[i].id] == funds[i],
{
    let j = fund_index(funds, funds[i].id);
    if j < i {
        assert(funds[j].id != funds[i].id);
    } else if i < j {
        assert(funds[i].id != funds[j].id);
    }
}

/// A fund with a new id put at the end of a list without a repeated id adds
/// it to the map, and no id is repeated afterwards.
pub proof fn lemma_fund_map_push(funds: Seq<FundModel>, f: FundModel)
    requires
        distinct_ids(funds),
        !has_fund(funds, f.id),
    ensures
        distinct_ids(funds.push(f)),
        fund_map(funds.push(f)) == fund_map(funds).insert(f.id, f),
        total_saved(funds.push(f)) == total_saved(funds) + f.current_amount,
{
    let out = funds.push(f);
    assert(out.drop_last() =~= funds);
    assert forall|i: int, j: int| 0 <= i < j < out.len() implies (#[trigger] out[i]).id != (
    #[trigger] out[j]).id by {
        if j == funds.len() {
            assert(funds[i].id != f.id);
        } else {
            assert(funds[i].id != funds[j].id);
        }
    }
    assert forall|id: Seq<char>| has_fund(out, id) <==> (id == f.id || has_fund(funds, id)) by {
        if has_fund(out, id) {
            let j = fund_index(out, id);
            if j < funds.len() {
                assert(funds[j].id == id);
            }
        }
        if id == f.id {
            assert(out[funds.len() as int].id == id);
        }
        if has_fund(funds, id) {
            let j = fund_index(funds, id);
            assert(out[j].id == id);
        }
    }
    assert forall|id: Seq<char>| has_fund(out, id) implies #[trigger] fund_map(out)[id]
        == fund_map(funds).insert(f.id, f)[id] by {
        let j = fund_index(out, id);
        lemma_fund_map_at_distinct(out, j);
        if j < funds.len() {
            assert(out[j] == funds[j]);
            lemma_fund_map_at_distinct(funds, j);
        }
    }
    assert(fund_map(out) =~= fund_map(funds).insert(f.id, f));
}

/// The funds of one wallet.
#[derive(Clone, Debug, PartialEq, Eq)]
pub struct FundBook {
    pub funds: Vec<Fund>,
}

impl View for FundBook {
    type V = Map<Seq<char>, FundModel>;

    open spec fn view(&self) -> Map<Seq<char>, FundModel> {
        fund_map(self.listing())
    }
}

impl FundBook {
    /// The funds in ascending order of id.
    pub open spec fn listing(&self) -> Seq<FundModel> {
        fund_models(self.funds@)
    }

    /// The sum of what the funds hold.
    pub open spec fn total(&self) -> int {
        total_saved(self.listing())
    }

    /// The funds stand in ascending order of id, so no id occurs twice, and
    /// each fund is valid.
    pub open spec fn wf(&self) -> bool {
        &&& ascending(fund_keys(self.listing()))
        &&& all_valid(self.listing())
    }

    /// A book without funds.
    pub fn new() -> (r: FundBook)
        ensures
            r.wf(),
            r@ == Map::<Seq<char>, FundModel>::empty(),
            r.listing() == Seq::<FundModel>::empty(),
            r.total() == 0,
    {
        let r = FundBook { funds: Vec::new() };
        proof {
            assert(r.listing() =~= Seq::<FundModel>::empty());
            assert(r@ =~= Map::<Seq<char>, FundModel>::empty());
        }
        r
    }

    /// The place of the first fund whose id does not come before `id`: where
    /// a fund with this id stands, or would have to be put.
    pub fn position(&self, id: &String) -> (p: usize)
        requires
            self.wf(),
        ensures
            p <= self.funds@.len(),
            forall|i: int| 0 <= i < p ==> key_lt((#[trigger] self.listing()[i]).id, id@),
            p < self.funds@.len() ==> !key_lt(self.listing()[p as int].id, id@),
            self@.dom().contains(id@) <==> (p < self.funds@.len() && self.listing()[p as int].id
                == id@),
    {
        let mut p: usize = 0;
        while p < self.funds.len() && key_before(&self.funds[p].id, id)
            invariant
                p <= self.funds@.len(),
                forall|i: int| 0 <= i < p ==> key_lt((#[trigger] self.listing()[i]).id, id@),
            decreases self.funds@.len() - p,
        {
            p = p + 1;
        }
        proof {
            let list = self.listing();
            let keys = fund_keys(list);
            if has_fund(list, id@) {
                let j = fund_index(list, id@);
                if j < p {
                    crate::key_order::lemma_key_lt_irreflexive(id@);
                } else if j > p {
                    assert(keys[p as int] == list[p as int].id);
                    assert(keys[j] == id@);
                    assert(key_lt(keys[p as int], keys[j]));
                }
            }
            if p < self.funds@.len() && list[p as int].id == id@ {
                assert(has_fund(list, id@));
            }
        }
        p
    }

    /// Whether a fund with the given id exists.
    pub fn contains(&self, id: &String) -> (r: bool)
        requires
            self.wf(),
        ensures
            r == self@.dom().contains(id@),
    {
        let p = self.position(id);
        p < self.funds.len() && self.funds[p].id == *id
    }

    /// The fund with the given id; `None` where there is none.
    pub fn get(&self, id: &String) -> (r: Option<Fund>)
        requires
            self.wf(),
        ensures
            match r {
                Some(f) => self@.dom().contains(id@) && f@ == self@[id@],
                None => !self@.dom().contains(id@),
            },
    {
        let p = self.position(id);
        if p < self.funds.len() && self.funds[p].id == *id {
            proof {
                lemma_fund_map_at(self.listing(), p as int);
            }
            Some(self.funds[p].clone())
        } else {
            None
        }
    }

    /// Puts a fund under an id that is not yet taken.
    pub fn insert(&mut self, fund: Fund)
        requires
            old(self).wf(),
            !old(self)@.dom().contains(fund.id@),
            fund@.valid(),
        ensures
            final(self).wf(),
            final(self)@ == old(self)@.insert(fund.id@, fund@),
            final(self).total() == old(self).total() + fund.current_amount,
    {
        let p = self.position(&fund.id);
        let ghost before = self.listing();
        proof {
            if p < self.funds@.len() {
                lemma_key_lt_total(fund.id@, before[p as int].id);
            }
            lemma_fund_map_insert(before, p as int, fund@);
            lemma_total_saved_insert(before, p as int, fund@);
        }
        self.funds.insert(p, fund);
        proof {
            assert(final(self).listing() =~= before.insert(p as int, fund@));
        }
    }

    /// Takes the fund with the given id out of the book and hands it back;
    /// `None`, and nothing changed, where there is none.
    pub fn remove(&mut self, id: &String) -> (r: Option<Fund>)
        requires
            old(self).wf(),
        ensures
            final(self).wf(),
            match r {
                Some(f) => {
                    &&& old(self)@.dom().contains(id@)
                    &&& f@ == old(self)@[id@]
                    &&& final(self)@ == old(self)@.remove(id@)
                    &&& final(self).total() == old(self).total() - f.current_amount
                },
                None => !old(self)@.dom().contains(id@) && *final(self) == *old(self),
            },
    {
        let p = self.position(id);
        if p < self.funds.len() && self.funds[p].id == *id {
            let ghost before = self.listing();
            proof {
                lemma_fund_map_at(before, p as int);
                lemma_fund_map_remove(before, p as int);
                lemma_total_saved_remove(before, p as int);
            }
            let f = self.funds.remove(p);
            proof {
                assert(final(self).listing() =~= before.remove(p as int));
            }
            Some(f)
        } else {
            None
        }
    }

    /// Adds `amount` to what the fund with the given id holds.
    pub fn add_to(&mut self, id: &String, amount: i128)
        requires
            old(self).wf(),
            old(self)@.dom().contains(id@),
            0 <= amount,
            old(self)@[id@].current_amount + amount <= old(self)@[id@].target_amount,
        ensures
            final(self).wf(),
            final(self)@ == old(self)@.insert(
                id@,
                (FundModel {
                    current_amount: old(self)@[id@].current_amount + amount,
                    ..old(self)@[id@]
                }),
            ),
            final(self).total() == old(self).total() + amount,
    {
        let p = self.position(id);
        let ghost before = self.listing();
        proof {
            lemma_fund_map_at(before, p as int);
        }
        let held = self.funds.remove(p);
        let grown = Fund {
            id: held.id,
            target_amount: held.target_amount,
            current_amount: held.current_amount + amount,
            procedure_name: held.procedure_name,
        };
        proof {
            lemma_fund_map_update(before, p as int, grown@);
            lemma_total_saved_update(before, p as int, grown@);
        }
        self.funds.insert(p, grown);
        proof {
            assert(final(self).listing() =~= before.update(p as int, grown@));
        }
    }

    /// All funds, in ascending order of id.
    pub fn get_all_funds(&self) -> (r: Vec<Fund>)
        ensures
            r@ == self.funds@,
            fund_models(r@) == self.listing(),
            fund_map(fund_models(r@)) == self@,
            self.wf() ==> ascending(fund_keys(fund_models(r@))),
    {
        let mut out: Vec<Fund> = Vec::new();
        let mut i: usize = 0;
        while i < self.funds.len()
            invariant
                i <= self.funds@.len(),
                out@ == self.funds@.take(i as int),
            decreases self.funds@.len() - i,
        {
            out.push(self.funds[i].clone());
            proof {
                assert(out@ =~= self.funds@.take(i + 1));
            }
            i = i + 1;
        }
        proof {
            assert(self.funds@.take(i as int) =~= self.funds@);
        }
        out
    }

    /// The sum of what the funds hold; `None` where it does not fit in an
    /// `i128`.
    pub fn held(&self) -> (r: Option<i128>)
        requires
            self.wf(),
        ensures
            match r {
                Some(t) => t == self.total(),
                None => self.total() > i128::MAX,
            },
    {
        let ghost list = self.listing();
        let mut sum: i128 = 0;
        let mut i: usize = 0;
        proof {
            assert(list.take(0) =~= Seq::<FundModel>::empty());
            lemma_total_saved_nonnegative(list);
        }
        while i < self.funds.len()
            invariant
                i <= self.funds@.len(),
                list == self.listing(),
                all_valid(list),
                0 <= sum,
                sum == total_saved(list.take(i as int)),
                sum <= total_saved(list),
            decreases self.funds@.len() - i,
        {
            let amount: i128 = self.funds[i].current_amount;
            proof {
                let next = list.take(i + 1);
                assert(next.drop_last() =~= list.take(i as int));
                assert(next.last() == list[i as int]);
                assert(list[i as int].valid());
                lemma_total_saved_prefix(list, i + 1);
            }
            match sum.checked_add(amount) {
                Some(t) => {
                    sum = t;
                },
                None => {
                    return None;
                },
            }
            i = i + 1;
        }
        proof {
            assert(list.take(i as int) =~= list);
        }
        Some(sum)
    }

    /// The book that holds the given funds. There is none where one of them
    /// is not valid or where two of them have the same id. Funds given in
    /// ascending order of id are kept as they were given.
    pub fn restore(funds: &Vec<Fund>) -> (r: Option<FundBook>)
        ensures
            match r {
                Some(book) => {
                    &&& book.wf()
                    &&& all_valid(fund_models(funds@))
                    &&& distinct_ids(fund_models(funds@))
                    &&& book@ == fund_map(fund_models(funds@))
                    &&& book.total() == total_saved(fund_models(funds@))
                    &&& ascending(fund_keys(fund_models(funds@))) ==> book.listing()
                        == fund_models(funds@)
                },
                None => !(all_valid(fund_models(funds@)) && distinct_ids(fund_models(funds@))),
            },
    {
        let ghost given = fund_models(funds@);
        let mut book = FundBook::new();
        let mut i: usize = 0;
        proof {
            assert(given.take(0) =~= Seq::<FundModel>::empty());
        }
        while i < funds.len()
            invariant
                i <= funds@.len(),
                given == fund_models(funds@),
                book.wf(),
                all_valid(given.take(i as int)),
                distinct_ids(given.take(i as int)),
                book@ == fund_map(given.take(i as int)),
                book.total() == total_saved(given.take(i as int)),
            decreases funds@.len() - i,
        {
            let fund = funds[i].clone();
            let ghost seen = given.take(i as int);
            proof {
                assert(given.take(i + 1) =~= seen.push(fund@));
            }
            if !(0 < fund.target_amount && 0 <= fund.current_amount && fund.current_amount
                <= fund.target_amount) {
                proof {
                    assert(!given[i as int].valid());
                }
                return None;
            }
            if book.contains(&fund.id) {
                proof {
                    let j = fund_index(seen, fund.id@);
                    assert(given[j].id == seen[j].id);
                    assert(given[j].id == given[i as int].id);
                }
                return None;
            }
            proof {
                lemma_fund_map_push(seen, fund@);
                assert forall|k: int| 0 <= k < seen.push(fund@).len() implies (
                #[trigger] seen.push(fund@)[k]).valid() by {
                    if k < seen.len() {
                        assert(seen[k].valid());
                    }
                }
            }
            book.insert(fund);
            i = i + 1;
        }
        proof {
            assert(given.take(i as int) =~= given);
            if ascending(fund_keys(given)) {
                lemma_listing_unique(book.listing(), given);
            }
        }
        Some(book)
    }
}

} // verus!
