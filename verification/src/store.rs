//! The record type and the store that owns an ordered collection of records.

use crate::distance::{dist_sq, dist_sq_exec};
use crate::error::VectorError;
use vstd::prelude::*;

verus! {

/// A stored vector: a caller-assigned identifier and its components.
///
/// Identifiers are not required to be unique: inserting two records with the
/// same identifier keeps both, and `get` and `update` act on the first.
#[derive(Debug)]
pub struct VectorRecord {
    pub id: u32,
    pub components: Vec<i32>,
}

/// The mathematical value of a [`VectorRecord`].
#[verifier::ext_equal]
pub struct RecordModel {
    pub id: u32,
    pub components: Seq<i32>,
}

impl View for VectorRecord {
    type V = RecordModel;

    open spec fn view(&self) -> RecordModel {
        RecordModel { id: self.id, components: self.components@ }
    }
}

impl VectorRecord {
    /// A record with the given identifier and components.
    pub fn new(id: u32, components: Vec<i32>) -> (r: VectorRecord)
        ensures
            r@ == (RecordModel { id, components: components@ }),
    {
        VectorRecord { id, components }
    }
}

/// `s` holds at least one record with identifier `id`.
pub open spec fn has_id(s: Seq<RecordModel>, id: u32) -> bool {
    exists|i: int| 0 <= i < s.len() && s[i].id == id
}

/// Position `i` holds the first record of `s` with identifier `id`.
pub open spec fn first_match_at(s: Seq<RecordModel>, id: u32, i: int) -> bool {
    &&& 0 <= i < s.len()
    &&& s[i].id == id
    &&& forall|j: int| 0 <= j < i ==> s[j].id != id
}

/// `s` with every record of identifier `id` removed, the rest in order.
pub open spec fn remove_id(s: Seq<RecordModel>, id: u32) -> Seq<RecordModel> {
    s.filter(|r: RecordModel| r.id != id)
}

/// Every record of `s` has exactly as many components as `q`.
pub open spec fn dims_agree(s: Seq<RecordModel>, q: Seq<i32>) -> bool {
    forall|i: int| 0 <= i < s.len() ==> (#[trigger] s[i]).components.len() == q.len()
}

/// Position `i` holds the record of `s` nearest to `q`: no record is
/// strictly nearer, and every earlier record is strictly farther, so ties
/// fall to the record inserted first.
pub open spec fn nearest_at(s: Seq<RecordModel>, q: Seq<i32>, i: int) -> bool {
    &&& 0 <= i < s.len()
    &&& forall|j: int| 0 <= j < s.len() ==> dist_sq(q, (#[trigger] s[j]).components) >= dist_sq(
        q,
        s[i].components,
    )
    &&& forall|j: int| 0 <= j < i ==> dist_sq(q, (#[trigger] s[j]).components) > dist_sq(
        q,
        s[i].components,
    )
}

/// An ordered collection of records, scanned linearly by every query.
pub struct VectorStore {
    records: Vec<VectorRecord>,
}

impl View for VectorStore {
    type V = Seq<RecordModel>;

    closed spec fn view(&self) -> Seq<RecordModel> {
        self.records@.map_values(|r: VectorRecord| r@)
    }
}

impl VectorStore {
    /// An empty store.
    pub fn new() -> (s: VectorStore)
        ensures
            s@ == Seq::<RecordModel>::empty(),
    {
        VectorStore { records: Vec::new() }
    }

    /// Appends `record` at the end. Always succeeds; the identifier is not
    /// checked against those already present.
    pub fn insert(&mut self, record: VectorRecord)
        ensures
            final(self)@ == old(self)@.push(record@),
    {
        self.records.push(record);
        proof {
            assert(self@ =~= old(self)@.push(record@));
        }
    }

    /// The position of the first record with identifier `id`, if any.
    fn first_index(&self, id: u32) -> (r: Option<usize>)
        ensures
            match r {
                Some(i) => first_match_at(self@, id, i as int),
                None => !has_id(self@, id),
            },
    {
        let n: usize = self.records.len();
        let mut i: usize = 0;
        while i < n
            invariant
                i <= n,
                n == self@.len(),
                forall|j: int| 0 <= j < i ==> (#[trigger] self@[j]).id != id,
            decreases n - i,
        {
            if self.records[i].id == id {
                return Some(i);
            }
            i = i + 1;
        }
        None
    }

    /// A read-only view of the first record with identifier `id`, or `None`
    /// when the store holds no such record.
    pub fn get(&self, id: u32) -> (r: Option<&VectorRecord>)
        ensures
            match r {
                Some(rec) => exists|i: int|
                    first_match_at(self@, id, i) && rec@ == self@[i],
                None => !has_id(self@, id),
            },
    {
        match self.first_index(id) {
            Some(i) => Some(&self.records[i]),
            None => None,
        }
    }

    /// Replaces the components of the first record with identifier `id`,
    /// leaving its position and every other record unchanged. A no-op when
    /// no record has that identifier; later duplicates are never touched.
    pub fn update(&mut self, id: u32, new_components: Vec<i32>)
        ensures
            !has_id(old(self)@, id) ==> final(self)@ == old(self)@,
            forall|i: int|
                first_match_at(old(self)@, id, i) ==> final(self)@ == old(self)@.update(
                    i,
                    (RecordModel { id, components: new_components@ }),
                ),
    {
        match self.first_index(id) {
            Some(i) => {
                self.records[i] = VectorRecord { id, components: new_components };
                proof {
                    let m = RecordModel { id, components: new_components@ };
                    assert(self@ =~= old(self)@.update(i as int, m));
                    assert forall|j: int| first_match_at(old(self)@, id, j) implies j
                        == i as int by {
                        assert(old(self)@[j].id == id);
                        assert(old(self)@[i as int].id == id);
                    }
                }
            },
            None => {},
        }
    }

    /// Removes every record with identifier `id`, keeping the rest in their
    /// original relative order. A no-op when no record has that identifier.
    pub fn delete(&mut self, id: u32)
        ensures
            final(self)@ == remove_id(old(self)@, id),
    {
        let ghost g: Seq<RecordModel> = self@;
        let ghost pred: spec_fn(RecordModel) -> bool = |r: RecordModel| r.id != id;
        let ghost mut j: int = 0;
        let mut i: usize = 0;
        while i < self.records.len()
            invariant
                pred == (|r: RecordModel| r.id != id),
                0 <= j <= g.len(),
                i as int == g.take(j).filter(pred).len(),
                self@ =~= g.take(j).filter(pred) + g.skip(j),
            decreases g.len() - j,
        {
            let ghost m0 = self@;
            proof {
                assert(g.skip(j)[0] == g[j]);
                assert(m0[i as int] == g[j]);
                assert(g.take(j + 1) =~= g.take(j).push(g[j]));
                g.take(j).lemma_filter_push(g[j], pred);
            }
            if self.records[i].id == id {
                self.records.remove(i);
                proof {
                    j = j + 1;
                    assert(g[j - 1].id == id);
                    assert(!pred(g[j - 1]));
                    assert(g.take(j).filter(pred) == g.take(j - 1).filter(pred));
                    assert(self@ =~= m0.remove(i as int));
                    assert(m0.remove(i as int) =~= g.take(j).filter(pred) + g.skip(j));
                }
            } else {
                i = i + 1;
                proof {
                    j = j + 1;
                    assert(g[j - 1].id != id);
                    assert(pred(g[j - 1]));
                    assert(g.take(j).filter(pred) == g.take(j - 1).filter(pred).push(g[j - 1]));
                    assert(self@ =~= g.take(j).filter(pred) + g.skip(j));
                }
            }
        }
        proof {
            assert(g.take(j) =~= g);
            assert(self@ =~= g.filter(pred));
        }
    }

    /// A read-only view of the record nearest to `query` by Euclidean
    /// distance, scanning all records and keeping the strictly smallest
    /// squared distance seen, so a tie falls to the record inserted first.
    ///
    /// Fails with `EmptyStore` on a store with no records, and with
    /// `DimensionMismatch` when any record's length differs from the
    /// query's; otherwise it succeeds.
    pub fn nearest_neighbour(&self, query: &VectorRecord) -> (r: Result<
        &VectorRecord,
        VectorError,
    >)
        ensures
            self@.len() == 0 ==> r == Err::<&VectorRecord, VectorError>(VectorError::EmptyStore),
            self@.len() > 0 && !dims_agree(self@, query@.components) ==> r == Err::<
                &VectorRecord,
                VectorError,
            >(VectorError::DimensionMismatch),
            self@.len() > 0 && dims_agree(self@, query@.components) ==> (r matches Ok(rec)
                && exists|i: int| nearest_at(self@, query@.components, i) && rec@ == self@[i]),
    {
        let n: usize = self.records.len();
        if n == 0 {
            return Err(VectorError::EmptyStore);
        }
        let mut i: usize = 0;
        while i < n
            invariant
                i <= n,
                n == self@.len(),
                forall|j: int|
                    0 <= j < i ==> (#[trigger] self@[j]).components.len()
                        == query@.components.len(),
            decreases n - i,
        {
            if self.records[i].components.len() != query.components.len() {
                proof {
                    assert(self@[i as int].components.len() != query@.components.len());
                }
                return Err(VectorError::DimensionMismatch);
            }
            i = i + 1;
        }
        let mut best: usize = 0;
        proof {
            assert(self@[0] == self.records@[0]@);
        }
        let mut best_d: u128 = dist_sq_exec(&query.components, &self.records[0].components);
        let mut k: usize = 1;
        while k < n
            invariant
                best < k <= n,
                n == self@.len(),
                dims_agree(self@, query@.components),
                best_d == dist_sq(query@.components, self@[best as int].components),
                forall|j: int|
                    0 <= j < k ==> dist_sq(query@.components, (#[trigger] self@[j]).components)
                        >= best_d,
                forall|j: int|
                    0 <= j < best ==> dist_sq(query@.components, (#[trigger] self@[j]).components)
                        > best_d,
            decreases n - k,
        {
            proof {
                assert(self@[k as int] == self.records@[k as int]@);
            }
            let d: u128 = dist_sq_exec(&query.components, &self.records[k].components);
            if d < best_d {
                best_d = d;
                best = k;
            }
            k = k + 1;
        }
        proof {
            assert(nearest_at(self@, query@.components, best as int));
        }
        Ok(&self.records[best])
    }
}

} // verus!
