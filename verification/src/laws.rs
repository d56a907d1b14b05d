//! Laws relating the store's operations: what a lookup sees after an
//! insert, an update, or a delete, and how the nearest-neighbour query
//! breaks ties.
//!
//! The operations' own contracts describe each call in isolation, over the
//! store's view. The lemmas here combine them across calls, so each law is
//! stated over views as well: `s` stands for a store's records and the
//! operations' contracts carry any concrete store to it.

use crate::distance::dist_sq;
use crate::store::{first_match_at, has_id, nearest_at, remove_id, RecordModel};
use vstd::prelude::*;

verus! {

/// After an insert, a lookup sees what it saw before: the first record with
/// any identifier keeps its position, an absent identifier other than the
/// new record's stays absent, and a previously absent identifier equal to
/// the new record's is now found at the end, as the new record.
pub proof fn lemma_get_after_insert(s: Seq<RecordModel>, r: RecordModel)
    ensures
        forall|id: u32, i: int|
            first_match_at(s, id, i) ==> first_match_at(s.push(r), id, i),
        !has_id(s, r.id) ==> first_match_at(s.push(r), r.id, s.len() as int),
        forall|id: u32| id != r.id && !has_id(s, id) ==> !has_id(s.push(r), id),
{
    assert forall|id: u32, i: int| first_match_at(s, id, i) implies first_match_at(
        s.push(r),
        id,
        i,
    ) by {
        assert(s.push(r)[i] == s[i]);
        assert(forall|j: int| 0 <= j < i ==> s.push(r)[j] == s[j]);
    }
}

/// After an update for an identifier the store holds, a lookup for that
/// identifier finds the same position as before, now carrying the new
/// components, and every other record is unchanged.
pub proof fn lemma_get_after_update(s: Seq<RecordModel>, id: u32, c: Seq<i32>, i: int)
    requires
        first_match_at(s, id, i),
    ensures
        first_match_at(s.update(i, (RecordModel { id, components: c })), id, i),
        s.update(i, (RecordModel { id, components: c }))[i].components == c,
        forall|j: int|
            0 <= j < s.len() && j != i ==> s.update(i, (RecordModel { id, components: c }))[j]
                == s[j],
{
}

/// After a delete, a lookup for the deleted identifier finds nothing.
pub proof fn lemma_get_after_delete(s: Seq<RecordModel>, id: u32)
    ensures
        !has_id(remove_id(s, id), id),
{
    let pred: spec_fn(RecordModel) -> bool = |r: RecordModel| r.id != id;
    assert forall|i: int| 0 <= i < remove_id(s, id).len() implies (#[trigger] remove_id(s, id)[i]).id
        != id by {
        s.lemma_filter_pred(pred, i);
    }
}

/// A delete removes every record with the given identifier and only those,
/// and keeps the remainder in order: on an empty store it yields an empty
/// store, and extending the store by one record extends the deleted store
/// by that record exactly when its identifier differs.
pub proof fn lemma_delete_exact(s: Seq<RecordModel>, r: RecordModel, id: u32)
    ensures
        remove_id(Seq::<RecordModel>::empty(), id) == Seq::<RecordModel>::empty(),
        remove_id(s.push(r), id) == if r.id == id {
            remove_id(s, id)
        } else {
            remove_id(s, id).push(r)
        },
{
    let pred: spec_fn(RecordModel) -> bool = |r: RecordModel| r.id != id;
    s.lemma_filter_push(r, pred);
    assert(Seq::<RecordModel>::empty().filter(pred) =~= Seq::<RecordModel>::empty());
}

/// A delete for an identifier the store does not hold changes nothing.
pub proof fn lemma_delete_absent_noop(s: Seq<RecordModel>, id: u32)
    requires
        !has_id(s, id),
    ensures
        remove_id(s, id) == s,
    decreases s.len(),
{
    let pred: spec_fn(RecordModel) -> bool = |r: RecordModel| r.id != id;
    if s.len() > 0 {
        let prefix = s.drop_last();
        assert(forall|i: int| 0 <= i < prefix.len() ==> prefix[i] == s[i]);
        lemma_delete_absent_noop(prefix, id);
        prefix.lemma_filter_push(s.last(), pred);
        assert(s[s.len() - 1].id != id);
        assert(s =~= prefix.push(s.last()));
    } else {
        assert(s.filter(pred) =~= s);
    }
}

/// At most one position satisfies `nearest_at`: the query's answer is
/// determined by the records and the query alone.
pub proof fn lemma_nearest_unique(s: Seq<RecordModel>, q: Seq<i32>, i: int, j: int)
    requires
        nearest_at(s, q, i),
        nearest_at(s, q, j),
    ensures
        i == j,
{
    if i < j {
        assert(dist_sq(q, s[i].components) > dist_sq(q, s[j].components));
        assert(dist_sq(q, s[i].components) <= dist_sq(q, s[j].components));
    }
    if j < i {
        assert(dist_sq(q, s[j].components) > dist_sq(q, s[i].components));
        assert(dist_sq(q, s[j].components) <= dist_sq(q, s[i].components));
    }
}

/// Tie-break: when two records are equidistant from the query and that
/// distance is minimal, the nearest record is the earlier of the two, or an
/// earlier one still; never the later.
pub proof fn lemma_tie_break(s: Seq<RecordModel>, q: Seq<i32>, i: int, j: int)
    requires
        0 <= i < j < s.len(),
        dist_sq(q, s[i].components) == dist_sq(q, s[j].components),
        forall|k: int|
            0 <= k < s.len() ==> dist_sq(q, (#[trigger] s[k]).components) >= dist_sq(
                q,
                s[i].components,
            ),
    ensures
        !nearest_at(s, q, j),
        forall|m: int| nearest_at(s, q, m) ==> m <= i,
{
    if nearest_at(s, q, j) {
        assert(dist_sq(q, s[i].components) > dist_sq(q, s[j].components));
    }
    assert forall|m: int| nearest_at(s, q, m) implies m <= i by {
        if m > i {
            assert(dist_sq(q, s[i].components) > dist_sq(q, s[m].components));
            assert(dist_sq(q, s[m].components) >= dist_sq(q, s[i].components));
        }
    }
}

} // verus!
