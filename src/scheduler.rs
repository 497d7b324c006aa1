//! Writing back the results of a batch of independent per-entity updates.
//!
//! Each update works on its own copy of one entity and hands back the index
//! of that entity with its new value. Updates may complete in any order, and
//! some may fail and hand back nothing; [`merge_completed`] writes what did
//! complete back into the authoritative collection by index.
use vstd::prelude::*;

verus! {

/// `base` once every completed update of `done` has been written, in turn, to
/// the index that it carries. An update whose index is out of range is dropped.
pub open spec fn merged<T>(base: Seq<T>, done: Seq<(usize, T)>) -> Seq<T>
    decreases done.len(),
{
    if done.len() == 0 {
        base
    } else {
        let prev = merged(base, done.drop_last());
        let (i, e) = done.last();
        if (i as int) < prev.len() {
            prev.update(i as int, e)
        } else {
            prev
        }
    }
}

/// Writing back never changes the number of entities.
pub proof fn lemma_merged_len<T>(base: Seq<T>, done: Seq<(usize, T)>)
    ensures
        merged(base, done).len() == base.len(),
    decreases done.len(),
{
    if done.len() > 0 {
        lemma_merged_len(base, done.drop_last());
    }
}

/// Whether some update of `done` carries index `i`.
pub open spec fn completes<T>(done: Seq<(usize, T)>, i: int) -> bool {
    exists|j: int| 0 <= j < done.len() && done[j].0 as int == i
}

/// Writes each completed update, in the order given, to its index in
/// `entities`. Entities that no update names keep their value.
pub fn merge_completed<T: Copy>(entities: &mut Vec<T>, completed: &Vec<(usize, T)>)
    ensures
        final(entities)@ == merged(old(entities)@, completed@),
{
    let mut j: usize = 0;
    while j < completed.len()
        invariant
            j <= completed.len(),
            entities@ == merged(old(entities)@, completed@.take(j as int)),
        decreases completed.len() - j,
    {
        let (i, e) = completed[j];
        assert(completed@.take(j + 1).drop_last() == completed@.take(j as int));
        if i < entities.len() {
            entities.set(i, e);
        }
        j = j + 1;
    }
    assert(completed@.take(completed.len() as int) == completed@);
}

/// Writing back a batch keeps the collection's length and order, whatever
/// order the updates completed in.
///
/// When each update carries a distinct index in range and the value that `f`
/// gives for the entity at that index, entity `i` afterwards is `f` of entity
/// `i` if its update completed, and is unchanged if it did not. When every
/// update completed, the result is `f` applied to each entity in place.
pub proof fn lemma_merge_keeps_order<T>(base: Seq<T>, done: Seq<(usize, T)>, f: spec_fn(T) -> T)
    requires
        forall|j: int|
            0 <= j < done.len() ==> (done[j].0 as int) < base.len() && done[j].1 == f(base[done[j].0 as int]),
        forall|j: int, k: int| 0 <= j < k < done.len() ==> done[j].0 != done[k].0,
    ensures
        merged(base, done).len() == base.len(),
        forall|i: int|
            0 <= i < base.len() ==> merged(base, done)[i] == (if completes(done, i) {
                f(base[i])
            } else {
                base[i]
            }),
        (forall|i: int| 0 <= i < base.len() ==> completes(done, i)) ==> merged(base, done)
            == base.map_values(f),
    decreases done.len(),
{
    if done.len() > 0 {
        let d = done.drop_last();
        lemma_merge_keeps_order(base, d, f);
        let last = done.len() - 1;
        let i0 = done[last].0 as int;
        assert forall|i: int| 0 <= i < base.len() implies merged(base, done)[i] == (if completes(
            done,
            i,
        ) {
            f(base[i])
        } else {
            base[i]
        }) by {
            if i == i0 {
                assert(done[last].0 as int == i);
            } else {
                if completes(d, i) {
                    let j = choose|j: int| 0 <= j < d.len() && d[j].0 as int == i;
                    assert(done[j].0 as int == i);
                }
                if completes(done, i) {
                    let j = choose|j: int| 0 <= j < done.len() && done[j].0 as int == i;
                    assert(j != last);
                    assert(d[j].0 as int == i);
                }
            }
        }
    }
    if forall|i: int| 0 <= i < base.len() ==> completes(done, i) {
        assert forall|i: int| 0 <= i < base.len() implies merged(base, done)[i] == base.map_values(f)[i] by {
            assert(completes(done, i));
        }
        assert(merged(base, done) =~= base.map_values(f));
    }
}

} // verus!
