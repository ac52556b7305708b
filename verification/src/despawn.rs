//! What a despawn removes: the entities it is aimed at, and everything
//! attached to them, however deep.

use crate::world::{
    ascending, has_none, has_single, is_single, parent_precedes, parents_precede, selected_ids,
    single_index, Entity, Query, WorldView,
};
use crate::world::lemma_selected_ids;
use vstd::prelude::*;

verus! {

/// Whether the last entity of the list goes when the entities in `roots` are
/// despawned with everything attached to them: it is one of the roots, or
/// its parent goes.
pub open spec fn last_goes(entities: Seq<Entity>, roots: Set<u64>) -> bool
    recommends
        entities.len() > 0,
    decreases entities.len(), 0int,
{
    if entities.len() == 0 {
        false
    } else {
        roots.contains(entities.last().id) || (entities.last().parent matches Some(parent)
            && removed_ids(entities.drop_last(), roots).contains(parent))
    }
}

/// The identities of the entities that go when the entities in `roots` are
/// despawned with everything attached to them.
pub open spec fn removed_ids(entities: Seq<Entity>, roots: Set<u64>) -> Set<u64>
    decreases entities.len(), 1int,
{
    if entities.len() == 0 {
        Set::empty()
    } else if last_goes(entities, roots) {
        removed_ids(entities.drop_last(), roots).insert(entities.last().id)
    } else {
        removed_ids(entities.drop_last(), roots)
    }
}

/// The entities that stay, in their old order.
pub open spec fn survivors(entities: Seq<Entity>, roots: Set<u64>) -> Seq<Entity>
    decreases entities.len(),
{
    if entities.len() == 0 {
        Seq::empty()
    } else if last_goes(entities, roots) {
        survivors(entities.drop_last(), roots)
    } else {
        survivors(entities.drop_last(), roots).push(entities.last())
    }
}

/// Only entities of the list go.
pub proof fn lemma_removed_exist(entities: Seq<Entity>, roots: Set<u64>)
    ensures
        forall|id: u64| #[trigger]
            removed_ids(entities, roots).contains(id) ==> exists|i: int|
                0 <= i < entities.len() && entities[i].id == id,
    decreases entities.len(),
{
    if entities.len() > 0 {
        let front = entities.drop_last();
        lemma_removed_exist(front, roots);
        assert forall|id: u64| #[trigger]
            removed_ids(entities, roots).contains(id) implies exists|i: int|
            0 <= i < entities.len() && entities[i].id == id by {
            if removed_ids(front, roots).contains(id) {
                let i = choose|i: int| 0 <= i < front.len() && front[i].id == id;
                assert(entities[i].id == id);
            } else {
                assert(entities[entities.len() - 1].id == id);
            }
        }
    }
}

/// An entity goes exactly if it is one of the roots or its parent goes.
pub proof fn lemma_removed_iff(entities: Seq<Entity>, roots: Set<u64>, i: int)
    requires
        ascending(entities),
        parents_precede(entities),
        0 <= i < entities.len(),
    ensures
        removed_ids(entities, roots).contains(entities[i].id) <==> (roots.contains(entities[i].id)
            || (entities[i].parent matches Some(parent) && removed_ids(entities, roots).contains(
            parent))),
    decreases entities.len(),
{
    let front = entities.drop_last();
    let last = entities.last();
    lemma_removed_exist(front, roots);
    assert(ascending(front));
    assert(parents_precede(front)) by {
        assert forall|k: int| 0 <= k < front.len() implies #[trigger] parent_precedes(
            front,
            k,
        ) by {
            assert(front[k] == entities[k]);
            assert(parent_precedes(entities, k));
            if let Some(p) = entities[k].parent {
                let j = choose|j: int| 0 <= j < k && entities[j].id == p;
                assert(front[j].id == p);
            }
        }
    }
    assert(!removed_ids(front, roots).contains(last.id)) by {
        if removed_ids(front, roots).contains(last.id) {
            let j = choose|j: int| 0 <= j < front.len() && front[j].id == last.id;
            assert(entities[j].id < entities[entities.len() - 1].id);
        }
    }
    let e = entities[i];
    let all = removed_ids(entities, roots);
    let before = removed_ids(front, roots);
    assert(all == if last_goes(entities, roots) {
        before.insert(last.id)
    } else {
        before
    });
    assert(forall|id: u64| id != last.id ==> (all.contains(id) <==> before.contains(id)));
    assert(parent_precedes(entities, i));
    if let Some(p) = e.parent {
        let j = choose|j: int| 0 <= j < i && entities[j].id == p;
        assert(entities[j].id < entities[entities.len() - 1].id);
        assert(all.contains(p) <==> before.contains(p));
    }
    if i == entities.len() - 1 {
        assert(all.contains(last.id) <==> last_goes(entities, roots));
    } else {
        assert(front[i] == e);
        assert(entities[i].id < entities[entities.len() - 1].id);
        lemma_removed_iff(front, roots, i);
    }
}

/// Whether the survivor at `k` is the entity at `i`, which does not go.
pub open spec fn survives_as(entities: Seq<Entity>, roots: Set<u64>, k: int, i: int) -> bool {
    &&& 0 <= i < entities.len()
    &&& 0 <= k < survivors(entities, roots).len()
    &&& entities[i] == survivors(entities, roots)[k]
    &&& !removed_ids(entities, roots).contains(entities[i].id)
}

/// Whether the survivor at `k` is an entity of the list that does not go.
pub open spec fn has_origin(entities: Seq<Entity>, roots: Set<u64>, k: int) -> bool {
    exists|i: int| survives_as(entities, roots, k, i)
}

/// Whether the entity at `i` goes or is among the survivors.
pub open spec fn goes_or_stays(entities: Seq<Entity>, roots: Set<u64>, i: int) -> bool {
    removed_ids(entities, roots).contains(entities[i].id) || exists|k: int|
        survives_as(entities, roots, k, i)
}

/// What stays is what does not go: each survivor is an entity of the list
/// that does not go, each entity that does not go is a survivor, and the
/// survivors still ascend.
pub proof fn lemma_survivors(entities: Seq<Entity>, roots: Set<u64>)
    requires
        ascending(entities),
    ensures
        survivors(entities, roots).len() <= entities.len(),
        ascending(survivors(entities, roots)),
        forall|k: int|
            0 <= k < survivors(entities, roots).len() ==> #[trigger] has_origin(
                entities,
                roots,
                k,
            ),
        forall|i: int| 0 <= i < entities.len() ==> #[trigger] goes_or_stays(entities, roots, i),
    decreases entities.len(),
{
    if entities.len() > 0 {
        let front = entities.drop_last();
        let last = entities.last();
        let n = entities.len() - 1;
        let kept = survivors(entities, roots);
        let kept_front = survivors(front, roots);
        let all = removed_ids(entities, roots);
        let before = removed_ids(front, roots);
        assert(ascending(front));
        lemma_survivors(front, roots);
        lemma_removed_exist(front, roots);
        assert(!before.contains(last.id)) by {
            if before.contains(last.id) {
                let j = choose|j: int| 0 <= j < front.len() && front[j].id == last.id;
                assert(entities[j].id < entities[n].id);
            }
        }
        assert(all == if last_goes(entities, roots) {
            before.insert(last.id)
        } else {
            before
        });
        assert forall|k: int| 0 <= k < kept.len() implies #[trigger] has_origin(
            entities,
            roots,
            k,
        ) by {
            if k < kept_front.len() {
                assert(kept[k] == kept_front[k]);
                assert(has_origin(front, roots, k));
                let i = choose|i: int| survives_as(front, roots, k, i);
                assert(entities[i].id < entities[n].id);
                assert(survives_as(entities, roots, k, i));
            } else {
                assert(survives_as(entities, roots, k, n));
            }
        }
        assert forall|i: int| 0 <= i < entities.len() implies #[trigger] goes_or_stays(
            entities,
            roots,
            i,
        ) by {
            if i < n {
                assert(front[i] == entities[i]);
                assert(entities[i].id < entities[n].id);
                assert(goes_or_stays(front, roots, i));
                if !before.contains(front[i].id) {
                    let k = choose|k: int| survives_as(front, roots, k, i);
                    assert(kept[k] == kept_front[k]);
                    assert(survives_as(entities, roots, k, i));
                }
            } else if !all.contains(entities[i].id) {
                assert(survives_as(entities, roots, kept.len() - 1, i));
            }
        }
        assert forall|a: int, b: int| 0 <= a < b < kept.len() implies kept[a].id < kept[b].id by {
            if b < kept_front.len() {
                assert(kept[a] == kept_front[a] && kept[b] == kept_front[b]);
            } else {
                assert(kept[a] == kept_front[a]);
                assert(has_origin(front, roots, a));
                let i = choose|i: int| survives_as(front, roots, a, i);
                assert(entities[i].id < entities[n].id);
            }
        }
    }
}

/// Among the survivors, every attached entity still has its parent.
pub proof fn lemma_survivors_keep_parents(entities: Seq<Entity>, roots: Set<u64>)
    requires
        ascending(entities),
        parents_precede(entities),
    ensures
        parents_precede(survivors(entities, roots)),
{
    let kept = survivors(entities, roots);
    lemma_survivors(entities, roots);
    assert forall|k: int| 0 <= k < kept.len() implies #[trigger] parent_precedes(kept, k) by {
        if let Some(p) = kept[k].parent {
            assert(has_origin(entities, roots, k));
            let i = choose|i: int| survives_as(entities, roots, k, i);
            assert(parent_precedes(entities, i));
            let j = choose|j: int| 0 <= j < i && entities[j].id == p;
            lemma_removed_iff(entities, roots, i);
            assert(!removed_ids(entities, roots).contains(entities[j].id));
            assert(goes_or_stays(entities, roots, j));
            let m = choose|m: int| survives_as(entities, roots, m, j);
            assert(entities[j].id < entities[i].id);
            if m >= k {
                if m > k {
                    assert(kept[k].id < kept[m].id);
                }
                assert(false);
            }
            assert(kept[m].id == p);
        }
    }
}

/// Every root that exists goes.
pub proof fn lemma_roots_go(entities: Seq<Entity>, roots: Set<u64>, i: int)
    requires
        0 <= i < entities.len(),
        roots.contains(entities[i].id),
    ensures
        removed_ids(entities, roots).contains(entities[i].id),
    decreases entities.len(),
{
    let front = entities.drop_last();
    assert(removed_ids(entities, roots) == if last_goes(entities, roots) {
        removed_ids(front, roots).insert(entities.last().id)
    } else {
        removed_ids(front, roots)
    });
    if i < entities.len() - 1 {
        assert(front[i] == entities[i]);
        lemma_roots_go(front, roots, i);
    } else {
        assert(last_goes(entities, roots));
    }
}

/// Despawning what a query selects, with everything attached to it, leaves
/// no entity that the query selects.
pub proof fn lemma_despawn_selected_leaves_none(entities: Seq<Entity>, query: Query)
    requires
        ascending(entities),
    ensures
        has_none(survivors(entities, selected_ids(entities, query).to_set()), query),
{
    let roots = selected_ids(entities, query).to_set();
    let kept = survivors(entities, roots);
    lemma_survivors(entities, roots);
    lemma_selected_ids(entities, query);
    assert forall|k: int| 0 <= k < kept.len() implies !kept[k].spec_matches(query) by {
        assert(has_origin(entities, roots, k));
        let i = choose|i: int| survives_as(entities, roots, k, i);
        if entities[i].spec_matches(query) {
            assert(selected_ids(entities, query).contains(entities[i].id));
            lemma_roots_go(entities, roots, i);
        }
    }
}

/// A despawn never touches an entity that is neither a root nor attached to
/// anything: it stays as it was.
pub proof fn lemma_unattached_stays(entities: Seq<Entity>, roots: Set<u64>, i: int)
    requires
        ascending(entities),
        parents_precede(entities),
        0 <= i < entities.len(),
        entities[i].parent is None,
        !roots.contains(entities[i].id),
    ensures
        exists|k: int|
            0 <= k < survivors(entities, roots).len() && survivors(entities, roots)[k]
                == entities[i],
{
    lemma_removed_iff(entities, roots, i);
    lemma_survivors(entities, roots);
    assert(!removed_ids(entities, roots).contains(entities[i].id));
    assert(goes_or_stays(entities, roots, i));
    let k = choose|k: int| survives_as(entities, roots, k, i);
    assert(survivors(entities, roots)[k] == entities[i]);
}

/// A despawn adds nothing: what a query did not select before, it does not
/// select after.
pub proof fn lemma_survivors_none(entities: Seq<Entity>, roots: Set<u64>, query: Query)
    requires
        ascending(entities),
        has_none(entities, query),
    ensures
        has_none(survivors(entities, roots), query),
{
    let kept = survivors(entities, roots);
    lemma_survivors(entities, roots);
    assert forall|k: int| 0 <= k < kept.len() implies !kept[k].spec_matches(query) by {
        assert(has_origin(entities, roots, k));
        let i = choose|i: int| survives_as(entities, roots, k, i);
    }
}

/// If a query selects one entity, which is neither a root nor attached to
/// anything, it selects that entity, unchanged, after the despawn too.
pub proof fn lemma_survivors_single(entities: Seq<Entity>, roots: Set<u64>, query: Query)
    requires
        ascending(entities),
        parents_precede(entities),
        has_single(entities, query),
        entities[single_index(entities, query)].parent is None,
        !roots.contains(entities[single_index(entities, query)].id),
    ensures
        has_single(survivors(entities, roots), query),
        survivors(entities, roots)[single_index(survivors(entities, roots), query)]
            == entities[single_index(entities, query)],
{
    let kept = survivors(entities, roots);
    let i = single_index(entities, query);
    lemma_survivors(entities, roots);
    lemma_unattached_stays(entities, roots, i);
    let k = choose|k: int| 0 <= k < kept.len() && kept[k] == entities[i];
    assert forall|m: int| 0 <= m < kept.len() && kept[m].spec_matches(query) implies m == k by {
        assert(has_origin(entities, roots, m));
        let j = choose|j: int| survives_as(entities, roots, m, j);
        assert(entities[j].spec_matches(query));
        assert(j == i);
        if m < k {
            assert(kept[m].id < kept[k].id);
        } else if k < m {
            assert(kept[k].id < kept[m].id);
        }
    }
    assert(is_single(kept, query, k));
    let chosen = single_index(kept, query);
    assert(is_single(kept, query, chosen));
}

/// A despawn keeps the world in order.
pub proof fn lemma_despawn_wf(world: WorldView, roots: Set<u64>)
    requires
        world.wf(),
    ensures
        (WorldView { entities: survivors(world.entities, roots), ..world }).wf(),
{
    let kept = survivors(world.entities, roots);
    lemma_survivors(world.entities, roots);
    lemma_survivors_keep_parents(world.entities, roots);
    assert forall|k: int| 0 <= k < kept.len() implies kept[k].id < world.next_id by {
        assert(has_origin(world.entities, roots, k));
        let j = choose|j: int| survives_as(world.entities, roots, k, j);
    }
}

} // verus!
