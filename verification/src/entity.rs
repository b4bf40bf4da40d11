use vstd::prelude::*;

verus! {

/// An opaque identifier for one simulated object: a dense slot index paired
/// with a generation counter, so that a freed and reissued slot never
/// reproduces an identifier that was handed out earlier.
#[derive(Clone, Copy, PartialEq, Eq, Structural, Debug)]
pub struct Entity {
    pub index: usize,
    pub generation: u64,
}

/// One slot of the allocator table. `generation` is the generation of the
/// handle most recently issued for this slot; freeing the slot bumps it, so
/// earlier handles can never come back.
struct Slot {
    generation: u64,
    alive: bool,
}

/// A generational slot allocator: `create` issues identifiers that are unique
/// for the whole run, in O(1); `destroy` frees a slot for reuse while making
/// every handle previously issued for it permanently invalid.
pub struct EntityAllocator {
    slots: Vec<Slot>,
    free: Vec<usize>,
}

impl EntityAllocator {
    /// True of every identifier this allocator has ever returned from `create`.
    pub closed spec fn issued(self, e: Entity) -> bool {
        &&& e.index < self.slots@.len()
        &&& {
            let s = self.slots@[e.index as int];
            e.generation < s.generation || (s.alive && e.generation == s.generation)
        }
    }

    /// True of an identifier that has been created and not yet destroyed.
    pub closed spec fn live(self, e: Entity) -> bool {
        &&& e.index < self.slots@.len()
        &&& self.slots@[e.index as int].alive
        &&& e.generation == self.slots@[e.index as int].generation
    }

    /// Internal consistency of the slot table and the free list.
    pub closed spec fn wf(self) -> bool {
        &&& forall|k: int| 0 <= k < self.free@.len() ==> {
            let i = #[trigger] self.free@[k];
            &&& i < self.slots@.len()
            &&& !self.slots@[i as int].alive
            &&& self.slots@[i as int].generation < u64::MAX
        }
        &&& forall|i: int| 0 <= i < self.slots@.len()
            && !self.slots@[i].alive && #[trigger] self.slots@[i].generation < u64::MAX
            ==> self.free@.contains(i as usize)
        &&& forall|k1: int, k2: int| 0 <= k1 < k2 < self.free@.len()
            ==> self.free@[k1] != self.free@[k2]
        &&& forall|i: int| 0 <= i < self.slots@.len() && #[trigger] self.slots@[i].alive
            ==> self.slots@[i].generation < u64::MAX
    }

    pub fn new() -> (a: Self)
        ensures
            a.wf(),
            forall|e: Entity| !a.issued(e),
            forall|e: Entity| !a.live(e),
    {
        EntityAllocator { slots: Vec::new(), free: Vec::new() }
    }

    /// Issues a fresh identifier: one that this allocator has never returned
    /// before, now live. Every identifier issued earlier stays issued, and no
    /// other identifier changes between live and dead.
    pub fn create(&mut self) -> (e: Entity)
        requires
            old(self).wf(),
        ensures
            final(self).wf(),
            create_step(*old(self), *final(self), e),
            final(self).live(e),
            forall|x: Entity| x != e ==> final(self).live(x) == old(self).live(x),
    {
        let ghost pre = *self;
        match self.free.pop() {
            Some(i) => {
                proof {
                    assert(pre.free@[pre.free@.len() - 1] == i);
                }
                let generation = self.slots[i].generation;
                self.slots[i] = Slot { generation, alive: true };
                let e = Entity { index: i, generation };
                proof {
                    lemma_create_reuse(pre, *self, e);
                }
                e
            }
            None => {
                let index = self.slots.len();
                self.slots.push(Slot { generation: 0, alive: true });
                let e = Entity { index, generation: 0 };
                proof {
                    lemma_create_fresh(pre, *self, e);
                }
                e
            }
        }
    }

    /// Frees a live identifier's slot, bumping its generation so the handle can
    /// never be looked up again; on a dead or unknown handle it does nothing.
    /// The set of issued identifiers is unchanged either way.
    pub fn destroy(&mut self, e: Entity) -> (freed: bool)
        requires
            old(self).wf(),
        ensures
            final(self).wf(),
            freed == old(self).live(e),
            forall|x: Entity| final(self).issued(x) == old(self).issued(x),
            !final(self).live(e),
            forall|x: Entity| x.index != e.index ==> final(self).live(x) == old(self).live(x),
    {
        if e.index < self.slots.len() {
            let alive = self.slots[e.index].alive;
            let generation = self.slots[e.index].generation;
            if alive && generation == e.generation {
                let ghost pre = *self;
                let next_generation = generation + 1;
                self.slots[e.index] = Slot { generation: next_generation, alive: false };
                if next_generation < u64::MAX {
                    self.free.push(e.index);
                    proof {
                        lemma_destroy_freed(pre, *self, e, next_generation);
                    }
                } else {
                    proof {
                        lemma_destroy_retired(pre, *self, e, next_generation);
                    }
                }
                return true;
            }
        }
        false
    }
}

proof fn lemma_create_reuse(pre: EntityAllocator, post: EntityAllocator, e: Entity)
    requires
        pre.wf(),
        pre.free@.len() > 0,
        e.index == pre.free@[pre.free@.len() - 1],
        e.generation == pre.slots@[e.index as int].generation,
        post.slots@ == pre.slots@.update(
            e.index as int,
            (Slot { generation: e.generation, alive: true }),
        ),
        post.free@ == pre.free@.drop_last(),
    ensures
        post.wf(),
        create_step(pre, post, e),
        post.live(e),
        forall|x: Entity| x != e ==> post.live(x) == pre.live(x),
{
    let i = e.index as int;
    assert(e.index < pre.slots@.len() && !pre.slots@[i].alive
        && pre.slots@[i].generation < u64::MAX);
    assert forall|k: int| 0 <= k < post.free@.len() implies {
        let fi = #[trigger] post.free@[k];
        &&& fi < post.slots@.len()
        &&& !post.slots@[fi as int].alive
        &&& post.slots@[fi as int].generation < u64::MAX
    } by {
        assert(post.free@[k] == pre.free@[k]);
        assert(pre.free@[k] != pre.free@[pre.free@.len() - 1]);
    }
    assert forall|j: int|
        0 <= j < post.slots@.len() && !post.slots@[j].alive
            && #[trigger] post.slots@[j].generation < u64::MAX
        implies post.free@.contains(j as usize) by {
        assert(pre.slots.len() == pre.slots@.len());
        assert(j != i);
        assert(pre.slots@[j] == post.slots@[j]);
        assert(pre.free@.contains(j as usize));
        let k = choose|k: int| 0 <= k < pre.free@.len() && pre.free@[k] == j as usize;
        if k == pre.free@.len() - 1 {
            assert(j as usize == e.index);
            assert(j == e.index as int);
            assert(false);
        }
        assert(post.free@[k] == j as usize);
    }
    assert forall|x: Entity| pre.issued(x) implies post.issued(x) by {
        if x.index == e.index {
            assert(x.generation < pre.slots@[i].generation);
        }
    }
}

proof fn lemma_create_fresh(pre: EntityAllocator, post: EntityAllocator, e: Entity)
    requires
        pre.wf(),
        e.index == pre.slots@.len(),
        e.generation == 0,
        post.slots@ == pre.slots@.push((Slot { generation: 0, alive: true })),
        post.free@ == pre.free@,
    ensures
        post.wf(),
        create_step(pre, post, e),
        post.live(e),
        forall|x: Entity| x != e ==> post.live(x) == pre.live(x),
{
    assert forall|j: int|
        0 <= j < post.slots@.len() && !post.slots@[j].alive
            && #[trigger] post.slots@[j].generation < u64::MAX
        implies post.free@.contains(j as usize) by {
        assert(j < pre.slots@.len());
        assert(pre.slots@[j] == post.slots@[j]);
    }
    assert forall|x: Entity| x != e implies post.live(x) == pre.live(x) by {
        if x.index == e.index {
            assert(!pre.live(x));
            assert(post.live(x) ==> x.generation == 0);
        }
    }
}

proof fn lemma_destroy_freed(pre: EntityAllocator, post: EntityAllocator, e: Entity, g2: u64)
    requires
        pre.wf(),
        pre.live(e),
        g2 == pre.slots@[e.index as int].generation + 1,
        g2 < u64::MAX,
        post.slots@ == pre.slots@.update(
            e.index as int,
            (Slot { generation: g2, alive: false }),
        ),
        post.free@ == pre.free@.push(e.index),
    ensures
        post.wf(),
        forall|x: Entity| post.issued(x) == pre.issued(x),
        !post.live(e),
        forall|x: Entity| x.index != e.index ==> post.live(x) == pre.live(x),
{
    let i = e.index as int;
    assert forall|k: int| 0 <= k < pre.free@.len() implies #[trigger] pre.free@[k] != e.index by {
        assert(!pre.slots@[pre.free@[k] as int].alive);
    }
    assert forall|j: int|
        0 <= j < post.slots@.len() && !post.slots@[j].alive
            && #[trigger] post.slots@[j].generation < u64::MAX
        implies post.free@.contains(j as usize) by {
        if j == i {
            assert(post.free@[post.free@.len() - 1] == j as usize);
        } else {
            assert(pre.free@.contains(j as usize));
            let k = choose|k: int| 0 <= k < pre.free@.len() && pre.free@[k] == j as usize;
            assert(post.free@[k] == j as usize);
        }
    }
    assert forall|x: Entity| post.issued(x) == pre.issued(x) by {
        if x.index == e.index {
            assert(pre.issued(x) == (x.generation <= pre.slots@[i].generation));
            assert(post.issued(x) == (x.generation < g2));
        }
    }
}

proof fn lemma_destroy_retired(pre: EntityAllocator, post: EntityAllocator, e: Entity, g2: u64)
    requires
        pre.wf(),
        pre.live(e),
        g2 == pre.slots@[e.index as int].generation + 1,
        g2 == u64::MAX,
        post.slots@ == pre.slots@.update(
            e.index as int,
            (Slot { generation: g2, alive: false }),
        ),
        post.free@ == pre.free@,
    ensures
        post.wf(),
        forall|x: Entity| post.issued(x) == pre.issued(x),
        !post.live(e),
        forall|x: Entity| x.index != e.index ==> post.live(x) == pre.live(x),
{
    let i = e.index as int;
    assert forall|k: int| 0 <= k < pre.free@.len() implies #[trigger] pre.free@[k] != e.index by {
        assert(!pre.slots@[pre.free@[k] as int].alive);
    }
    assert forall|j: int|
        0 <= j < post.slots@.len() && !post.slots@[j].alive
            && #[trigger] post.slots@[j].generation < u64::MAX
        implies post.free@.contains(j as usize) by {
        assert(j != i);
        assert(pre.free@.contains(j as usize));
    }
    assert forall|x: Entity| post.issued(x) == pre.issued(x) by {
        if x.index == e.index {
            assert(pre.issued(x) == (x.generation <= pre.slots@[i].generation));
            assert(post.issued(x) == (x.generation < g2));
        }
    }
}

/// What one `create` call does, seen at the level of the issued set: the new
/// identifier was never issued before, is issued afterwards, and nothing
/// already issued is forgotten.
pub open spec fn create_step(pre: EntityAllocator, post: EntityAllocator, e: Entity) -> bool {
    &&& !pre.issued(e)
    &&& post.issued(e)
    &&& forall|x: Entity| pre.issued(x) ==> post.issued(x)
}

/// A run of `create` calls: `states` are the allocator states seen before and
/// after each call, `es` the identifiers returned, in order.
pub open spec fn create_chain(states: Seq<EntityAllocator>, es: Seq<Entity>) -> bool {
    &&& states.len() == es.len() + 1
    &&& forall|i: int| 0 <= i < es.len() ==> create_step(states[i], states[i + 1], #[trigger] es[i])
}

/// An identifier returned during a run of `create` calls stays issued in every
/// later state of the run.
pub proof fn lemma_chain_keeps_issued(states: Seq<EntityAllocator>, es: Seq<Entity>, i: int, k: int)
    requires
        create_chain(states, es),
        0 <= i < es.len(),
        i < k <= es.len(),
    ensures
        states[k].issued(es[i]),
    decreases k,
{
    if k == i + 1 {
        assert(create_step(states[i], states[i + 1], es[i]));
    } else {
        lemma_chain_keeps_issued(states, es, i, k - 1);
        assert(create_step(states[k - 1], states[k], es[k - 1]));
    }
}

/// For every sequence of `create` calls, the identifiers returned are pairwise
/// distinct: a later call cannot return something the run already issued.
pub proof fn lemma_created_entities_pairwise_distinct(
    states: Seq<EntityAllocator>,
    es: Seq<Entity>,
    i: int,
    j: int,
)
    requires
        create_chain(states, es),
        0 <= i < j < es.len(),
    ensures
        es[i] != es[j],
{
    lemma_chain_keeps_issued(states, es, i, j);
    assert(create_step(states[j], states[j + 1], es[j]));
}

} // verus!
