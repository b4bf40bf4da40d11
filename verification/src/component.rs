use vstd::prelude::*;

use crate::components::{tag_of, ComponentValue};
use crate::entity::{create_step, Entity, EntityAllocator};

verus! {

/// A value type that may be stored in component maps. Each implementing type
/// owns a distinct `tag`, an injection `erased` into the one type-erased value
/// type, and the checked partial inverse used at every access boundary.
pub trait Component: Sized {
    /// The stable key under which this type's component map is filed.
    spec fn tag() -> u64;

    /// What erasing a value of this type yields.
    spec fn erased(self) -> ComponentValue;

    /// The value a correctly tagged erased value stands for.
    spec fn of_value(v: ComponentValue) -> Self;

    /// Erasing is faithful: the erased value carries this type's tag and
    /// recovers to the value it came from.
    proof fn lemma_round_trip(x: Self)
        ensures
            tag_of(x.erased()) == Self::tag(),
            Self::of_value(x.erased()) == x,
    ;

    fn tag_value() -> (t: u64)
        ensures
            t == Self::tag(),
    ;

    fn erase(self) -> (v: ComponentValue)
        ensures
            v == self.erased(),
    ;

    fn recover(v: &ComponentValue) -> (r: Option<&Self>)
        ensures
            match r {
                Some(x) => tag_of(*v) == Self::tag() && *x == Self::of_value(*v),
                None => tag_of(*v) != Self::tag(),
            },
    ;

    fn recover_mut(v: &mut ComponentValue) -> (r: Option<&mut Self>)
        ensures
            match r {
                Some(x) => tag_of(*old(v)) == Self::tag() && *x == Self::of_value(*old(v))
                    && *final(v) == final(x).erased(),
                None => tag_of(*old(v)) != Self::tag() && *final(v) == *old(v),
            },
    ;
}

/// The mathematical shape of one component map: one slot per entity index,
/// holding the generation the entry was written for together with the value.
pub type MapRep = Seq<Option<(u64, ComponentValue)>>;

pub open spec fn rep_empty() -> MapRep {
    Seq::empty()
}

/// The entry a map holds for an entity: present only when the entity's slot is
/// filled for exactly the entity's generation, so a handle whose slot was freed
/// and rewritten can never retrieve the newer entry, nor the other way round.
pub open spec fn rep_get(m: MapRep, e: Entity) -> Option<ComponentValue> {
    if e.index < m.len() {
        match m[e.index as int] {
            Some(p) => if p.0 == e.generation {
                Some(p.1)
            } else {
                None
            },
            None => None,
        }
    } else {
        None
    }
}

/// The map after writing `v` for `e`: the entity's slot is filled for the
/// entity's generation, every other slot is unchanged.
pub open spec fn rep_insert(m: MapRep, e: Entity, v: ComponentValue) -> MapRep {
    if e.index < m.len() {
        m.update(e.index as int, Some((e.generation, v)))
    } else {
        m + Seq::new((e.index - m.len()) as nat, |i: int| None) + seq![Some((e.generation, v))]
    }
}

/// The typed reading of a map entry: present exactly when the entry exists and
/// carries `T`'s tag, in which case it stands for a `T` value.
pub open spec fn rep_typed<T: Component>(m: MapRep, e: Entity) -> Option<T> {
    match rep_get(m, e) {
        Some(v) => if tag_of(v) == T::tag() {
            Some(T::of_value(v))
        } else {
            None
        },
        None => None,
    }
}

/// What `rep_insert` does to every lookup: the written entity's entry is the
/// new value, entities of other slots are untouched, and any stale entry that
/// shared the written slot under an older generation is gone.
pub proof fn lemma_rep_insert(m: MapRep, e: Entity, v: ComponentValue)
    ensures
        rep_get(rep_insert(m, e, v), e) == Some(v),
        forall|x: Entity| x.index != e.index ==> rep_get(rep_insert(m, e, v), x) == rep_get(m, x),
        forall|x: Entity| x.index == e.index && x != e ==> rep_get(rep_insert(m, e, v), x) is None,
{
}

/// One per-type component map: entity-indexed storage of one component type's
/// erased values.
pub struct EntityMap {
    slots: Vec<Option<(u64, ComponentValue)>>,
}

impl View for EntityMap {
    type V = MapRep;

    closed spec fn view(&self) -> MapRep {
        self.slots@
    }
}

impl EntityMap {
    pub fn new() -> (m: Self)
        ensures
            m@ == rep_empty(),
    {
        EntityMap { slots: Vec::new() }
    }

    pub fn get(&self, e: Entity) -> (r: Option<&ComponentValue>)
        ensures
            match r {
                Some(v) => rep_get(self@, e) == Some(*v),
                None => rep_get(self@, e) is None,
            },
    {
        if e.index < self.slots.len() {
            match &self.slots[e.index] {
                Some(p) => if p.0 == e.generation {
                    Some(&p.1)
                } else {
                    None
                },
                None => None,
            }
        } else {
            None
        }
    }

    pub fn insert(&mut self, e: Entity, v: ComponentValue)
        ensures
            final(self)@ == rep_insert(old(self)@, e, v),
    {
        let ghost pre = self.slots@;
        while self.slots.len() <= e.index
            invariant
                pre.len() <= self.slots@.len(),
                self.slots@.len() <= e.index + 1 || self.slots@.len() == pre.len(),
                forall|k: int| 0 <= k < pre.len() ==> self.slots@[k] == pre[k],
                forall|k: int| pre.len() <= k < self.slots@.len() ==> self.slots@[k] is None,
            decreases e.index + 1 - self.slots@.len(),
        {
            self.slots.push(None);
        }
        self.slots[e.index] = Some((e.generation, v));
        proof {
            let m2 = rep_insert(pre, e, v);
            assert(self.slots@.len() == m2.len());
            assert forall|k: int| 0 <= k < self.slots@.len() implies self.slots@[k] == m2[k] by {
                if e.index < pre.len() {
                    assert(m2 == pre.update(e.index as int, Some((e.generation, v))));
                } else {
                    if k < pre.len() {
                        assert(m2[k] == pre[k]);
                    } else if k < e.index {
                        assert(m2[k] == None::<(u64, ComponentValue)>);
                    } else {
                        assert(m2[k] == Some((e.generation, v)));
                    }
                }
            }
            assert(self.slots@ =~= m2);
        }
    }

    pub fn get_mut(&mut self, e: Entity) -> (r: Option<&mut ComponentValue>)
        ensures
            match r {
                Some(p) => rep_get(old(self)@, e) == Some(*p) && final(self)@ == rep_insert(
                    old(self)@,
                    e,
                    *final(p),
                ),
                None => rep_get(old(self)@, e) is None && final(self)@ == old(self)@,
            },
    {
        if e.index >= self.slots.len() {
            return None;
        }
        match &mut self.slots[e.index] {
            Some(p) => if p.0 == e.generation {
                Some(&mut p.1)
            } else {
                None
            },
            None => None,
        }
    }

    /// The typed entry for `e`, recovered through the checked match.
    pub fn get_of<T: Component>(&self, e: Entity) -> (r: Option<&T>)
        ensures
            match r {
                Some(x) => rep_typed::<T>(self@, e) == Some(*x),
                None => rep_typed::<T>(self@, e) is None,
            },
    {
        match self.get(e) {
            Some(v) => T::recover(v),
            None => None,
        }
    }

    /// Writes a typed component for `e`; its entry then reads back as `c`.
    pub fn insert_of<T: Component>(&mut self, e: Entity, c: T)
        ensures
            final(self)@ == rep_insert(old(self)@, e, c.erased()),
            tag_of(c.erased()) == T::tag(),
            T::of_value(c.erased()) == c,
    {
        proof {
            T::lemma_round_trip(c);
        }
        let v = c.erase();
        self.insert(e, v);
    }

    /// Exclusive access to the typed entry for `e`.
    pub fn get_mut_of<T: Component>(&mut self, e: Entity) -> (r: Option<&mut T>)
        ensures
            match r {
                Some(x) => rep_typed::<T>(old(self)@, e) == Some(*x) && final(self)@ == rep_insert(
                    old(self)@,
                    e,
                    final(x).erased(),
                ),
                None => rep_typed::<T>(old(self)@, e) is None && final(self)@ == old(self)@,
            },
    {
        match self.get_mut(e) {
            Some(v) => T::recover_mut(v),
            None => None,
        }
    }

    /// Every (entity, value) pair the map holds, one pair per filled slot.
    pub fn entries(&self) -> (r: Vec<(Entity, ComponentValue)>)
        ensures
            forall|i: int| 0 <= i < r@.len() ==> rep_get(self@, (#[trigger] r@[i]).0) == Some(
                r@[i].1,
            ),
            forall|e: Entity| rep_get(self@, e) is Some ==> exists|i: int|
                0 <= i < r@.len() && (#[trigger] r@[i]).0 == e,
            forall|i: int, j: int| 0 <= i < j < r@.len() ==> r@[i].0 != r@[j].0,
    {
        let mut r: Vec<(Entity, ComponentValue)> = Vec::new();
        let mut idx: usize = 0;
        while idx < self.slots.len()
            invariant
                idx <= self.slots@.len(),
                forall|i: int| 0 <= i < r@.len() ==> rep_get(self@, (#[trigger] r@[i]).0) == Some(
                    r@[i].1,
                ),
                forall|i: int| 0 <= i < r@.len() ==> (#[trigger] r@[i]).0.index < idx,
                forall|e: Entity| e.index < idx && rep_get(self@, e) is Some ==> exists|i: int|
                    0 <= i < r@.len() && (#[trigger] r@[i]).0 == e,
                forall|i: int, j: int| 0 <= i < j < r@.len() ==> r@[i].0 != r@[j].0,
            decreases self.slots@.len() - idx,
        {
            match &self.slots[idx] {
                Some(p) => {
                    let e = Entity { index: idx, generation: p.0 };
                    let ghost r_pre = r@;
                    r.push((e, p.1));
                    proof {
                        assert forall|x: Entity| x.index < idx + 1 && rep_get(self@, x) is Some
                            implies exists|i: int|
                            0 <= i < r@.len() && (#[trigger] r@[i]).0 == x by {
                            if x.index == idx {
                                assert((r@[r@.len() - 1]).0 == x);
                            } else {
                                let i = choose|i: int|
                                    0 <= i < r_pre.len() && (#[trigger] r_pre[i]).0 == x;
                                assert((r@[i]).0 == x);
                            }
                        }
                    }
                }
                None => {
                    proof {
                        assert forall|x: Entity| x.index < idx + 1 && rep_get(self@, x) is Some
                            implies exists|i: int|
                            0 <= i < r@.len() && (#[trigger] r@[i]).0 == x by {
                            assert(x.index != idx);
                        }
                    }
                }
            }
            idx = idx + 1;
        }
        r
    }
}

/// The per-type component stores together with the entity allocator: a mapping
/// from component-type tag to that type's map, created on registration and
/// recovered by tag on access.
pub struct ComponentStorage {
    pub allocator: EntityAllocator,
    components: Vec<(u64, EntityMap)>,
}

impl ComponentStorage {
    pub closed spec fn comps(self) -> Seq<(u64, EntityMap)> {
        self.components@
    }

    pub closed spec fn alloc_state(self) -> EntityAllocator {
        self.allocator
    }

    /// Whether a component map exists for tag `t`.
    pub open spec fn registered(self, t: u64) -> bool {
        exists|i: int| 0 <= i < self.comps().len() && (#[trigger] self.comps()[i]).0 == t
    }

    pub open spec fn comp_index(self, t: u64) -> int {
        choose|i: int| 0 <= i < self.comps().len() && (#[trigger] self.comps()[i]).0 == t
    }

    /// The component map filed under tag `t`; meaningful when registered.
    pub open spec fn map_of(self, t: u64) -> EntityMap {
        self.comps()[self.comp_index(t)].1
    }

    /// Each tag is filed at most once, and the allocator is consistent.
    pub open spec fn wf(self) -> bool {
        &&& self.alloc_state().wf()
        &&& forall|i: int, j: int| 0 <= i < j < self.comps().len()
            ==> (#[trigger] self.comps()[i]).0 != (#[trigger] self.comps()[j]).0
    }

    pub fn new() -> (s: Self)
        ensures
            s.wf(),
            forall|t: u64| !s.registered(t),
            forall|e: Entity| !s.alloc_state().issued(e),
            forall|e: Entity| !s.alloc_state().live(e),
    {
        ComponentStorage { allocator: EntityAllocator::new(), components: Vec::new() }
    }

    /// Issues a fresh entity; no component map changes.
    pub fn create(&mut self) -> (e: Entity)
        requires
            old(self).wf(),
        ensures
            final(self).wf(),
            final(self).comps() == old(self).comps(),
            create_step(old(self).alloc_state(), final(self).alloc_state(), e),
            final(self).alloc_state().live(e),
            forall|x: Entity| x != e ==> final(self).alloc_state().live(x) == old(self).alloc_state().live(x),
    {
        let e = self.allocator.create();
        proof {
            assert(self.alloc_state().wf());
            assert(self.comps() == old(self).comps());
            assert forall|i: int, j: int| 0 <= i < j < self.comps().len() implies (
            #[trigger] self.comps()[i]).0 != (#[trigger] self.comps()[j]).0 by {
                assert(old(self).comps()[i].0 != old(self).comps()[j].0);
            }
        }
        e
    }

    fn position_of(&self, t: u64) -> (r: Option<usize>)
        requires
            self.wf(),
        ensures
            match r {
                Some(i) => i < self.comps().len() && self.comps()[i as int].0 == t
                    && self.comp_index(t) == i && self.registered(t),
                None => !self.registered(t),
            },
    {
        let mut i: usize = 0;
        while i < self.components.len()
            invariant
                self.wf(),
                i <= self.comps().len(),
                forall|k: int| 0 <= k < i ==> (#[trigger] self.comps()[k]).0 != t,
            decreases self.comps().len() - i,
        {
            if self.components[i].0 == t {
                proof {
                    lemma_unique_index(*self, t, i as int);
                }
                return Some(i);
            }
            i = i + 1;
        }
        None
    }

    /// Creates an empty component map for `T`, replacing any map already filed
    /// under `T`'s tag.
    pub fn register<T: Component>(&mut self)
        requires
            old(self).wf(),
        ensures
            final(self).wf(),
            register_step::<T>(*old(self), *final(self)),
    {
        let t = T::tag_value();
        let m = EntityMap::new();
        match self.position_of(t) {
            Some(i) => {
                self.components[i] = (t, m);
                proof {
                    lemma_map_replaced(*old(self), *self, t, m);
                }
            }
            None => {
                self.components.push((t, m));
                proof {
                    let pre = *old(self);
                    let post = *final(self);
                    let n = pre.comps().len() as int;
                    assert forall|u: u64| #[trigger] post.registered(u) implies u == t
                        || pre.registered(u) by {
                        let i = choose|i: int|
                            0 <= i < post.comps().len() && (#[trigger] post.comps()[i]).0 == u;
                        if i < n {
                            assert(pre.comps()[i].0 == u);
                        }
                    }
                    assert(post.comps()[n].0 == t);
                    lemma_unique_index(post, t, n);
                    assert forall|u: u64| u != t && #[trigger] pre.registered(u) implies
                        post.registered(u) && post.map_of(u) == pre.map_of(u) by {
                        lemma_comp_index(pre, u);
                        let i = pre.comp_index(u);
                        assert(post.comps()[i].0 == u);
                        lemma_unique_index(post, u, i);
                    }
                }
            }
        }
    }

    /// Creates an empty component map for `T` only where none exists yet;
    /// an already-registered map is left exactly as it is.
    pub fn try_register<T: Component>(&mut self)
        requires
            old(self).wf(),
        ensures
            final(self).wf(),
            try_register_step::<T>(*old(self), *final(self)),
    {
        let t = T::tag_value();
        match self.position_of(t) {
            Some(_) => {}
            None => {
                self.register::<T>();
            }
        }
    }

    /// The component map for `T`, or absent where `T` was never registered.
    pub fn get<T: Component>(&self) -> (r: Option<&EntityMap>)
        requires
            self.wf(),
        ensures
            match r {
                Some(m) => self.registered(T::tag()) && *m == self.map_of(T::tag()),
                None => !self.registered(T::tag()),
            },
    {
        let t = T::tag_value();
        match self.position_of(t) {
            Some(i) => Some(&self.components[i].1),
            None => None,
        }
    }

    /// Writes one typed component for `e` into `T`'s map, which must be
    /// registered; registration, every other map and the allocator are
    /// untouched.
    pub fn insert_component<T: Component>(&mut self, e: Entity, c: T)
        requires
            old(self).wf(),
            old(self).registered(T::tag()),
        ensures
            final(self).wf(),
            final(self).alloc_state() == old(self).alloc_state(),
            forall|u: u64| final(self).registered(u) == old(self).registered(u),
            final(self).map_of(T::tag())@ == rep_insert(old(self).map_of(T::tag())@, e, c.erased()),
            tag_of(c.erased()) == T::tag(),
            T::of_value(c.erased()) == c,
            forall|u: u64| u != T::tag() && old(self).registered(u)
                ==> final(self).map_of(u) == old(self).map_of(u),
    {
        let ghost pre = *self;
        match self.get_mut::<T>() {
            Some(m) => {
                m.insert_of(e, c);
                proof {
                    lemma_map_replaced(pre, *self, T::tag(), self.comps()[pre.comp_index(T::tag())].1);
                }
            }
            None => {
                proof {
                    assert(false);
                }
            }
        }
    }

    /// Exclusive access to the component map for `T`, or absent where `T` was
    /// never registered. Only `T`'s row changes through the reference;
    /// `lemma_map_replaced` turns the row update into per-tag facts.
    pub fn get_mut<T: Component>(&mut self) -> (r: Option<&mut EntityMap>)
        requires
            old(self).wf(),
        ensures
            match r {
                Some(m) => {
                    &&& old(self).registered(T::tag())
                    &&& *m == old(self).map_of(T::tag())
                    &&& final(self).alloc_state() == old(self).alloc_state()
                    &&& final(self).comps() == old(self).comps().update(
                        old(self).comp_index(T::tag()),
                        ((T::tag(), *final(m))),
                    )
                },
                None => !old(self).registered(T::tag()) && *final(self) == *old(self),
            },
    {
        let t = T::tag_value();
        match self.position_of(t) {
            Some(i) => {
                let entry = &mut self.components[i];
                let m = &mut entry.1;
                Some(m)
            }
            None => None,
        }
    }
}

/// Replacing the one row that carries tag `t` (tag kept) leaves every
/// registration in place and every other tag's map as it was.
pub proof fn lemma_map_replaced(pre: ComponentStorage, post: ComponentStorage, t: u64, m2: EntityMap)
    requires
        pre.wf(),
        pre.registered(t),
        post.alloc_state() == pre.alloc_state(),
        post.comps() == pre.comps().update(pre.comp_index(t), ((t, m2))),
    ensures
        post.wf(),
        forall|u: u64| post.registered(u) == pre.registered(u),
        post.map_of(t) == m2,
        forall|u: u64| u != t && pre.registered(u) ==> post.map_of(u) == pre.map_of(u),
{
    lemma_comp_index(pre, t);
    let i = pre.comp_index(t);
    lemma_same_tags(pre, post);
    assert(post.wf());
    lemma_unique_index(post, t, i);
    assert forall|u: u64| u != t && #[trigger] pre.registered(u) implies post.map_of(u)
        == pre.map_of(u) by {
        lemma_comp_index(pre, u);
        let k = pre.comp_index(u);
        assert(post.comps()[k].0 == u);
        lemma_unique_index(post, u, k);
        assert(k != i);
    }
}

/// Tags are unique, so any position holding tag `t` is the position `map_of`
/// reads from.
proof fn lemma_unique_index(s: ComponentStorage, t: u64, i: int)
    requires
        s.wf(),
        0 <= i < s.comps().len(),
        s.comps()[i].0 == t,
    ensures
        s.registered(t),
        s.comp_index(t) == i,
        s.map_of(t) == s.comps()[i].1,
{
    assert(s.registered(t));
    let k = s.comp_index(t);
    if k != i {
        if k < i {
            assert(s.comps()[k].0 != s.comps()[i].0);
        } else {
            assert(s.comps()[i].0 != s.comps()[k].0);
        }
    }
}

proof fn lemma_comp_index(s: ComponentStorage, t: u64)
    requires
        s.wf(),
        s.registered(t),
    ensures
        0 <= s.comp_index(t) < s.comps().len(),
        s.comps()[s.comp_index(t)].0 == t,
{
}

/// Two storages whose tag rows agree pointwise register the same tags and file
/// each registered tag at the same position.
proof fn lemma_same_tags(a: ComponentStorage, b: ComponentStorage)
    requires
        a.wf(),
        a.comps().len() == b.comps().len(),
        forall|i: int| 0 <= i < a.comps().len() ==> (#[trigger] a.comps()[i]).0 == (
        #[trigger] b.comps()[i]).0,
    ensures
        forall|t: u64| a.registered(t) == b.registered(t),
        forall|t: u64| #[trigger] a.registered(t) ==> b.comp_index(t) == a.comp_index(t),
{
    assert forall|t: u64| a.registered(t) == b.registered(t) by {
        if a.registered(t) {
            let i = choose|i: int| 0 <= i < a.comps().len() && (#[trigger] a.comps()[i]).0 == t;
            assert(b.comps()[i].0 == t);
        }
        if b.registered(t) {
            let i = choose|i: int| 0 <= i < b.comps().len() && (#[trigger] b.comps()[i]).0 == t;
            assert(a.comps()[i].0 == t);
        }
    }
    assert forall|t: u64| #[trigger] a.registered(t) implies b.comp_index(t) == a.comp_index(
        t,
    ) by {
        lemma_comp_index(a, t);
        let i = a.comp_index(t);
        assert(b.comps()[i].0 == t);
        let k = b.comp_index(t);
        assert(b.comps()[k].0 == t);
        assert(a.comps()[k].0 == t);
        if k != i {
            if k < i {
                assert(a.comps()[k].0 != a.comps()[i].0);
            } else {
                assert(a.comps()[i].0 != a.comps()[k].0);
            }
        }
    }
}

/// What registering `T` does: `T`'s tag now carries a fresh empty map, every
/// other registration and its map are untouched, and the allocator is
/// untouched.
pub open spec fn register_step<T: Component>(pre: ComponentStorage, post: ComponentStorage) -> bool {
    &&& post.alloc_state() == pre.alloc_state()
    &&& forall|u: u64| post.registered(u) == (pre.registered(u) || u == T::tag())
    &&& post.map_of(T::tag())@ == rep_empty()
    &&& forall|u: u64| u != T::tag() && pre.registered(u) ==> post.map_of(u) == pre.map_of(u)
}

/// What `try_register::<T>` does: nothing at all where `T` is registered,
/// otherwise exactly what `register::<T>` does.
pub open spec fn try_register_step<T: Component>(
    pre: ComponentStorage,
    post: ComponentStorage,
) -> bool {
    if pre.registered(T::tag()) {
        post == pre
    } else {
        register_step::<T>(pre, post)
    }
}

/// Registering a type twice through `try_register` never discards entries:
/// whatever `T`'s map holds before the second call it still holds after it.
pub proof fn lemma_try_register_keeps_entries<T: Component>(
    pre: ComponentStorage,
    post: ComponentStorage,
    e: Entity,
)
    requires
        try_register_step::<T>(pre, post),
        pre.registered(T::tag()),
        rep_get(pre.map_of(T::tag())@, e) is Some,
    ensures
        rep_get(post.map_of(T::tag())@, e) == rep_get(pre.map_of(T::tag())@, e),
{
}

} // verus!
