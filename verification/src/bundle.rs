use vstd::prelude::*;

use crate::component::{
    rep_empty, rep_insert, try_register_step, Component, ComponentStorage, MapRep,
};
use crate::components::{tag_of, ComponentValue};
use crate::entity::{create_step, Entity};

verus! {

/// The registry of bundle types that have been registered: a bundle may be
/// instantiated only after its key was recorded here.
pub struct Bundles {
    ids: Vec<u64>,
}

impl Bundles {
    pub closed spec fn id_seq(self) -> Seq<u64> {
        self.ids@
    }

    /// Whether the bundle key `t` was ever recorded.
    pub open spec fn has(self, t: u64) -> bool {
        self.id_seq().contains(t)
    }

    pub fn new() -> (b: Self)
        ensures
            forall|t: u64| !b.has(t),
    {
        Bundles { ids: Vec::new() }
    }

    /// Records a bundle key; everything recorded before stays recorded.
    pub fn insert(&mut self, t: u64)
        ensures
            forall|u: u64| final(self).has(u) == (old(self).has(u) || u == t),
    {
        let ghost pre = self.ids@;
        self.ids.push(t);
        proof {
            assert forall|u: u64| final(self).has(u) == (pre.contains(u) || u == t) by {
                if pre.contains(u) {
                    let i = choose|i: int| 0 <= i < pre.len() && pre[i] == u;
                    assert(self.ids@[i] == u);
                }
                if u == t {
                    assert(self.ids@[pre.len() as int] == u);
                }
                if self.ids@.contains(u) {
                    let i = choose|i: int| 0 <= i < self.ids@.len() && self.ids@[i] == u;
                    if i < pre.len() {
                        assert(pre[i] == u);
                    }
                }
            }
        }
    }

    pub fn contains(&self, t: u64) -> (r: bool)
        ensures
            r == self.has(t),
    {
        let mut i: usize = 0;
        while i < self.ids.len()
            invariant
                i <= self.ids@.len(),
                forall|k: int| 0 <= k < i ==> self.ids@[k] != t,
            decreases self.ids@.len() - i,
        {
            if self.ids[i] == t {
                assert(self.ids@[i as int] == t);
                return true;
            }
            i = i + 1;
        }
        false
    }
}

/// The bundle key derived from two tags; used to give each tuple bundle type
/// a key of its own in the bundle registry.
pub open spec fn combine_tags(a: u64, b: u64) -> u64 {
    (((1009 * a + b) % 0x10000000000000000) as u64)
}

pub fn combine_tags_value(a: u64, b: u64) -> (r: u64)
    ensures
        r == combine_tags(a, b),
{
    let wide: u128 = 1009u128 * (a as u128) + (b as u128);
    (wide % 0x10000000000000000u128) as u64
}

/// The map for tag `t` after the erased components `parts` are written for
/// `e` in order: each part lands in the map of its own tag, a later part for
/// the same tag overwriting an earlier one.
pub open spec fn rep_insert_parts(m: MapRep, e: Entity, parts: Seq<ComponentValue>, t: u64) -> MapRep
    decreases parts.len(),
{
    if parts.len() == 0 {
        m
    } else {
        let prev = rep_insert_parts(m, e, parts.drop_last(), t);
        if tag_of(parts.last()) == t {
            rep_insert(prev, e, parts.last())
        } else {
            prev
        }
    }
}

pub proof fn lemma_parts_empty(m: MapRep, e: Entity, t: u64)
    ensures
        rep_insert_parts(m, e, Seq::empty(), t) == m,
{
}

pub proof fn lemma_parts_push(m: MapRep, e: Entity, parts: Seq<ComponentValue>, v: ComponentValue, t: u64)
    ensures
        rep_insert_parts(m, e, parts.push(v), t) == (if tag_of(v) == t {
            rep_insert(rep_insert_parts(m, e, parts, t), e, v)
        } else {
            rep_insert_parts(m, e, parts, t)
        }),
{
    assert(parts.push(v).drop_last() =~= parts);
    assert(parts.push(v).last() == v);
}

/// What one registration pass does, named by the tags it covers: afterwards
/// exactly the old registrations plus `ts` exist, maps that existed are
/// untouched, new maps are empty, and the allocator is untouched.
pub open spec fn registers_tags(pre: ComponentStorage, post: ComponentStorage, ts: Seq<u64>) -> bool {
    &&& post.alloc_state() == pre.alloc_state()
    &&& forall|u: u64| post.registered(u) == (pre.registered(u) || ts.contains(u))
    &&& forall|u: u64| pre.registered(u) ==> post.map_of(u) == pre.map_of(u)
    &&& forall|u: u64| !pre.registered(u) && #[trigger] post.registered(u) ==> post.map_of(u)@
        == rep_empty()
}

/// One `try_register::<T>` call is a registration pass over `T`'s tag alone.
pub proof fn lemma_try_register_tags<T: Component>(pre: ComponentStorage, post: ComponentStorage)
    requires
        try_register_step::<T>(pre, post),
    ensures
        registers_tags(pre, post, seq![T::tag()]),
{
    let ts = seq![T::tag()];
    assert(ts[0] == T::tag());
    assert forall|u: u64| post.registered(u) == (pre.registered(u) || ts.contains(u)) by {
        if ts.contains(u) {
            let i = choose|i: int| 0 <= i < ts.len() && ts[i] == u;
            assert(u == T::tag());
        }
        if u == T::tag() {
            assert(ts.contains(u));
        }
    }
}

/// Two registration passes in a row are one pass over the joined tags.
pub proof fn lemma_registers_compose(
    s0: ComponentStorage,
    s1: ComponentStorage,
    s2: ComponentStorage,
    ts1: Seq<u64>,
    ts2: Seq<u64>,
)
    requires
        registers_tags(s0, s1, ts1),
        registers_tags(s1, s2, ts2),
    ensures
        registers_tags(s0, s2, ts1 + ts2),
{
    let ts = ts1 + ts2;
    assert forall|u: u64| (ts1 + ts2).contains(u) == (ts1.contains(u) || ts2.contains(u)) by {
        if ts.contains(u) {
            let i = choose|i: int| 0 <= i < ts.len() && ts[i] == u;
            if i < ts1.len() {
                assert(ts1[i] == u);
            } else {
                assert(ts2[i - ts1.len()] == u);
            }
        }
        if ts1.contains(u) {
            let i = choose|i: int| 0 <= i < ts1.len() && ts1[i] == u;
            assert(ts[i] == u);
        }
        if ts2.contains(u) {
            let i = choose|i: int| 0 <= i < ts2.len() && ts2[i] == u;
            assert(ts[ts1.len() + i] == u);
        }
    }
}

/// What one `add_data` call does. `known` says whether the bundle's key was in
/// the registry: if not, nothing happens and no entity exists; if so, one
/// fresh entity is created and every part is written for it, each into the
/// map of its own tag, in declared order.
pub open spec fn add_data_step(
    pre: ComponentStorage,
    post: ComponentStorage,
    parts: Seq<ComponentValue>,
    known: bool,
    r: Option<Entity>,
) -> bool {
    if known {
        match r {
            Some(e) => {
                &&& create_step(pre.alloc_state(), post.alloc_state(), e)
                &&& post.alloc_state().live(e)
                &&& forall|x: Entity| x != e ==> post.alloc_state().live(x)
                    == pre.alloc_state().live(x)
                &&& forall|u: u64| post.registered(u) == pre.registered(u)
                &&& forall|u: u64| #[trigger] pre.registered(u) ==> post.map_of(u)@
                    == rep_insert_parts(pre.map_of(u)@, e, parts, u)
            },
            None => false,
        }
    } else {
        &&& r is None
        &&& post == pre
    }
}

/// A fixed set of component types with initial values for one entity:
/// registering the bundle registers every member type's map, instantiating it
/// creates one entity and writes every member, or cleanly does nothing when
/// the bundle type was never registered.
pub trait Bundle: Sized {
    /// The key under which this bundle type is recorded in the registry.
    spec fn btag() -> u64;

    /// The member components of one instance, erased, in declared order.
    spec fn parts(self) -> Seq<ComponentValue>;

    /// The member component tags, in declared order.
    spec fn part_tags() -> Seq<u64>;

    /// The parts of any instance carry the declared tags.
    proof fn lemma_parts_tagged(x: Self)
        ensures
            x.parts().len() == Self::part_tags().len(),
            forall|i: int| 0 <= i < x.parts().len() ==> tag_of(#[trigger] x.parts()[i])
                == Self::part_tags()[i],
    ;

    fn btag_value() -> (t: u64)
        ensures
            t == Self::btag(),
    ;

    /// Registers every member component type, keeping any map that already
    /// exists.
    fn register(store: &mut ComponentStorage)
        requires
            old(store).wf(),
        ensures
            final(store).wf(),
            registers_tags(*old(store), *final(store), Self::part_tags()),
    ;

    /// Instantiates the bundle: where its key is in `bundles`, creates one
    /// fresh entity, writes every member component for it and returns it;
    /// where the key is absent, returns nothing and changes nothing.
    fn add_data(self, store: &mut ComponentStorage, bundles: &Bundles) -> (r: Option<Entity>)
        requires
            old(store).wf(),
            bundles.has(Self::btag()) ==> forall|i: int| 0 <= i < Self::part_tags().len()
                ==> old(store).registered(#[trigger] Self::part_tags()[i]),
        ensures
            final(store).wf(),
            add_data_step(
                *old(store),
                *final(store),
                self.parts(),
                bundles.has(Self::btag()),
                r,
            ),
    ;
}

impl<C: Component> Bundle for C {
    open spec fn btag() -> u64 {
        C::tag()
    }

    open spec fn parts(self) -> Seq<ComponentValue> {
        seq![self.erased()]
    }

    open spec fn part_tags() -> Seq<u64> {
        seq![C::tag()]
    }

    proof fn lemma_parts_tagged(x: Self) {
        C::lemma_round_trip(x);
    }

    fn btag_value() -> (t: u64) {
        C::tag_value()
    }

    fn register(store: &mut ComponentStorage) {
        let ghost pre = *store;
        store.try_register::<C>();
        proof {
            lemma_try_register_tags::<C>(pre, *store);
        }
    }

    fn add_data(self, store: &mut ComponentStorage, bundles: &Bundles) -> (r: Option<Entity>) {
        if bundles.contains(Self::btag_value()) {
            proof {
                assert(Self::part_tags()[0] == C::tag());
            }
            let ghost pre = *store;
            let e = store.create();
            let ghost s1 = *store;
            proof {
                C::lemma_round_trip(self);
            }
            store.insert_component(e, self);
            proof {
                assert forall|u: u64| #[trigger] pre.registered(u) implies store.map_of(u)@
                    == rep_insert_parts(pre.map_of(u)@, e, Self::parts(self), u) by {
                    let m0 = pre.map_of(u)@;
                    lemma_parts_empty(m0, e, u);
                    lemma_parts_push(m0, e, Seq::empty(), self.erased(), u);
                    assert(Self::parts(self) =~= Seq::empty().push(self.erased()));
                }
            }
            Some(e)
        } else {
            None
        }
    }
}

impl<C: Component> Bundle for (C,) {
    open spec fn btag() -> u64 {
        combine_tags(C::tag(), 0)
    }

    open spec fn parts(self) -> Seq<ComponentValue> {
        seq![self.0.erased()]
    }

    open spec fn part_tags() -> Seq<u64> {
        seq![C::tag()]
    }

    proof fn lemma_parts_tagged(x: Self) {
        C::lemma_round_trip(x.0);
    }

    fn btag_value() -> (t: u64) {
        combine_tags_value(C::tag_value(), 0)
    }

    fn register(store: &mut ComponentStorage) {
        let ghost pre = *store;
        store.try_register::<C>();
        proof {
            lemma_try_register_tags::<C>(pre, *store);
        }
    }

    fn add_data(self, store: &mut ComponentStorage, bundles: &Bundles) -> (r: Option<Entity>) {
        if bundles.contains(Self::btag_value()) {
            proof {
                assert(Self::part_tags()[0] == C::tag());
            }
            let ghost pre = *store;
            let e = store.create();
            store.insert_component(e, self.0);
            proof {
                let ghost v0 = self.0.erased();
                assert forall|u: u64| #[trigger] pre.registered(u) implies store.map_of(u)@
                    == rep_insert_parts(pre.map_of(u)@, e, Self::parts(self), u) by {
                    let m0 = pre.map_of(u)@;
                    lemma_parts_empty(m0, e, u);
                    lemma_parts_push(m0, e, Seq::empty(), v0, u);
                    assert(Self::parts(self) =~= Seq::empty().push(v0));
                }
            }
            Some(e)
        } else {
            None
        }
    }
}

impl<T1: Component, T2: Component> Bundle for (T1, T2) {
    open spec fn btag() -> u64 {
        combine_tags(T1::tag(), T2::tag())
    }

    open spec fn parts(self) -> Seq<ComponentValue> {
        seq![self.0.erased(), self.1.erased()]
    }

    open spec fn part_tags() -> Seq<u64> {
        seq![T1::tag(), T2::tag()]
    }

    proof fn lemma_parts_tagged(x: Self) {
        T1::lemma_round_trip(x.0);
        T2::lemma_round_trip(x.1);
    }

    fn btag_value() -> (t: u64) {
        combine_tags_value(T1::tag_value(), T2::tag_value())
    }

    fn register(store: &mut ComponentStorage) {
        let ghost s0 = *store;
        store.try_register::<T1>();
        let ghost s1 = *store;
        store.try_register::<T2>();
        proof {
            lemma_try_register_tags::<T1>(s0, s1);
            lemma_try_register_tags::<T2>(s1, *store);
            lemma_registers_compose(s0, s1, *store, seq![T1::tag()], seq![T2::tag()]);
            assert(Self::part_tags() =~= seq![T1::tag()] + seq![T2::tag()]);
        }
    }

    fn add_data(self, store: &mut ComponentStorage, bundles: &Bundles) -> (r: Option<Entity>) {
        if bundles.contains(Self::btag_value()) {
            proof {
                assert(Self::part_tags()[0] == T1::tag());
                assert(Self::part_tags()[1] == T2::tag());
            }
            let ghost pre = *store;
            let e = store.create();
            store.insert_component(e, self.0);
            store.insert_component(e, self.1);
            proof {
                let ghost v0 = self.0.erased();
                let ghost v1 = self.1.erased();
                assert forall|u: u64| #[trigger] pre.registered(u) implies store.map_of(u)@
                    == rep_insert_parts(pre.map_of(u)@, e, Self::parts(self), u) by {
                    let m0 = pre.map_of(u)@;
                    lemma_parts_empty(m0, e, u);
                    lemma_parts_push(m0, e, Seq::empty(), v0, u);
                    lemma_parts_push(m0, e, Seq::empty().push(v0), v1, u);
                    assert(Self::parts(self) =~= Seq::empty().push(v0).push(v1));
                }
            }
            Some(e)
        } else {
            None
        }
    }
}

impl<T1: Component, T2: Component, T3: Component> Bundle for (T1, T2, T3) {
    open spec fn btag() -> u64 {
        combine_tags(combine_tags(T1::tag(), T2::tag()), T3::tag())
    }

    open spec fn parts(self) -> Seq<ComponentValue> {
        seq![self.0.erased(), self.1.erased(), self.2.erased()]
    }

    open spec fn part_tags() -> Seq<u64> {
        seq![T1::tag(), T2::tag(), T3::tag()]
    }

    proof fn lemma_parts_tagged(x: Self) {
        T1::lemma_round_trip(x.0);
        T2::lemma_round_trip(x.1);
        T3::lemma_round_trip(x.2);
    }

    fn btag_value() -> (t: u64) {
        combine_tags_value(combine_tags_value(T1::tag_value(), T2::tag_value()), T3::tag_value())
    }

    fn register(store: &mut ComponentStorage) {
        let ghost s0 = *store;
        store.try_register::<T1>();
        let ghost s1 = *store;
        store.try_register::<T2>();
        let ghost s2 = *store;
        store.try_register::<T3>();
        proof {
            lemma_try_register_tags::<T1>(s0, s1);
            lemma_try_register_tags::<T2>(s1, s2);
            lemma_try_register_tags::<T3>(s2, *store);
            lemma_registers_compose(s0, s1, s2, seq![T1::tag()], seq![T2::tag()]);
            lemma_registers_compose(
                s0,
                s2,
                *store,
                seq![T1::tag()] + seq![T2::tag()],
                seq![T3::tag()],
            );
            assert(Self::part_tags() =~= seq![T1::tag()] + seq![T2::tag()] + seq![T3::tag()]);
        }
    }

    fn add_data(self, store: &mut ComponentStorage, bundles: &Bundles) -> (r: Option<Entity>) {
        if bundles.contains(Self::btag_value()) {
            proof {
                assert(Self::part_tags()[0] == T1::tag());
                assert(Self::part_tags()[1] == T2::tag());
                assert(Self::part_tags()[2] == T3::tag());
            }
            let ghost pre = *store;
            let e = store.create();
            store.insert_component(e, self.0);
            store.insert_component(e, self.1);
            store.insert_component(e, self.2);
            proof {
                let ghost v0 = self.0.erased();
                let ghost v1 = self.1.erased();
                let ghost v2 = self.2.erased();
                assert forall|u: u64| #[trigger] pre.registered(u) implies store.map_of(u)@
                    == rep_insert_parts(pre.map_of(u)@, e, Self::parts(self), u) by {
                    let m0 = pre.map_of(u)@;
                    lemma_parts_empty(m0, e, u);
                    lemma_parts_push(m0, e, Seq::empty(), v0, u);
                    lemma_parts_push(m0, e, Seq::empty().push(v0), v1, u);
                    lemma_parts_push(m0, e, Seq::empty().push(v0).push(v1), v2, u);
                    assert(Self::parts(self) =~= Seq::empty().push(v0).push(v1).push(v2));
                }
            }
            Some(e)
        } else {
            None
        }
    }
}

} // verus!
