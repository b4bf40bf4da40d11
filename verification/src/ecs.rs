use vstd::prelude::*;

use crate::bundle::{add_data_step, registers_tags, rep_insert_parts, Bundle, Bundles};
use crate::component::{
    register_step, rep_get, rep_insert, rep_typed, Component, ComponentStorage, EntityMap,
};
use crate::components::tag_of;
use crate::entity::{create_step, Entity};
use crate::resource::{Resource, ResourceStorage};

verus! {

/// The data store itself: the entity allocator and per-type component maps,
/// the per-type resource singletons, and the registry of known bundle types,
/// behind one API surface.
pub struct ECS {
    pub store: ComponentStorage,
    pub resources: ResourceStorage,
    pub bundles: Bundles,
}

impl ECS {
    pub open spec fn wf(self) -> bool {
        &&& self.store.wf()
        &&& self.resources.wf()
    }

    /// Whether this store ever issued `e`.
    pub open spec fn issued(self, e: Entity) -> bool {
        self.store.alloc_state().issued(e)
    }

    /// Whether `e` is currently alive.
    pub open spec fn live(self, e: Entity) -> bool {
        self.store.alloc_state().live(e)
    }

    /// What a typed query returns: the component of type `T` attached to `e`,
    /// absent where `T` was never registered or `e` has no entry in `T`'s map.
    pub open spec fn query_spec<T: Component>(self, e: Entity) -> Option<T> {
        if self.store.registered(T::tag()) {
            rep_typed::<T>(self.store.map_of(T::tag())@, e)
        } else {
            None
        }
    }

    pub fn new() -> (g: Self)
        ensures
            g.wf(),
            forall|t: u64| !g.store.registered(t),
            forall|t: u64| !g.bundles.has(t),
            forall|t: u64| !g.resources.stored(t),
            forall|e: Entity| !g.issued(e),
    {
        ECS {
            store: ComponentStorage::new(),
            resources: ResourceStorage::new(),
            bundles: Bundles::new(),
        }
    }

    /// Issues a fresh entity with no components.
    pub fn create_entity(&mut self) -> (e: Entity)
        requires
            old(self).wf(),
        ensures
            final(self).wf(),
            create_step(old(self).store.alloc_state(), final(self).store.alloc_state(), e),
            final(self).live(e),
            forall|x: Entity| x != e ==> final(self).live(x) == old(self).live(x),
            final(self).store.comps() == old(self).store.comps(),
            final(self).resources == old(self).resources,
            final(self).bundles == old(self).bundles,
    {
        self.store.create()
    }

    /// Creates an empty component map for `T`, replacing any existing one.
    pub fn register_component<T: Component>(&mut self)
        requires
            old(self).wf(),
        ensures
            final(self).wf(),
            register_step::<T>(old(self).store, final(self).store),
            final(self).resources == old(self).resources,
            final(self).bundles == old(self).bundles,
    {
        self.store.register::<T>();
    }

    /// The component map for `T`, or absent where `T` was never registered.
    pub fn get_component<T: Component>(&self) -> (r: Option<&EntityMap>)
        requires
            self.wf(),
        ensures
            match r {
                Some(m) => self.store.registered(T::tag()) && *m == self.store.map_of(T::tag()),
                None => !self.store.registered(T::tag()),
            },
    {
        self.store.get::<T>()
    }

    /// Exclusive access to the component map for `T`, or absent where `T` was
    /// never registered. Only `T`'s row of the store changes through the
    /// reference; `lemma_map_replaced` turns the row update into per-tag facts.
    pub fn get_mut_component<T: Component>(&mut self) -> (r: Option<&mut EntityMap>)
        requires
            old(self).wf(),
        ensures
            match r {
                Some(m) => {
                    &&& old(self).store.registered(T::tag())
                    &&& *m == old(self).store.map_of(T::tag())
                    &&& final(self).store.alloc_state() == old(self).store.alloc_state()
                    &&& final(self).store.comps() == old(self).store.comps().update(
                        old(self).store.comp_index(T::tag()),
                        ((T::tag(), *final(m))),
                    )
                    &&& final(self).resources == old(self).resources
                    &&& final(self).bundles == old(self).bundles
                },
                None => !old(self).store.registered(T::tag()) && *final(self) == *old(self),
            },
    {
        self.store.get_mut::<T>()
    }

    /// Attaches a component to an entity. `T` must be registered; the entry
    /// then reads back as `component`, and nothing else changes.
    pub fn add_component<T: Component>(&mut self, entity: Entity, component: T)
        requires
            old(self).wf(),
            old(self).store.registered(T::tag()),
        ensures
            final(self).wf(),
            final(self).query_spec::<T>(entity) == Some(component),
            final(self).store.alloc_state() == old(self).store.alloc_state(),
            forall|u: u64| final(self).store.registered(u) == old(self).store.registered(u),
            final(self).store.map_of(T::tag())@ == rep_insert(
                old(self).store.map_of(T::tag())@,
                entity,
                component.erased(),
            ),
            forall|u: u64| u != T::tag() && old(self).store.registered(u)
                ==> final(self).store.map_of(u) == old(self).store.map_of(u),
            final(self).resources == old(self).resources,
            final(self).bundles == old(self).bundles,
    {
        self.store.insert_component(entity, component);
        proof {
            crate::component::lemma_rep_insert(
                old(self).store.map_of(T::tag())@,
                entity,
                component.erased(),
            );
        }
    }

    /// The component of type `T` attached to `entity`, or absent where `T` was
    /// never registered or the entity has no such component.
    pub fn query<T: Component>(&self, entity: Entity) -> (r: Option<&T>)
        requires
            self.wf(),
        ensures
            match r {
                Some(x) => self.query_spec::<T>(entity) == Some(*x),
                None => self.query_spec::<T>(entity) is None,
            },
    {
        match self.store.get::<T>() {
            Some(m) => m.get_of::<T>(entity),
            None => None,
        }
    }

    /// Exclusive access to the component of type `T` attached to `entity`.
    /// Only that one entry of `T`'s map changes through the reference.
    pub fn query_mut<T: Component>(&mut self, entity: Entity) -> (r: Option<&mut T>)
        requires
            old(self).wf(),
        ensures
            match r {
                Some(x) => {
                    &&& old(self).store.registered(T::tag())
                    &&& old(self).query_spec::<T>(entity) == Some(*x)
                    &&& final(self).resources == old(self).resources
                    &&& final(self).bundles == old(self).bundles
                    &&& final(self).store.alloc_state() == old(self).store.alloc_state()
                    &&& final(self).store.comps().len() == old(self).store.comps().len()
                    &&& forall|k: int| 0 <= k < old(self).store.comps().len()
                        ==> (#[trigger] final(self).store.comps()[k]).0
                            == old(self).store.comps()[k].0
                    &&& forall|k: int| 0 <= k < old(self).store.comps().len()
                        && k != old(self).store.comp_index(T::tag())
                        ==> final(self).store.comps()[k] == old(self).store.comps()[k]
                    &&& final(self).store.comps()[old(self).store.comp_index(T::tag())].1@
                        == rep_insert(
                            old(self).store.map_of(T::tag())@,
                            entity,
                            final(x).erased(),
                        )
                },
                None => {
                    &&& old(self).query_spec::<T>(entity) is None
                    &&& final(self).store.comps() == old(self).store.comps()
                    &&& final(self).store.alloc_state() == old(self).store.alloc_state()
                    &&& final(self).resources == old(self).resources
                    &&& final(self).bundles == old(self).bundles
                },
            },
    {
        let registered = self.store.get::<T>().is_some();
        if !registered {
            return None;
        }
        let has_entry = match self.store.get::<T>() {
            Some(m) => m.get_of::<T>(entity).is_some(),
            None => false,
        };
        if !has_entry {
            return None;
        }
        match self.store.get_mut::<T>() {
            Some(m) => m.get_mut_of::<T>(entity),
            None => None,
        }
    }

    /// Stores the resource singleton for `T`, overwriting any previous value.
    pub fn add_resource<T: Resource>(&mut self, resource: T)
        requires
            old(self).wf(),
        ensures
            final(self).wf(),
            final(self).resources.typed::<T>() == Some(resource),
            forall|u: u64| final(self).resources.stored(u) == (old(self).resources.stored(u) || u
                == T::tag()),
            forall|u: u64| u != T::tag() && old(self).resources.stored(u)
                ==> final(self).resources.value_of(u) == old(self).resources.value_of(u),
            final(self).store == old(self).store,
            final(self).bundles == old(self).bundles,
    {
        proof {
            T::lemma_round_trip(resource);
        }
        self.resources.insert(resource);
    }

    /// The resource singleton for `T`, or absent where none was inserted.
    pub fn get_resource<T: Resource>(&self) -> (r: Option<&T>)
        requires
            self.wf(),
        ensures
            match r {
                Some(x) => self.resources.typed::<T>() == Some(*x),
                None => self.resources.typed::<T>() is None,
            },
    {
        self.resources.get::<T>()
    }

    /// Exclusive access to the resource singleton for `T`. Only `T`'s row of
    /// the resource store changes through the reference.
    pub fn get_mut_resource<T: Resource>(&mut self) -> (r: Option<&mut T>)
        requires
            old(self).wf(),
        ensures
            match r {
                Some(x) => {
                    &&& old(self).resources.typed::<T>() == Some(*x)
                    &&& old(self).resources.stored(T::tag())
                    &&& final(self).resources.rows() == old(self).resources.rows().update(
                        old(self).resources.row_index(T::tag()),
                        ((T::tag(), final(x).erased())),
                    )
                    &&& final(self).store == old(self).store
                    &&& final(self).bundles == old(self).bundles
                },
                None => {
                    &&& old(self).resources.typed::<T>() is None
                    &&& final(self).resources.rows() == old(self).resources.rows()
                    &&& final(self).store == old(self).store
                    &&& final(self).bundles == old(self).bundles
                },
            },
    {
        self.resources.get_mut::<T>()
    }

    /// Registers a bundle type: registers every member component type, keeping
    /// existing maps, and records the bundle's key so it may be instantiated.
    pub fn register_bundle<T: Bundle>(&mut self)
        requires
            old(self).wf(),
        ensures
            final(self).wf(),
            registers_tags(old(self).store, final(self).store, T::part_tags()),
            forall|u: u64| final(self).bundles.has(u) == (old(self).bundles.has(u) || u
                == T::btag()),
            forall|i: int| 0 <= i < T::part_tags().len()
                ==> final(self).store.registered(#[trigger] T::part_tags()[i]),
            final(self).resources == old(self).resources,
    {
        T::register(&mut self.store);
        self.bundles.insert(T::btag_value());
        proof {
            assert forall|i: int| 0 <= i < T::part_tags().len() implies self.store.registered(
                #[trigger] T::part_tags()[i],
            ) by {
                assert(T::part_tags().contains(T::part_tags()[i]));
            }
        }
    }

    /// Instantiates a bundle: where its type was registered, creates one fresh
    /// entity carrying every member component and returns it; where it was
    /// never registered, returns nothing, creates no entity and changes
    /// nothing.
    pub fn add_bundle<T: Bundle>(&mut self, bundle: T) -> (r: Option<Entity>)
        requires
            old(self).wf(),
            old(self).bundles.has(T::btag()) ==> forall|i: int| 0 <= i < T::part_tags().len()
                ==> old(self).store.registered(#[trigger] T::part_tags()[i]),
        ensures
            final(self).wf(),
            add_data_step(
                old(self).store,
                final(self).store,
                bundle.parts(),
                old(self).bundles.has(T::btag()),
                r,
            ),
            final(self).bundles == old(self).bundles,
            final(self).resources == old(self).resources,
    {
        bundle.add_data(&mut self.store, &self.bundles)
    }
}

/// After a component type is registered, its map is present and empty: a
/// lookup yields a map, and a query for any entity in it comes back absent.
pub proof fn lemma_register_then_get<T: Component>(pre: ECS, post: ECS)
    requires
        register_step::<T>(pre.store, post.store),
    ensures
        post.store.registered(T::tag()),
        forall|e: Entity| rep_get(post.store.map_of(T::tag())@, e) is None,
        forall|e: Entity| post.query_spec::<T>(e) is None,
{
}

/// A bundle instantiated right after its registration succeeds, the entity is
/// fresh, and each member component whose tag appears no later in the bundle
/// reads back exactly as supplied.
pub proof fn lemma_register_then_add_bundle<B: Bundle>(
    s0: ECS,
    s1: ECS,
    s2: ECS,
    b: B,
    r: Option<Entity>,
)
    requires
        registers_tags(s0.store, s1.store, B::part_tags()),
        forall|u: u64| s1.bundles.has(u) == (s0.bundles.has(u) || u == B::btag()),
        add_data_step(s1.store, s2.store, b.parts(), s1.bundles.has(B::btag()), r),
    ensures
        r matches Some(e) ==> !s1.store.alloc_state().issued(e) && s2.store.alloc_state().issued(
            e,
        ),
        r is Some,
        forall|i: int|
            0 <= i < b.parts().len() && (forall|j: int| i < j < b.parts().len()
                ==> tag_of(b.parts()[j]) != tag_of(#[trigger] b.parts()[i]))
                ==> rep_get(
                    s2.store.map_of(tag_of(b.parts()[i]))@,
                    r->Some_0,
                ) == Some(b.parts()[i]),
{
    assert(s1.bundles.has(B::btag()));
    let e = r->Some_0;
    B::lemma_parts_tagged(b);
    assert forall|i: int|
        0 <= i < b.parts().len() && (forall|j: int| i < j < b.parts().len()
            ==> tag_of(b.parts()[j]) != tag_of(#[trigger] b.parts()[i]))
        implies rep_get(s2.store.map_of(tag_of(b.parts()[i]))@, e) == Some(b.parts()[i]) by {
        let t = tag_of(b.parts()[i]);
        assert(B::part_tags()[i] == t);
        assert(B::part_tags().contains(t));
        assert(s1.store.registered(t));
        assert(s2.store.map_of(t)@ == rep_insert_parts(s1.store.map_of(t)@, e, b.parts(), t));
        lemma_insert_parts_last(s1.store.map_of(t)@, e, b.parts(), i);
    }
}

/// Within one pass of part insertions, the part whose tag appears no later in
/// the list is what the map for that tag finally holds for the entity.
pub proof fn lemma_insert_parts_last(
    m: crate::component::MapRep,
    e: Entity,
    parts: Seq<crate::components::ComponentValue>,
    i: int,
)
    requires
        0 <= i < parts.len(),
        forall|j: int| i < j < parts.len() ==> tag_of(parts[j]) != tag_of(parts[i]),
    ensures
        rep_get(rep_insert_parts(m, e, parts, tag_of(parts[i])), e) == Some(parts[i]),
    decreases parts.len(),
{
    let t = tag_of(parts[i]);
    if i == parts.len() - 1 {
        crate::component::lemma_rep_insert(rep_insert_parts(m, e, parts.drop_last(), t), e, parts[i]);
    } else {
        assert(parts.drop_last()[i] == parts[i]);
        lemma_insert_parts_last(m, e, parts.drop_last(), i);
        assert(tag_of(parts.last()) != t);
    }
}

/// An entry that is in a component map under its own tag is what the typed
/// query returns, as the typed value it stands for.
pub proof fn lemma_query_after_add<T: Component>(g: ECS, e: Entity, v: crate::components::ComponentValue)
    requires
        g.store.registered(T::tag()),
        rep_get(g.store.map_of(T::tag())@, e) == Some(v),
        tag_of(v) == T::tag(),
    ensures
        g.query_spec::<T>(e) == Some(T::of_value(v)),
{
}

/// Instantiating a bundle type that was never registered returns nothing and
/// leaves the whole store, the allocator included, exactly as it was.
pub proof fn lemma_add_bundle_unregistered<B: Bundle>(
    pre: ECS,
    post: ECS,
    b: B,
    r: Option<Entity>,
)
    requires
        !pre.bundles.has(B::btag()),
        add_data_step(pre.store, post.store, b.parts(), pre.bundles.has(B::btag()), r),
    ensures
        r is None,
        post.store == pre.store,
{
}

/// Attaching a component of type `T` to an entity leaks nothing into any other
/// type's map: a query for `U` that was absent stays absent.
pub proof fn lemma_no_cross_type_leakage<T: Component, U: Component>(
    pre: ECS,
    post: ECS,
    e: Entity,
    c: T,
    x: Entity,
)
    requires
        T::tag() != U::tag(),
        pre.wf(),
        forall|u: u64| post.store.registered(u) == pre.store.registered(u),
        forall|u: u64| u != T::tag() && pre.store.registered(u) ==> post.store.map_of(u)
            == pre.store.map_of(u),
        pre.query_spec::<U>(x) is None,
    ensures
        post.query_spec::<U>(x) is None,
{
}

} // verus!
