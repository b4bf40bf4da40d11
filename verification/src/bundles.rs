use vstd::prelude::*;

use crate::bundle::{
    lemma_parts_empty, lemma_parts_push, lemma_registers_compose, lemma_try_register_tags, Bundle,
    Bundles, rep_insert_parts,
};
use crate::component::{Component, ComponentStorage};
use crate::components::{
    ComponentValue, Edible, Gravity, InputState, Physics, Position, Render, Size, Velocity,
    EDIBLE_TAG, GRAVITY_TAG, INPUT_STATE_TAG, PHYSICS_TAG, POSITION_TAG, RENDER_TAG, SIZE_TAG,
    VELOCITY_TAG,
};
use crate::entity::Entity;
use crate::random::sample_range;

verus! {

pub const PLAYER_BUNDLE_TAG: u64 = 101;

pub const FOOD_BUNDLE_TAG: u64 = 102;

/// Everything the player entity starts with.
#[derive(Clone, Copy, PartialEq, Eq, Structural, Debug)]
pub struct PlayerBundle {
    pub position: Position,
    pub size: Size,
    pub input: InputState,
    pub physics: Physics,
    pub velocity: Velocity,
    pub grav: Gravity,
    pub render: Render,
}

impl PlayerBundle {
    /// A player at pixel position (x, y) with the given side length, drawn at
    /// translation (t, b) and the given scale, both in thousandths.
    pub fn new(x: i32, y: i32, size: u32, t: i64, b: i64, scale: i64) -> (p: Self)
        ensures
            p.position == (Position { x, y }),
            p.size == (Size { size }),
            p.input == (InputState {
                up: false,
                right: false,
                down: false,
                left: false,
                space: false,
            }),
            p.physics == (Physics { speed: 50 }),
            p.velocity == (Velocity { vx: 0, vy: 0 }),
            p.grav == (Gravity { gx: 0, gy: 981 }),
            p.render == (Render { tx: t, ty: b, tz: 0, sx: scale, sy: scale, sz: 1000 }),
    {
        PlayerBundle {
            position: Position::new(x, y),
            size: Size::new(size),
            input: InputState::new(),
            physics: Physics { speed: 50 },
            velocity: Velocity { vx: 0, vy: 0 },
            grav: Gravity { gx: 0, gy: 981 },
            render: Render::new(t, b, 0, scale),
        }
    }
}

/// Everything one piece of food starts with.
#[derive(Clone, Copy, PartialEq, Eq, Structural, Debug)]
pub struct FoodBundle {
    pub size: Size,
    pub position: Position,
    pub edible: Edible,
    pub velocity: Velocity,
    pub grav: Gravity,
    pub render: Render,
}

impl FoodBundle {
    /// A piece of food at a random spot on the field, drawn somewhere in the
    /// normalised square.
    pub fn new() -> (f: Self)
        ensures
            f.size == (Size { size: 10 }),
            1 <= f.position.x < 1920,
            1 <= f.position.y < 1080,
            f.edible == (Edible { eaten: false, calories: 10 }),
            f.velocity == (Velocity { vx: 0, vy: 0 }),
            f.grav == (Gravity { gx: 0, gy: 981 }),
            -1000 <= f.render.tx < 1000,
            -1000 <= f.render.ty < 1000,
            f.render.tz == 0,
            f.render.sx == 100,
            f.render.sy == 100,
            f.render.sz == 1000,
    {
        let x = sample_range(-1000, 1000);
        let y = sample_range(-1000, 1000);
        FoodBundle {
            size: Size { size: 10 },
            position: Position::random(),
            edible: Edible { eaten: false, calories: 10 },
            velocity: Velocity { vx: 0, vy: 0 },
            grav: Gravity { gx: 0, gy: 981 },
            render: Render::new(x as i64, y as i64, 0, 100),
        }
    }
}

impl Bundle for PlayerBundle {
    open spec fn btag() -> u64 {
        PLAYER_BUNDLE_TAG
    }

    open spec fn parts(self) -> Seq<ComponentValue> {
        seq![
            self.position.erased(),
            self.size.erased(),
            self.input.erased(),
            self.physics.erased(),
            self.velocity.erased(),
            self.grav.erased(),
            self.render.erased(),
        ]
    }

    open spec fn part_tags() -> Seq<u64> {
        seq![
            POSITION_TAG,
            SIZE_TAG,
            INPUT_STATE_TAG,
            PHYSICS_TAG,
            VELOCITY_TAG,
            GRAVITY_TAG,
            RENDER_TAG,
        ]
    }

    proof fn lemma_parts_tagged(x: Self) {
    }

    fn btag_value() -> (t: u64) {
        PLAYER_BUNDLE_TAG
    }

    fn register(store: &mut ComponentStorage) {
        let ghost s0 = *store;
        store.try_register::<Position>();
        let ghost s1 = *store;
        store.try_register::<Size>();
        let ghost s2 = *store;
        store.try_register::<InputState>();
        let ghost s3 = *store;
        store.try_register::<Physics>();
        let ghost s4 = *store;
        store.try_register::<Velocity>();
        let ghost s5 = *store;
        store.try_register::<Gravity>();
        let ghost s6 = *store;
        store.try_register::<Render>();
        proof {
            lemma_try_register_tags::<Position>(s0, s1);
            lemma_try_register_tags::<Size>(s1, s2);
            lemma_try_register_tags::<InputState>(s2, s3);
            lemma_try_register_tags::<Physics>(s3, s4);
            lemma_try_register_tags::<Velocity>(s4, s5);
            lemma_try_register_tags::<Gravity>(s5, s6);
            lemma_try_register_tags::<Render>(s6, *store);
            let t1 = seq![POSITION_TAG];
            let t2 = t1 + seq![SIZE_TAG];
            let t3 = t2 + seq![INPUT_STATE_TAG];
            let t4 = t3 + seq![PHYSICS_TAG];
            let t5 = t4 + seq![VELOCITY_TAG];
            let t6 = t5 + seq![GRAVITY_TAG];
            let t7 = t6 + seq![RENDER_TAG];
            lemma_registers_compose(s0, s1, s2, t1, seq![SIZE_TAG]);
            lemma_registers_compose(s0, s2, s3, t2, seq![INPUT_STATE_TAG]);
            lemma_registers_compose(s0, s3, s4, t3, seq![PHYSICS_TAG]);
            lemma_registers_compose(s0, s4, s5, t4, seq![VELOCITY_TAG]);
            lemma_registers_compose(s0, s5, s6, t5, seq![GRAVITY_TAG]);
            lemma_registers_compose(s0, s6, *store, t6, seq![RENDER_TAG]);
            assert(Self::part_tags() =~= t7);
        }
    }

    fn add_data(self, store: &mut ComponentStorage, bundles: &Bundles) -> (r: Option<Entity>) {
        if bundles.contains(Self::btag_value()) {
            proof {
                assert(Self::part_tags()[0] == POSITION_TAG);
                assert(Self::part_tags()[1] == SIZE_TAG);
                assert(Self::part_tags()[2] == INPUT_STATE_TAG);
                assert(Self::part_tags()[3] == PHYSICS_TAG);
                assert(Self::part_tags()[4] == VELOCITY_TAG);
                assert(Self::part_tags()[5] == GRAVITY_TAG);
                assert(Self::part_tags()[6] == RENDER_TAG);
            }
            let ghost pre = *store;
            let e = store.create();
            store.insert_component(e, self.position);
            store.insert_component(e, self.size);
            store.insert_component(e, self.input);
            store.insert_component(e, self.physics);
            store.insert_component(e, self.velocity);
            store.insert_component(e, self.grav);
            store.insert_component(e, self.render);
            proof {
                let ghost v0 = self.position.erased();
                let ghost v1 = self.size.erased();
                let ghost v2 = self.input.erased();
                let ghost v3 = self.physics.erased();
                let ghost v4 = self.velocity.erased();
                let ghost v5 = self.grav.erased();
                let ghost v6 = self.render.erased();
                assert forall|u: u64| #[trigger] pre.registered(u) implies store.map_of(u)@
                    == rep_insert_parts(pre.map_of(u)@, e, Self::parts(self), u) by {
                    let m0 = pre.map_of(u)@;
                    let p0 = Seq::<ComponentValue>::empty();
                    lemma_parts_empty(m0, e, u);
                    lemma_parts_push(m0, e, p0, v0, u);
                    lemma_parts_push(m0, e, p0.push(v0), v1, u);
                    lemma_parts_push(m0, e, p0.push(v0).push(v1), v2, u);
                    lemma_parts_push(m0, e, p0.push(v0).push(v1).push(v2), v3, u);
                    lemma_parts_push(m0, e, p0.push(v0).push(v1).push(v2).push(v3), v4, u);
                    lemma_parts_push(m0, e, p0.push(v0).push(v1).push(v2).push(v3).push(v4), v5, u);
                    lemma_parts_push(
                        m0,
                        e,
                        p0.push(v0).push(v1).push(v2).push(v3).push(v4).push(v5),
                        v6,
                        u,
                    );
                    assert(Self::parts(self) =~= p0.push(v0).push(v1).push(v2).push(v3).push(
                        v4,
                    ).push(v5).push(v6));
                }
            }
            Some(e)
        } else {
            None
        }
    }
}

impl Bundle for FoodBundle {
    open spec fn btag() -> u64 {
        FOOD_BUNDLE_TAG
    }

    open spec fn parts(self) -> Seq<ComponentValue> {
        seq![
            self.size.erased(),
            self.position.erased(),
            self.edible.erased(),
            self.velocity.erased(),
            self.grav.erased(),
            self.render.erased(),
        ]
    }

    open spec fn part_tags() -> Seq<u64> {
        seq![SIZE_TAG, POSITION_TAG, EDIBLE_TAG, VELOCITY_TAG, GRAVITY_TAG, RENDER_TAG]
    }

    proof fn lemma_parts_tagged(x: Self) {
    }

    fn btag_value() -> (t: u64) {
        FOOD_BUNDLE_TAG
    }

    fn register(store: &mut ComponentStorage) {
        let ghost s0 = *store;
        store.try_register::<Size>();
        let ghost s1 = *store;
        store.try_register::<Position>();
        let ghost s2 = *store;
        store.try_register::<Edible>();
        let ghost s3 = *store;
        store.try_register::<Velocity>();
        let ghost s4 = *store;
        store.try_register::<Gravity>();
        let ghost s5 = *store;
        store.try_register::<Render>();
        proof {
            lemma_try_register_tags::<Size>(s0, s1);
            lemma_try_register_tags::<Position>(s1, s2);
            lemma_try_register_tags::<Edible>(s2, s3);
            lemma_try_register_tags::<Velocity>(s3, s4);
            lemma_try_register_tags::<Gravity>(s4, s5);
            lemma_try_register_tags::<Render>(s5, *store);
            let t1 = seq![SIZE_TAG];
            let t2 = t1 + seq![POSITION_TAG];
            let t3 = t2 + seq![EDIBLE_TAG];
            let t4 = t3 + seq![VELOCITY_TAG];
            let t5 = t4 + seq![GRAVITY_TAG];
            let t6 = t5 + seq![RENDER_TAG];
            lemma_registers_compose(s0, s1, s2, t1, seq![POSITION_TAG]);
            lemma_registers_compose(s0, s2, s3, t2, seq![EDIBLE_TAG]);
            lemma_registers_compose(s0, s3, s4, t3, seq![VELOCITY_TAG]);
            lemma_registers_compose(s0, s4, s5, t4, seq![GRAVITY_TAG]);
            lemma_registers_compose(s0, s5, *store, t5, seq![RENDER_TAG]);
            assert(Self::part_tags() =~= t6);
        }
    }

    fn add_data(self, store: &mut ComponentStorage, bundles: &Bundles) -> (r: Option<Entity>) {
        if bundles.contains(Self::btag_value()) {
            proof {
                assert(Self::part_tags()[0] == SIZE_TAG);
                assert(Self::part_tags()[1] == POSITION_TAG);
                assert(Self::part_tags()[2] == EDIBLE_TAG);
                assert(Self::part_tags()[3] == VELOCITY_TAG);
                assert(Self::part_tags()[4] == GRAVITY_TAG);
                assert(Self::part_tags()[5] == RENDER_TAG);
            }
            let ghost pre = *store;
            let e = store.create();
            store.insert_component(e, self.size);
            store.insert_component(e, self.position);
            store.insert_component(e, self.edible);
            store.insert_component(e, self.velocity);
            store.insert_component(e, self.grav);
            store.insert_component(e, self.render);
            proof {
                let ghost v0 = self.size.erased();
                let ghost v1 = self.position.erased();
                let ghost v2 = self.edible.erased();
                let ghost v3 = self.velocity.erased();
                let ghost v4 = self.grav.erased();
                let ghost v5 = self.render.erased();
                assert forall|u: u64| #[trigger] pre.registered(u) implies store.map_of(u)@
                    == rep_insert_parts(pre.map_of(u)@, e, Self::parts(self), u) by {
                    let m0 = pre.map_of(u)@;
                    let p0 = Seq::<ComponentValue>::empty();
                    lemma_parts_empty(m0, e, u);
                    lemma_parts_push(m0, e, p0, v0, u);
                    lemma_parts_push(m0, e, p0.push(v0), v1, u);
                    lemma_parts_push(m0, e, p0.push(v0).push(v1), v2, u);
                    lemma_parts_push(m0, e, p0.push(v0).push(v1).push(v2), v3, u);
                    lemma_parts_push(m0, e, p0.push(v0).push(v1).push(v2).push(v3), v4, u);
                    lemma_parts_push(m0, e, p0.push(v0).push(v1).push(v2).push(v3).push(v4), v5, u);
                    assert(Self::parts(self) =~= p0.push(v0).push(v1).push(v2).push(v3).push(
                        v4,
                    ).push(v5));
                }
            }
            Some(e)
        } else {
            None
        }
    }
}

} // verus!
