use vstd::prelude::*;

use crate::entity::Entity;
use crate::resource::Resource;

verus! {

/// The singleton naming which entity is the player.
#[derive(Clone, Copy, PartialEq, Eq, Structural, Debug)]
pub struct Player(Entity);

impl Player {
    /// The entity this handle names.
    pub closed spec fn entity(self) -> Entity {
        self.0
    }

    pub fn new(entity: &Entity) -> (p: Self)
        ensures
            p.entity() == *entity,
    {
        Player(*entity)
    }

    pub fn as_ref(&self) -> (e: &Entity)
        ensures
            *e == self.entity(),
    {
        &self.0
    }
}

pub const PLAYER_TAG: u64 = 1;

/// One resource value of any of the storable resource types: the type-erased
/// box that the resource store holds.
#[derive(Clone, Copy, PartialEq, Eq, Structural, Debug)]
pub enum ResourceValue {
    Player(Player),
}

/// The stable per-type key under which a value's resource type is filed.
pub open spec fn res_tag_of(v: ResourceValue) -> u64 {
    match v {
        ResourceValue::Player(_) => PLAYER_TAG,
    }
}

impl Resource for Player {
    open spec fn tag() -> u64 {
        PLAYER_TAG
    }

    open spec fn erased(self) -> ResourceValue {
        ResourceValue::Player(self)
    }

    open spec fn of_value(v: ResourceValue) -> Self {
        v->Player_0
    }

    proof fn lemma_round_trip(x: Self) {
    }

    fn tag_value() -> (t: u64) {
        PLAYER_TAG
    }

    fn erase(self) -> (v: ResourceValue) {
        ResourceValue::Player(self)
    }

    fn recover(v: &ResourceValue) -> (r: Option<&Self>) {
        match v {
            ResourceValue::Player(x) => Some(x),
        }
    }

    fn recover_mut(v: &mut ResourceValue) -> (r: Option<&mut Self>) {
        match v {
            ResourceValue::Player(x) => Some(x),
        }
    }
}

} // verus!
