use vstd::prelude::*;

use crate::component::Component;
use crate::random::sample_range;

verus! {

/// A position on the playing field, in whole pixels.
#[derive(Clone, Copy, PartialEq, Eq, Structural, Debug)]
pub struct Position {
    pub x: i32,
    pub y: i32,
}

impl Position {
    pub fn new(x: i32, y: i32) -> (p: Self)
        ensures
            p.x == x,
            p.y == y,
    {
        Position { x, y }
    }

    /// A position drawn uniformly from the playing field.
    pub fn random() -> (p: Self)
        ensures
            1 <= p.x < 1920,
            1 <= p.y < 1080,
    {
        Position { x: sample_range(1, 1920), y: sample_range(1, 1080) }
    }
}

/// A velocity in whole pixels per tick.
#[derive(Clone, Copy, PartialEq, Eq, Structural, Debug)]
pub struct Velocity {
    pub vx: i32,
    pub vy: i32,
}

impl Velocity {
    pub fn new(vx: i32, vy: i32) -> (v: Self)
        ensures
            v.vx == vx,
            v.vy == vy,
    {
        Velocity { vx, vy }
    }
}

/// A gravitational pull, in thousandths of a pixel per tick squared.
#[derive(Clone, Copy, PartialEq, Eq, Structural, Debug)]
pub struct Gravity {
    pub gx: i32,
    pub gy: i32,
}

impl Gravity {
    pub fn new(gx: i32, gy: i32) -> (g: Self)
        ensures
            g.gx == gx,
            g.gy == gy,
    {
        Gravity { gx, gy }
    }
}

/// The side length of a square body, in pixels.
#[derive(Clone, Copy, PartialEq, Eq, Structural, Debug)]
pub struct Size {
    pub size: u32,
}

impl Size {
    pub fn new(size: u32) -> (s: Self)
        ensures
            s.size == size,
    {
        Size { size }
    }
}

/// Which movement keys are held down at the moment.
#[derive(Clone, Copy, PartialEq, Eq, Structural, Debug)]
pub struct InputState {
    pub up: bool,
    pub right: bool,
    pub down: bool,
    pub left: bool,
    pub space: bool,
}

impl InputState {
    pub fn new() -> (s: Self)
        ensures
            !s.up,
            !s.right,
            !s.down,
            !s.left,
            !s.space,
    {
        InputState { up: false, right: false, down: false, left: false, space: false }
    }
}

/// Movement speed, in thousandths of a unit per tick.
#[derive(Clone, Copy, PartialEq, Eq, Structural, Debug)]
pub struct Physics {
    pub speed: i32,
}

/// A flat colour, one byte per channel.
#[derive(Clone, Copy, PartialEq, Eq, Structural, Debug)]
pub struct ColorComponent {
    pub r: u8,
    pub g: u8,
    pub b: u8,
}

impl ColorComponent {
    pub fn new(r: u8, g: u8, b: u8) -> (c: Self)
        ensures
            c.r == r,
            c.g == g,
            c.b == b,
    {
        ColorComponent { r, g, b }
    }
}

/// Something that can be eaten, worth `calories` growth when it is.
#[derive(Clone, Copy, PartialEq, Eq, Structural, Debug)]
pub struct Edible {
    pub eaten: bool,
    pub calories: u32,
}

/// Where and how large a body is drawn: a translation and a scale, each in
/// thousandths of a normalised device unit.
#[derive(Clone, Copy, PartialEq, Eq, Structural, Debug)]
pub struct Render {
    pub tx: i64,
    pub ty: i64,
    pub tz: i64,
    pub sx: i64,
    pub sy: i64,
    pub sz: i64,
}

impl Render {
    pub fn new(x: i64, y: i64, z: i64, scale: i64) -> (r: Self)
        ensures
            r.tx == x,
            r.ty == y,
            r.tz == z,
            r.sx == scale,
            r.sy == scale,
            r.sz == 1000,
    {
        Render { tx: x, ty: y, tz: z, sx: scale, sy: scale, sz: 1000 }
    }
}

pub const POSITION_TAG: u64 = 1;

pub const VELOCITY_TAG: u64 = 2;

pub const GRAVITY_TAG: u64 = 3;

pub const SIZE_TAG: u64 = 4;

pub const INPUT_STATE_TAG: u64 = 5;

pub const PHYSICS_TAG: u64 = 6;

pub const COLOR_TAG: u64 = 7;

pub const EDIBLE_TAG: u64 = 8;

pub const RENDER_TAG: u64 = 9;

/// One component value of any of the storable component types: the type-erased
/// box that component maps hold, recovered through a checked match at the
/// access boundary.
#[derive(Clone, Copy, PartialEq, Eq, Structural, Debug)]
pub enum ComponentValue {
    Position(Position),
    Velocity(Velocity),
    Gravity(Gravity),
    Size(Size),
    InputState(InputState),
    Physics(Physics),
    Color(ColorComponent),
    Edible(Edible),
    Render(Render),
}

/// The stable per-type key under which a value's component type is filed.
pub open spec fn tag_of(v: ComponentValue) -> u64 {
    match v {
        ComponentValue::Position(_) => POSITION_TAG,
        ComponentValue::Velocity(_) => VELOCITY_TAG,
        ComponentValue::Gravity(_) => GRAVITY_TAG,
        ComponentValue::Size(_) => SIZE_TAG,
        ComponentValue::InputState(_) => INPUT_STATE_TAG,
        ComponentValue::Physics(_) => PHYSICS_TAG,
        ComponentValue::Color(_) => COLOR_TAG,
        ComponentValue::Edible(_) => EDIBLE_TAG,
        ComponentValue::Render(_) => RENDER_TAG,
    }
}

impl Component for Position {
    open spec fn tag() -> u64 {
        POSITION_TAG
    }

    open spec fn erased(self) -> ComponentValue {
        ComponentValue::Position(self)
    }

    open spec fn of_value(v: ComponentValue) -> Self {
        v->Position_0
    }

    proof fn lemma_round_trip(x: Self) {
    }

    fn tag_value() -> (t: u64) {
        POSITION_TAG
    }

    fn erase(self) -> (v: ComponentValue) {
        ComponentValue::Position(self)
    }

    fn recover(v: &ComponentValue) -> (r: Option<&Self>) {
        match v {
            ComponentValue::Position(x) => Some(x),
            _ => None,
        }
    }

    fn recover_mut(v: &mut ComponentValue) -> (r: Option<&mut Self>) {
        match v {
            ComponentValue::Position(x) => Some(x),
            _ => None,
        }
    }
}

impl Component for Velocity {
    open spec fn tag() -> u64 {
        VELOCITY_TAG
    }

    open spec fn erased(self) -> ComponentValue {
        ComponentValue::Velocity(self)
    }

    open spec fn of_value(v: ComponentValue) -> Self {
        v->Velocity_0
    }

    proof fn lemma_round_trip(x: Self) {
    }

    fn tag_value() -> (t: u64) {
        VELOCITY_TAG
    }

    fn erase(self) -> (v: ComponentValue) {
        ComponentValue::Velocity(self)
    }

    fn recover(v: &ComponentValue) -> (r: Option<&Self>) {
        match v {
            ComponentValue::Velocity(x) => Some(x),
            _ => None,
        }
    }

    fn recover_mut(v: &mut ComponentValue) -> (r: Option<&mut Self>) {
        match v {
            ComponentValue::Velocity(x) => Some(x),
            _ => None,
        }
    }
}

impl Component for Gravity {
    open spec fn tag() -> u64 {
        GRAVITY_TAG
    }

    open spec fn erased(self) -> ComponentValue {
        ComponentValue::Gravity(self)
    }

    open spec fn of_value(v: ComponentValue) -> Self {
        v->Gravity_0
    }

    proof fn lemma_round_trip(x: Self) {
    }

    fn tag_value() -> (t: u64) {
        GRAVITY_TAG
    }

    fn erase(self) -> (v: ComponentValue) {
        ComponentValue::Gravity(self)
    }

    fn recover(v: &ComponentValue) -> (r: Option<&Self>) {
        match v {
            ComponentValue::Gravity(x) => Some(x),
            _ => None,
        }
    }

    fn recover_mut(v: &mut ComponentValue) -> (r: Option<&mut Self>) {
        match v {
            ComponentValue::Gravity(x) => Some(x),
            _ => None,
        }
    }
}

impl Component for Size {
    open spec fn tag() -> u64 {
        SIZE_TAG
    }

    open spec fn erased(self) -> ComponentValue {
        ComponentValue::Size(self)
    }

    open spec fn of_value(v: ComponentValue) -> Self {
        v->Size_0
    }

    proof fn lemma_round_trip(x: Self) {
    }

    fn tag_value() -> (t: u64) {
        SIZE_TAG
    }

    fn erase(self) -> (v: ComponentValue) {
        ComponentValue::Size(self)
    }

    fn recover(v: &ComponentValue) -> (r: Option<&Self>) {
        match v {
            ComponentValue::Size(x) => Some(x),
            _ => None,
        }
    }

    fn recover_mut(v: &mut ComponentValue) -> (r: Option<&mut Self>) {
        match v {
            ComponentValue::Size(x) => Some(x),
            _ => None,
        }
    }
}

impl Component for InputState {
    open spec fn tag() -> u64 {
        INPUT_STATE_TAG
    }

    open spec fn erased(self) -> ComponentValue {
        ComponentValue::InputState(self)
    }

    open spec fn of_value(v: ComponentValue) -> Self {
        v->InputState_0
    }

    proof fn lemma_round_trip(x: Self) {
    }

    fn tag_value() -> (t: u64) {
        INPUT_STATE_TAG
    }

    fn erase(self) -> (v: ComponentValue) {
        ComponentValue::InputState(self)
    }

    fn recover(v: &ComponentValue) -> (r: Option<&Self>) {
        match v {
            ComponentValue::InputState(x) => Some(x),
            _ => None,
        }
    }

    fn recover_mut(v: &mut ComponentValue) -> (r: Option<&mut Self>) {
        match v {
            ComponentValue::InputState(x) => Some(x),
            _ => None,
        }
    }
}

impl Component for Physics {
    open spec fn tag() -> u64 {
        PHYSICS_TAG
    }

    open spec fn erased(self) -> ComponentValue {
        ComponentValue::Physics(self)
    }

    open spec fn of_value(v: ComponentValue) -> Self {
        v->Physics_0
    }

    proof fn lemma_round_trip(x: Self) {
    }

    fn tag_value() -> (t: u64) {
        PHYSICS_TAG
    }

    fn erase(self) -> (v: ComponentValue) {
        ComponentValue::Physics(self)
    }

    fn recover(v: &ComponentValue) -> (r: Option<&Self>) {
        match v {
            ComponentValue::Physics(x) => Some(x),
            _ => None,
        }
    }

    fn recover_mut(v: &mut ComponentValue) -> (r: Option<&mut Self>) {
        match v {
            ComponentValue::Physics(x) => Some(x),
            _ => None,
        }
    }
}

impl Component for ColorComponent {
    open spec fn tag() -> u64 {
        COLOR_TAG
    }

    open spec fn erased(self) -> ComponentValue {
        ComponentValue::Color(self)
    }

    open spec fn of_value(v: ComponentValue) -> Self {
        v->Color_0
    }

    proof fn lemma_round_trip(x: Self) {
    }

    fn tag_value() -> (t: u64) {
        COLOR_TAG
    }

    fn erase(self) -> (v: ComponentValue) {
        ComponentValue::Color(self)
    }

    fn recover(v: &ComponentValue) -> (r: Option<&Self>) {
        match v {
            ComponentValue::Color(x) => Some(x),
            _ => None,
        }
    }

    fn recover_mut(v: &mut ComponentValue) -> (r: Option<&mut Self>) {
        match v {
            ComponentValue::Color(x) => Some(x),
            _ => None,
        }
    }
}

impl Component for Edible {
    open spec fn tag() -> u64 {
        EDIBLE_TAG
    }

    open spec fn erased(self) -> ComponentValue {
        ComponentValue::Edible(self)
    }

    open spec fn of_value(v: ComponentValue) -> Self {
        v->Edible_0
    }

    proof fn lemma_round_trip(x: Self) {
    }

    fn tag_value() -> (t: u64) {
        EDIBLE_TAG
    }

    fn erase(self) -> (v: ComponentValue) {
        ComponentValue::Edible(self)
    }

    fn recover(v: &ComponentValue) -> (r: Option<&Self>) {
        match v {
            ComponentValue::Edible(x) => Some(x),
            _ => None,
        }
    }

    fn recover_mut(v: &mut ComponentValue) -> (r: Option<&mut Self>) {
        match v {
            ComponentValue::Edible(x) => Some(x),
            _ => None,
        }
    }
}

impl Component for Render {
    open spec fn tag() -> u64 {
        RENDER_TAG
    }

    open spec fn erased(self) -> ComponentValue {
        ComponentValue::Render(self)
    }

    open spec fn of_value(v: ComponentValue) -> Self {
        v->Render_0
    }

    proof fn lemma_round_trip(x: Self) {
    }

    fn tag_value() -> (t: u64) {
        RENDER_TAG
    }

    fn erase(self) -> (v: ComponentValue) {
        ComponentValue::Render(self)
    }

    fn recover(v: &ComponentValue) -> (r: Option<&Self>) {
        match v {
            ComponentValue::Render(x) => Some(x),
            _ => None,
        }
    }

    fn recover_mut(v: &mut ComponentValue) -> (r: Option<&mut Self>) {
        match v {
            ComponentValue::Render(x) => Some(x),
            _ => None,
        }
    }
}

} // verus!
