use oxygin::bundles::{FoodBundle, PlayerBundle};
use oxygin::components::{Position, Size, Velocity};
use oxygin::ecs::ECS;

#[test]
fn pair_bundle_creates_an_entity_with_both_components() {
    let mut ecs = ECS::new();
    ecs.register_bundle::<(Position, Size)>();
    let g = ecs
        .add_bundle((Position::new(1, 2), Size::new(3)))
        .expect("registered bundle must instantiate");
    let p = ecs.query::<Position>(g).expect("position must be present");
    assert_eq!((p.x, p.y), (1, 2));
    let s = ecs.query::<Size>(g).expect("size must be present");
    assert_eq!(s.size, 3);
}

#[test]
fn unregistered_bundle_is_a_clean_no_op() {
    let mut ecs = ECS::new();
    assert!(ecs.add_bundle((Velocity::new(1, 1),)).is_none());
    let e = ecs.create_entity();
    assert_eq!(e.index, 0);
    assert_eq!(e.generation, 0);
}

#[test]
fn single_component_bundle_roundtrip() {
    let mut ecs = ECS::new();
    ecs.register_bundle::<Position>();
    let e = ecs.add_bundle(Position::new(7, 8)).expect("registered bundle must instantiate");
    let p = ecs.query::<Position>(e).unwrap();
    assert_eq!((p.x, p.y), (7, 8));
}

#[test]
fn registering_one_bundle_does_not_register_another() {
    let mut ecs = ECS::new();
    ecs.register_bundle::<(Position, Size)>();
    assert!(ecs.add_bundle((Velocity::new(0, 0),)).is_none());
    assert!(ecs.add_bundle(Position::new(0, 0)).is_none());
}

#[test]
fn player_bundle_populates_every_component() {
    let mut ecs = ECS::new();
    ecs.register_bundle::<PlayerBundle>();
    let player = ecs
        .add_bundle(PlayerBundle::new(400, 400, 50, 500, 500, 500))
        .expect("registered bundle must instantiate");
    let p = ecs.query::<oxygin::components::Position>(player).unwrap();
    assert_eq!((p.x, p.y), (400, 400));
    let s = ecs.query::<oxygin::components::Size>(player).unwrap();
    assert_eq!(s.size, 50);
    let i = ecs.query::<oxygin::components::InputState>(player).unwrap();
    assert!(!i.up && !i.right && !i.down && !i.left && !i.space);
    let ph = ecs.query::<oxygin::components::Physics>(player).unwrap();
    assert_eq!(ph.speed, 50);
    let v = ecs.query::<oxygin::components::Velocity>(player).unwrap();
    assert_eq!((v.vx, v.vy), (0, 0));
    let g = ecs.query::<oxygin::components::Gravity>(player).unwrap();
    assert_eq!((g.gx, g.gy), (0, 981));
    let r = ecs.query::<oxygin::components::Render>(player).unwrap();
    assert_eq!((r.tx, r.ty, r.tz), (500, 500, 0));
    assert_eq!((r.sx, r.sy, r.sz), (500, 500, 1000));
}

#[test]
fn food_bundle_lands_on_the_field() {
    let mut ecs = ECS::new();
    ecs.register_bundle::<FoodBundle>();
    for _ in 0..20 {
        let food = ecs.add_bundle(FoodBundle::new()).expect("registered bundle must instantiate");
        let p = ecs.query::<oxygin::components::Position>(food).unwrap();
        assert!((1..1920).contains(&p.x));
        assert!((1..1080).contains(&p.y));
        let e = ecs.query::<oxygin::components::Edible>(food).unwrap();
        assert!(!e.eaten);
        assert_eq!(e.calories, 10);
        let r = ecs.query::<oxygin::components::Render>(food).unwrap();
        assert!((-1000..1000).contains(&r.tx));
        assert!((-1000..1000).contains(&r.ty));
        assert_eq!((r.sx, r.sy, r.sz), (100, 100, 1000));
    }
}

#[test]
fn shared_component_types_across_bundles_keep_data() {
    let mut ecs = ECS::new();
    ecs.register_bundle::<PlayerBundle>();
    let player = ecs.add_bundle(PlayerBundle::new(1, 2, 3, 0, 0, 1000)).unwrap();
    ecs.register_bundle::<FoodBundle>();
    let p = ecs.query::<Position>(player).expect("player data must survive bundle sharing");
    assert_eq!((p.x, p.y), (1, 2));
    let food = ecs.add_bundle(FoodBundle::new()).unwrap();
    assert_ne!(player, food);
    assert!(ecs.query::<oxygin::components::Edible>(player).is_none());
}
