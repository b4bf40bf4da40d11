use oxygin::component::{ComponentStorage, EntityMap};
use oxygin::components::{ComponentValue, Position, Size, Velocity};
use oxygin::ecs::ECS;
use oxygin::entity::EntityAllocator;
use oxygin::render::ReCalculate;
use oxygin::resource::ResourceStorage;
use oxygin::resources::Player;
use oxygin::schedule::Scheduler;
use oxygin::systems::check_collision;

#[test]
fn created_entities_are_pairwise_distinct() {
    let mut ecs = ECS::new();
    let mut seen = Vec::new();
    for _ in 0..100 {
        let e = ecs.create_entity();
        assert!(!seen.contains(&e));
        seen.push(e);
    }
}

#[test]
fn destroyed_slot_reuses_index_with_new_generation() {
    let mut a = EntityAllocator::new();
    let e1 = a.create();
    assert!(a.destroy(e1));
    assert!(!a.destroy(e1));
    let e2 = a.create();
    assert_eq!(e1.index, e2.index);
    assert_ne!(e1, e2);
}

#[test]
fn stale_handle_cannot_reach_a_reissued_slot() {
    let mut a = EntityAllocator::new();
    let e1 = a.create();
    let mut m = EntityMap::new();
    m.insert(e1, ComponentValue::Position(Position::new(1, 2)));
    a.destroy(e1);
    let e2 = a.create();
    assert_eq!(e1.index, e2.index);
    assert!(m.get(e2).is_none());
    m.insert(e2, ComponentValue::Position(Position::new(3, 4)));
    assert!(m.get(e1).is_none());
    assert!(m.get(e2).is_some());
}

#[test]
fn register_then_get_is_present_and_empty() {
    let mut ecs = ECS::new();
    assert!(ecs.get_component::<Position>().is_none());
    ecs.register_component::<Position>();
    let map = ecs.get_component::<Position>().expect("registered map must be present");
    assert!(map.entries().is_empty());
    assert!(ecs.get_component::<Size>().is_none());
}

#[test]
fn try_register_twice_keeps_entries() {
    let mut store = ComponentStorage::new();
    store.try_register::<Position>();
    let e = store.create();
    store.insert_component(e, Position::new(7, 9));
    store.try_register::<Position>();
    let map = store.get::<Position>().expect("map must still be present");
    let p = map.get_of::<Position>(e).expect("entry must survive try_register");
    assert_eq!(p.x, 7);
    assert_eq!(p.y, 9);
}

#[test]
fn register_overwrites_with_a_fresh_map() {
    let mut ecs = ECS::new();
    ecs.register_component::<Position>();
    let e = ecs.create_entity();
    ecs.add_component(e, Position::new(1, 1));
    ecs.register_component::<Position>();
    let map = ecs.get_component::<Position>().unwrap();
    assert!(map.entries().is_empty());
}

#[test]
fn scenario_position_and_size_queries() {
    let mut ecs = ECS::new();
    ecs.register_component::<Position>();
    ecs.register_component::<Size>();
    let e = ecs.create_entity();
    ecs.add_component(e, Position::new(5, 5));
    ecs.add_component(e, Size::new(10));
    let p = ecs.query::<Position>(e).expect("position must be present");
    assert_eq!((p.x, p.y), (5, 5));
    let s = ecs.query::<Size>(e).expect("size must be present");
    assert_eq!(s.size, 10);
    let f = ecs.create_entity();
    assert!(ecs.query::<Position>(f).is_none());
    assert!(ecs.query::<Size>(f).is_none());
}

#[test]
fn no_cross_type_leakage() {
    let mut ecs = ECS::new();
    ecs.register_component::<Position>();
    let e = ecs.create_entity();
    ecs.add_component(e, Position::new(5, 5));
    assert!(ecs.query::<Velocity>(e).is_none());
    ecs.register_component::<Velocity>();
    assert!(ecs.query::<Velocity>(e).is_none());
    assert!(ecs.query::<Position>(e).is_some());
}

#[test]
fn query_mut_updates_in_place() {
    let mut ecs = ECS::new();
    ecs.register_component::<Position>();
    let e = ecs.create_entity();
    ecs.add_component(e, Position::new(1, 2));
    {
        let p = ecs.query_mut::<Position>(e).expect("position must be present");
        p.x = 9;
    }
    let p = ecs.query::<Position>(e).unwrap();
    assert_eq!((p.x, p.y), (9, 2));
    let f = ecs.create_entity();
    assert!(ecs.query_mut::<Position>(f).is_none());
}

#[test]
fn component_map_entries_list_everything() {
    let mut ecs = ECS::new();
    ecs.register_component::<Position>();
    let e1 = ecs.create_entity();
    let e2 = ecs.create_entity();
    let e3 = ecs.create_entity();
    ecs.add_component(e1, Position::new(1, 0));
    ecs.add_component(e2, Position::new(2, 0));
    ecs.add_component(e3, Position::new(3, 0));
    let entries = ecs.get_component::<Position>().unwrap().entries();
    assert_eq!(entries.len(), 3);
    let mut xs: Vec<i32> = entries
        .iter()
        .map(|(_, v)| match v {
            ComponentValue::Position(p) => p.x,
            _ => panic!("wrong component variant"),
        })
        .collect();
    xs.sort();
    assert_eq!(xs, vec![1, 2, 3]);
}

#[test]
fn resource_storage_singleton_per_type() {
    let mut a = EntityAllocator::new();
    let e1 = a.create();
    let e2 = a.create();
    let mut rs = ResourceStorage::new();
    assert!(rs.get::<Player>().is_none());
    rs.insert(Player::new(&e1));
    assert_eq!(*rs.get::<Player>().unwrap().as_ref(), e1);
    rs.insert(Player::new(&e2));
    assert_eq!(*rs.get::<Player>().unwrap().as_ref(), e2);
}

#[test]
fn ecs_resource_roundtrip_and_overwrite() {
    let mut ecs = ECS::new();
    let e1 = ecs.create_entity();
    let e2 = ecs.create_entity();
    assert!(ecs.get_resource::<Player>().is_none());
    ecs.add_resource(Player::new(&e1));
    assert_eq!(*ecs.get_resource::<Player>().unwrap().as_ref(), e1);
    {
        let p = ecs.get_mut_resource::<Player>().expect("player resource must be present");
        *p = Player::new(&e2);
    }
    assert_eq!(*ecs.get_resource::<Player>().unwrap().as_ref(), e2);
}

#[test]
fn scheduler_counts_whole_ticks_and_keeps_the_remainder() {
    let mut s = Scheduler::new();
    assert_eq!(s.ticks_per_second, 60);
    assert_eq!(s.tick_duration, 16_666_666);
    assert_eq!(s.tick(33_333_332), 2);
    assert_eq!(s.accumulated_time, 0);
    assert_eq!(s.dt, 33_333_332);
    assert_eq!(s.last_tick_time, 33_333_332);
    assert_eq!(s.tick(50_000_000), 1);
    assert_eq!(s.accumulated_time, 2);
    assert_eq!(s.tick(50_000_100), 0);
    assert_eq!(s.accumulated_time, 102);
}

#[test]
fn recalculate_marks_and_clears() {
    let mut r = ReCalculate::new();
    assert!(*r.inner());
    r.finish();
    assert!(!*r.inner());
    r.moved();
    assert!(*r.inner());
}

#[test]
fn collision_overlap_and_separation() {
    let p1 = Position::new(0, 0);
    let s1 = Size::new(10);
    let p2 = Position::new(5, 5);
    let s2 = Size::new(10);
    assert!(check_collision(&p1, &s1, &p2, &s2));
    let p3 = Position::new(10, 0);
    assert!(!check_collision(&p1, &s1, &p3, &s2));
    let p4 = Position::new(100, 100);
    assert!(!check_collision(&p1, &s1, &p4, &s2));
}

#[test]
fn position_random_stays_on_the_field() {
    for _ in 0..50 {
        let p = Position::random();
        assert!((1..1920).contains(&p.x));
        assert!((1..1080).contains(&p.y));
    }
}
