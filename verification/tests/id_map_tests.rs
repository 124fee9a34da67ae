use matchcoord::game::Class;
use matchcoord::id_map::{Id, IdMap, IdMapBuilder};

fn knight() -> Class {
    Class {
        name: "Knight".to_string(),
        description: "Sword and shield".to_string(),
        health: 30,
        mana: 5,
    }
}

fn mage() -> Class {
    Class {
        name: "Mage".to_string(),
        description: "Staff and robes".to_string(),
        health: 20,
        mana: 30,
    }
}

#[test]
fn id_new_raw_round_trip() {
    let id: Id<Class> = Id::new(7);
    assert_eq!(id.raw(), 7);
}

#[test]
fn id_equality_is_by_number() {
    let a: Id<Class> = Id::new(3);
    let b: Id<Class> = Id::new(3);
    let c: Id<Class> = Id::new(4);
    assert_eq!(a, b);
    assert_ne!(a, c);
}

#[test]
fn builder_mints_sequential_ids() {
    let mut builder: IdMapBuilder<Class> = IdMapBuilder::new();
    let first = builder.add(knight());
    let second = builder.add(mage());
    assert_eq!(first.raw(), 0);
    assert_eq!(second.raw(), 1);
    assert_eq!(builder.len(), 2);
}

#[test]
fn map_lookup_finds_what_was_added() {
    let mut builder: IdMapBuilder<Class> = IdMapBuilder::new();
    let kid = builder.add(knight());
    let mid = builder.add(mage());
    let map: IdMap<Class> = builder.build();
    assert_eq!(map.get(kid).unwrap().name, "Knight");
    assert_eq!(map.get(mid).unwrap().name, "Mage");
}

#[test]
fn map_lookup_on_unknown_id_is_none() {
    let mut builder: IdMapBuilder<Class> = IdMapBuilder::new();
    builder.add(knight());
    let map: IdMap<Class> = builder.build();
    assert!(map.get(Id::new(5)).is_none());
}

#[test]
fn map_ids_lists_every_id_in_order() {
    let mut builder: IdMapBuilder<Class> = IdMapBuilder::new();
    builder.add(knight());
    builder.add(mage());
    let map = builder.build();
    let ids = map.ids();
    assert_eq!(ids.len(), 2);
    assert_eq!(ids[0].raw(), 0);
    assert_eq!(ids[1].raw(), 1);
}

#[test]
fn map_get_mut_updates_in_place() {
    let mut builder: IdMapBuilder<Class> = IdMapBuilder::new();
    let kid = builder.add(knight());
    let mut map = builder.build();
    map.get_mut(kid).unwrap().health = 99;
    assert_eq!(map.get(kid).unwrap().health, 99);
    assert!(map.get_mut(Id::new(9)).is_none());
}

#[test]
fn map_iter_walks_entries_in_id_order() {
    let mut builder: IdMapBuilder<Class> = IdMapBuilder::new();
    builder.add(knight());
    builder.add(mage());
    let map = builder.build();
    let names: Vec<&str> = map.iter().iter().map(|c| c.name.as_str()).collect();
    assert_eq!(names, vec!["Knight", "Mage"]);
}
