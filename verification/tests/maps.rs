use cs2_dumper::names::NameMap;
use cs2_dumper::walk::{record_module, ListWalk};

#[test]
fn inserting_a_name_again_replaces_its_value() {
    let mut map = NameMap::new();
    assert!(map.is_empty());
    map.insert("dwEntityList".to_string(), 1u32);
    map.insert("dwViewMatrix".to_string(), 2u32);
    map.insert("dwEntityList".to_string(), 3u32);
    assert!(!map.is_empty());
    assert_eq!(map.get("dwEntityList"), Some(&3));
    assert_eq!(map.get("dwViewMatrix"), Some(&2));
    assert_eq!(map.get("dwMissing"), None);
    assert_eq!(
        map.into_entries(),
        vec![("dwEntityList".to_string(), 3), ("dwViewMatrix".to_string(), 2)]
    );
}

#[test]
fn modules_with_nothing_found_are_left_out() {
    let mut map: NameMap<NameMap<u64>> = NameMap::new();
    record_module(&mut map, "libempty.so".to_string(), NameMap::new());
    assert!(map.is_empty());
    let mut found = NameMap::new();
    found.insert("Source2Client002".to_string(), 0x10u64);
    record_module(&mut map, "libclient.so".to_string(), found);
    assert_eq!(map.get("libclient.so").and_then(|m| m.get("Source2Client002")), Some(&0x10));
    assert!(map.get("libempty.so").is_none());
}

#[test]
fn list_walk_records_targets_inside_the_module() {
    let base = 0x7000_0000;
    let mut walk = ListWalk::new(base, 0x100);
    assert_eq!(walk.current(), Some(0x100));
    walk.visit("attack".to_string(), base + 0x40, 0x200);
    assert_eq!(walk.current(), Some(0x200));
    // Below the module base: not recorded.
    walk.visit("below".to_string(), base - 1, 0x300);
    walk.visit("jump".to_string(), base + 0x80, 0x400);
    walk.visit("attack".to_string(), base + 0x44, 0);
    assert_eq!(walk.current(), None);
    let found = walk.finish();
    assert_eq!(found.get("attack"), Some(&0x44));
    assert_eq!(found.get("jump"), Some(&0x80));
    assert_eq!(found.get("below"), None);
}

#[test]
fn an_empty_list_finds_nothing() {
    let walk = ListWalk::new(0x1000, 0);
    assert_eq!(walk.current(), None);
    assert!(walk.finish().is_empty());
}
