use springboot::component::Component;
use springboot::errors::BootError;
use springboot::registry::ComponentRegistry;

const CACHE: u64 = 10;
const POOL: u64 = 11;

#[test]
fn insert_then_get_returns_the_same_instance() {
    let mut reg = ComponentRegistry::new();
    reg.insert(CACHE, Component::Text("cache-handle".to_string())).unwrap();
    let first = reg.get(CACHE).unwrap();
    assert_eq!(first, &Component::Text("cache-handle".to_string()));
    let again = reg.get(CACHE).unwrap();
    assert_eq!(again, &Component::Text("cache-handle".to_string()));
}

#[test]
fn second_insert_under_one_key_is_rejected_and_first_kept() {
    let mut reg = ComponentRegistry::new();
    reg.insert(CACHE, Component::Num(1)).unwrap();
    match reg.insert(CACHE, Component::Num(2)) {
        Err(BootError::DuplicateComponent { type_key }) => assert_eq!(type_key, CACHE),
        other => panic!("expected DuplicateComponent, got {:?}", other),
    }
    assert_eq!(reg.get(CACHE).unwrap(), &Component::Num(1));
}

#[test]
fn get_of_an_unregistered_key_is_none() {
    let reg = ComponentRegistry::new();
    assert!(reg.get(POOL).is_none());
}

#[test]
fn accumulate_creates_then_appends() {
    let mut reg = ComponentRegistry::new();
    assert!(reg.get_group(POOL).is_none());
    reg.accumulate(POOL, Component::Num(1));
    assert_eq!(reg.get_group(POOL).unwrap(), &vec![Component::Num(1)]);
    reg.accumulate(POOL, Component::Num(2));
    assert_eq!(
        reg.get_group(POOL).unwrap(),
        &vec![Component::Num(1), Component::Num(2)]
    );
}

#[test]
fn accumulate_leaves_other_groups_alone() {
    let mut reg = ComponentRegistry::new();
    reg.accumulate(POOL, Component::Num(1));
    reg.accumulate(CACHE, Component::Num(7));
    reg.accumulate(POOL, Component::Num(2));
    assert_eq!(reg.get_group(CACHE).unwrap(), &vec![Component::Num(7)]);
    assert_eq!(
        reg.get_group(POOL).unwrap(),
        &vec![Component::Num(1), Component::Num(2)]
    );
}

#[test]
fn sealed_registry_still_reads_everything() {
    let mut reg = ComponentRegistry::new();
    reg.insert(CACHE, Component::Flag(true)).unwrap();
    reg.accumulate(POOL, Component::Num(3));
    let sealed = reg.seal();
    assert_eq!(sealed.get(CACHE).unwrap(), &Component::Flag(true));
    assert_eq!(sealed.get_group(POOL).unwrap(), &vec![Component::Num(3)]);
    assert!(sealed.get(POOL).is_none());
}
