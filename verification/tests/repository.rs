use madder_core::repository::{Entity, MutRepository, Repository, RepositoryHashMapImpl};

#[test]
fn created_entity_reads_back() {
    let mut repo: RepositoryHashMapImpl<i32> = RepositoryHashMapImpl::new();
    let k1 = repo.create(10);
    let k2 = repo.create(20);
    assert_ne!(k1, k2);
    assert_eq!(*repo.get(&k1), 10);
    assert_eq!(*repo.get(&k2), 20);
}

#[test]
fn update_replaces_and_inserts() {
    let mut repo: RepositoryHashMapImpl<&str> = RepositoryHashMapImpl::new();
    repo.update("a".to_string(), "first");
    repo.update("b".to_string(), "second");
    repo.update("a".to_string(), "third");
    assert_eq!(*repo.get("a"), "third");
    assert_eq!(*repo.get("b"), "second");
    assert_eq!(repo.list().len(), 2);
}

#[test]
fn delete_removes_only_that_key() {
    let mut repo: RepositoryHashMapImpl<i32> = RepositoryHashMapImpl::new();
    repo.update("a".to_string(), 1);
    repo.update("b".to_string(), 2);
    repo.delete("a");
    let listed = repo.list();
    assert_eq!(listed.len(), 1);
    assert_eq!(listed[0].id, "b");
    assert_eq!(*listed[0].entity, 2);
    repo.delete("missing");
    assert_eq!(repo.list().len(), 1);
}

#[test]
fn delete_undoes_create() {
    let mut repo: RepositoryHashMapImpl<i32> = RepositoryHashMapImpl::new();
    repo.update("keep".to_string(), 7);
    let k = repo.create(8);
    repo.delete(&k);
    let listed = repo.list();
    assert_eq!(listed.len(), 1);
    assert_eq!(listed[0].id, "keep");
}

#[test]
fn list_holds_every_entry_once() {
    let mut repo: RepositoryHashMapImpl<u8> = RepositoryHashMapImpl::new();
    for i in 0..5u8 {
        repo.update(format!("k{}", i), i);
    }
    let mut listed: Vec<(String, u8)> = repo.list().iter().map(|e| (e.id.to_string(), *e.entity)).collect();
    listed.sort();
    assert_eq!(listed, (0..5u8).map(|i| (format!("k{}", i), i)).collect::<Vec<_>>());
}

#[test]
fn get_mut_changes_in_place() {
    let mut repo: RepositoryHashMapImpl<Vec<i32>> = RepositoryHashMapImpl::new();
    let k = repo.create(vec![1]);
    repo.get_mut(&k).push(2);
    assert_eq!(*repo.get(&k), vec![1, 2]);
}

#[test]
fn load_table_replaces_contents_later_key_wins() {
    let mut repo: RepositoryHashMapImpl<i32> = RepositoryHashMapImpl::new();
    repo.update("old".to_string(), 1);
    repo.load_table(vec![
        Entity::new("a".to_string(), 10),
        Entity::new("b".to_string(), 20),
        Entity::new("a".to_string(), 30),
    ]);
    let mut listed: Vec<(String, i32)> = repo.list().iter().map(|e| (e.id.to_string(), *e.entity)).collect();
    listed.sort();
    assert_eq!(listed, vec![("a".to_string(), 30), ("b".to_string(), 20)]);
}

#[test]
fn load_after_list_rebuilds_table() {
    let mut repo: RepositoryHashMapImpl<i32> = RepositoryHashMapImpl::new();
    let k1 = repo.create(4);
    let k2 = repo.create(5);
    let saved: Vec<Entity<i32, String>> =
        repo.list().iter().map(|e| Entity::new(e.id.to_string(), *e.entity)).collect();
    let mut other: RepositoryHashMapImpl<i32> = RepositoryHashMapImpl::new();
    other.update("stale".to_string(), 0);
    other.load_table(saved);
    assert_eq!(*other.get(&k1), 4);
    assert_eq!(*other.get(&k2), 5);
    assert_eq!(other.list().len(), 2);
}

#[test]
fn created_key_is_a_v4_uuid() {
    let mut repo: RepositoryHashMapImpl<u8> = RepositoryHashMapImpl::new();
    let key = repo.create(1);
    let cs: Vec<char> = key.chars().collect();
    assert_eq!(cs.len(), 36);
    for (i, c) in cs.iter().enumerate() {
        if i == 8 || i == 13 || i == 18 || i == 23 {
            assert_eq!(*c, '-');
        } else {
            assert!(c.is_ascii_hexdigit() && !c.is_ascii_uppercase());
        }
    }
    assert_eq!(cs[14], '4');
    assert!(matches!(cs[19], '8' | '9' | 'a' | 'b'));
}
