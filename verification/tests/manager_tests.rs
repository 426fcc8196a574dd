use vfs_core::manager::VfsManager;
use vfs_core::memory::MemoryStore;
use vfs_core::model::{Role, User, VfsError};
use vfs_core::storage::{creation_bits_for, nominal_parent_of, StorageBackend};

fn user(id: &str, name: &str, roles: Vec<Role>) -> User {
    User { id: id.to_string(), username: name.to_string(), roles }
}

fn admin() -> User {
    user("system", "system", vec![Role::Admin])
}

fn with_home() -> VfsManager<MemoryStore> {
    let mut m = VfsManager::new(MemoryStore::new());
    m.create_dir(&admin(), "/home", "/").unwrap();
    m
}

#[test]
fn new_store_holds_the_root_alone() {
    let store = MemoryStore::new();
    let root = store.get_node("/").unwrap();
    assert_eq!(root.id, 1);
    assert_eq!(root.parent_id, None);
    assert_eq!(root.name, "/");
    assert!(root.is_dir);
    assert_eq!(root.owner_id, "system");
    assert_eq!(root.permissions, 0o777);
    assert_eq!(root.created_at, root.updated_at);
    assert!(root.created_at > 0);
    assert!(store.list("/").unwrap().is_empty());
}

#[test]
fn home_directory_of_the_owner_is_wide_open() {
    let mut m = with_home();
    let alice_admin = user("alice", "alice", vec![Role::Admin]);
    let node = m.create_dir(&alice_admin, "/home/alice", "/").unwrap();
    assert_eq!(node.name, "/home/alice");
    assert_eq!(node.owner_id, alice_admin.id);
    assert_eq!(node.permissions, 0o777);
    assert!(node.is_dir);
    let home = m.backend().get_node("/home").unwrap();
    assert_eq!(node.parent_id, Some(home.id));
    assert_eq!(home.permissions, 0o777);
}

#[test]
fn other_directories_get_default_bits() {
    let mut m = with_home();
    let node = m.create_dir(&admin(), "/home/alice", "/").unwrap();
    assert_eq!(node.owner_id, "system");
    assert_eq!(node.permissions, 0o755);
    let deep = m.create_dir(&admin(), "docs", "/home/alice").unwrap();
    assert_eq!(deep.name, "/home/alice/docs");
    assert_eq!(deep.permissions, 0o755);
    assert_eq!(deep.parent_id, Some(node.id));
}

#[test]
fn listing_shows_exactly_the_children() {
    let mut m = with_home();
    m.create_dir(&admin(), "/home/alice", "/").unwrap();
    m.update_node_owner("/home/alice", "a1").unwrap();
    let alice = user("a1", "alice", vec![Role::Author]);
    m.create_dir(&alice, "/home/alice/docs", "/").unwrap();
    let listed = m.list_dir(&alice, ".", "/home/alice/").unwrap();
    assert_eq!(listed.len(), 1);
    assert_eq!(listed[0].name, "/home/alice/docs");
    assert_eq!(listed[0].owner_id, "a1");
    m.create_dir(&alice, "docs/deep", "/home/alice").unwrap();
    assert_eq!(m.list_dir(&alice, ".", "/home/alice/").unwrap().len(), 1);
    assert_eq!(m.list_dir(&alice, "docs", "/home/alice/").unwrap().len(), 1);
    assert!(m.list_dir(&alice, "docs/deep", "/home/alice/").unwrap().is_empty());
}

#[test]
fn create_dir_refusals() {
    let mut m = with_home();
    m.create_dir(&admin(), "/home/alice", "/").unwrap();
    assert!(matches!(m.create_dir(&admin(), "/home/alice", "/"), Err(VfsError::NodeExists(_))));
    assert!(matches!(m.create_dir(&admin(), "/nowhere/x", "/"), Err(VfsError::NodeNotFound(_))));
    assert!(matches!(m.create_dir(&admin(), "/", "/"), Err(VfsError::PathError(_))));
    assert!(matches!(m.create_dir(&admin(), "..", "/home"), Err(VfsError::PathError(_))));
    let bob = user("b2", "bob", vec![Role::Author]);
    match m.create_dir(&bob, "/home/alice/x", "/") {
        Err(VfsError::PermissionError(msg)) => {
            assert_eq!(msg, "作者用户只能在自己的目录下执行写操作")
        }
        other => panic!("unexpected: {:?}", other),
    }
    assert!(m.backend().get_node("/home/alice/x").is_err());
}

#[test]
fn store_create_dir_refusals() {
    let mut store = MemoryStore::new();
    assert!(matches!(
        store.create_dir("/", "system".to_string()),
        Err(VfsError::InvalidOperation(_))
    ));
    assert!(matches!(
        store.create_dir("/a/b", "system".to_string()),
        Err(VfsError::NodeNotFound(_))
    ));
    let a = store.create_dir("/a", "system".to_string()).unwrap();
    assert_eq!(a.id, 2);
    assert_eq!(a.parent_id, Some(1));
    assert!(matches!(store.create_dir("/a", "system".to_string()), Err(VfsError::NodeExists(_))));
    let b = store.create_dir("/a/b/", "system".to_string()).unwrap();
    assert_eq!(b.name, "/a/b/");
    assert_eq!(b.parent_id, Some(a.id));
}

#[test]
fn create_dir_ignores_permission_bits_of_parent() {
    let mut m = with_home();
    m.create_dir(&admin(), "/home/alice", "/").unwrap();
    let alice = user("a1", "alice", vec![Role::Author]);
    let node = m.create_dir(&alice, "docs", "/home/alice").unwrap();
    assert_eq!(node.owner_id, "a1");
    let foreign = m.backend().get_node("/home/alice").unwrap();
    assert_eq!(foreign.owner_id, "system");
    assert_eq!(foreign.permissions, 0o755);
}

#[test]
fn rename_moves_the_node() {
    let mut m = with_home();
    let made = m.create_dir(&admin(), "/home/old", "/").unwrap();
    m.rename(&admin(), "old", "new", "/home").unwrap();
    let moved = m.backend().get_node("/home/new").unwrap();
    assert_eq!(moved.id, made.id);
    assert_eq!(moved.owner_id, made.owner_id);
    assert_eq!(moved.permissions, made.permissions);
    assert_eq!(moved.updated_at, made.updated_at);
    assert!(matches!(m.backend().get_node("/home/old"), Err(VfsError::NodeNotFound(_))));
}

#[test]
fn rename_refusals() {
    let mut m = with_home();
    m.create_dir(&admin(), "/home/a", "/").unwrap();
    m.create_dir(&admin(), "/home/b", "/").unwrap();
    assert!(matches!(m.rename(&admin(), "/home/x", "/home/y", "/"), Err(VfsError::NodeNotFound(_))));
    assert!(matches!(m.rename(&admin(), "/home/a", "/home/b", "/"), Err(VfsError::NodeExists(_))));
    assert!(m.rename(&admin(), "/home/a", "/home/a", "/").is_ok());
    assert!(m.backend().get_node("/home/a").is_ok());
    let guest = user("g", "guest", vec![Role::Guest]);
    assert!(matches!(
        m.rename(&guest, "/home/a", "/home/c", "/"),
        Err(VfsError::PermissionError(_))
    ));
    assert!(m.backend().get_node("/home/a").is_ok());
}

#[test]
fn delete_cascades_to_descendants() {
    let mut m = with_home();
    m.create_dir(&admin(), "/home/a", "/").unwrap();
    m.create_dir(&admin(), "/home/a/b", "/").unwrap();
    m.create_dir(&admin(), "/home/a/b/c", "/").unwrap();
    m.create_dir(&admin(), "/home/z", "/").unwrap();
    m.rename(&admin(), "/home/a/b/c", "/elsewhere", "/").unwrap();
    m.delete(&admin(), "a", "/home").unwrap();
    for gone in ["/home/a", "/home/a/b", "/elsewhere"] {
        assert!(matches!(m.backend().get_node(gone), Err(VfsError::NodeNotFound(_))));
    }
    assert!(m.backend().get_node("/home/z").is_ok());
    assert!(m.backend().get_node("/home").is_ok());
    assert_eq!(m.list_dir(&admin(), "/home", "/").unwrap().len(), 1);
    assert!(matches!(m.delete(&admin(), "a", "/home"), Err(VfsError::NodeNotFound(_))));
}

#[test]
fn delete_needs_permission() {
    let mut m = with_home();
    m.create_dir(&admin(), "/home/alice", "/").unwrap();
    let bob = user("b2", "bob", vec![Role::Author]);
    assert!(matches!(m.delete(&bob, "/home/alice", "/"), Err(VfsError::PermissionError(_))));
    assert!(m.backend().get_node("/home/alice").is_ok());
}

#[test]
fn list_dir_refusals() {
    let m = with_home();
    assert!(matches!(m.list_dir(&admin(), "/nowhere", "/"), Err(VfsError::NodeNotFound(_))));
    let guest = user("g", "guest", vec![Role::Guest]);
    assert!(matches!(m.list_dir(&guest, "/home", "/"), Err(VfsError::PermissionError(_))));
}

#[test]
fn update_node_owner_hands_the_node_over() {
    let mut m = with_home();
    let made = m.create_dir(&admin(), "/home/alice", "/").unwrap();
    m.update_node_owner("/home/alice", "a1").unwrap();
    let node = m.backend().get_node("/home/alice").unwrap();
    assert_eq!(node.owner_id, "a1");
    assert_eq!(node.id, made.id);
    assert_eq!(node.permissions, made.permissions);
    assert_eq!(node.created_at, made.created_at);
    assert!(node.updated_at >= made.updated_at);
    assert!(matches!(m.update_node_owner("/home/bob", "b2"), Err(VfsError::NodeNotFound(_))));
}

#[test]
fn update_node_stores_bits_and_owner() {
    let mut store = MemoryStore::new();
    let mut node = store.create_dir("/a", "system".to_string()).unwrap();
    node.permissions = 0o700;
    node.owner_id = "a1".to_string();
    node.name = "/ignored".to_string();
    store.update_node(&node).unwrap();
    let back = store.get_node("/a").unwrap();
    assert_eq!(back.permissions, 0o700);
    assert_eq!(back.owner_id, "a1");
    node.id = 99;
    assert!(matches!(store.update_node(&node), Err(VfsError::NodeNotFound(_))));
}

#[test]
fn pwd_returns_cwd_unchanged() {
    let m = with_home();
    assert_eq!(m.pwd("/home/alice/"), "/home/alice/");
    assert_eq!(m.pwd("not//canonical/.."), "not//canonical/..");
}

#[test]
fn nominal_parent_examples() {
    assert_eq!(nominal_parent_of("/a/b"), "/a");
    assert_eq!(nominal_parent_of("/a"), "/");
    assert_eq!(nominal_parent_of("/a/b///"), "/a");
    assert_eq!(nominal_parent_of("a"), "/");
    assert_eq!(nominal_parent_of("//"), "/");
}

#[test]
fn creation_bits_examples() {
    assert_eq!(creation_bits_for("/home", "x"), 0o777);
    assert_eq!(creation_bits_for("/home/x", "x"), 0o777);
    assert_eq!(creation_bits_for("/home/y", "x"), 0o755);
    assert_eq!(creation_bits_for("/home/x/y", "x"), 0o755);
}

#[test]
fn created_home_is_found_and_owned_by_the_requester() {
    let mut m = with_home();
    let admin_user = user("alice", "root", vec![Role::Admin]);
    let node = m.create_dir(&admin_user, "/home/alice", "/").unwrap();
    assert_eq!(node.name, "/home/alice");
    assert_eq!(node.owner_id, "alice");
    assert_eq!(node.permissions, 0o777);
    let again = m.backend().get_node("/home/alice").unwrap();
    assert_eq!(again.id, node.id);
    assert_eq!(again.created_at, node.created_at);
}

#[test]
fn deleting_the_root_empties_the_store() {
    let mut m = with_home();
    m.create_dir(&admin(), "/home/a", "/").unwrap();
    m.delete(&admin(), "/", "/").unwrap();
    assert!(matches!(m.backend().get_node("/"), Err(VfsError::NodeNotFound(_))));
    assert!(matches!(m.backend().get_node("/home/a"), Err(VfsError::NodeNotFound(_))));
    assert!(matches!(m.create_dir(&admin(), "/x", "/"), Err(VfsError::NodeNotFound(_))));
}

#[test]
fn identifiers_are_never_given_twice() {
    let mut store = MemoryStore::new();
    let a = store.create_dir("/a", "s".to_string()).unwrap();
    store.delete("/a").unwrap();
    let b = store.create_dir("/b", "s".to_string()).unwrap();
    assert!(b.id > a.id);
}
