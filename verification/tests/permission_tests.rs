use vfs_core::model::{Role, User, VfsError, VfsNode, VfsOp};
use vfs_core::permission::PermissionManager;

fn user(id: &str, name: &str, roles: Vec<Role>) -> User {
    User { id: id.to_string(), username: name.to_string(), roles }
}

fn node(path: &str, owner: &str, bits: i16) -> VfsNode {
    VfsNode {
        id: 7,
        parent_id: Some(1),
        name: path.to_string(),
        is_dir: true,
        owner_id: owner.to_string(),
        permissions: bits,
        created_at: 0,
        updated_at: 0,
    }
}

const ALL_OPS: [VfsOp; 7] = [
    VfsOp::ReadDir,
    VfsOp::ReadFile,
    VfsOp::WriteFile,
    VfsOp::CreateDir,
    VfsOp::Delete,
    VfsOp::Rename,
    VfsOp::Execute,
];

fn denied(r: Result<(), VfsError>) -> String {
    match r {
        Err(VfsError::PermissionError(m)) => m,
        other => panic!("expected a permission error, got {:?}", other),
    }
}

#[test]
fn admin_may_do_anything() {
    let admin = user("1", "root", vec![Role::Admin]);
    for op in ALL_OPS {
        assert!(PermissionManager::check(&admin, &node("/x", "other", 0), &op).is_ok());
    }
    let both = user("1", "root", vec![Role::Guest, Role::Admin]);
    assert!(PermissionManager::check(&both, &node("/x", "other", 0), &VfsOp::Delete).is_ok());
}

#[test]
fn guest_is_confined_even_for_reading() {
    let guest = user("g", "guest", vec![Role::Guest]);
    let n = node("/home/bob/secret", "bob", 0o777);
    assert_eq!(
        denied(PermissionManager::check(&guest, &n, &VfsOp::ReadFile)),
        "访客用户只能访问 /home/guest/ 目录"
    );
    assert_eq!(
        denied(PermissionManager::check(&guest, &n, &VfsOp::ReadDir)),
        "访客用户只能访问 /home/guest/ 目录"
    );
    for bits in [0, 0o4, 0o444, 0o777] {
        for op in ALL_OPS {
            let n = node("/home/bob/secret", "g", bits);
            assert!(matches!(
                PermissionManager::check(&guest, &n, &op),
                Err(VfsError::PermissionError(_))
            ));
        }
    }
    let home = node("/home/guest", "g", 0o777);
    assert!(PermissionManager::check(&guest, &home, &VfsOp::ReadDir).is_err());
}

#[test]
fn guest_reads_inside_guest_directory_only() {
    let guest = user("g", "guest", vec![Role::Guest]);
    let n = node("/home/guest/notes", "someone", 0o777);
    assert!(PermissionManager::check(&guest, &n, &VfsOp::ReadDir).is_ok());
    assert!(PermissionManager::check(&guest, &n, &VfsOp::ReadFile).is_ok());
    assert_eq!(denied(PermissionManager::check(&guest, &n, &VfsOp::WriteFile)), "访客用户只有读权限");
    assert_eq!(denied(PermissionManager::check(&guest, &n, &VfsOp::Execute)), "访客用户只有读权限");
}

#[test]
fn bits_decide_by_owner_or_other_slot() {
    let alice = user("a1", "alice", vec![Role::Author]);
    let own = node("/home/alice/x", "a1", 0o700);
    assert!(PermissionManager::check(&alice, &own, &VfsOp::ReadDir).is_ok());
    assert!(PermissionManager::check(&alice, &own, &VfsOp::WriteFile).is_ok());
    assert!(PermissionManager::check(&alice, &own, &VfsOp::Execute).is_ok());
    let foreign = node("/home/alice/x", "b2", 0o700);
    assert_eq!(
        denied(PermissionManager::check(&alice, &foreign, &VfsOp::ReadDir)),
        "用户 alice 没有执行 ReadDir 操作的权限"
    );
    let group_only = node("/home/alice/x", "b2", 0o070);
    assert!(PermissionManager::check(&alice, &group_only, &VfsOp::ReadFile).is_err());
    let other_read = node("/home/alice/x", "b2", 0o004);
    assert!(PermissionManager::check(&alice, &other_read, &VfsOp::ReadFile).is_ok());
    assert_eq!(
        denied(PermissionManager::check(&alice, &other_read, &VfsOp::Delete)),
        "用户 alice 没有执行 Delete 操作的权限"
    );
    let owner_read_only = node("/home/alice/x", "a1", 0o477);
    assert!(PermissionManager::check(&alice, &owner_read_only, &VfsOp::Rename).is_err());
}

#[test]
fn author_writes_below_own_home_only() {
    let alice = user("a1", "alice", vec![Role::Author]);
    let elsewhere = node("/home/bob/x", "a1", 0o777);
    for op in [VfsOp::WriteFile, VfsOp::CreateDir, VfsOp::Delete, VfsOp::Rename] {
        assert_eq!(
            denied(PermissionManager::check(&alice, &elsewhere, &op)),
            "作者用户只能在自己的目录下执行写操作"
        );
    }
    for op in [VfsOp::ReadDir, VfsOp::ReadFile, VfsOp::Execute] {
        assert!(PermissionManager::check(&alice, &elsewhere, &op).is_ok());
    }
    let home_itself = node("/home/alice", "a1", 0o777);
    assert!(PermissionManager::check(&alice, &home_itself, &VfsOp::Delete).is_err());
    let inside = node("/home/alice/x", "a1", 0o777);
    assert!(PermissionManager::check(&alice, &inside, &VfsOp::Delete).is_ok());
}

#[test]
fn user_without_roles_is_held_to_bits_only() {
    let nobody = user("n", "nobody", vec![]);
    assert!(PermissionManager::check(&nobody, &node("/x", "n", 0o200), &VfsOp::Delete).is_ok());
    assert!(PermissionManager::check(&nobody, &node("/x", "n", 0o500), &VfsOp::Delete).is_err());
}

#[test]
fn can_write_own_home_and_below() {
    let u = user("u1", "u", vec![Role::Author]);
    assert!(PermissionManager::can_write(&u, "/home/u"));
    assert!(PermissionManager::can_write(&u, "/home/u/x"));
    assert!(!PermissionManager::can_write(&u, "/home/other"));
    assert!(!PermissionManager::can_write(&u, "/home/u2"));
    assert!(!PermissionManager::can_write(&u, "/home"));
    assert!(!PermissionManager::can_write(&u, "/"));
    let admin = user("1", "root", vec![Role::Admin]);
    assert!(PermissionManager::can_write(&admin, "/anywhere"));
}

#[test]
fn can_enter_follows_roles_not_bits() {
    let admin = user("1", "root", vec![Role::Admin]);
    assert!(PermissionManager::can_enter(&admin, "/etc").is_ok());
    let guest = user("g", "guest", vec![Role::Guest]);
    assert!(PermissionManager::can_enter(&guest, "/home/guest/x").is_ok());
    assert_eq!(
        denied(PermissionManager::can_enter(&guest, "/home/guest")),
        "访客用户只能进入 /home/guest/ 目录"
    );
    let alice = user("a1", "alice", vec![Role::Author]);
    assert!(PermissionManager::can_enter(&alice, "/home/alice").is_ok());
    assert!(PermissionManager::can_enter(&alice, "/home/alice/docs").is_ok());
    assert!(PermissionManager::can_enter(&alice, "/home/alice2").is_ok());
    assert_eq!(denied(PermissionManager::can_enter(&alice, "/home/bob")), "作者用户只能进入自己的目录");
}

#[test]
fn errors_describe_themselves() {
    assert_eq!(VfsError::PathError("x".to_string()).describe(), "路径错误: x");
    assert_eq!(VfsError::PermissionError("x".to_string()).describe(), "权限错误: x");
    assert_eq!(VfsError::StorageError("x".to_string()).describe(), "存储错误: x");
    assert_eq!(VfsError::NodeNotFound("x".to_string()).describe(), "节点不存在: x");
    assert_eq!(VfsError::NodeExists("x".to_string()).describe(), "节点已存在: x");
    assert_eq!(VfsError::InvalidOperation("".to_string()).describe(), "无效操作: ");
    assert_eq!(VfsError::IoError("x".to_string()).describe(), "I/O错误: x");
    assert_eq!(VfsError::DbError("x".to_string()).describe(), "数据库错误: x");
}

#[test]
fn guest_on_foreign_secret_is_denied_whatever_the_bits() {
    let guest = user("g", "guest", vec![Role::Guest]);
    for bits in 0..=0o777 {
        let n = node("/home/bob/secret", "bob", bits);
        assert!(matches!(
            PermissionManager::check(&guest, &n, &VfsOp::ReadFile),
            Err(VfsError::PermissionError(_))
        ));
    }
}

#[test]
fn permission_bits_in_octal() {
    assert_eq!(node("/x", "o", 0o755).permission_text(), "755");
    assert_eq!(node("/x", "o", 0o777).permission_text(), "777");
    assert_eq!(node("/x", "o", 0).permission_text(), "0");
    assert_eq!(node("/x", "o", 0o7).permission_text(), "7");
    assert_eq!(node("/x", "o", 755).permission_text(), "1363");
    assert_eq!(node("/x", "o", -1).permission_text(), "177777");
}
