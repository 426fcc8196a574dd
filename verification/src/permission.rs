use vstd::prelude::*;
use vstd::string::*;
use crate::model::{ErrorView, NodeView, Role, User, UserView, VfsError, VfsNode, VfsOp};
use crate::model::{PERM_EXEC, PERM_READ, PERM_WRITE};
use crate::text::{same_chars, starts_with, to_chars};

verus! {

/// The permission bit that an operation needs.
pub open spec fn required_bit(op: VfsOp) -> i16 {
    match op {
        VfsOp::ReadDir | VfsOp::ReadFile => PERM_READ,
        VfsOp::WriteFile | VfsOp::CreateDir | VfsOp::Delete | VfsOp::Rename => PERM_WRITE,
        VfsOp::Execute => PERM_EXEC,
    }
}

/// Whether the operation only reads.
pub open spec fn is_read(op: VfsOp) -> bool {
    op == VfsOp::ReadDir || op == VfsOp::ReadFile
}

/// Whether the operation changes the tree.
pub open spec fn is_mutating(op: VfsOp) -> bool {
    op == VfsOp::WriteFile || op == VfsOp::CreateDir || op == VfsOp::Delete || op == VfsOp::Rename
}

/// The three bits that count for the requester: the owner's where the
/// requester owns the node, else those of everybody else. The group's bits
/// are never read.
pub open spec fn slot_bits(permissions: i16, is_owner: bool) -> i16 {
    if is_owner {
        (permissions >> 6) & 0o7
    } else {
        permissions & 0o7
    }
}

/// Whether the permission bits let the requester do the operation.
pub open spec fn bits_allow(permissions: i16, is_owner: bool, op: VfsOp) -> bool {
    slot_bits(permissions, is_owner) & required_bit(op) == required_bit(op)
}

/// The directory that guests are confined to, with its closing slash.
pub open spec fn guest_prefix() -> Seq<char> {
    "/home/guest/"@
}

/// The home directory of the user called `username`.
pub open spec fn home_of(username: Seq<char>) -> Seq<char> {
    "/home/"@ + username
}

/// The home directory of the user called `username`, with a closing slash.
pub open spec fn home_prefix_of(username: Seq<char>) -> Seq<char> {
    "/home/"@ + username + "/"@
}

/// The name of an operation as it stands in messages.
pub open spec fn op_name(op: VfsOp) -> Seq<char> {
    match op {
        VfsOp::ReadDir => "ReadDir"@,
        VfsOp::ReadFile => "ReadFile"@,
        VfsOp::WriteFile => "WriteFile"@,
        VfsOp::CreateDir => "CreateDir"@,
        VfsOp::Delete => "Delete"@,
        VfsOp::Rename => "Rename"@,
        VfsOp::Execute => "Execute"@,
    }
}

/// The message of a denial by the permission bits.
pub open spec fn bits_denial(username: Seq<char>, op: VfsOp) -> Seq<char> {
    "用户 "@ + username + " 没有执行 "@ + op_name(op) + " 操作的权限"@
}

/// The message for a guest outside the guest directory.
pub open spec fn guest_path_denial() -> Seq<char> {
    "访客用户只能访问 /home/guest/ 目录"@
}

/// The message for a guest who asks for more than reading.
pub open spec fn guest_write_denial() -> Seq<char> {
    "访客用户只有读权限"@
}

/// The message for an author who writes outside the own home directory.
pub open spec fn author_write_denial() -> Seq<char> {
    "作者用户只能在自己的目录下执行写操作"@
}

/// The message for a guest who enters a directory outside the guest directory.
pub open spec fn guest_enter_denial() -> Seq<char> {
    "访客用户只能进入 /home/guest/ 目录"@
}

/// The message for an author who enters a directory outside the own home.
pub open spec fn author_enter_denial() -> Seq<char> {
    "作者用户只能进入自己的目录"@
}

/// What the sandbox rules of the roles say once the permission bits have let
/// the operation pass.
pub open spec fn sandbox_spec(user: UserView, node: NodeView, op: VfsOp) -> Result<(), ErrorView> {
    if user.roles.contains(Role::Guest) && !guest_prefix().is_prefix_of(node.name) {
        Err(ErrorView::PermissionError(guest_path_denial()))
    } else if user.roles.contains(Role::Guest) && !is_read(op) {
        Err(ErrorView::PermissionError(guest_write_denial()))
    } else if user.roles.contains(Role::Author) && !home_prefix_of(user.username).is_prefix_of(
        node.name,
    ) && is_mutating(op) {
        Err(ErrorView::PermissionError(author_write_denial()))
    } else {
        Ok(())
    }
}

/// The decision on an operation of `user` on `node`: an administrator may do
/// anything; anybody else needs the permission bit of the operation and
/// must stay inside the sandbox of each role held.
pub open spec fn check_spec(user: UserView, node: NodeView, op: VfsOp) -> Result<(), ErrorView> {
    if user.roles.contains(Role::Admin) {
        Ok(())
    } else if !bits_allow(node.permissions, user.id == node.owner_id, op) {
        Err(ErrorView::PermissionError(bits_denial(user.username, op)))
    } else {
        sandbox_spec(user, node, op)
    }
}

/// The decision on entering the directory `path`.
pub open spec fn can_enter_spec(user: UserView, path: Seq<char>) -> Result<(), ErrorView> {
    if user.roles.contains(Role::Admin) {
        Ok(())
    } else if user.roles.contains(Role::Guest) && !guest_prefix().is_prefix_of(path) {
        Err(ErrorView::PermissionError(guest_enter_denial()))
    } else if user.roles.contains(Role::Author) && !home_of(user.username).is_prefix_of(path) {
        Err(ErrorView::PermissionError(author_enter_denial()))
    } else {
        Ok(())
    }
}

/// Whether `user` may create a directory below `path`: an administrator
/// anywhere, anybody else in the own home directory and below it.
pub open spec fn can_write_spec(user: UserView, path: Seq<char>) -> bool {
    user.roles.contains(Role::Admin) || path == home_of(user.username) || home_prefix_of(
        user.username,
    ).is_prefix_of(path)
}

/// Whether an executable result has the value `expected`.
pub open spec fn outcome_is(r: Result<(), VfsError>, expected: Result<(), ErrorView>) -> bool {
    match r {
        Ok(_) => expected is Ok,
        Err(e) => expected == Err::<(), ErrorView>(e@),
    }
}

/// An administrator is allowed every operation on every node.
pub proof fn lemma_admin_allowed(user: UserView, node: NodeView, op: VfsOp)
    requires
        user.roles.contains(Role::Admin),
    ensures
        check_spec(user, node, op) is Ok,
{
}

/// A guest who is no administrator is denied every operation, reading too,
/// on a node outside the guest directory, whatever its permission bits.
pub proof fn lemma_guest_confined(user: UserView, node: NodeView, op: VfsOp)
    requires
        user.roles.contains(Role::Guest),
        !user.roles.contains(Role::Admin),
        !guest_prefix().is_prefix_of(node.name),
    ensures
        check_spec(user, node, op) is Err,
        check_spec(user, node, op)->Err_0 is PermissionError,
{
}

/// Anybody may write in the own home directory and below it.
pub proof fn lemma_can_write_home(user: UserView, rest: Seq<char>)
    ensures
        can_write_spec(user, home_of(user.username)),
        can_write_spec(user, home_prefix_of(user.username) + rest),
{
    let p = home_prefix_of(user.username);
    assert((p + rest).subrange(0, p.len() as int) =~= p);
}

/// Who is no administrator may not write in the home directory of another.
pub proof fn lemma_cannot_write_elsewhere(user: UserView, other: Seq<char>)
    requires
        !user.roles.contains(Role::Admin),
        other != user.username,
        !(user.username + "/"@).is_prefix_of(other),
    ensures
        !can_write_spec(user, home_of(other)),
{
    let lead = "/home/"@;
    let u = user.username;
    if home_of(other) == home_of(u) {
        assert((lead + other).skip(lead.len() as int) =~= other);
        assert((lead + u).skip(lead.len() as int) =~= u);
    }
    let p = home_prefix_of(u);
    if p.is_prefix_of(home_of(other)) {
        let tail = u + "/"@;
        assert(p =~= lead + tail);
        assert(p.len() <= (lead + other).len());
        assert(p == (lead + other).subrange(0, p.len() as int));
        assert forall|k: int| 0 <= k < tail.len() implies tail[k] == other[k] by {
            assert(p[lead.len() + k] == tail[k]);
            assert((lead + other)[lead.len() + k] == other[k]);
        }
        assert(tail =~= other.subrange(0, tail.len() as int));
    }
}

/// The name of an operation as it stands in messages.
fn op_label(op: &VfsOp) -> (r: &'static str)
    ensures
        r@ == op_name(*op),
{
    match op {
        VfsOp::ReadDir => "ReadDir",
        VfsOp::ReadFile => "ReadFile",
        VfsOp::WriteFile => "WriteFile",
        VfsOp::CreateDir => "CreateDir",
        VfsOp::Delete => "Delete",
        VfsOp::Rename => "Rename",
        VfsOp::Execute => "Execute",
    }
}

/// The characters of the home directory of `username`, with a closing slash
/// where `closed` is set.
fn home_chars(username: &str, closed: bool) -> (r: Vec<char>)
    ensures
        closed ==> r@ == home_prefix_of(username@),
        !closed ==> r@ == home_of(username@),
{
    let mut home = "/home/".to_owned();
    home.append(username);
    if closed {
        home.append("/");
    }
    to_chars(home.as_str())
}

/// Decides by permission bits and sandbox rules. It holds no state.
pub struct PermissionManager;

impl PermissionManager {
    /// Decides whether `user` may do `op` on `node`.
    pub fn check(user: &User, node: &VfsNode, op: &VfsOp) -> (r: Result<(), VfsError>)
        ensures
            outcome_is(r, check_spec(user@, node@, *op)),
            user@.roles.contains(Role::Admin) ==> r is Ok,
    {
        if user.has_role(Role::Admin) {
            return Ok(());
        }
        let required: i16 = match op {
            VfsOp::ReadDir | VfsOp::ReadFile => PERM_READ,
            VfsOp::WriteFile | VfsOp::CreateDir | VfsOp::Delete | VfsOp::Rename => PERM_WRITE,
            VfsOp::Execute => PERM_EXEC,
        };
        let is_owner = user.id == node.owner_id;
        let perms: i16 = node.permissions;
        let owner_perm: i16 = (perms >> 6) & 0o7;
        let other_perm: i16 = perms & 0o7;
        let has_permission = if is_owner {
            (owner_perm & required) == required
        } else {
            (other_perm & required) == required
        };
        if !has_permission {
            let mut msg = "用户 ".to_owned();
            msg.append(user.username.as_str());
            msg.append(" 没有执行 ");
            msg.append(op_label(op));
            msg.append(" 操作的权限");
            return Err(VfsError::PermissionError(msg));
        }
        Self::check_special_paths(user, node, op)
    }

    /// Applies the sandbox rules of the roles that `user` holds.
    fn check_special_paths(user: &User, node: &VfsNode, op: &VfsOp) -> (r: Result<(), VfsError>)
        ensures
            outcome_is(r, sandbox_spec(user@, node@, *op)),
    {
        let name = to_chars(node.name.as_str());
        if user.has_role(Role::Guest) {
            let prefix = to_chars("/home/guest/");
            if !starts_with(&name, &prefix) {
                return Err(VfsError::PermissionError("访客用户只能访问 /home/guest/ 目录".to_owned()));
            }
            match op {
                VfsOp::ReadDir | VfsOp::ReadFile => {},
                _ => {
                    return Err(VfsError::PermissionError("访客用户只有读权限".to_owned()));
                },
            }
        }
        if user.has_role(Role::Author) {
            let home = home_chars(user.username.as_str(), true);
            if !starts_with(&name, &home) {
                match op {
                    VfsOp::WriteFile | VfsOp::CreateDir | VfsOp::Delete | VfsOp::Rename => {
                        return Err(
                            VfsError::PermissionError(
                                "作者用户只能在自己的目录下执行写操作".to_owned(),
                            ),
                        );
                    },
                    _ => {},
                }
            }
        }
        Ok(())
    }

    /// Decides whether `user` may make `path` the working directory. The
    /// permission bits play no part in it.
    pub fn can_enter(user: &User, path: &str) -> (r: Result<(), VfsError>)
        ensures
            outcome_is(r, can_enter_spec(user@, path@)),
    {
        if user.has_role(Role::Admin) {
            return Ok(());
        }
        let target = to_chars(path);
        if user.has_role(Role::Guest) {
            let prefix = to_chars("/home/guest/");
            if !starts_with(&target, &prefix) {
                return Err(VfsError::PermissionError("访客用户只能进入 /home/guest/ 目录".to_owned()));
            }
        }
        if user.has_role(Role::Author) {
            let home = home_chars(user.username.as_str(), false);
            if !starts_with(&target, &home) {
                return Err(VfsError::PermissionError("作者用户只能进入自己的目录".to_owned()));
            }
        }
        Ok(())
    }

    /// Whether `user` may create a directory below `path`. The permission
    /// bits play no part in it.
    pub fn can_write(user: &User, path: &str) -> (r: bool)
        ensures
            r == can_write_spec(user@, path@),
    {
        if user.has_role(Role::Admin) {
            return true;
        }
        let target = to_chars(path);
        let home = home_chars(user.username.as_str(), false);
        let home_prefix = home_chars(user.username.as_str(), true);
        same_chars(&target, &home) || starts_with(&target, &home_prefix)
    }
}

} // verus!
