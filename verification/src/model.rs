use vstd::prelude::*;
use vstd::string::*;
use crate::text::{octal, push_octal};

verus! {

/// Identifier that a store assigns to a node when it creates it.
pub type NodeId = i64;

/// Permission bit for reading.
pub const PERM_READ: i16 = 0o4;

/// Permission bit for writing.
pub const PERM_WRITE: i16 = 0o2;

/// Permission bit for executing.
pub const PERM_EXEC: i16 = 0o1;

/// Bits of a newly created directory: `rwxr-xr-x`.
pub const DEFAULT_DIR_PERM: i16 = 0o755;

/// Bits of a newly created file: `rw-r--r--`.
pub const DEFAULT_FILE_PERM: i16 = 0o644;

/// Bits of the bootstrap directories (`/home` and a user's home): `rwxrwxrwx`.
pub const OPEN_DIR_PERM: i16 = 0o777;

/// The closed set of roles a requester may hold.
#[derive(Clone, Copy, Debug, PartialEq, Eq, Structural)]
pub enum Role {
    Admin,
    Author,
    Guest,
}

/// What a requester intends to do with a node.
#[derive(Clone, Copy, Debug, PartialEq, Eq, Structural)]
pub enum VfsOp {
    ReadDir,
    ReadFile,
    WriteFile,
    CreateDir,
    Delete,
    Rename,
    Execute,
}

/// A directory or file entry. `name` holds the node's canonical absolute
/// path, which is the key a store finds it by. The two timestamps are
/// microseconds since the Unix epoch.
#[derive(Debug)]
pub struct VfsNode {
    pub id: NodeId,
    pub parent_id: Option<NodeId>,
    pub name: String,
    pub is_dir: bool,
    pub owner_id: String,
    pub permissions: i16,
    pub created_at: i64,
    pub updated_at: i64,
}

/// Mathematical value of a [`VfsNode`].
pub struct NodeView {
    pub id: NodeId,
    pub parent_id: Option<NodeId>,
    pub name: Seq<char>,
    pub is_dir: bool,
    pub owner_id: Seq<char>,
    pub permissions: i16,
    pub created_at: i64,
    pub updated_at: i64,
}

impl View for VfsNode {
    type V = NodeView;

    open spec fn view(&self) -> NodeView {
        NodeView {
            id: self.id,
            parent_id: self.parent_id,
            name: self.name@,
            is_dir: self.is_dir,
            owner_id: self.owner_id@,
            permissions: self.permissions,
            created_at: self.created_at,
            updated_at: self.updated_at,
        }
    }
}

impl Clone for VfsNode {
    fn clone(&self) -> (out: VfsNode)
        ensures
            out@ == self@,
    {
        VfsNode {
            id: self.id,
            parent_id: self.parent_id,
            name: self.name.clone(),
            is_dir: self.is_dir,
            owner_id: self.owner_id.clone(),
            permissions: self.permissions,
            created_at: self.created_at,
            updated_at: self.updated_at,
        }
    }
}

impl VfsNode {
    /// Whether the permission bits lie in `[0, 0o777]`.
    pub open spec fn bits_in_range(&self) -> bool {
        0 <= self.permissions <= 0o777
    }

    /// The permission bits in octal, as they are shown to people: the 16
    /// bits of the field read as a number without sign.
    pub fn permission_text(&self) -> (r: String)
        ensures
            r@ == octal((self.permissions as u16) as nat),
    {
        let mut text = String::new();
        push_octal(&mut text, (self.permissions as u16) as u64);
        assert(Seq::<char>::empty() + octal((self.permissions as u16) as nat) =~= octal(
            (self.permissions as u16) as nat,
        ));
        text
    }
}

/// The views of a list of nodes, in order.
pub open spec fn node_views(nodes: Seq<VfsNode>) -> Seq<NodeView> {
    Seq::new(nodes.len(), |i: int| nodes[i]@)
}

/// An authenticated requester.
#[derive(Debug)]
pub struct User {
    pub id: String,
    pub username: String,
    pub roles: Vec<Role>,
}

/// Mathematical value of a [`User`].
pub struct UserView {
    pub id: Seq<char>,
    pub username: Seq<char>,
    pub roles: Seq<Role>,
}

impl View for User {
    type V = UserView;

    open spec fn view(&self) -> UserView {
        UserView { id: self.id@, username: self.username@, roles: self.roles@ }
    }
}

impl Clone for User {
    fn clone(&self) -> (out: User)
        ensures
            out@ == self@,
    {
        let mut roles: Vec<Role> = Vec::new();
        let mut i: usize = 0;
        while i < self.roles.len()
            invariant
                i <= self.roles.len(),
                roles@ == self.roles@.take(i as int),
            decreases self.roles.len() - i,
        {
            roles.push(self.roles[i]);
            i += 1;
            assert(self.roles@.take(i as int) == self.roles@.take(i - 1).push(self.roles@[i - 1]));
        }
        assert(self.roles@.take(self.roles.len() as int) == self.roles@);
        User { id: self.id.clone(), username: self.username.clone(), roles }
    }
}

impl User {
    /// Whether the user holds `role`.
    pub fn has_role(&self, role: Role) -> (r: bool)
        ensures
            r == self@.roles.contains(role),
    {
        let mut i: usize = 0;
        while i < self.roles.len()
            invariant
                i <= self.roles.len(),
                forall|k: int| 0 <= k < i ==> self.roles@[k] != role,
            decreases self.roles.len() - i,
        {
            if self.roles[i] == role {
                return true;
            }
            i += 1;
        }
        false
    }
}

/// The ways an operation can fail. Each variant carries a message for people.
#[derive(Debug)]
pub enum VfsError {
    /// The path reference cannot be resolved, e.g. the root has no parent.
    PathError(String),
    /// The permission bits or a role's sandbox rule deny the operation.
    PermissionError(String),
    /// The backing engine failed.
    StorageError(String),
    /// No node has the addressed path.
    NodeNotFound(String),
    /// A node already has the addressed path.
    NodeExists(String),
    /// The operation makes no sense, e.g. creating the root.
    InvalidOperation(String),
    /// An input or output failure, by its text.
    IoError(String),
    /// A database failure, by its text.
    DbError(String),
}

/// Mathematical value of a [`VfsError`].
pub enum ErrorView {
    PathError(Seq<char>),
    PermissionError(Seq<char>),
    StorageError(Seq<char>),
    NodeNotFound(Seq<char>),
    NodeExists(Seq<char>),
    InvalidOperation(Seq<char>),
    IoError(Seq<char>),
    DbError(Seq<char>),
}

/// The text of an error for people: what kind it is, and its message.
pub open spec fn error_text(e: ErrorView) -> Seq<char> {
    match e {
        ErrorView::PathError(m) => "路径错误: "@ + m,
        ErrorView::PermissionError(m) => "权限错误: "@ + m,
        ErrorView::StorageError(m) => "存储错误: "@ + m,
        ErrorView::NodeNotFound(m) => "节点不存在: "@ + m,
        ErrorView::NodeExists(m) => "节点已存在: "@ + m,
        ErrorView::InvalidOperation(m) => "无效操作: "@ + m,
        ErrorView::IoError(m) => "I/O错误: "@ + m,
        ErrorView::DbError(m) => "数据库错误: "@ + m,
    }
}

impl VfsError {
    /// The text of the error for people.
    pub fn describe(&self) -> (r: String)
        ensures
            r@ == error_text(self@),
    {
        let (lead, message) = match self {
            VfsError::PathError(m) => ("路径错误: ", m),
            VfsError::PermissionError(m) => ("权限错误: ", m),
            VfsError::StorageError(m) => ("存储错误: ", m),
            VfsError::NodeNotFound(m) => ("节点不存在: ", m),
            VfsError::NodeExists(m) => ("节点已存在: ", m),
            VfsError::InvalidOperation(m) => ("无效操作: ", m),
            VfsError::IoError(m) => ("I/O错误: ", m),
            VfsError::DbError(m) => ("数据库错误: ", m),
        };
        let mut text = lead.to_owned();
        text.append(message.as_str());
        text
    }
}

impl View for VfsError {
    type V = ErrorView;

    open spec fn view(&self) -> ErrorView {
        match self {
            VfsError::PathError(m) => ErrorView::PathError(m@),
            VfsError::PermissionError(m) => ErrorView::PermissionError(m@),
            VfsError::StorageError(m) => ErrorView::StorageError(m@),
            VfsError::NodeNotFound(m) => ErrorView::NodeNotFound(m@),
            VfsError::NodeExists(m) => ErrorView::NodeExists(m@),
            VfsError::InvalidOperation(m) => ErrorView::InvalidOperation(m@),
            VfsError::IoError(m) => ErrorView::IoError(m@),
            VfsError::DbError(m) => ErrorView::DbError(m@),
        }
    }
}

} // verus!
