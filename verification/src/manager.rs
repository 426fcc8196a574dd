use vstd::prelude::*;
use crate::model::{ErrorView, NodeView, User, UserView, VfsError, VfsNode, VfsOp};
use crate::model::node_views;
use crate::path_normalizer::{lemma_normalized_parent, normalize_spec, parent_spec, PathNormalizer};
use crate::permission::{can_write_spec, check_spec, PermissionManager};
use crate::storage::{children, create_verdict, failure_agrees, holds_id, holds_path};
use crate::storage::{is_created, is_updated, lookup_verdict, node_at, rename_verdict};
use crate::storage::{lemma_nominal_parent_of_normalized, lemma_rename_moves};
use crate::storage::{renamed, rows_wf, survivors, StorageBackend};

verus! {

/// The message for a path that has no parent.
pub open spec fn no_parent_message() -> Seq<char> {
    "无法获取父目录"@
}

/// The message for a requester who may not create a directory in the parent.
pub open spec fn create_denied_message() -> Seq<char> {
    "作者用户只能在自己的目录下执行写操作"@
}

/// Whether `r` is what listing the directory that `raw` addresses gives.
pub open spec fn list_dir_agrees(
    rows: Seq<NodeView>,
    reliable: bool,
    user: UserView,
    raw: Seq<char>,
    cwd: Seq<char>,
    r: Result<Vec<VfsNode>, VfsError>,
) -> bool {
    let path = normalize_spec(raw, cwd);
    match r {
        Ok(v) => {
            &&& holds_path(rows, path)
            &&& check_spec(user, node_at(rows, path), VfsOp::ReadDir) is Ok
            &&& node_views(v@) == children(rows, node_at(rows, path).id)
        },
        Err(e) => {
            ||| failure_agrees(e@, lookup_verdict(rows, path), reliable)
            ||| (holds_path(rows, path) && check_spec(user, node_at(rows, path), VfsOp::ReadDir)
                == Err::<(), ErrorView>(e@))
        },
    }
}

/// Whether `r` and the rows `after` are what creating the directory that
/// `raw` addresses gives.
pub open spec fn create_dir_agrees(
    rows: Seq<NodeView>,
    after: Seq<NodeView>,
    reliable: bool,
    user: UserView,
    raw: Seq<char>,
    cwd: Seq<char>,
    r: Result<VfsNode, VfsError>,
) -> bool {
    let path = normalize_spec(raw, cwd);
    let parent = parent_spec(path);
    match r {
        Ok(n) => {
            &&& parent is Some
            &&& holds_path(rows, parent->Some_0)
            &&& can_write_spec(user, parent->Some_0)
            &&& create_verdict(rows, path) is Proceed
            &&& is_created(n@, rows, path, user.id)
            &&& after == rows.push(n@)
        },
        Err(e) => after == rows && {
            ||| (parent is None && e@ == ErrorView::PathError(no_parent_message()))
            ||| (parent is Some && failure_agrees(
                e@,
                lookup_verdict(rows, parent->Some_0),
                reliable,
            ))
            ||| (parent is Some && holds_path(rows, parent->Some_0) && !can_write_spec(
                user,
                parent->Some_0,
            ) && e@ == ErrorView::PermissionError(create_denied_message()))
            ||| (parent is Some && holds_path(rows, parent->Some_0) && can_write_spec(
                user,
                parent->Some_0,
            ) && failure_agrees(e@, create_verdict(rows, path), reliable))
        },
    }
}

/// Whether `r` and the rows `after` are what deleting the node that `raw`
/// addresses gives.
pub open spec fn delete_agrees(
    rows: Seq<NodeView>,
    after: Seq<NodeView>,
    reliable: bool,
    user: UserView,
    raw: Seq<char>,
    cwd: Seq<char>,
    r: Result<(), VfsError>,
) -> bool {
    let path = normalize_spec(raw, cwd);
    match r {
        Ok(_) => {
            &&& holds_path(rows, path)
            &&& check_spec(user, node_at(rows, path), VfsOp::Delete) is Ok
            &&& after == survivors(rows, node_at(rows, path).id, rows.len() as int)
        },
        Err(e) => after == rows && {
            ||| failure_agrees(e@, lookup_verdict(rows, path), reliable)
            ||| (holds_path(rows, path) && check_spec(user, node_at(rows, path), VfsOp::Delete)
                == Err::<(), ErrorView>(e@))
        },
    }
}

/// Whether `r` and the rows `after` are what renaming the node that
/// `old_raw` addresses to the path that `new_raw` addresses gives.
pub open spec fn rename_agrees(
    rows: Seq<NodeView>,
    after: Seq<NodeView>,
    reliable: bool,
    user: UserView,
    old_raw: Seq<char>,
    new_raw: Seq<char>,
    cwd: Seq<char>,
    r: Result<(), VfsError>,
) -> bool {
    let from = normalize_spec(old_raw, cwd);
    let to = normalize_spec(new_raw, cwd);
    match r {
        Ok(_) => {
            &&& holds_path(rows, from)
            &&& check_spec(user, node_at(rows, from), VfsOp::Rename) is Ok
            &&& rename_verdict(rows, from, to) is Proceed
            &&& after == renamed(rows, from, to)
        },
        Err(e) => after == rows && {
            ||| failure_agrees(e@, lookup_verdict(rows, from), reliable)
            ||| (holds_path(rows, from) && check_spec(user, node_at(rows, from), VfsOp::Rename)
                == Err::<(), ErrorView>(e@))
            ||| (holds_path(rows, from) && check_spec(user, node_at(rows, from), VfsOp::Rename)
                is Ok && failure_agrees(e@, rename_verdict(rows, from, to), reliable))
        },
    }
}

/// Whether `r` and the rows `after` are what handing the node at `path` to
/// `new_owner` gives.
pub open spec fn update_owner_agrees(
    rows: Seq<NodeView>,
    after: Seq<NodeView>,
    reliable: bool,
    path: Seq<char>,
    new_owner: Seq<char>,
    r: Result<(), VfsError>,
) -> bool {
    match r {
        Ok(_) => holds_path(rows, path) && is_updated(
            rows,
            after,
            NodeView { owner_id: new_owner, ..node_at(rows, path) },
        ),
        Err(e) => after == rows && failure_agrees(e@, lookup_verdict(rows, path), reliable),
    }
}

/// The path that `raw` addresses with the path of its parent directory, or
/// the error for a path that has no parent: the root.
pub open spec fn create_target_spec(raw: Seq<char>, cwd: Seq<char>) -> Result<
    (Seq<char>, Seq<char>),
    ErrorView,
> {
    let path = normalize_spec(raw, cwd);
    match parent_spec(path) {
        Some(parent) => Ok((path, parent)),
        None => Err(ErrorView::PathError(no_parent_message())),
    }
}

/// Resolves the path of a directory that is to be created, and the path of
/// the directory it goes into.
pub fn create_target(raw_path: &str, cwd: &str) -> (r: Result<(String, String), VfsError>)
    ensures
        match r {
            Ok(found) => create_target_spec(raw_path@, cwd@) == Ok::<
                (Seq<char>, Seq<char>),
                ErrorView,
            >((found.0@, found.1@)),
            Err(e) => create_target_spec(raw_path@, cwd@) == Err::<
                (Seq<char>, Seq<char>),
                ErrorView,
            >(e@),
        },
{
    let path = match PathNormalizer::normalize(raw_path, cwd) {
        Ok(p) => p,
        Err(e) => { return Err(e); },
    };
    match PathNormalizer::parent(path.as_str()) {
        Some(parent) => Ok((path, parent)),
        None => Err(VfsError::PathError("无法获取父目录".to_owned())),
    }
}

/// Decides whether `user` may create a directory in `parent_path`, by the
/// path alone.
pub fn authorize_create(user: &User, parent_path: &str) -> (r: Result<(), VfsError>)
    ensures
        r is Ok <==> can_write_spec(user@, parent_path@),
        r is Err ==> r->Err_0@ == ErrorView::PermissionError(create_denied_message()),
{
    if PermissionManager::can_write(user, parent_path) {
        Ok(())
    } else {
        Err(VfsError::PermissionError("作者用户只能在自己的目录下执行写操作".to_owned()))
    }
}

/// Sequences every operation on the tree: resolve the path, fetch the node,
/// authorize, act. The first failure ends the operation and is handed to the
/// caller as it is.
pub struct VfsManager<B: StorageBackend> {
    backend: B,
}

impl<B: StorageBackend> VfsManager<B> {
    /// The rows of the store that the manager works on.
    pub closed spec fn rows(&self) -> Seq<NodeView> {
        self.backend.rows()
    }

    /// Whether the store that the manager works on is well formed.
    pub closed spec fn wf(&self) -> bool {
        self.backend.wf()
    }

    /// Whether the store that the manager works on is reliable.
    pub closed spec fn reliable(&self) -> bool {
        self.backend.reliable()
    }

    /// The rows of a well-formed manager's store are well formed.
    pub proof fn rows_are_wf(&self)
        requires
            self.wf(),
        ensures
            rows_wf(self.rows()),
    {
        self.backend.rows_are_wf();
    }

    /// A manager over `backend`.
    pub fn new(backend: B) -> (m: Self)
        ensures
            m.rows() == backend.rows(),
            m.wf() == backend.wf(),
            m.reliable() == backend.reliable(),
    {
        Self { backend }
    }

    /// The store that the manager works on.
    pub fn backend(&self) -> (b: &B)
        ensures
            b.rows() == self.rows(),
            b.wf() == self.wf(),
            b.reliable() == self.reliable(),
    {
        &self.backend
    }

    /// Lists the children of the directory that `raw_path` addresses, for a
    /// requester who may read it.
    pub fn list_dir(&self, user: &User, raw_path: &str, cwd: &str) -> (r: Result<
        Vec<VfsNode>,
        VfsError,
    >)
        requires
            self.wf(),
        ensures
            list_dir_agrees(self.rows(), self.reliable(), user@, raw_path@, cwd@, r),
    {
        let path = match PathNormalizer::normalize(raw_path, cwd) {
            Ok(p) => p,
            Err(e) => { return Err(e); },
        };
        let node = match self.backend.get_node(path.as_str()) {
            Ok(n) => n,
            Err(e) => { return Err(e); },
        };
        match PermissionManager::check(user, &node, &VfsOp::ReadDir) {
            Ok(_) => {},
            Err(e) => { return Err(e); },
        }
        self.backend.list(path.as_str())
    }

    /// Creates the directory that `raw_path` addresses, owned by the
    /// requester, who must be allowed to write in its parent directory. The
    /// permission bits of the parent play no part in it.
    pub fn create_dir(&mut self, user: &User, raw_path: &str, cwd: &str) -> (r: Result<
        VfsNode,
        VfsError,
    >)
        requires
            old(self).wf(),
        ensures
            final(self).wf(),
            create_dir_agrees(
                old(self).rows(),
                final(self).rows(),
                old(self).reliable(),
                user@,
                raw_path@,
                cwd@,
                r,
            ),
    {
        let (path, parent_path) = match create_target(raw_path, cwd) {
            Ok(found) => found,
            Err(e) => { return Err(e); },
        };
        match self.backend.get_node(parent_path.as_str()) {
            Ok(_) => {},
            Err(e) => { return Err(e); },
        }
        match authorize_create(user, parent_path.as_str()) {
            Ok(_) => {},
            Err(e) => { return Err(e); },
        }
        self.backend.create_dir(path.as_str(), user.id.clone())
    }

    /// Deletes the node that `raw_path` addresses, and all that descends
    /// from it, for a requester who may delete it.
    pub fn delete(&mut self, user: &User, raw_path: &str, cwd: &str) -> (r: Result<(), VfsError>)
        requires
            old(self).wf(),
        ensures
            final(self).wf(),
            delete_agrees(
                old(self).rows(),
                final(self).rows(),
                old(self).reliable(),
                user@,
                raw_path@,
                cwd@,
                r,
            ),
    {
        let path = match PathNormalizer::normalize(raw_path, cwd) {
            Ok(p) => p,
            Err(e) => { return Err(e); },
        };
        let node = match self.backend.get_node(path.as_str()) {
            Ok(n) => n,
            Err(e) => { return Err(e); },
        };
        match PermissionManager::check(user, &node, &VfsOp::Delete) {
            Ok(_) => {},
            Err(e) => { return Err(e); },
        }
        self.backend.delete(path.as_str())
    }

    /// Gives the node that `old_path` addresses the path that `new_path`
    /// addresses, for a requester who may rename it.
    pub fn rename(&mut self, user: &User, old_path: &str, new_path: &str, cwd: &str) -> (r: Result<
        (),
        VfsError,
    >)
        requires
            old(self).wf(),
        ensures
            final(self).wf(),
            rename_agrees(
                old(self).rows(),
                final(self).rows(),
                old(self).reliable(),
                user@,
                old_path@,
                new_path@,
                cwd@,
                r,
            ),
    {
        let from = match PathNormalizer::normalize(old_path, cwd) {
            Ok(p) => p,
            Err(e) => { return Err(e); },
        };
        let to = match PathNormalizer::normalize(new_path, cwd) {
            Ok(p) => p,
            Err(e) => { return Err(e); },
        };
        let node = match self.backend.get_node(from.as_str()) {
            Ok(n) => n,
            Err(e) => { return Err(e); },
        };
        match PermissionManager::check(user, &node, &VfsOp::Rename) {
            Ok(_) => {},
            Err(e) => { return Err(e); },
        }
        self.backend.rename(from.as_str(), to.as_str())
    }

    /// The working directory: `cwd` as it is.
    pub fn pwd(&self, cwd: &str) -> (r: String)
        ensures
            r@ == cwd@,
    {
        cwd.to_owned()
    }

    /// Hands the node at `path` to `new_owner_id`. Nobody is asked for
    /// permission: this is for setting up a new user's home directory.
    pub fn update_node_owner(&mut self, path: &str, new_owner_id: &str) -> (r: Result<
        (),
        VfsError,
    >)
        requires
            old(self).wf(),
        ensures
            final(self).wf(),
            update_owner_agrees(
                old(self).rows(),
                final(self).rows(),
                old(self).reliable(),
                path@,
                new_owner_id@,
                r,
            ),
    {
        let mut node = match self.backend.get_node(path) {
            Ok(n) => n,
            Err(e) => { return Err(e); },
        };
        proof {
            self.backend.rows_are_wf();
            let rows = self.backend.rows();
            let i = crate::storage::index_of_path(rows, path@);
            assert(rows[i].id == node.id);
            assert(holds_id(rows, node.id));
        }
        node.owner_id = new_owner_id.to_owned();
        self.backend.update_node(&node)
    }
}


/// On a reliable store, creating a directory where the requester may write
/// is refused because the node exists where the path already addresses a
/// node, and for anybody because no node is found where the parent directory
/// is missing. The root, which has no parent, is left out.
pub proof fn lemma_create_dir_refusals(
    rows: Seq<NodeView>,
    after: Seq<NodeView>,
    user: UserView,
    raw: Seq<char>,
    cwd: Seq<char>,
    r: Result<VfsNode, VfsError>,
)
    requires
        create_dir_agrees(rows, after, true, user, raw, cwd, r),
        normalize_spec(raw, cwd) != seq!['/'],
    ensures
        parent_spec(normalize_spec(raw, cwd)) is Some,
        !holds_path(rows, parent_spec(normalize_spec(raw, cwd))->Some_0) ==> r is Err
            && r->Err_0@ is NodeNotFound,
        holds_path(rows, parent_spec(normalize_spec(raw, cwd))->Some_0) && can_write_spec(
            user,
            parent_spec(normalize_spec(raw, cwd))->Some_0,
        ) && holds_path(rows, normalize_spec(raw, cwd)) ==> r is Err && r->Err_0@ is NodeExists,
        r is Err ==> after == rows,
{
    lemma_normalized_parent(raw, cwd);
    lemma_nominal_parent_of_normalized(raw, cwd);
}

/// After a node was renamed to another path, the new path addresses it,
/// with all but its path as before, and the old path addresses nothing.
pub proof fn lemma_rename_moves_node(
    rows: Seq<NodeView>,
    after: Seq<NodeView>,
    reliable: bool,
    user: UserView,
    old_raw: Seq<char>,
    new_raw: Seq<char>,
    cwd: Seq<char>,
    r: Result<(), VfsError>,
)
    requires
        rows_wf(rows),
        rename_agrees(rows, after, reliable, user, old_raw, new_raw, cwd, r),
        r is Ok,
        normalize_spec(old_raw, cwd) != normalize_spec(new_raw, cwd),
    ensures
        holds_path(after, normalize_spec(new_raw, cwd)),
        lookup_verdict(after, normalize_spec(new_raw, cwd)) is Proceed,
        !holds_path(after, normalize_spec(old_raw, cwd)),
        lookup_verdict(after, normalize_spec(old_raw, cwd)) is NotFound,
        node_at(after, normalize_spec(new_raw, cwd)) == (NodeView {
            name: normalize_spec(new_raw, cwd),
            ..node_at(rows, normalize_spec(old_raw, cwd))
        }),
        rows_wf(after),
{
    lemma_rename_moves(rows, normalize_spec(old_raw, cwd), normalize_spec(new_raw, cwd));
}

/// An administrator is refused no deletion for want of permission: on a
/// reliable store the request fails only where no node is found.
pub proof fn lemma_admin_delete(
    rows: Seq<NodeView>,
    after: Seq<NodeView>,
    user: UserView,
    raw: Seq<char>,
    cwd: Seq<char>,
    r: Result<(), VfsError>,
)
    requires
        user.roles.contains(crate::model::Role::Admin),
        delete_agrees(rows, after, true, user, raw, cwd, r),
    ensures
        r is Ok <==> holds_path(rows, normalize_spec(raw, cwd)),
        r is Err ==> r->Err_0@ is NodeNotFound,
{
}

} // verus!
