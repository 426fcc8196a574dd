use vstd::prelude::*;
use crate::model::{ErrorView, NodeId, NodeView, VfsError, VfsNode};
use crate::model::{node_views, DEFAULT_DIR_PERM, OPEN_DIR_PERM};
use crate::path_normalizer::{is_plain, join, last_slash, lemma_canonical_parent, lemma_join_chars};
use crate::path_normalizer::{lemma_normalized_parent, lemma_resolved_stack_plain, normalize_spec};
use crate::path_normalizer::{parent_spec, render, resolved_stack, trim_slashes};
use crate::text::{from_chars, same_chars, to_chars};
use vstd::string::*;

verus! {

/// Whether some row has the path `path`.
pub open spec fn holds_path(rows: Seq<NodeView>, path: Seq<char>) -> bool {
    exists|i: int| 0 <= i < rows.len() && (#[trigger] rows[i]).name == path
}

/// The position of a row with the path `path`.
pub open spec fn index_of_path(rows: Seq<NodeView>, path: Seq<char>) -> int {
    choose|i: int| 0 <= i < rows.len() && (#[trigger] rows[i]).name == path
}

/// The node that `path` addresses.
pub open spec fn node_at(rows: Seq<NodeView>, path: Seq<char>) -> NodeView {
    rows[index_of_path(rows, path)]
}

/// Whether some row has the identifier `id`.
pub open spec fn holds_id(rows: Seq<NodeView>, id: NodeId) -> bool {
    exists|i: int| 0 <= i < rows.len() && (#[trigger] rows[i]).id == id
}

/// The position of a row with the identifier `id`.
pub open spec fn index_of_id(rows: Seq<NodeView>, id: NodeId) -> int {
    choose|i: int| 0 <= i < rows.len() && (#[trigger] rows[i]).id == id
}

/// What a store's rows always satisfy: no two share a path, no two share an
/// identifier, the first row alone has no parent, the parent of any other
/// row stands before it, and the permission bits lie in `[0, 0o777]`. So the
/// rows form one tree, whose root is the first row.
pub open spec fn rows_wf(rows: Seq<NodeView>) -> bool {
    &&& forall|i: int| 0 <= i < rows.len() ==> ((#[trigger] rows[i]).parent_id is None <==> i == 0)
    &&& forall|i: int, j: int|
        0 <= i < j < rows.len() ==> (#[trigger] rows[i]).name != (#[trigger] rows[j]).name
    &&& forall|i: int, j: int|
        0 <= i < j < rows.len() ==> (#[trigger] rows[i]).id != (#[trigger] rows[j]).id
    &&& forall|i: int|
        0 <= i < rows.len() && (#[trigger] rows[i]).parent_id is Some ==> holds_id(
            rows.take(i),
            rows[i].parent_id->Some_0,
        )
    &&& forall|i: int| 0 <= i < rows.len() ==> 0 <= (#[trigger] rows[i]).permissions <= 0o777
}

/// The rows whose parent has the identifier `id`, in the order of the rows.
pub open spec fn children(rows: Seq<NodeView>, id: NodeId) -> Seq<NodeView>
    decreases rows.len(),
{
    if rows.len() == 0 {
        Seq::<NodeView>::empty()
    } else {
        let before = children(rows.drop_last(), id);
        if rows.last().parent_id == Some(id) {
            before.push(rows.last())
        } else {
            before
        }
    }
}

/// Whether row `i` goes when the node with the identifier `target` is
/// deleted: it is that node, or its parent goes.
pub open spec fn doomed(rows: Seq<NodeView>, target: NodeId, i: int) -> bool
    decreases i,
{
    if i < 0 || i >= rows.len() {
        false
    } else if rows[i].id == target {
        true
    } else if rows[i].parent_id is Some {
        let j = index_of_id(rows.take(i), rows[i].parent_id->Some_0);
        0 <= j < i && doomed(rows, target, j)
    } else {
        false
    }
}

/// Those of the first `n` rows that stay when the node with the identifier
/// `target` is deleted, in the order of the rows.
pub open spec fn survivors(rows: Seq<NodeView>, target: NodeId, n: int) -> Seq<NodeView>
    decreases n,
{
    if n <= 0 {
        Seq::<NodeView>::empty()
    } else {
        let before = survivors(rows, target, n - 1);
        if doomed(rows, target, n - 1) {
            before
        } else {
            before.push(rows[n - 1])
        }
    }
}

/// The rows after every row with the path `from` got the path `to`.
pub open spec fn renamed(rows: Seq<NodeView>, from: Seq<char>, to: Seq<char>) -> Seq<NodeView> {
    Seq::new(
        rows.len(),
        |i: int|
            if rows[i].name == from {
                NodeView { name: to, ..rows[i] }
            } else {
                rows[i]
            },
    )
}

/// The directory that a store takes for the parent of `path`: what stands
/// before the last slash of the path without its trailing slashes, or the
/// root where nothing stands before it.
pub open spec fn nominal_parent(path: Seq<char>) -> Seq<char> {
    let p = trim_slashes(path);
    match last_slash(p) {
        Some(i) => if i > 0 {
            p.take(i)
        } else {
            seq!['/']
        },
        None => seq!['/'],
    }
}

/// The permission bits of a directory created at `path` for `owner`: wide
/// open for `/home` and for `/home/<owner>`, `rwxr-xr-x` for any other.
pub open spec fn creation_bits(path: Seq<char>, owner: Seq<char>) -> i16 {
    if path == "/home"@ || path == "/home/"@ + owner {
        OPEN_DIR_PERM
    } else {
        DEFAULT_DIR_PERM
    }
}

/// How a store answers a request, engine failures apart.
pub enum Verdict {
    /// The request is carried out.
    Proceed,
    /// Refused: no node is where one is needed.
    NotFound,
    /// Refused: a node already has the path.
    Exists,
    /// Refused: the request makes no sense.
    Invalid,
}

/// The answer to a request that needs a node at `path`.
pub open spec fn lookup_verdict(rows: Seq<NodeView>, path: Seq<char>) -> Verdict {
    if holds_path(rows, path) {
        Verdict::Proceed
    } else {
        Verdict::NotFound
    }
}

/// The answer to the request to create a directory at `path`.
pub open spec fn create_verdict(rows: Seq<NodeView>, path: Seq<char>) -> Verdict {
    if path == seq!['/'] {
        Verdict::Invalid
    } else if !holds_path(rows, nominal_parent(path)) {
        Verdict::NotFound
    } else if holds_path(rows, path) {
        Verdict::Exists
    } else {
        Verdict::Proceed
    }
}

/// The answer to the request to give the node at `from` the path `to`.
pub open spec fn rename_verdict(rows: Seq<NodeView>, from: Seq<char>, to: Seq<char>) -> Verdict {
    if !holds_path(rows, from) {
        Verdict::NotFound
    } else if to != from && holds_path(rows, to) {
        Verdict::Exists
    } else {
        Verdict::Proceed
    }
}

/// The answer to the request to update the node with the identifier `id`.
pub open spec fn update_verdict(rows: Seq<NodeView>, id: NodeId) -> Verdict {
    if holds_id(rows, id) {
        Verdict::Proceed
    } else {
        Verdict::NotFound
    }
}

/// Whether the error reports a failure of the engine itself.
pub open spec fn engine_failure(e: ErrorView) -> bool {
    e is StorageError || e is IoError || e is DbError
}

/// Whether the error is the one that belongs to a refusal.
pub open spec fn error_matches(e: ErrorView, verdict: Verdict) -> bool {
    match verdict {
        Verdict::Proceed => false,
        Verdict::NotFound => e is NodeNotFound,
        Verdict::Exists => e is NodeExists,
        Verdict::Invalid => e is InvalidOperation,
    }
}

/// Whether a store may answer a request with the error `e`: with the error
/// of the refusal, or, unless it is reliable, with an engine failure.
pub open spec fn failure_agrees(e: ErrorView, verdict: Verdict, reliable: bool) -> bool {
    error_matches(e, verdict) || (!reliable && engine_failure(e))
}

/// Whether `node` is the directory that a store creates at `path` for
/// `owner` in `rows`.
pub open spec fn is_created(
    node: NodeView,
    rows: Seq<NodeView>,
    path: Seq<char>,
    owner: Seq<char>,
) -> bool {
    &&& !holds_id(rows, node.id)
    &&& node.parent_id == Some(node_at(rows, nominal_parent(path)).id)
    &&& node.name == path
    &&& node.is_dir
    &&& node.owner_id == owner
    &&& node.permissions == creation_bits(path, owner)
    &&& node.created_at == node.updated_at
}

/// Whether `after` is `before` with the owner and the permission bits of
/// `node` stored in the row that has its identifier, and a new time of update.
pub open spec fn is_updated(before: Seq<NodeView>, after: Seq<NodeView>, node: NodeView) -> bool {
    let i = index_of_id(before, node.id);
    &&& after.len() == before.len()
    &&& forall|k: int| 0 <= k < before.len() && k != i ==> after[k] == before[k]
    &&& after[i] == (NodeView {
        owner_id: node.owner_id,
        permissions: node.permissions,
        updated_at: after[i].updated_at,
        ..before[i]
    })
}

/// An addressable store of nodes. Its rows are found by their full canonical
/// path. A request that fails leaves the rows as they were.
pub trait StorageBackend {
    /// The rows that the store holds.
    spec fn rows(&self) -> Seq<NodeView>;

    /// What the store needs to hold of itself between requests.
    spec fn wf(&self) -> bool;

    /// Whether the engine does not fail: a reliable store only ever refuses
    /// a request for what its rows are.
    spec fn reliable(&self) -> bool;

    /// The rows of a well-formed store are well formed.
    proof fn rows_are_wf(&self)
        requires
            self.wf(),
        ensures
            rows_wf(self.rows()),
    ;

    /// The children of the node at `path`.
    fn list(&self, path: &str) -> (r: Result<Vec<VfsNode>, VfsError>)
        requires
            self.wf(),
        ensures
            match r {
                Ok(v) => holds_path(self.rows(), path@) && node_views(v@) == children(
                    self.rows(),
                    node_at(self.rows(), path@).id,
                ),
                Err(e) => failure_agrees(e@, lookup_verdict(self.rows(), path@), self.reliable()),
            },
    ;

    /// Creates a directory at `path`, owned by `user_id`, below the node at
    /// the nominal parent of `path`.
    fn create_dir(&mut self, path: &str, user_id: String) -> (r: Result<VfsNode, VfsError>)
        requires
            old(self).wf(),
        ensures
            final(self).wf(),
            match r {
                Ok(n) => create_verdict(old(self).rows(), path@) is Proceed && is_created(
                    n@,
                    old(self).rows(),
                    path@,
                    user_id@,
                ) && final(self).rows() == old(self).rows().push(n@),
                Err(e) => final(self).rows() == old(self).rows() && failure_agrees(
                    e@,
                    create_verdict(old(self).rows(), path@),
                    old(self).reliable(),
                ),
            },
    ;

    /// Deletes the node at `path` and all that descends from it.
    fn delete(&mut self, path: &str) -> (r: Result<(), VfsError>)
        requires
            old(self).wf(),
        ensures
            final(self).wf(),
            match r {
                Ok(_) => holds_path(old(self).rows(), path@) && final(self).rows() == survivors(
                    old(self).rows(),
                    node_at(old(self).rows(), path@).id,
                    old(self).rows().len() as int,
                ),
                Err(e) => final(self).rows() == old(self).rows() && failure_agrees(
                    e@,
                    lookup_verdict(old(self).rows(), path@),
                    old(self).reliable(),
                ),
            },
    ;

    /// Gives the node at `old_path` the path `new_path`; nothing else of it
    /// changes.
    fn rename(&mut self, old_path: &str, new_path: &str) -> (r: Result<(), VfsError>)
        requires
            old(self).wf(),
        ensures
            final(self).wf(),
            match r {
                Ok(_) => rename_verdict(old(self).rows(), old_path@, new_path@) is Proceed
                    && final(self).rows() == renamed(old(self).rows(), old_path@, new_path@),
                Err(e) => final(self).rows() == old(self).rows() && failure_agrees(
                    e@,
                    rename_verdict(old(self).rows(), old_path@, new_path@),
                    old(self).reliable(),
                ),
            },
    ;

    /// The node at `path`.
    fn get_node(&self, path: &str) -> (r: Result<VfsNode, VfsError>)
        requires
            self.wf(),
        ensures
            match r {
                Ok(n) => holds_path(self.rows(), path@) && n@ == node_at(self.rows(), path@),
                Err(e) => failure_agrees(e@, lookup_verdict(self.rows(), path@), self.reliable()),
            },
    ;

    /// Stores the owner and the permission bits of `node` in the row that
    /// has its identifier, and refreshes that row's time of update.
    fn update_node(&mut self, node: &VfsNode) -> (r: Result<(), VfsError>)
        requires
            old(self).wf(),
            node.bits_in_range(),
        ensures
            final(self).wf(),
            match r {
                Ok(_) => holds_id(old(self).rows(), node.id) && is_updated(
                    old(self).rows(),
                    final(self).rows(),
                    node@,
                ),
                Err(e) => final(self).rows() == old(self).rows() && failure_agrees(
                    e@,
                    update_verdict(old(self).rows(), node.id),
                    old(self).reliable(),
                ),
            },
    ;
}


/// In well-formed rows a path is found at one position only.
pub proof fn lemma_path_position(rows: Seq<NodeView>, path: Seq<char>, i: int)
    requires
        rows_wf(rows),
        0 <= i < rows.len(),
        rows[i].name == path,
    ensures
        holds_path(rows, path),
        index_of_path(rows, path) == i,
        node_at(rows, path) == rows[i],
{
    let j = index_of_path(rows, path);
    assert(0 <= j < rows.len() && rows[j].name == path);
    if j < i {
        assert(rows[j].name != rows[i].name);
    } else if i < j {
        assert(rows[i].name != rows[j].name);
    }
}

/// Where no two of the first rows share an identifier, an identifier is
/// found at one position only.
pub proof fn lemma_id_position(rows: Seq<NodeView>, id: NodeId, i: int)
    requires
        forall|a: int, b: int|
            0 <= a < b < rows.len() ==> (#[trigger] rows[a]).id != (#[trigger] rows[b]).id,
        0 <= i < rows.len(),
        rows[i].id == id,
    ensures
        holds_id(rows, id),
        index_of_id(rows, id) == i,
{
    let j = index_of_id(rows, id);
    assert(0 <= j < rows.len() && rows[j].id == id);
    if j < i {
        assert(rows[j].id != rows[i].id);
    } else if i < j {
        assert(rows[i].id != rows[j].id);
    }
}

/// The number of rows before row `i` that stay.
pub open spec fn rank(rows: Seq<NodeView>, target: NodeId, i: int) -> int {
    survivors(rows, target, i).len() as int
}

/// Whether one of the first `n` rows stays and has the rank `k`.
pub open spec fn has_origin(rows: Seq<NodeView>, target: NodeId, n: int, k: int) -> bool {
    exists|i: int|
        0 <= i < n && !(#[trigger] doomed(rows, target, i)) && rank(rows, target, i) == k
}

/// The row that stays and has the rank `k`.
pub open spec fn origin_of(rows: Seq<NodeView>, target: NodeId, k: int) -> int {
    choose|i: int|
        0 <= i < rows.len() && !(#[trigger] doomed(rows, target, i)) && rank(rows, target, i) == k
}

/// Rows that stay keep their order: a row that stays is counted before every
/// later row.
pub proof fn lemma_rank_grows(rows: Seq<NodeView>, target: NodeId, i: int, j: int)
    requires
        0 <= i <= j,
    ensures
        rank(rows, target, i) <= rank(rows, target, j),
        i < j && !doomed(rows, target, i) ==> rank(rows, target, i) < rank(rows, target, j),
    decreases j,
{
    if i < j {
        lemma_rank_grows(rows, target, i, j - 1);
    }
}

/// Every row that stays is among the survivors, at its rank, and every
/// survivor is such a row.
pub proof fn lemma_survivors_shape(rows: Seq<NodeView>, target: NodeId, n: int)
    requires
        0 <= n <= rows.len(),
    ensures
        survivors(rows, target, n).len() <= n,
        forall|i: int|
            0 <= i < n && !(#[trigger] doomed(rows, target, i)) ==> rank(rows, target, i)
                < survivors(rows, target, n).len() && survivors(rows, target, n)[rank(
                rows,
                target,
                i,
            )] == rows[i],
        forall|k: int|
            0 <= k < survivors(rows, target, n).len() ==> #[trigger] has_origin(rows, target, n, k),
    decreases n,
{
    if n > 0 {
        lemma_survivors_shape(rows, target, n - 1);
        let before = survivors(rows, target, n - 1);
        let now = survivors(rows, target, n);
        assert forall|k: int| 0 <= k < now.len() implies #[trigger] has_origin(
            rows,
            target,
            n,
            k,
        ) by {
            if k < before.len() {
                assert(has_origin(rows, target, n - 1, k));
                let i = choose|i: int|
                    0 <= i < n - 1 && !(#[trigger] doomed(rows, target, i)) && rank(
                        rows,
                        target,
                        i,
                    ) == k;
                assert(0 <= i < n && !doomed(rows, target, i) && rank(rows, target, i) == k);
            } else {
                assert(!doomed(rows, target, n - 1) && rank(rows, target, n - 1) == k);
            }
        }
    }
}

/// Deleting a node with all that descends from it leaves well-formed rows,
/// each of which was there before.
pub proof fn lemma_survivors_wf(rows: Seq<NodeView>, target: NodeId)
    requires
        rows_wf(rows),
    ensures
        rows_wf(survivors(rows, target, rows.len() as int)),
        forall|k: int|
            0 <= k < survivors(rows, target, rows.len() as int).len() ==> exists|i: int|
                0 <= i < rows.len() && rows[i] == #[trigger] survivors(
                    rows,
                    target,
                    rows.len() as int,
                )[k],
{
    let n = rows.len() as int;
    let s = survivors(rows, target, n);
    lemma_survivors_shape(rows, target, n);
    assert forall|k: int| 0 <= k < s.len() implies 0 <= #[trigger] origin_of(rows, target, k) < n && !doomed(
        rows,
        target,
        origin_of(rows, target, k),
    ) && rank(rows, target, origin_of(rows, target, k)) == k && s[k] == rows[origin_of(rows, target, k)] by {
        assert(has_origin(rows, target, n, k));
    }
    assert forall|a: int, b: int| 0 <= a < b < s.len() implies #[trigger] origin_of(rows, target, a) < #[trigger] origin_of(rows, target, b) by {
        if origin_of(rows, target, a) >= origin_of(rows, target, b) {
            lemma_rank_grows(rows, target, origin_of(rows, target, b), origin_of(rows, target, a));
        }
    }
    assert forall|a: int, b: int| 0 <= a < b < s.len() implies (#[trigger] s[a]).name != (
    #[trigger] s[b]).name by {
        assert(origin_of(rows, target, a) < origin_of(rows, target, b));
        assert(rows[origin_of(rows, target, a)].name != rows[origin_of(rows, target, b)].name);
    }
    assert forall|a: int, b: int| 0 <= a < b < s.len() implies (#[trigger] s[a]).id != (
    #[trigger] s[b]).id by {
        assert(origin_of(rows, target, a) < origin_of(rows, target, b));
        assert(rows[origin_of(rows, target, a)].id != rows[origin_of(rows, target, b)].id);
    }
    assert forall|k: int| 0 <= k < s.len() && (#[trigger] s[k]).parent_id is Some implies holds_id(
        s.take(k),
        s[k].parent_id->Some_0,
    ) by {
        let i = origin_of(rows, target, k);
        let pid = rows[i].parent_id->Some_0;
        assert(rows[i].parent_id is Some);
        assert(holds_id(rows.take(i), pid));
        let j = index_of_id(rows.take(i), pid);
        assert(0 <= j < i && rows.take(i)[j].id == pid);
        assert(!doomed(rows, target, i));
        assert(!doomed(rows, target, j));
        lemma_rank_grows(rows, target, j, i);
        let m = rank(rows, target, j);
        assert(s[m] == rows[j]);
        assert(s.take(k)[m].id == pid);
    }
    assert forall|k: int| 0 <= k < s.len() implies 0 <= (#[trigger] s[k]).permissions <= 0o777 by {
        assert(s[k] == rows[origin_of(rows, target, k)]);
    }
    assert forall|k: int| 0 <= k < s.len() implies ((#[trigger] s[k]).parent_id is None <==> k
        == 0) by {
        let i = origin_of(rows, target, k);
        assert(s[k] == rows[i]);
        assert(rows[i].parent_id is None <==> i == 0);
        if i > 0 {
            let pid = rows[i].parent_id->Some_0;
            assert(holds_id(rows.take(i), pid));
            let j = index_of_id(rows.take(i), pid);
            assert(0 <= j < i && rows.take(i)[j].id == pid);
            assert(!doomed(rows, target, j));
            lemma_rank_grows(rows, target, j, i);
        }
    }
    assert forall|k: int| 0 <= k < s.len() implies exists|i: int|
        0 <= i < rows.len() && rows[i] == #[trigger] s[k] by {
        assert(rows[origin_of(rows, target, k)] == s[k]);
    }
}

/// Deleting a node takes it away with all that descends from it: the
/// identifier and the path of the node address nothing afterwards, and no
/// row that stays has the node for its parent.
pub proof fn lemma_delete_cascades(rows: Seq<NodeView>, path: Seq<char>)
    requires
        rows_wf(rows),
        holds_path(rows, path),
    ensures
        ({
            let target = node_at(rows, path).id;
            let after = survivors(rows, target, rows.len() as int);
            &&& rows_wf(after)
            &&& !holds_path(after, path)
            &&& !holds_id(after, target)
            &&& forall|k: int| 0 <= k < after.len() ==> (#[trigger] after[k]).parent_id != Some(target)
        }),
{
    let at = index_of_path(rows, path);
    let target = rows[at].id;
    let n = rows.len() as int;
    let after = survivors(rows, target, n);
    lemma_survivors_wf(rows, target);
    lemma_survivors_shape(rows, target, n);
    assert forall|k: int| 0 <= k < after.len() implies (#[trigger] after[k]).id != target
        && after[k].name != path && after[k].parent_id != Some(target) by {
        assert(has_origin(rows, target, n, k));
        let i = origin_of(rows, target, k);
        assert(after[k] == rows[i]);
        assert(!doomed(rows, target, i));
        if rows[i].name == path {
            lemma_path_position(rows, path, i);
        }
        if rows[i].parent_id == Some(target) {
            assert(rows[i].parent_id is Some);
            assert(holds_id(rows.take(i), target));
            let j = index_of_id(rows.take(i), target);
            assert(rows.take(i)[j].id == target);
            assert(doomed(rows, target, j));
        }
    }
}

/// Every row descends from the first row, the root: deleting the root
/// leaves no row.
pub proof fn lemma_root_holds_all(rows: Seq<NodeView>, n: int)
    requires
        rows_wf(rows),
        0 <= n <= rows.len(),
    ensures
        forall|i: int| 0 <= i < n ==> #[trigger] doomed(rows, rows[0].id, i),
        survivors(rows, rows[0].id, n) == Seq::<NodeView>::empty(),
    decreases n,
{
    if n > 0 {
        lemma_root_holds_all(rows, n - 1);
        let i = n - 1;
        if i > 0 {
            assert(rows[i].parent_id is None <==> i == 0);
            let pid = rows[i].parent_id->Some_0;
            assert(holds_id(rows.take(i), pid));
            let j = index_of_id(rows.take(i), pid);
            assert(0 <= j < i && rows.take(i)[j].id == pid);
            assert(doomed(rows, rows[0].id, j));
        }
        assert(doomed(rows, rows[0].id, i));
    }
}

/// The children of a node that no row names as its parent are none.
pub proof fn lemma_no_children(rows: Seq<NodeView>, id: NodeId)
    requires
        forall|i: int| 0 <= i < rows.len() ==> (#[trigger] rows[i]).parent_id != Some(id),
    ensures
        children(rows, id) == Seq::<NodeView>::empty(),
    decreases rows.len(),
{
    if rows.len() > 0 {
        let init = rows.drop_last();
        assert forall|i: int| 0 <= i < init.len() implies (#[trigger] init[i]).parent_id != Some(
            id,
        ) by {
            assert(init[i] == rows[i]);
        }
        lemma_no_children(init, id);
        assert(rows[rows.len() - 1].parent_id != Some(id));
    }
}

/// A directory that was created is the last child of its parent and has no
/// children itself.
pub proof fn lemma_created_is_listed(
    rows: Seq<NodeView>,
    node: NodeView,
    path: Seq<char>,
    owner: Seq<char>,
)
    requires
        rows_wf(rows),
        create_verdict(rows, path) is Proceed,
        is_created(node, rows, path, owner),
    ensures
        children(rows.push(node), node_at(rows, nominal_parent(path)).id) == children(
            rows,
            node_at(rows, nominal_parent(path)).id,
        ).push(node),
        children(rows.push(node), node.id) == Seq::<NodeView>::empty(),
{
    let after = rows.push(node);
    let parent = node_at(rows, nominal_parent(path));
    assert(after.drop_last() =~= rows);
    assert(after.last() == node);
    let at = index_of_path(rows, nominal_parent(path));
    assert(rows[at].id == parent.id);
    assert(holds_id(rows, parent.id));
    assert(node.id != parent.id);
    assert forall|i: int| 0 <= i < rows.len() implies (#[trigger] rows[i]).parent_id != Some(
        node.id,
    ) by {
        if rows[i].parent_id == Some(node.id) {
            assert(rows[i].parent_id is Some);
            assert(holds_id(rows.take(i), node.id));
            let j = index_of_id(rows.take(i), node.id);
            assert(rows.take(i)[j].id == node.id);
            assert(rows[j].id == node.id);
        }
    }
    lemma_no_children(rows, node.id);
}

/// A store refuses to create a directory, but the root, at a path that
/// addresses a node, because the node exists, and below a parent path that
/// addresses nothing, because the parent is not found. The missing parent
/// is reported first.
pub proof fn lemma_create_refusals(rows: Seq<NodeView>, path: Seq<char>)
    requires
        path != seq!['/'],
    ensures
        holds_path(rows, nominal_parent(path)) && holds_path(rows, path) ==> create_verdict(
            rows,
            path,
        ) is Exists,
        !holds_path(rows, nominal_parent(path)) ==> create_verdict(rows, path) is NotFound,
{
}

/// A directory that was created is found at its path, so that creating it
/// once more is refused.
pub proof fn lemma_created_then_exists(
    rows: Seq<NodeView>,
    node: NodeView,
    path: Seq<char>,
    owner: Seq<char>,
)
    requires
        create_verdict(rows, path) is Proceed,
        is_created(node, rows, path, owner),
    ensures
        holds_path(rows.push(node), path),
        create_verdict(rows.push(node), path) is Exists,
{
    let after = rows.push(node);
    assert(after[rows.len() as int].name == path);
    let i = index_of_path(rows, nominal_parent(path));
    assert(after[i].name == nominal_parent(path));
}

/// After a node got another path, the new path addresses it and the old
/// path addresses nothing.
pub proof fn lemma_rename_moves(rows: Seq<NodeView>, from: Seq<char>, to: Seq<char>)
    requires
        rows_wf(rows),
        rename_verdict(rows, from, to) is Proceed,
        from != to,
    ensures
        holds_path(renamed(rows, from, to), to),
        !holds_path(renamed(rows, from, to), from),
        node_at(renamed(rows, from, to), to) == (NodeView { name: to, ..node_at(rows, from) }),
        rows_wf(renamed(rows, from, to)),
{
    let after = renamed(rows, from, to);
    let i = index_of_path(rows, from);
    lemma_path_position(rows, from, i);
    assert(after[i].name == to);
    lemma_renamed_wf(rows, from, to);
    lemma_path_position(after, to, i);
}

/// Giving a node a path that no other node has leaves well-formed rows.
pub proof fn lemma_renamed_wf(rows: Seq<NodeView>, from: Seq<char>, to: Seq<char>)
    requires
        rows_wf(rows),
        rename_verdict(rows, from, to) is Proceed,
    ensures
        rows_wf(renamed(rows, from, to)),
{
    let after = renamed(rows, from, to);
    assert forall|a: int, b: int| 0 <= a < b < after.len() implies (#[trigger] after[a]).name != (
    #[trigger] after[b]).name by {
        assert(rows[a].name != rows[b].name);
    }
    assert forall|a: int, b: int| 0 <= a < b < after.len() implies (#[trigger] after[a]).id != (
    #[trigger] after[b]).id by {
        assert(rows[a].id != rows[b].id);
    }
    assert forall|k: int|
        0 <= k < after.len() && (#[trigger] after[k]).parent_id is Some implies holds_id(
        after.take(k),
        after[k].parent_id->Some_0,
    ) by {
        let pid = rows[k].parent_id->Some_0;
        assert(rows[k].parent_id is Some);
        assert(holds_id(rows.take(k), pid));
        let j = index_of_id(rows.take(k), pid);
        assert(rows.take(k)[j].id == pid);
        assert(after.take(k)[j].id == pid);
    }
    assert forall|k: int| 0 <= k < after.len() implies 0 <= (#[trigger] after[k]).permissions
        <= 0o777 by {
        assert(0 <= rows[k].permissions <= 0o777);
    }
    assert forall|k: int| 0 <= k < after.len() implies ((#[trigger] after[k]).parent_id is None
        <==> k == 0) by {
        assert(rows[k].parent_id is None <==> k == 0);
    }
}


/// The directory that a store takes for the parent of `path`.
pub fn nominal_parent_of(path: &str) -> (r: String)
    ensures
        r@ == nominal_parent(path@),
{
    let p = to_chars(path);
    let mut n: usize = p.len();
    assert(p@.take(n as int) =~= p@);
    while n > 0 && p[n - 1] == '/'
        invariant
            n <= p.len(),
            trim_slashes(p@) == trim_slashes(p@.take(n as int)),
        decreases n,
    {
        assert(p@.take(n as int).drop_last() =~= p@.take(n - 1));
        n -= 1;
    }
    let ghost trimmed = p@.take(n as int);
    assert(trim_slashes(p@) == trimmed);
    assert(trimmed.take(n as int) =~= trimmed);
    let mut j: usize = n;
    while j > 0 && p[j - 1] != '/'
        invariant
            j <= n <= p.len(),
            trimmed == p@.take(n as int),
            last_slash(trimmed) == last_slash(trimmed.take(j as int)),
        decreases j,
    {
        assert(trimmed.take(j as int).drop_last() =~= trimmed.take(j - 1));
        j -= 1;
    }
    if j <= 1 {
        let mut root = String::new();
        root.push('/');
        assert(root@ =~= seq!['/']);
        return root;
    }
    let mut out: Vec<char> = Vec::new();
    let mut k: usize = 0;
    while k < j - 1
        invariant
            k <= j - 1,
            j <= n <= p.len(),
            out@ == p@.take(k as int),
        decreases j - 1 - k,
    {
        out.push(p[k]);
        k += 1;
        assert(p@.take(k as int) =~= p@.take(k - 1).push(p@[k - 1]));
    }
    assert(p@.take(j - 1) =~= trimmed.take(j - 1));
    from_chars(&out)
}

/// The permission bits of a directory created at `path` for `owner`.
pub fn creation_bits_for(path: &str, owner: &str) -> (r: i16)
    ensures
        r == creation_bits(path@, owner@),
        0 <= r <= 0o777,
{
    let target = to_chars(path);
    let home = to_chars("/home");
    let mut user_home = "/home/".to_owned();
    user_home.append(owner);
    let user_home_chars = to_chars(user_home.as_str());
    if same_chars(&target, &home) || same_chars(&target, &user_home_chars) {
        OPEN_DIR_PERM
    } else {
        DEFAULT_DIR_PERM
    }
}


/// For a normalized path but the root, the directory that a store takes
/// for its parent is the parent that the path resolver gives.
pub proof fn lemma_nominal_parent_of_normalized(raw: Seq<char>, cwd: Seq<char>)
    ensures
        parent_spec(normalize_spec(raw, cwd)) is Some ==> parent_spec(normalize_spec(raw, cwd))
            == Some(nominal_parent(normalize_spec(raw, cwd))),
{
    let stack = resolved_stack(raw, cwd);
    lemma_resolved_stack_plain(raw, cwd);
    lemma_canonical_parent(stack);
    lemma_normalized_parent(raw, cwd);
    if stack.len() > 0 {
        let path = render(stack);
        let at = join(stack.drop_last()).len() as int;
        assert(last_slash(path) == Some(at));
        assert(path.take(at) =~= join(stack.drop_last()));
        assert(stack.drop_last().len() == 0 ==> at == 0);
        if stack.drop_last().len() > 0 {
            assert forall|i: int| 0 <= i < stack.drop_last().len() implies !(
            #[trigger] stack.drop_last()[i]).contains('\\') by {
                assert(is_plain(stack[i]));
            }
            lemma_join_chars(stack.drop_last());
        }
    }
}

} // verus!
