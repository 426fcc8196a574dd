use vstd::prelude::*;
use crate::clock::now_micros;
use crate::model::{node_views, NodeId, NodeView, VfsError, VfsNode, OPEN_DIR_PERM};
use crate::storage::{children, creation_bits_for, doomed, holds_id, holds_path};
use crate::storage::{index_of_id, lemma_id_position, lemma_path_position, lemma_renamed_wf};
use crate::storage::{lemma_survivors_wf, node_at, nominal_parent_of, renamed, rows_wf};
use crate::storage::{survivors, StorageBackend};

verus! {

/// A store that keeps its rows in memory, in the order of their creation.
/// It starts with the root directory alone.
pub struct MemoryStore {
    nodes: Vec<VfsNode>,
    next_id: NodeId,
}

impl MemoryStore {
    /// The rows that the store holds.
    pub closed spec fn held(&self) -> Seq<NodeView> {
        node_views(self.nodes@)
    }

    /// The rows are well formed, and every identifier in use lies below the
    /// next one to be given out.
    pub closed spec fn sound(&self) -> bool {
        &&& rows_wf(node_views(self.nodes@))
        &&& forall|i: int| 0 <= i < self.nodes@.len() ==> (#[trigger] self.nodes@[i]).id < self.next_id
    }

    /// Whether an identifier is left to give out.
    pub closed spec fn has_room(&self) -> bool {
        self.next_id < i64::MAX
    }

    /// A store that holds the root directory alone: `/`, owned by `system`,
    /// with wide-open permission bits and the identifier 1.
    pub fn new() -> (s: Self)
        ensures
            s.sound(),
            s.has_room(),
            s.held().len() == 1,
            s.held()[0].id == 1,
            s.held()[0].parent_id is None,
            s.held()[0].name == seq!['/'],
            s.held()[0].is_dir,
            s.held()[0].owner_id == "system"@,
            s.held()[0].permissions == OPEN_DIR_PERM,
            s.held()[0].created_at == s.held()[0].updated_at,
    {
        let now = now_micros();
        let mut name = String::new();
        name.push('/');
        assert(name@ =~= seq!['/']);
        let root = VfsNode {
            id: 1,
            parent_id: None,
            name,
            is_dir: true,
            owner_id: "system".to_owned(),
            permissions: OPEN_DIR_PERM,
            created_at: now,
            updated_at: now,
        };
        let mut nodes: Vec<VfsNode> = Vec::new();
        nodes.push(root);
        MemoryStore { nodes, next_id: 2 }
    }

    /// The position of the row with the path `path`.
    fn position_of(&self, path: &str) -> (r: Option<usize>)
        requires
            self.sound(),
        ensures
            match r {
                Some(i) => i < self.nodes@.len() && self.held()[i as int].name == path@
                    && holds_path(self.held(), path@) && node_at(self.held(), path@)
                    == self.held()[i as int],
                None => !holds_path(self.held(), path@),
            },
    {
        let wanted = path.to_owned();
        let mut i: usize = 0;
        while i < self.nodes.len()
            invariant
                self.sound(),
                i <= self.nodes@.len(),
                wanted@ == path@,
                forall|k: int| 0 <= k < i ==> (#[trigger] self.held()[k]).name != path@,
            decreases self.nodes@.len() - i,
        {
            if self.nodes[i].name == wanted {
                proof {
                    lemma_path_position(self.held(), path@, i as int);
                }
                return Some(i);
            }
            i += 1;
        }
        None
    }

    /// The position, among the first `limit` rows, of the row with the
    /// identifier `id`.
    fn position_of_id(&self, id: NodeId, limit: usize) -> (r: Option<usize>)
        requires
            limit <= self.nodes@.len(),
        ensures
            match r {
                Some(i) => i < limit && self.held()[i as int].id == id,
                None => forall|k: int| 0 <= k < limit ==> (#[trigger] self.held()[k]).id != id,
            },
    {
        let mut i: usize = 0;
        while i < limit
            invariant
                i <= limit <= self.nodes@.len(),
                forall|k: int| 0 <= k < i ==> (#[trigger] self.held()[k]).id != id,
            decreases limit - i,
        {
            if self.nodes[i].id == id {
                return Some(i);
            }
            i += 1;
        }
        None
    }

    /// For each row, whether it goes when the node with the identifier
    /// `target` is deleted.
    fn mark_doomed(&self, target: NodeId) -> (gone: Vec<bool>)
        requires
            self.sound(),
        ensures
            gone@.len() == self.nodes@.len(),
            forall|k: int| 0 <= k < gone@.len() ==> gone@[k] == doomed(self.held(), target, k),
    {
        let ghost rows = self.held();
        let mut gone: Vec<bool> = Vec::new();
        let mut i: usize = 0;
        while i < self.nodes.len()
            invariant
                self.sound(),
                rows == self.held(),
                i <= self.nodes@.len(),
                gone@.len() == i,
                forall|k: int| 0 <= k < i ==> gone@[k] == doomed(rows, target, k),
            decreases self.nodes@.len() - i,
        {
            let mut flag = false;
            if self.nodes[i].id == target {
                flag = true;
            } else {
                match self.nodes[i].parent_id {
                    Some(pid) => {
                        let found = self.position_of_id(pid, i);
                        proof {
                            let before = rows.take(i as int);
                            assert(rows[i as int].parent_id is Some);
                            assert(holds_id(before, pid));
                            let w = index_of_id(before, pid);
                            assert(0 <= w < i && before[w].id == pid);
                            assert(rows[w].id == pid);
                            match found {
                                Some(j) => {
                                    if w < j {
                                        assert(rows[w].id != rows[j as int].id);
                                    } else if j < w {
                                        assert(rows[j as int].id != rows[w].id);
                                    }
                                    assert(w == j);
                                },
                                None => {
                                    assert(false);
                                },
                            }
                        }
                        match found {
                            Some(j) => {
                                flag = gone[j];
                            },
                            None => {},
                        }
                    },
                    None => {},
                }
            }
            gone.push(flag);
            i += 1;
        }
        gone
    }
}

impl StorageBackend for MemoryStore {
    open spec fn rows(&self) -> Seq<NodeView> {
        self.held()
    }

    open spec fn wf(&self) -> bool {
        self.sound()
    }

    open spec fn reliable(&self) -> bool {
        self.has_room()
    }

    proof fn rows_are_wf(&self) {
    }

    fn list(&self, path: &str) -> (r: Result<Vec<VfsNode>, VfsError>) {
        let at = match self.position_of(path) {
            Some(i) => i,
            None => {
                let mut msg = "目录不存在: ".to_owned();
                vstd::string::StringExecFns::append(&mut msg, path);
                return Err(VfsError::NodeNotFound(msg));
            },
        };
        let id = self.nodes[at].id;
        let ghost rows = self.held();
        let mut out: Vec<VfsNode> = Vec::new();
        let mut i: usize = 0;
        assert(rows.take(0).len() == 0);
        while i < self.nodes.len()
            invariant
                rows == self.held(),
                i <= self.nodes@.len(),
                node_views(out@) == children(rows.take(i as int), id),
            decreases self.nodes@.len() - i,
        {
            proof {
                assert(rows.take(i + 1).drop_last() =~= rows.take(i as int));
                assert(rows.take(i + 1).last() == rows[i as int]);
            }
            let ghost before = node_views(out@);
            let mut is_child = false;
            match self.nodes[i].parent_id {
                Some(p) => {
                    is_child = p == id;
                },
                None => {},
            }
            if is_child {
                out.push(self.nodes[i].clone());
                assert(node_views(out@) =~= before.push(rows[i as int]));
            }
            i += 1;
        }
        assert(rows.take(self.nodes@.len() as int) =~= rows);
        Ok(out)
    }

    fn create_dir(&mut self, path: &str, user_id: String) -> (r: Result<VfsNode, VfsError>) {
        let ghost rows = self.held();
        let mut root = String::new();
        root.push('/');
        assert(root@ =~= seq!['/']);
        let wanted = path.to_owned();
        if wanted == root {
            return Err(VfsError::InvalidOperation("不能创建根目录".to_owned()));
        }
        let parent_path = nominal_parent_of(path);
        let parent_at = match self.position_of(parent_path.as_str()) {
            Some(i) => i,
            None => {
                let mut msg = "父目录不存在: ".to_owned();
                vstd::string::StringExecFns::append(&mut msg, parent_path.as_str());
                return Err(VfsError::NodeNotFound(msg));
            },
        };
        if self.position_of(path).is_some() {
            let mut msg = "目录已存在: ".to_owned();
            vstd::string::StringExecFns::append(&mut msg, path);
            return Err(VfsError::NodeExists(msg));
        }
        if self.next_id == i64::MAX {
            return Err(VfsError::StorageError("节点标识已用尽".to_owned()));
        }
        let bits = creation_bits_for(path, user_id.as_str());
        let now = now_micros();
        let node = VfsNode {
            id: self.next_id,
            parent_id: Some(self.nodes[parent_at].id),
            name: wanted,
            is_dir: true,
            owner_id: user_id,
            permissions: bits,
            created_at: now,
            updated_at: now,
        };
        self.nodes.push(node.clone());
        self.next_id = self.next_id + 1;
        proof {
            let after = self.held();
            assert(after =~= rows.push(node@));
            assert(!holds_id(rows, node.id));
            assert forall|a: int, b: int| 0 <= a < b < after.len() implies (#[trigger] after[a]).name
                != (#[trigger] after[b]).name by {
                if b < rows.len() {
                    assert(rows[a].name != rows[b].name);
                } else {
                    assert(rows[a].name != path@);
                }
            }
            assert forall|a: int, b: int| 0 <= a < b < after.len() implies (#[trigger] after[a]).id
                != (#[trigger] after[b]).id by {
                if b < rows.len() {
                    assert(rows[a].id != rows[b].id);
                } else {
                    assert(old(self).nodes@[a].id < node.id);
                }
            }
            assert forall|k: int|
                0 <= k < after.len() && (#[trigger] after[k]).parent_id is Some implies holds_id(
                after.take(k),
                after[k].parent_id->Some_0,
            ) by {
                if k < rows.len() {
                    assert(rows[k].parent_id is Some);
                    assert(after.take(k) =~= rows.take(k));
                } else {
                    assert(after.take(k) =~= rows);
                    assert(rows[parent_at as int].id == node.parent_id->Some_0);
                }
            }
            assert forall|k: int| 0 <= k < after.len() implies 0 <= (#[trigger] after[k]).permissions
                <= 0o777 by {
                if k < rows.len() {
                    assert(0 <= rows[k].permissions <= 0o777);
                }
            }
            assert forall|k: int| 0 <= k < after.len() implies ((#[trigger] after[k]).parent_id
                is None <==> k == 0) by {
                if k < rows.len() {
                    assert(rows[k].parent_id is None <==> k == 0);
                }
            }
            assert forall|i: int| 0 <= i < self.nodes@.len() implies (#[trigger] self.nodes@[i]).id
                < self.next_id by {
                if i < rows.len() {
                    assert(old(self).nodes@[i].id < old(self).next_id);
                }
            }
        }
        Ok(node)
    }

    fn delete(&mut self, path: &str) -> (r: Result<(), VfsError>) {
        let ghost rows = self.held();
        let at = match self.position_of(path) {
            Some(i) => i,
            None => {
                let mut msg = "节点不存在: ".to_owned();
                vstd::string::StringExecFns::append(&mut msg, path);
                return Err(VfsError::NodeNotFound(msg));
            },
        };
        let target = self.nodes[at].id;
        let gone = self.mark_doomed(target);
        let mut kept: Vec<VfsNode> = Vec::new();
        let mut i: usize = 0;
        while i < self.nodes.len()
            invariant
                rows == self.held(),
                gone@.len() == self.nodes@.len(),
                forall|k: int| 0 <= k < gone@.len() ==> gone@[k] == doomed(rows, target, k),
                i <= self.nodes@.len(),
                node_views(kept@) == survivors(rows, target, i as int),
            decreases self.nodes@.len() - i,
        {
            let ghost before = node_views(kept@);
            if !gone[i] {
                kept.push(self.nodes[i].clone());
                assert(node_views(kept@) =~= before.push(rows[i as int]));
            }
            i += 1;
        }
        proof {
            lemma_survivors_wf(rows, target);
            let after = node_views(kept@);
            assert forall|k: int| 0 <= k < kept@.len() implies (#[trigger] kept@[k]).id
                < self.next_id by {
                let j = choose|j: int| 0 <= j < rows.len() && rows[j] == after[k];
                assert(after[k].id == kept@[k].id);
                assert(self.nodes@[j].id < self.next_id);
            }
        }
        self.nodes = kept;
        Ok(())
    }

    fn rename(&mut self, old_path: &str, new_path: &str) -> (r: Result<(), VfsError>) {
        let ghost rows = self.held();
        let at = match self.position_of(old_path) {
            Some(i) => i,
            None => {
                let mut msg = "节点不存在: ".to_owned();
                vstd::string::StringExecFns::append(&mut msg, old_path);
                return Err(VfsError::NodeNotFound(msg));
            },
        };
        let from = old_path.to_owned();
        let to = new_path.to_owned();
        if to != from && self.position_of(new_path).is_some() {
            let mut msg = "节点已存在: ".to_owned();
            vstd::string::StringExecFns::append(&mut msg, new_path);
            return Err(VfsError::NodeExists(msg));
        }
        let mut node = self.nodes[at].clone();
        node.name = to;
        self.nodes.set(at, node);
        proof {
            let after = self.held();
            assert forall|k: int| 0 <= k < rows.len() implies after[k] == renamed(
                rows,
                old_path@,
                new_path@,
            )[k] by {
                if k != at {
                    if k < at {
                        assert(rows[k].name != rows[at as int].name);
                    } else {
                        assert(rows[at as int].name != rows[k].name);
                    }
                }
            }
            assert(after =~= renamed(rows, old_path@, new_path@));
            lemma_renamed_wf(rows, old_path@, new_path@);
            assert forall|i: int| 0 <= i < self.nodes@.len() implies (#[trigger] self.nodes@[i]).id
                < self.next_id by {
                assert(old(self).nodes@[i].id < old(self).next_id);
                assert(after[i].id == rows[i].id);
            }
        }
        Ok(())
    }

    fn get_node(&self, path: &str) -> (r: Result<VfsNode, VfsError>) {
        match self.position_of(path) {
            Some(i) => Ok(self.nodes[i].clone()),
            None => {
                let mut msg = "节点不存在: ".to_owned();
                vstd::string::StringExecFns::append(&mut msg, path);
                Err(VfsError::NodeNotFound(msg))
            },
        }
    }

    fn update_node(&mut self, node: &VfsNode) -> (r: Result<(), VfsError>) {
        let ghost rows = self.held();
        let at = match self.position_of_id(node.id, self.nodes.len()) {
            Some(i) => i,
            None => {
                let mut msg = "节点不存在: ".to_owned();
                vstd::string::StringExecFns::append(&mut msg, node.name.as_str());
                return Err(VfsError::NodeNotFound(msg));
            },
        };
        proof {
            lemma_id_position(rows, node.id, at as int);
        }
        let mut row = self.nodes[at].clone();
        row.owner_id = node.owner_id.clone();
        row.permissions = node.permissions;
        row.updated_at = now_micros();
        self.nodes.set(at, row);
        proof {
            let after = self.held();
            assert forall|a: int, b: int| 0 <= a < b < after.len() implies (#[trigger] after[a]).name
                != (#[trigger] after[b]).name by {
                assert(rows[a].name != rows[b].name);
            }
            assert forall|a: int, b: int| 0 <= a < b < after.len() implies (#[trigger] after[a]).id
                != (#[trigger] after[b]).id by {
                assert(rows[a].id != rows[b].id);
            }
            assert forall|k: int|
                0 <= k < after.len() && (#[trigger] after[k]).parent_id is Some implies holds_id(
                after.take(k),
                after[k].parent_id->Some_0,
            ) by {
                let pid = rows[k].parent_id->Some_0;
                assert(rows[k].parent_id is Some);
                assert(holds_id(rows.take(k), pid));
                let j = index_of_id(rows.take(k), pid);
                assert(rows.take(k)[j].id == pid);
                assert(after.take(k)[j].id == pid);
            }
            assert forall|k: int| 0 <= k < after.len() implies 0 <= (#[trigger] after[k]).permissions
                <= 0o777 by {
                if k != at {
                    assert(0 <= rows[k].permissions <= 0o777);
                }
            }
            assert forall|k: int| 0 <= k < after.len() implies ((#[trigger] after[k]).parent_id
                is None <==> k == 0) by {
                assert(rows[k].parent_id is None <==> k == 0);
            }
            assert forall|i: int| 0 <= i < self.nodes@.len() implies (#[trigger] self.nodes@[i]).id
                < self.next_id by {
                assert(old(self).nodes@[i].id < old(self).next_id);
                assert(after[i].id == rows[i].id);
            }
        }
        Ok(())
    }
}

} // verus!
