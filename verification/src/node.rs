//! Nodes of the control-group tree, named by their path from the top.

use vstd::prelude::*;
use vstd::string::*;

verus! {

/// The mathematical form of a path: the names from the top of the tree down
/// to the node. The empty path is the top of the tree.
pub type NodePath = Seq<Seq<char>>;

/// Whether `name` can name a node: not empty, not `.` or `..`, and free of
/// `/` and of the NUL character.
pub open spec fn valid_name(name: Seq<char>) -> bool {
    &&& name.len() > 0
    &&& forall|i: int| 0 <= i < name.len() ==> #[trigger] name[i] != '/' && name[i] != '\0'
    &&& !(name.len() == 1 && name[0] == '.')
    &&& !(name.len() == 2 && name[0] == '.' && name[1] == '.')
}

/// The path of `child`'s parent; only meaningful below the top.
pub open spec fn parent_path(child: NodePath) -> NodePath {
    child.drop_last()
}

/// Whether `child` lies directly below `parent`.
pub open spec fn is_child_path(child: NodePath, parent: NodePath) -> bool {
    child.len() == parent.len() + 1 && child.drop_last() == parent
}

/// The file-system path of a node: the mount point, then `/` and a name for
/// every step down.
pub open spec fn render_path(mount: Seq<char>, path: NodePath) -> Seq<char>
    decreases path.len(),
{
    if path.len() == 0 {
        mount
    } else {
        render_path(mount, path.drop_last()) + seq!['/'] + path.last()
    }
}

/// Decides [`valid_name`].
pub fn is_valid_name(name: &str) -> (valid: bool)
    ensures
        valid == valid_name(name@),
{
    let len: usize = name.unicode_len();
    if len == 0 {
        return false;
    }
    let mut i: usize = 0;
    while i < len
        invariant
            len == name@.len(),
            i <= len,
            forall|j: int| 0 <= j < i ==> #[trigger] name@[j] != '/' && name@[j] != '\0',
        decreases len - i,
    {
        let c: char = name.get_char(i);
        if c == '/' || c == '\0' {
            return false;
        }
        i += 1;
    }
    if len == 1 && name.get_char(0) == '.' {
        return false;
    }
    if len == 2 && name.get_char(0) == '.' && name.get_char(1) == '.' {
        return false;
    }
    true
}

/// A node of the control-group tree, identified by its path.
#[derive(Debug)]
pub struct HierarchyNode {
    segments: Vec<String>,
}

impl View for HierarchyNode {
    type V = NodePath;

    closed spec fn view(&self) -> NodePath {
        Seq::new(self.segments@.len(), |i: int| self.segments@[i]@)
    }
}

impl Clone for HierarchyNode {
    fn clone(&self) -> (copy: Self)
        ensures
            copy@ == self@,
    {
        let mut segments: Vec<String> = Vec::new();
        let mut i: usize = 0;
        while i < self.segments.len()
            invariant
                i <= self.segments@.len(),
                segments@.len() == i,
                forall|j: int| 0 <= j < i ==> segments@[j]@ == self.segments@[j]@,
            decreases self.segments@.len() - i,
        {
            segments.push(self.segments[i].clone());
            i += 1;
        }
        HierarchyNode { segments }
    }
}

impl HierarchyNode {
    /// The top of the tree.
    pub fn root() -> (node: Self)
        ensures
            node@ == Seq::<Seq<char>>::empty(),
    {
        HierarchyNode { segments: Vec::new() }
    }

    /// The node called `name` directly below this one; `None` where `name`
    /// cannot name a node.
    pub fn child(&self, name: &str) -> (node: Option<Self>)
        ensures
            match node {
                Some(child) => valid_name(name@) && child@ == self@.push(name@),
                None => !valid_name(name@),
            },
    {
        if !is_valid_name(name) {
            return None;
        }
        let mut child = self.clone();
        child.segments.push(String::from_str(name));
        Some(child)
    }

    /// The node directly above this one; `None` at the top.
    pub fn parent(&self) -> (node: Option<Self>)
        ensures
            match node {
                Some(parent) => self@.len() > 0 && parent@ == parent_path(self@),
                None => self@.len() == 0,
            },
    {
        if self.segments.len() == 0 {
            return None;
        }
        let mut parent = self.clone();
        parent.segments.pop();
        Some(parent)
    }

    /// How many steps below the top the node lies.
    pub fn depth(&self) -> (steps: usize)
        ensures
            steps == self@.len(),
    {
        self.segments.len()
    }

    /// Whether this is the top of the tree.
    pub fn is_root(&self) -> (top: bool)
        ensures
            top == (self@.len() == 0),
    {
        self.segments.len() == 0
    }

    /// The node's own name, the last of its path; `None` at the top.
    pub fn name(&self) -> (name: Option<&str>)
        ensures
            match name {
                Some(text) => self@.len() > 0 && text@ == self@.last(),
                None => self@.len() == 0,
            },
    {
        if self.segments.len() == 0 {
            None
        } else {
            Some(self.segments[self.segments.len() - 1].as_str())
        }
    }

    /// Whether both nodes have the same path.
    pub fn same_path(&self, other: &HierarchyNode) -> (same: bool)
        ensures
            same == (self@ == other@),
    {
        if self.segments.len() != other.segments.len() {
            assert(self@.len() != other@.len());
            return false;
        }
        let mut i: usize = 0;
        while i < self.segments.len()
            invariant
                self.segments@.len() == other.segments@.len(),
                i <= self.segments@.len(),
                forall|j: int| 0 <= j < i ==> self.segments@[j]@ == other.segments@[j]@,
            decreases self.segments@.len() - i,
        {
            if self.segments[i] != other.segments[i] {
                assert(self@[i as int] != other@[i as int]);
                return false;
            }
            i += 1;
        }
        assert(self@ =~= other@);
        true
    }

    /// Whether this node lies directly below `parent`.
    pub fn is_child_of(&self, parent: &HierarchyNode) -> (below: bool)
        ensures
            below == is_child_path(self@, parent@),
    {
        if self.segments.len() == 0 || self.segments.len() - 1 != parent.segments.len() {
            return false;
        }
        let mut i: usize = 0;
        while i < parent.segments.len()
            invariant
                self.segments@.len() == parent.segments@.len() + 1,
                i <= parent.segments@.len(),
                forall|j: int| 0 <= j < i ==> self.segments@[j]@ == parent.segments@[j]@,
            decreases parent.segments@.len() - i,
        {
            if self.segments[i] != parent.segments[i] {
                assert(self@.drop_last()[i as int] != parent@[i as int]);
                return false;
            }
            i += 1;
        }
        assert(self@.drop_last() =~= parent@);
        true
    }

    /// The node's path in the file system mounted at `mount`.
    pub fn render(&self, mount: &str) -> (path: String)
        ensures
            path@ == render_path(mount@, self@),
    {
        let mut path = String::from_str(mount);
        let mut i: usize = 0;
        while i < self.segments.len()
            invariant
                i <= self.segments@.len(),
                path@ == render_path(mount@, self@.take(i as int)),
            decreases self.segments@.len() - i,
        {
            proof {
                reveal_strlit("/");
                assert(self@.take(i + 1).drop_last() =~= self@.take(i as int));
            }
            path.append("/");
            path.append(self.segments[i].as_str());
            i += 1;
        }
        assert(self@.take(self@.len() as int) =~= self@);
        path
    }
}

} // verus!
