//! The document tree: an arena of nodes linked by index.
use vstd::prelude::*;
use crate::element::Element;
use vstd::string::StringExecFns;

verus! {

/// The fields of a `<!DOCTYPE>` node.
pub struct Doctype {
    pub name: String,
    pub public_id: String,
    pub system_id: String,
    pub force_quirks: bool,
}

/// What a node holds.
pub enum NodeData {
    Element(Element),
    Text(String),
    Comment(String),
    Doctype(Doctype),
}

/// One node of the arena with its links.
pub struct Node {
    data: NodeData,
    parent: Option<usize>,
    children: Vec<usize>,
}

/// Why two nodes could not be linked.
#[derive(Clone, Copy, Debug, PartialEq, Eq, Structural)]
pub enum TreeError {
    /// A handle does not name a node of this document.
    NoSuchNode,
    /// The child is the root, already has a parent, or is the parent itself.
    AlreadyLinked,
}

/// A document: node 0 is the root; every other node has at most one parent,
/// and each parent lists its children in the order they were appended.
pub struct Document {
    nodes: Vec<Node>,
}

impl Document {
    pub closed spec fn len(&self) -> nat {
        self.nodes@.len()
    }

    pub closed spec fn parent(&self, i: int) -> Option<usize> {
        self.nodes@[i].parent
    }

    pub closed spec fn children(&self, i: int) -> Seq<usize> {
        self.nodes@[i].children@
    }

    pub closed spec fn data(&self, i: int) -> NodeData {
        self.nodes@[i].data
    }

    /// Parent and child links agree, and node 0 is a root.
    pub closed spec fn wf(&self) -> bool {
        &&& self.nodes@.len() >= 1
        &&& self.nodes@.len() <= usize::MAX
        &&& self.nodes@[0].parent.is_none()
        &&& forall|i: int, j: int|
            0 <= i < self.nodes@.len() && 0 <= j < self.children(i).len() ==> {
                &&& (#[trigger] self.children(i)[j]) < self.nodes@.len()
                &&& self.parent(self.children(i)[j] as int) == Some(i as usize)
            }
        &&& forall|c: int|
            0 <= c < self.nodes@.len() && (#[trigger] self.parent(c)).is_some() ==> {
                &&& self.parent(c).unwrap() < self.nodes@.len()
                &&& self.children(self.parent(c).unwrap() as int).contains(c as usize)
            }
        &&& forall|i: int| 0 <= i < self.nodes@.len() ==> (#[trigger] self.children(i)).no_duplicates()
    }

    /// What well-formedness says of the links: a node lists `c` among its
    /// children exactly when `c`'s parent is that node.
    pub proof fn lemma_links(&self)
        requires
            self.wf(),
        ensures
            self.len() >= 1,
            self.len() <= usize::MAX,
            self.parent(0).is_none(),
            forall|p: int, j: int|
                0 <= p < self.len() && 0 <= j < self.children(p).len() ==> {
                    &&& (#[trigger] self.children(p)[j]) < self.len()
                    &&& self.parent(self.children(p)[j] as int) == Some(p as usize)
                },
            forall|c: int|
                0 <= c < self.len() && (#[trigger] self.parent(c)).is_some() ==> {
                    &&& self.parent(c).unwrap() < self.len()
                    &&& self.children(self.parent(c).unwrap() as int).contains(c as usize)
                },
            forall|p: int| 0 <= p < self.len() ==> (#[trigger] self.children(p)).no_duplicates(),
    {
    }

    /// Every node but `n` keeps its data, parent and children.
    pub open spec fn unchanged_except(&self, other: &Document, n: int) -> bool {
        forall|i: int|
            0 <= i < other.len() && i != n ==> {
                &&& #[trigger] self.data(i) == other.data(i)
                &&& self.parent(i) == other.parent(i)
                &&& self.children(i) == other.children(i)
            }
    }

    /// A document holding only its root.
    pub fn new(root: NodeData) -> (r: Document)
        ensures
            r.wf(),
            r.len() == 1,
            r.data(0) == root,
            r.parent(0).is_none(),
            r.children(0).len() == 0,
    {
        let mut nodes = Vec::new();
        nodes.push(Node { data: root, parent: None, children: Vec::new() });
        Document { nodes }
    }

    /// Adds a node with no parent and no children; returns its handle.
    pub fn add_node(&mut self, data: NodeData) -> (r: usize)
        requires
            old(self).wf(),
            old(self).len() < usize::MAX,
        ensures
            final(self).wf(),
            r == old(self).len(),
            final(self).len() == old(self).len() + 1,
            final(self).data(r as int) == data,
            final(self).parent(r as int).is_none(),
            final(self).children(r as int).len() == 0,
            final(self).unchanged_except(old(self), r as int),
    {
        let r = self.nodes.len();
        self.nodes.push(Node { data, parent: None, children: Vec::new() });
        proof {
            assert forall|i: int| 0 <= i < self.nodes@.len() implies (
            #[trigger] self.children(i)).no_duplicates() by {
                if i < r {
                    assert(self.children(i) == old(self).children(i));
                }
            }
            assert forall|i: int, j: int|
                0 <= i < self.nodes@.len() && 0 <= j < self.children(i).len() implies {
                &&& (#[trigger] self.children(i)[j]) < self.nodes@.len()
                &&& self.parent(self.children(i)[j] as int) == Some(i as usize)
            } by {
                assert(i < r);
                assert(self.children(i) == old(self).children(i));
            }
            assert forall|c: int|
                0 <= c < self.nodes@.len() && (#[trigger] self.parent(c)).is_some() implies {
                &&& self.parent(c).unwrap() < self.nodes@.len()
                &&& self.children(self.parent(c).unwrap() as int).contains(c as usize)
            } by {
                assert(c < r);
                assert(self.parent(c) == old(self).parent(c));
                let p = self.parent(c).unwrap() as int;
                assert(self.children(p) == old(self).children(p));
            }
        }
        r
    }

    /// Links `child` as the last child of `parent`; returns `child`.
    pub fn append_child(&mut self, parent: usize, child: usize) -> (r: Result<usize, TreeError>)
        requires
            old(self).wf(),
        ensures
            final(self).wf(),
            final(self).len() == old(self).len(),
            parent >= old(self).len() || child >= old(self).len() ==> r == Err::<usize, TreeError>(TreeError::NoSuchNode),
            parent < old(self).len() && child < old(self).len() ==> {
                if child == 0 || child == parent || old(self).parent(child as int).is_some() {
                    r == Err::<usize, TreeError>(TreeError::AlreadyLinked)
                } else {
                    r == Ok::<usize, TreeError>(child)
                }
            },
            r.is_err() ==> *final(self) == *old(self),
            r.is_ok() ==> {
                &&& final(self).parent(child as int) == Some(parent)
                &&& final(self).children(parent as int) == old(self).children(parent as int).push(child)
                &&& final(self).children(child as int) == old(self).children(child as int)
                &&& forall|i: int| 0 <= i < old(self).len() ==> #[trigger] final(self).data(i) == old(self).data(i)
                &&& forall|i: int| 0 <= i < old(self).len() && i != child ==> #[trigger] final(self).parent(i) == old(self).parent(i)
                &&& forall|i: int| 0 <= i < old(self).len() && i != parent ==> #[trigger] final(self).children(i) == old(self).children(i)
            },
    {
        let n = self.nodes.len();
        if parent >= n || child >= n {
            return Err(TreeError::NoSuchNode);
        }
        if child == 0 || child == parent || self.nodes[child].parent.is_some() {
            return Err(TreeError::AlreadyLinked);
        }
        let ghost pre = *self;
        proof {
            if pre.children(parent as int).contains(child) {
                let j = pre.children(parent as int).index_of(child);
                assert(pre.children(parent as int)[j] == child);
            }
        }
        let mut pnode = self.nodes.remove(parent);
        pnode.children.push(child);
        self.nodes.insert(parent, pnode);
        let mut cnode = self.nodes.remove(child);
        cnode.parent = Some(parent);
        self.nodes.insert(child, cnode);
        proof {
            assert forall|i: int| 0 <= i < n implies #[trigger] self.nodes@[i] == if i == parent as int {
                Node { data: pre.nodes@[i].data, parent: pre.nodes@[i].parent, children: self.nodes@[i].children }
            } else if i == child as int {
                Node { data: pre.nodes@[i].data, parent: Some(parent), children: pre.nodes@[i].children }
            } else {
                pre.nodes@[i]
            } by {}
            assert forall|i: int| 0 <= i < n implies (#[trigger] self.children(i)).no_duplicates() by {
                assert(self.nodes@[i] == self.nodes@[i]);
                assert(pre.children(i).no_duplicates());
                if i == parent as int {
                    assert(!pre.children(i).contains(child));
                    let s = self.children(i);
                    assert(s =~= pre.children(i).push(child));
                    assert forall|a: int, b: int| 0 <= a < s.len() && 0 <= b < s.len() && a != b implies s[a] != s[b] by {
                        if a < s.len() - 1 && b < s.len() - 1 {
                            assert(pre.children(i)[a] == s[a] && pre.children(i)[b] == s[b]);
                        } else if a == s.len() - 1 {
                            assert(pre.children(i)[b] == s[b]);
                        } else {
                            assert(pre.children(i)[a] == s[a]);
                        }
                    }
                } else {
                    assert(self.children(i) == pre.children(i));
                }
            }
            assert forall|i: int, j: int|
                0 <= i < n && 0 <= j < self.children(i).len() implies {
                &&& (#[trigger] self.children(i)[j]) < n
                &&& self.parent(self.children(i)[j] as int) == Some(i as usize)
            } by {
                assert(self.nodes@[i] == self.nodes@[i]);
                if i == parent as int && j == self.children(i).len() - 1 {
                } else {
                    assert(pre.children(i)[j] == self.children(i)[j]);
                    let k = pre.children(i)[j] as int;
                    assert(self.nodes@[k] == self.nodes@[k]);
                    assert(pre.children(i)[j] != child);
                }
            }
            assert forall|c: int|
                0 <= c < n && (#[trigger] self.parent(c)).is_some() implies {
                &&& self.parent(c).unwrap() < n
                &&& self.children(self.parent(c).unwrap() as int).contains(c as usize)
            } by {
                if c == child as int {
                    assert(self.children(parent as int).last() == child);
                } else {
                    assert(self.nodes@[c] == self.nodes@[c]);
                    assert(pre.parent(c) == self.parent(c));
                    let p = self.parent(c).unwrap() as int;
                    assert(self.nodes@[p] == self.nodes@[p]);
                    assert(pre.children(p).contains(c as usize));
                    let j = pre.children(p).index_of(c as usize);
                    assert(self.children(p)[j] == c as usize);
                }
            }
        }
        Ok(child)
    }

    /// The text of the text nodes among `kids`, in order.
    pub closed spec fn text_of(&self, kids: Seq<usize>) -> Seq<char>
        decreases kids.len(),
    {
        if kids.len() == 0 {
            Seq::empty()
        } else {
            let rest = self.text_of(kids.drop_last());
            match self.data(kids.last() as int) {
                NodeData::Text(t) => rest + t@,
                _ => rest,
            }
        }
    }

    /// The text of a node's text children, joined in child order.
    pub fn child_text(&self, i: usize) -> (r: String)
        requires
            self.wf(),
            i < self.len(),
        ensures
            r@ == self.text_of(self.children(i as int)),
    {
        let kids = &self.nodes[i].children;
        let mut out = String::new();
        let mut k: usize = 0;
        while k < kids.len()
            invariant
                self.wf(),
                i < self.len(),
                kids@ == self.children(i as int),
                k <= kids.len(),
                out@ == self.text_of(kids@.subrange(0, k as int)),
            decreases kids.len() - k,
        {
            let c = kids[k];
            assert(kids@.subrange(0, k + 1).drop_last() =~= kids@.subrange(0, k as int));
            match &self.nodes[c].data {
                NodeData::Text(t) => {
                    out.append(t.as_str());
                },
                _ => {},
            }
            k = k + 1;
        }
        assert(kids@.subrange(0, k as int) =~= kids@);
        out
    }

    /// Number of nodes.
    pub fn node_count(&self) -> (r: usize)
        ensures
            r == self.len(),
    {
        self.nodes.len()
    }

    /// The parent of a node, if any.
    pub fn parent_of(&self, i: usize) -> (r: Option<usize>)
        requires
            i < self.len(),
        ensures
            r == self.parent(i as int),
    {
        self.nodes[i].parent
    }

    /// The children of a node, in order.
    pub fn children_of(&self, i: usize) -> (r: &Vec<usize>)
        requires
            i < self.len(),
        ensures
            r@ == self.children(i as int),
    {
        &self.nodes[i].children
    }

    /// What a node holds.
    pub fn data_of(&self, i: usize) -> (r: &NodeData)
        requires
            i < self.len(),
        ensures
            *r == self.data(i as int),
    {
        &self.nodes[i].data
    }
}

} // verus!
