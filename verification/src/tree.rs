//! The manifest as a tree of nodes held in one vector, in document order.
//!
//! A node is named by its index, and names its parent by index; node 0
//! stands for the document itself and has no parent. The children of a node
//! are the nodes that name it as their parent, in ascending index order. An
//! index that is not in the vector names a node without attributes and
//! without children. No more is asked of a tree: every function here takes
//! any vector of nodes.

use vstd::prelude::*;
use crate::text::{chars_eq, chars_of};

verus! {

/// One attribute of an element: its local name and its value.
#[derive(Debug, Clone, PartialEq, Eq)]
pub struct Attribute {
    pub name: Vec<char>,
    pub value: Vec<char>,
}

/// One node of the tree.
#[derive(Debug, Clone, PartialEq, Eq)]
pub struct Node {
    /// The index of the parent node; `None` for the document node.
    pub parent: Option<usize>,
    /// Whether the node is an element (and not text, a comment or the like).
    pub element: bool,
    /// The local name of an element; empty for other nodes.
    pub name: Vec<char>,
    /// The attributes of an element, in document order.
    pub attributes: Vec<Attribute>,
}

/// A manifest document.
#[derive(Debug, Clone, PartialEq, Eq)]
pub struct ManifestTree {
    pub nodes: Vec<Node>,
}

/// What an attribute is, mathematically.
pub ghost struct AttributeView {
    pub name: Seq<char>,
    pub value: Seq<char>,
}

/// What a node is, mathematically.
pub ghost struct NodeView {
    pub parent: Option<int>,
    pub element: bool,
    pub name: Seq<char>,
    pub attributes: Seq<AttributeView>,
}

impl View for Attribute {
    type V = AttributeView;

    open spec fn view(&self) -> AttributeView {
        AttributeView { name: self.name@, value: self.value@ }
    }
}

impl View for Node {
    type V = NodeView;

    open spec fn view(&self) -> NodeView {
        NodeView {
            parent: match self.parent {
                Some(p) => Some(p as int),
                None => None,
            },
            element: self.element,
            name: self.name@,
            attributes: Seq::new(self.attributes@.len(), |i: int| self.attributes@[i]@),
        }
    }
}

/// The views of the nodes of a vector, in order.
pub open spec fn nodes_view(nodes: Seq<Node>) -> Seq<NodeView> {
    Seq::new(nodes.len(), |i: int| nodes[i]@)
}

impl View for ManifestTree {
    type V = Seq<NodeView>;

    open spec fn view(&self) -> Seq<NodeView> {
        nodes_view(self.nodes@)
    }
}

/// The value of the first attribute called `name` among `attributes[from..]`.
pub open spec fn attribute_from(attributes: Seq<AttributeView>, name: Seq<char>, from: int) -> Option<
    Seq<char>,
>
    decreases attributes.len() - from,
{
    if from < 0 || from >= attributes.len() {
        None
    } else if attributes[from].name == name {
        Some(attributes[from].value)
    } else {
        attribute_from(attributes, name, from + 1)
    }
}

/// The value of the attribute `name` of `node`: that of the first attribute
/// of this name, if the node exists and has one.
pub open spec fn attribute_of(tree: Seq<NodeView>, node: int, name: Seq<char>) -> Option<
    Seq<char>,
> {
    if 0 <= node < tree.len() {
        attribute_from(tree[node].attributes, name, 0)
    } else {
        None
    }
}

/// Whether node `i` is an element called `name` and a child of `parent`.
pub open spec fn is_child_element(tree: Seq<NodeView>, parent: int, name: Seq<char>, i: int) -> bool {
    &&& 0 <= i < tree.len()
    &&& tree[i].parent == Some(parent)
    &&& tree[i].element
    &&& tree[i].name == name
}

/// The child elements of `parent` called `name` among the first `upto`
/// nodes, in document order.
pub open spec fn child_elements_upto(
    tree: Seq<NodeView>,
    parent: int,
    name: Seq<char>,
    upto: int,
) -> Seq<int>
    decreases upto,
{
    if upto <= 0 {
        Seq::empty()
    } else {
        let before = child_elements_upto(tree, parent, name, upto - 1);
        if is_child_element(tree, parent, name, upto - 1) {
            before.push(upto - 1)
        } else {
            before
        }
    }
}

/// The child elements of `parent` called `name`, in document order.
pub open spec fn child_elements(tree: Seq<NodeView>, parent: int, name: Seq<char>) -> Seq<int> {
    child_elements_upto(tree, parent, name, tree.len() as int)
}

/// The first child element of `parent` called `name`.
pub open spec fn first_child(tree: Seq<NodeView>, parent: int, name: Seq<char>) -> Option<int> {
    let all = child_elements(tree, parent, name);
    if all.len() > 0 {
        Some(all[0])
    } else {
        None
    }
}

/// Whether node `i` is an element and a child of the document node.
pub open spec fn is_top_element(tree: Seq<NodeView>, i: int) -> bool {
    &&& 0 <= i < tree.len()
    &&& tree[i].parent == Some(0int)
    &&& tree[i].element
}

/// The first top element at or after `from`.
pub open spec fn top_element_from(tree: Seq<NodeView>, from: int) -> Option<int>
    decreases tree.len() - from,
{
    if from < 0 || from >= tree.len() {
        None
    } else if is_top_element(tree, from) {
        Some(from)
    } else {
        top_element_from(tree, from + 1)
    }
}

/// The root element: the first element child of the document node.
pub open spec fn root_element(tree: Seq<NodeView>) -> Option<int> {
    top_element_from(tree, 0)
}

/// The indices of a vector as mathematical integers.
pub open spec fn as_ints(indices: Seq<usize>) -> Seq<int> {
    Seq::new(indices.len(), |k: int| indices[k] as int)
}

/// Every entry of the list of child elements is a child element of
/// `parent` called `name`, and the entries come in ascending order.
pub proof fn lemma_child_elements_are_children(
    tree: Seq<NodeView>,
    parent: int,
    name: Seq<char>,
    upto: int,
)
    requires
        upto <= tree.len(),
    ensures
        forall|k: int|
            0 <= k < child_elements_upto(tree, parent, name, upto).len() ==> {
                &&& is_child_element(
                    tree,
                    parent,
                    name,
                    #[trigger] child_elements_upto(tree, parent, name, upto)[k],
                )
                &&& child_elements_upto(tree, parent, name, upto)[k] < upto
            },
        forall|j: int, k: int|
            0 <= j < k < child_elements_upto(tree, parent, name, upto).len()
                ==> #[trigger] child_elements_upto(tree, parent, name, upto)[j]
                < #[trigger] child_elements_upto(tree, parent, name, upto)[k],
    decreases upto,
{
    if upto > 0 {
        lemma_child_elements_are_children(tree, parent, name, upto - 1);
        let before = child_elements_upto(tree, parent, name, upto - 1);
        let all = child_elements_upto(tree, parent, name, upto);
        assert forall|k: int| 0 <= k < all.len() implies is_child_element(
            tree,
            parent,
            name,
            #[trigger] all[k],
        ) && all[k] < upto by {
            if k < before.len() {
                assert(all[k] == before[k]);
            }
        }
        assert forall|j: int, k: int| 0 <= j < k < all.len() implies #[trigger] all[j]
            < #[trigger] all[k] by {
            assert(all[j] == before[j]);
            if k < before.len() {
                assert(all[k] == before[k]);
            }
        }
    }
}

/// Every child element of `parent` called `name` is among the child
/// elements: the list leaves none out.
pub proof fn lemma_children_are_child_elements(
    tree: Seq<NodeView>,
    parent: int,
    name: Seq<char>,
    upto: int,
    child: int,
)
    requires
        is_child_element(tree, parent, name, child),
        child < upto,
    ensures
        exists|k: int|
            0 <= k < child_elements_upto(tree, parent, name, upto).len()
                && #[trigger] child_elements_upto(tree, parent, name, upto)[k] == child,
    decreases upto,
{
    let all = child_elements_upto(tree, parent, name, upto);
    if child == upto - 1 {
        assert(all[all.len() - 1] == child);
    } else {
        lemma_children_are_child_elements(tree, parent, name, upto - 1, child);
        let before = child_elements_upto(tree, parent, name, upto - 1);
        let k = choose|k: int| 0 <= k < before.len() && #[trigger] before[k] == child;
        assert(all[k] == child);
    }
}

/// The view of a node that is no element: it has no name and no attributes.
pub open spec fn plain_node(parent: Option<int>) -> NodeView {
    NodeView { parent, element: false, name: Seq::empty(), attributes: Seq::empty() }
}

/// The view of an element without attributes.
pub open spec fn bare_element(parent: int, name: Seq<char>) -> NodeView {
    NodeView { parent: Some(parent), element: true, name, attributes: Seq::empty() }
}

/// `node` with one more attribute behind those it has.
pub open spec fn with_attribute(node: NodeView, name: Seq<char>, value: Seq<char>) -> NodeView {
    NodeView { attributes: node.attributes.push(AttributeView { name, value }), ..node }
}

impl ManifestTree {
    /// A tree that holds the document node alone.
    pub fn new() -> (tree: ManifestTree)
        ensures
            tree@ == seq![plain_node(None)],
    {
        let mut nodes: Vec<Node> = Vec::new();
        nodes.push(Node { parent: None, element: false, name: Vec::new(), attributes: Vec::new() });
        let tree = ManifestTree { nodes };
        assert(tree@ =~= seq![plain_node(None)]) by {
            assert(tree@[0].attributes =~= Seq::empty());
        }
        tree
    }

    /// Adds an element without attributes as the last node, and returns its
    /// index.
    pub fn add_element(&mut self, parent: usize, name: &str) -> (index: usize)
        ensures
            index == old(self)@.len(),
            final(self)@ == old(self)@.push(bare_element(parent as int, name@)),
    {
        let index = self.nodes.len();
        self.nodes.push(
            Node { parent: Some(parent), element: true, name: chars_of(name), attributes: Vec::new() },
        );
        proof {
            assert(self@[index as int].attributes =~= Seq::empty());
            assert(self@ =~= old(self)@.push(bare_element(parent as int, name@)));
        }
        index
    }

    /// Adds a node that is no element (text, a comment) as the last node,
    /// and returns its index.
    pub fn add_text(&mut self, parent: usize) -> (index: usize)
        ensures
            index == old(self)@.len(),
            final(self)@ == old(self)@.push(plain_node(Some(parent as int))),
    {
        let index = self.nodes.len();
        self.nodes.push(
            Node { parent: Some(parent), element: false, name: Vec::new(), attributes: Vec::new() },
        );
        proof {
            assert(self@[index as int].attributes =~= Seq::empty());
            assert(self@ =~= old(self)@.push(plain_node(Some(parent as int))));
        }
        index
    }

    /// Gives `node` one more attribute, behind those it has. A node that is
    /// not in the tree is left alone.
    pub fn set_attribute(&mut self, node: usize, name: &str, value: &str)
        ensures
            final(self)@ == if node < old(self)@.len() {
                old(self)@.update(
                    node as int,
                    with_attribute(old(self)@[node as int], name@, value@),
                )
            } else {
                old(self)@
            },
    {
        if node < self.nodes.len() {
            let attribute = Attribute { name: chars_of(name), value: chars_of(value) };
            self.nodes[node].attributes.push(attribute);
            proof {
                let expected = old(self)@.update(
                    node as int,
                    with_attribute(old(self)@[node as int], name@, value@),
                );
                assert(self@[node as int].attributes =~= expected[node as int].attributes);
                assert(self@ =~= expected);
            }
        }
    }

    /// The number of nodes.
    pub fn len(&self) -> (n: usize)
        ensures
            n == self@.len(),
    {
        self.nodes.len()
    }

    /// The value of the attribute `name` of `node`.
    pub fn attribute(&self, node: usize, name: &Vec<char>) -> (value: Option<&Vec<char>>)
        ensures
            match value {
                Some(v) => attribute_of(self@, node as int, name@) == Some(v@),
                None => attribute_of(self@, node as int, name@) is None,
            },
    {
        if node >= self.nodes.len() {
            return None;
        }
        let attributes = &self.nodes[node].attributes;
        let ghost views = self@[node as int].attributes;
        let mut i: usize = 0;
        while i < attributes.len()
            invariant
                i <= attributes.len(),
                node < self.nodes.len(),
                views == self@[node as int].attributes,
                views.len() == attributes.len(),
                forall|k: int| 0 <= k < views.len() ==> #[trigger] views[k] == attributes@[k]@,
                attribute_from(views, name@, 0) == attribute_from(views, name@, i as int),
            decreases attributes.len() - i,
        {
            assert(views[i as int] == attributes@[i as int]@);
            if chars_eq(&attributes[i].name, name) {
                return Some(&attributes[i].value);
            }
            i += 1;
        }
        None
    }

    /// The child elements of `parent` called `name`, in document order.
    pub fn child_elements(&self, parent: usize, name: &Vec<char>) -> (found: Vec<usize>)
        ensures
            as_ints(found@) == child_elements(self@, parent as int, name@),
    {
        let mut found: Vec<usize> = Vec::new();
        let mut i: usize = 0;
        while i < self.nodes.len()
            invariant
                i <= self.nodes.len(),
                as_ints(found@) == child_elements_upto(self@, parent as int, name@, i as int),
            decreases self.nodes.len() - i,
        {
            let node = &self.nodes[i];
            assert(self@[i as int] == node@);
            let ghost before = as_ints(found@);
            let is_child = match node.parent {
                Some(p) => p == parent,
                None => false,
            };
            if is_child && node.element && chars_eq(&node.name, name) {
                found.push(i);
                assert(as_ints(found@) =~= before.push(i as int));
            }
            i += 1;
        }
        found
    }

    /// The first child element of `parent` called `name`.
    pub fn find_child(&self, parent: usize, name: &Vec<char>) -> (child: Option<usize>)
        ensures
            match child {
                Some(c) => first_child(self@, parent as int, name@) == Some(c as int),
                None => first_child(self@, parent as int, name@) is None,
            },
    {
        let all = self.child_elements(parent, name);
        if all.len() > 0 {
            assert(as_ints(all@)[0] == all@[0]);
            Some(all[0])
        } else {
            assert(as_ints(all@).len() == 0);
            None
        }
    }

    /// The root element: the first element child of the document node.
    pub fn root_element(&self) -> (root: Option<usize>)
        ensures
            match root {
                Some(r) => root_element(self@) == Some(r as int),
                None => root_element(self@) is None,
            },
    {
        let mut i: usize = 0;
        while i < self.nodes.len()
            invariant
                i <= self.nodes.len(),
                root_element(self@) == top_element_from(self@, i as int),
            decreases self.nodes.len() - i,
        {
            let node = &self.nodes[i];
            assert(self@[i as int] == node@);
            let is_top = match node.parent {
                Some(p) => p == 0,
                None => false,
            };
            if is_top && node.element {
                return Some(i);
            }
            i += 1;
        }
        None
    }
}

} // verus!
