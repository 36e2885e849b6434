//! The compositor's node tree, as the renamer reads it.
//!
//! A sync pass receives a transient snapshot of the window-manager tree.
//! Only a few attributes of each node matter here: its type, its name, its
//! Wayland application id, its X11 window properties, and its regular and
//! floating children. The snapshot is modelled by [`Node`], whose
//! mathematical value is [`NodeView`].

use vstd::prelude::*;
use crate::strutil::{clone_opt_string, str_eq, view_opt};

verus! {

/// The type of a tree node, as the compositor reports it.
#[derive(Clone, Copy, PartialEq, Eq, Structural, Debug)]
pub enum NodeType {
    Root,
    Output,
    Workspace,
    Con,
    FloatingCon,
    Dockarea,
}

/// The X11 window properties a window node may carry.
#[derive(Debug)]
pub struct WindowProperties {
    pub class: Option<String>,
    pub instance: Option<String>,
    pub title: Option<String>,
}

/// The view of [`WindowProperties`]: each property as a character sequence.
#[verifier::ext_equal]
pub struct PropsView {
    pub class: Option<Seq<char>>,
    pub instance: Option<Seq<char>>,
    pub title: Option<Seq<char>>,
}

/// The view of a window-property set.
pub open spec fn props_view(p: WindowProperties) -> PropsView {
    PropsView {
        class: view_opt(p.class),
        instance: view_opt(p.instance),
        title: view_opt(p.title),
    }
}

/// One node of the tree snapshot.
#[derive(Debug)]
pub struct Node {
    pub node_type: NodeType,
    pub name: Option<String>,
    pub app_id: Option<String>,
    pub window_properties: Option<WindowProperties>,
    pub nodes: Vec<Node>,
    pub floating_nodes: Vec<Node>,
}

/// The view of a [`Node`]: the same shape over mathematical sequences.
#[verifier::ext_equal]
pub struct NodeView {
    pub node_type: NodeType,
    pub name: Option<Seq<char>>,
    pub app_id: Option<Seq<char>>,
    pub window_properties: Option<PropsView>,
    pub nodes: Seq<NodeView>,
    pub floating_nodes: Seq<NodeView>,
}

/// The view of a node, recursively.
pub open spec fn node_view(n: Node) -> NodeView
    decreases n,
{
    NodeView {
        node_type: n.node_type,
        name: view_opt(n.name),
        app_id: view_opt(n.app_id),
        window_properties: match n.window_properties {
            Some(p) => Some(props_view(p)),
            None => None,
        },
        nodes: nodes_view(n.nodes@),
        floating_nodes: nodes_view(n.floating_nodes@),
    }
}

/// The view of a sequence of nodes.
pub open spec fn nodes_view(s: Seq<Node>) -> Seq<NodeView>
    decreases s,
{
    if s.len() == 0 {
        Seq::empty()
    } else {
        seq![node_view(s[0])] + nodes_view(s.drop_first())
    }
}

/// `nodes_view` maps `node_view` over the sequence, element by element.
pub proof fn lemma_nodes_view_index(s: Seq<Node>)
    ensures
        nodes_view(s).len() == s.len(),
        forall|i: int| 0 <= i < s.len() ==> #[trigger] nodes_view(s)[i] == node_view(s[i]),
    decreases s,
{
    if s.len() != 0 {
        lemma_nodes_view_index(s.drop_first());
        assert forall|i: int| 0 <= i < s.len()
            implies #[trigger] nodes_view(s)[i] == node_view(s[i]) by {
            if i > 0 {
                assert(nodes_view(s)[i] == nodes_view(s.drop_first())[i - 1]);
                assert(s.drop_first()[i - 1] == s[i]);
            }
        }
    }
}

/// `nodes_view` commutes with appending one node.
pub proof fn lemma_nodes_view_push(s: Seq<Node>, n: Node)
    ensures
        nodes_view(s.push(n)) == nodes_view(s).push(node_view(n)),
{
    lemma_nodes_view_index(s);
    lemma_nodes_view_index(s.push(n));
    assert forall|i: int| 0 <= i < nodes_view(s.push(n)).len()
        implies nodes_view(s.push(n))[i] == nodes_view(s).push(node_view(n))[i] by {
        if i < s.len() {
            assert(s.push(n)[i] == s[i]);
        } else {
            assert(s.push(n)[i] == n);
        }
    }
    assert(nodes_view(s.push(n)) =~= nodes_view(s).push(node_view(n)));
}

impl Clone for WindowProperties {
    /// Cloning preserves every property.
    fn clone(&self) -> (r: Self)
        ensures
            r == *self,
    {
        WindowProperties {
            class: clone_opt_string(&self.class),
            instance: clone_opt_string(&self.instance),
            title: clone_opt_string(&self.title),
        }
    }
}

/// Clones a subtree, preserving its view.
fn clone_node(n: &Node) -> (r: Node)
    ensures
        node_view(r) == node_view(*n),
    decreases *n,
{
    let mut nodes: Vec<Node> = Vec::new();
    let mut i: usize = 0;
    while i < n.nodes.len()
        invariant
            i <= n.nodes.len(),
            nodes@.len() == i,
            nodes_view(nodes@) == nodes_view(n.nodes@.take(i as int)),
        decreases n.nodes.len() - i,
    {
        let c = clone_node(&n.nodes[i]);
        proof {
            lemma_nodes_view_push(nodes@, c);
            lemma_nodes_view_push(n.nodes@.take(i as int), n.nodes@[i as int]);
            assert(n.nodes@.take(i as int).push(n.nodes@[i as int])
                =~= n.nodes@.take(i + 1 as int));
        }
        nodes.push(c);
        i += 1;
    }
    let mut floating_nodes: Vec<Node> = Vec::new();
    let mut j: usize = 0;
    while j < n.floating_nodes.len()
        invariant
            j <= n.floating_nodes.len(),
            floating_nodes@.len() == j,
            nodes_view(floating_nodes@) == nodes_view(n.floating_nodes@.take(j as int)),
        decreases n.floating_nodes.len() - j,
    {
        let c = clone_node(&n.floating_nodes[j]);
        proof {
            lemma_nodes_view_push(floating_nodes@, c);
            lemma_nodes_view_push(n.floating_nodes@.take(j as int), n.floating_nodes@[j as int]);
            assert(n.floating_nodes@.take(j as int).push(n.floating_nodes@[j as int])
                =~= n.floating_nodes@.take(j + 1 as int));
        }
        floating_nodes.push(c);
        j += 1;
    }
    proof {
        assert(n.nodes@.take(n.nodes@.len() as int) =~= n.nodes@);
        assert(n.floating_nodes@.take(n.floating_nodes@.len() as int) =~= n.floating_nodes@);
    }
    let r = Node {
        node_type: n.node_type,
        name: clone_opt_string(&n.name),
        app_id: clone_opt_string(&n.app_id),
        window_properties: match &n.window_properties {
            Some(p) => Some(p.clone()),
            None => None,
        },
        nodes,
        floating_nodes,
    };
    proof {
        assert(node_view(r) =~= node_view(*n));
    }
    r
}

impl Clone for Node {
    /// Cloning preserves the subtree's view.
    fn clone(&self) -> (r: Self)
        ensures
            node_view(r) == node_view(*self),
    {
        clone_node(self)
    }
}

/// Whether a workspace name is reserved for a scratchpad and therefore
/// excluded from renaming.
pub open spec fn spec_excluded(name: Seq<char>) -> bool {
    name == "__i3_scratch"@ || name == "__sway_scratch"@
}

/// Whether a node is a named workspace that is not a scratchpad.
pub open spec fn spec_is_regular_workspace(n: NodeView) -> bool {
    n.node_type is Workspace && match n.name {
        Some(name) => !spec_excluded(name),
        None => false,
    }
}

/// Every named, non-scratchpad workspace of the subtree rooted at `n`, in
/// depth-first order over the regular children.
pub open spec fn spec_workspaces(n: NodeView) -> Seq<NodeView>
    decreases n,
{
    let own = if spec_is_regular_workspace(n) {
        seq![n]
    } else {
        Seq::empty()
    };
    own + spec_workspaces_list(n.nodes)
}

/// The workspaces of a forest, in order.
pub open spec fn spec_workspaces_list(s: Seq<NodeView>) -> Seq<NodeView>
    decreases s,
{
    if s.len() == 0 {
        Seq::empty()
    } else {
        spec_workspaces(s[0]) + spec_workspaces_list(s.drop_first())
    }
}

/// `spec_workspaces_list` commutes with appending one tree.
pub proof fn lemma_workspaces_list_push(s: Seq<NodeView>, n: NodeView)
    ensures
        spec_workspaces_list(s.push(n)) == spec_workspaces_list(s) + spec_workspaces(n),
    decreases s,
{
    if s.len() == 0 {
        assert(s.push(n).drop_first() =~= Seq::<NodeView>::empty());
        assert(s.push(n)[0] == n);
        assert(spec_workspaces_list(s.push(n))
            == spec_workspaces(n) + spec_workspaces_list(Seq::<NodeView>::empty()));
        assert(spec_workspaces_list(s.push(n)) =~= spec_workspaces_list(s) + spec_workspaces(n));
    } else {
        lemma_workspaces_list_push(s.drop_first(), n);
        assert(s.push(n).drop_first() =~= s.drop_first().push(n));
        assert(s.push(n)[0] == s[0]);
        let a = spec_workspaces(s[0]);
        let b = spec_workspaces_list(s.drop_first());
        let c = spec_workspaces(n);
        assert(spec_workspaces_list(s.push(n)) == a + (b + c));
        assert(a + (b + c) =~= (a + b) + c);
        assert(spec_workspaces_list(s) + spec_workspaces(n) == (a + b) + c);
    }
}

/// Appends every workspace of the subtree rooted at `node` to `out`.
fn find_workspaces(node: &Node, out: &mut Vec<Node>)
    ensures
        nodes_view(final(out)@) == nodes_view(old(out)@) + spec_workspaces(node_view(*node)),
    decreases *node,
{
    let ghost start = nodes_view(out@);
    let is_regular = match (&node.node_type, &node.name) {
        (NodeType::Workspace, Some(name)) => {
            !str_eq(name.as_str(), "__i3_scratch") && !str_eq(name.as_str(), "__sway_scratch")
        },
        _ => false,
    };
    if is_regular {
        let c = node.clone();
        proof {
            lemma_nodes_view_push(out@, c);
        }
        out.push(c);
    }
    let ghost own = if spec_is_regular_workspace(node_view(*node)) {
        seq![node_view(*node)]
    } else {
        Seq::<NodeView>::empty()
    };
    proof {
        assert(nodes_view(out@) =~= start + own);
    }
    let mut i: usize = 0;
    while i < node.nodes.len()
        invariant
            i <= node.nodes.len(),
            nodes_view(out@) == start + own
                + spec_workspaces_list(nodes_view(node.nodes@).take(i as int)),
        decreases node.nodes.len() - i,
    {
        proof {
            lemma_nodes_view_index(node.nodes@);
        }
        find_workspaces(&node.nodes[i], out);
        proof {
            let nv = nodes_view(node.nodes@);
            lemma_workspaces_list_push(nv.take(i as int), nv[i as int]);
            assert(nv.take(i as int).push(nv[i as int]) =~= nv.take(i + 1 as int));
            assert(nodes_view(out@) =~= start + own
                + spec_workspaces_list(nv.take(i + 1 as int)));
        }
        i += 1;
    }
    proof {
        let nv = nodes_view(node.nodes@);
        lemma_nodes_view_index(node.nodes@);
        assert(nv.take(nv.len() as int) =~= nv);
        assert(node_view(*node).nodes == nv);
        assert(nodes_view(out@) =~= start + spec_workspaces(node_view(*node)));
    }
}

/// Filters out special workspaces (the scratchpads) and collects the
/// regular, named workspaces of the tree, in depth-first order.
pub fn get_workspaces(tree: Node) -> (r: Vec<Node>)
    ensures
        nodes_view(r@) == spec_workspaces(node_view(tree)),
{
    let mut out: Vec<Node> = Vec::new();
    find_workspaces(&tree, &mut out);
    proof {
        assert(nodes_view(out@) =~= spec_workspaces(node_view(tree)));
    }
    out
}

/// Whether a node carries an identifiable window: X11 window properties,
/// or an application id for a Wayland window.
pub open spec fn spec_has_window(n: NodeView) -> bool {
    n.window_properties is Some || n.app_id is Some
}

/// Every window node of the subtree rooted at `n`: the node itself when it
/// carries a window, then the windows of the regular children, then those
/// of the floating children, depth first.
pub open spec fn spec_window_nodes(n: NodeView) -> Seq<NodeView>
    decreases n,
{
    let own = if spec_has_window(n) {
        seq![n]
    } else {
        Seq::empty()
    };
    own + spec_window_nodes_list(n.nodes) + spec_window_nodes_list(n.floating_nodes)
}

/// The window nodes of a forest, in order.
pub open spec fn spec_window_nodes_list(s: Seq<NodeView>) -> Seq<NodeView>
    decreases s,
{
    if s.len() == 0 {
        Seq::empty()
    } else {
        spec_window_nodes(s[0]) + spec_window_nodes_list(s.drop_first())
    }
}

/// `spec_window_nodes_list` commutes with appending one tree.
pub proof fn lemma_window_nodes_list_push(s: Seq<NodeView>, n: NodeView)
    ensures
        spec_window_nodes_list(s.push(n)) == spec_window_nodes_list(s) + spec_window_nodes(n),
    decreases s,
{
    if s.len() == 0 {
        assert(s.push(n).drop_first() =~= Seq::<NodeView>::empty());
        assert(s.push(n)[0] == n);
        assert(spec_window_nodes_list(s.push(n))
            == spec_window_nodes(n) + spec_window_nodes_list(Seq::<NodeView>::empty()));
        assert(spec_window_nodes_list(s.push(n))
            =~= spec_window_nodes_list(s) + spec_window_nodes(n));
    } else {
        lemma_window_nodes_list_push(s.drop_first(), n);
        assert(s.push(n).drop_first() =~= s.drop_first().push(n));
        assert(s.push(n)[0] == s[0]);
        let a = spec_window_nodes(s[0]);
        let b = spec_window_nodes_list(s.drop_first());
        let c = spec_window_nodes(n);
        assert(spec_window_nodes_list(s.push(n)) == a + (b + c));
        assert(a + (b + c) =~= (a + b) + c);
        assert(spec_window_nodes_list(s) + spec_window_nodes(n) == (a + b) + c);
    }
}

/// Every collected workspace is a named, non-scratchpad workspace node:
/// a workspace named `__i3_scratch` or `__sway_scratch` never appears,
/// whatever it contains.
pub proof fn lemma_workspaces_are_regular(n: NodeView)
    ensures
        forall|i: int| 0 <= i < spec_workspaces(n).len()
            ==> spec_is_regular_workspace(#[trigger] spec_workspaces(n)[i]),
    decreases n,
{
    lemma_workspaces_list_regular(n.nodes);
    let own = if spec_is_regular_workspace(n) {
        seq![n]
    } else {
        Seq::<NodeView>::empty()
    };
    assert forall|i: int| 0 <= i < spec_workspaces(n).len()
        implies spec_is_regular_workspace(#[trigger] spec_workspaces(n)[i]) by {
        if i < own.len() {
            assert(spec_workspaces(n)[i] == n);
        } else {
            assert(spec_workspaces(n)[i] == spec_workspaces_list(n.nodes)[i - own.len()]);
        }
    }
}

/// List form of [`lemma_workspaces_are_regular`].
pub proof fn lemma_workspaces_list_regular(s: Seq<NodeView>)
    ensures
        forall|i: int| 0 <= i < spec_workspaces_list(s).len()
            ==> spec_is_regular_workspace(#[trigger] spec_workspaces_list(s)[i]),
    decreases s,
{
    if s.len() != 0 {
        lemma_workspaces_are_regular(s[0]);
        lemma_workspaces_list_regular(s.drop_first());
        let a = spec_workspaces(s[0]);
        let b = spec_workspaces_list(s.drop_first());
        assert forall|i: int| 0 <= i < spec_workspaces_list(s).len()
            implies spec_is_regular_workspace(#[trigger] spec_workspaces_list(s)[i]) by {
            if i < a.len() {
                assert(spec_workspaces_list(s)[i] == a[i]);
            } else {
                assert(spec_workspaces_list(s)[i] == b[i - a.len()]);
            }
        }
    }
}

} // verus!
