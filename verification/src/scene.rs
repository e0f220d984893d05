//! The scene graph: a node tree over a generational arena, with
//! world-transform propagation and visibility collection.
//!
//! A scene always owns one designated root node, created at construction
//! and never removable. Nodes reference their parent by handle and their
//! children by an ordered handle list; traversals walk depth-first, parent
//! before children, siblings in insertion order. Traversals carry a
//! seen-set over slot indices, so they terminate on any node structure and
//! visit each node at most once.

use vstd::prelude::*;

use crate::arena::{Arena, Handle};
use crate::mat4::{spec_identity, spec_mul, Mat4};

verus! {

/// The slot indices a traversal has not yet visited, counted against the
/// arena's slot range.
pub open spec fn spec_unvisited(bound: nat, visited: Set<int>) -> nat {
    vstd::set_lib::set_int_range(0, bound as int).difference(visited).len()
}

/// The set of indices a seen-vector marks.
pub open spec fn seen_set(s: Seq<bool>) -> Set<int> {
    Set::new(|i: int| 0 <= i < s.len() && s[i])
}

/// Marking one in-range, unvisited index strictly shrinks the unvisited
/// count.
pub proof fn lemma_unvisited_insert(bound: nat, visited: Set<int>, i: int)
    requires
        0 <= i < bound,
        !visited.contains(i),
    ensures
        spec_unvisited(bound, visited.insert(i)) < spec_unvisited(bound, visited),
{
    let range = vstd::set_lib::set_int_range(0, bound as int);
    vstd::set_lib::lemma_int_range(0, bound as int);
    let d0 = range.difference(visited);
    let d1 = range.difference(visited.insert(i));
    vstd::set_lib::lemma_len_subset(d0, range);
    assert(d0.contains(i));
    assert(d1 =~= d0.remove(i));
}

/// Whether a traversal step visits `h`: it resolves, its slot index is in
/// range, and that index is not yet visited.
pub open spec fn spec_visit(
    nodes: Map<Handle, NodeView>,
    bound: nat,
    visited: Set<int>,
    h: Handle,
) -> bool {
    nodes.contains_key(h) && (h.index as nat) < bound && !visited.contains(h.index as int)
}

/// The visible-mesh collection over an explicit worklist, mirroring a
/// depth-first walk that takes its next handle from the end of `stack`.
///
/// A visited node that is invisible is skipped together with its children;
/// a visible one is emitted when it carries a mesh, and its children enter
/// the worklist in order (reversed on the stack, so the first child is
/// walked first).
pub open spec fn spec_collect_visible(
    nodes: Map<Handle, NodeView>,
    bound: nat,
    stack: Seq<Handle>,
    visited: Set<int>,
) -> Seq<Handle>
    decreases spec_unvisited(bound, visited), stack.len(),
        via spec_collect_visible_decreases
{
    if stack.len() == 0 {
        Seq::empty()
    } else {
        let h = stack.last();
        let rest = stack.drop_last();
        if spec_visit(nodes, bound, visited, h) {
            let node = nodes[h];
            if node.visible {
                let tail = spec_collect_visible(
                    nodes,
                    bound,
                    rest + node.children.reverse(),
                    visited.insert(h.index as int),
                );
                if node.mesh is Some {
                    seq![h] + tail
                } else {
                    tail
                }
            } else {
                spec_collect_visible(nodes, bound, rest, visited)
            }
        } else {
            spec_collect_visible(nodes, bound, rest, visited)
        }
    }
}

#[via_fn]
proof fn spec_collect_visible_decreases(
    nodes: Map<Handle, NodeView>,
    bound: nat,
    stack: Seq<Handle>,
    visited: Set<int>,
) {
    if stack.len() > 0 {
        let h = stack.last();
        if spec_visit(nodes, bound, visited, h) {
            lemma_unvisited_insert(bound, visited, h.index as int);
        }
    }
}

/// World-transform propagation over an explicit worklist: each visited
/// node's world matrix becomes the wrapped product of the matrix carried on
/// the stack (its parent's world) and the node's local matrix, and its
/// children enter the worklist carrying that fresh world matrix.
pub open spec fn spec_update_worlds(
    nodes: Map<Handle, NodeView>,
    bound: nat,
    stack: Seq<(Handle, Mat4)>,
    visited: Set<int>,
) -> Map<Handle, NodeView>
    decreases spec_unvisited(bound, visited), stack.len(),
        via spec_update_worlds_decreases
{
    if stack.len() == 0 {
        nodes
    } else {
        let hp = stack.last();
        let rest = stack.drop_last();
        let h = hp.0;
        if spec_visit(nodes, bound, visited, h) {
            let node = nodes[h];
            let w = spec_mul(hp.1, node.matrix_local);
            let node2 = NodeView { matrix_world: w, ..node };
            spec_update_worlds(
                nodes.insert(h, node2),
                bound,
                rest + node.children.map_values(|c: Handle| (c, w)).reverse(),
                visited.insert(h.index as int),
            )
        } else {
            spec_update_worlds(nodes, bound, rest, visited)
        }
    }
}

#[via_fn]
proof fn spec_update_worlds_decreases(
    nodes: Map<Handle, NodeView>,
    bound: nat,
    stack: Seq<(Handle, Mat4)>,
    visited: Set<int>,
) {
    if stack.len() > 0 {
        let h = stack.last().0;
        if spec_visit(nodes, bound, visited, h) {
            lemma_unvisited_insert(bound, visited, h.index as int);
        }
    }
}

/// Subtree removal over an explicit worklist: each visited node leaves the
/// map and its children enter the worklist.
pub open spec fn spec_remove_subtree(
    nodes: Map<Handle, NodeView>,
    bound: nat,
    stack: Seq<Handle>,
    visited: Set<int>,
) -> Map<Handle, NodeView>
    decreases spec_unvisited(bound, visited), stack.len(),
        via spec_remove_subtree_decreases
{
    if stack.len() == 0 {
        nodes
    } else {
        let h = stack.last();
        let rest = stack.drop_last();
        if spec_visit(nodes, bound, visited, h) {
            let node = nodes[h];
            spec_remove_subtree(
                nodes.remove(h),
                bound,
                rest + node.children.reverse(),
                visited.insert(h.index as int),
            )
        } else {
            spec_remove_subtree(nodes, bound, rest, visited)
        }
    }
}

#[via_fn]
proof fn spec_remove_subtree_decreases(
    nodes: Map<Handle, NodeView>,
    bound: nat,
    stack: Seq<Handle>,
    visited: Set<int>,
) {
    if stack.len() > 0 {
        let h = stack.last();
        if spec_visit(nodes, bound, visited, h) {
            lemma_unvisited_insert(bound, visited, h.index as int);
        }
    }
}

/// Every handle a visibility collection emits resolves to a visible node
/// that carries a mesh.
pub proof fn lemma_collect_visible_members(
    nodes: Map<Handle, NodeView>,
    bound: nat,
    stack: Seq<Handle>,
    visited: Set<int>,
)
    ensures
        forall|i: int|
            0 <= i < spec_collect_visible(nodes, bound, stack, visited).len() ==> {
                let h = #[trigger] spec_collect_visible(nodes, bound, stack, visited)[i];
                nodes.contains_key(h) && nodes[h].mesh is Some && nodes[h].visible
            },
    decreases spec_unvisited(bound, visited), stack.len(),
{
    if stack.len() > 0 {
        let h = stack.last();
        let rest = stack.drop_last();
        if spec_visit(nodes, bound, visited, h) {
            let node = nodes[h];
            if node.visible {
                lemma_unvisited_insert(bound, visited, h.index as int);
                let stack2 = rest + node.children.reverse();
                let visited2 = visited.insert(h.index as int);
                lemma_collect_visible_members(nodes, bound, stack2, visited2);
                let tail = spec_collect_visible(nodes, bound, stack2, visited2);
                if node.mesh is Some {
                    let whole = seq![h] + tail;
                    assert(spec_collect_visible(nodes, bound, stack, visited) == whole);
                    assert forall|i: int|
                        0 <= i < whole.len() implies {
                        let hh = #[trigger] whole[i];
                        nodes.contains_key(hh) && nodes[hh].mesh is Some && nodes[hh].visible
                    } by {
                        if i == 0 {
                            assert(whole[0] == h);
                        } else {
                            assert(whole[i] == tail[i - 1]);
                        }
                    }
                }
            } else {
                lemma_collect_visible_members(nodes, bound, rest, visited);
            }
        } else {
            lemma_collect_visible_members(nodes, bound, rest, visited);
        }
    }
}

/// Law: handle integrity at the scene level. Removing a childless node
/// deletes exactly that node's entry from the scene: every other live
/// handle still resolves to its unchanged value, and the removed handle
/// resolves to nothing.
pub proof fn lemma_leaf_removal_preserves_others(
    nodes: Map<Handle, NodeView>,
    bound: nat,
    h: Handle,
)
    requires
        nodes.contains_key(h),
        (h.index as nat) < bound,
        nodes[h].children.len() == 0,
    ensures
        spec_remove_subtree(nodes, bound, seq![h], Set::empty()) == nodes.remove(h),
{
    let s0: Seq<Handle> = seq![h];
    let v0: Set<int> = Set::empty();
    assert(s0.last() == h);
    assert(spec_visit(nodes, bound, v0, h));
    let s1 = s0.drop_last() + nodes[h].children.reverse();
    assert(s1 =~= Seq::<Handle>::empty());
    assert(spec_remove_subtree(nodes, bound, s0, v0) == spec_remove_subtree(
        nodes.remove(h),
        bound,
        s1,
        v0.insert(h.index as int),
    ));
}

/// Law: handle integrity under any subtree removal. The removal fold only
/// deletes entries: every handle that survives it still resolves to its
/// original, unchanged node — nothing is moved or renumbered.
pub proof fn lemma_remove_subtree_only_removes(
    nodes: Map<Handle, NodeView>,
    bound: nat,
    stack: Seq<Handle>,
    visited: Set<int>,
)
    ensures
        forall|h: Handle|
            #[trigger] spec_remove_subtree(nodes, bound, stack, visited).contains_key(h)
                ==> nodes.contains_key(h) && spec_remove_subtree(nodes, bound, stack, visited)[h]
                == nodes[h],
    decreases spec_unvisited(bound, visited), stack.len(),
{
    if stack.len() > 0 {
        let h = stack.last();
        let rest = stack.drop_last();
        if spec_visit(nodes, bound, visited, h) {
            lemma_unvisited_insert(bound, visited, h.index as int);
            lemma_remove_subtree_only_removes(
                nodes.remove(h),
                bound,
                rest + nodes[h].children.reverse(),
                visited.insert(h.index as int),
            );
            let sub = spec_remove_subtree(
                nodes.remove(h),
                bound,
                rest + nodes[h].children.reverse(),
                visited.insert(h.index as int),
            );
            assert(spec_remove_subtree(nodes, bound, stack, visited) == sub);
            assert forall|hh: Handle| #[trigger] sub.contains_key(hh) implies nodes.contains_key(
                hh,
            ) && sub[hh] == nodes[hh] by {
                assert(nodes.remove(h).contains_key(hh));
                assert(sub[hh] == nodes.remove(h)[hh]);
            }
        } else {
            lemma_remove_subtree_only_removes(nodes, bound, rest, visited);
            assert(spec_remove_subtree(nodes, bound, stack, visited) == spec_remove_subtree(
                nodes,
                bound,
                rest,
                visited,
            ));
        }
    } else {
        assert(spec_remove_subtree(nodes, bound, stack, visited) == nodes);
    }
}

/// Law: transform composition along a chain. In a three-level chain
/// `root -> a -> b` whose root's local transform is the identity, a full
/// propagation pass started at the root with the identity parent matrix
/// leaves the root's world matrix the identity, `a`'s world matrix equal to
/// its local one, and `b`'s equal to the wrapped product of `a`'s and `b`'s
/// local matrices.
pub proof fn lemma_chain_world_transforms(
    nodes: Map<Handle, NodeView>,
    bound: nat,
    root: Handle,
    a: Handle,
    b: Handle,
)
    requires
        nodes.contains_key(root),
        nodes.contains_key(a),
        nodes.contains_key(b),
        (root.index as nat) < bound,
        (a.index as nat) < bound,
        (b.index as nat) < bound,
        root.index != a.index,
        root.index != b.index,
        a.index != b.index,
        nodes[root].children == seq![a],
        nodes[a].children == seq![b],
        nodes[b].children == Seq::<Handle>::empty(),
        nodes[root].matrix_local == spec_identity(),
    ensures
        ({
            let m = spec_update_worlds(nodes, bound, seq![(root, spec_identity())], Set::empty());
            &&& m[root].matrix_world == spec_identity()
            &&& m[a].matrix_world == nodes[a].matrix_local
            &&& m[b].matrix_world == spec_mul(nodes[a].matrix_local, nodes[b].matrix_local)
        }),
{
    let ident = spec_identity();
    let s0: Seq<(Handle, Mat4)> = seq![(root, ident)];
    let v0: Set<int> = Set::empty();

    // Visit the root: its world matrix is identity * identity = identity.
    assert(s0.last() == (root, ident));
    assert(spec_visit(nodes, bound, v0, root));
    crate::mat4::lemma_mul_identity_left(nodes[root].matrix_local);
    let w_root = spec_mul(ident, nodes[root].matrix_local);
    assert(w_root == ident);
    let root2 = NodeView { matrix_world: w_root, ..nodes[root] };
    let m1 = nodes.insert(root, root2);
    let v1 = v0.insert(root.index as int);
    let s1 = s0.drop_last() + nodes[root].children.map_values(|c: Handle| (c, w_root)).reverse();
    assert(s1 =~= seq![(a, ident)]);
    assert(spec_update_worlds(nodes, bound, s0, v0) == spec_update_worlds(m1, bound, s1, v1));

    // Visit a: its world matrix is identity * Ta = Ta.
    let ta = nodes[a].matrix_local;
    assert(a != root);
    assert(m1[a] == nodes[a]);
    assert(s1.last() == (a, ident));
    assert(spec_visit(m1, bound, v1, a));
    crate::mat4::lemma_mul_identity_left(ta);
    let w_a = spec_mul(ident, ta);
    assert(w_a == ta);
    let a2 = NodeView { matrix_world: w_a, ..m1[a] };
    let m2 = m1.insert(a, a2);
    let v2 = v1.insert(a.index as int);
    let s2 = s1.drop_last() + m1[a].children.map_values(|c: Handle| (c, w_a)).reverse();
    assert(s2 =~= seq![(b, ta)]);
    assert(spec_update_worlds(m1, bound, s1, v1) == spec_update_worlds(m2, bound, s2, v2));

    // Visit b: its world matrix is Ta * Tb.
    let tb = nodes[b].matrix_local;
    assert(b != root && b != a);
    assert(m2[b] == nodes[b]);
    assert(s2.last() == (b, ta));
    assert(spec_visit(m2, bound, v2, b));
    let w_b = spec_mul(ta, tb);
    let b2 = NodeView { matrix_world: w_b, ..m2[b] };
    let m3 = m2.insert(b, b2);
    let v3 = v2.insert(b.index as int);
    let s3 = s2.drop_last() + m2[b].children.map_values(|c: Handle| (c, w_b)).reverse();
    assert(s3 =~= Seq::<(Handle, Mat4)>::empty());
    assert(spec_update_worlds(m2, bound, s2, v2) == spec_update_worlds(m3, bound, s3, v3));

    // The worklist is exhausted.
    assert(spec_update_worlds(m3, bound, s3, v3) == m3);
    assert(m3[root].matrix_world == ident);
    assert(m3[a].matrix_world == ta);
    assert(m3[b].matrix_world == w_b);
}

/// Law: visibility propagation. If `a` is an invisible child of the
/// (visible) collection start and carries `b` beneath it, a visibility
/// collection from the start omits both `a` and `b`: the walk never
/// descends into an invisible node.
pub proof fn lemma_invisible_hides_subtree(
    nodes: Map<Handle, NodeView>,
    bound: nat,
    root: Handle,
    a: Handle,
    b: Handle,
)
    requires
        nodes.contains_key(root),
        nodes.contains_key(a),
        (root.index as nat) < bound,
        (a.index as nat) < bound,
        root.index != a.index,
        root.index != b.index,
        a.index != b.index,
        nodes[root].children == seq![a],
        nodes[root].visible,
        !nodes[a].visible,
    ensures
        ({
            let items = spec_collect_visible(nodes, bound, seq![root], Set::empty());
            &&& items == if nodes[root].mesh is Some {
                seq![root]
            } else {
                Seq::<Handle>::empty()
            }
            &&& !items.contains(a)
            &&& !items.contains(b)
        }),
{
    let s0: Seq<Handle> = seq![root];
    let v0: Set<int> = Set::empty();

    // Visit the root: it is visible, so it is emitted when it carries a
    // mesh, and its only child enters the worklist.
    assert(s0.last() == root);
    assert(spec_visit(nodes, bound, v0, root));
    let v1 = v0.insert(root.index as int);
    let s1 = s0.drop_last() + nodes[root].children.reverse();
    assert(s1 =~= seq![a]);
    let tail = spec_collect_visible(nodes, bound, s1, v1);

    // Visit a: it resolves and is unvisited, but invisible, so nothing is
    // emitted and its children never enter the worklist.
    assert(s1.last() == a);
    assert(a != root);
    assert(spec_visit(nodes, bound, v1, a));
    assert(s1.drop_last() =~= Seq::<Handle>::empty());
    assert(spec_collect_visible(nodes, bound, s1.drop_last(), v1) =~= Seq::<Handle>::empty());
    assert(tail =~= Seq::<Handle>::empty());

    let items = spec_collect_visible(nodes, bound, s0, v0);
    if nodes[root].mesh is Some {
        assert(items == seq![root] + tail);
        assert(items =~= seq![root]);
        assert forall|i: int| 0 <= i < items.len() implies items[i] != a && items[i] != b by {
            assert(items[i] == root);
        }
    } else {
        assert(items =~= Seq::<Handle>::empty());
    }
}

/// Taking the suffix one element earlier appends that element to the
/// reversed suffix.
proof fn lemma_reverse_step<T>(s: Seq<T>, k: int)
    requires
        0 <= k < s.len(),
    ensures
        s.subrange(k, s.len() as int).reverse() == s.subrange(
            k + 1,
            s.len() as int,
        ).reverse().push(s[k]),
{
    assert(s.subrange(k, s.len() as int).reverse() =~= s.subrange(
        k + 1,
        s.len() as int,
    ).reverse().push(s[k]));
}

/// One scene node: tree links, local and cached world transform, optional
/// mesh, visibility flag and optional name.
#[derive(Debug)]
pub struct Node {
    pub parent: Option<Handle>,
    pub children: Vec<Handle>,
    pub matrix_local: Mat4,
    pub matrix_world: Mat4,
    pub mesh: Option<Handle>,
    pub visible: bool,
    pub name: Option<String>,
}

/// The mathematical image of a [`Node`].
pub struct NodeView {
    pub parent: Option<Handle>,
    pub children: Seq<Handle>,
    pub matrix_local: Mat4,
    pub matrix_world: Mat4,
    pub mesh: Option<Handle>,
    pub visible: bool,
    pub name: Option<Seq<char>>,
}

impl View for Node {
    type V = NodeView;

    open spec fn view(&self) -> NodeView {
        NodeView {
            parent: self.parent,
            children: self.children@,
            matrix_local: self.matrix_local,
            matrix_world: self.matrix_world,
            mesh: self.mesh,
            visible: self.visible,
            name: match self.name {
                Some(ref s) => Some(s@),
                None => None,
            },
        }
    }
}

impl Node {
    /// A fresh leaf node under the given parent: no children, identity
    /// transforms, no mesh, visible, unnamed.
    pub fn new(parent: Option<Handle>) -> (r: Node)
        ensures
            r@ == spec_new_node(parent),
    {
        let r = Node {
            parent,
            children: Vec::new(),
            matrix_local: Mat4::identity(),
            matrix_world: Mat4::identity(),
            mesh: None,
            visible: true,
            name: None,
        };
        proof {
            assert(r@.children =~= spec_new_node(parent).children);
        }
        r
    }
}

/// The view of a node fresh from [`Node::new`].
pub open spec fn spec_new_node(parent: Option<Handle>) -> NodeView {
    NodeView {
        parent,
        children: Seq::empty(),
        matrix_local: spec_identity(),
        matrix_world: spec_identity(),
        mesh: None,
        visible: true,
        name: None,
    }
}

/// Rebuilds an owned copy of a node, view for view.
fn clone_node(n: &Node) -> (r: Node)
    ensures
        r@ == n@,
{
    let mut children: Vec<Handle> = Vec::new();
    let mut k: usize = 0;
    while k < n.children.len()
        invariant
            k <= n.children.len(),
            children@ == n.children@.subrange(0, k as int),
        decreases n.children.len() - k,
    {
        children.push(n.children[k]);
        k = k + 1;
        proof {
            assert(children@ =~= n.children@.subrange(0, k as int));
        }
    }
    proof {
        assert(children@ =~= n.children@);
    }
    let r = Node {
        parent: n.parent,
        children,
        matrix_local: n.matrix_local,
        matrix_world: n.matrix_world,
        mesh: n.mesh,
        visible: n.visible,
        name: match &n.name {
            Some(s) => Some(s.clone()),
            None => None,
        },
    };
    r
}

/// The scene graph: the node arena plus the designated root handle.
pub struct Scene {
    root_handle: Handle,
    nodes: Arena<Node>,
}

impl View for Scene {
    type V = Map<Handle, NodeView>;

    /// Each live node handle mapped to its node's view.
    closed spec fn view(&self) -> Map<Handle, NodeView> {
        Map::new(
            |h: Handle| self.nodes@.contains_key(h),
            |h: Handle| self.nodes@[h]@,
        )
    }
}

/// The detach step of reparenting: if the child currently names a live
/// parent, that parent's child list drops every occurrence of the child.
pub open spec fn spec_detach(m: Map<Handle, NodeView>, child: Handle) -> Map<Handle, NodeView> {
    if m.contains_key(child) && m[child].parent is Some && m.contains_key(m[child].parent->0) {
        let p = m[child].parent->0;
        m.insert(p, NodeView { children: spec_drop_handle(m[p].children, child), ..m[p] })
    } else {
        m
    }
}

/// The attach step of reparenting: the child's parent field is assigned and
/// the child is appended to the new parent's child list.
pub open spec fn spec_attach(m: Map<Handle, NodeView>, child: Handle, parent: Handle) -> Map<
    Handle,
    NodeView,
> {
    let m1 = m.insert(child, NodeView { parent: Some(parent), ..m[child] });
    m1.insert(parent, NodeView { children: m1[parent].children.push(child), ..m1[parent] })
}

/// The sequence with every occurrence of `x` removed, order otherwise kept.
pub open spec fn spec_drop_handle(s: Seq<Handle>, x: Handle) -> Seq<Handle>
    decreases s.len(),
{
    if s.len() == 0 {
        Seq::empty()
    } else {
        let rest = spec_drop_handle(s.drop_last(), x);
        if s.last() == x {
            rest
        } else {
            rest.push(s.last())
        }
    }
}

/// Builds a vector holding `children` with every occurrence of `x` removed.
fn drop_handle(children: &Vec<Handle>, x: Handle) -> (r: Vec<Handle>)
    ensures
        r@ == spec_drop_handle(children@, x),
{
    let mut r: Vec<Handle> = Vec::new();
    let mut k: usize = 0;
    while k < children.len()
        invariant
            k <= children.len(),
            r@ == spec_drop_handle(children@.subrange(0, k as int), x),
        decreases children.len() - k,
    {
        let c = children[k];
        proof {
            assert(children@.subrange(0, k as int + 1).drop_last() =~= children@.subrange(
                0,
                k as int,
            ));
            assert(children@.subrange(0, k as int + 1).last() == children@[k as int]);
        }
        if c.index != x.index || c.generation != x.generation {
            r.push(c);
        }
        k = k + 1;
    }
    proof {
        assert(children@.subrange(0, children@.len() as int) =~= children@);
    }
    r
}

impl Scene {
    /// The designated root handle.
    pub closed spec fn root(&self) -> Handle {
        self.root_handle
    }

    /// Every handle the node arena has ever issued.
    pub closed spec fn issued(&self) -> Set<Handle> {
        self.nodes.issued()
    }

    /// Number of node slots ever allocated.
    pub closed spec fn slot_count(&self) -> nat {
        self.nodes.slot_count()
    }

    /// Internal consistency of the node arena.
    pub closed spec fn wf(&self) -> bool {
        self.nodes.wf()
    }

    /// A new scene holding exactly its root node.
    pub fn new() -> (r: Scene)
        ensures
            r.wf(),
            r@ == Map::<Handle, NodeView>::empty().insert(r.root(), spec_new_node(None)),
            r.issued() == Set::<Handle>::empty().insert(r.root()),
    {
        let mut nodes: Arena<Node> = Arena::new();
        let root_object = Node::new(None);
        let ghost root_view = root_object@;
        let root_handle = nodes.insert(root_object);
        let r = Scene { nodes, root_handle };
        proof {
            assert(r@ =~= Map::<Handle, NodeView>::empty().insert(root_handle, root_view));
        }
        r
    }

    /// The root handle, as a value.
    pub fn get_root_handle(&self) -> (r: Handle)
        ensures
            r == self.root(),
    {
        self.root_handle
    }

    /// Resolves a node handle.
    pub fn get_node(&self, handle: Handle) -> (r: Option<&Node>)
        ensures
            match r {
                Some(n) => self@.contains_key(handle) && n@ == self@[handle],
                None => !self@.contains_key(handle),
            },
    {
        self.nodes.get(handle)
    }

    /// The parent handle of a node, if the node resolves and has one.
    pub fn get_parent_handle(&self, handle: Handle) -> (r: Option<Handle>)
        ensures
            self@.contains_key(handle) ==> r == self@[handle].parent,
            !self@.contains_key(handle) ==> r is None,
    {
        match self.nodes.get(handle) {
            Some(n) => n.parent,
            None => None,
        }
    }

    /// Inserts a node. If the node names a parent, the new handle is
    /// appended to that parent's child list; naming a dead parent is a
    /// programmer error and is excluded. The handle is fresh against
    /// everything this scene has ever issued.
    pub fn insert(&mut self, object: Node) -> (r: Handle)
        requires
            old(self).wf(),
            object@.parent is Some ==> old(self)@.contains_key(object@.parent->0),
        ensures
            final(self).wf(),
            final(self).root() == old(self).root(),
            !old(self).issued().contains(r),
            final(self).issued() == old(self).issued().insert(r),
            !old(self)@.contains_key(r),
            r.index < final(self).slot_count(),
            final(self).slot_count() >= old(self).slot_count(),
            ({
                let base = old(self)@.insert(r, object@);
                final(self)@ == if object@.parent is Some {
                    let p = object@.parent->0;
                    base.insert(p, NodeView { children: base[p].children.push(r), ..base[p] })
                } else {
                    base
                }
            }),
    {
        let parent_handle_option = object.parent;
        let ghost object_view = object@;
        let handle = self.nodes.insert(object);
        proof {
            assert(self@ =~= old(self)@.insert(handle, object_view));
        }
        if let Some(parent_handle) = parent_handle_option {
            let ghost mid = self@;
            // The parent is live and distinct from the fresh handle.
            let parent = self.nodes.get(parent_handle);
            let new_parent = match parent {
                Some(pn) => {
                    let mut np = clone_node(pn);
                    np.children.push(handle);
                    np
                },
                None => {
                    // excluded by the precondition
                    proof {
                        assert(false);
                    }
                    Node::new(None)
                },
            };
            let ghost new_parent_view = new_parent@;
            self.nodes.update(parent_handle, new_parent);
            proof {
                assert(self@ =~= mid.insert(parent_handle, new_parent_view));
            }
        }
        handle
    }

    /// Moves a child under a new parent: the child leaves its current
    /// parent's child list (if that parent is live), its parent field is
    /// reassigned, and it is appended to the new parent's child list.
    /// Naming a dead child or parent is a programmer error and is excluded.
    pub fn set_parent(&mut self, child_handle: Handle, parent_handle: Handle)
        requires
            old(self).wf(),
            old(self)@.contains_key(child_handle),
            old(self)@.contains_key(parent_handle),
            old(self)@[child_handle].parent is Some ==> old(self)@.contains_key(
                old(self)@[child_handle].parent->0,
            ),
        ensures
            final(self).wf(),
            final(self).root() == old(self).root(),
            final(self).issued() == old(self).issued(),
            final(self).slot_count() == old(self).slot_count(),
            final(self)@ == spec_attach(
                spec_detach(old(self)@, child_handle),
                child_handle,
                parent_handle,
            ),
    {
        let current_parent = self.get_parent_handle(child_handle);
        if let Some(cp) = current_parent {
            let parent = self.nodes.get(cp);
            let new_parent = match parent {
                Some(pn) => {
                    let children = drop_handle(&pn.children, child_handle);
                    let mut np = clone_node(pn);
                    np.children = children;
                    np
                },
                None => {
                    proof {
                        assert(false);
                    }
                    Node::new(None)
                },
            };
            let ghost new_parent_view = new_parent@;
            let ghost before = self@;
            self.nodes.update(cp, new_parent);
            proof {
                assert(self@ =~= before.insert(cp, new_parent_view));
                assert(self@ =~= spec_detach(old(self)@, child_handle));
            }
        } else {
            proof {
                assert(self@ =~= spec_detach(old(self)@, child_handle));
            }
        }
        let ghost detached = self@;

        let new_child = match self.nodes.get(child_handle) {
            Some(cn) => {
                let mut nc = clone_node(cn);
                nc.parent = Some(parent_handle);
                nc
            },
            None => {
                proof {
                    assert(false);
                }
                Node::new(None)
            },
        };
        let ghost new_child_view = new_child@;
        self.nodes.update(child_handle, new_child);
        proof {
            assert(self@ =~= detached.insert(child_handle, new_child_view));
        }
        let ghost mid = self@;

        let new_parent = match self.nodes.get(parent_handle) {
            Some(pn) => {
                let mut np = clone_node(pn);
                np.children.push(child_handle);
                np
            },
            None => {
                proof {
                    assert(false);
                }
                Node::new(None)
            },
        };
        let ghost new_parent_view = new_parent@;
        self.nodes.update(parent_handle, new_parent);
        proof {
            assert(self@ =~= mid.insert(parent_handle, new_parent_view));
            assert(self@ =~= spec_attach(detached, child_handle, parent_handle));
        }
    }

    /// Replaces a live node's local transform.
    pub fn set_local_matrix(&mut self, handle: Handle, m: Mat4) -> (r: bool)
        requires
            old(self).wf(),
        ensures
            final(self).wf(),
            final(self).root() == old(self).root(),
            final(self).issued() == old(self).issued(),
            final(self).slot_count() == old(self).slot_count(),
            r == old(self)@.contains_key(handle),
            old(self)@.contains_key(handle) ==> final(self)@ == old(self)@.insert(
                handle,
                NodeView { matrix_local: m, ..old(self)@[handle] },
            ),
            !old(self)@.contains_key(handle) ==> final(self)@ == old(self)@,
    {
        match self.nodes.get(handle) {
            Some(n) => {
                let mut nn = clone_node(n);
                nn.matrix_local = m;
                let ghost nv = nn@;
                self.nodes.update(handle, nn);
                proof {
                    assert(self@ =~= old(self)@.insert(handle, nv));
                }
                true
            },
            None => {
                proof {
                    assert(self@ =~= old(self)@);
                }
                false
            },
        }
    }

    /// Replaces a live node's mesh reference.
    pub fn set_mesh(&mut self, handle: Handle, mesh: Option<Handle>) -> (r: bool)
        requires
            old(self).wf(),
        ensures
            final(self).wf(),
            final(self).root() == old(self).root(),
            final(self).issued() == old(self).issued(),
            final(self).slot_count() == old(self).slot_count(),
            r == old(self)@.contains_key(handle),
            old(self)@.contains_key(handle) ==> final(self)@ == old(self)@.insert(
                handle,
                NodeView { mesh, ..old(self)@[handle] },
            ),
            !old(self)@.contains_key(handle) ==> final(self)@ == old(self)@,
    {
        match self.nodes.get(handle) {
            Some(n) => {
                let mut nn = clone_node(n);
                nn.mesh = mesh;
                let ghost nv = nn@;
                self.nodes.update(handle, nn);
                proof {
                    assert(self@ =~= old(self)@.insert(handle, nv));
                }
                true
            },
            None => {
                proof {
                    assert(self@ =~= old(self)@);
                }
                false
            },
        }
    }

    /// Replaces a live node's visibility flag.
    pub fn set_visible(&mut self, handle: Handle, visible: bool) -> (r: bool)
        requires
            old(self).wf(),
        ensures
            final(self).wf(),
            final(self).root() == old(self).root(),
            final(self).issued() == old(self).issued(),
            final(self).slot_count() == old(self).slot_count(),
            r == old(self)@.contains_key(handle),
            old(self)@.contains_key(handle) ==> final(self)@ == old(self)@.insert(
                handle,
                NodeView { visible, ..old(self)@[handle] },
            ),
            !old(self)@.contains_key(handle) ==> final(self)@ == old(self)@,
    {
        match self.nodes.get(handle) {
            Some(n) => {
                let mut nn = clone_node(n);
                nn.visible = visible;
                let ghost nv = nn@;
                self.nodes.update(handle, nn);
                proof {
                    assert(self@ =~= old(self)@.insert(handle, nv));
                }
                true
            },
            None => {
                proof {
                    assert(self@ =~= old(self)@);
                }
                false
            },
        }
    }

    /// Replaces a live node's name.
    pub fn set_name(&mut self, handle: Handle, name: Option<String>) -> (r: bool)
        requires
            old(self).wf(),
        ensures
            final(self).wf(),
            final(self).root() == old(self).root(),
            final(self).issued() == old(self).issued(),
            final(self).slot_count() == old(self).slot_count(),
            r == old(self)@.contains_key(handle),
            old(self)@.contains_key(handle) ==> final(self)@ == old(self)@.insert(
                handle,
                NodeView {
                    name: match name {
                        Some(ref s) => Some(s@),
                        None => None,
                    },
                    ..old(self)@[handle]
                },
            ),
            !old(self)@.contains_key(handle) ==> final(self)@ == old(self)@,
    {
        match self.nodes.get(handle) {
            Some(n) => {
                let mut nn = clone_node(n);
                nn.name = name;
                let ghost nv = nn@;
                self.nodes.update(handle, nn);
                proof {
                    assert(self@ =~= old(self)@.insert(handle, nv));
                }
                true
            },
            None => {
                proof {
                    assert(self@ =~= old(self)@);
                }
                false
            },
        }
    }

    /// A live handle's slot index lies below the slot count; the law
    /// lemmas' index-bound hypotheses follow from this for any live node.
    pub proof fn lemma_live_index_bound(&self, h: Handle)
        requires
            self@.contains_key(h),
        ensures
            (h.index as nat) < self.slot_count(),
    {
        self.nodes.lemma_view_index_bound(h);
    }

    /// Distinct live handles occupy distinct slots; the law lemmas'
    /// index-distinctness hypotheses follow from this for live nodes.
    pub proof fn lemma_live_distinct_indices(&self, h1: Handle, h2: Handle)
        requires
            self@.contains_key(h1),
            self@.contains_key(h2),
            h1 != h2,
        ensures
            h1.index != h2.index,
    {
        self.nodes.lemma_distinct_indices(h1, h2);
    }

    /// A seen-vector of the given length, all unmarked.
    fn fresh_seen(bound: usize) -> (r: Vec<bool>)
        ensures
            r@.len() == bound,
            seen_set(r@) == Set::<int>::empty(),
    {
        let mut seen: Vec<bool> = Vec::new();
        while seen.len() < bound
            invariant
                seen@.len() <= bound,
                forall|i: int| 0 <= i < seen@.len() ==> !seen@[i],
            decreases bound - seen@.len(),
        {
            seen.push(false);
        }
        proof {
            assert(seen_set(seen@) =~= Set::<int>::empty());
        }
        seen
    }

    /// Collects, in depth-first order starting at `parent_handle`, the
    /// handles of visible nodes that carry a mesh; an invisible node hides
    /// its whole subtree.
    pub fn collect_visible_sub_items(&self, parent_handle: Handle) -> (items: Vec<Handle>)
        requires
            self.wf(),
        ensures
            items@ == spec_collect_visible(
                self@,
                self.slot_count(),
                seq![parent_handle],
                Set::empty(),
            ),
    {
        let bound = self.nodes.slot_len();
        let mut seen: Vec<bool> = Self::fresh_seen(bound);
        let mut stack: Vec<Handle> = Vec::new();
        stack.push(parent_handle);
        let mut items: Vec<Handle> = Vec::new();
        let ghost target = spec_collect_visible(
            self@,
            bound as nat,
            seq![parent_handle],
            Set::empty(),
        );
        proof {
            assert(stack@ =~= seq![parent_handle]);
        }
        while stack.len() > 0
            invariant
                self.wf(),
                bound == self.slot_count(),
                seen@.len() == bound,
                items@ + spec_collect_visible(self@, bound as nat, stack@, seen_set(seen@))
                    == target,
            decreases spec_unvisited(bound as nat, seen_set(seen@)), stack@.len(),
        {
            let ghost stack_pre = stack@;
            let ghost vis_pre = seen_set(seen@);
            let popped = stack.pop();
            let h = match popped {
                Some(h) => h,
                None => {
                    proof {
                        assert(false);
                    }
                    Handle { index: 0, generation: 0 }
                },
            };
            proof {
                assert(stack_pre.last() == h);
                assert(stack@ == stack_pre.drop_last());
            }
            match self.nodes.get(h) {
                None => {
                    proof {
                        assert(!spec_visit(self@, bound as nat, vis_pre, h));
                    }
                },
                Some(node) => {
                    proof {
                        self.nodes.lemma_view_index_bound(h);
                    }
                    let idx = h.index;
                    if seen[idx] {
                        proof {
                            assert(!spec_visit(self@, bound as nat, vis_pre, h));
                        }
                    } else if !node.visible {
                        proof {
                            assert(spec_visit(self@, bound as nat, vis_pre, h));
                            assert(!self@[h].visible);
                        }
                    } else {
                        seen[idx] = true;
                        proof {
                            assert(seen_set(seen@) =~= vis_pre.insert(idx as int));
                            lemma_unvisited_insert(bound as nat, vis_pre, idx as int);
                        }
                        let ghost items_pre = items@;
                        if node.mesh.is_some() {
                            items.push(h);
                        }
                        let cl = node.children.len();
                        let ghost rest = stack@;
                        let mut k = cl;
                        while k > 0
                            invariant
                                k <= cl,
                                cl == node.children@.len(),
                                stack@ == rest + node.children@.subrange(
                                    k as int,
                                    cl as int,
                                ).reverse(),
                            decreases k,
                        {
                            k = k - 1;
                            stack.push(node.children[k]);
                            proof {
                                lemma_reverse_step(node.children@, k as int);
                            }
                        }
                        proof {
                            assert(node.children@.subrange(0, cl as int) =~= node.children@);
                            assert(stack@ == rest + self@[h].children.reverse());
                            let tail = spec_collect_visible(
                                self@,
                                bound as nat,
                                stack@,
                                seen_set(seen@),
                            );
                            if self@[h].mesh is Some {
                                assert(spec_collect_visible(self@, bound as nat, stack_pre, vis_pre)
                                    == seq![h] + tail);
                                assert(items@ =~= items_pre.push(h));
                                assert(items_pre + (seq![h] + tail) =~= (items_pre.push(h)) + tail);
                            } else {
                                assert(spec_collect_visible(self@, bound as nat, stack_pre, vis_pre)
                                    == tail);
                            }
                        }
                    }
                },
            }
        }
        proof {
            assert(spec_collect_visible(self@, bound as nat, stack@, seen_set(seen@))
                =~= Seq::<Handle>::empty());
            assert(items@ + Seq::<Handle>::empty() =~= items@);
        }
        items
    }

    /// Walks depth-first from `start`, setting each visited node's world
    /// matrix to the wrapped product of the world matrix carried on the
    /// worklist and the node's local matrix.
    fn propagate_worlds(&mut self, start: Handle, pm: Mat4)
        requires
            old(self).wf(),
        ensures
            final(self).wf(),
            final(self).root() == old(self).root(),
            final(self).issued() == old(self).issued(),
            final(self).slot_count() == old(self).slot_count(),
            final(self)@ == spec_update_worlds(
                old(self)@,
                old(self).slot_count(),
                seq![(start, pm)],
                Set::empty(),
            ),
    {
        let bound = self.nodes.slot_len();
        let mut seen: Vec<bool> = Self::fresh_seen(bound);
        let mut stack: Vec<(Handle, Mat4)> = Vec::new();
        stack.push((start, pm));
        let ghost target = spec_update_worlds(
            self@,
            bound as nat,
            seq![(start, pm)],
            Set::empty(),
        );
        proof {
            assert(stack@ =~= seq![(start, pm)]);
        }
        while stack.len() > 0
            invariant
                self.wf(),
                self.root() == old(self).root(),
                self.issued() == old(self).issued(),
                bound == self.slot_count(),
                seen@.len() == bound,
                spec_update_worlds(self@, bound as nat, stack@, seen_set(seen@)) == target,
            decreases spec_unvisited(bound as nat, seen_set(seen@)), stack@.len(),
        {
            let ghost stack_pre = stack@;
            let ghost vis_pre = seen_set(seen@);
            let popped = stack.pop();
            let hp = match popped {
                Some(hp) => hp,
                None => {
                    proof {
                        assert(false);
                    }
                    (Handle { index: 0, generation: 0 }, Mat4::identity())
                },
            };
            let h = hp.0;
            proof {
                assert(stack_pre.last() == hp);
                assert(stack@ == stack_pre.drop_last());
            }
            let fetched = match self.nodes.get(h) {
                Some(n) => Some(clone_node(n)),
                None => None,
            };
            match fetched {
                None => {
                    proof {
                        assert(!spec_visit(self@, bound as nat, vis_pre, h));
                    }
                },
                Some(node_c) => {
                    proof {
                        self.nodes.lemma_view_index_bound(h);
                        assert(node_c@ == self@[h]);
                    }
                    let idx = h.index;
                    if seen[idx] {
                        proof {
                            assert(!spec_visit(self@, bound as nat, vis_pre, h));
                        }
                    } else {
                        seen[idx] = true;
                        proof {
                            assert(seen_set(seen@) =~= vis_pre.insert(idx as int));
                            lemma_unvisited_insert(bound as nat, vis_pre, idx as int);
                        }
                        let w = hp.1.mul(&node_c.matrix_local);
                        let mut node2 = clone_node(&node_c);
                        node2.matrix_world = w;
                        let ghost node2v = node2@;
                        let ghost before = self@;
                        self.nodes.update(h, node2);
                        proof {
                            assert(self@ =~= before.insert(h, node2v));
                            assert(node2v == (NodeView { matrix_world: w, ..before[h] }));
                        }
                        let cl = node_c.children.len();
                        let ghost mapped = node_c.children@.map_values(|c: Handle| (c, w));
                        let ghost rest = stack@;
                        let mut k = cl;
                        while k > 0
                            invariant
                                k <= cl,
                                cl == node_c.children@.len(),
                                mapped == node_c.children@.map_values(|c: Handle| (c, w)),
                                stack@ == rest + mapped.subrange(k as int, cl as int).reverse(),
                            decreases k,
                        {
                            k = k - 1;
                            stack.push((node_c.children[k], w));
                            proof {
                                assert(mapped[k as int] == (node_c.children@[k as int], w));
                                lemma_reverse_step(mapped, k as int);
                            }
                        }
                        proof {
                            assert(mapped.subrange(0, cl as int) =~= mapped);
                            assert(stack@ == rest + mapped.reverse());
                            assert(mapped =~= before[h].children.map_values(|c: Handle| (c, w)));
                            assert(spec_update_worlds(before, bound as nat, stack_pre, vis_pre)
                                == spec_update_worlds(self@, bound as nat, stack@, seen_set(seen@)));
                        }
                    }
                },
            }
        }
        proof {
            assert(spec_update_worlds(self@, bound as nat, stack@, seen_set(seen@)) == self@);
        }
    }

    /// Runs world-transform propagation over the whole tree from the root,
    /// whose parent world is the identity.
    pub fn update_matrix_world(&mut self)
        requires
            old(self).wf(),
        ensures
            final(self).wf(),
            final(self).root() == old(self).root(),
            final(self).issued() == old(self).issued(),
            final(self).slot_count() == old(self).slot_count(),
            final(self)@ == spec_update_worlds(
                old(self)@,
                old(self).slot_count(),
                seq![(old(self).root(), spec_identity())],
                Set::empty(),
            ),
    {
        let root = self.get_root_handle();
        self.propagate_worlds(root, Mat4::identity());
    }

    /// Runs world-transform propagation over the subtree at `handle`,
    /// seeding it with its parent's current world matrix (the identity if
    /// it has no parent). A dead handle or parent is a programmer error
    /// and is excluded.
    pub fn update_matrix_world_subtree(&mut self, handle: Handle)
        requires
            old(self).wf(),
            old(self)@.contains_key(handle),
            old(self)@[handle].parent is Some ==> old(self)@.contains_key(
                old(self)@[handle].parent->0,
            ),
        ensures
            final(self).wf(),
            final(self).root() == old(self).root(),
            final(self).issued() == old(self).issued(),
            final(self).slot_count() == old(self).slot_count(),
            final(self)@ == spec_update_worlds(
                old(self)@,
                old(self).slot_count(),
                seq![
                    (
                        handle,
                        match old(self)@[handle].parent {
                            Some(p) => old(self)@[p].matrix_world,
                            None => spec_identity(),
                        },
                    ),
                ],
                Set::empty(),
            ),
    {
        let pm = match self.get_parent_handle(handle) {
            Some(p) => match self.nodes.get(p) {
                Some(pn) => pn.matrix_world,
                None => {
                    proof {
                        assert(false);
                    }
                    Mat4::identity()
                },
            },
            None => Mat4::identity(),
        };
        self.propagate_worlds(handle, pm);
    }

    /// Removes the whole subtree at `start` from the node arena, walking
    /// depth-first.
    fn remove_subtree_from(&mut self, start: Handle)
        requires
            old(self).wf(),
        ensures
            final(self).wf(),
            final(self).root() == old(self).root(),
            final(self).issued() == old(self).issued(),
            final(self).slot_count() == old(self).slot_count(),
            final(self)@ == spec_remove_subtree(
                old(self)@,
                old(self).slot_count(),
                seq![start],
                Set::empty(),
            ),
    {
        let bound = self.nodes.slot_len();
        let mut seen: Vec<bool> = Self::fresh_seen(bound);
        let mut stack: Vec<Handle> = Vec::new();
        stack.push(start);
        let ghost target = spec_remove_subtree(self@, bound as nat, seq![start], Set::empty());
        proof {
            assert(stack@ =~= seq![start]);
        }
        while stack.len() > 0
            invariant
                self.wf(),
                self.root() == old(self).root(),
                self.issued() == old(self).issued(),
                bound == self.slot_count(),
                seen@.len() == bound,
                spec_remove_subtree(self@, bound as nat, stack@, seen_set(seen@)) == target,
            decreases spec_unvisited(bound as nat, seen_set(seen@)), stack@.len(),
        {
            let ghost stack_pre = stack@;
            let ghost vis_pre = seen_set(seen@);
            let popped = stack.pop();
            let h = match popped {
                Some(h) => h,
                None => {
                    proof {
                        assert(false);
                    }
                    Handle { index: 0, generation: 0 }
                },
            };
            proof {
                assert(stack_pre.last() == h);
                assert(stack@ == stack_pre.drop_last());
            }
            let fetched = match self.nodes.get(h) {
                Some(n) => Some(clone_node(n)),
                None => None,
            };
            match fetched {
                None => {
                    proof {
                        assert(!spec_visit(self@, bound as nat, vis_pre, h));
                    }
                },
                Some(node_c) => {
                    proof {
                        self.nodes.lemma_view_index_bound(h);
                        assert(node_c@ == self@[h]);
                    }
                    let idx = h.index;
                    if seen[idx] {
                        proof {
                            assert(!spec_visit(self@, bound as nat, vis_pre, h));
                        }
                    } else {
                        seen[idx] = true;
                        proof {
                            assert(seen_set(seen@) =~= vis_pre.insert(idx as int));
                            lemma_unvisited_insert(bound as nat, vis_pre, idx as int);
                        }
                        let ghost before = self@;
                        self.nodes.remove(h);
                        proof {
                            assert(self@ =~= before.remove(h));
                        }
                        let cl = node_c.children.len();
                        let ghost rest = stack@;
                        let mut k = cl;
                        while k > 0
                            invariant
                                k <= cl,
                                cl == node_c.children@.len(),
                                stack@ == rest + node_c.children@.subrange(
                                    k as int,
                                    cl as int,
                                ).reverse(),
                            decreases k,
                        {
                            k = k - 1;
                            stack.push(node_c.children[k]);
                            proof {
                                lemma_reverse_step(node_c.children@, k as int);
                            }
                        }
                        proof {
                            assert(node_c.children@.subrange(0, cl as int) =~= node_c.children@);
                            assert(stack@ == rest + before[h].children.reverse());
                            assert(spec_remove_subtree(before, bound as nat, stack_pre, vis_pre)
                                == spec_remove_subtree(self@, bound as nat, stack@, seen_set(seen@)));
                        }
                    }
                },
            }
        }
        proof {
            assert(spec_remove_subtree(self@, bound as nat, stack@, seen_set(seen@)) == self@);
        }
    }

    /// Removes the subtree rooted at `handle`, then detaches the removed
    /// node from its former parent's child list. Removing the root, or a
    /// handle that no longer resolves, is a programmer error and is
    /// excluded. Returns `Some(())` only when a live parent was detached;
    /// a parentless node, or a parent that fell inside the removed
    /// subtree, yields `None` after the removal.
    pub fn remove(&mut self, handle: Handle) -> (r: Option<()>)
        requires
            old(self).wf(),
            handle != old(self).root(),
            old(self)@.contains_key(handle),
        ensures
            final(self).wf(),
            final(self).root() == old(self).root(),
            final(self).issued() == old(self).issued(),
            final(self).slot_count() == old(self).slot_count(),
            ({
                let removed = spec_remove_subtree(
                    old(self)@,
                    old(self).slot_count(),
                    seq![handle],
                    Set::empty(),
                );
                if old(self)@[handle].parent is None {
                    final(self)@ == removed && r is None
                } else {
                    let p = old(self)@[handle].parent->0;
                    if removed.contains_key(p) {
                        final(self)@ == removed.insert(
                            p,
                            NodeView {
                                children: spec_drop_handle(removed[p].children, handle),
                                ..removed[p]
                            },
                        ) && r is Some
                    } else {
                        final(self)@ == removed && r is None
                    }
                }
            }),
    {
        let parent_opt = self.get_parent_handle(handle);
        self.remove_subtree_from(handle);
        match parent_opt {
            None => None,
            Some(p) => {
                let fetched = match self.nodes.get(p) {
                    Some(pn) => Some(clone_node(pn)),
                    None => None,
                };
                match fetched {
                    None => None,
                    Some(pn) => {
                        let children = drop_handle(&pn.children, handle);
                        let mut np = pn;
                        np.children = children;
                        let ghost npv = np@;
                        let ghost before = self@;
                        self.nodes.update(p, np);
                        proof {
                            assert(self@ =~= before.insert(p, npv));
                        }
                        Some(())
                    },
                }
            },
        }
    }

    /// Collects visible mesh-carrying nodes starting at the scene root.
    pub fn collect_visible_items(&self) -> (items: Vec<Handle>)
        requires
            self.wf(),
        ensures
            items@ == spec_collect_visible(
                self@,
                self.slot_count(),
                seq![self.root()],
                Set::empty(),
            ),
    {
        let root = self.get_root_handle();
        self.collect_visible_sub_items(root)
    }
}

} // verus!
