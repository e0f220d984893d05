//! Visibility propagation: an invisible node hides its whole subtree from
//! the visibility collection, even when a descendant is itself visible.

use glscene::renderer::Renderer;
use glscene::scene::Node;
use glscene::store::Mesh;

fn mesh_handle(renderer: &mut Renderer) -> glscene::arena::Handle {
    renderer.insert_mesh(Mesh { primitives: Vec::new(), name: None })
}

#[test]
fn invisible_node_hides_descendants() {
    let mut renderer = Renderer::new();
    let mh = mesh_handle(&mut renderer);
    let root = renderer.scene.get_root_handle();

    let mut a = Node::new(Some(root));
    a.mesh = Some(mh);
    let ha = renderer.scene.insert(a);
    let mut b = Node::new(Some(ha));
    b.mesh = Some(mh);
    let hb = renderer.scene.insert(b);

    let visible = renderer.scene.collect_visible_items();
    assert_eq!(visible, vec![ha, hb]);

    // Marking A invisible hides both A and B, though B stays visible.
    renderer.scene.set_visible(ha, false);
    let after = renderer.scene.collect_visible_items();
    assert!(!after.contains(&ha));
    assert!(!after.contains(&hb));
    assert_eq!(after.len(), 0);
}

#[test]
fn only_mesh_nodes_are_collected() {
    let mut renderer = Renderer::new();
    let mh = mesh_handle(&mut renderer);
    let root = renderer.scene.get_root_handle();

    // A carries no mesh but stays on the path; its child does carry one.
    let ha = renderer.scene.insert(Node::new(Some(root)));
    let mut b = Node::new(Some(ha));
    b.mesh = Some(mh);
    let hb = renderer.scene.insert(b);

    let visible = renderer.scene.collect_visible_items();
    assert_eq!(visible, vec![hb]);
}

#[test]
fn collection_is_depth_first_in_insertion_order() {
    let mut renderer = Renderer::new();
    let mh = mesh_handle(&mut renderer);
    let root = renderer.scene.get_root_handle();

    let mut a = Node::new(Some(root));
    a.mesh = Some(mh);
    let ha = renderer.scene.insert(a);
    let mut a1 = Node::new(Some(ha));
    a1.mesh = Some(mh);
    let ha1 = renderer.scene.insert(a1);
    let mut b = Node::new(Some(root));
    b.mesh = Some(mh);
    let hb = renderer.scene.insert(b);

    // Parent before children, siblings in insertion order.
    let visible = renderer.scene.collect_visible_items();
    assert_eq!(visible, vec![ha, ha1, hb]);
}

#[test]
fn subtree_collection_starts_anywhere() {
    let mut renderer = Renderer::new();
    let mh = mesh_handle(&mut renderer);
    let root = renderer.scene.get_root_handle();
    let ha = renderer.scene.insert(Node::new(Some(root)));
    let mut b = Node::new(Some(ha));
    b.mesh = Some(mh);
    let hb = renderer.scene.insert(b);

    let from_a = renderer.scene.collect_visible_sub_items(ha);
    assert_eq!(from_a, vec![hb]);
}
