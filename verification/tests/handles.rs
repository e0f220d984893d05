//! Handle integrity: inserting N items and removing one leaves every other
//! handle resolving to its original value, and the removed handle never
//! resolves again, even after the slot is reused.

use glscene::mat4::Mat4;
use glscene::scene::{Node, Scene};

#[test]
fn other_handles_survive_removal() {
    let mut scene = Scene::new();
    let root = scene.get_root_handle();

    let mut a = Node::new(Some(root));
    a.matrix_local = Mat4::translation(glscene::mat4::Vec3::new(1, 0, 0));
    let ha = scene.insert(a);

    let mut b = Node::new(Some(root));
    b.matrix_local = Mat4::translation(glscene::mat4::Vec3::new(2, 0, 0));
    let hb = scene.insert(b);

    let mut c = Node::new(Some(root));
    c.matrix_local = Mat4::translation(glscene::mat4::Vec3::new(3, 0, 0));
    let hc = scene.insert(c);

    assert!(scene.remove(hb).is_some());

    let na = scene.get_node(ha).expect("a survives");
    assert_eq!(na.matrix_local.m03, 1);
    let nc = scene.get_node(hc).expect("c survives");
    assert_eq!(nc.matrix_local.m03, 3);
    assert!(scene.get_node(hb).is_none());
}

#[test]
fn removed_handle_stays_stale_after_reuse() {
    let mut scene = Scene::new();
    let root = scene.get_root_handle();

    let hb = scene.insert(Node::new(Some(root)));
    assert!(scene.remove(hb).is_some());
    assert!(scene.get_node(hb).is_none());

    // Insert more nodes: one may reuse the freed slot, but under a new
    // generation, so the old handle still fails to resolve.
    let hc = scene.insert(Node::new(Some(root)));
    let hd = scene.insert(Node::new(Some(root)));
    assert!(scene.get_node(hb).is_none());
    assert_ne!(hb, hc);
    assert_ne!(hb, hd);
    assert!(scene.get_node(hc).is_some());
    assert!(scene.get_node(hd).is_some());
}

#[test]
fn removing_subtree_removes_descendants_only() {
    let mut scene = Scene::new();
    let root = scene.get_root_handle();

    let ha = scene.insert(Node::new(Some(root)));
    let hb = scene.insert(Node::new(Some(ha)));
    let hc = scene.insert(Node::new(Some(root)));

    assert!(scene.remove(ha).is_some());
    assert!(scene.get_node(ha).is_none());
    assert!(scene.get_node(hb).is_none());
    assert!(scene.get_node(hc).is_some());
    assert!(scene.get_node(root).is_some());
}

#[test]
fn resource_handles_do_not_move_on_inserts() {
    let mut renderer = glscene::renderer::Renderer::new();
    let h1 = renderer.insert_image(11);
    let h2 = renderer.insert_image(22);
    let h3 = renderer.insert_image(33);
    assert_eq!(renderer.images.get(h1), Some(&11));
    assert_eq!(renderer.images.get(h2), Some(&22));
    assert_eq!(renderer.images.get(h3), Some(&33));
}
