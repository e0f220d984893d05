//! Transform composition: after a full propagation pass over a
//! root -> A -> B chain, B's world matrix is the product of A's and B's
//! local matrices (the root's local matrix is the identity by
//! construction).

use glscene::mat4::{compose_matrix, Mat4, Quat, Vec3};
use glscene::scene::{Node, Scene};

#[test]
fn three_level_chain_composes() {
    let mut scene = Scene::new();
    let root = scene.get_root_handle();

    let mut a = Node::new(Some(root));
    a.matrix_local = Mat4::translation(Vec3::new(1, 0, 0));
    let ha = scene.insert(a);

    let mut b = Node::new(Some(ha));
    b.matrix_local = Mat4::translation(Vec3::new(0, 2, 0));
    let hb = scene.insert(b);

    scene.update_matrix_world();

    let na = scene.get_node(ha).unwrap();
    assert_eq!(na.matrix_world.m03, 1);
    assert_eq!(na.matrix_world.m13, 0);

    let nb = scene.get_node(hb).unwrap();
    assert_eq!(nb.matrix_world.m03, 1);
    assert_eq!(nb.matrix_world.m13, 2);
    assert_eq!(nb.matrix_world.m23, 0);

    // B's world matrix is exactly Ta * Tb.
    let ta = Mat4::translation(Vec3::new(1, 0, 0));
    let tb = Mat4::translation(Vec3::new(0, 2, 0));
    assert_eq!(nb.matrix_world, ta.mul(&tb));
}

#[test]
fn subtree_update_uses_parent_world() {
    let mut scene = Scene::new();
    let root = scene.get_root_handle();

    let mut a = Node::new(Some(root));
    a.matrix_local = Mat4::translation(Vec3::new(5, 0, 0));
    let ha = scene.insert(a);
    let mut b = Node::new(Some(ha));
    b.matrix_local = Mat4::translation(Vec3::new(0, 0, 7));
    let hb = scene.insert(b);

    scene.update_matrix_world();
    // Change B's local transform and re-propagate only its subtree.
    scene.set_local_matrix(hb, Mat4::translation(Vec3::new(0, 0, 9)));
    scene.update_matrix_world_subtree(hb);

    let nb = scene.get_node(hb).unwrap();
    assert_eq!(nb.matrix_world.m03, 5);
    assert_eq!(nb.matrix_world.m23, 9);
}

#[test]
fn matrix_identities() {
    let m = Mat4::translation(Vec3::new(4, -3, 12));
    assert_eq!(Mat4::identity().mul(&m), m);
    assert_eq!(m.mul(&Mat4::identity()), m);
}

#[test]
fn compose_defaults_to_identity() {
    assert_eq!(compose_matrix(None, None, None), Mat4::identity());
    let t = compose_matrix(Some(Vec3::new(1, 2, 3)), None, None);
    assert_eq!(t.m03, 1);
    assert_eq!(t.m13, 2);
    assert_eq!(t.m23, 3);
    assert_eq!(t.m00, 1);
    // The identity quaternion leaves the rotation block diagonal.
    let r = compose_matrix(None, Some(Quat::identity()), Some(Vec3::new(2, 2, 2)));
    assert_eq!(r.m00, 2);
    assert_eq!(r.m11, 2);
    assert_eq!(r.m22, 2);
    assert_eq!(r.m01, 0);
}

#[test]
fn reparenting_moves_subtree() {
    let mut scene = Scene::new();
    let root = scene.get_root_handle();
    let mut a = Node::new(Some(root));
    a.matrix_local = Mat4::translation(Vec3::new(10, 0, 0));
    let ha = scene.insert(a);
    let mut b = Node::new(Some(root));
    b.matrix_local = Mat4::translation(Vec3::new(0, 20, 0));
    let hb = scene.insert(b);

    scene.set_parent(hb, ha);
    scene.update_matrix_world();

    let nb = scene.get_node(hb).unwrap();
    assert_eq!(nb.parent, Some(ha));
    assert_eq!(nb.matrix_world.m03, 10);
    assert_eq!(nb.matrix_world.m13, 20);
    // The old parent no longer lists b.
    let nroot = scene.get_node(root).unwrap();
    assert!(!nroot.children.contains(&hb));
    let na = scene.get_node(ha).unwrap();
    assert!(na.children.contains(&hb));
}
