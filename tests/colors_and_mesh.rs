use rasterizer::algebra::ThreeD;
use rasterizer::colors::RGBA;
use rasterizer::mesh::Mesh;

#[test]
fn packs_channels() {
    assert_eq!(RGBA::new(0x12, 0x34, 0x56).to_color(), 0x0012_3456);
    assert_eq!(RGBA::red().to_color(), 0x00ff_0000);
    assert_eq!(RGBA::green().to_color(), 0x0000_ff00);
    assert_eq!(RGBA::blue().to_color(), 0x0000_00ff);
}

#[test]
fn blend_of_thirds() {
    let c = RGBA::blend(RGBA::red(), RGBA::green(), RGBA::blue(), 1, 1, 1, 3);
    assert_eq!(c, RGBA::new(85, 85, 85));
    let d = RGBA::blend(RGBA::red(), RGBA::green(), RGBA::blue(), 0, 0, 7, 7);
    assert_eq!(d, RGBA::blue());
    let e = RGBA::blend(RGBA::new(10, 0, 0), RGBA::new(20, 0, 0), RGBA::new(40, 0, 0), 1, 2, 1, 4);
    assert_eq!(e, RGBA::new(22, 0, 0));
}

#[test]
fn mesh_new_validates_parts() {
    let p = vec![ThreeD::new(0, 0, 0), ThreeD::new(1, 0, 0), ThreeD::new(0, 1, 0)];
    let c = vec![RGBA::red(), RGBA::green(), RGBA::blue()];
    assert!(Mesh::new(p.clone(), c.clone(), None).is_some());
    assert!(Mesh::new(p.clone(), c.clone(), Some(vec![0, 2, 1])).is_some());
    assert!(Mesh::new(p.clone(), c.clone(), Some(vec![0, 3, 1])).is_none());
    assert!(Mesh::new(p.clone(), vec![RGBA::red()], None).is_none());
}

#[test]
fn mesh_resolves_indices() {
    let m = Mesh::rectangle();
    assert_eq!(m.len(), 6);
    assert_eq!(m.get(3), ThreeD::new(1, -1, 0));
    assert_eq!(m.get_color(5), RGBA::new(255, 255, 255));
    let cube = Mesh::cube();
    assert_eq!(cube.len(), 36);
    assert_eq!(cube.get(35), ThreeD::new(-1, 1, 1));
    assert_eq!(cube.get_color(35), RGBA::blue());
    assert!(cube.is_bounded());
    let p = vec![ThreeD::new(0, 0, 0), ThreeD::new(1, 0, 0), ThreeD::new(0, 1, 0), ThreeD::new(5, 5, 5)];
    let c = vec![RGBA::red(), RGBA::green(), RGBA::blue(), RGBA::red()];
    let plain = Mesh::new(p, c, None).unwrap();
    assert_eq!(plain.len(), 4);
    assert_eq!(plain.get(1), ThreeD::new(1, 0, 0));
    assert_eq!(plain.get_color(2), RGBA::blue());
}
