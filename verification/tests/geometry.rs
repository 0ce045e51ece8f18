use prime_spiral::view::{to_screen, Center};

const CENTER: Center = Center { x: 900, y: 500 };

#[test]
fn centered_point_is_visible() {
    // raw (0.0, 0.0) at any coefficient scales to offset (0, 0)
    let (sx, sy, visible) = to_screen(CENTER, 0, 0);
    assert_eq!(sx, 900);
    assert_eq!(sy, 500);
    assert!(visible);
}

#[test]
fn far_point_is_culled() {
    // raw (2000.0, 0.0) at coefficient 1.0
    let coeff = 1.0f64;
    let ox = (coeff * 2000.0).round() as i32;
    let oy = (coeff * 0.0).round() as i32;
    let (sx, sy, visible) = to_screen(CENTER, ox, oy);
    assert_eq!(sx, 2900);
    assert_eq!(sy, 500);
    assert!(!visible);
}

#[test]
fn upper_bound_is_excluded() {
    // a screen x of exactly 1800 is off screen; 1799 is visible
    let (sx, _, visible) = to_screen(CENTER, 900, 0);
    assert_eq!(sx, 1800);
    assert!(!visible);
    let (sx, _, visible) = to_screen(CENTER, 899, 0);
    assert_eq!(sx, 1799);
    assert!(visible);
    // the same asymmetry vertically: screen y 1000 is out, 999 is in
    let (_, sy, visible) = to_screen(CENTER, 0, -500);
    assert_eq!(sy, 1000);
    assert!(!visible);
    let (_, sy, visible) = to_screen(CENTER, 0, -499);
    assert_eq!(sy, 999);
    assert!(visible);
}

#[test]
fn lower_bound_is_included() {
    let (sx, sy, visible) = to_screen(CENTER, -900, 500);
    assert_eq!(sx, 0);
    assert_eq!(sy, 0);
    assert!(visible);
    let (sx, _, visible) = to_screen(CENTER, -901, 0);
    assert_eq!(sx, -1);
    assert!(!visible);
    let (_, sy, visible) = to_screen(CENTER, 0, 501);
    assert_eq!(sy, -1);
    assert!(!visible);
}

#[test]
fn vertical_axis_points_upward() {
    // a positive raw y offset lands above the center on screen
    let (_, sy, _) = to_screen(CENTER, 0, 100);
    assert_eq!(sy, 400);
}
