use escape_room::clamp_i64;
use escape_room::geom::{distance_sq, displacement, Aabb2D, Circle, Vec2, Vec3};

fn v3(x: i64, y: i64, z: i64) -> Vec3 {
    Vec3 { x, y, z }
}

#[test]
fn clamp_values() {
    assert_eq!(clamp_i64(5, 0, 10), 5);
    assert_eq!(clamp_i64(-3, 0, 10), 0);
    assert_eq!(clamp_i64(42, 0, 10), 10);
    assert_eq!(clamp_i64(0, 0, 0), 0);
}

#[test]
fn distance_sq_exact() {
    assert_eq!(distance_sq(v3(0, 0, 0), v3(3, 4, 0)), 25);
    assert_eq!(distance_sq(v3(1, 2, 3), v3(1, 2, 3)), 0);
    assert_eq!(distance_sq(v3(-2, 0, 5), v3(2, 0, 2)), 25);
    assert_eq!(distance_sq(v3(10, 10, 10), v3(11, 12, 13)), 14);
}

#[test]
fn displacement_no_collision_far_circle() {
    // Closest box point to the center is (10, 0), at distance 5 > radius 3.
    let c = Circle { center: Vec2 { x: 15, z: 0 }, radius: 3 };
    let b = Aabb2D {
        center: Vec2 { x: 0, z: 0 },
        half_widths: Vec2 { x: 10, z: 10 },
        disp_mult: 1,
    };
    assert_eq!(displacement(&c, &b), None);
}

#[test]
fn displacement_touching_counts_as_collision() {
    // Closest box point is (10, 0), at distance exactly the radius.
    let c = Circle { center: Vec2 { x: 15, z: 0 }, radius: 5 };
    let b = Aabb2D {
        center: Vec2 { x: 0, z: 0 },
        half_widths: Vec2 { x: 10, z: 10 },
        disp_mult: 1,
    };
    assert!(displacement(&c, &b).is_some());
}

#[test]
fn displacement_min_axis_is_x() {
    // Penetrations: x = 10 + 4 - 12 = 2, z = 10 + 4 - 1 = 13; x is smaller.
    let c = Circle { center: Vec2 { x: 12, z: 1 }, radius: 4 };
    let b = Aabb2D {
        center: Vec2 { x: 0, z: 0 },
        half_widths: Vec2 { x: 10, z: 10 },
        disp_mult: 1,
    };
    let d = displacement(&c, &b).unwrap();
    assert_eq!((d.x, d.y, d.z), (2, 0, 0));
}

#[test]
fn displacement_min_axis_is_z_scaled_negative() {
    // Penetrations: x = 10 + 4 - 1 = 13, z = 10 + 4 - 12 = 2; z is smaller,
    // and the multiplier pushes toward negative axes.
    let c = Circle { center: Vec2 { x: 1, z: 12 }, radius: 4 };
    let b = Aabb2D {
        center: Vec2 { x: 0, z: 0 },
        half_widths: Vec2 { x: 10, z: 10 },
        disp_mult: -1,
    };
    let d = displacement(&c, &b).unwrap();
    assert_eq!((d.x, d.y, d.z), (0, 0, -2));
}

#[test]
fn displacement_equal_penetration_resolves_along_z() {
    // Equal penetrations on both axes: the tie goes to the z axis.
    let c = Circle { center: Vec2 { x: 12, z: 12 }, radius: 4 };
    let b = Aabb2D {
        center: Vec2 { x: 0, z: 0 },
        half_widths: Vec2 { x: 10, z: 10 },
        disp_mult: 1,
    };
    let d = displacement(&c, &b).unwrap();
    assert_eq!((d.x, d.y, d.z), (0, 0, 2));
}
