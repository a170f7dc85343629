use renderer::geo::{cross_product, Vec2, Vec3};

#[test]
fn vec2_new_and_fields() {
    let v = Vec2::new(3i32, -4i32);
    assert_eq!(v.x, 3);
    assert_eq!(v.y, -4);
}

#[test]
fn vec2_plus_minus() {
    let a = Vec2::new(1i32, 2i32);
    let b = Vec2::new(10i32, -20i32);
    let s = a.plus(b);
    assert_eq!(s.x, 11);
    assert_eq!(s.y, -18);
    let d = a.minus(b);
    assert_eq!(d.x, -9);
    assert_eq!(d.y, 22);
}

#[test]
fn vec2_to_i32_narrows() {
    let v = Vec2::new(70000i64, -5i64);
    let w = v.to_i32();
    assert_eq!(w.x, 70000);
    assert_eq!(w.y, -5);
}

#[test]
fn vec3_new_from_vec_xy() {
    let v = Vec3::new(1i64, 2i64, 3i64);
    assert_eq!((v.x, v.y, v.z), (1, 2, 3));
    let w = Vec3::from_vec(vec![7i32, 8, 9, 10]);
    assert_eq!((w.x, w.y, w.z), (7, 8, 9));
    let p = v.xy();
    assert_eq!((p.x, p.y), (1, 2));
}

#[test]
fn vec3_minus_and_dot() {
    let a = Vec3::new(1i64, 2i64, 3i64);
    let b = Vec3::new(4i64, 5i64, 6i64);
    let d = b.minus(a);
    assert_eq!((d.x, d.y, d.z), (3, 3, 3));
    assert_eq!(a.dot(b), 32);
}

#[test]
fn vec3_to_i32() {
    let v = Vec3::new(100000i64, -100000i64, 0i64);
    let w = v.to_i32();
    assert_eq!((w.x, w.y, w.z), (100000, -100000, 0));
}

#[test]
fn cross_product_determinant_form() {
    let a = Vec3::new(1i64, 2i64, 3i64);
    let b = Vec3::new(4i64, 5i64, 6i64);
    let c = cross_product(a, b);
    assert_eq!((c.x, c.y, c.z), (-3, 6, -3));
}

#[test]
fn cross_product_anticommutative() {
    let a = Vec3::new(-7i64, 11i64, 2i64);
    let b = Vec3::new(3i64, 0i64, -5i64);
    let ab = cross_product(a, b);
    let ba = cross_product(b, a);
    assert_eq!((ab.x, ab.y, ab.z), (-ba.x, -ba.y, -ba.z));
}

#[test]
fn cross_product_generic_over_i32() {
    let a = Vec3::new(2i32, 0i32, 0i32);
    let b = Vec3::new(0i32, 3i32, 0i32);
    let c = cross_product(a, b);
    assert_eq!((c.x, c.y, c.z), (0, 0, 6));
}
