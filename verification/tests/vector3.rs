use raytracer::{Scalar, Vector3};

fn scalar(value: f32) -> Scalar {
    Scalar { raw: (value * 65536.0).round() as i32 }
}

fn float(value: Scalar) -> f32 {
    value.raw as f32 / 65536.0
}

fn vector(x: f32, y: f32, z: f32) -> Vector3 {
    Vector3::new(scalar(x), scalar(y), scalar(z))
}

fn assert_near_eq(expected: f32, actual: f32) {
    let diff = (actual - expected).abs();
    assert!(diff < std::f32::EPSILON);
}

#[test]
fn dot() {
    assert_near_eq(34.0, float(vector(20.0, -3.0, 3.0).dot(vector(5.0, 20.0, -2.0))));
    assert_near_eq(229.0, float(vector(-3.0, 2.0, -13.0).dot(vector(-9.0, -16.0, -18.0))));
    assert_near_eq(430.0, float(vector(7.0, -9.0, -19.0).dot(vector(18.0, -19.0, -7.0))));
}

#[test]
fn dot_is_symmetric() {
    let a = vector(1.5, -2.25, 7.0);
    let b = vector(-0.125, 3.0, 0.75);
    assert_eq!(a.dot(b), b.dot(a));
    assert_eq!(a.exact_dot(b), b.exact_dot(a));
    assert_eq!(a.dot(b).raw, -110592);
}

#[test]
fn dot_is_bilinear() {
    let a = vector(1.0, -2.0, 3.0);
    let b = vector(4.0, 0.5, -6.0);
    let c = vector(-7.0, 8.0, 9.0);
    assert_eq!((a + b).dot(c), a.dot(c) + b.dot(c));
    assert_eq!(c.dot(a + b), c.dot(a) + c.dot(b));
    assert_eq!((a + b).exact_dot(c), a.exact_dot(c) + b.exact_dot(c));
    let factor = scalar(2.5);
    assert_eq!((a * factor).dot(c), factor * a.dot(c));
    assert_eq!((a * factor).exact_dot(c) * 65536, factor.raw as i128 * a.exact_dot(c));
    assert_eq!(c.dot(factor * a), factor * c.dot(a));
}

#[test]
fn rounded_dot_is_additive_only_up_to_a_unit() {
    let a = Vector3::new(Scalar { raw: 1 }, Scalar::zero(), Scalar::zero());
    let c = vector(0.5, 0.0, 0.0);
    assert_eq!(a.dot(c).raw, 0);
    assert_eq!((a + a).dot(c).raw, 1);
    assert_eq!((a + a).exact_dot(c), a.exact_dot(c) + a.exact_dot(c));
}

#[test]
fn length_of_a_three_four_five_triangle() {
    let v = vector(3.0, 4.0, 0.0);
    assert_eq!(v.length_squared(), Scalar::from_int(25));
    assert_eq!(v.length(), Scalar::from_int(5));
    assert_eq!(v.exact_dot(v), 25 * 65536 * 65536);
}

#[test]
fn length_rounds_down_and_saturates() {
    let v = Vector3::new(Scalar { raw: 1 }, Scalar { raw: 1 }, Scalar::zero());
    assert_eq!(v.length().raw, 1);
    let far = Vector3::new(Scalar { raw: i32::MIN }, Scalar { raw: i32::MIN }, Scalar { raw: i32::MIN });
    assert_eq!(far.length().raw, i32::MAX);
    assert_eq!(far.length_squared().raw, i32::MAX);
}

#[test]
fn normalize_keeps_unit_vectors() {
    let axes = [vector(1.0, 0.0, 0.0), vector(0.0, -1.0, 0.0), vector(0.0, 0.0, 1.0)];
    for v in axes {
        assert_eq!(v.length(), Scalar::one());
        assert_eq!(v.normalize(), v);
    }
    let slanted = Vector3::new(Scalar { raw: 65535 }, Scalar { raw: 363 }, Scalar::zero());
    assert_eq!(slanted.length(), Scalar::one());
    assert_eq!(slanted.normalize(), slanted);
}

#[test]
fn normalize_divides_by_the_length() {
    let unit = vector(3.0, 4.0, 0.0).normalize();
    assert_eq!(unit.x.raw, 39321);
    assert_eq!(unit.y.raw, 52428);
    assert_eq!(unit.z.raw, 0);
    let opposite = vector(0.0, 0.0, -7.5).normalize();
    assert_eq!(opposite, vector(0.0, 0.0, -1.0));
}

#[test]
fn normalized_vectors_have_length_near_one() {
    let vectors = [
        vector(3.0, 4.0, 0.0),
        vector(-1.0, 1.0, 1.0),
        vector(0.3, -0.2, 0.9),
        vector(100.0, -250.0, 17.0),
        vector(0.01, 0.02, -0.03),
    ];
    for v in vectors {
        let length = float(v.normalize().length());
        assert!((length - 1.0).abs() < 1.0e-2, "length {}", length);
    }
}

#[test]
fn zero_vector_is_recognised() {
    assert!(vector(0.0, 0.0, 0.0).is_zero());
    assert!(!Vector3::new(Scalar::zero(), Scalar { raw: -1 }, Scalar::zero()).is_zero());
}

#[test]
fn vectors_add_subtract_negate_and_scale() {
    let a = vector(1.0, -2.0, 3.5);
    let b = vector(0.5, 0.25, -4.0);
    assert_eq!(a + b, vector(1.5, -1.75, -0.5));
    assert_eq!(a - b, vector(0.5, -2.25, 7.5));
    assert_eq!(-a, vector(-1.0, 2.0, -3.5));
    assert_eq!(a * scalar(2.0), vector(2.0, -4.0, 7.0));
    assert_eq!(scalar(-0.5) * a, vector(-0.5, 1.0, -1.75));
}

#[test]
fn vector_components_saturate_one_by_one() {
    let a = vector(32000.0, 1.0, -32000.0);
    let sum = a + a;
    assert_eq!(sum.x.raw, i32::MAX);
    assert_eq!(sum.y, scalar(2.0));
    assert_eq!(sum.z.raw, i32::MIN);
}
