//! The vector algebra, exercised on whole-unit values.

use weekendraytracer::vector::Vector4;

/// Whole units, expressed on the fixed-point grid.
fn fx(v: i64) -> i64 {
    v * 1_000_000
}

#[test]
fn test_vector_multiply() {
    let a = Vector4::new(fx(10), fx(20), fx(30), fx(40));
    let b = Vector4::new(fx(1), fx(2), fx(3), fx(4));

    let result = a.clone().mul(b.clone());
    assert_eq!(result.x, fx(10));
    assert_eq!(result.y, fx(40));
    assert_eq!(result.z, fx(90));
    assert_eq!(result.w, fx(160));

    let mut a = a;
    a.mul_assign(b);
    assert_eq!(a.x, fx(10));
    assert_eq!(a.y, fx(40));
    assert_eq!(a.z, fx(90));
    assert_eq!(a.w, fx(160));
}

#[test]
fn test_scalar_multiply() {
    let test = Vector4::new(fx(10), fx(20), fx(30), fx(40));
    let result = test.clone().scale(fx(2));

    assert_eq!(result.x, fx(20));
    assert_eq!(result.y, fx(40));
    assert_eq!(result.z, fx(60));
    assert_eq!(result.w, fx(80));

    let mut test = test;
    test.scale_assign(fx(2));
    assert_eq!(test.x, fx(20));
    assert_eq!(test.y, fx(40));
    assert_eq!(test.z, fx(60));
    assert_eq!(test.w, fx(80));
}

#[test]
fn test_scalar_division() {
    let test = Vector4::new(fx(10), fx(20), fx(30), fx(40));

    let result = test.clone().div(fx(2));
    assert_eq!(result.x, fx(5));
    assert_eq!(result.y, fx(10));
    assert_eq!(result.z, fx(15));
    assert_eq!(result.w, fx(20));

    let mut test = test;
    test.div_assign(fx(2));
    assert_eq!(test.x, fx(5));
    assert_eq!(test.y, fx(10));
    assert_eq!(test.z, fx(15));
    assert_eq!(test.w, fx(20));
}

#[test]
fn test_scalar_sub() {
    let a = Vector4::new(fx(10), fx(20), fx(30), fx(40));

    let result = a.clone().sub_s(fx(2));
    assert_eq!(result.x, fx(8));
    assert_eq!(result.y, fx(18));
    assert_eq!(result.z, fx(28));
    assert_eq!(result.w, fx(38));

    let mut a = a;
    a.sub_s_assign(fx(2));
    assert_eq!(a.x, fx(8));
    assert_eq!(a.y, fx(18));
    assert_eq!(a.z, fx(28));
    assert_eq!(a.w, fx(38));
}

#[test]
fn test_vector_sub() {
    let a = Vector4::new(fx(10), fx(20), fx(30), fx(40));
    let b = Vector4::new(fx(2), fx(2), fx(2), fx(2));

    let result = a.clone().sub(b.clone());
    assert_eq!(result.x, fx(8));
    assert_eq!(result.y, fx(18));
    assert_eq!(result.z, fx(28));
    assert_eq!(result.w, fx(38));

    let mut a = a;
    a.sub_assign(b);
    assert_eq!(a.x, fx(8));
    assert_eq!(a.y, fx(18));
    assert_eq!(a.z, fx(28));
    assert_eq!(a.w, fx(38));
}

#[test]
fn test_vector_addition() {
    let a = Vector4::new(fx(10), fx(20), fx(30), fx(40));
    let b = Vector4::new(fx(2), fx(2), fx(2), fx(2));

    let result = a.clone().add(b.clone());
    assert_eq!(result.x, fx(12));
    assert_eq!(result.y, fx(22));
    assert_eq!(result.z, fx(32));
    assert_eq!(result.w, fx(42));

    let mut a = a;
    a.add_assign(b);
    assert_eq!(a.x, fx(12));
    assert_eq!(a.y, fx(22));
    assert_eq!(a.z, fx(32));
    assert_eq!(a.w, fx(42));
}

#[test]
fn test_vector_negation() {
    let a = Vector4::new(fx(10), fx(20), fx(30), fx(40));
    let result = a.neg();
    assert_eq!(result.x, fx(-10));
    assert_eq!(result.y, fx(-20));
    assert_eq!(result.z, fx(-30));
    assert_eq!(result.w, fx(-40));
}

#[test]
fn test_dot3() {
    let a = Vector4::new(fx(10), fx(11), fx(12), fx(0));
    let b = Vector4::new(fx(2), fx(4), fx(5), fx(0));

    let result = a.dot3(b);

    assert_eq!(result, fx(124));
}

#[test]
fn test_dot4() {
    let a = Vector4::new(fx(10), fx(11), fx(12), fx(1));
    let b = Vector4::new(fx(2), fx(4), fx(5), fx(2));

    let result = a.dot4(b);

    assert_eq!(result, fx(126));
}

#[test]
fn test_cross() {
    let a = Vector4::new(fx(2), fx(3), fx(4), fx(0));
    let b = Vector4::new(fx(5), fx(6), fx(7), fx(0));

    let result = a.cross(b);
    assert_eq!(result.x, fx(-3));
    assert_eq!(result.y, fx(6));
    assert_eq!(result.z, fx(-3));
}
