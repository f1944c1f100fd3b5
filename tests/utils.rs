use elmesque::utils::{clamp, modulo};

#[test]
fn clamp_limits_to_range() {
    assert_eq!(clamp(5, 0, 10), 5);
    assert_eq!(clamp(-5, 0, 10), 0);
    assert_eq!(clamp(15, 0, 10), 10);
    assert_eq!(clamp(0, 0, 0), 0);
}

#[test]
fn modulo_takes_sign_of_divisor() {
    assert_eq!(modulo(-1, 6), 5);
    assert_eq!(modulo(7, 6), 1);
    assert_eq!(modulo(7, -3), -2);
    assert_eq!(modulo(-7, -3), -1);
    assert_eq!(modulo(-7, 3), 2);
    assert_eq!(modulo(6, 3), 0);
    assert_eq!(modulo(-6, 3), 0);
    assert_eq!(modulo(i32::MIN, -1), 0);
    assert_eq!(modulo(i32::MIN, 6), 4);
}
