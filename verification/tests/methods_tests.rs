use byte_ring::methods::SimpleMethods;

#[test]
fn test_1() {
    assert_eq!(4i32, SimpleMethods::double_int32(2));
}

#[test]
fn test_2() {
    assert_eq!(4i64, SimpleMethods::double_int64(2));
}

#[test]
fn test_7() {
    assert_eq!(4, SimpleMethods::tuple_sum((2, 2)));
}

#[test]
fn test_8() {
    assert_eq!(4, SimpleMethods::array_sum([1, 1, 2]));
}

#[test]
fn doubling_handles_negative_values() {
    assert_eq!(-6, SimpleMethods::double_int32(-3));
    assert_eq!(-6i64, SimpleMethods::double_int64(-3));
    assert_eq!(4294967294i64, SimpleMethods::double_int64(i32::MAX));
}

#[test]
fn sums_handle_mixed_signs() {
    assert_eq!(-1, SimpleMethods::tuple_sum((2, -3)));
    assert_eq!(0, SimpleMethods::array_sum([5, -7, 2]));
}
