use cloud_p2p_images::priority::Priority;

fn of(value: f32) -> Priority {
    Priority { bits: value.to_bits() }
}

#[test]
fn priorities_are_ordered_as_numbers_are() {
    let values: [f32; 12] = [
        0.0,
        -0.0,
        1.5,
        -1.5,
        15.99,
        16.0,
        -3.25,
        f32::MIN_POSITIVE,
        f32::INFINITY,
        f32::NEG_INFINITY,
        f32::NAN,
        1.0e-45,
    ];
    for a in values {
        for b in values {
            assert_eq!(of(a).exceeds(of(b)), a > b, "{} > {}", a, b);
            assert_eq!(of(a).equals(of(b)), a == b, "{} == {}", a, b);
        }
    }
}

#[test]
fn what_is_not_a_number_compares_with_nothing() {
    let nan = Priority { bits: 0x7fc0_0000 };
    assert!(!nan.exceeds(of(1.0)));
    assert!(!of(1.0).exceeds(nan));
    assert!(!nan.equals(nan));
}
