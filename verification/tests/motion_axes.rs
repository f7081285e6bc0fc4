use remote_input::motion::Velocity;

#[test]
fn rest_is_zero() {
    assert_eq!(Velocity::rest(), Velocity { x: 0, y: 0 });
}

#[test]
fn horizontal_is_kept_and_vertical_is_negated() {
    assert_eq!(Velocity::from_motion(10, 0), Velocity { x: 10, y: 0 });
    assert_eq!(Velocity::from_motion(0, 10), Velocity { x: 0, y: -10 });
    assert_eq!(Velocity::from_motion(-3, -7), Velocity { x: -3, y: 7 });
    assert_eq!(Velocity::from_motion(i32::MAX, 1), Velocity { x: i32::MAX, y: -1 });
    assert_eq!(Velocity::from_motion(i32::MIN, -1), Velocity { x: i32::MIN, y: 1 });
    assert_eq!(
        Velocity::from_motion(0, i32::MAX - 1),
        Velocity { x: 0, y: -(i32::MAX - 1) }
    );
    assert_eq!(Velocity::from_motion(0, i32::MIN + 1), Velocity { x: 0, y: i32::MAX });
}

#[test]
fn the_ends_of_the_range_are_exchanged() {
    assert_eq!(Velocity::from_motion(0, i32::MAX), Velocity { x: 0, y: i32::MIN });
    assert_eq!(Velocity::from_motion(0, i32::MIN), Velocity { x: 0, y: i32::MAX });
}

#[test]
fn reflecting_a_scaled_motion_is_scaling_by_the_negative_factor() {
    let speed: f32 = 10.0;
    let motions = [
        0.0_f32,
        -0.0,
        0.04,
        0.1,
        -0.1,
        0.99,
        1.0,
        -1.0,
        12.34,
        -987.6,
        214_748_352.0,
        214_748_364.0,
        214_748_368.0,
        -214_748_364.0,
        -214_748_368.0,
        3.0e12,
        -3.0e12,
        f32::MAX,
        f32::MIN,
        f32::INFINITY,
        f32::NEG_INFINITY,
        f32::NAN,
        f32::MIN_POSITIVE,
    ];
    for motion in motions {
        let scaled = (motion * speed) as i32;
        let expected = (motion * -speed) as i32;
        assert_eq!(Velocity::from_motion(0, scaled).y, expected, "{motion}");
        assert_eq!(Velocity::from_motion(scaled, 0).x, scaled, "{motion}");
    }
}
