use gli_rs::target::Target;
use gli_rs::Swizzle;

#[test]
fn swizzle_numbers_are_fixed() {
    assert_eq!(Swizzle::RED, 0);
    assert_eq!(Swizzle::GREEN, 1);
    assert_eq!(Swizzle::BLUE, 2);
    assert_eq!(Swizzle::ALPHA, 3);
    assert_eq!(Swizzle::ZERO, 4);
    assert_eq!(Swizzle::ONE, 5);
    assert_eq!(Swizzle::FIRST, Swizzle::RED);
    assert_eq!(Swizzle::CHANNEL_FIRST, Swizzle::RED);
    assert_eq!(Swizzle::CHANNEL_LAST, Swizzle::ALPHA);
    assert_eq!(Swizzle::LAST, Swizzle::ONE);
}

#[test]
fn is_channel_goes_from_the_first_channel_to_the_last_swizzle() {
    for value in 0u32..=5 {
        assert!(Swizzle(value).is_channel());
    }
    assert!(!Swizzle(6).is_channel());
    assert!(!Swizzle(u32::MAX).is_channel());
}

#[test]
fn swizzles_print_as_their_names() {
    assert_eq!(Swizzle(Swizzle::RED).name(), "Swizzle::RED");
    assert_eq!(Swizzle(Swizzle::GREEN).name(), "Swizzle::GREEN");
    assert_eq!(Swizzle(Swizzle::BLUE).name(), "Swizzle::BLUE");
    assert_eq!(Swizzle(Swizzle::ALPHA).name(), "Swizzle::ALPHA");
    assert_eq!(Swizzle(Swizzle::ZERO).name(), "Swizzle::ZERO");
    assert_eq!(Swizzle(Swizzle::ONE).name(), "Swizzle::ONE");
    assert_eq!(Swizzle(17).name(), "Unknown Swizzle");
}

#[test]
fn target_numbers_are_fixed() {
    assert_eq!(Target::TARGET_1D, 0);
    assert_eq!(Target::TARGET_1D_ARRAY, 1);
    assert_eq!(Target::TARGET_2D, 2);
    assert_eq!(Target::TARGET_2D_ARRAY, 3);
    assert_eq!(Target::TARGET_3D, 4);
    assert_eq!(Target::TARGET_RECT, 5);
    assert_eq!(Target::TARGET_RECT_ARRAY, 6);
    assert_eq!(Target::TARGET_CUBE, 7);
    assert_eq!(Target::TARGET_CUBE_ARRAY, 8);
    assert_eq!(Target::TARGET_FIRST, 0);
    assert_eq!(Target::TARGET_LAST, 8);
}

#[test]
fn targets_classify() {
    let expect = [
        // value, 1d, array, cube, rect
        (0u32, true, false, false, false),
        (1, true, true, false, false),
        (2, false, false, false, false),
        (3, false, true, false, false),
        (4, false, false, false, false),
        (5, false, false, false, true),
        (6, false, false, false, true),
        (7, false, false, true, false),
        (8, false, true, true, false),
        (9, false, false, false, false),
    ];
    for (value, one_d, array, cube, rect) in expect {
        let t = Target(value);
        assert_eq!(t.is_target_1d(), one_d, "{}", value);
        assert_eq!(t.is_target_array(), array, "{}", value);
        assert_eq!(t.is_target_cube(), cube, "{}", value);
        assert_eq!(t.is_target_rect(), rect, "{}", value);
        assert_eq!(t.is_valid(), value <= 8);
    }
}

#[test]
fn targets_print_as_their_names() {
    assert_eq!(Target(Target::TARGET_1D).name(), "Target::TARGET_1D");
    assert_eq!(Target(Target::TARGET_1D_ARRAY).name(), "Target::TARGET_1D_ARRAY");
    assert_eq!(Target(Target::TARGET_2D).name(), "Target::TARGET_2D");
    assert_eq!(Target(Target::TARGET_2D_ARRAY).name(), "Target::TARGET_2D_ARRAY");
    assert_eq!(Target(Target::TARGET_3D).name(), "Target::TARGET_3D");
    assert_eq!(Target(Target::TARGET_RECT).name(), "Target::TARGET_RECT");
    assert_eq!(Target(Target::TARGET_RECT_ARRAY).name(), "Target::TARGET_RECT_ARRAY");
    assert_eq!(Target(Target::TARGET_CUBE).name(), "Target::TARGET_CUBE");
    assert_eq!(Target(Target::TARGET_CUBE_ARRAY).name(), "Target::TARGET_CUBE_ARRAY");
    assert_eq!(Target(9).name(), "Unknown target");
}

#[test]
fn targets_admit_their_shapes() {
    let t1 = Target(Target::TARGET_1D);
    assert_eq!(t1.axes(), 1);
    assert!(t1.admits(1, 1, 1, 1));
    assert!(!t1.admits(2, 1, 1, 1));
    assert!(!t1.admits(1, 1, 2, 1));
    let t2a = Target(Target::TARGET_2D_ARRAY);
    assert_eq!(t2a.axes(), 2);
    assert!(t2a.admits(5, 1, 7, 1));
    assert!(!t2a.admits(5, 6, 7, 1));
    assert!(!t2a.admits(5, 1, 7, 2));
    let t3 = Target(Target::TARGET_3D);
    assert_eq!(t3.axes(), 3);
    assert!(t3.admits(1, 1, 4, 4));
    assert!(!t3.admits(2, 1, 4, 4));
    let cube = Target(Target::TARGET_CUBE);
    assert!(cube.admits(1, 6, 4, 1));
    assert!(cube.admits(1, 1, 4, 1));
    assert!(!cube.admits(2, 6, 4, 1));
    let cubes = Target(Target::TARGET_CUBE_ARRAY);
    assert!(cubes.admits(3, 6, 4, 1));
    assert!(!cubes.admits(0, 6, 4, 1));
    assert!(!cubes.admits(3, 0, 4, 1));
    assert!(!Target(9).admits(1, 1, 1, 1));
    assert_eq!(Target(9).axes(), 0);
}
