use report_core::calculate_proportional_size;

#[test]
fn test_calculate_proportional_size() {
    // 16:9
    let (width, height) = calculate_proportional_size(1920 * 9525, 1920, 1080);
    assert_eq!(width, 1920 * 9525);
    assert_eq!(height, 1080 * 9525);

    // unknown pixel size
    let (width, height) = calculate_proportional_size(1920 * 9525, 0, 0);
    assert_eq!(width, 1920 * 9525);
    assert_eq!(height, 1920 * 9525 * 9 / 16);
}

/// The same computation on the machine's own double-precision numbers.
fn with_doubles(target: u32, pixel_width: u32, pixel_height: u32) -> (u32, u32) {
    if pixel_width == 0 || pixel_height == 0 {
        return (target, ((target as u64) * 9 / 16) as u32);
    }
    let aspect_ratio = pixel_height as f64 / pixel_width as f64;
    let height = (target as f64 * aspect_ratio) as u32;
    let ceiling = 2 * target as u64;
    if height as u64 > ceiling {
        (
            ((target as u64) * (pixel_width as u64) / (pixel_height as u64)) as u32,
            ceiling as u32,
        )
    } else {
        (target, height)
    }
}

/// A fixed pseudo-random sequence, so that every run sees the same inputs.
fn next(state: &mut u64) -> u32 {
    *state = state
        .wrapping_mul(6364136223846793005)
        .wrapping_add(1442695040888963407);
    (*state >> 32) as u32
}

#[test]
fn zero_dimension_gives_the_default_box() {
    assert_eq!(calculate_proportional_size(1600, 0, 0), (1600, 900));
    assert_eq!(calculate_proportional_size(1600, 0, 480), (1600, 900));
    assert_eq!(calculate_proportional_size(1600, 640, 0), (1600, 900));
    assert_eq!(calculate_proportional_size(17, 0, 0), (17, 9));
    assert_eq!(calculate_proportional_size(0, 0, 0), (0, 0));
    // 9/16 of the largest width still fits
    assert_eq!(
        calculate_proportional_size(u32::MAX, 0, 0),
        (u32::MAX, 2415919103)
    );
}

#[test]
fn height_follows_the_aspect_ratio() {
    assert_eq!(calculate_proportional_size(520 * 9525, 800, 600), (4953000, 3714750));
    assert_eq!(calculate_proportional_size(1000, 100, 100), (1000, 1000));
    assert_eq!(calculate_proportional_size(1000, 300, 100), (1000, 333));
    assert_eq!(calculate_proportional_size(1000, 100, 200), (1000, 2000));
    assert_eq!(calculate_proportional_size(0, 3, 4), (0, 0));
}

#[test]
fn sixteen_to_nine_is_kept_at_every_multiple() {
    for k in [0u32, 1, 2, 3, 7, 100, 9525, 65536, 1_000_003, 2_236_962] {
        assert_eq!(
            calculate_proportional_size(1920 * k, 1920, 1080),
            (1920 * k, 1080 * k),
            "k {}",
            k
        );
    }
    // the largest multiple of 1920 that a width can hold
    assert_eq!(u32::MAX / 1920, 2_236_962);
}

#[test]
fn binary_ratios_lose_nothing_to_rounding() {
    // height / width == numerator / 2^shift: the height is the exact quotient, rounded down
    for shift in 0..12u32 {
        for numerator in 1..=(2u64 << shift) {
            for target in [0u32, 1, 5, 1000, 4953000, 18288000, 0x7FFF_FFFF, u32::MAX] {
                let width = 7u64 << shift;
                let height = 7 * numerator;
                let expected = (target as u64 * numerator) >> shift;
                assert!(expected <= 2 * target as u64);
                if expected > u32::MAX as u64 {
                    continue;
                }
                assert_eq!(
                    calculate_proportional_size(target, width as u32, height as u32),
                    (target, expected as u32),
                    "target {} width {} height {}",
                    target,
                    width,
                    height
                );
            }
        }
    }
}

#[test]
fn tall_image_is_fitted_under_the_ceiling() {
    // 1:3 would be 3000 high; the ceiling is 2000 and the width shrinks to a third
    assert_eq!(calculate_proportional_size(1000, 100, 300), (333, 2000));
    assert_eq!(calculate_proportional_size(4953000, 1000, 3000), (1651000, 9906000));
    // one unit over the ceiling is enough
    assert_eq!(calculate_proportional_size(1000, 1000, 2001), (499, 2000));
    // exactly twice as high is not clamped
    assert_eq!(calculate_proportional_size(1000, 1000, 2000), (1000, 2000));
}

#[test]
fn height_is_rounded_as_doubles_round() {
    // 1/49 is not a binary fraction: 49 * (1/49) falls just short of 1
    assert_eq!(calculate_proportional_size(49, 49, 1), (49, 0));
    assert_eq!(with_doubles(49, 49, 1), (49, 0));
    // 3 * (1/3) rounds up to exactly 1
    assert_eq!(calculate_proportional_size(3, 3, 1), (3, 1));
    assert_eq!(with_doubles(3, 3, 1), (3, 1));
}

#[test]
fn widest_targets_do_not_overflow() {
    // the ceiling of twice the width lies above every 32-bit height
    assert_eq!(calculate_proportional_size(u32::MAX, 1, 1), (u32::MAX, u32::MAX));
    assert_eq!(calculate_proportional_size(u32::MAX, 1, 2), (u32::MAX, u32::MAX));
    assert_eq!(calculate_proportional_size(u32::MAX, 1, u32::MAX), (u32::MAX, u32::MAX));
    assert_eq!(calculate_proportional_size(0x8000_0000, 1, 7), (0x8000_0000, u32::MAX));
    // just below: the ceiling fits and is taken
    assert_eq!(
        calculate_proportional_size(0x7FFF_FFFF, 1, 7),
        (0x7FFF_FFFF / 7, 0xFFFF_FFFE)
    );
    assert_eq!(
        calculate_proportional_size(0x7FFF_FFFF, u32::MAX, u32::MAX),
        (0x7FFF_FFFF, 0x7FFF_FFFF)
    );
}

#[test]
fn agrees_with_doubles_on_small_sizes() {
    for target in 0..40u32 {
        for w in 0..40u32 {
            for h in 0..40u32 {
                assert_eq!(
                    calculate_proportional_size(target, w, h),
                    with_doubles(target, w, h),
                    "target {} width {} height {}",
                    target,
                    w,
                    h
                );
            }
        }
    }
}

#[test]
fn agrees_with_doubles_on_layout_widths() {
    let target = 520 * 9525;
    for w in 1..400u32 {
        for h in 1..400u32 {
            assert_eq!(
                calculate_proportional_size(target, w, h),
                with_doubles(target, w, h),
                "width {} height {}",
                w,
                h
            );
        }
    }
}

#[test]
fn agrees_with_doubles_on_scattered_sizes() {
    let mut state: u64 = 0x2545F4914F6CDD1D;
    for _ in 0..200000 {
        let target = next(&mut state);
        let w = next(&mut state);
        let h = next(&mut state);
        assert_eq!(
            calculate_proportional_size(target, w, h),
            with_doubles(target, w, h),
            "target {} width {} height {}",
            target,
            w,
            h
        );
        // the same with short operands, where ratios repeat and ties occur
        let (target, w, h) = (target >> 12, (w >> 20) + 1, (h >> 20) + 1);
        assert_eq!(
            calculate_proportional_size(target, w, h),
            with_doubles(target, w, h),
            "target {} width {} height {}",
            target,
            w,
            h
        );
    }
}

#[test]
fn agrees_with_doubles_at_the_extremes() {
    let edge = [
        1u32,
        2,
        3,
        0x7FFF_FFFF,
        0x8000_0000,
        0x8000_0001,
        0xFFFF_FFFE,
        0xFFFF_FFFF,
        0x0020_0001,
        0x001F_FFFF,
        4953000,
    ];
    for &target in edge.iter() {
        for &w in edge.iter() {
            for &h in edge.iter() {
                assert_eq!(
                    calculate_proportional_size(target, w, h),
                    with_doubles(target, w, h),
                    "target {} width {} height {}",
                    target,
                    w,
                    h
                );
            }
        }
    }
}

#[test]
fn size_stays_within_the_box() {
    let mut state: u64 = 0x9E3779B97F4A7C15;
    for _ in 0..50000 {
        let target = next(&mut state);
        let w = next(&mut state) >> 16;
        let h = next(&mut state) >> 16;
        let (width, height) = calculate_proportional_size(target, w, h);
        assert!(width <= target);
        assert!(height as u64 <= 2 * target as u64);
    }
}

#[test]
fn unclamped_height_is_within_one_of_the_exact_quotient() {
    let mut state: u64 = 0xD1B54A32D192ED03;
    let mut seen = 0;
    for _ in 0..300000 {
        let target = next(&mut state) >> (next(&mut state) % 24);
        let w = (next(&mut state) >> (next(&mut state) % 31)) + 1;
        let h = (next(&mut state) >> (next(&mut state) % 31)) + 1;
        let exact = target as u64 * h as u64 / w as u64;
        if exact > u32::MAX as u64 {
            continue;
        }
        let (width, height) = calculate_proportional_size(target, w, h);
        if width != target || target == 0 {
            continue;
        }
        seen += 1;
        assert!(
            (height as i64 - exact as i64).abs() <= 1,
            "target {} width {} height {}: {} against {}",
            target,
            w,
            h,
            height,
            exact
        );
    }
    assert!(seen > 50000);
}

#[test]
fn size_depends_on_the_ratio_alone() {
    let mut state: u64 = 0xA0761D6478BD642F;
    for _ in 0..100000 {
        let target = next(&mut state);
        let w = next(&mut state) >> 16;
        let h = next(&mut state) >> 16;
        let factor = (next(&mut state) >> 17) + 1;
        assert_eq!(
            calculate_proportional_size(target, factor * w, factor * h),
            calculate_proportional_size(target, w, h),
            "target {} width {} height {} factor {}",
            target,
            w,
            h,
            factor
        );
    }
    assert_eq!(
        calculate_proportional_size(4953000, 3840, 2160),
        calculate_proportional_size(4953000, 16, 9)
    );
}
