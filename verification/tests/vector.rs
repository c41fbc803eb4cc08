use action_rpg::math::isqrt;
use action_rpg::vector::Vector2;

fn v(x: i32, y: i32) -> Vector2 {
    Vector2::new(x, y)
}

#[test]
fn isqrt_rounds_down() {
    assert_eq!(isqrt(0), 0);
    assert_eq!(isqrt(1), 1);
    assert_eq!(isqrt(2), 1);
    assert_eq!(isqrt(3), 1);
    assert_eq!(isqrt(4), 2);
    assert_eq!(isqrt(15), 3);
    assert_eq!(isqrt(16), 4);
    assert_eq!(isqrt(17), 4);
    assert_eq!(isqrt(3_200_000_000_000_000), 56_568_542);
}

#[test]
fn isqrt_at_the_limits() {
    assert_eq!(isqrt(u128::MAX), u64::MAX);
    let top: u128 = u64::MAX as u128;
    assert_eq!(isqrt(top * top), u64::MAX);
    assert_eq!(isqrt(top * top - 1), u64::MAX - 1);
}

#[test]
fn new_and_zero() {
    assert_eq!(v(3, -4).x, 3);
    assert_eq!(v(3, -4).y, -4);
    assert_eq!(Vector2::zero(), v(0, 0));
    assert!(Vector2::zero().is_zero());
    assert!(!v(0, 1).is_zero());
    assert!(!v(-1, 0).is_zero());
}

#[test]
fn length_squared_is_exact() {
    assert_eq!(v(3, 4).length_squared(), 25);
    assert_eq!(v(-3, 4).length_squared(), 25);
    assert_eq!(v(0, 0).length_squared(), 0);
    assert_eq!(v(i32::MIN, i32::MIN).length_squared(), 1u64 << 63);
    assert_eq!(v(80_000_000, 0).length_squared(), 6_400_000_000_000_000);
}

#[test]
fn with_length_scales_and_rounds_toward_zero() {
    assert_eq!(v(3, 4).with_length(10), v(6, 8));
    assert_eq!(v(-3, 4).with_length(5), v(-3, 4));
    assert_eq!(v(3, 4).with_length(1), v(0, 0));
    assert_eq!(v(1, 1).with_length(10), v(7, 7));
    assert_eq!(v(1, -1).with_length(10), v(7, -7));
    assert_eq!(v(3, 4).with_length(0), v(0, 0));
}

#[test]
fn with_length_is_exact_on_an_axis() {
    assert_eq!(v(-7, 0).with_length(3), v(-3, 0));
    assert_eq!(v(0, 2).with_length(1_000_000), v(0, 1_000_000));
    assert_eq!(v(1, 0).with_length(i32::MAX as u32), v(i32::MAX, 0));
}

#[test]
fn with_length_leaves_zero_alone() {
    assert_eq!(v(0, 0).with_length(10), v(0, 0));
}

#[test]
fn with_length_of_the_largest_vector() {
    let r = v(i32::MAX, i32::MIN).with_length(i32::MAX as u32);
    assert_eq!(r, v(1_518_500_248, -1_518_500_249));
    assert!(r.length_squared() <= (i32::MAX as u64) * (i32::MAX as u64));
}

#[test]
fn limit_length_cuts_only_what_is_longer() {
    assert_eq!(v(6, 8).limit_length(5), v(3, 4));
    assert_eq!(v(6, 8).limit_length(10), v(6, 8));
    assert_eq!(v(6, 8).limit_length(11), v(6, 8));
    assert_eq!(v(5, 0).limit_length(0), v(0, 0));
    assert_eq!(v(0, 0).limit_length(0), v(0, 0));
}

#[test]
fn limit_length_at_the_limits() {
    assert_eq!(v(i32::MIN, i32::MIN).limit_length(u32::MAX), v(i32::MIN, i32::MIN));
    assert_eq!(
        v(i32::MIN, i32::MIN).limit_length(3_000_000_000),
        v(-2_121_320_343, -2_121_320_343)
    );
}

#[test]
fn move_toward_arrives_when_within_reach() {
    assert_eq!(v(0, 0).move_toward(v(3, 4), 5), v(3, 4));
    assert_eq!(v(0, 0).move_toward(v(3, 4), 10), v(3, 4));
    assert_eq!(v(0, 0).move_toward(v(3, 4), u64::MAX), v(3, 4));
    assert_eq!(v(7, 7).move_toward(v(7, 7), 0), v(7, 7));
}

#[test]
fn move_toward_goes_the_step_along_the_line() {
    assert_eq!(v(0, 0).move_toward(v(30, 40), 5), v(3, 4));
    assert_eq!(v(10, 20).move_toward(v(40, 60), 5), v(13, 24));
    assert_eq!(v(-5, 7).move_toward(v(4, -5), 5), v(-2, 3));
}

#[test]
fn move_toward_with_no_step_stays() {
    assert_eq!(v(1, 2).move_toward(v(30, 40), 0), v(1, 2));
}

#[test]
fn move_toward_rounds_the_move_toward_zero() {
    // The exact move would be (-0.7, -0.7) and (-0.99.., -0.00..).
    assert_eq!(v(10, 10).move_toward(v(0, 0), 1), v(10, 10));
    assert_eq!(v(1000, 1).move_toward(v(0, 0), 1), v(1000, 1));
    // The exact move would be (-1.4, -1.4).
    assert_eq!(v(10, 10).move_toward(v(0, 0), 2), v(9, 9));
}

#[test]
fn move_toward_never_passes_the_target() {
    let from = v(-50_000_000, 20_000_000);
    let to = v(56_568_542, 56_568_542);
    let mut at = from;
    let mut frames = 0;
    while at != to {
        let next = at.move_toward(to, 8_333_500);
        assert!(from.x <= next.x && next.x <= to.x);
        assert!(from.y <= next.y && next.y <= to.y);
        assert!(next.x >= at.x && next.y >= at.y);
        let dx = (next.x - at.x) as i64;
        let dy = (next.y - at.y) as i64;
        assert!(dx * dx + dy * dy <= 8_333_500i64 * 8_333_500i64);
        at = next;
        frames += 1;
        assert!(frames < 100);
    }
    assert_eq!(frames, 14);
}

#[test]
fn move_toward_across_the_whole_range() {
    assert_eq!(
        v(-1_000_000_000, 0).move_toward(v(1_000_000_000, 0), 500_000_000),
        v(-500_000_000, 0)
    );
    assert_eq!(v(i32::MIN, 0).move_toward(v(-1, 0), 7), v(i32::MIN + 7, 0));
}
