use correct_bar::Animation;

#[test]
fn advance_with_zero_elapsed_keeps_cursor() {
    for make in [
        Animation::linear as fn(u64) -> Animation,
        Animation::ease_in,
        Animation::ease_out,
        Animation::ease_in_out,
    ] {
        let mut a = make(500);
        a.start(1000);
        a.advance(1200);
        let t = a.time;
        a.advance(1200);
        assert_eq!(a.time, t);
    }
}

#[test]
fn advance_on_idle_changes_nothing() {
    let mut a = Animation::linear(500);
    assert!(!a.is_running());
    a.advance(99999);
    assert_eq!(a.time, 0);
    assert!(!a.is_running());
}

#[test]
fn interpolate_returns_start_at_zero_and_end_at_duration() {
    for make in [
        Animation::linear as fn(u64) -> Animation,
        Animation::ease_in,
        Animation::ease_out,
        Animation::ease_in_out,
    ] {
        let a = make(400);
        assert_eq!(a.time, 0);
        assert_eq!(a.interpolate(-50, 700), -50);

        let mut b = make(400);
        b.start(0);
        b.advance(400);
        assert_eq!(b.time, 400);
        assert!(!b.is_running());
        assert_eq!(b.interpolate(-50, 700), 700);
    }
}

#[test]
fn cubic_out_halfway() {
    // duration 0.2s, cubic-out easing, queried halfway through:
    // 1 - (1 - 0.5)^3 = 0.875 of the way from start to end.
    let mut a = Animation::ease_out(200);
    a.start(0);
    a.advance(100);
    assert_eq!(a.time, 100);
    assert_eq!(a.interpolate(0, 1000), 875);
    assert_eq!(a.interpolate(0, 100_000), 87_500);
}

#[test]
fn linear_midpoint() {
    let mut a = Animation::linear(200);
    a.start(0);
    a.advance(50);
    assert_eq!(a.interpolate(0, 1000), 250);
}

#[test]
fn cubic_in_quarter() {
    // t = 1/2: (1/2)^3 = 1/8 of the distance.
    let mut a = Animation::ease_in(200);
    a.start(0);
    a.advance(100);
    assert_eq!(a.interpolate(0, 800), 100);
}

#[test]
fn reverse_run_clamps_at_zero() {
    let mut a = Animation::ease_out(200);
    a.start_reverse(0);
    assert_eq!(a.time, 200);
    a.advance(300);
    assert_eq!(a.time, 0);
    assert!(!a.is_running());
}

#[test]
fn run_resumes_without_reset() {
    let mut a = Animation::ease_out(200);
    a.start(0);
    a.advance(80);
    assert_eq!(a.time, 80);
    // Hover-out: reverse from where the hover-in run left off.
    a.run(false, 100);
    a.advance(130);
    assert_eq!(a.time, 50);
    assert!(a.is_running());
}

#[test]
fn forward_run_stops_at_duration() {
    let mut a = Animation::linear(100);
    a.start(0);
    a.advance(60);
    assert!(a.is_running());
    a.advance(160);
    assert_eq!(a.time, 100);
    assert!(!a.is_running());
}

#[test]
fn interpolate_descending_range() {
    let mut a = Animation::linear(100);
    a.start(0);
    a.advance(25);
    assert_eq!(a.interpolate(1000, 0), 750);
}
