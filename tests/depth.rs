use mandelbrot::depth::{Depth, DEPTH_STEP, INITIAL_DEPTH};

#[test]
fn initial_depth_is_ten_thousand() {
    assert_eq!(Depth::initial().max_iterations(), 10000);
    assert_eq!(INITIAL_DEPTH, 10000);
    assert_eq!(DEPTH_STEP, 100);
}

#[test]
fn increase_adds_one_hundred() {
    let mut d = Depth::new(100);
    d.increase_depth();
    assert_eq!(d.max_iterations(), 200);
    d.increase_depth();
    assert_eq!(d.max_iterations(), 300);
}

#[test]
fn decrease_subtracts_one_hundred() {
    let mut d = Depth::new(10000);
    d.decrease_depth();
    assert_eq!(d.max_iterations(), 9900);
}

#[test]
fn decrease_at_floor_stays_at_floor() {
    let mut d = Depth::new(100);
    d.decrease_depth();
    assert_eq!(d.max_iterations(), 100);
    d.decrease_depth();
    assert_eq!(d.max_iterations(), 100);
}

#[test]
fn decrease_near_floor_saturates() {
    let mut d = Depth::new(150);
    d.decrease_depth();
    assert_eq!(d.max_iterations(), 100);
}

#[test]
fn increase_then_decrease_restores() {
    for start in [100u32, 150, 200, 10000] {
        let mut d = Depth::new(start);
        d.increase_depth();
        assert_eq!(d.max_iterations(), start + 100);
        d.decrease_depth();
        assert_eq!(d.max_iterations(), start);
    }
}

#[test]
fn can_increase_stops_at_u32_limit() {
    assert!(Depth::new(u32::MAX - 100).can_increase());
    assert!(!Depth::new(u32::MAX - 99).can_increase());
}
