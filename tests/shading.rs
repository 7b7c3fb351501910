use mandelbrot::shading::{blue, histogram, sample_blues};

#[test]
fn histogram_counts_escapes_below_budget() {
    let counts = vec![0u32, 2, 2, 5, 5, 5, 1];
    let h = histogram(&counts, 5);
    assert_eq!(h, vec![1, 1, 2, 0, 0, 0]);
}

#[test]
fn histogram_of_empty_frame() {
    let h = histogram(&Vec::new(), 3);
    assert_eq!(h, vec![0, 0, 0, 0]);
}

#[test]
fn blue_formula_values() {
    assert_eq!(blue(0, 0), 0);
    assert_eq!(blue(0, 4), 0);
    assert_eq!(blue(1, 4), 63);
    assert_eq!(blue(2, 4), 127);
    assert_eq!(blue(3, 4), 191);
    assert_eq!(blue(4, 4), 255);
    assert_eq!(blue(1, 3), 85);
    assert_eq!(blue(2, 3), 170);
}

#[test]
fn sample_blues_use_cumulative_histogram() {
    // escaped: counts 1, 2, 2, 3 (total 4); 5 is the budget
    let counts = vec![1u32, 2, 5, 2, 3];
    let b = sample_blues(&counts, 5);
    // before(1) = 0, before(2) = 1, before(3) = 3
    assert_eq!(b, vec![0, 63, 0, 63, 191]);
}

#[test]
fn brightness_grows_with_escape_count() {
    let counts: Vec<u32> = vec![7, 1, 3, 3, 9, 2, 5, 1, 8, 4, 10, 6];
    let b = sample_blues(&counts, 10);
    for i in 0..counts.len() {
        for j in 0..counts.len() {
            if counts[i] <= counts[j] && counts[j] < 10 {
                assert!(b[i] <= b[j]);
            }
        }
    }
}

#[test]
fn brightness_stays_below_full() {
    let counts: Vec<u32> = vec![9, 9, 9, 3, 100, 100];
    let b = sample_blues(&counts, 100);
    for (i, &v) in b.iter().enumerate() {
        assert!(v < 255);
        if counts[i] == 100 {
            assert_eq!(v, 0);
        }
    }
    assert_eq!(b, vec![63, 63, 63, 0, 0, 0]);
}

#[test]
fn no_escape_is_black() {
    let counts = vec![50u32; 12];
    let b = sample_blues(&counts, 50);
    assert_eq!(b, vec![0u8; 12]);
}

#[test]
fn counts_past_budget_are_black() {
    let counts = vec![1u32, 60, 0];
    let b = sample_blues(&counts, 50);
    assert_eq!(b, vec![127, 0, 0]);
}
