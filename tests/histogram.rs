use mcmc::{Histogram, HistogramError, Ratio};

fn r(num: i128, den: i128) -> Ratio {
    Ratio { num, den }
}

#[test]
fn two_bins_each_value_lands_in_its_bin() {
    let mut h = Histogram::new(0, 20, 2);
    h.add(5, 1);
    assert_eq!(h.data(), &[1, 0]);
    h.add(15, 1);
    assert_eq!(h.data(), &[1, 1]);
    assert_eq!(h.min(), 1);
}

#[test]
fn trim_keeps_the_populated_middle() {
    let mut h = Histogram::new(0, 10, 10);
    for v in 3..7 {
        h.count(v);
    }
    assert_eq!(h.data(), &[0, 0, 0, 1, 1, 1, 1, 0, 0, 0]);
    assert_eq!(h.trim(), Ok(()));
    assert_eq!(h.bins(), 4);
    assert_eq!(h.bounds(), (r(30, 10), r(70, 10)));
    assert_eq!(h.data(), &[1, 1, 1, 1]);
}

#[test]
fn at_inside_and_outside() {
    let mut h = Histogram::new(0, 10, 5);
    h.add(3, 7);
    assert_eq!(h.at(3), Some(7));
    assert_eq!(h.at(2), Some(7));
    assert_eq!(h.at(4), Some(0));
    // both bounds are excluded
    assert_eq!(h.at(0), None);
    assert_eq!(h.at(10), None);
    assert_eq!(h.at(-1), None);
    assert_eq!(h.at(11), None);
}

#[test]
fn add_outside_is_ignored() {
    let mut h = Histogram::new(-5, 5, 10);
    h.add(-5, 3);
    h.add(5, 3);
    h.count(100);
    h.count(i64::MIN);
    assert_eq!(h.data(), &[0; 10]);
    assert_eq!(h.sum(), 0);
}

#[test]
fn value_on_inner_border_goes_right() {
    let mut h = Histogram::new(0, 10, 5);
    h.count(2);
    h.count(4);
    assert_eq!(h.data(), &[0, 1, 1, 0, 0]);
}

#[test]
fn add_then_subtract_restores() {
    let mut h = Histogram::new(0, 100, 7);
    h.add(40, 12);
    let before = h.data().to_vec();
    h.add(40, 99);
    h.add(40, -99);
    assert_eq!(h.data(), &before[..]);
    h.add(41, -5);
    h.add(41, 5);
    assert_eq!(h.data(), &before[..]);
}

#[test]
fn add_saturates() {
    let mut h = Histogram::new(0, 2, 1);
    h.add(1, i64::MAX);
    h.add(1, 10);
    assert_eq!(h.at(1), Some(i64::MAX));
    h.add(1, i64::MIN);
    h.add(1, i64::MIN);
    assert_eq!(h.at(1), Some(i64::MIN));
}

#[test]
fn trim_keeps_mass_and_narrows() {
    let mut h = Histogram::new(0, 8, 8);
    h.add(2, 3);
    h.add(4, 0);
    h.add(5, 9);
    let sum = h.sum();
    assert_eq!(h.trim(), Ok(()));
    assert_eq!(h.sum(), sum);
    assert_eq!(h.bins(), 4);
    assert_eq!(h.bounds(), (r(16, 8), r(48, 8)));
    assert_eq!(h.data(), &[3, 0, 0, 9]);
}

#[test]
fn trim_with_positive_ends_changes_nothing() {
    let mut h = Histogram::new(0, 8, 4);
    h.count(1);
    h.add(5, 2);
    h.count(7);
    let b = h.bounds();
    assert_eq!(h.trim(), Ok(()));
    assert_eq!(h.bounds(), b);
    assert_eq!(h.bins(), 4);
    assert_eq!(h.data(), &[1, 0, 2, 1]);
}

#[test]
fn trim_of_zero_histogram_fails() {
    let mut h = Histogram::new(0, 10, 10);
    let b = h.bounds();
    assert_eq!(h.trim(), Err(HistogramError::NothingPositive));
    assert_eq!(h.bounds(), b);
    assert_eq!(h.bins(), 10);
    h.add(5, -3);
    assert_eq!(h.trim(), Err(HistogramError::NothingPositive));
}

#[test]
fn trim_drops_negative_ends() {
    let mut h = Histogram::new(0, 3, 3);
    h.add(1, -2);
    h.add(2, 4);
    assert_eq!(h.data(), &[0, -2, 4]);
    assert_eq!(h.trim(), Ok(()));
    assert_eq!(h.data(), &[4]);
    assert_eq!(h.bounds(), (r(6, 3), r(9, 3)));
}

#[test]
fn min_mean_and_reset() {
    let mut h = Histogram::new(0, 6, 3);
    h.add(1, 4);
    h.add(3, -2);
    h.add(5, 10);
    assert_eq!(h.min(), -2);
    assert_eq!(h.sum(), 12);
    assert_eq!(h.mean(), r(12, 3));
    h.reset();
    assert_eq!(h.data(), &[0, 0, 0]);
    assert_eq!(h.min(), 0);
}

#[test]
fn borders_centers_and_hist() {
    let mut h = Histogram::new(-3, 3, 3);
    assert_eq!(h.borders(), vec![r(-9, 3), r(-3, 3), r(3, 3), r(9, 3)]);
    assert_eq!(h.centers(), vec![r(-12, 6), r(0, 6), r(12, 6)]);
    h.add(0, 5);
    assert_eq!(h.hist(), vec![(r(-9, 3), 0), (r(-3, 3), 5), (r(3, 3), 0)]);
}

#[test]
fn idx_and_set_idx() {
    let mut h = Histogram::new(0, 10, 2);
    h.set_idx(1, 42);
    assert_eq!(h.idx(1), 42);
    assert_eq!(h.idx(0), 0);
    assert_eq!(h.at(7), Some(42));
}

#[test]
fn uneven_width_maps_exactly() {
    // width 10 / 3: bins (0, 3.33), (3.33, 6.67), (6.67, 10)
    let mut h = Histogram::new(0, 10, 3);
    for v in 1..10 {
        h.count(v);
    }
    assert_eq!(h.data(), &[3, 3, 3]);
    let mut t = Histogram::new(0, 10, 3);
    t.count(5);
    assert_eq!(t.trim(), Ok(()));
    assert_eq!(t.bounds(), (r(10, 3), r(20, 3)));
    assert_eq!(t.at(3), None);
    assert_eq!(t.at(4), Some(1));
    assert_eq!(t.at(6), Some(1));
    assert_eq!(t.at(7), None);
}
