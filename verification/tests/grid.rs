use raytracer::grid::{DimensionError, Dimensions};

fn dims(width: usize, height: usize) -> Dimensions {
    match Dimensions::new(width, height) {
        Ok(d) => d,
        Err(e) => panic!("{}", e.message()),
    }
}

#[test]
fn new_keeps_the_extents() {
    let d = dims(1024, 768);
    assert_eq!(d.width(), 1024);
    assert_eq!(d.height(), 768);
    assert_eq!(d.pixel_count(), 786_432);
}

#[test]
fn new_accepts_a_single_pixel() {
    let d = dims(1, 1);
    assert_eq!(d.pixel_count(), 1);
    assert_eq!(d.index(0, 0), 0);
    assert_eq!(d.coords(0), (0, 0));
}

#[test]
fn zero_width_is_rejected() {
    assert_eq!(Dimensions::new(0, 5), Err(DimensionError::ZeroWidth));
}

#[test]
fn zero_height_is_rejected() {
    assert_eq!(Dimensions::new(5, 0), Err(DimensionError::ZeroHeight));
}

#[test]
fn zero_width_is_reported_before_zero_height() {
    assert_eq!(Dimensions::new(0, 0), Err(DimensionError::ZeroWidth));
}

#[test]
fn extents_whose_product_overflows_are_rejected() {
    assert_eq!(Dimensions::new(usize::MAX, 2), Err(DimensionError::TooLarge));
    assert_eq!(Dimensions::new(usize::MAX, usize::MAX), Err(DimensionError::TooLarge));
}

#[test]
fn extents_whose_bytes_overflow_are_rejected() {
    let most = usize::MAX / 3;
    assert_eq!(Dimensions::new(most + 1, 1), Err(DimensionError::TooLarge));
    assert_eq!(Dimensions::new(1, most + 1), Err(DimensionError::TooLarge));
    assert_eq!(Dimensions::new(usize::MAX, 1), Err(DimensionError::TooLarge));
}

#[test]
fn the_largest_addressable_grid_is_accepted() {
    let most = usize::MAX / 3;
    let d = dims(most, 1);
    assert_eq!(d.pixel_count(), most);
    assert_eq!(d.index(most - 1, 0), most - 1);
    let tall = dims(1, most);
    assert_eq!(tall.index(0, most - 1), most - 1);
}

#[test]
fn each_error_has_its_own_words() {
    assert_eq!(
        DimensionError::ZeroWidth.message(),
        "image width must be at least one pixel"
    );
    assert_eq!(
        DimensionError::ZeroHeight.message(),
        "image height must be at least one pixel"
    );
    assert_eq!(
        DimensionError::TooLarge.message(),
        "image is too large to address its bytes"
    );
}

#[test]
fn index_is_column_plus_row_times_width() {
    let d = dims(1024, 768);
    assert_eq!(d.index(0, 0), 0);
    assert_eq!(d.index(5, 0), 5);
    assert_eq!(d.index(0, 1), 1024);
    assert_eq!(d.index(5, 7), 5 + 7 * 1024);
    assert_eq!(d.index(1023, 767), 786_431);
}

#[test]
fn coords_is_remainder_and_quotient() {
    let d = dims(1024, 768);
    assert_eq!(d.coords(0), (0, 0));
    assert_eq!(d.coords(1023), (1023, 0));
    assert_eq!(d.coords(1024), (0, 1));
    assert_eq!(d.coords(7173), (5, 7));
    assert_eq!(d.coords(786_431), (1023, 767));
}

#[test]
fn index_and_coords_undo_each_other() {
    let d = dims(4, 3);
    for j in 0..3 {
        for i in 0..4 {
            assert_eq!(d.coords(d.index(i, j)), (i, j));
        }
    }
    for k in 0..12 {
        let (i, j) = d.coords(k);
        assert!(d.contains(i, j));
        assert_eq!(d.index(i, j), k);
    }
}

#[test]
fn every_slot_is_used_exactly_once() {
    let d = dims(5, 4);
    let mut seen = vec![0usize; d.pixel_count()];
    for j in 0..d.height() {
        for i in 0..d.width() {
            seen[d.index(i, j)] += 1;
        }
    }
    assert_eq!(seen, vec![1usize; 20]);
}

#[test]
fn slots_run_row_by_row() {
    let d = dims(3, 2);
    let mut order = Vec::new();
    for j in 0..2 {
        for i in 0..3 {
            order.push(d.index(i, j));
        }
    }
    assert_eq!(order, vec![0, 1, 2, 3, 4, 5]);
    assert!(d.index(2, 0) < d.index(0, 1));
}

#[test]
fn contains_tells_cells_from_the_outside() {
    let d = dims(3, 2);
    assert!(d.contains(0, 0));
    assert!(d.contains(2, 1));
    assert!(!d.contains(3, 0));
    assert!(!d.contains(0, 2));
    assert!(!d.contains(3, 2));
}

#[test]
fn dimensions_compare_by_their_extents() {
    assert_eq!(dims(3, 2), dims(3, 2));
    assert_ne!(dims(3, 2), dims(2, 3));
}
