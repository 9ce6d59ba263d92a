use mandelrust::geometry::ImageGeometry;

#[test]
fn well_formed_accepts_positive_sides() {
    let g = ImageGeometry { width: 1920, height: 1080 };
    assert!(g.is_well_formed());
}

#[test]
fn well_formed_rejects_zero_width() {
    let g = ImageGeometry { width: 0, height: 10 };
    assert!(!g.is_well_formed());
}

#[test]
fn well_formed_rejects_zero_height() {
    let g = ImageGeometry { width: 10, height: 0 };
    assert!(!g.is_well_formed());
}

#[test]
fn well_formed_rejects_pixel_count_overflow() {
    let g = ImageGeometry { width: usize::MAX, height: 2 };
    assert!(!g.is_well_formed());
}

#[test]
fn pixel_count_multiplies_sides() {
    let g = ImageGeometry { width: 1920, height: 1080 };
    assert_eq!(g.pixel_count(), 2_073_600);
}

#[test]
fn pixel_index_is_row_major() {
    let g = ImageGeometry { width: 3, height: 2 };
    assert_eq!(g.pixel_index(0, 0), 0);
    assert_eq!(g.pixel_index(2, 0), 2);
    assert_eq!(g.pixel_index(0, 1), 3);
    assert_eq!(g.pixel_index(2, 1), 5);
}
