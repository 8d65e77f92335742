use rterm::{blit_coverage, extract_region, ShelfPacker};

#[test]
fn packer_fills_shelves_left_to_right() {
    let mut p = ShelfPacker::new(16);
    assert_eq!(p.place(5, 4), Some((0, 0)));
    assert_eq!(p.place(5, 3), Some((6, 0)));
    assert_eq!(p.row_height, 4);
    // 12 + 5 does not fit: a new shelf starts below the tallest bitmap
    assert_eq!(p.place(5, 2), Some((0, 5)));
    assert_eq!((p.next_x, p.next_y, p.row_height), (6, 5, 2));
}

#[test]
fn packer_reports_full_atlas() {
    let mut p = ShelfPacker::new(16);
    assert_eq!(p.place(3, 20), None);
    assert_eq!(p.place(3, 15), Some((0, 0)));
    assert_eq!(p.place(16, 1), None);
}

#[test]
fn blit_writes_white_with_coverage_alpha() {
    let mut atlas = vec![0u8; 4 * 4 * 4];
    blit_coverage(&mut atlas, 4, 1, 1, 2, 2, &[10, 20, 30, 40]);
    assert_eq!(&atlas[20..28], &[255, 255, 255, 10, 255, 255, 255, 20]);
    assert_eq!(&atlas[36..44], &[255, 255, 255, 30, 255, 255, 255, 40]);
    let touched: usize = atlas.iter().filter(|&&b| b != 0).count();
    assert_eq!(touched, 16);
}

#[test]
fn blit_skips_pixels_the_bitmap_lacks() {
    let mut atlas = vec![0u8; 4 * 4 * 4];
    blit_coverage(&mut atlas, 4, 1, 1, 2, 2, &[10, 20, 30]);
    assert_eq!(&atlas[36..40], &[255, 255, 255, 30]);
    assert_eq!(&atlas[40..44], &[0, 0, 0, 0]);
}

#[test]
fn extract_reads_window_rows() {
    let mut atlas = vec![0u8; 4 * 4 * 4];
    blit_coverage(&mut atlas, 4, 1, 1, 2, 2, &[10, 20, 30, 40]);
    let data = extract_region(&atlas, 4, 1, 1, 2, 2);
    assert_eq!(
        data,
        vec![255, 255, 255, 10, 255, 255, 255, 20, 255, 255, 255, 30, 255, 255, 255, 40]
    );
    assert!(extract_region(&atlas, 4, 0, 0, 3, 0).is_empty());
}
