use hello_nn::preview::{can_draw, pixel_at, to_img_buf};

#[test]
fn square_picture_keeps_the_row_order() {
    let img = [1u8, 2, 3, 4, 5, 6, 7, 8, 9];
    assert_eq!(to_img_buf(&img, 3, 3).into_raw(), vec![1, 2, 3, 4, 5, 6, 7, 8, 9]);
}

#[test]
fn rows_are_read_as_long_as_the_picture_is_high() {
    let img = [10u8, 11, 12, 13, 14, 15];
    // two rows, three columns: row 1 starts at byte 2
    assert_eq!(to_img_buf(&img, 2, 3).into_raw(), vec![10, 11, 12, 12, 13, 14]);
}

#[test]
fn picture_is_as_wide_and_high_as_asked() {
    let img = [10u8, 11, 12, 13, 14, 15];
    let picture = to_img_buf(&img, 2, 3);
    assert_eq!(picture.width(), 3);
    assert_eq!(picture.height(), 2);
    let empty = to_img_buf(&[], 0, 4);
    assert_eq!(empty.width(), 4);
    assert_eq!(empty.height(), 0);
}

#[test]
fn picture_without_rows_is_empty() {
    assert_eq!(to_img_buf(&[], 0, 4).into_raw(), Vec::<u8>::new());
    assert_eq!(to_img_buf(&[1, 2], 2, 0).into_raw(), Vec::<u8>::new());
}

#[test]
fn pixel_is_found_by_row_and_column() {
    let img = [0u8, 1, 2, 3, 4, 5, 6, 7, 8];
    assert_eq!(pixel_at(&img, 3, 0, 0), 0);
    assert_eq!(pixel_at(&img, 3, 2, 1), 5);
    assert_eq!(pixel_at(&img, 3, 1, 2), 7);
}

#[test]
fn drawable_pictures_are_told_apart() {
    let img = [0u8; 9];
    assert!(can_draw(&img, 3, 3));
    assert!(can_draw(&img, 0, 7));
    assert!(can_draw(&img, 7, 0));
    // last pixel read is at 2 * 3 + 3 = 9
    assert!(!can_draw(&img, 3, 4));
    // last pixel read is at 1 * 2 + 6 = 8
    assert!(can_draw(&img, 2, 7));
    assert!(!can_draw(&img, 4, 1));
    assert!(!can_draw(&[], 1, 1));
}
