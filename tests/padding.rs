use berrylite::padding::{
    compute_out_size, compute_padding_height_width, compute_padding_with_offset, PADDING_SAME,
    PADDING_VALID,
};

#[test]
fn out_size_same_and_valid() {
    assert_eq!(compute_out_size(PADDING_SAME, 5, 3, 2, 1), 3);
    assert_eq!(compute_out_size(PADDING_VALID, 5, 3, 2, 1), 2);
    assert_eq!(compute_out_size(PADDING_VALID, 7, 3, 1, 2), 3);
    assert_eq!(compute_out_size(PADDING_SAME, 5, 3, 0, 1), 0);
    assert_eq!(compute_out_size(2, 5, 3, 1, 1), 0);
}

#[test]
fn padding_with_offset_puts_extra_pixel_after() {
    assert_eq!(compute_padding_with_offset(2, 1, 5, 3, 3), (1, 0));
    assert_eq!(compute_padding_with_offset(2, 1, 4, 3, 2), (0, 1));
    assert_eq!(compute_padding_with_offset(2, 1, 5, 3, 2), (0, 0));
    assert_eq!(compute_padding_with_offset(1, 1, 5, 4, 5), (1, 1));
}

#[test]
fn padding_height_width() {
    assert_eq!(
        compute_padding_height_width(PADDING_SAME, 2, 1, 1, 1, 4, 5, 3, 4),
        (0, 1, 1, 1)
    );
    assert_eq!(
        compute_padding_height_width(PADDING_VALID, 2, 1, 1, 1, 4, 5, 3, 4),
        (0, 0, 0, 0)
    );
}
