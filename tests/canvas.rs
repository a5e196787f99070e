use gfs::canvas::buffer_cell;

#[test]
fn centre_pixel_maps_to_middle_of_buffer() {
    assert_eq!(buffer_cell(600, 600, (0, 0)), Some((300, 299)));
}

#[test]
fn corners_map_to_buffer_corners() {
    assert_eq!(buffer_cell(600, 400, (-300, 199)), Some((0, 0)));
    assert_eq!(buffer_cell(600, 400, (299, -200)), Some((599, 399)));
}

#[test]
fn outside_pixels_are_dropped() {
    assert_eq!(buffer_cell(600, 400, (300, 0)), None);
    assert_eq!(buffer_cell(600, 400, (-301, 0)), None);
    assert_eq!(buffer_cell(600, 400, (0, 200)), None);
    assert_eq!(buffer_cell(600, 400, (0, -201)), None);
    assert_eq!(buffer_cell(600, 400, (i32::MAX, i32::MIN)), None);
}

#[test]
fn odd_dimensions() {
    assert_eq!(buffer_cell(5, 3, (-2, 0)), Some((0, 0)));
    assert_eq!(buffer_cell(5, 3, (2, -2)), Some((4, 2)));
    assert_eq!(buffer_cell(5, 3, (3, 0)), None);
    assert_eq!(buffer_cell(5, 3, (0, 1)), None);
}
