use renderer::image::{Color, Image};

#[test]
fn new_image_is_black_with_min_depth() {
    let img = Image::new(4, 3);
    assert_eq!(img.width, 4);
    assert_eq!(img.height, 3);
    assert_eq!(img.data.len(), 12);
    assert_eq!(img.zbuffer.len(), 12);
    for c in &img.data {
        assert_eq!(*c, Color(0, 0, 0));
    }
    for d in &img.zbuffer {
        assert_eq!(*d, i64::MIN);
    }
}

#[test]
fn set_and_get_pixel_row_major() {
    let mut img = Image::new(4, 3);
    img.set_pixel(2, 1, Color(9, 8, 7));
    assert_eq!(img.get_pixel(2, 1), Color(9, 8, 7));
    assert_eq!(img.data[1 * 4 + 2], Color(9, 8, 7));
    assert_eq!(img.get_pixel(1, 2), Color(0, 0, 0));
}

#[test]
fn out_of_bounds_pixel_writes_are_dropped() {
    let mut img = Image::new(2, 2);
    img.set_pixel(-1, 0, Color(1, 1, 1));
    img.set_pixel(0, -1, Color(1, 1, 1));
    img.set_pixel(2, 0, Color(1, 1, 1));
    img.set_pixel(0, 2, Color(1, 1, 1));
    for c in &img.data {
        assert_eq!(*c, Color(0, 0, 0));
    }
}

#[test]
fn set_and_get_depth() {
    let mut img = Image::new(3, 2);
    img.set_depth(1, 1, 42);
    assert_eq!(img.get_depth(1, 1), 42);
    assert_eq!(img.get_depth(0, 0), i64::MIN);
}

#[test]
fn out_of_bounds_depth_writes_are_dropped() {
    let mut img = Image::new(2, 2);
    img.set_depth(-3, 0, 7);
    img.set_depth(0, 5, 7);
    for d in &img.zbuffer {
        assert_eq!(*d, i64::MIN);
    }
}

#[test]
fn set_data_buffer_replaces_colors_only() {
    let mut img = Image::new(2, 1);
    img.set_depth(0, 0, 5);
    img.set_data_buffer(vec![Color(1, 2, 3), Color(4, 5, 6)]);
    assert_eq!(img.data, vec![Color(1, 2, 3), Color(4, 5, 6)]);
    assert_eq!(img.get_depth(0, 0), 5);
}
