use camkit::bayer::{color_from_pixel_coord, BayerColor};

#[test]
fn top_left_patch_is_bggr() {
    assert_eq!(color_from_pixel_coord(0, 0), BayerColor::Blue);
    assert_eq!(color_from_pixel_coord(1, 0), BayerColor::GreenOne);
    assert_eq!(color_from_pixel_coord(0, 1), BayerColor::GreenTwo);
    assert_eq!(color_from_pixel_coord(1, 1), BayerColor::Red);
}

#[test]
fn pattern_repeats_every_two_pixels() {
    for x in 0..6u32 {
        for y in 0..6u32 {
            assert_eq!(color_from_pixel_coord(x, y), color_from_pixel_coord(x + 2, y));
            assert_eq!(color_from_pixel_coord(x, y), color_from_pixel_coord(x, y + 2));
        }
    }
}

#[test]
fn largest_coordinates_are_red() {
    assert_eq!(color_from_pixel_coord(u32::MAX, u32::MAX), BayerColor::Red);
    assert_eq!(color_from_pixel_coord(u32::MAX - 1, u32::MAX), BayerColor::GreenTwo);
    assert_eq!(color_from_pixel_coord(u32::MAX, u32::MAX - 1), BayerColor::GreenOne);
    assert_eq!(color_from_pixel_coord(u32::MAX - 1, u32::MAX - 1), BayerColor::Blue);
}

#[test]
fn each_patch_has_one_red_one_blue_two_greens() {
    let mut red = 0;
    let mut green = 0;
    let mut blue = 0;
    for x in 10..12u32 {
        for y in 20..22u32 {
            match color_from_pixel_coord(x, y) {
                BayerColor::Red => red += 1,
                BayerColor::GreenOne | BayerColor::GreenTwo => green += 1,
                BayerColor::Blue => blue += 1,
            }
        }
    }
    assert_eq!((red, green, blue), (1, 2, 1));
}
