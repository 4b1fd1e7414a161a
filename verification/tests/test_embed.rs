use banner_builder::{embed_image, place_image, resize_image, Axis, Canvas, Color, EmbedError};

const WHITE: Color = Color { red: 255, green: 255, blue: 255, alpha: 255 };
const GREEN: Color = Color { red: 0, green: 200, blue: 0, alpha: 255 };

#[test]
fn picture_over_the_right_edge_is_refused() {
    let mut canvas = Canvas::new(100, 100, WHITE);
    let picture = Canvas::new(50, 50, GREEN);
    let result = place_image(&mut canvas, &picture, 60, 0);
    assert_eq!(
        result,
        Err(EmbedError::FitError { axis: Axis::Width, offset: 60, size: 50, available: 100 })
    );
    for y in 0..100 {
        for x in 0..100 {
            assert_eq!(canvas.get(x, y), WHITE);
        }
    }
}

#[test]
fn picture_over_the_bottom_edge_is_refused() {
    let mut canvas = Canvas::new(100, 100, WHITE);
    let picture = Canvas::new(50, 50, GREEN);
    let result = place_image(&mut canvas, &picture, 50, 51);
    assert_eq!(
        result,
        Err(EmbedError::FitError { axis: Axis::Height, offset: 51, size: 50, available: 100 })
    );
    assert_eq!(canvas.get(50, 51), WHITE);
}

#[test]
fn picture_that_just_fits_is_placed() {
    let mut canvas = Canvas::new(100, 100, WHITE);
    let picture = Canvas::new(50, 50, GREEN);
    assert_eq!(place_image(&mut canvas, &picture, 50, 50), Ok(()));
    assert_eq!(canvas.get(49, 50), WHITE);
    assert_eq!(canvas.get(50, 49), WHITE);
    assert_eq!(canvas.get(50, 50), GREEN);
    assert_eq!(canvas.get(99, 99), GREEN);
}

#[test]
fn offsets_near_the_largest_number_do_not_wrap() {
    let mut canvas = Canvas::new(10, 10, WHITE);
    let picture = Canvas::new(2, 2, GREEN);
    let result = place_image(&mut canvas, &picture, u32::MAX, 0);
    assert_eq!(
        result,
        Err(EmbedError::FitError { axis: Axis::Width, offset: u32::MAX, size: 2, available: 10 })
    );
}

#[test]
fn alpha_is_a_mask() {
    let opaque = Color { red: 10, green: 20, blue: 30, alpha: 255 };
    let clear = Color { red: 40, green: 50, blue: 60, alpha: 0 };
    let half = Color { red: 70, green: 80, blue: 90, alpha: 128 };
    let nearly = Color { red: 1, green: 2, blue: 3, alpha: 254 };
    let mut picture = Canvas::new(2, 2, opaque);
    picture.set(1, 0, clear);
    picture.set(0, 1, half);
    picture.set(1, 1, nearly);
    let mut canvas = Canvas::new(4, 4, WHITE);
    assert_eq!(place_image(&mut canvas, &picture, 1, 1), Ok(()));
    for y in 0..4 {
        for x in 0..4 {
            let expected = if (x, y) == (1, 1) { opaque } else { WHITE };
            assert_eq!(canvas.get(x, y), expected);
        }
    }
}

#[test]
fn missing_picture_is_a_load_error() {
    let mut canvas = Canvas::new(4, 4, WHITE);
    assert_eq!(embed_image(&mut canvas, None, 0, 0, None), Err(EmbedError::LoadError));
    assert_eq!(embed_image(&mut canvas, None, 0, 0, Some(2)), Err(EmbedError::LoadError));
    assert_eq!(canvas.get(0, 0), WHITE);
}

#[test]
fn picture_is_scaled_to_the_width() {
    let picture = Canvas::new(4, 2, GREEN);
    let scaled = resize_image(&picture, 8).unwrap();
    assert_eq!((scaled.width(), scaled.height()), (8, 4));
    assert!(scaled.is_well_formed());
    for y in 0..4 {
        for x in 0..8 {
            assert_eq!(scaled.get(x, y), GREEN);
        }
    }
    let smaller = resize_image(&picture, 2).unwrap();
    assert_eq!((smaller.width(), smaller.height()), (2, 1));
}

#[test]
fn scaling_keeps_the_place_of_colours() {
    let mut picture = Canvas::new(2, 1, GREEN);
    picture.set(1, 0, WHITE);
    let scaled = resize_image(&picture, 4).unwrap();
    assert_eq!((scaled.width(), scaled.height()), (4, 2));
    assert_eq!(scaled.get(0, 0), GREEN);
    assert_eq!(scaled.get(3, 1), WHITE);
}

#[test]
fn cut_quotient_keeps_the_width_asked_for() {
    // 4 * 2 / 3 is 2 and something: the height is cut to 2, the width stays 4.
    let red = Color { red: 200, green: 0, blue: 0, alpha: 255 };
    let blue = Color { red: 0, green: 0, blue: 200, alpha: 7 };
    let mut picture = Canvas::new(3, 2, GREEN);
    picture.set(0, 0, red);
    picture.set(0, 1, red);
    picture.set(2, 0, blue);
    picture.set(2, 1, blue);
    let scaled = resize_image(&picture, 4).unwrap();
    assert_eq!((scaled.width(), scaled.height()), (4, 2));
    assert!(scaled.is_well_formed());
    for y in 0..2 {
        assert_eq!(scaled.get(0, y), red);
        assert_eq!(scaled.get(1, y), GREEN);
        assert_eq!(scaled.get(2, y), GREEN);
        assert_eq!(scaled.get(3, y), blue);
    }
}

#[test]
fn scaled_width_decides_the_fit() {
    let picture = Canvas::new(3, 2, GREEN);
    let mut canvas = Canvas::new(5, 5, WHITE);
    assert_eq!(
        embed_image(&mut canvas, Some(&picture), 2, 0, Some(4)),
        Err(EmbedError::FitError { axis: Axis::Width, offset: 2, size: 4, available: 5 })
    );
    assert_eq!(embed_image(&mut canvas, Some(&picture), 1, 3, Some(4)), Ok(()));
    assert_eq!(canvas.get(0, 3), WHITE);
    assert_eq!(canvas.get(1, 3), GREEN);
    assert_eq!(canvas.get(4, 4), GREEN);
    assert_eq!(canvas.get(4, 2), WHITE);
}

#[test]
fn height_can_be_cut_to_nothing() {
    let wide = Canvas::new(10, 1, GREEN);
    let scaled = resize_image(&wide, 5).unwrap();
    assert_eq!((scaled.width(), scaled.height()), (5, 0));
    assert!(scaled.into_raw().is_empty());
}

#[test]
fn picture_without_columns_cannot_be_scaled() {
    let empty = Canvas::new(0, 3, GREEN);
    assert!(matches!(resize_image(&empty, 5), Err(EmbedError::ScaleError)));
    let mut canvas = Canvas::new(4, 4, WHITE);
    assert_eq!(
        embed_image(&mut canvas, Some(&empty), 0, 0, Some(5)),
        Err(EmbedError::ScaleError)
    );
}

#[test]
fn picture_without_rows_scales_to_no_rows() {
    let flat = Canvas::new(3, 0, GREEN);
    let scaled = resize_image(&flat, 5).unwrap();
    assert_eq!((scaled.width(), scaled.height()), (5, 0));
}

#[test]
fn same_size_is_a_copy() {
    let mut picture = Canvas::new(2, 2, GREEN);
    picture.set(1, 1, WHITE);
    let scaled = resize_image(&picture, 2).unwrap();
    assert_eq!((scaled.width(), scaled.height()), (2, 2));
    assert_eq!(scaled.into_raw(), picture.into_raw());
}

#[test]
fn height_beyond_32_bits_cannot_be_scaled() {
    let tall = Canvas::new(1, 3, GREEN);
    assert!(matches!(resize_image(&tall, u32::MAX), Err(EmbedError::ScaleError)));
}

#[test]
fn embed_scales_then_checks_the_fit() {
    let picture = Canvas::new(4, 2, GREEN);
    let mut canvas = Canvas::new(10, 10, WHITE);
    assert_eq!(
        embed_image(&mut canvas, Some(&picture), 3, 0, Some(8)),
        Err(EmbedError::FitError { axis: Axis::Width, offset: 3, size: 8, available: 10 })
    );
    assert_eq!(embed_image(&mut canvas, Some(&picture), 2, 6, Some(8)), Ok(()));
    assert_eq!(canvas.get(1, 6), WHITE);
    assert_eq!(canvas.get(2, 6), GREEN);
    assert_eq!(canvas.get(9, 9), GREEN);
    assert_eq!(canvas.get(9, 5), WHITE);
}
