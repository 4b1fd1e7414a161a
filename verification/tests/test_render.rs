use banner_builder::{
    create_image, default_black, default_embed, default_false, default_font_size, default_lines,
    default_white, draw_image, validate, Axis, Banner, Canvas, Color, Embed, EmbedError,
    RenderError,
};

const WHITE: Color = Color { red: 255, green: 255, blue: 255, alpha: 255 };
const GREEN: Color = Color { red: 0, green: 200, blue: 0, alpha: 255 };

fn banner(width: u32, height: u32, text: &str, background: &str) -> Banner {
    Banner {
        width,
        height,
        text: text.to_owned(),
        size: default_font_size(),
        background_color: background.to_owned(),
        embed: default_embed(),
        lines: default_lines(),
    }
}

fn embed(x: u32, y: u32, width: Option<u32>) -> Embed {
    Embed { file: "logo.png".to_owned(), x, y, width }
}

#[test]
fn defaults() {
    assert!(!default_false());
    assert_eq!(default_font_size(), 24);
    assert_eq!(default_black(), "000000FF");
    assert_eq!(default_white(), "FFFFFF");
    assert!(default_embed().is_empty());
    assert!(default_lines().is_empty());
}

#[test]
fn headline_at_the_limit_is_accepted() {
    let text = "x".repeat(90);
    assert_eq!(validate(&banner(10, 10, &text, "FFFFFF")), Ok(()));
    assert!(draw_image(&banner(10, 10, &text, "FFFFFF"), &vec![]).is_ok());
}

#[test]
fn headline_over_the_limit_gives_no_banner() {
    let text = "x".repeat(91);
    assert_eq!(validate(&banner(10, 10, &text, "FFFFFF")), Err(RenderError::TextTooLong));
    assert!(matches!(
        draw_image(&banner(10, 10, &text, "FFFFFF"), &vec![]),
        Err(RenderError::TextTooLong)
    ));
}

#[test]
fn limit_counts_bytes() {
    // 46 characters of two bytes each.
    let text = "é".repeat(46);
    assert_eq!(validate(&banner(10, 10, &text, "FFFFFF")), Err(RenderError::TextTooLong));
    let text = "é".repeat(45);
    assert_eq!(validate(&banner(10, 10, &text, "FFFFFF")), Ok(()));
}

#[test]
fn too_long_is_reported_before_a_bad_colour() {
    let text = "x".repeat(91);
    assert!(matches!(
        draw_image(&banner(10, 10, &text, "nope"), &vec![]),
        Err(RenderError::TextTooLong)
    ));
}

#[test]
fn background_fills_the_canvas() {
    let canvas = create_image(&banner(4, 3, "", "0A0B0C0D")).unwrap();
    assert_eq!((canvas.width(), canvas.height()), (4, 3));
    assert_eq!(canvas.get(3, 2), Color { red: 10, green: 11, blue: 12, alpha: 13 });
}

#[test]
fn bad_background_colour() {
    assert!(matches!(create_image(&banner(4, 3, "", "white")), Err(RenderError::MalformedColor)));
    assert!(matches!(
        draw_image(&banner(4, 3, "", "FFFFF"), &vec![]),
        Err(RenderError::MalformedColor)
    ));
}

#[test]
fn canvas_beyond_memory() {
    assert!(matches!(
        create_image(&banner(u32::MAX, u32::MAX, "", "FFFFFF")),
        Err(RenderError::CanvasTooLarge)
    ));
}

#[test]
fn pictures_are_embedded_in_order() {
    let mut description = banner(10, 10, "", "FFFFFF");
    description.embed = vec![embed(0, 0, None), embed(1, 1, None)];
    let blue = Color { red: 0, green: 0, blue: 255, alpha: 255 };
    let images = vec![Some(Canvas::new(3, 3, GREEN)), Some(Canvas::new(3, 3, blue))];
    let canvas = draw_image(&description, &images).unwrap();
    assert_eq!(canvas.get(0, 0), GREEN);
    assert_eq!(canvas.get(1, 1), blue);
    assert_eq!(canvas.get(3, 3), blue);
    assert_eq!(canvas.get(4, 4), WHITE);
}

#[test]
fn first_failing_picture_is_reported() {
    let mut description = banner(10, 10, "", "FFFFFF");
    description.embed = vec![embed(0, 0, None), embed(8, 0, None), embed(0, 0, None)];
    let images = vec![Some(Canvas::new(3, 3, GREEN)), Some(Canvas::new(3, 3, GREEN)), None];
    assert!(matches!(
        draw_image(&description, &images),
        Err(RenderError::Embed {
            index: 1,
            error: EmbedError::FitError { axis: Axis::Width, offset: 8, size: 3, available: 10 }
        })
    ));
}

#[test]
fn picture_that_was_not_handed_in() {
    let mut description = banner(10, 10, "", "FFFFFF");
    description.embed = vec![embed(0, 0, None)];
    assert!(matches!(
        draw_image(&description, &vec![]),
        Err(RenderError::Embed { index: 0, error: EmbedError::LoadError })
    ));
    assert!(matches!(
        draw_image(&description, &vec![None]),
        Err(RenderError::Embed { index: 0, error: EmbedError::LoadError })
    ));
}

#[test]
fn embedded_picture_is_scaled() {
    let mut description = banner(10, 10, "", "FFFFFF");
    description.embed = vec![embed(0, 0, Some(6))];
    let images = vec![Some(Canvas::new(3, 3, GREEN))];
    let canvas = draw_image(&description, &images).unwrap();
    assert_eq!(canvas.get(5, 5), GREEN);
    assert_eq!(canvas.get(6, 6), WHITE);
}
