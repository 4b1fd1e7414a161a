use banner_builder::{Canvas, Color};

const RED: Color = Color { red: 255, green: 0, blue: 0, alpha: 255 };
const BLUE: Color = Color { red: 0, green: 0, blue: 255, alpha: 128 };

#[test]
fn new_canvas_is_filled() {
    let canvas = Canvas::new(3, 2, RED);
    assert_eq!(canvas.width(), 3);
    assert_eq!(canvas.height(), 2);
    assert!(canvas.is_well_formed());
    for y in 0..2 {
        for x in 0..3 {
            assert_eq!(canvas.get(x, y), RED);
        }
    }
    assert_eq!(canvas.into_raw(), [255u8, 0, 0, 255].repeat(6));
}

#[test]
fn set_changes_one_pixel() {
    let mut canvas = Canvas::new(3, 2, RED);
    canvas.set(2, 1, BLUE);
    for y in 0..2 {
        for x in 0..3 {
            let expected = if (x, y) == (2, 1) { BLUE } else { RED };
            assert_eq!(canvas.get(x, y), expected);
        }
    }
    let raw = canvas.into_raw();
    assert_eq!(&raw[20..24], &[0, 0, 255, 128]);
}

#[test]
fn from_raw_wants_the_exact_length() {
    assert!(Canvas::from_raw(2, 2, vec![0; 16]).is_some());
    assert!(Canvas::from_raw(2, 2, vec![0; 15]).is_none());
    assert!(Canvas::from_raw(2, 2, vec![0; 17]).is_none());
    assert!(Canvas::from_raw(0, 5, vec![]).is_some());
    let canvas = Canvas::from_raw(1, 2, vec![1, 2, 3, 4, 5, 6, 7, 8]).unwrap();
    assert_eq!(canvas.get(0, 1), Color { red: 5, green: 6, blue: 7, alpha: 8 });
}

#[test]
fn empty_canvas() {
    let canvas = Canvas::new(0, 0, RED);
    assert_eq!(canvas.width(), 0);
    assert!(canvas.into_raw().is_empty());
}
