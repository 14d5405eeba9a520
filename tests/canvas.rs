use draw::canvas::{Axis, Canvas, CanvasError, Direction, Point};

fn screen(x: usize, y: usize) -> Point {
    Point { x, y }
}

#[test]
fn new_canvas_is_blank() {
    let c = Canvas::new(4, 3).unwrap();
    assert_eq!(c.span, Point { x: 4, y: 3 });
    assert_eq!(c.pixels, vec![false; 12]);
    assert_eq!(c.cursor, Point { x: 0, y: 0 });
    assert_eq!(c.position, Point { x: 0, y: 0 });
    assert!(c.canvas_file.is_none());
}

#[test]
fn new_canvas_rejects_dimensions_out_of_bounds() {
    assert_eq!(Canvas::new(0, 3).err(), Some(CanvasError::OutOfBounds));
    assert_eq!(Canvas::new(3, 256).err(), Some(CanvasError::OutOfBounds));
    assert!(Canvas::new(255, 255).is_ok());
    assert!(Canvas::new(1, 1).is_ok());
}

#[test]
fn save_writes_pixels_then_height_then_width() {
    let mut c = Canvas::new(3, 2).unwrap();
    c.pixels = vec![true, false, true, false, true, false];
    assert_eq!(Canvas::save(&c), vec![0b0001_0101, 0x02, 0x03]);
}

#[test]
fn open_zero_length_file_is_invalid() {
    let r = Canvas::open("a.draw".to_string(), &Vec::new());
    assert_eq!(r.err(), Some(CanvasError::InvalidFormat));
}

#[test]
fn open_rejects_malformed_files() {
    let name = || "a.draw".to_string();
    assert_eq!(Canvas::open(name(), &vec![3]).err(), Some(CanvasError::InvalidFormat));
    assert_eq!(Canvas::open(name(), &vec![0x15, 2, 0]).err(), Some(CanvasError::InvalidFormat));
    assert_eq!(Canvas::open(name(), &vec![0x15, 0x01, 2, 3]).err(), Some(CanvasError::InvalidFormat));
    assert_eq!(Canvas::open(name(), &vec![2, 3]).err(), Some(CanvasError::InvalidFormat));
}

#[test]
fn open_reads_what_save_wrote() {
    let mut c = Canvas::new(3, 2).unwrap();
    c.pixels = vec![true, false, true, false, true, false];
    let bytes = Canvas::save(&c);
    let d = Canvas::open("pic.draw".to_string(), &bytes).unwrap();
    assert_eq!(d.span, c.span);
    assert_eq!(d.pixels, c.pixels);
    assert_eq!(d.canvas_file.unwrap().name, "pic.draw");
}

#[test]
fn open_drops_padding_bits() {
    let d = Canvas::open("p.draw".to_string(), &vec![0xff, 2, 3]).unwrap();
    assert_eq!(d.pixels, vec![true; 6]);
}

#[test]
fn file_round_trip_on_largest_canvas() {
    let mut c = Canvas::new(255, 255).unwrap();
    for i in 0..c.pixels.len() {
        c.pixels[i] = i % 5 == 0;
    }
    let bytes = Canvas::save(&c);
    assert_eq!(bytes.len(), (255 * 255 + 7) / 8 + 2);
    let d = Canvas::open("big.draw".to_string(), &bytes).unwrap();
    assert_eq!(d.span, c.span);
    assert_eq!(d.pixels, c.pixels);
}

#[test]
fn cursor_wraps_within_visible_window() {
    let s = screen(3, 3);
    let mut c = Canvas::new(10, 10).unwrap();
    Canvas::cursor_move(&mut c, Axis::X, Direction::Start, s);
    assert_eq!(c.cursor, Point { x: 2, y: 0 });
    Canvas::cursor_move(&mut c, Axis::X, Direction::Start, s);
    Canvas::cursor_move(&mut c, Axis::X, Direction::Start, s);
    assert_eq!(c.cursor, Point { x: 0, y: 0 });
    Canvas::cursor_move(&mut c, Axis::X, Direction::Start, s);
    assert_eq!(c.cursor, Point { x: 2, y: 0 });
    Canvas::cursor_move(&mut c, Axis::X, Direction::End, s);
    assert_eq!(c.cursor, Point { x: 0, y: 0 });
    Canvas::cursor_move(&mut c, Axis::Y, Direction::End, s);
    assert_eq!(c.cursor, Point { x: 0, y: 1 });
}

#[test]
fn cursor_wraps_on_canvas_smaller_than_screen() {
    let s = screen(40, 20);
    let mut c = Canvas::new(2, 2).unwrap();
    Canvas::cursor_move(&mut c, Axis::Y, Direction::Start, s);
    assert_eq!(c.cursor, Point { x: 0, y: 1 });
    Canvas::cursor_move(&mut c, Axis::Y, Direction::End, s);
    assert_eq!(c.cursor, Point { x: 0, y: 0 });
}

#[test]
fn shift_pans_view_and_cursor_together() {
    let s = screen(3, 3);
    let mut c = Canvas::new(5, 4).unwrap();
    Canvas::shift(&mut c, Axis::X, Direction::Start, s);
    assert_eq!(c.position, Point { x: 0, y: 0 });
    Canvas::shift(&mut c, Axis::X, Direction::End, s);
    Canvas::shift(&mut c, Axis::X, Direction::End, s);
    Canvas::shift(&mut c, Axis::X, Direction::End, s);
    assert_eq!(c.position, Point { x: 2, y: 0 });
    assert_eq!(c.cursor, Point { x: 2, y: 0 });
    Canvas::shift(&mut c, Axis::Y, Direction::End, s);
    Canvas::shift(&mut c, Axis::Y, Direction::End, s);
    assert_eq!(c.position, Point { x: 2, y: 1 });
    Canvas::shift(&mut c, Axis::X, Direction::Start, s);
    assert_eq!(c.position, Point { x: 1, y: 1 });
    assert_eq!(c.cursor, Point { x: 1, y: 1 });
}

#[test]
fn fit_view_brings_cursor_back_into_smaller_screen() {
    let mut c = Canvas::new(10, 10).unwrap();
    c.position = Point { x: 5, y: 0 };
    c.cursor = Point { x: 9, y: 6 };
    Canvas::fit_view(&mut c, screen(5, 3));
    assert_eq!(c.position, Point { x: 5, y: 0 });
    assert_eq!(c.cursor, Point { x: 9, y: 2 });
    Canvas::fit_view(&mut c, screen(8, 3));
    assert_eq!(c.position, Point { x: 2, y: 0 });
    assert_eq!(c.cursor, Point { x: 9, y: 2 });
}

#[test]
fn paint_invert_and_pixel() {
    let mut c = Canvas::new(3, 3).unwrap();
    c.cursor = Point { x: 1, y: 2 };
    c.paint(true);
    assert!(c.pixel(1, 2));
    assert!(c.pixels[7]);
    c.invert();
    assert!(!c.pixel(1, 2));
    c.invert();
    assert!(c.pixel(1, 2));
    assert_eq!(c.pixels.iter().filter(|p| **p).count(), 1);
}

#[test]
fn visible_cuts_the_window() {
    let mut c = Canvas::new(4, 3).unwrap();
    c.pixels[5] = true;
    c.position = Point { x: 1, y: 1 };
    c.cursor = Point { x: 2, y: 1 };
    let rows = c.visible(screen(2, 2));
    assert_eq!(rows, vec![vec![true, false], vec![false, false]]);
    assert_eq!(c.cursor_cell(screen(2, 2)), (2, 0));
}
