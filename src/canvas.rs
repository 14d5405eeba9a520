//! The canvas: dimensions, pixels, the scroll offset of the viewport and the
//! cursor, with navigation and the bit-packed file format.

use vstd::prelude::*;
use crate::codec::{bits_of, bits_to_bytes, bytes_to_bits, index_of, packed_len, packs};

verus! {

/// Largest width or height of a canvas: each is stored in one byte.
pub const MAX_SPAN: usize = 255;

/// One of the two axes of the canvas; both are handled alike.
#[derive(Clone, Copy, Debug, PartialEq, Eq, Structural)]
pub enum Axis {
    X,
    Y,
}

/// A direction along an axis: towards zero, or away from it.
#[derive(Clone, Copy, Debug, PartialEq, Eq, Structural)]
pub enum Direction {
    Start,
    End,
}

/// A pair of coordinates (or of sizes), one per axis.
#[derive(Clone, Copy, Debug, PartialEq, Eq, Structural)]
pub struct Point {
    pub x: usize,
    pub y: usize,
}

impl Point {
    pub open spec fn at(self, axis: Axis) -> usize {
        match axis {
            Axis::X => self.x,
            Axis::Y => self.y,
        }
    }

    pub open spec fn with(self, axis: Axis, v: usize) -> Point {
        match axis {
            Axis::X => Point { x: v, y: self.y },
            Axis::Y => Point { x: self.x, y: v },
        }
    }

    pub fn get(&self, axis: Axis) -> (r: usize)
        ensures
            r == self.at(axis),
    {
        match axis {
            Axis::X => self.x,
            Axis::Y => self.y,
        }
    }

    pub fn set(&mut self, axis: Axis, v: usize)
        ensures
            *final(self) == old(self).with(axis, v),
    {
        match axis {
            Axis::X => self.x = v,
            Axis::Y => self.y = v,
        }
    }
}

/// The file a canvas is bound to, by name.
#[derive(Debug)]
pub struct CanvasFile {
    pub name: String,
}

/// Why a canvas could not be made.
#[derive(Clone, Copy, Debug, PartialEq, Eq, Structural)]
pub enum CanvasError {
    /// A width or height outside `1..=255`.
    OutOfBounds,
    /// File contents that are not a canvas.
    InvalidFormat,
}

/// Cells of the visible window along one axis: the canvas span, cut to the screen.
pub open spec fn window(span: int, screen: int) -> int {
    if span < screen {
        span
    } else {
        screen
    }
}

/// The scroll offset and the cursor along one axis after a pan: both move by one,
/// towards `Start` while the offset is above zero, towards `End` while the
/// window's far edge is before the canvas's.
pub open spec fn shifted(position: int, cursor: int, span: int, screen: int, d: Direction) -> (
    int,
    int,
) {
    match d {
        Direction::Start => if position != 0 {
            (position - 1, cursor - 1)
        } else {
            (position, cursor)
        },
        Direction::End => if position < span - screen {
            (position + 1, cursor + 1)
        } else {
            (position, cursor)
        },
    }
}

/// The cursor along one axis after a move: one step, wrapping around the
/// visible window (not the whole canvas) at either edge.
pub open spec fn moved(position: int, cursor: int, span: int, screen: int, d: Direction) -> int {
    match d {
        Direction::Start => if cursor == position {
            position + window(span, screen) - 1
        } else {
            cursor - 1
        },
        Direction::End => if cursor + 1 == position + window(span, screen) {
            position
        } else {
            cursor + 1
        },
    }
}

/// The scroll offset along one axis once the screen has a new size: as before,
/// unless the window would then reach past the canvas.
pub open spec fn fitted_position(position: int, span: int, screen: int) -> int {
    if position + window(span, screen) <= span {
        position
    } else {
        span - window(span, screen)
    }
}

/// The cursor along one axis brought into the window that starts at `position`.
pub open spec fn fitted_cursor(position: int, cursor: int, span: int, screen: int) -> int {
    if cursor < position {
        position
    } else if cursor >= position + window(span, screen) {
        position + window(span, screen) - 1
    } else {
        cursor
    }
}

/// The canvas after a pan along `axis` (see `shifted`).
pub open spec fn shift_model(m: CanvasModel, axis: Axis, d: Direction, screen: Point) -> CanvasModel {
    let (p, c) = shifted(
        m.position.at(axis) as int,
        m.cursor.at(axis) as int,
        m.span.at(axis) as int,
        screen.at(axis) as int,
        d,
    );
    CanvasModel {
        span: m.span,
        pixels: m.pixels,
        position: m.position.with(axis, p as usize),
        cursor: m.cursor.with(axis, c as usize),
    }
}

/// The canvas after a cursor move along `axis` (see `moved`).
pub open spec fn move_model(m: CanvasModel, axis: Axis, d: Direction, screen: Point) -> CanvasModel {
    let c = moved(
        m.position.at(axis) as int,
        m.cursor.at(axis) as int,
        m.span.at(axis) as int,
        screen.at(axis) as int,
        d,
    );
    CanvasModel {
        span: m.span,
        pixels: m.pixels,
        position: m.position,
        cursor: m.cursor.with(axis, c as usize),
    }
}

/// The canvas once the screen has the size `screen` (see `fitted_position`
/// and `fitted_cursor`).
pub open spec fn fit_model(m: CanvasModel, screen: Point) -> CanvasModel {
    let px = fitted_position(m.position.x as int, m.span.x as int, screen.x as int);
    let py = fitted_position(m.position.y as int, m.span.y as int, screen.y as int);
    CanvasModel {
        span: m.span,
        pixels: m.pixels,
        position: Point { x: px as usize, y: py as usize },
        cursor: Point {
            x: fitted_cursor(px, m.cursor.x as int, m.span.x as int, screen.x as int) as usize,
            y: fitted_cursor(py, m.cursor.y as int, m.span.y as int, screen.y as int) as usize,
        },
    }
}

/// A file is a canvas when it ends with a non-zero height and width byte and
/// holds before them exactly the bytes that `width * height` pixels pack into.
pub open spec fn valid_file(bytes: Seq<u8>) -> bool {
    &&& bytes.len() >= 2
    &&& file_span(bytes).x >= 1
    &&& file_span(bytes).y >= 1
    &&& bytes.len() - 2 == packed_len((file_span(bytes).x * file_span(bytes).y) as nat)
}

/// The width (last byte) and height (the byte before it) that a file declares.
pub open spec fn file_span(bytes: Seq<u8>) -> Point {
    Point { x: bytes[bytes.len() - 1] as usize, y: bytes[bytes.len() - 2] as usize }
}

/// The pixels that a file holds: its packed bytes unpacked, cut to `width * height`.
pub open spec fn file_pixels(bytes: Seq<u8>) -> Seq<bool> {
    bits_of(bytes.take(bytes.len() - 2)).take(file_span(bytes).x * file_span(bytes).y)
}

/// `bytes` is the file of a canvas with this span and these pixels: the packed
/// pixels, then the height byte, then the width byte.
pub open spec fn is_file_of(bytes: Seq<u8>, span: Point, pixels: Seq<bool>) -> bool {
    &&& bytes.len() >= 2
    &&& packs(bytes.take(bytes.len() - 2), pixels)
    &&& bytes[bytes.len() - 2] == span.y
    &&& bytes[bytes.len() - 1] == span.x
}

/// What a canvas is, apart from its file: dimensions, pixels, scroll offset, cursor.
pub struct CanvasModel {
    pub span: Point,
    pub pixels: Seq<bool>,
    pub position: Point,
    pub cursor: Point,
}

impl CanvasModel {
    /// Dimensions in `1..=255`, one pixel per point, the cursor on the canvas.
    pub open spec fn wf(self) -> bool {
        &&& 1 <= self.span.x <= MAX_SPAN
        &&& 1 <= self.span.y <= MAX_SPAN
        &&& self.pixels.len() == self.span.x * self.span.y
        &&& self.cursor.x < self.span.x
        &&& self.cursor.y < self.span.y
    }

    /// Along `axis`, the window lies inside the canvas and holds the cursor.
    pub open spec fn in_view_on(self, screen: Point, axis: Axis) -> bool {
        let p = self.position.at(axis) as int;
        let w = window(self.span.at(axis) as int, screen.at(axis) as int);
        &&& p + w <= self.span.at(axis)
        &&& p <= self.cursor.at(axis) < p + w
    }

    /// The viewport invariant on a screen of `screen` cells (pixels, per axis).
    pub open spec fn in_view(self, screen: Point) -> bool {
        &&& screen.x >= 1
        &&& screen.y >= 1
        &&& self.in_view_on(screen, Axis::X)
        &&& self.in_view_on(screen, Axis::Y)
    }

    /// The pixel at `(x, y)`.
    pub open spec fn pixel_at(self, x: int, y: int) -> bool {
        self.pixels[index_of(self.span.x as int, x, y)]
    }

    /// Index of the pixel under the cursor.
    pub open spec fn cursor_index(self) -> int {
        index_of(self.span.x as int, self.cursor.x as int, self.cursor.y as int)
    }

    /// The pixel under the cursor.
    pub open spec fn at_cursor(self) -> bool {
        self.pixels[self.cursor_index()]
    }
}

/// A canvas of pixels with a viewport onto it.
pub struct Canvas {
    pub canvas_file: Option<CanvasFile>,
    pub span: Point,
    pub pixels: Vec<bool>,
    pub position: Point,
    pub cursor: Point,
}

impl View for Canvas {
    type V = CanvasModel;

    open spec fn view(&self) -> CanvasModel {
        CanvasModel {
            span: self.span,
            pixels: self.pixels@,
            position: self.position,
            cursor: self.cursor,
        }
    }
}

impl Canvas {
    pub open spec fn wf(&self) -> bool {
        self@.wf()
    }

    pub open spec fn in_view(&self, screen: Point) -> bool {
        self@.in_view(screen)
    }

    pub open spec fn pixel_at(&self, x: int, y: int) -> bool {
        self@.pixel_at(x, y)
    }

    pub open spec fn at_cursor(&self) -> bool {
        self@.at_cursor()
    }

    pub open spec fn cursor_index(&self) -> int {
        self@.cursor_index()
    }

    /// A blank canvas of `width` by `height` pixels, all off, with the view and
    /// the cursor at the origin and no file.
    pub fn new(width: usize, height: usize) -> (r: Result<Canvas, CanvasError>)
        ensures
            r is Err <==> !(1 <= width <= MAX_SPAN && 1 <= height <= MAX_SPAN),
            r is Err ==> r->Err_0 == CanvasError::OutOfBounds,
            r matches Ok(c) ==> {
                &&& c.wf()
                &&& c.span == Point { x: width, y: height }
                &&& c.pixels@ == Seq::new((width * height) as nat, |i: int| false)
                &&& c.position == Point { x: 0, y: 0 }
                &&& c.cursor == Point { x: 0, y: 0 }
                &&& c.canvas_file is None
            },
    {
        if width < 1 || width > MAX_SPAN || height < 1 || height > MAX_SPAN {
            return Err(CanvasError::OutOfBounds);
        }
        proof {
            assert(width * height <= 255 * 255) by (nonlinear_arith)
                requires
                    width <= 255,
                    height <= 255,
            ;
        }
        let pixels: Vec<bool> = vec![false; width * height];
        proof {
            assert(pixels@ =~= Seq::new((width * height) as nat, |i: int| false));
        }
        Ok(
            Canvas {
                canvas_file: None,
                span: Point { x: width, y: height },
                pixels,
                position: Point { x: 0, y: 0 },
                cursor: Point { x: 0, y: 0 },
            },
        )
    }

    /// The canvas that file contents `content` hold, bound to the file `name`,
    /// with the view and the cursor at the origin. Contents too short to hold
    /// the two dimension bytes, a zero dimension, or a number of pixel bytes
    /// other than `width * height` pixels pack into, are `InvalidFormat`.
    /// Padding bits in the final byte are dropped.
    pub fn open(name: String, content: &Vec<u8>) -> (r: Result<Canvas, CanvasError>)
        ensures
            r is Ok <==> valid_file(content@),
            r is Err ==> r->Err_0 == CanvasError::InvalidFormat,
            r matches Ok(c) ==> {
                &&& c.wf()
                &&& c.span == file_span(content@)
                &&& c.pixels@ == file_pixels(content@)
                &&& c.position == Point { x: 0, y: 0 }
                &&& c.cursor == Point { x: 0, y: 0 }
                &&& c.canvas_file == Some(CanvasFile { name })
            },
    {
        let len: usize = content.len();
        if len < 2 {
            return Err(CanvasError::InvalidFormat);
        }
        let width: usize = content[len - 1] as usize;
        let height: usize = content[len - 2] as usize;
        if width == 0 || height == 0 {
            return Err(CanvasError::InvalidFormat);
        }
        proof {
            assert(width * height <= 255 * 255) by (nonlinear_arith)
                requires
                    width <= 255,
                    height <= 255,
            ;
        }
        let count: usize = width * height;
        if len - 2 != (count + 7) / 8 {
            return Err(CanvasError::InvalidFormat);
        }
        let mut packed: Vec<u8> = Vec::new();
        let mut i: usize = 0;
        while i < len - 2
            invariant
                len == content@.len(),
                len >= 2,
                i <= len - 2,
                packed@ == content@.take(i as int),
            decreases len - 2 - i,
        {
            packed.push(content[i]);
            i += 1;
            assert(packed@ =~= content@.take(i as int));
        }
        let mut pixels: Vec<bool> = bytes_to_bits(&packed);
        pixels.truncate(count);
        proof {
            assert(pixels@ =~= file_pixels(content@));
        }
        Ok(
            Canvas {
                canvas_file: Some(CanvasFile { name }),
                span: Point { x: width, y: height },
                pixels,
                position: Point { x: 0, y: 0 },
                cursor: Point { x: 0, y: 0 },
            },
        )
    }

    /// The file contents of `canvas`: its pixels packed eight to a byte, then
    /// its height and its width, one byte each.
    pub fn save(canvas: &Canvas) -> (r: Vec<u8>)
        requires
            canvas.wf(),
        ensures
            is_file_of(r@, canvas.span, canvas.pixels@),
    {
        proof {
            assert(canvas.span.x * canvas.span.y <= 255 * 255) by (nonlinear_arith)
                requires
                    canvas.span.x <= 255,
                    canvas.span.y <= 255,
            ;
        }
        let mut content: Vec<u8> = bits_to_bytes(&canvas.pixels);
        let ghost packed = content@;
        content.push(canvas.span.y as u8);
        content.push(canvas.span.x as u8);
        assert(content@.take(content@.len() - 2) =~= packed);
        content
    }

    /// Pans the view by one along `axis`, the cursor moving with it, so that
    /// it stays where it was on the screen.
    pub fn shift(canvas: &mut Canvas, axis: Axis, direction: Direction, screen: Point)
        requires
            old(canvas).wf(),
            old(canvas).in_view(screen),
        ensures
            final(canvas).wf(),
            final(canvas).in_view(screen),
            final(canvas).canvas_file == old(canvas).canvas_file,
            final(canvas)@ == shift_model(old(canvas)@, axis, direction, screen),
    {
        let position: usize = canvas.position.get(axis);
        let cursor: usize = canvas.cursor.get(axis);
        let span: usize = canvas.span.get(axis);
        let size: usize = screen.get(axis);
        match direction {
            Direction::Start => {
                if position != 0 {
                    canvas.position.set(axis, position - 1);
                    canvas.cursor.set(axis, cursor - 1);
                }
            },
            Direction::End => {
                if span > size && position < span - size {
                    canvas.position.set(axis, position + 1);
                    canvas.cursor.set(axis, cursor + 1);
                }
            },
        }
    }

    /// Moves the cursor by one along `axis`, wrapping around the visible
    /// window: off its start edge to its far edge and back.
    pub fn cursor_move(canvas: &mut Canvas, axis: Axis, direction: Direction, screen: Point)
        requires
            old(canvas).wf(),
            old(canvas).in_view(screen),
        ensures
            final(canvas).wf(),
            final(canvas).in_view(screen),
            final(canvas).canvas_file == old(canvas).canvas_file,
            final(canvas)@ == move_model(old(canvas)@, axis, direction, screen),
    {
        let position: usize = canvas.position.get(axis);
        let cursor: usize = canvas.cursor.get(axis);
        let span: usize = canvas.span.get(axis);
        let size: usize = screen.get(axis);
        let end: usize = if span < size {
            position + span
        } else {
            position + size
        };
        match direction {
            Direction::Start => {
                if cursor == position {
                    canvas.cursor.set(axis, end - 1);
                } else {
                    canvas.cursor.set(axis, cursor - 1);
                }
            },
            Direction::End => {
                if cursor + 1 == end {
                    canvas.cursor.set(axis, position);
                } else {
                    canvas.cursor.set(axis, cursor + 1);
                }
            },
        }
    }

    /// Brings the view back inside the canvas and the cursor into the view
    /// after the screen took a new size.
    pub fn fit_view(canvas: &mut Canvas, screen: Point)
        requires
            old(canvas).wf(),
            screen.x >= 1,
            screen.y >= 1,
        ensures
            final(canvas).wf(),
            final(canvas).in_view(screen),
            final(canvas).canvas_file == old(canvas).canvas_file,
            final(canvas)@ == fit_model(old(canvas)@, screen),
    {
        Canvas::fit_axis(canvas, Axis::X, screen);
        Canvas::fit_axis(canvas, Axis::Y, screen);
    }

    fn fit_axis(canvas: &mut Canvas, axis: Axis, screen: Point)
        requires
            old(canvas).wf(),
            screen.at(axis) >= 1,
        ensures
            final(canvas).wf(),
            final(canvas)@.in_view_on(screen, axis),
            final(canvas).span == old(canvas).span,
            final(canvas).pixels@ == old(canvas).pixels@,
            final(canvas).canvas_file == old(canvas).canvas_file,
            ({
                let p = fitted_position(
                    old(canvas).position.at(axis) as int,
                    old(canvas).span.at(axis) as int,
                    screen.at(axis) as int,
                );
                let c = fitted_cursor(
                    p,
                    old(canvas).cursor.at(axis) as int,
                    old(canvas).span.at(axis) as int,
                    screen.at(axis) as int,
                );
                &&& final(canvas).position == old(canvas).position.with(axis, p as usize)
                &&& final(canvas).cursor == old(canvas).cursor.with(axis, c as usize)
            }),
    {
        let position: usize = canvas.position.get(axis);
        let cursor: usize = canvas.cursor.get(axis);
        let span: usize = canvas.span.get(axis);
        let size: usize = screen.get(axis);
        let w: usize = if span < size {
            span
        } else {
            size
        };
        let p: usize = if position <= span - w {
            position
        } else {
            span - w
        };
        let c: usize = if cursor < p {
            p
        } else if cursor >= p + w {
            p + w - 1
        } else {
            cursor
        };
        canvas.position.set(axis, p);
        canvas.cursor.set(axis, c);
    }


    /// The pixel at `(x, y)`.
    pub fn pixel(&self, x: usize, y: usize) -> (r: bool)
        requires
            self.wf(),
            x < self.span.x,
            y < self.span.y,
        ensures
            r == self.pixel_at(x as int, y as int),
    {
        proof {
            lemma_index_in_bounds(self.span.x as int, self.span.y as int, x as int, y as int);
        }
        self.pixels[y * self.span.x + x]
    }

    /// Sets the pixel under the cursor to `value`.
    pub fn paint(&mut self, value: bool)
        requires
            old(self).wf(),
        ensures
            final(self).wf(),
            final(self).pixels@ == old(self).pixels@.update(old(self).cursor_index(), value),
            final(self).span == old(self).span,
            final(self).position == old(self).position,
            final(self).cursor == old(self).cursor,
            final(self).canvas_file == old(self).canvas_file,
    {
        proof {
            lemma_index_in_bounds(
                self.span.x as int,
                self.span.y as int,
                self.cursor.x as int,
                self.cursor.y as int,
            );
        }
        let i: usize = self.cursor.y * self.span.x + self.cursor.x;
        self.pixels.set(i, value);
    }

    /// Turns the pixel under the cursor on if it was off, and off if it was on.
    pub fn invert(&mut self)
        requires
            old(self).wf(),
        ensures
            final(self).wf(),
            final(self).pixels@ == old(self).pixels@.update(
                old(self).cursor_index(),
                !old(self).at_cursor(),
            ),
            final(self).span == old(self).span,
            final(self).position == old(self).position,
            final(self).cursor == old(self).cursor,
            final(self).canvas_file == old(self).canvas_file,
    {
        let v: bool = self.pixel(self.cursor.x, self.cursor.y);
        self.paint(!v);
    }

    /// The pixels in view, row by row: `rows[i][j]` is the pixel at
    /// `(position.x + j, position.y + i)`.
    pub fn visible(&self, screen: Point) -> (rows: Vec<Vec<bool>>)
        requires
            self.wf(),
            self.in_view(screen),
        ensures
            rows@.len() == window(self.span.y as int, screen.y as int),
            forall|i: int|
                0 <= i < rows@.len() ==> #[trigger] rows@[i]@.len() == window(
                    self.span.x as int,
                    screen.x as int,
                ),
            forall|i: int, j: int|
                0 <= i < rows@.len() && 0 <= j < rows@[i]@.len() ==> #[trigger] rows@[i]@[j]
                    == self.pixel_at(self.position.x + j, self.position.y + i),
    {
        let h: usize = if self.span.y < screen.y {
            self.span.y
        } else {
            screen.y
        };
        let w: usize = if self.span.x < screen.x {
            self.span.x
        } else {
            screen.x
        };
        let mut rows: Vec<Vec<bool>> = Vec::new();
        let mut i: usize = 0;
        while i < h
            invariant
                self.wf(),
                self.in_view(screen),
                h == window(self.span.y as int, screen.y as int),
                w == window(self.span.x as int, screen.x as int),
                i <= h,
                rows@.len() == i,
                forall|r: int| 0 <= r < i ==> #[trigger] rows@[r]@.len() == w,
                forall|r: int, j: int|
                    0 <= r < i && 0 <= j < w ==> #[trigger] rows@[r]@[j] == self.pixel_at(
                        self.position.x + j,
                        self.position.y + r,
                    ),
            decreases h - i,
        {
            let mut row: Vec<bool> = Vec::new();
            let mut j: usize = 0;
            while j < w
                invariant
                    self.wf(),
                    self.in_view(screen),
                    w == window(self.span.x as int, screen.x as int),
                    i < h,
                    h == window(self.span.y as int, screen.y as int),
                    j <= w,
                    row@.len() == j,
                    forall|k: int|
                        0 <= k < j ==> #[trigger] row@[k] == self.pixel_at(
                            self.position.x + k,
                            self.position.y + i,
                        ),
                decreases w - j,
            {
                row.push(self.pixel(self.position.x + j, self.position.y + i));
                j += 1;
            }
            rows.push(row);
            i += 1;
        }
        rows
    }

    /// The terminal cell of the cursor, as (column, row): each pixel is two
    /// cells wide and one tall, counted from the view's corner.
    pub fn cursor_cell(&self, screen: Point) -> (r: (u16, u16))
        requires
            self.wf(),
            self.in_view(screen),
        ensures
            r.0 == 2 * (self.cursor.x - self.position.x),
            r.1 == self.cursor.y - self.position.y,
    {
        (((self.cursor.x - self.position.x) * 2) as u16, (self.cursor.y - self.position.y) as u16)
    }
}

pub(crate) proof fn lemma_index_in_bounds(w: int, h: int, x: int, y: int)
    requires
        0 <= x < w,
        0 <= y < h,
        w <= 255,
        h <= 255,
    ensures
        0 <= index_of(w, x, y) < w * h,
        w * h <= 255 * 255,
{
    assert(0 <= y * w + x < w * h) by (nonlinear_arith)
        requires
            0 <= x < w,
            0 <= y < h,
    ;
    assert(w * h <= 255 * 255) by (nonlinear_arith)
        requires
            0 <= w <= 255,
            0 <= h <= 255,
    ;
}

/// Opening what saving wrote gives back the canvas's dimensions and every
/// one of its pixels.
pub proof fn lemma_open_save(bytes: Seq<u8>, span: Point, pixels: Seq<bool>)
    requires
        1 <= span.x <= MAX_SPAN,
        1 <= span.y <= MAX_SPAN,
        pixels.len() == span.x * span.y,
        is_file_of(bytes, span, pixels),
    ensures
        valid_file(bytes),
        file_span(bytes) == span,
        file_pixels(bytes) == pixels,
{
    crate::codec::lemma_unpack_pack_prefix(bytes.take(bytes.len() - 2), pixels);
}

} // verus!
