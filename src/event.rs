//! The key-event state machine: navigation, sticky painting, commands and
//! text capture for prompts. The terminal loop hands each event in and
//! performs the command that comes back.

use vstd::prelude::*;
use crate::canvas::{
    fit_model, move_model, shift_model, Axis, Canvas, CanvasModel, Direction, Point,
};

verus! {

/// A key, as far as the editor tells keys apart.
#[derive(Clone, Copy, Debug, PartialEq, Eq, Structural)]
pub enum KeyCode {
    Left,
    Right,
    Up,
    Down,
    Insert,
    Delete,
    Backspace,
    Enter,
    Esc,
    Char(char),
    F(u8),
    Other,
}

/// The modifier keys held with a key; `other` stands for any beyond these three.
#[derive(Clone, Copy, Debug, PartialEq, Eq, Structural)]
pub struct KeyModifiers {
    pub shift: bool,
    pub control: bool,
    pub alt: bool,
    pub other: bool,
}

impl KeyModifiers {
    /// No modifier at all.
    pub open spec fn is_plain(self) -> bool {
        !self.shift && !self.control && !self.alt && !self.other
    }

    /// Control and nothing else.
    pub open spec fn is_control(self) -> bool {
        !self.shift && self.control && !self.alt && !self.other
    }

    /// Shift and nothing else.
    pub open spec fn is_shift(self) -> bool {
        self.shift && !self.control && !self.alt && !self.other
    }
}

/// Whether a key went down, repeats, or came up.
#[derive(Clone, Copy, Debug, PartialEq, Eq, Structural)]
pub enum KeyEventKind {
    Press,
    Repeat,
    Release,
}

#[derive(Clone, Copy, Debug, PartialEq, Eq, Structural)]
pub struct KeyEvent {
    pub code: KeyCode,
    pub modifiers: KeyModifiers,
    pub kind: KeyEventKind,
}

/// An input event: a key, or the terminal's new size in cells (columns, rows).
#[derive(Clone, Copy, Debug, PartialEq, Eq, Structural)]
pub enum Event {
    Key(KeyEvent),
    Resize(u16, u16),
    Other,
}

/// The sticky paint action in force: each cursor move while it is held
/// paints the pixel that the cursor reaches.
#[derive(Clone, Copy, Debug, PartialEq, Eq, Structural)]
pub enum Action {
    Idle,
    Draw,
    Erase,
    Invert,
}

/// What the terminal loop is to do after an event.
#[derive(Clone, Copy, Debug, PartialEq, Eq, Structural)]
pub enum Command {
    Nothing,
    /// Ask for a width and a height, then install a new canvas.
    New,
    /// Ask for a file name, then open it and install the canvas.
    Open,
    /// Write the canvas to its file, asking for a name if it has none.
    Save,
    NothingToSave,
    /// The canvas was discarded.
    Closed,
    NothingToClose,
    /// End the process at once.
    Quit,
}

/// Where a prompt stands after an event.
#[derive(Clone, Copy, Debug, PartialEq, Eq, Structural)]
pub enum TextStatus {
    Typing,
    Commit,
    Cancel,
}

/// The axis and direction that an arrow key stands for.
pub open spec fn nav_key(code: KeyCode) -> Option<(Axis, Direction)> {
    match code {
        KeyCode::Left => Some((Axis::X, Direction::Start)),
        KeyCode::Right => Some((Axis::X, Direction::End)),
        KeyCode::Up => Some((Axis::Y, Direction::Start)),
        KeyCode::Down => Some((Axis::Y, Direction::End)),
        _ => None,
    }
}

/// The sticky action that a key starts: Insert draws, Delete erases, Space inverts.
pub open spec fn sticky_key(code: KeyCode) -> Option<Action> {
    match code {
        KeyCode::Insert => Some(Action::Draw),
        KeyCode::Delete => Some(Action::Erase),
        KeyCode::Char(c) => if c == ' ' {
            Some(Action::Invert)
        } else {
            None
        },
        _ => None,
    }
}

/// `pixels` after `a` is applied to the pixel at index `i`.
pub open spec fn apply_action(pixels: Seq<bool>, i: int, a: Action) -> Seq<bool> {
    match a {
        Action::Idle => pixels,
        Action::Draw => pixels.update(i, true),
        Action::Erase => pixels.update(i, false),
        Action::Invert => pixels.update(i, !pixels[i]),
    }
}

/// `m` with `a` applied to the pixel under the cursor.
pub open spec fn paint_model(m: CanvasModel, a: Action) -> CanvasModel {
    CanvasModel {
        span: m.span,
        pixels: apply_action(m.pixels, m.cursor_index(), a),
        position: m.position,
        cursor: m.cursor,
    }
}

/// An arrow key: with no modifier it moves the cursor, with Control alone it
/// pans the view (other modifiers are reserved: see `key_step`).
pub open spec fn navigate(
    m: CanvasModel,
    axis: Axis,
    d: Direction,
    mods: KeyModifiers,
    screen: Point,
) -> CanvasModel {
    if mods.is_plain() {
        move_model(m, axis, d, screen)
    } else if mods.is_control() {
        shift_model(m, axis, d, screen)
    } else {
        m
    }
}

/// The canvas and the sticky action after a key event on an open canvas.
/// On a press: an arrow with no modifier or with Control alone navigates, then
/// the action in force paints the pixel under the cursor; an arrow with any
/// other modifiers is ignored. A sticky key that is not already in force paints
/// once and becomes the action. Releasing the key of the action in force ends it.
pub open spec fn key_step(m: CanvasModel, a: Action, k: KeyEvent, screen: Point) -> (
    CanvasModel,
    Action,
) {
    if k.kind == KeyEventKind::Press {
        let m1 = match nav_key(k.code) {
            Some((axis, d)) => if k.modifiers.is_plain() || k.modifiers.is_control() {
                paint_model(navigate(m, axis, d, k.modifiers, screen), a)
            } else {
                m
            },
            None => m,
        };
        match sticky_key(k.code) {
            Some(b) => if b != a {
                (paint_model(m1, b), b)
            } else {
                (m1, a)
            },
            None => (m1, a),
        }
    } else if k.kind == KeyEventKind::Release && sticky_key(k.code) == Some(a) {
        (m, Action::Idle)
    } else {
        (m, a)
    }
}

/// The command that a key event asks for: Control with N, O, S, W or F4, pressed.
pub open spec fn command_of(k: KeyEvent, has_canvas: bool) -> Command {
    if k.kind == KeyEventKind::Press && k.modifiers.is_control() {
        match k.code {
            KeyCode::Char(c) => if c == 'n' {
                Command::New
            } else if c == 'o' {
                Command::Open
            } else if c == 's' {
                if has_canvas {
                    Command::Save
                } else {
                    Command::NothingToSave
                }
            } else if c == 'w' {
                if has_canvas {
                    Command::Closed
                } else {
                    Command::NothingToClose
                }
            } else {
                Command::Nothing
            },
            KeyCode::F(n) => if n == 4 {
                Command::Quit
            } else {
                Command::Nothing
            },
            _ => Command::Nothing,
        }
    } else {
        Command::Nothing
    }
}

/// The screen area, in pixels, of a terminal `columns` by `rows` cells: two
/// columns per pixel, three rows kept for the status lines. `None` where the
/// terminal is too small to show a single pixel.
pub open spec fn screen_of(columns: u16, rows: u16) -> Option<Point> {
    if columns >= 2 && rows >= 4 {
        Some(Point { x: (columns / 2) as usize, y: (rows - 3) as usize })
    } else {
        None
    }
}

pub fn screen_size(columns: u16, rows: u16) -> (r: Option<Point>)
    ensures
        r == screen_of(columns, rows),
{
    if columns >= 2 && rows >= 4 {
        Some(Point { x: (columns / 2) as usize, y: (rows - 3) as usize })
    } else {
        None
    }
}

/// The text in a prompt after a key event, and where the prompt stands.
/// Keys pressed without Control (or with Alt as well) edit the text: a
/// character is added, Backspace drops the last one, Enter commits and Esc
/// cancels.
pub open spec fn text_step(text: Seq<char>, k: KeyEvent) -> (Seq<char>, TextStatus) {
    if (!k.modifiers.control || k.modifiers.alt) && k.kind == KeyEventKind::Press {
        match k.code {
            KeyCode::Char(c) => (text.push(c), TextStatus::Typing),
            KeyCode::Backspace => if text.len() > 0 {
                (text.drop_last(), TextStatus::Typing)
            } else {
                (text, TextStatus::Typing)
            },
            KeyCode::Enter => (text, TextStatus::Commit),
            KeyCode::Esc => (text, TextStatus::Cancel),
            _ => (text, TextStatus::Typing),
        }
    } else {
        (text, TextStatus::Typing)
    }
}

/// The editor: at most one canvas, the sticky action, and the screen area.
pub struct Editor {
    pub canvas: Option<Canvas>,
    pub action: Action,
    pub screen: Point,
}

impl Editor {
    /// A screen of at least one pixel each way, and a canvas in view of it.
    pub open spec fn wf(&self) -> bool {
        &&& self.screen.x >= 1
        &&& self.screen.y >= 1
        &&& (self.canvas matches Some(c) ==> c.wf() && c.in_view(self.screen))
    }

    /// An editor with no canvas, on a screen area of `screen` pixels.
    pub fn new(screen: Point) -> (r: Editor)
        requires
            screen.x >= 1,
            screen.y >= 1,
        ensures
            r.wf(),
            r.canvas is None,
            r.action == Action::Idle,
            r.screen == screen,
    {
        Editor { canvas: None, action: Action::Idle, screen }
    }

    /// Makes `canvas` the editor's canvas, its view fitted to the screen.
    pub fn install(&mut self, canvas: Canvas)
        requires
            old(self).wf(),
            canvas.wf(),
        ensures
            final(self).wf(),
            final(self).canvas matches Some(c) && c@ == fit_model(canvas@, old(self).screen)
                && c.canvas_file == canvas.canvas_file,
            final(self).action == old(self).action,
            final(self).screen == old(self).screen,
    {
        let mut canvas = canvas;
        Canvas::fit_view(&mut canvas, self.screen);
        self.canvas = Some(canvas);
    }

    /// Takes the terminal's new size: the screen area changes where the
    /// terminal can show a pixel at all, and the canvas is fitted to it.
    pub fn resize(&mut self, columns: u16, rows: u16)
        requires
            old(self).wf(),
        ensures
            final(self).wf(),
            final(self).action == old(self).action,
            final(self).screen == match screen_of(columns, rows) {
                Some(s) => s,
                None => old(self).screen,
            },
            final(self).canvas is Some <==> old(self).canvas is Some,
            final(self).canvas matches Some(c) ==> c@ == fit_model(
                old(self).canvas->Some_0@,
                final(self).screen,
            ) && c.canvas_file == old(self).canvas->Some_0.canvas_file,
    {
        if let Some(screen) = screen_size(columns, rows) {
            self.screen = screen;
        }
        let taken = self.canvas.take();
        if let Some(canvas) = taken {
            self.install(canvas);
        }
    }
}

/// Handles one event while no prompt is open, and says what the terminal
/// loop is to do next.
pub fn event_capture(editor: &mut Editor, event: &Event) -> (r: Command)
    requires
        old(editor).wf(),
    ensures
        final(editor).wf(),
        match *event {
            Event::Key(k) => {
                &&& r == command_of(k, old(editor).canvas is Some)
                &&& final(editor).screen == old(editor).screen
                &&& (old(editor).canvas is None ==> final(editor).canvas is None
                    && final(editor).action == old(editor).action)
                &&& (r == Command::Closed ==> final(editor).canvas is None
                    && final(editor).action == old(editor).action)
                &&& (r != Command::Closed ==> (old(editor).canvas matches Some(c) ==> {
                    &&& final(editor).canvas matches Some(d)
                    &&& (d@, final(editor).action) == key_step(
                        c@,
                        old(editor).action,
                        k,
                        old(editor).screen,
                    )
                    &&& d.canvas_file == c.canvas_file
                }))
            },
            Event::Resize(columns, rows) => {
                &&& r == Command::Nothing
                &&& final(editor).action == old(editor).action
                &&& final(editor).screen == match screen_of(columns, rows) {
                    Some(s) => s,
                    None => old(editor).screen,
                }
                &&& (final(editor).canvas is Some <==> old(editor).canvas is Some)
                &&& (final(editor).canvas matches Some(d) ==> d@ == fit_model(
                    old(editor).canvas->Some_0@,
                    final(editor).screen,
                ) && d.canvas_file == old(editor).canvas->Some_0.canvas_file)
            },
            Event::Other => {
                &&& r == Command::Nothing
                &&& final(editor).action == old(editor).action
                &&& final(editor).screen == old(editor).screen
                &&& final(editor).canvas == old(editor).canvas
            },
        },
{
    match *event {
        Event::Key(k) => {
            let taken = editor.canvas.take();
            let has_canvas: bool = taken.is_some();
            if let Some(canvas) = taken {
                let mut canvas = canvas;
                let action: Action = key_press(&mut canvas, editor.action, &k, editor.screen);
                editor.canvas = Some(canvas);
                editor.action = action;
            }
            let command: Command = command_for(&k, has_canvas);
            if command == Command::Closed {
                editor.canvas = None;
            }
            command
        },
        Event::Resize(columns, rows) => {
            editor.resize(columns, rows);
            Command::Nothing
        },
        Event::Other => Command::Nothing,
    }
}

fn command_for(k: &KeyEvent, has_canvas: bool) -> (r: Command)
    ensures
        r == command_of(*k, has_canvas),
{
    let m = k.modifiers;
    if k.kind == KeyEventKind::Press && !m.shift && m.control && !m.alt && !m.other {
        match k.code {
            KeyCode::Char(c) => if c == 'n' {
                Command::New
            } else if c == 'o' {
                Command::Open
            } else if c == 's' {
                if has_canvas {
                    Command::Save
                } else {
                    Command::NothingToSave
                }
            } else if c == 'w' {
                if has_canvas {
                    Command::Closed
                } else {
                    Command::NothingToClose
                }
            } else {
                Command::Nothing
            },
            KeyCode::F(n) => if n == 4 {
                Command::Quit
            } else {
                Command::Nothing
            },
            _ => Command::Nothing,
        }
    } else {
        Command::Nothing
    }
}

fn apply(canvas: &mut Canvas, a: Action)
    requires
        old(canvas).wf(),
    ensures
        final(canvas).wf(),
        final(canvas)@ == paint_model(old(canvas)@, a),
        final(canvas).canvas_file == old(canvas).canvas_file,
{
    match a {
        Action::Idle => {
            assert(old(canvas).pixels@ == apply_action(old(canvas).pixels@, old(canvas).cursor_index(), a));
        },
        Action::Draw => canvas.paint(true),
        Action::Erase => canvas.paint(false),
        Action::Invert => canvas.invert(),
    }
}

fn sticky_for(code: KeyCode) -> (r: Option<Action>)
    ensures
        r == sticky_key(code),
{
    match code {
        KeyCode::Insert => Some(Action::Draw),
        KeyCode::Delete => Some(Action::Erase),
        KeyCode::Char(c) => if c == ' ' {
            Some(Action::Invert)
        } else {
            None
        },
        _ => None,
    }
}

fn nav_for(code: KeyCode) -> (r: Option<(Axis, Direction)>)
    ensures
        r == nav_key(code),
{
    match code {
        KeyCode::Left => Some((Axis::X, Direction::Start)),
        KeyCode::Right => Some((Axis::X, Direction::End)),
        KeyCode::Up => Some((Axis::Y, Direction::Start)),
        KeyCode::Down => Some((Axis::Y, Direction::End)),
        _ => None,
    }
}

/// One key event on an open canvas (see `key_step`); returns the action in force after it.
fn key_press(canvas: &mut Canvas, action: Action, k: &KeyEvent, screen: Point) -> (r: Action)
    requires
        old(canvas).wf(),
        old(canvas).in_view(screen),
    ensures
        final(canvas).wf(),
        final(canvas).in_view(screen),
        (final(canvas)@, r) == key_step(old(canvas)@, action, *k, screen),
        final(canvas).canvas_file == old(canvas).canvas_file,
{
    let sticky: Option<Action> = sticky_for(k.code);
    if k.kind == KeyEventKind::Press {
        if let Some((axis, d)) = nav_for(k.code) {
            let m = k.modifiers;
            if !m.shift && !m.control && !m.alt && !m.other {
                Canvas::cursor_move(canvas, axis, d, screen);
                apply(canvas, action);
            } else if !m.shift && m.control && !m.alt && !m.other {
                Canvas::shift(canvas, axis, d, screen);
                apply(canvas, action);
            }
        }
        match sticky {
            Some(b) => {
                if b != action {
                    apply(canvas, b);
                    b
                } else {
                    action
                }
            },
            None => action,
        }
    } else if k.kind == KeyEventKind::Release && sticky == Some(action) {
        Action::Idle
    } else {
        action
    }
}

/// Handles one event while a prompt is open: `text` is what has been typed
/// so far. The canvas is left alone; a resize still reaches the screen.
pub fn text_capture(editor: &mut Editor, text: &mut Vec<char>, event: &Event) -> (r: TextStatus)
    requires
        old(editor).wf(),
    ensures
        final(editor).wf(),
        final(editor).action == old(editor).action,
        match *event {
            Event::Key(k) => {
                &&& (final(text)@, r) == text_step(old(text)@, k)
                &&& final(editor).canvas == old(editor).canvas
                &&& final(editor).screen == old(editor).screen
            },
            Event::Resize(columns, rows) => {
                &&& r == TextStatus::Typing
                &&& final(text)@ == old(text)@
                &&& final(editor).screen == match screen_of(columns, rows) {
                    Some(s) => s,
                    None => old(editor).screen,
                }
                &&& (final(editor).canvas is Some <==> old(editor).canvas is Some)
                &&& (final(editor).canvas matches Some(d) ==> d@ == fit_model(
                    old(editor).canvas->Some_0@,
                    final(editor).screen,
                ) && d.canvas_file == old(editor).canvas->Some_0.canvas_file)
            },
            Event::Other => {
                &&& r == TextStatus::Typing
                &&& final(text)@ == old(text)@
                &&& final(editor).canvas == old(editor).canvas
                &&& final(editor).screen == old(editor).screen
            },
        },
{
    match *event {
        Event::Key(k) => {
            if (!k.modifiers.control || k.modifiers.alt) && k.kind == KeyEventKind::Press {
                match k.code {
                    KeyCode::Char(c) => {
                        text.push(c);
                        TextStatus::Typing
                    },
                    KeyCode::Backspace => {
                        if text.len() > 0 {
                            text.pop();
                        }
                        TextStatus::Typing
                    },
                    KeyCode::Enter => TextStatus::Commit,
                    KeyCode::Esc => TextStatus::Cancel,
                    _ => TextStatus::Typing,
                }
            } else {
                TextStatus::Typing
            }
        },
        Event::Resize(columns, rows) => {
            editor.resize(columns, rows);
            TextStatus::Typing
        },
        Event::Other => TextStatus::Typing,
    }
}

/// The canvas and the sticky action after a run of key events, in order.
pub open spec fn run_keys(m: CanvasModel, a: Action, keys: Seq<KeyEvent>, screen: Point) -> (
    CanvasModel,
    Action,
)
    decreases keys.len(),
{
    if keys.len() == 0 {
        (m, a)
    } else {
        let (m1, a1) = key_step(m, a, keys[0], screen);
        run_keys(m1, a1, keys.drop_first(), screen)
    }
}

/// An arrow key pressed with no modifier.
pub open spec fn is_plain_move(k: KeyEvent) -> bool {
    &&& k.kind == KeyEventKind::Press
    &&& k.modifiers.is_plain()
    &&& nav_key(k.code) is Some
}

/// The canvas after the cursor moves of a run of plain arrow presses, pixels aside.
pub open spec fn walk(m: CanvasModel, keys: Seq<KeyEvent>, screen: Point) -> CanvasModel
    decreases keys.len(),
{
    if keys.len() == 0 {
        m
    } else {
        let (axis, d) = nav_key(keys[0].code)->Some_0;
        walk(move_model(m, axis, d, screen), keys.drop_first(), screen)
    }
}

/// The pixel indices that the cursor reaches, one per plain arrow press.
pub open spec fn visited(m: CanvasModel, keys: Seq<KeyEvent>, screen: Point) -> Seq<int>
    decreases keys.len(),
{
    if keys.len() == 0 {
        Seq::empty()
    } else {
        let (axis, d) = nav_key(keys[0].code)->Some_0;
        let m1 = move_model(m, axis, d, screen);
        seq![m1.cursor_index()].add(visited(m1, keys.drop_first(), screen))
    }
}

proof fn lemma_paint_keeps_view(m: CanvasModel, a: Action, screen: Point)
    requires
        m.wf(),
    ensures
        0 <= m.cursor_index() < m.pixels.len(),
        paint_model(m, a).wf(),
        m.in_view(screen) ==> paint_model(m, a).in_view(screen),
        paint_model(m, a).span == m.span,
        paint_model(m, a).position == m.position,
        paint_model(m, a).cursor == m.cursor,
{
    crate::canvas::lemma_index_in_bounds(
        m.span.x as int,
        m.span.y as int,
        m.cursor.x as int,
        m.cursor.y as int,
    );
}

proof fn lemma_move_keeps_view(m: CanvasModel, axis: Axis, d: Direction, screen: Point)
    requires
        m.wf(),
        m.in_view(screen),
    ensures
        move_model(m, axis, d, screen).wf(),
        move_model(m, axis, d, screen).in_view(screen),
{
}

proof fn lemma_key_step_keeps_view(m: CanvasModel, a: Action, k: KeyEvent, screen: Point)
    requires
        m.wf(),
        m.in_view(screen),
    ensures
        key_step(m, a, k, screen).0.wf(),
        key_step(m, a, k, screen).0.in_view(screen),
{
    if let Some((axis, d)) = nav_key(k.code) {
        lemma_move_keeps_view(m, axis, d, screen);
        let n = navigate(m, axis, d, k.modifiers, screen);
        assert(n.wf() && n.in_view(screen));
        lemma_paint_keeps_view(n, a, screen);
        let m1 = paint_model(n, a);
        if let Some(b) = sticky_key(k.code) {
            lemma_paint_keeps_view(m1, b, screen);
        }
    } else if let Some(b) = sticky_key(k.code) {
        lemma_paint_keeps_view(m, b, screen);
    }
}

/// Whatever keys are pressed or released, the cursor stays on the canvas and
/// inside the visible window, and the window inside the canvas.
pub proof fn lemma_keys_keep_view(m: CanvasModel, a: Action, keys: Seq<KeyEvent>, screen: Point)
    requires
        m.wf(),
        m.in_view(screen),
    ensures
        run_keys(m, a, keys, screen).0.wf(),
        run_keys(m, a, keys, screen).0.in_view(screen),
    decreases keys.len(),
{
    if keys.len() > 0 {
        lemma_key_step_keeps_view(m, a, keys[0], screen);
        let (m1, a1) = key_step(m, a, keys[0], screen);
        lemma_keys_keep_view(m1, a1, keys.drop_first(), screen);
    }
}

/// `n` cursor moves towards `Start` along `axis`, without painting.
pub open spec fn moves_to_start(m: CanvasModel, axis: Axis, n: nat, screen: Point) -> CanvasModel
    decreases n,
{
    if n == 0 {
        m
    } else {
        move_model(moves_to_start(m, axis, (n - 1) as nat, screen), axis, Direction::Start, screen)
    }
}

/// From the start of the visible window, moving towards `Start` wraps to the
/// window's far end and goes on down from there: after `n` moves (one to the
/// window's width) the cursor is `n` short of the window's end, and it never
/// leaves the window or the canvas.
pub proof fn lemma_start_wraps(m: CanvasModel, axis: Axis, n: nat, screen: Point)
    requires
        m.wf(),
        m.in_view(screen),
        m.cursor.at(axis) == m.position.at(axis),
        1 <= n <= crate::canvas::window(m.span.at(axis) as int, screen.at(axis) as int),
    ensures
        moves_to_start(m, axis, n, screen).wf(),
        moves_to_start(m, axis, n, screen).in_view(screen),
        moves_to_start(m, axis, n, screen).position == m.position,
        moves_to_start(m, axis, n, screen).cursor.at(axis) == m.position.at(axis)
            + crate::canvas::window(m.span.at(axis) as int, screen.at(axis) as int) - n,
    decreases n,
{
    let prev = moves_to_start(m, axis, (n - 1) as nat, screen);
    assert(moves_to_start(m, axis, n, screen) == move_model(prev, axis, Direction::Start, screen));
    if n > 1 {
        lemma_start_wraps(m, axis, (n - 1) as nat, screen);
    } else {
        assert(prev == m);
    }
    lemma_move_keeps_view(prev, axis, Direction::Start, screen);
}

proof fn lemma_mod_step(j: int, k: int)
    requires
        j >= 1,
        k >= 1,
    ensures
        (j - 1) % k == 0 ==> (k - j % k) % k == k - 1,
        (j - 1) % k != 0 ==> (k - j % k) % k == (k - (j - 1) % k) % k - 1,
        0 <= (k - j % k) % k < k,
{
    let r = (j - 1) % k;
    let q = (j - 1) / k;
    vstd::arithmetic::div_mod::lemma_fundamental_div_mod(j - 1, k);
    assert(0 <= r < k);
    if r + 1 < k {
        vstd::arithmetic::div_mod::lemma_fundamental_div_mod_converse(j, k, q, r + 1);
        assert(j % k == r + 1);
    } else {
        assert(j == (q + 1) * k) by (nonlinear_arith)
            requires
                j - 1 == k * q + r,
                r + 1 == k,
        ;
        vstd::arithmetic::div_mod::lemma_fundamental_div_mod_converse(j, k, q + 1, 0);
        assert(j % k == 0);
    }
    vstd::arithmetic::div_mod::lemma_fundamental_div_mod_converse(k, k, 1, 0);
    if 0 < k - j % k && k - j % k < k {
        vstd::arithmetic::div_mod::lemma_fundamental_div_mod_converse(k - j % k, k, 0, k - j % k);
    }
    if 0 < k - r && k - r < k {
        vstd::arithmetic::div_mod::lemma_fundamental_div_mod_converse(k - r, k, 0, k - r);
    }
    if k == 1 {
        vstd::arithmetic::div_mod::lemma_fundamental_div_mod_converse(1, 1, 1, 0);
    }
}

/// Moving towards `Start` from the start of the visible window, over and over:
/// with `k` the window's width, after `j` moves the cursor is
/// `(k - j % k) % k` past the window's start, so it runs down from the far end
/// and is back at the start after every `k` moves; the view never changes and
/// the cursor never leaves the window or the canvas.
pub proof fn lemma_start_cycles(m: CanvasModel, axis: Axis, j: nat, screen: Point)
    requires
        m.wf(),
        m.in_view(screen),
        m.cursor.at(axis) == m.position.at(axis),
    ensures
        ({
            let k = crate::canvas::window(m.span.at(axis) as int, screen.at(axis) as int);
            let r = moves_to_start(m, axis, j, screen);
            &&& r.wf()
            &&& r.in_view(screen)
            &&& r.position == m.position
            &&& r.span == m.span
            &&& r.cursor.at(axis) == m.position.at(axis) + (k - (j as int) % k) % k
        }),
    decreases j,
{
    let k = crate::canvas::window(m.span.at(axis) as int, screen.at(axis) as int);
    if j == 0 {
        vstd::arithmetic::div_mod::lemma_fundamental_div_mod_converse(0, k, 0, 0);
        vstd::arithmetic::div_mod::lemma_fundamental_div_mod_converse(k, k, 1, 0);
    } else {
        let prev = moves_to_start(m, axis, (j - 1) as nat, screen);
        lemma_start_cycles(m, axis, (j - 1) as nat, screen);
        lemma_mod_step(j as int, k);
        lemma_move_keeps_view(prev, axis, Direction::Start, screen);
        assert(moves_to_start(m, axis, j, screen) == move_model(prev, axis, Direction::Start, screen));
        if (j - 1) % k == 0 {
            vstd::arithmetic::div_mod::lemma_fundamental_div_mod_converse(k, k, 1, 0);
            assert(prev.cursor.at(axis) == m.position.at(axis));
        }
    }
}

/// The value that a sticky draw or erase gives each pixel it reaches.
pub open spec fn paint_value(a: Action) -> bool {
    a == Action::Draw
}

/// With draw (or erase) held, a run of plain arrow presses moves the cursor
/// as the moves alone would, sets exactly the pixels the cursor reaches on
/// (or off), leaves every other pixel as it was, and keeps the action.
pub proof fn lemma_sticky_paint(m: CanvasModel, a: Action, keys: Seq<KeyEvent>, screen: Point)
    requires
        m.wf(),
        m.in_view(screen),
        a == Action::Draw || a == Action::Erase,
        forall|j: int| 0 <= j < keys.len() ==> is_plain_move(#[trigger] keys[j]),
    ensures
        ({
            let (r, b) = run_keys(m, a, keys, screen);
            let v = visited(m, keys, screen);
            &&& b == a
            &&& r.span == m.span
            &&& r.position == walk(m, keys, screen).position
            &&& r.cursor == walk(m, keys, screen).cursor
            &&& r.pixels.len() == m.pixels.len()
            &&& forall|i: int|
                0 <= i < m.pixels.len() ==> #[trigger] r.pixels[i] == if v.contains(i) {
                    paint_value(a)
                } else {
                    m.pixels[i]
                }
        }),
    decreases keys.len(),
{
    if keys.len() > 0 {
        let k = keys[0];
        assert(is_plain_move(k));
        let (axis, d) = nav_key(k.code)->Some_0;
        lemma_move_keeps_view(m, axis, d, screen);
        let n = move_model(m, axis, d, screen);
        let m1 = paint_model(n, a);
        lemma_paint_keeps_view(n, a, screen);
        assert(key_step(m, a, k, screen) == (m1, a));
        let rest = keys.drop_first();
        assert forall|j: int| 0 <= j < rest.len() implies is_plain_move(#[trigger] rest[j]) by {
            assert(rest[j] == keys[j + 1]);
        }
        lemma_sticky_paint(m1, a, rest, screen);
        lemma_walk_ignores_pixels(m1, n, rest, screen);
        let v = visited(m, keys, screen);
        let v1 = visited(n, rest, screen);
        assert(v == seq![n.cursor_index()].add(v1));
        let (r, b) = run_keys(m1, a, rest, screen);
        assert forall|i: int| 0 <= i < m.pixels.len() implies #[trigger] r.pixels[i] == if v.contains(i) {
            paint_value(a)
        } else {
            m.pixels[i]
        } by {
            if v1.contains(i) {
                let j = choose|j: int| 0 <= j < v1.len() && v1[j] == i;
                assert(v[j + 1] == i);
            } else if i == n.cursor_index() {
                assert(v[0] == i);
            } else {
                if v.contains(i) {
                    let j = choose|j: int| 0 <= j < v.len() && v[j] == i;
                    assert(j != 0);
                    assert(v1[j - 1] == i);
                }
            }
        }
    }
}

/// The cursor walk and the pixels it visits depend on the view alone, not on
/// the pixels.
proof fn lemma_walk_ignores_pixels(m1: CanvasModel, m2: CanvasModel, keys: Seq<KeyEvent>, screen: Point)
    requires
        m1.span == m2.span,
        m1.position == m2.position,
        m1.cursor == m2.cursor,
    ensures
        walk(m1, keys, screen).position == walk(m2, keys, screen).position,
        walk(m1, keys, screen).cursor == walk(m2, keys, screen).cursor,
        visited(m1, keys, screen) == visited(m2, keys, screen),
    decreases keys.len(),
{
    if keys.len() > 0 {
        let (axis, d) = nav_key(keys[0].code)->Some_0;
        lemma_walk_ignores_pixels(
            move_model(m1, axis, d, screen),
            move_model(m2, axis, d, screen),
            keys.drop_first(),
            screen,
        );
    }
}

/// Pressing the draw (or erase) key, not already in force, and then pressing
/// plain arrows: the pixel under the cursor at the press and every pixel the
/// cursor reaches afterwards are set on (or off), every other pixel is left as
/// it was, and the cursor goes where the moves alone take it.
pub proof fn lemma_press_then_moves(
    m: CanvasModel,
    a: Action,
    press: KeyEvent,
    keys: Seq<KeyEvent>,
    screen: Point,
)
    requires
        m.wf(),
        m.in_view(screen),
        press.kind == KeyEventKind::Press,
        press.code == KeyCode::Insert || press.code == KeyCode::Delete,
        sticky_key(press.code) != Some(a),
        forall|j: int| 0 <= j < keys.len() ==> is_plain_move(#[trigger] keys[j]),
    ensures
        ({
            let b = sticky_key(press.code)->Some_0;
            let (r, c) = run_keys(m, a, seq![press].add(keys), screen);
            let v = visited(m, keys, screen);
            &&& c == b
            &&& r.span == m.span
            &&& r.position == walk(m, keys, screen).position
            &&& r.cursor == walk(m, keys, screen).cursor
            &&& r.pixels.len() == m.pixels.len()
            &&& forall|i: int|
                0 <= i < m.pixels.len() ==> #[trigger] r.pixels[i] == if i == m.cursor_index()
                    || v.contains(i) {
                    paint_value(b)
                } else {
                    m.pixels[i]
                }
        }),
{
    let b = sticky_key(press.code)->Some_0;
    let all = seq![press].add(keys);
    assert(all[0] == press);
    assert(all.drop_first() =~= keys);
    lemma_paint_keeps_view(m, b, screen);
    let m1 = paint_model(m, b);
    assert(key_step(m, a, press, screen) == (m1, b));
    assert(run_keys(m, a, all, screen) == run_keys(m1, b, keys, screen));
    lemma_sticky_paint(m1, b, keys, screen);
    lemma_walk_ignores_pixels(m1, m, keys, screen);
}

/// Releasing the key of the action in force ends it and changes nothing else:
/// what follows runs as from no action at all.
pub proof fn lemma_release_ends(
    m: CanvasModel,
    a: Action,
    release: KeyEvent,
    keys: Seq<KeyEvent>,
    screen: Point,
)
    requires
        release.kind == KeyEventKind::Release,
        sticky_key(release.code) == Some(a),
    ensures
        run_keys(m, a, seq![release].add(keys), screen) == run_keys(m, Action::Idle, keys, screen),
{
    let all = seq![release].add(keys);
    assert(all[0] == release);
    assert(all.drop_first() =~= keys);
}

/// Releasing a sticky key other than the one in force leaves the action and
/// the canvas as they were.
pub proof fn lemma_other_release_keeps(m: CanvasModel, a: Action, release: KeyEvent, screen: Point)
    requires
        release.kind == KeyEventKind::Release,
        sticky_key(release.code) != Some(a),
    ensures
        key_step(m, a, release, screen) == (m, a),
{
}

/// An arrow pressed with modifiers other than none or Control alone is
/// reserved: the canvas and the action stay as they were.
pub proof fn lemma_reserved_arrow_ignored(m: CanvasModel, a: Action, k: KeyEvent, screen: Point)
    requires
        k.kind == KeyEventKind::Press,
        nav_key(k.code) is Some,
        !k.modifiers.is_plain(),
        !k.modifiers.is_control(),
    ensures
        key_step(m, a, k, screen) == (m, a),
{
}

} // verus!
