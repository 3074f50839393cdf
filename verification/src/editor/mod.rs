//! A terminal text editor: a buffer of lines, a cursor in terminal
//! coordinates, and the bookkeeping that keeps the two in step as characters
//! are typed and the cursor is moved.
//!
//! The editor never talks to the terminal itself. It is handed the terminal's
//! sizes, and it answers with the commands that bring the screen up to date.
use vstd::prelude::*;

verus! {

/// A direction of cursor movement.
#[derive(Clone, Copy, PartialEq, Eq, Structural)]
pub enum Direction {
    Up,
    Down,
    Left,
    Right,
    Unknown,
}

/// The size of the terminal window in character cells: columns and rows.
#[derive(Clone, Copy, PartialEq, Eq, Structural)]
pub struct WindowSize {
    pub width: u16,
    pub height: u16,
}

/// One character of the buffer.
struct Char {
    content: char,
}

impl Char {
    fn new(content: char) -> (r: Self)
        ensures
            r.content == content,
    {
        Self { content }
    }
}

/// One line of the buffer.
struct Line {
    content: Vec<Char>,
    is_active: bool,
}

/// The characters of a line.
spec fn line_chars(l: Line) -> Seq<char> {
    l.content@.map_values(|c: Char| c.content)
}

/// The column at which line `k` of the buffer begins: the first line begins
/// at the start column, every later line at column 0.
pub open spec fn line_first_col(k: int, start_col: u16) -> int {
    if k == 0 {
        start_col as int
    } else {
        0
    }
}

/// How many terminal rows a line of `len` characters occupies when it
/// begins at column `first_col`: the cells up to its end divided by the
/// window width, rounded up; an empty line still takes its one row.
pub open spec fn line_rows(len: nat, first_col: int, w: WindowSize) -> int {
    let cells = first_col + len;
    let r = cells / (w.width as int) + (if cells % (w.width as int) != 0 {
        1int
    } else {
        0int
    });
    if r == 0 {
        1
    } else {
        r
    }
}

/// `line_rows` can be computed without dividing by zero and fits in `u16`.
pub open spec fn line_rows_ok(len: nat, first_col: int, w: WindowSize) -> bool {
    w.width > 0 && line_rows(len, first_col, w) <= u16::MAX
}

/// A count of cells whose quotient by a 16-bit width fits in 16 bits is
/// below 2^32.
proof fn lemma_cells_bound(cells: int, width: int)
    requires
        cells >= 0,
        1 <= width <= 65535,
        cells / width <= 65535,
    ensures
        cells < 65536 * 65535,
{
    let q = cells / width;
    let r = cells % width;
    assert(cells == width * q + r && 0 <= r < width) by (nonlinear_arith)
        requires
            width > 0,
            q == cells / width,
            r == cells % width,
    ;
    assert(width * q + r < 65536 * 65535) by (nonlinear_arith)
        requires
            1 <= width <= 65535,
            0 <= q <= 65535,
            0 <= r < width,
    ;
}

/// The rows a line of `len` characters occupies when it begins at column
/// `first_col`, or `None` when the width is zero or the count does not fit
/// in `u16`.
fn rows_for(len: usize, first_col: u16, w: WindowSize) -> (r: Option<u16>)
    ensures
        r is Some <==> line_rows_ok(len as nat, first_col as int, w),
        r matches Some(x) ==> x == line_rows(len as nat, first_col as int, w),
{
    if w.width == 0 {
        return None;
    }
    let len64 = len as u64;
    let ghost cells_spec: int = first_col as int + len as int;
    if len64 > 0xFFFF_FFFF {
        proof {
            if cells_spec / (w.width as int) <= 65535 {
                lemma_cells_bound(cells_spec, w.width as int);
            }
        }
        return None;
    }
    let cells: u64 = first_col as u64 + len64;
    let width = w.width as u64;
    let q: u64 = cells / width;
    let rows: u64 = if cells % width != 0 {
        q + 1
    } else {
        q
    };
    let rows: u64 = if rows == 0 {
        1
    } else {
        rows
    };
    if rows > 65535 {
        None
    } else {
        Some(rows as u16)
    }
}

/// Whether a position in a line, which may lie before its start, is at or
/// past the end of a line of `len` characters.
fn reaches(index: i64, len: usize) -> (r: bool)
    ensures
        r == (index >= len),
{
    if index < 0 {
        false
    } else {
        index as u64 >= len as u64
    }
}

/// Whether a position lies within a line of `len` characters, its end
/// included.
fn within(index: i64, len: usize) -> (r: bool)
    ensures
        r == (0 <= index <= len),
{
    if index < 0 {
        false
    } else {
        index as u64 <= len as u64
    }
}

impl Line {
    fn new() -> (r: Self)
        ensures
            line_chars(r) == Seq::<char>::empty(),
            !r.is_active,
    {
        let r = Self { content: Vec::new(), is_active: false };
        assert(line_chars(r) =~= Seq::<char>::empty());
        r
    }

    /// The characters of the line as a string.
    fn text(&self) -> (r: String)
        ensures
            r@ == line_chars(*self),
    {
        let mut out = String::new();
        let n = self.content.len();
        for i in 0..n
            invariant
                n == self.content@.len(),
                out@ == line_chars(*self).take(i as int),
        {
            crate::text::push_char(&mut out, self.content[i].content);
            assert(line_chars(*self).take(i as int + 1) =~= line_chars(*self).take(i as int).push(
                self.content@[i as int].content,
            ));
        }
        assert(line_chars(*self).take(n as int) =~= line_chars(*self));
        out
    }

    /// How many terminal rows the line occupies in a window of the given
    /// size when it begins at column `first_col`.
    fn calculate_lines(&self, first_col: u16, window: WindowSize) -> (r: u16)
        requires
            line_rows_ok(self.content@.len(), first_col as int, window),
        ensures
            r == line_rows(self.content@.len(), first_col as int, window),
    {
        rows_for(self.content.len(), first_col, window).unwrap()
    }
}

/// The abstract state of the editor.
pub struct EditorView {
    pub lines: Seq<Seq<char>>,
    pub cursor_row: u16,
    pub cursor_col: u16,
    pub start_row: u16,
    pub start_col: u16,
    pub terminal_scroll_distance: i16,
    pub terminal_width: u16,
    pub terminal_height: u16,
    pub start_cursor_margin_top: i16,
}

/// The outcome of looking up the buffer line under the cursor row.
pub enum LineLookup {
    /// Line `index` occupies the cursor row; its first row is `start`.
    Found { index: int, start: int },
    /// No line occupies the cursor row.
    NotFound,
    /// The count of rows cannot be computed within the integer types.
    Fails,
}

/// Moves the index of a lookup made on a suffix of the lines by `k`.
pub open spec fn shift_lookup(r: LineLookup, k: int) -> LineLookup {
    match r {
        LineLookup::Found { index, start } => LineLookup::Found { index: index + k, start },
        other => other,
    }
}

/// Walks the lines in order from terminal row `total`, where the first of
/// them begins at column `first_col` and every later one at column 0. Each
/// line occupies the rows from where it starts up to, not including, the
/// row where the next one starts; the walk stops at the line whose rows
/// hold `target`.
pub open spec fn scan_lines(lines: Seq<Seq<char>>, first_col: int, total: int, target: int, w: WindowSize) -> LineLookup
    decreases lines.len(),
{
    if lines.len() == 0 {
        LineLookup::NotFound
    } else if !line_rows_ok(lines[0].len(), first_col, w) {
        LineLookup::Fails
    } else {
        let t = total + (line_rows(lines[0].len(), first_col, w) as u16 as i16);
        if !(i16::MIN <= t <= i16::MAX) {
            LineLookup::Fails
        } else if target < t {
            LineLookup::Found { index: 0, start: total }
        } else {
            shift_lookup(scan_lines(lines.subrange(1, lines.len() as int), 0, t, target, w), 1)
        }
    }
}

/// The lookup of the line under the cursor, counting rows from the margin
/// between the start position and the top of the terminal; the first line
/// begins at the start column.
pub open spec fn lookup_cursor_line(v: EditorView, w: WindowSize) -> LineLookup {
    scan_lines(v.lines, v.start_col as int, v.start_cursor_margin_top as int, v.cursor_row as i16 as int, w)
}

/// The buffer line under the cursor and the terminal row where it starts,
/// as 16-bit values; `(0, 0)` when no line occupies the cursor row.
pub open spec fn line_at_cursor(v: EditorView, w: WindowSize) -> (u16, u16) {
    match lookup_cursor_line(v, w) {
        LineLookup::Found { index, start } => (index as u16, start as u16),
        _ => (0, 0),
    }
}

/// One step of the scan: on a non-empty suffix, the scan looks at the first
/// line of the suffix and goes on with the suffix one shorter.
proof fn lemma_scan_step(lines: Seq<Seq<char>>, k: int, total: int, target: int, w: WindowSize)
    requires
        0 <= k < lines.len(),
    ensures
        lines.subrange(k, lines.len() as int)[0] == lines[k],
        lines.subrange(k, lines.len() as int).subrange(1, lines.len() - k) =~= lines.subrange(
            k + 1,
            lines.len() as int,
        ),
{
}

/// The cursor steps one column right after a character is typed: past the
/// last column it goes to the start of the next row, or, on the last row,
/// the terminal is marked to scroll by one row.
pub open spec fn auto_moved(v: EditorView) -> EditorView {
    if v.cursor_col == v.terminal_width - 1 {
        if v.cursor_row == v.terminal_height - 1 {
            EditorView { cursor_col: 0, terminal_scroll_distance: 1, ..v }
        } else {
            EditorView { cursor_col: 0, cursor_row: (v.cursor_row + 1) as u16, ..v }
        }
    } else {
        EditorView { cursor_col: (v.cursor_col + 1) as u16, ..v }
    }
}

/// `auto_moved` stays within the integer types.
pub open spec fn auto_move_ok(v: EditorView) -> bool {
    &&& v.terminal_width >= 1
    &&& if v.cursor_col == v.terminal_width - 1 {
        &&& v.terminal_height >= 1
        &&& v.cursor_row != v.terminal_height - 1 ==> v.cursor_row < u16::MAX
    } else {
        v.cursor_col < u16::MAX
    }
}

/// The state with a first, empty line when the buffer is empty.
pub open spec fn with_first_line(v: EditorView) -> EditorView {
    if v.lines.len() == 0 {
        EditorView { lines: seq![Seq::<char>::empty()], ..v }
    } else {
        v
    }
}

/// The position in line `index`, counted in characters, of the cell under
/// the cursor, when that line's first row is `start`: the rows above the
/// cursor row times the width, plus the cursor column, less the column at
/// which the line begins.
pub open spec fn offset_in_line(v: EditorView, index: int, start: u16) -> int {
    (v.cursor_row - start) * v.terminal_width + v.cursor_col - line_first_col(index, v.start_col)
}

/// Where in its line a typed character goes.
pub open spec fn insert_offset(v: EditorView, w: WindowSize) -> int {
    let p = with_first_line(v);
    let (index, start) = line_at_cursor(p, w);
    offset_in_line(p, index as int, start)
}

/// Typing a character can be carried out: the rows of the lines can be
/// counted, the position under the cursor lies within its line (at its end
/// at the latest), and the cursor can step on.
pub open spec fn insert_char_ok(v: EditorView, w: WindowSize) -> bool {
    let p = with_first_line(v);
    let (index, start) = line_at_cursor(p, w);
    &&& !(lookup_cursor_line(p, w) is Fails)
    &&& index < p.lines.len()
    &&& 0 <= insert_offset(v, w) <= p.lines[index as int].len()
    &&& auto_move_ok(p)
}

/// The state after typing `c`: the character is put into the line under the
/// cursor at `insert_offset`, and the cursor steps on.
pub open spec fn inserted_char(v: EditorView, c: char, w: WindowSize) -> EditorView {
    let p = with_first_line(v);
    let (index, start) = line_at_cursor(p, w);
    auto_moved(
        EditorView {
            lines: p.lines.update(index as int, p.lines[index as int].insert(insert_offset(v, w), c)),
            ..p
        },
    )
}

/// The position under the cursor within its line, counted in characters.
pub open spec fn right_index(v: EditorView, w: WindowSize) -> int {
    let (row, start) = line_at_cursor(v, w);
    offset_in_line(v, row as int, start)
}

/// Moving right can be carried out within the integer types and the buffer.
pub open spec fn move_right_ok(v: EditorView, w: WindowSize) -> bool {
    let (row, start) = line_at_cursor(v, w);
    &&& !(lookup_cursor_line(v, w) is Fails)
    &&& row < v.lines.len()
    &&& if right_index(v, w) >= v.lines[row as int].len() {
        v.lines.len() - 1 > row ==> {
            &&& v.terminal_height >= 1
            &&& if v.cursor_row == v.terminal_height - 1 {
                v.start_row >= 1
            } else {
                v.cursor_row < u16::MAX
            }
        }
    } else {
        v.cursor_col < u16::MAX
    }
}

/// A cursor move can be carried out.
pub open spec fn move_ok(v: EditorView, d: Direction, w: WindowSize) -> bool {
    match d {
        Direction::Right => move_right_ok(v, w),
        _ => true,
    }
}

/// The cursor is at the left boundary of the content: in the first column,
/// or on the row where the first line begins at or before its start column.
pub open spec fn at_left_boundary(v: EditorView) -> bool {
    v.cursor_col == 0 || (v.cursor_row as int == v.start_cursor_margin_top as int
        && v.cursor_col <= v.start_col)
}

/// The state after a cursor move. Left steps one column back, unless the
/// cursor is at the left boundary, where it stays. Right steps one column on
/// while the cursor is within its line; at the end of a line that has a
/// line after it, the cursor goes to the start of the next row (on the last
/// row the terminal is marked to scroll and the start row moves up); at the
/// end of the last line nothing moves. Up, down and unknown moves change
/// nothing.
pub open spec fn moved(v: EditorView, d: Direction, w: WindowSize) -> EditorView {
    match d {
        Direction::Left => if at_left_boundary(v) {
            v
        } else {
            EditorView { cursor_col: (v.cursor_col - 1) as u16, ..v }
        },
        Direction::Right => {
            let (row, start) = line_at_cursor(v, w);
            if right_index(v, w) >= v.lines[row as int].len() {
                if v.lines.len() - 1 > row {
                    if v.cursor_row == v.terminal_height - 1 {
                        EditorView {
                            cursor_col: 0,
                            terminal_scroll_distance: 1,
                            start_row: (v.start_row - 1) as u16,
                            ..v
                        }
                    } else {
                        EditorView { cursor_col: 0, cursor_row: (v.cursor_row + 1) as u16, ..v }
                    }
                } else {
                    v
                }
            } else {
                EditorView { cursor_col: (v.cursor_col + 1) as u16, ..v }
            }
        },
        _ => v,
    }
}

/// A command for the terminal.
#[derive(Debug, PartialEq, Eq)]
pub enum TerminalCommand {
    MoveTo(u16, u16),
    ClearFromCursorDown,
    MoveUp(u16),
    MoveDown(u16),
    Print(String),
}

/// A terminal command with its text as characters.
pub enum CommandView {
    MoveTo(u16, u16),
    ClearFromCursorDown,
    MoveUp(u16),
    MoveDown(u16),
    Print(Seq<char>),
}

impl View for TerminalCommand {
    type V = CommandView;

    open spec fn view(&self) -> CommandView {
        match self {
            TerminalCommand::MoveTo(c, r) => CommandView::MoveTo(*c, *r),
            TerminalCommand::ClearFromCursorDown => CommandView::ClearFromCursorDown,
            TerminalCommand::MoveUp(n) => CommandView::MoveUp(*n),
            TerminalCommand::MoveDown(n) => CommandView::MoveDown(*n),
            TerminalCommand::Print(s) => CommandView::Print(s@),
        }
    }
}

/// A list of commands as views.
pub open spec fn commands_view(cmds: Seq<TerminalCommand>) -> Seq<CommandView> {
    cmds.map_values(|c: TerminalCommand| c@)
}

/// Drawing one line that begins at column `first_col`: when its rows,
/// counted from the cursor row, reach past the bottom of the terminal, the
/// output first moves up by the overflow plus one and the scroll distance
/// goes down by as much; then the line is printed. The result is the
/// commands and the new scroll distance.
pub open spec fn render_line(line: Seq<char>, first_col: int, cursor_row: u16, height: u16, scroll: int, w: WindowSize) -> (Seq<CommandView>, int) {
    let lc = line_rows(line.len(), first_col, w);
    if lc + cursor_row >= height {
        let d = lc + cursor_row - height;
        (
            seq![CommandView::MoveUp((d + 1) as u16), CommandView::Print(line)],
            scroll - (d as u16 as i16) - 1,
        )
    } else {
        (seq![CommandView::Print(line)], scroll)
    }
}

/// `render_line` stays within the integer types.
pub open spec fn render_line_ok(line: Seq<char>, first_col: int, cursor_row: u16, height: u16, scroll: int, w: WindowSize) -> bool {
    let lc = line_rows(line.len(), first_col, w);
    &&& line_rows_ok(line.len(), first_col, w)
    &&& lc + cursor_row <= u16::MAX
    &&& lc + cursor_row >= height ==> {
        let d = lc + cursor_row - height;
        &&& d + 1 <= u16::MAX
        &&& i16::MIN <= scroll - (d as u16 as i16) <= i16::MAX
        &&& i16::MIN <= scroll - (d as u16 as i16) - 1 <= i16::MAX
    }
}

/// Drawing the lines in order, the first of them beginning at `start_col`:
/// the commands and the final scroll distance.
pub open spec fn render_lines(lines: Seq<Seq<char>>, start_col: u16, cursor_row: u16, height: u16, scroll: int, w: WindowSize) -> (Seq<CommandView>, int)
    decreases lines.len(),
{
    if lines.len() == 0 {
        (seq![], scroll)
    } else {
        let prev = render_lines(lines.drop_last(), start_col, cursor_row, height, scroll, w);
        let step = render_line(
            lines.last(),
            line_first_col(lines.len() - 1, start_col),
            cursor_row,
            height,
            prev.1,
            w,
        );
        (prev.0 + step.0, step.1)
    }
}

/// `render_lines` stays within the integer types.
pub open spec fn render_lines_ok(lines: Seq<Seq<char>>, start_col: u16, cursor_row: u16, height: u16, scroll: int, w: WindowSize) -> bool
    decreases lines.len(),
{
    lines.len() == 0 || (render_lines_ok(lines.drop_last(), start_col, cursor_row, height, scroll, w)
        && render_line_ok(
        lines.last(),
        line_first_col(lines.len() - 1, start_col),
        cursor_row,
        height,
        render_lines(lines.drop_last(), start_col, cursor_row, height, scroll, w).1,
        w,
    ))
}

/// Drawing a frame can be carried out within the integer types.
pub open spec fn frame_ok(v: EditorView, w: WindowSize) -> bool {
    &&& v.terminal_scroll_distance != i16::MIN
    &&& render_lines_ok(
        v.lines,
        v.start_col,
        v.cursor_row,
        v.terminal_height,
        v.terminal_scroll_distance as int,
        w,
    )
}

/// The move that carries out a pending scroll: up when it is positive, down
/// when it is negative, none when it is zero.
pub open spec fn scroll_commands(s: i16) -> Seq<CommandView> {
    if s > 0 {
        seq![CommandView::MoveUp(s as u16)]
    } else if s < 0 {
        seq![CommandView::MoveDown((-s) as u16)]
    } else {
        seq![]
    }
}

/// The commands of a frame: the pending scroll (up when positive, down when
/// negative), a move to the start position, a clear of everything below it,
/// every line, and a move to the cursor.
pub open spec fn frame_commands(v: EditorView, w: WindowSize) -> Seq<CommandView> {
    let s = v.terminal_scroll_distance;
    scroll_commands(s) + seq![CommandView::MoveTo(v.start_col, v.start_row), CommandView::ClearFromCursorDown]
        + render_lines(v.lines, v.start_col, v.cursor_row, v.terminal_height, s as int, w).0 + seq![
        CommandView::MoveTo(v.cursor_col, v.cursor_row),
    ]
}

/// The render of a prefix of the lines fits whenever the render of all of
/// them does.
proof fn lemma_render_ok_prefix(lines: Seq<Seq<char>>, k: int, start_col: u16, cursor_row: u16, height: u16, scroll: int, w: WindowSize)
    requires
        0 <= k <= lines.len(),
        render_lines_ok(lines, start_col, cursor_row, height, scroll, w),
    ensures
        render_lines_ok(lines.take(k), start_col, cursor_row, height, scroll, w),
    decreases lines.len() - k,
{
    if k == lines.len() {
        assert(lines.take(k) =~= lines);
    } else {
        assert(lines.take(lines.len() as int).drop_last() =~= lines.drop_last());
        assert(lines.take(lines.len() as int) =~= lines);
        assert(lines.drop_last().take(k) =~= lines.take(k));
        lemma_render_ok_prefix(lines.drop_last(), k, start_col, cursor_row, height, scroll, w);
    }
}

/// A key press, as the editor sees it.
#[derive(Clone, Copy, PartialEq, Eq, Structural)]
pub enum EditorKey {
    /// A character key; `control_only` is set when Control, and no other
    /// modifier, was held.
    Char { c: char, control_only: bool },
    Up,
    Down,
    Left,
    Right,
    /// Any other key.
    Other,
}

/// What a key press asks of the editor.
#[derive(Clone, Copy, PartialEq, Eq, Structural)]
pub enum KeyAction {
    Quit,
    Insert(char),
    Move(Direction),
    Ignore,
}

/// The direction of an arrow key; `Unknown` for every other key.
pub open spec fn spec_direction_of(key: EditorKey) -> Direction {
    match key {
        EditorKey::Up => Direction::Up,
        EditorKey::Down => Direction::Down,
        EditorKey::Left => Direction::Left,
        EditorKey::Right => Direction::Right,
        _ => Direction::Unknown,
    }
}

/// Control-C quits; any other character key types its character; an arrow
/// key moves the cursor; every other key is ignored.
pub open spec fn spec_key_action(key: EditorKey) -> KeyAction {
    match key {
        EditorKey::Char { c, control_only } => if c == 'c' && control_only {
            KeyAction::Quit
        } else {
            KeyAction::Insert(c)
        },
        EditorKey::Up | EditorKey::Down | EditorKey::Left | EditorKey::Right => KeyAction::Move(
            spec_direction_of(key),
        ),
        EditorKey::Other => KeyAction::Ignore,
    }
}

/// The direction of an arrow key; `Unknown` for every other key.
pub fn direction_of(key: EditorKey) -> (r: Direction)
    ensures
        r == spec_direction_of(key),
{
    match key {
        EditorKey::Up => Direction::Up,
        EditorKey::Down => Direction::Down,
        EditorKey::Left => Direction::Left,
        EditorKey::Right => Direction::Right,
        _ => Direction::Unknown,
    }
}

/// What a key press asks of the editor.
pub fn key_action(key: EditorKey) -> (r: KeyAction)
    ensures
        r == spec_key_action(key),
{
    match key {
        EditorKey::Char { c, control_only } => {
            if c == 'c' && control_only {
                KeyAction::Quit
            } else {
                KeyAction::Insert(c)
            }
        },
        EditorKey::Up | EditorKey::Down | EditorKey::Left | EditorKey::Right => KeyAction::Move(
            direction_of(key),
        ),
        EditorKey::Other => KeyAction::Ignore,
    }
}

/// What handling a key press led to.
#[derive(Debug, PartialEq, Eq)]
pub enum KeyOutcome {
    /// The key asks to quit; the editor is left as it was.
    Quit,
    /// The commands that draw the frame after the key was handled.
    Frame(Vec<TerminalCommand>),
    /// The key's action cannot be carried out at the cursor; nothing changed.
    CannotApply,
    /// The key's action was carried out, but the frame cannot be drawn.
    CannotDraw,
}

/// The action a key asks for can be carried out: typing where a character
/// can be placed, moving where the cursor can move; other keys always.
pub open spec fn key_applicable(v: EditorView, key: EditorKey, w: WindowSize) -> bool {
    match spec_key_action(key) {
        KeyAction::Insert(c) => insert_char_ok(v, w),
        KeyAction::Move(d) => move_ok(v, d, w),
        _ => true,
    }
}

/// The state after the action a key asks for: a typed character, a cursor
/// move, or no change.
pub open spec fn key_applied(v: EditorView, key: EditorKey, w: WindowSize) -> EditorView {
    match spec_key_action(key) {
        KeyAction::Insert(c) => inserted_char(v, c, w),
        KeyAction::Move(d) => moved(v, d, w),
        _ => v,
    }
}

/// A render that fails on the line after a prefix fails for the whole list.
proof fn lemma_not_ok_extends(lines: Seq<Seq<char>>, i: int, start_col: u16, cursor_row: u16, height: u16, scroll: int, w: WindowSize)
    requires
        0 <= i < lines.len(),
        !render_line_ok(
            lines[i],
            line_first_col(i, start_col),
            cursor_row,
            height,
            render_lines(lines.take(i), start_col, cursor_row, height, scroll, w).1,
            w,
        ),
    ensures
        !render_lines_ok(lines, start_col, cursor_row, height, scroll, w),
{
    assert(lines.take(i + 1).drop_last() =~= lines.take(i));
    assert(lines.take(i + 1).last() == lines[i]);
    assert(!render_lines_ok(lines.take(i + 1), start_col, cursor_row, height, scroll, w));
    if render_lines_ok(lines, start_col, cursor_row, height, scroll, w) {
        lemma_render_ok_prefix(lines, i + 1, start_col, cursor_row, height, scroll, w);
    }
}

/// The number of characters in all the lines.
pub open spec fn total_chars(lines: Seq<Seq<char>>) -> int
    decreases lines.len(),
{
    if lines.len() == 0 {
        0
    } else {
        total_chars(lines.drop_last()) + lines.last().len()
    }
}

/// Replacing one line changes the character count by the difference in the
/// line's length.
pub proof fn lemma_total_chars_update(lines: Seq<Seq<char>>, i: int, l: Seq<char>)
    requires
        0 <= i < lines.len(),
    ensures
        total_chars(lines.update(i, l)) == total_chars(lines) - lines[i].len() + l.len(),
    decreases lines.len(),
{
    let u = lines.update(i, l);
    if i == lines.len() - 1 {
        assert(u.drop_last() =~= lines.drop_last());
    } else {
        lemma_total_chars_update(lines.drop_last(), i, l);
        assert(u.drop_last() =~= lines.drop_last().update(i, l));
    }
}

/// Typing a character adds exactly one character to the buffer, and it
/// lands in the line under the cursor at the insert position.
pub proof fn law_insert_adds_one_char(v: EditorView, c: char, w: WindowSize)
    requires
        insert_char_ok(v, w),
    ensures
        total_chars(inserted_char(v, c, w).lines) == total_chars(v.lines) + 1,
        inserted_char(v, c, w).lines[line_at_cursor(with_first_line(v), w).0 as int][insert_offset(
            v,
            w,
        )] == c,
        inserted_char(v, c, w).lines.len() == with_first_line(v).lines.len(),
{
    let p = with_first_line(v);
    let (index, start) = line_at_cursor(p, w);
    let line = p.lines[index as int];
    let new_line = line.insert(insert_offset(v, w), c);
    lemma_total_chars_update(p.lines, index as int, new_line);
    if v.lines.len() == 0 {
        assert(total_chars(p.lines) == total_chars(p.lines.drop_last()) + 0);
        assert(p.lines.drop_last() =~= Seq::<Seq<char>>::empty());
    }
}

/// A cursor inside the window stays inside it when it steps on after a
/// typed character: the step can always be taken, the column stays below
/// the width and the row below the height.
pub proof fn law_auto_move_keeps_cursor_in_window(v: EditorView)
    requires
        v.cursor_col < v.terminal_width,
        v.cursor_row < v.terminal_height,
    ensures
        auto_move_ok(v),
        auto_moved(v).cursor_col < v.terminal_width,
        auto_moved(v).cursor_row < v.terminal_height,
        auto_moved(v).terminal_width == v.terminal_width,
        auto_moved(v).terminal_height == v.terminal_height,
{
}

/// Setting the cursor and reading it back gives the position that was set.
pub proof fn law_cursor_read_after_write(v: EditorView, position: (u16, u16))
    ensures
        ({
            let after = EditorView { cursor_col: position.0, cursor_row: position.1, ..v };
            (after.cursor_col, after.cursor_row) == position
        }),
{
}

/// At the end of the last line, moving right changes nothing.
pub proof fn law_right_at_end_of_buffer_stays(v: EditorView, w: WindowSize)
    requires
        move_right_ok(v, w),
        line_at_cursor(v, w).0 == v.lines.len() - 1,
        right_index(v, w) >= v.lines[line_at_cursor(v, w).0 as int].len(),
    ensures
        moved(v, Direction::Right, w) == v,
{
}

/// At the left boundary, moving left changes nothing; elsewhere it takes
/// the cursor exactly one column back and leaves everything else as it was.
pub proof fn law_left_stays_at_boundary(v: EditorView, w: WindowSize)
    ensures
        move_ok(v, Direction::Left, w),
        at_left_boundary(v) ==> moved(v, Direction::Left, w) == v,
        !at_left_boundary(v) ==> moved(v, Direction::Left, w) == (EditorView {
            cursor_col: (v.cursor_col - 1) as u16,
            ..v
        }),
{
}

/// A line that begins at column `first_col` occupies the fewest rows that
/// hold all its cells: the rows before the last one do not reach its end,
/// and the last one does; an empty line at column 0 still takes one row.
pub proof fn law_line_rows_cover_the_line(len: nat, first_col: int, w: WindowSize)
    requires
        w.width > 0,
        first_col >= 0,
    ensures
        first_col + len == 0 ==> line_rows(len, first_col, w) == 1,
        first_col + len > 0 ==> (line_rows(len, first_col, w) - 1) * w.width < first_col + len
            <= line_rows(len, first_col, w) * w.width,
{
    let cells = first_col + len;
    let wd = w.width as int;
    let q = cells / wd;
    let r = cells % wd;
    assert(cells == q * wd + r && 0 <= r < wd && q >= 0) by (nonlinear_arith)
        requires
            wd > 0,
            cells >= 0,
            q == cells / wd,
            r == cells % wd,
    ;
    if cells > 0 {
        if r != 0 {
            assert(line_rows(len, first_col, w) == q + 1);
            assert(q * wd < cells <= (q + 1) * wd) by (nonlinear_arith)
                requires
                    cells == q * wd + r,
                    0 < r < wd,
            ;
        } else {
            assert(q >= 1) by (nonlinear_arith)
                requires
                    cells == q * wd,
                    cells > 0,
                    wd > 0,
            ;
            assert(line_rows(len, first_col, w) == q);
            assert((q - 1) * wd < cells <= q * wd) by (nonlinear_arith)
                requires
                    cells == q * wd,
                    wd > 0,
            ;
        }
    } else {
        assert(q == 0 && r == 0) by (nonlinear_arith)
            requires
                cells == q * wd + r,
                0 <= r < wd,
                q >= 0,
                cells == 0,
        ;
    }
}

/// Two row counts that both hold exactly the cells of a line are equal.
proof fn lemma_row_count_unique(cells: int, width: int, a: int, b: int)
    requires
        width > 0,
        cells > 0,
        (a - 1) * width < cells <= a * width,
        (b - 1) * width < cells <= b * width,
    ensures
        a == b,
{
    if a < b {
        assert(a * width <= (b - 1) * width) by (nonlinear_arith)
            requires
                a <= b - 1,
                width > 0,
        ;
    }
    if b < a {
        assert(b * width <= (a - 1) * width) by (nonlinear_arith)
            requires
                b <= a - 1,
                width > 0,
        ;
    }
}

/// Drawing a line whose `rows` rows, counted from the cursor row, reach the
/// bottom of the terminal first moves up by the overflow plus one, that is
/// by `rows + cursor_row - height + 1`, and then prints the line; the scroll
/// distance goes down by as much. A line that stays above the bottom is
/// printed with no move and leaves the scroll distance as it was. Here
/// `rows` is any count that holds exactly the line's cells.
pub proof fn law_render_line_moves_up_by_the_overflow(
    line: Seq<char>,
    first_col: int,
    cursor_row: u16,
    height: u16,
    scroll: int,
    w: WindowSize,
    rows: int,
)
    requires
        w.width > 0,
        first_col >= 0,
        rows >= 1,
        (first_col + line.len() == 0 && rows == 1) || ((rows - 1) * w.width < first_col + line.len()
            <= rows * w.width),
    ensures
        rows + cursor_row >= height ==> render_line(line, first_col, cursor_row, height, scroll, w).0
            == seq![CommandView::MoveUp((rows + cursor_row - height + 1) as u16), CommandView::Print(line)],
        rows + cursor_row >= height && rows + cursor_row - height <= i16::MAX ==> render_line(
            line,
            first_col,
            cursor_row,
            height,
            scroll,
            w,
        ).1 == scroll - (rows + cursor_row - height) - 1,
        rows + cursor_row < height ==> render_line(line, first_col, cursor_row, height, scroll, w)
            == (seq![CommandView::Print(line)], scroll),
{
    law_line_rows_cover_the_line(line.len(), first_col, w);
    let lc = line_rows(line.len(), first_col, w);
    if first_col + line.len() > 0 {
        lemma_row_count_unique(first_col + line.len(), w.width as int, lc, rows);
    }
    assert(lc == rows);
}

/// The position under the cursor that a move right reads is the position
/// in its line whose cell the cursor stands on: counted from where the line
/// begins, it lies `cursor_row - start` whole rows and `cursor_col` columns
/// into the line's rows.
pub proof fn law_right_index_is_the_cursor_cell(v: EditorView, w: WindowSize, index: int, start: int)
    requires
        lookup_cursor_line(v, w) == (LineLookup::Found { index, start }),
        0 <= index <= u16::MAX,
        0 <= start <= v.cursor_row,
        v.cursor_col < v.terminal_width,
    ensures
        ({
            let fc = if index == 0 {
                v.start_col as int
            } else {
                0
            };
            let k = right_index(v, w);
            &&& (fc + k) / (v.terminal_width as int) == v.cursor_row - start
            &&& (fc + k) % (v.terminal_width as int) == v.cursor_col
        }),
{
    let fc = if index == 0 {
        v.start_col as int
    } else {
        0
    };
    assert(line_at_cursor(v, w) == (index as u16, start as u16));
    let k = right_index(v, w);
    assert(fc + k == (v.cursor_row - start) * v.terminal_width + v.cursor_col);
    vstd::arithmetic::div_mod::lemma_fundamental_div_mod_converse(
        fc + k,
        v.terminal_width as int,
        v.cursor_row - start,
        v.cursor_col as int,
    );
}

/// A move right goes by where the cursor stands in its line, counted across
/// the line's rows: before the end of the line the cursor steps one column
/// on; at the end of the last line (just after its last character) nothing
/// moves.
pub proof fn law_right_move_by_position_in_line(v: EditorView, w: WindowSize, index: int, start: int)
    requires
        lookup_cursor_line(v, w) == (LineLookup::Found { index, start }),
        0 <= index < v.lines.len(),
        index <= u16::MAX,
        0 <= start <= v.cursor_row,
    ensures
        ({
            let fc = if index == 0 {
                v.start_col as int
            } else {
                0
            };
            let pos = (v.cursor_row - start) * v.terminal_width + v.cursor_col - fc;
            &&& pos < v.lines[index].len() ==> moved(v, Direction::Right, w) == (EditorView {
                cursor_col: (v.cursor_col + 1) as u16,
                ..v
            })
            &&& pos >= v.lines[index].len() && index == v.lines.len() - 1 ==> moved(
                v,
                Direction::Right,
                w,
            ) == v
        }),
{
    assert(line_at_cursor(v, w) == (index as u16, start as u16));
}

/// A move left steps one column back everywhere but at the left edge of the
/// text: in column 0, or on the row where the text starts at or before its
/// start column, the cursor stays where it is. Nothing else changes.
pub proof fn law_left_move_steps_back_within_the_text(v: EditorView, w: WindowSize)
    ensures
        v.cursor_col == 0 ==> moved(v, Direction::Left, w) == v,
        v.cursor_col > 0 && v.cursor_row as int != v.start_cursor_margin_top as int ==> moved(
            v,
            Direction::Left,
            w,
        ) == (EditorView { cursor_col: (v.cursor_col - 1) as u16, ..v }),
        v.cursor_row as int == v.start_cursor_margin_top as int && v.cursor_col > v.start_col ==> moved(
            v,
            Direction::Left,
            w,
        ) == (EditorView { cursor_col: (v.cursor_col - 1) as u16, ..v }),
        v.cursor_row as int == v.start_cursor_margin_top as int && v.cursor_col <= v.start_col ==> moved(
            v,
            Direction::Left,
            w,
        ) == v,
{
}

/// A typed character lands in the line under the cursor at the position
/// whose cell the cursor stood on: `cursor_row - start` whole rows and
/// `cursor_col` columns from where the line begins.
pub proof fn law_typed_char_lands_under_the_cursor(v: EditorView, c: char, w: WindowSize, index: int, start: int)
    requires
        insert_char_ok(v, w),
        lookup_cursor_line(with_first_line(v), w) == (LineLookup::Found { index, start }),
        0 <= index <= u16::MAX,
        0 <= start <= v.cursor_row,
        v.cursor_col < v.terminal_width,
    ensures
        ({
            let fc = if index == 0 {
                v.start_col as int
            } else {
                0
            };
            let pos = (v.cursor_row - start) * v.terminal_width + v.cursor_col - fc;
            &&& inserted_char(v, c, w).lines[index][pos] == c
            &&& (fc + pos) / (v.terminal_width as int) == v.cursor_row - start
            &&& (fc + pos) % (v.terminal_width as int) == v.cursor_col
        }),
{
    let p = with_first_line(v);
    assert(line_at_cursor(p, w) == (index as u16, start as u16));
    let fc = if index == 0 {
        v.start_col as int
    } else {
        0
    };
    let pos = (v.cursor_row - start) * v.terminal_width + v.cursor_col - fc;
    assert(insert_offset(v, w) == pos);
    vstd::arithmetic::div_mod::lemma_fundamental_div_mod_converse(
        fc + pos,
        v.terminal_width as int,
        v.cursor_row - start,
        v.cursor_col as int,
    );
}

/// After a typed character the cursor steps one column on; from the last
/// column it goes to column 0 of the next row, or, on the last row, stays on
/// that row while the terminal is marked to scroll one row. The text and the
/// start position are not touched by the step.
pub proof fn law_auto_move_steps_on(v: EditorView)
    requires
        auto_move_ok(v),
    ensures
        v.cursor_col + 1 < v.terminal_width ==> auto_moved(v) == (EditorView {
            cursor_col: (v.cursor_col + 1) as u16,
            ..v
        }),
        v.cursor_col + 1 == v.terminal_width && v.cursor_row + 1 < v.terminal_height ==> auto_moved(v)
            == (EditorView { cursor_col: 0, cursor_row: (v.cursor_row + 1) as u16, ..v }),
        v.cursor_col + 1 == v.terminal_width && v.cursor_row + 1 == v.terminal_height ==> auto_moved(v)
            == (EditorView { cursor_col: 0, terminal_scroll_distance: 1, ..v }),
{
}

/// A frame begins with the pending scroll (a move up by a positive distance,
/// a move down by a negative one, nothing for zero), then moves to the start
/// position and clears everything below it, and ends with a move to the
/// cursor.
pub proof fn law_frame_shape(v: EditorView, w: WindowSize)
    ensures
        ({
            let f = frame_commands(v, w);
            let s = v.terminal_scroll_distance;
            let k: int = if s == 0 {
                0
            } else {
                1
            };
            &&& f.len() >= k + 3
            &&& s > 0 ==> f[0] == CommandView::MoveUp(s as u16)
            &&& s < 0 ==> f[0] == CommandView::MoveDown((0 - s) as u16)
            &&& f[k] == CommandView::MoveTo(v.start_col, v.start_row)
            &&& f[k + 1] == CommandView::ClearFromCursorDown
            &&& f.last() == CommandView::MoveTo(v.cursor_col, v.cursor_row)
        }),
{
}

/// Editor state: the text buffer, the cursor and the terminal geometry.
pub struct Editor {
    buffer: Vec<Line>,
    cursor_row: u16,
    cursor_col: u16,
    start_row: u16,
    start_col: u16,
    terminal_scroll_distance: i16,
    terminal_width: u16,
    terminal_height: u16,
    start_cursor_margin_top: i16,
}

impl View for Editor {
    type V = EditorView;

    closed spec fn view(&self) -> EditorView {
        EditorView {
            lines: self.buffer@.map_values(|l: Line| line_chars(l)),
            cursor_row: self.cursor_row,
            cursor_col: self.cursor_col,
            start_row: self.start_row,
            start_col: self.start_col,
            terminal_scroll_distance: self.terminal_scroll_distance,
            terminal_width: self.terminal_width,
            terminal_height: self.terminal_height,
            start_cursor_margin_top: self.start_cursor_margin_top,
        }
    }
}

impl Editor {
    /// An empty editor for a terminal of the given size whose cursor stands
    /// at `(start_col, start_row)`.
    pub fn new(terminal_width: u16, terminal_height: u16, start_col: u16, start_row: u16) -> (r:
        Self)
        ensures
            r@ == (EditorView {
                lines: seq![],
                cursor_row: start_row,
                cursor_col: start_col,
                start_row,
                start_col,
                terminal_scroll_distance: 0,
                terminal_width,
                terminal_height,
                start_cursor_margin_top: start_row as i16,
            }),
    {
        let r = Self {
            buffer: Vec::new(),
            cursor_row: start_row,
            cursor_col: start_col,
            start_row,
            start_col,
            start_cursor_margin_top: #[verifier::truncate] (start_row as i16),
            terminal_width,
            terminal_height,
            terminal_scroll_distance: 0,
        };
        assert(r@.lines =~= seq![]);
        r
    }

    /// Sets the start position to `(column, row)`.
    pub fn start_position(&mut self, position: (u16, u16))
        ensures
            final(self)@ == (EditorView { start_col: position.0, start_row: position.1, ..old(self)@ }),
    {
        self.start_col = position.0;
        self.start_row = position.1;
    }

    /// Sets the cursor to `(column, row)`.
    pub fn current_position(&mut self, position: (u16, u16))
        ensures
            final(self)@ == (EditorView {
                cursor_col: position.0,
                cursor_row: position.1,
                ..old(self)@
            }),
    {
        self.cursor_col = position.0;
        self.cursor_row = position.1;
    }

    /// The cursor as `(column, row)`.
    pub fn get_cursor(&self) -> (r: (u16, u16))
        ensures
            r == (self@.cursor_col, self@.cursor_row),
    {
        (self.cursor_col, self.cursor_row)
    }

    /// The buffer line under the cursor and the terminal row where that
    /// line starts.
    fn get_line_by_cursor(&self, window: WindowSize) -> (r: (u16, u16))
        requires
            !(lookup_cursor_line(self@, window) is Fails),
        ensures
            r == line_at_cursor(self@, window),
    {
        let ghost lines = self@.lines;
        let ghost target = #[verifier::truncate] (self.cursor_row as i16) as int;
        let mut total_lines: i16 = self.start_cursor_margin_top;
        let mut position_index: u16 = 0;
        let mut start_line_in_buffer: i16 = 0;
        let cursor = #[verifier::truncate] (self.cursor_row as i16);
        let n = self.buffer.len();
        let mut k: usize = 0;
        let mut found = false;
        assert(lines.subrange(0, lines.len() as int) =~= lines);
        while k < n
            invariant_except_break
                !found,
                lookup_cursor_line(self@, window) == shift_lookup(
                    scan_lines(
                        lines.subrange(k as int, n as int),
                        line_first_col(k as int, self.start_col),
                        total_lines as int,
                        target,
                        window,
                    ),
                    k as int,
                ),
            invariant
                n == self.buffer.len(),
                lines == self@.lines,
                lines.len() == n,
                cursor == target,
                k <= n,
                !(lookup_cursor_line(self@, window) is Fails),
            ensures
                found ==> position_index == #[verifier::truncate] (k as u16),
                found ==> lookup_cursor_line(self@, window) == (LineLookup::Found {
                    index: k as int,
                    start: start_line_in_buffer as int,
                }),
                !found ==> lookup_cursor_line(self@, window) == LineLookup::NotFound,
            decreases n - k,
        {
            proof {
                lemma_scan_step(lines, k as int, total_lines as int, target, window);
                assert(lines[k as int] == line_chars(self.buffer@[k as int]));
            }
            let first_col = if k == 0 {
                self.start_col
            } else {
                0
            };
            let c = self.buffer[k].calculate_lines(first_col, window);
            total_lines = total_lines + #[verifier::truncate] (c as i16);
            if cursor < total_lines {
                start_line_in_buffer = total_lines - #[verifier::truncate] (
                self.buffer[k].calculate_lines(first_col, window) as i16);
                position_index = #[verifier::truncate] (k as u16);
                found = true;
                break;
            }
            k = k + 1;
        }
        if !found {
            position_index = 0;
            start_line_in_buffer = 0;
        }
        (position_index, #[verifier::truncate] (start_line_in_buffer as u16))
    }

    /// Steps the cursor on after a typed character; a cursor inside the
    /// window stays inside it.
    fn auto_move_cursor(&mut self)
        requires
            auto_move_ok(old(self)@),
        ensures
            final(self)@ == auto_moved(old(self)@),
            old(self)@.cursor_col < old(self)@.terminal_width && old(self)@.cursor_row
                < old(self)@.terminal_height ==> final(self)@.cursor_col < final(self)@.terminal_width
                && final(self)@.cursor_row < final(self)@.terminal_height,
    {
        proof {
            if self.cursor_col < self.terminal_width && self.cursor_row < self.terminal_height {
                law_auto_move_keeps_cursor_in_window(self@);
            }
        }
        if self.cursor_col == self.terminal_width - 1 {
            self.cursor_col = 0;
            if self.cursor_row == self.terminal_height - 1 {
                self.terminal_scroll_distance = 1;
            } else {
                self.cursor_row += 1;
            }
        } else {
            self.cursor_col += 1;
        }
    }

    fn insert_line(&mut self)
        ensures
            final(self)@ == (EditorView {
                lines: old(self)@.lines.push(Seq::<char>::empty()),
                ..old(self)@
            }),
    {
        let line_struct = Line::new();
        self.buffer.push(line_struct);
        assert(self@.lines =~= old(self)@.lines.push(Seq::<char>::empty()));
    }

    /// The position in line `index`, whose first row is `start`, of the cell
    /// under the cursor.
    fn offset_at_cursor(&self, index: u16, start: u16) -> (r: i64)
        ensures
            r == offset_in_line(self@, index as int, start),
    {
        let first_col: i64 = if index == 0 {
            self.start_col as i64
        } else {
            0
        };
        let rows: i64 = self.cursor_row as i64 - start as i64;
        let width: i64 = self.terminal_width as i64;
        assert(-65535 * 65535 <= rows * width <= 65535 * 65535) by (nonlinear_arith)
            requires
                -65535 <= rows <= 65535,
                0 <= width <= 65535,
        ;
        rows * width + self.cursor_col as i64 - first_col
    }

    /// Types `c` at the cursor. A cursor inside the window stays inside it.
    pub fn insert_char(&mut self, c: char, window: WindowSize)
        requires
            insert_char_ok(old(self)@, window),
        ensures
            final(self)@ == inserted_char(old(self)@, c, window),
            old(self)@.cursor_col < old(self)@.terminal_width && old(self)@.cursor_row
                < old(self)@.terminal_height ==> final(self)@.cursor_col < final(self)@.terminal_width
                && final(self)@.cursor_row < final(self)@.terminal_height,
    {
        if self.buffer.len() == 0 {
            self.insert_line();
            assert(self@.lines =~= seq![Seq::<char>::empty()]);
        }
        let ghost p = self@;
        assert(p == with_first_line(old(self)@));
        let c_struct = Char::new(c);
        let (index, start_line) = self.get_line_by_cursor(window);
        let i = self.offset_at_cursor(index, start_line);
        assert(i == insert_offset(old(self)@, window));
        let ghost line_before = self.buffer@[index as int];
        assert(p.lines[index as int] == line_chars(line_before));
        self.buffer[index as usize].content.insert(i as usize, c_struct);
        proof {
            let line_after = self.buffer@[index as int];
            assert(line_chars(line_after) =~= line_chars(line_before).insert(i as int, c));
            assert(self@.lines =~= p.lines.update(index as int, p.lines[index as int].insert(i as int, c)));
        }
        self.auto_move_cursor();
    }

    /// Whether the cursor is at the left boundary of the content.
    fn is_at_left_boundary(&self) -> (r: bool)
        ensures
            r == at_left_boundary(self@),
    {
        self.cursor_col == 0 || (self.cursor_row as i32 == self.start_cursor_margin_top as i32
            && self.cursor_col <= self.start_col)
    }

    /// Moves the cursor by hand. At the boundary of the content the cursor
    /// is not moved.
    pub fn manual_move_cursor(&mut self, direction: Direction, window: WindowSize)
        requires
            move_ok(old(self)@, direction, window),
        ensures
            final(self)@ == moved(old(self)@, direction, window),
    {
        match direction {
            Direction::Up => {},
            Direction::Down => {},
            Direction::Left => {
                if !self.is_at_left_boundary() {
                    self.cursor_col -= 1;
                }
            },
            Direction::Right => {
                let (buf_cursor_row, curr_start_line_in_screen) = self.get_line_by_cursor(window);
                let index = self.offset_at_cursor(buf_cursor_row, curr_start_line_in_screen);
                assert(self@.lines[buf_cursor_row as int] == line_chars(self.buffer@[buf_cursor_row as int]));
                if reaches(index, self.buffer[buf_cursor_row as usize].content.len()) {
                    if self.buffer.len() - 1 > buf_cursor_row as usize {
                        self.cursor_col = 0;
                        if self.cursor_row == self.terminal_height - 1 {
                            self.terminal_scroll_distance = 1;
                            self.start_row -= 1;
                        } else {
                            self.cursor_row += 1;
                        }
                    } else {
                    }
                } else {
                    self.cursor_col += 1;
                }
            },
            _ => {},
        }
    }

    /// The line under the cursor, or `None` when counting the rows would
    /// leave the integer types.
    fn try_line_at_cursor(&self, window: WindowSize) -> (r: Option<(u16, u16)>)
        ensures
            r is None <==> lookup_cursor_line(self@, window) is Fails,
            r matches Some(x) ==> x == line_at_cursor(self@, window),
    {
        let ghost lines = self@.lines;
        let ghost target = #[verifier::truncate] (self.cursor_row as i16) as int;
        let cursor: i32 = (#[verifier::truncate] (self.cursor_row as i16)) as i32;
        let mut total: i32 = self.start_cursor_margin_top as i32;
        let n = self.buffer.len();
        let mut k: usize = 0;
        assert(lines.subrange(0, lines.len() as int) =~= lines);
        while k < n
            invariant
                n == self.buffer.len(),
                lines == self@.lines,
                lines.len() == n,
                cursor == target,
                k <= n,
                i16::MIN <= total <= i16::MAX,
                lookup_cursor_line(self@, window) == shift_lookup(
                    scan_lines(
                        lines.subrange(k as int, n as int),
                        line_first_col(k as int, self.start_col),
                        total as int,
                        target,
                        window,
                    ),
                    k as int,
                ),
            decreases n - k,
        {
            proof {
                lemma_scan_step(lines, k as int, total as int, target, window);
                assert(lines[k as int] == line_chars(self.buffer@[k as int]));
            }
            let first_col = if k == 0 {
                self.start_col
            } else {
                0
            };
            let rows = match rows_for(self.buffer[k].content.len(), first_col, window) {
                None => {
                    return None;
                },
                Some(x) => x,
            };
            let t: i32 = total + (#[verifier::truncate] (rows as i16)) as i32;
            if t < -32768 || t > 32767 {
                return None;
            }
            if cursor < t {
                return Some((#[verifier::truncate] (k as u16), #[verifier::truncate] ((total as i16) as u16)));
            }
            total = t;
            k = k + 1;
        }
        Some((0, 0))
    }

    /// Whether typing a character at the cursor can be carried out; when it
    /// cannot, `insert_char` must not be called.
    pub fn can_insert_char(&self, window: WindowSize) -> (r: bool)
        ensures
            r == insert_char_ok(self@, window),
    {
        let ghost p = with_first_line(self@);
        let empty = self.buffer.len() == 0;
        let found = if empty {
            let ghost lines = p.lines;
            assert(lines[0].len() == 0);
            assert(lines.subrange(1, 1) =~= Seq::<Seq<char>>::empty());
            let rows = match rows_for(0, self.start_col, window) {
                None => {
                    return false;
                },
                Some(x) => x,
            };
            let margin: i32 = self.start_cursor_margin_top as i32;
            let t: i32 = margin + (#[verifier::truncate] (rows as i16)) as i32;
            if t < -32768 || t > 32767 {
                return false;
            }
            let cursor: i32 = (#[verifier::truncate] (self.cursor_row as i16)) as i32;
            if cursor < t {
                assert(lookup_cursor_line(p, window) == (LineLookup::Found { index: 0, start: margin as int }));
                (0u16, #[verifier::truncate] ((margin as i16) as u16))
            } else {
                assert(scan_lines(lines.subrange(1, 1), 0, t as int, cursor as int, window) == LineLookup::NotFound);
                assert(lookup_cursor_line(p, window) == LineLookup::NotFound);
                (0u16, 0u16)
            }
        } else {
            match self.try_line_at_cursor(window) {
                None => {
                    return false;
                },
                Some(x) => x,
            }
        };
        assert(found == line_at_cursor(p, window));
        let (index, start) = found;
        let offset = self.offset_at_cursor(index, start);
        assert(offset == insert_offset(self@, window));
        let line_len: usize = if empty {
            if index != 0 {
                return false;
            }
            0
        } else {
            if index as usize >= self.buffer.len() {
                return false;
            }
            assert(p.lines[index as int] == line_chars(self.buffer@[index as int]));
            self.buffer[index as usize].content.len()
        };
        assert(line_len == p.lines[index as int].len());
        if !within(offset, line_len) {
            return false;
        }
        if self.terminal_width == 0 {
            return false;
        }
        if self.cursor_col == self.terminal_width - 1 {
            if self.terminal_height == 0 {
                return false;
            }
            self.cursor_row == self.terminal_height - 1 || self.cursor_row < 65535
        } else {
            self.cursor_col < 65535
        }
    }

    /// Whether a cursor move can be carried out; when it cannot,
    /// `manual_move_cursor` must not be called.
    pub fn can_move_cursor(&self, direction: Direction, window: WindowSize) -> (r: bool)
        ensures
            r == move_ok(self@, direction, window),
    {
        match direction {
            Direction::Right => {
                let (row, start) = match self.try_line_at_cursor(window) {
                    None => {
                        return false;
                    },
                    Some(x) => x,
                };
                if row as usize >= self.buffer.len() {
                    return false;
                }
                let index = self.offset_at_cursor(row, start);
                assert(index == right_index(self@, window));
                assert(self@.lines[row as int] == line_chars(self.buffer@[row as int]));
                if reaches(index, self.buffer[row as usize].content.len()) {
                    if self.buffer.len() - 1 > row as usize {
                        if self.terminal_height == 0 {
                            return false;
                        }
                        if self.cursor_row == self.terminal_height - 1 {
                            self.start_row >= 1
                        } else {
                            self.cursor_row < 65535
                        }
                    } else {
                        true
                    }
                } else {
                    self.cursor_col < 65535
                }
            },
            _ => true,
        }
    }

    /// Whether a frame can be drawn; when it cannot, `render_frame` must not
    /// be called.
    pub fn can_render_frame(&self, window: WindowSize) -> (r: bool)
        ensures
            r == frame_ok(self@, window),
    {
        let ghost v = self@;
        let ghost lines = v.lines;
        let ghost s0 = v.terminal_scroll_distance as int;
        if self.terminal_scroll_distance == -32768 {
            return false;
        }
        let mut sc: i32 = self.terminal_scroll_distance as i32;
        let n = self.buffer.len();
        assert(lines.take(0) =~= Seq::<Seq<char>>::empty());
        for i in 0..n
            invariant
                n == self.buffer@.len(),
                v == self@,
                lines == v.lines,
                lines.len() == n,
                s0 == v.terminal_scroll_distance as int,
                v.terminal_scroll_distance != i16::MIN,
                render_lines_ok(lines.take(i as int), v.start_col, v.cursor_row, v.terminal_height, s0, window),
                sc as int == render_lines(lines.take(i as int), v.start_col, v.cursor_row, v.terminal_height, s0, window).1,
                i16::MIN <= sc <= i16::MAX,
        {
            proof {
                assert(lines.take(i + 1).drop_last() =~= lines.take(i as int));
                assert(lines.take(i + 1).last() == lines[i as int]);
                assert(lines[i as int] == line_chars(self.buffer@[i as int]));
            }
            let first_col = if i == 0 {
                self.start_col
            } else {
                0
            };
            let rows = match rows_for(self.buffer[i].content.len(), first_col, window) {
                None => {
                    proof {
                        lemma_not_ok_extends(lines, i as int, v.start_col, v.cursor_row, v.terminal_height, s0, window);
                    }
                    return false;
                },
                Some(x) => x as u32,
            };
            if rows + self.cursor_row as u32 > 65535 {
                proof {
                    lemma_not_ok_extends(lines, i as int, v.start_col, v.cursor_row, v.terminal_height, s0, window);
                }
                return false;
            }
            let total: u32 = rows + self.cursor_row as u32;
            if total >= self.terminal_height as u32 {
                let d: u32 = total - self.terminal_height as u32;
                if d + 1 > 65535 {
                    proof {
                        lemma_not_ok_extends(lines, i as int, v.start_col, v.cursor_row, v.terminal_height, s0, window);
                    }
                    return false;
                }
                let di: i32 = (#[verifier::truncate] ((d as u16) as i16)) as i32;
                let a: i32 = sc - di;
                if a < -32768 || a > 32767 || a - 1 < -32768 {
                    proof {
                        lemma_not_ok_extends(lines, i as int, v.start_col, v.cursor_row, v.terminal_height, s0, window);
                    }
                    return false;
                }
                sc = a - 1;
            }
        }
        assert(lines.take(n as int) =~= lines);
        true
    }

    /// Queues the drawing of every line after a move to the start position
    /// and a clear of everything below it, updating the scroll distance.
    fn render(&mut self, window: WindowSize, out: &mut Vec<TerminalCommand>)
        requires
            render_lines_ok(
                old(self)@.lines,
                old(self)@.start_col,
                old(self)@.cursor_row,
                old(self)@.terminal_height,
                old(self)@.terminal_scroll_distance as int,
                window,
            ),
        ensures
            ({
                let r = render_lines(
                    old(self)@.lines,
                    old(self)@.start_col,
                    old(self)@.cursor_row,
                    old(self)@.terminal_height,
                    old(self)@.terminal_scroll_distance as int,
                    window,
                );
                &&& commands_view(final(out)@) == commands_view(old(out)@) + seq![
                    CommandView::MoveTo(old(self)@.start_col, old(self)@.start_row),
                    CommandView::ClearFromCursorDown,
                ] + r.0
                &&& final(self)@ == (EditorView { terminal_scroll_distance: r.1 as i16, ..old(self)@ })
            }),
    {
        let ghost v = self@;
        let ghost lines = v.lines;
        let ghost s0 = v.terminal_scroll_distance as int;
        out.push(TerminalCommand::MoveTo(self.start_col, self.start_row));
        out.push(TerminalCommand::ClearFromCursorDown);
        let ghost head = commands_view(out@);
        assert(head =~= commands_view(old(out)@) + seq![
            CommandView::MoveTo(v.start_col, v.start_row),
            CommandView::ClearFromCursorDown,
        ]);
        assert(lines.take(0) =~= Seq::<Seq<char>>::empty());
        let n = self.buffer.len();
        for i in 0..n
            invariant
                n == self.buffer@.len(),
                lines == self@.lines,
                lines.len() == n,
                self@ == (EditorView { terminal_scroll_distance: self.terminal_scroll_distance, ..v }),
                render_lines_ok(lines, v.start_col, v.cursor_row, v.terminal_height, s0, window),
                commands_view(out@) == head + render_lines(lines.take(i as int), v.start_col, v.cursor_row, v.terminal_height, s0, window).0,
                self.terminal_scroll_distance as int == render_lines(lines.take(i as int), v.start_col, v.cursor_row, v.terminal_height, s0, window).1,
        {
            let ghost prev_out = commands_view(out@);
            proof {
                lemma_render_ok_prefix(lines, i + 1, v.start_col, v.cursor_row, v.terminal_height, s0, window);
                assert(lines.take(i + 1).drop_last() =~= lines.take(i as int));
                assert(lines.take(i + 1).last() == lines[i as int]);
                assert(lines[i as int] == line_chars(self.buffer@[i as int]));
            }
            let first_col = if i == 0 {
                self.start_col
            } else {
                0
            };
            let line_count = self.buffer[i].calculate_lines(first_col, window);
            if line_count + self.cursor_row >= self.terminal_height {
                let distance = line_count + self.cursor_row - self.terminal_height;
                out.push(TerminalCommand::MoveUp(distance + 1));
                self.terminal_scroll_distance = self.terminal_scroll_distance
                    - #[verifier::truncate] (distance as i16) - 1;
            }
            let strs = self.buffer[i].text();
            out.push(TerminalCommand::Print(strs));
            assert(commands_view(out@) =~= prev_out + render_line(
                lines[i as int],
                line_first_col(i as int, v.start_col),
                v.cursor_row,
                v.terminal_height,
                render_lines(lines.take(i as int), v.start_col, v.cursor_row, v.terminal_height, s0, window).1,
                window,
            ).0);
        }
        assert(lines.take(n as int) =~= lines);
    }

    /// Handles one key press: Control-C quits; otherwise the key's action is
    /// carried out and the frame that follows is drawn.
    pub fn handle_key(&mut self, key: EditorKey, window: WindowSize) -> (r: KeyOutcome)
        ensures
            spec_key_action(key) is Quit ==> r is Quit && final(self)@ == old(self)@,
            !(spec_key_action(key) is Quit) && !key_applicable(old(self)@, key, window) ==> r is CannotApply
                && final(self)@ == old(self)@,
            !(spec_key_action(key) is Quit) && key_applicable(old(self)@, key, window) && !frame_ok(
                key_applied(old(self)@, key, window),
                window,
            ) ==> r is CannotDraw && final(self)@ == key_applied(old(self)@, key, window),
            !(spec_key_action(key) is Quit) && key_applicable(old(self)@, key, window) && frame_ok(
                key_applied(old(self)@, key, window),
                window,
            ) ==> {
                &&& r matches KeyOutcome::Frame(cmds) && commands_view(cmds@) == frame_commands(
                    key_applied(old(self)@, key, window),
                    window,
                )
                &&& final(self)@ == (EditorView {
                    terminal_scroll_distance: 0,
                    ..key_applied(old(self)@, key, window)
                })
            },
    {
        match key_action(key) {
            KeyAction::Quit => {
                return KeyOutcome::Quit;
            },
            KeyAction::Insert(c) => {
                if !self.can_insert_char(window) {
                    return KeyOutcome::CannotApply;
                }
                self.insert_char(c, window);
            },
            KeyAction::Move(direction) => {
                if !self.can_move_cursor(direction, window) {
                    return KeyOutcome::CannotApply;
                }
                self.manual_move_cursor(direction, window);
            },
            KeyAction::Ignore => {},
        }
        if !self.can_render_frame(window) {
            return KeyOutcome::CannotDraw;
        }
        KeyOutcome::Frame(self.render_frame(window))
    }

    /// Draws a frame: the pending scroll, then every line, then the cursor;
    /// the scroll distance is spent.
    pub fn render_frame(&mut self, window: WindowSize) -> (r: Vec<TerminalCommand>)
        requires
            frame_ok(old(self)@, window),
        ensures
            commands_view(r@) == frame_commands(old(self)@, window),
            final(self)@ == (EditorView { terminal_scroll_distance: 0, ..old(self)@ }),
    {
        let ghost v = self@;
        let mut out: Vec<TerminalCommand> = Vec::new();
        if self.terminal_scroll_distance > 0 {
            out.push(TerminalCommand::MoveUp(self.terminal_scroll_distance as u16));
        } else if self.terminal_scroll_distance < 0 {
            out.push(TerminalCommand::MoveDown((-self.terminal_scroll_distance) as u16));
        }
        assert(commands_view(out@) =~= scroll_commands(v.terminal_scroll_distance));
        self.render(window, &mut out);
        let ghost mid = commands_view(out@);
        self.terminal_scroll_distance = 0;
        out.push(TerminalCommand::MoveTo(self.cursor_col, self.cursor_row));
        assert(commands_view(out@) =~= mid.push(CommandView::MoveTo(v.cursor_col, v.cursor_row)));
        assert(commands_view(out@) =~= frame_commands(v, window));
        out
    }
}

} // verus!
