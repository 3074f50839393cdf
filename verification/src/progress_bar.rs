//! The state of a terminal progress bar: how much of the work is done, how
//! the bar is drawn, and the `mm:ss` clock text it shows.
use vstd::prelude::*;
use std::time::Instant;
use crate::text::{decimal, digit_char, push_char, push_decimal, str_eq};

verus! {

/// A terminal colour.
#[derive(Clone, Copy, PartialEq, Eq, Structural)]
pub enum Color {
    Reset,
    Black,
    DarkGrey,
    Red,
    DarkRed,
    Green,
    DarkGreen,
    Yellow,
    DarkYellow,
    Blue,
    DarkBlue,
    Magenta,
    DarkMagenta,
    Cyan,
    DarkCyan,
    White,
    Grey,
    Rgb { r: u8, g: u8, b: u8 },
    AnsiValue(u8),
}

/// How the bar is drawn.
#[derive(Clone, Copy, PartialEq, Eq, Structural)]
pub struct BarStyle {
    pub complete_char: char,
    pub incomplete_char: char,
    pub start_char: char,
    pub end_char: char,
    pub complete_color: Color,
    pub incomplete_color: Color,
}

impl Default for BarStyle {
    fn default() -> (r: Self)
        ensures
            r == (BarStyle {
                complete_char: '█',
                incomplete_char: '░',
                start_char: '[',
                end_char: ']',
                complete_color: Color::Green,
                incomplete_color: Color::DarkGrey,
            }),
    {
        BarStyle {
            complete_char: '█',
            incomplete_char: '░',
            start_char: '[',
            end_char: ']',
            complete_color: Color::Green,
            incomplete_color: Color::DarkGrey,
        }
    }
}

#[verifier::external_type_specification]
#[verifier::external_body]
pub struct ExInstant(Instant);

/// The current instant: `Instant::now`. Nothing is stated of the value.
#[verifier::external_body]
fn instant_now() -> Instant {
    Instant::now()
}

/// A progress bar.
pub struct ProgressBar {
    total: u64,
    current: u64,
    start_time: Instant,
    width: Option<u16>,
    message: String,
    bar_style: BarStyle,
    show_percentage: bool,
    show_count: bool,
    show_time: bool,
    row: Option<u16>,
}

/// The abstract state of a progress bar, apart from its start time.
pub struct ProgressBarView {
    pub total: u64,
    pub current: u64,
    pub width: Option<u16>,
    pub message: Seq<char>,
    pub bar_style: BarStyle,
    pub show_percentage: bool,
    pub show_count: bool,
    pub show_time: bool,
    pub row: Option<u16>,
}

impl View for ProgressBar {
    type V = ProgressBarView;

    closed spec fn view(&self) -> ProgressBarView {
        ProgressBarView {
            total: self.total,
            current: self.current,
            width: self.width,
            message: self.message@,
            bar_style: self.bar_style,
            show_percentage: self.show_percentage,
            show_count: self.show_count,
            show_time: self.show_time,
            row: self.row,
        }
    }
}

/// The progress after an update to `current`: the count, capped at the
/// total; the row is remembered the first time one is given.
pub open spec fn updated(v: ProgressBarView, current: u64, cursor_row: Option<u16>) -> ProgressBarView {
    ProgressBarView {
        current: if current < v.total {
            current
        } else {
            v.total
        },
        row: if v.row is None {
            cursor_row
        } else {
            v.row
        },
        ..v
    }
}

impl ProgressBar {
    /// The work done never exceeds the total.
    #[verifier::type_invariant]
    spec fn within_total(&self) -> bool {
        self.current <= self.total
    }

    /// The instant at which the bar was created.
    pub closed spec fn started_at(&self) -> Instant {
        self.start_time
    }

    /// A bar for `total` units of work, none done yet, started now, in the
    /// default style, showing percentage, count and time, with no message.
    pub fn new(total: u64) -> (r: Self)
        ensures
            r@ == (ProgressBarView {
                total,
                current: 0,
                width: None,
                message: seq![],
                bar_style: BarStyle {
                    complete_char: '█',
                    incomplete_char: '░',
                    start_char: '[',
                    end_char: ']',
                    complete_color: Color::Green,
                    incomplete_color: Color::DarkGrey,
                },
                show_percentage: true,
                show_count: true,
                show_time: true,
                row: None,
            }),
    {
        ProgressBar {
            total,
            current: 0,
            start_time: instant_now(),
            width: None,
            message: String::new(),
            bar_style: BarStyle::default(),
            show_percentage: true,
            show_count: true,
            show_time: true,
            row: None,
        }
    }

    /// The same bar with the given message.
    pub fn with_message(self, message: &str) -> (r: Self)
        ensures
            r@ == (ProgressBarView { message: message@, ..self@ }),
            r.started_at() == self.started_at(),
    {
        proof {
            use_type_invariant(&self);
        }
        let mut s = self;
        s.message = String::from_str(message);
        s
    }

    /// The same bar with the given width.
    pub fn with_width(self, width: u16) -> (r: Self)
        ensures
            r@ == (ProgressBarView { width: Some(width), ..self@ }),
            r.started_at() == self.started_at(),
    {
        proof {
            use_type_invariant(&self);
        }
        let mut s = self;
        s.width = Some(width);
        s
    }

    /// The same bar in the given style.
    pub fn with_style(self, style: BarStyle) -> (r: Self)
        ensures
            r@ == (ProgressBarView { bar_style: style, ..self@ }),
            r.started_at() == self.started_at(),
    {
        proof {
            use_type_invariant(&self);
        }
        let mut s = self;
        s.bar_style = style;
        s
    }

    /// Sets the count of work done, capped at the total. The terminal row of
    /// the bar is taken from `cursor_row` the first time one is given.
    pub fn update(&mut self, current: u64, cursor_row: Option<u16>)
        ensures
            final(self)@ == updated(old(self)@, current, cursor_row),
            final(self)@.current <= final(self)@.total,
            final(self).started_at() == old(self).started_at(),
    {
        proof {
            use_type_invariant(&*self);
        }
        if self.row.is_none() {
            self.row = cursor_row;
        }
        self.current = if current < self.total {
            current
        } else {
            self.total
        };
    }

    /// Adds `delta` to the count of work done, capped at the total.
    pub fn inc(&mut self, delta: u64, cursor_row: Option<u16>)
        requires
            old(self)@.current + delta <= u64::MAX,
        ensures
            final(self)@ == updated(old(self)@, (old(self)@.current + delta) as u64, cursor_row),
            old(self)@.current <= final(self)@.current <= final(self)@.total,
            final(self).started_at() == old(self).started_at(),
    {
        proof {
            use_type_invariant(&*self);
        }
        self.update(self.current + delta, cursor_row)
    }

    /// Marks all the work done.
    pub fn finish(&mut self)
        ensures
            final(self)@ == (ProgressBarView { current: old(self)@.total, ..old(self)@ }),
            final(self).started_at() == old(self).started_at(),
    {
        proof {
            use_type_invariant(&*self);
        }
        self.current = self.total;
    }

    /// The units of work in all.
    pub fn total(&self) -> (r: u64)
        ensures
            r == self@.total,
    {
        self.total
    }

    /// The units of work done.
    pub fn current(&self) -> (r: u64)
        ensures
            r == self@.current,
            r <= self@.total,
    {
        proof {
            use_type_invariant(self);
        }
        self.current
    }

    /// When the bar was created.
    pub fn start_time(&self) -> (r: &Instant)
        ensures
            *r == self.started_at(),
    {
        &self.start_time
    }

    /// The width set for the bar, if any.
    pub fn width(&self) -> (r: Option<u16>)
        ensures
            r == self@.width,
    {
        self.width
    }

    /// The message shown after the bar.
    pub fn message(&self) -> (r: &str)
        ensures
            r@ == self@.message,
    {
        self.message.as_str()
    }

    /// How the bar is drawn.
    pub fn style(&self) -> (r: BarStyle)
        ensures
            r == self@.bar_style,
    {
        self.bar_style
    }

    /// Whether the percentage is shown.
    pub fn show_percentage(&self) -> (r: bool)
        ensures
            r == self@.show_percentage,
    {
        self.show_percentage
    }

    /// Whether the count is shown.
    pub fn show_count(&self) -> (r: bool)
        ensures
            r == self@.show_count,
    {
        self.show_count
    }

    /// Whether the elapsed and remaining time are shown.
    pub fn show_time(&self) -> (r: bool)
        ensures
            r == self@.show_time,
    {
        self.show_time
    }

    /// The terminal row of the bar, once known.
    pub fn row(&self) -> (r: Option<u16>)
        ensures
            r == self@.row,
    {
        self.row
    }
}

/// `n` copies of the character `c`.
pub open spec fn repeat_char(c: char, n: nat) -> Seq<char> {
    Seq::new(n, |i: int| c)
}

/// The columns the bar takes, its brackets included: the width set for the
/// bar, else the terminal's columns less the 20 left for the text after it,
/// else 50 when the terminal's size is not known.
pub open spec fn layout_width(v: ProgressBarView, terminal_columns: Option<u16>) -> int {
    match v.width {
        Some(w) => w as int,
        None => match terminal_columns {
            Some(c) => c - 20,
            None => 50,
        },
    }
}

/// The text that shows the count: `(current/total) `.
pub open spec fn count_text_of(v: ProgressBarView) -> Seq<char> {
    seq!['('] + decimal(v.current as nat) + seq!['/'] + decimal(v.total as nat) + seq![')', ' ']
}

/// The text that shows the message: ` | ` and the message, or nothing when
/// the message is empty.
pub open spec fn message_text_of(v: ProgressBarView) -> Seq<char> {
    if v.message.len() == 0 {
        seq![]
    } else {
        seq![' ', '|', ' '] + v.message
    }
}

/// `n` copies of `c` as a string.
fn repeat(c: char, n: usize) -> (r: String)
    ensures
        r@ == repeat_char(c, n as nat),
{
    let mut out = String::new();
    for i in 0..n
        invariant
            out@ == repeat_char(c, i as nat),
    {
        push_char(&mut out, c);
        assert(out@ =~= repeat_char(c, (i + 1) as nat));
    }
    out
}

impl ProgressBar {
    /// The number of cells between the brackets: the bar's columns less the
    /// two brackets, or `None` when fewer than two columns are left for it.
    /// `terminal_columns` is the terminal's width, when known; it is used
    /// only when no width was set for the bar.
    pub fn cell_count(&self, terminal_columns: Option<u16>) -> (r: Option<usize>)
        ensures
            layout_width(self@, terminal_columns) >= 2 ==> r == Some((layout_width(self@, terminal_columns) - 2) as usize),
            layout_width(self@, terminal_columns) < 2 ==> r is None,
            self@.width is Some && self@.width.unwrap() >= 2 ==> r == Some(
                (self@.width.unwrap() - 2) as usize,
            ),
            self@.width is Some && self@.width.unwrap() < 2 ==> r is None,
            self@.width is None && terminal_columns is Some && terminal_columns.unwrap() >= 22 ==> r
                == Some((terminal_columns.unwrap() - 22) as usize),
            self@.width is None && terminal_columns is Some && terminal_columns.unwrap() < 22 ==> r is None,
            self@.width is None && terminal_columns is None ==> r == Some(48usize),
    {
        let width: u16 = match self.width {
            Some(w) => w,
            None => match terminal_columns {
                Some(c) => {
                    if c < 20 {
                        return None;
                    }
                    c - 20
                },
                None => 50,
            },
        };
        if width < 2 {
            None
        } else {
            Some((width - 2) as usize)
        }
    }

    /// The cells of the bar when `completed` of its `cell_count` cells are
    /// filled: the filled cells, drawn with the complete character, and the
    /// rest, drawn with the incomplete character.
    pub fn cells(&self, completed: usize, cell_count: usize) -> (r: (String, String))
        requires
            completed <= cell_count,
        ensures
            r.0@ == repeat_char(self@.bar_style.complete_char, completed as nat),
            r.1@ == repeat_char(self@.bar_style.incomplete_char, (cell_count - completed) as nat),
    {
        (
            repeat(self.bar_style.complete_char, completed),
            repeat(self.bar_style.incomplete_char, cell_count - completed),
        )
    }

    /// The count of work done and the total, as `(current/total) `.
    pub fn count_text(&self) -> (r: String)
        ensures
            r@ == count_text_of(self@),
    {
        let mut out = String::new();
        push_char(&mut out, '(');
        push_decimal(&mut out, self.current);
        push_char(&mut out, '/');
        push_decimal(&mut out, self.total);
        push_char(&mut out, ')');
        push_char(&mut out, ' ');
        assert(out@ =~= count_text_of(self@));
        out
    }

    /// The message after the bar, as ` | message`; nothing when the message
    /// is empty.
    pub fn message_text(&self) -> (r: String)
        ensures
            r@ == message_text_of(self@),
    {
        let mut out = String::new();
        proof {
            reveal_strlit("");
            assert(""@ =~= Seq::<char>::empty());
        }
        if !str_eq(self.message.as_str(), "") {
            push_char(&mut out, ' ');
            push_char(&mut out, '|');
            push_char(&mut out, ' ');
            out.append(self.message.as_str());
            proof {
                if self@.message.len() == 0 {
                    assert(self@.message =~= ""@);
                }
            }
            assert(out@ =~= seq![' ', '|', ' '] + self@.message);
        } else {
            assert(self@.message.len() == 0);
        }
        assert(out@ =~= message_text_of(self@));
        out
    }
}

/// Text padded with zeros on the left to at least two characters.
pub open spec fn zero_pad2(s: Seq<char>) -> Seq<char> {
    if s.len() < 2 {
        seq!['0'] + s
    } else {
        s
    }
}

/// A count of seconds as `mm:ss`: whole minutes and leftover seconds, each
/// written with at least two digits.
pub open spec fn clock_text(total_secs: nat) -> Seq<char> {
    zero_pad2(decimal(total_secs / 60)) + seq![':'] + zero_pad2(decimal(total_secs % 60))
}

fn push_padded(out: &mut String, n: u64)
    ensures
        final(out)@ == old(out)@ + zero_pad2(decimal(n as nat)),
{
    if n < 10 {
        push_char(out, '0');
    }
    push_decimal(out, n);
    assert(n >= 10 ==> decimal(n as nat).len() >= 2) by {
        if n >= 10 {
            assert(decimal(n as nat).len() == decimal((n / 10) as nat).len() + 1);
        }
    }
    assert(final(out)@ =~= old(out)@ + zero_pad2(decimal(n as nat)));
}

/// A duration of `total_secs` seconds as `mm:ss`.
pub fn format_duration(total_secs: u64) -> (r: String)
    ensures
        r@ == clock_text(total_secs as nat),
{
    let mins = total_secs / 60;
    let secs = total_secs % 60;
    let mut out = String::new();
    push_padded(&mut out, mins);
    push_char(&mut out, ':');
    push_padded(&mut out, secs);
    assert(out@ =~= clock_text(total_secs as nat));
    out
}

/// The number a decimal digit character stands for.
pub open spec fn digit_value(c: char) -> nat {
    if c == '1' {
        1
    } else if c == '2' {
        2
    } else if c == '3' {
        3
    } else if c == '4' {
        4
    } else if c == '5' {
        5
    } else if c == '6' {
        6
    } else if c == '7' {
        7
    } else if c == '8' {
        8
    } else if c == '9' {
        9
    } else {
        0
    }
}

/// The number that decimal digits stand for.
pub open spec fn decimal_value(s: Seq<char>) -> nat
    decreases s.len(),
{
    if s.len() == 0 {
        0
    } else {
        decimal_value(s.drop_last()) * 10 + digit_value(s.last())
    }
}

/// Reading back the decimal digits of a number gives the number.
pub proof fn law_decimal_round_trip(n: nat)
    ensures
        decimal_value(decimal(n)) == n,
        decimal(n).len() >= 1,
    decreases n,
{
    let d = n % 10;
    assert(digit_value(digit_char(d)) == d);
    if n >= 10 {
        law_decimal_round_trip(n / 10);
        assert(decimal(n).drop_last() =~= decimal(n / 10));
        assert(decimal(n).last() == digit_char(d));
        assert(decimal_value(decimal(n)) == decimal_value(decimal(n / 10)) * 10 + d);
        assert((n / 10) * 10 + n % 10 == n) by (nonlinear_arith);
        assert(decimal_value(decimal(n / 10)) == n / 10);
        assert(decimal_value(decimal(n)) == n);
    } else {
        assert(decimal(n).drop_last() =~= Seq::<char>::empty());
        assert(decimal(n).last() == digit_char(n));
        assert(n % 10 == n);
        assert(decimal_value(decimal(n).drop_last()) == 0);
        assert(decimal_value(decimal(n)) == n);
    }
}

/// A leading zero does not change the number that digits stand for.
proof fn lemma_leading_zero(s: Seq<char>)
    ensures
        decimal_value(seq!['0'] + s) == decimal_value(s),
    decreases s.len(),
{
    let z = seq!['0'] + s;
    if s.len() > 0 {
        lemma_leading_zero(s.drop_last());
        assert(z.drop_last() =~= seq!['0'] + s.drop_last());
        assert(z.last() == s.last());
    } else {
        assert(z.drop_last() =~= Seq::<char>::empty());
        assert(z.last() == '0');
        assert(decimal_value(Seq::<char>::empty()) == 0);
        assert(s =~= Seq::<char>::empty());
    }
}

/// The clock text of a count of seconds is minutes, a colon, and exactly
/// two digits of seconds; reading the two parts back gives whole minutes
/// and leftover seconds, which add up to the count.
pub proof fn law_clock_text_reads_back(total_secs: nat)
    ensures
        ({
            let mins = zero_pad2(decimal(total_secs / 60));
            let secs = zero_pad2(decimal(total_secs % 60));
            &&& clock_text(total_secs) == mins + seq![':'] + secs
            &&& secs.len() == 2
            &&& mins.len() >= 2
            &&& decimal_value(mins) * 60 + decimal_value(secs) == total_secs
        }),
{
    let m = total_secs / 60;
    let s = total_secs % 60;
    law_decimal_round_trip(m);
    law_decimal_round_trip(s);
    lemma_leading_zero(decimal(m));
    lemma_leading_zero(decimal(s));
    if s >= 10 {
        assert(decimal(s).len() == decimal(s / 10).len() + 1);
        assert(s / 10 < 10);
    }
}

/// Whatever count an update brings, the work done never exceeds the total,
/// and the total does not change.
pub proof fn law_progress_capped(v: ProgressBarView, current: u64, cursor_row: Option<u16>)
    ensures
        updated(v, current, cursor_row).current <= v.total,
        updated(v, current, cursor_row).total == v.total,
        current <= v.total ==> updated(v, current, cursor_row).current == current,
{
}

/// A width set for the bar alone decides its layout, whatever the
/// terminal's size; only without one do the terminal's columns, less 20,
/// count, and without those 50 columns.
pub proof fn law_set_width_decides_layout(v: ProgressBarView, terminal_columns: Option<u16>, other_columns: Option<u16>)
    ensures
        v.width is Some ==> layout_width(v, terminal_columns) == v.width.unwrap(),
        v.width is Some ==> layout_width(v, terminal_columns) == layout_width(v, other_columns),
        v.width is None && terminal_columns is Some ==> layout_width(v, terminal_columns)
            == terminal_columns.unwrap() - 20,
        v.width is None && terminal_columns is None ==> layout_width(v, terminal_columns) == 50,
{
}

/// The bar's row is set by the first update that gives one and is kept from
/// then on.
pub proof fn law_row_set_once(v: ProgressBarView, current: u64, row: u16, later: Option<u16>)
    requires
        v.row is None,
    ensures
        updated(v, current, Some(row)).row == Some(row),
        updated(updated(v, current, Some(row)), current, later).row == Some(row),
{
}

} // verus!
