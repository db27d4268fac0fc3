use crate::editor::{clamped, InputLine};
use crate::key::Key;
use crate::scrollback::{
    lemma_prefix_rows,
    lemma_retained_fits,
    lemma_rows_positive,
    retained,
    total_rows,
    ScrollbackBuffer,
};
use vstd::prelude::*;

verus! {

/// Rows at the bottom of the screen taken by the input bar, its separator
/// strip included.
pub const INPUT_BAR_HEIGHT: i16 = 4;

/// The terminal's size in character cells.
#[derive(Clone, Copy, PartialEq, Eq, Structural, Debug)]
pub struct ConsoleSize {
    pub width: i16,
    pub height: i16,
}

#[derive(Clone, Copy, PartialEq, Eq, Structural, Debug)]
pub enum Color {
    Black,
    DarkBlue,
    LightGray,
}

/// One step of painting the terminal.
#[derive(Debug, PartialEq, Eq)]
pub enum DrawOp {
    /// Foreground and background color of what is written next.
    SetColor { fg: Color, bg: Color },
    ClearScreen,
    /// Blank cells on columns `x1..=x2` of rows `y1..=y2`.
    Fill { x1: i32, y1: i32, x2: i32, y2: i32 },
    SetCursor { x: usize, y: i32 },
    /// Text written from the cursor on.
    Write(String),
}

/// What a drawing operation does, as mathematical values.
pub enum DrawView {
    SetColor { fg: Color, bg: Color },
    ClearScreen,
    Fill { x1: int, y1: int, x2: int, y2: int },
    SetCursor { x: int, y: int },
    Write(Seq<char>),
}

impl View for DrawOp {
    type V = DrawView;

    open spec fn view(&self) -> DrawView {
        match self {
            DrawOp::SetColor { fg, bg } => DrawView::SetColor { fg: *fg, bg: *bg },
            DrawOp::ClearScreen => DrawView::ClearScreen,
            DrawOp::Fill { x1, y1, x2, y2 } => DrawView::Fill {
                x1: *x1 as int,
                y1: *y1 as int,
                x2: *x2 as int,
                y2: *y2 as int,
            },
            DrawOp::SetCursor { x, y } => DrawView::SetCursor { x: *x as int, y: *y as int },
            DrawOp::Write(s) => DrawView::Write(s@),
        }
    }
}

/// The event a tick hands to the outside world.
#[derive(Debug, PartialEq, Eq)]
pub enum TuiEvent {
    Quit,
    SendMsg(String),
}

pub open spec fn views(ops: Seq<DrawOp>) -> Seq<DrawView> {
    ops.map_values(|o: DrawOp| o@)
}

/// Rows of the output region for a screen `height` rows high.
pub open spec fn output_area(height: int) -> int {
    height - INPUT_BAR_HEIGHT
}

/// The row the input text stands on.
pub open spec fn input_row(height: int) -> int {
    height - INPUT_BAR_HEIGHT + 1
}

pub open spec fn text_color() -> DrawView {
    DrawView::SetColor { fg: Color::Black, bg: Color::LightGray }
}

/// Separator strip, text row background, the text, then the cursor at the
/// edit position.
pub open spec fn input_bar_ops(size: ConsoleSize, text: Seq<char>, cursor: int) -> Seq<DrawView> {
    let w = size.width as int;
    let h = size.height as int;
    seq![
        DrawView::SetColor { fg: Color::DarkBlue, bg: Color::DarkBlue },
        DrawView::Fill { x1: 0, y1: h - INPUT_BAR_HEIGHT, x2: w + 1, y2: h - INPUT_BAR_HEIGHT },
        text_color(),
        DrawView::Fill { x1: 0, y1: input_row(h), x2: w + 1, y2: h },
        DrawView::SetCursor { x: 0, y: input_row(h) },
        DrawView::Write(text),
        DrawView::SetCursor { x: cursor, y: input_row(h) },
    ]
}

/// Each line written at the row where the lines above it end.
pub open spec fn lines_ops(lines: Seq<Seq<char>>, width: int) -> Seq<DrawView>
    decreases lines.len(),
{
    if lines.len() == 0 {
        Seq::empty()
    } else {
        lines_ops(lines.drop_last(), width) + seq![
            DrawView::SetCursor { x: 0, y: total_rows(lines.drop_last(), width) },
            DrawView::Write(lines.last()),
        ]
    }
}

/// The output region: optionally blanked, then every line top first, then
/// the cursor back at the edit position.
pub open spec fn output_ops(
    size: ConsoleSize,
    lines: Seq<Seq<char>>,
    cursor: int,
    background: bool,
) -> Seq<DrawView> {
    let w = size.width as int;
    let h = size.height as int;
    seq![text_color(), DrawView::SetCursor { x: 0, y: 0 }] + (if background {
        seq![DrawView::Fill { x1: 0, y1: 0, x2: w + 1, y2: h - INPUT_BAR_HEIGHT - 1 }]
    } else {
        Seq::empty()
    }) + lines_ops(lines, w) + seq![DrawView::SetCursor { x: cursor, y: input_row(h) }]
}

/// The whole screen painted anew.
pub open spec fn redraw_ops(
    size: ConsoleSize,
    lines: Seq<Seq<char>>,
    text: Seq<char>,
    cursor: int,
) -> Seq<DrawView> {
    seq![text_color(), DrawView::ClearScreen] + output_ops(size, lines, cursor, false)
        + input_bar_ops(size, text, cursor) + seq![
        text_color(),
        DrawView::SetCursor { x: cursor, y: input_row(size.height as int) },
    ]
}

/// How many times `ops` clears the whole screen.
pub open spec fn clear_count(ops: Seq<DrawView>) -> nat
    decreases ops.len(),
{
    if ops.len() == 0 {
        0
    } else {
        clear_count(ops.drop_last()) + if ops.last() is ClearScreen {
            1nat
        } else {
            0nat
        }
    }
}

proof fn lemma_clear_count_concat(a: Seq<DrawView>, b: Seq<DrawView>)
    ensures
        clear_count(a + b) == clear_count(a) + clear_count(b),
    decreases b.len(),
{
    if b.len() == 0 {
        assert(a + b =~= a);
    } else {
        assert((a + b).drop_last() =~= a + b.drop_last());
        lemma_clear_count_concat(a, b.drop_last());
    }
}

proof fn lemma_clear_count_push(a: Seq<DrawView>, x: DrawView)
    ensures
        clear_count(a.push(x)) == clear_count(a) + if x is ClearScreen {
            1nat
        } else {
            0nat
        },
{
    assert(a.push(x).drop_last() =~= a);
}

proof fn lemma_lines_ops_keep_screen(lines: Seq<Seq<char>>, width: int)
    ensures
        clear_count(lines_ops(lines, width)) == 0,
    decreases lines.len(),
{
    if lines.len() > 0 {
        let rest = lines_ops(lines.drop_last(), width);
        let pair = seq![
            DrawView::SetCursor { x: 0, y: total_rows(lines.drop_last(), width) },
            DrawView::Write(lines.last()),
        ];
        lemma_lines_ops_keep_screen(lines.drop_last(), width);
        lemma_clear_count_concat(rest, pair);
        lemma_clear_count_push(seq![pair[0]], pair[1]);
        lemma_clear_count_push(Seq::empty(), pair[0]);
        assert(seq![pair[0]] == Seq::<DrawView>::empty().push(pair[0]));
        assert(pair == seq![pair[0]].push(pair[1]));
    }
}

proof fn lemma_no_clear(ops: Seq<DrawView>)
    requires
        forall|i: int| 0 <= i < ops.len() ==> !(#[trigger] ops[i] is ClearScreen),
    ensures
        clear_count(ops) == 0,
    decreases ops.len(),
{
    if ops.len() > 0 {
        let rest = ops.drop_last();
        assert forall|i: int| 0 <= i < rest.len() implies !(#[trigger] rest[i] is ClearScreen) by {
            assert(rest[i] == ops[i]);
        }
        lemma_no_clear(rest);
    }
}

/// Each size change repaints the screen in full exactly once: the repaint
/// clears the screen once, and painting the output region or the input bar
/// never clears it.
pub proof fn lemma_one_clear_per_redraw(
    size: ConsoleSize,
    lines: Seq<Seq<char>>,
    text: Seq<char>,
    cursor: int,
    background: bool,
)
    ensures
        clear_count(redraw_ops(size, lines, text, cursor)) == 1,
        clear_count(output_ops(size, lines, cursor, background)) == 0,
        clear_count(input_bar_ops(size, text, cursor)) == 0,
{
    let w = size.width as int;
    let h = size.height as int;
    let out = output_ops(size, lines, cursor, background);
    let plain = output_ops(size, lines, cursor, false);
    let body = lines_ops(lines, w);
    let head: Seq<DrawView> = seq![text_color(), DrawView::SetCursor { x: 0, y: 0 }] + (if background {
        seq![DrawView::Fill { x1: 0, y1: 0, x2: w + 1, y2: h - INPUT_BAR_HEIGHT - 1 }]
    } else {
        Seq::empty()
    });
    let plain_head: Seq<DrawView> = seq![text_color(), DrawView::SetCursor { x: 0, y: 0 }] + Seq::empty();
    let tail = seq![DrawView::SetCursor { x: cursor, y: input_row(h) }];
    lemma_lines_ops_keep_screen(lines, w);
    lemma_no_clear(head);
    lemma_no_clear(plain_head);
    lemma_no_clear(tail);
    lemma_clear_count_concat(head, body);
    lemma_clear_count_concat(head + body, tail);
    lemma_clear_count_concat(plain_head, body);
    lemma_clear_count_concat(plain_head + body, tail);
    let bar = input_bar_ops(size, text, cursor);
    lemma_no_clear(bar);
    let start = seq![text_color(), DrawView::ClearScreen];
    lemma_clear_count_push(seq![text_color()], DrawView::ClearScreen);
    lemma_no_clear(seq![text_color()]);
    assert(start == seq![text_color()].push(DrawView::ClearScreen));
    let end = seq![text_color(), DrawView::SetCursor { x: cursor, y: input_row(h) }];
    lemma_no_clear(end);
    lemma_clear_count_concat(start, plain);
    lemma_clear_count_concat(start + plain, bar);
    lemma_clear_count_concat(start + plain + bar, end);
}

/// The character of decimal digit `n`.
pub open spec fn digit_char(n: u8) -> char {
    ((48 + n) as u8) as char
}

/// The prefix that marks a line as written here.
pub open spec fn own_prefix() -> Seq<char> {
    seq!['Y', 'o', 'u', ':', ' ']
}

/// The input text after `key`, with the cursor at `cursor`.
pub open spec fn edit_text(text: Seq<char>, cursor: int, key: Key) -> Seq<char> {
    match key {
        Key::Char(c) => if text.len() < usize::MAX {
            text.insert(cursor, c)
        } else {
            text
        },
        Key::Num(n) => if n <= 9 && text.len() < usize::MAX {
            text.insert(cursor, digit_char(n))
        } else {
            text
        },
        Key::Backspace => if cursor > 0 {
            text.remove(cursor - 1)
        } else {
            text
        },
        _ => text,
    }
}

/// The cursor after `key`.
pub open spec fn edit_cursor(text: Seq<char>, cursor: int, key: Key) -> int {
    match key {
        Key::Char(_) => if text.len() < usize::MAX {
            cursor + 1
        } else {
            cursor
        },
        Key::Num(n) => if n <= 9 && text.len() < usize::MAX {
            cursor + 1
        } else {
            cursor
        },
        Key::Backspace => if cursor > 0 {
            cursor - 1
        } else {
            cursor
        },
        Key::Left => clamped(cursor, -1, text.len() as int),
        Key::Right => clamped(cursor, 1, text.len() as int),
        _ => cursor,
    }
}

/// Whatever key comes, the edit cursor stays within `[0, len]` of the text:
/// every insertion, deletion and move keeps it there, so it holds along any
/// sequence of them.
pub proof fn lemma_edit_keeps_cursor(text: Seq<char>, cursor: int, key: Key)
    requires
        0 <= cursor <= text.len(),
    ensures
        0 <= edit_cursor(text, cursor, key) <= edit_text(text, cursor, key).len(),
{
}

/// Keeping only what fits leaves the lines within the region, or none.
proof fn lemma_fit_region(lines: Seq<Seq<char>>, width: int, area: int)
    requires
        width > 0,
    ensures
        total_rows(retained(lines, width, area), width) <= area || retained(
            lines,
            width,
            area,
        ).len() == 0,
{
    if area >= 0 {
        lemma_retained_fits(lines, width, area);
    } else if lines.len() > 0 {
        lemma_rows_positive(lines.last().len() as int, width);
    }
}

fn emit(ops: &mut Vec<DrawOp>, op: DrawOp)
    ensures
        views(final(ops)@) == views(old(ops)@).push(op@),
{
    let ghost v = op@;
    ops.push(op);
    assert(views(ops@) =~= views(old(ops)@).push(v));
}

/// Relies on `String`'s `FromIterator<&char>`: the characters joined in order.
#[verifier::external_body]
fn text_of(chars: &Vec<char>) -> (r: String)
    ensures
        r@ == chars@,
{
    chars.iter().collect()
}

/// Screen state of the chat client: the last seen size, the scrollback and
/// the input line.
pub struct Tui {
    prev_size: ConsoleSize,
    output_lines: ScrollbackBuffer,
    input: InputLine,
}

impl Tui {
    pub closed spec fn size(&self) -> ConsoleSize {
        self.prev_size
    }

    pub closed spec fn lines(&self) -> Seq<Seq<char>> {
        self.output_lines.lines()
    }

    pub closed spec fn text(&self) -> Seq<char> {
        self.input.text()
    }

    pub closed spec fn cursor(&self) -> int {
        self.input.cursor_spec()
    }

    /// The width is usable, the cursor lies within the text, and the lines
    /// kept fit in the output region (none is kept where the region is
    /// empty).
    pub open spec fn wf(&self) -> bool {
        &&& self.size().width > 0
        &&& 0 <= self.cursor() <= self.text().len()
        &&& (total_rows(self.lines(), self.size().width as int) <= output_area(
            self.size().height as int,
        ) || self.lines().len() == 0)
    }

    pub fn console_size(&self) -> (r: ConsoleSize)
        ensures
            r == self.size(),
    {
        self.prev_size
    }

    pub fn output_lines(&self) -> (r: &ScrollbackBuffer)
        ensures
            r.lines() == self.lines(),
    {
        &self.output_lines
    }

    pub fn input(&self) -> (r: &InputLine)
        ensures
            r.text() == self.text(),
            r.cursor_spec() == self.cursor(),
    {
        &self.input
    }

    fn output_area_height(&self) -> (r: i32)
        ensures
            r == output_area(self.size().height as int),
    {
        self.prev_size.height as i32 - INPUT_BAR_HEIGHT as i32
    }

    fn calc_input_position(&self) -> (r: i32)
        ensures
            r == input_row(self.size().height as int),
    {
        self.prev_size.height as i32 - INPUT_BAR_HEIGHT as i32 + 1
    }

    /// Shifts the edit cursor by `delta`, clamped into the text.
    pub fn move_cursor(&mut self, delta: i16)
        requires
            old(self).wf(),
        ensures
            final(self).wf(),
            final(self).size() == old(self).size(),
            final(self).lines() == old(self).lines(),
            final(self).text() == old(self).text(),
            final(self).cursor() == clamped(
                old(self).cursor(),
                delta as int,
                old(self).text().len() as int,
            ),
    {
        self.input.move_cursor(delta);
    }

    /// Appends an incoming line to the scrollback, evicting the oldest lines
    /// that no longer fit, and repaints the output region.
    pub fn add_message(&mut self, string: &str, ops: &mut Vec<DrawOp>)
        requires
            old(self).wf(),
        ensures
            final(self).wf(),
            final(self).size() == old(self).size(),
            final(self).text() == old(self).text(),
            final(self).cursor() == old(self).cursor(),
            final(self).lines() == retained(
                old(self).lines().push(string@),
                old(self).size().width as int,
                output_area(old(self).size().height as int),
            ),
            views(final(ops)@) == views(old(ops)@) + output_ops(
                final(self).size(),
                final(self).lines(),
                final(self).cursor(),
                true,
            ),
    {
        let area = self.output_area_height();
        self.output_lines.append(string.to_owned(), self.prev_size.width, area);
        proof {
            lemma_fit_region(
                old(self).lines().push(string@),
                self.size().width as int,
                area as int,
            );
        }
        self.draw_output(true, ops);
    }

    /// One tick: repaints everything when the size differs from the last one
    /// seen, then applies `key`. Escape asks to quit; Enter sends the input
    /// text, shows it as `You: <text>` and empties the line; the editing keys
    /// change the input line and repaint the input bar or move the cursor.
    pub fn update(&mut self, size: ConsoleSize, key: Option<Key>, ops: &mut Vec<DrawOp>) -> (r:
        Option<TuiEvent>)
        requires
            old(self).wf(),
            size.width > 0,
        ensures
            final(self).wf(),
            final(self).size() == size,
            clear_count(views(final(ops)@)) == clear_count(views(old(ops)@)) + if size != old(
                self,
            ).size() {
                1nat
            } else {
                0nat
            },
            ({
                let resized = size != old(self).size();
                let w = size.width as int;
                let area = output_area(size.height as int);
                let lines0 = if resized {
                    retained(old(self).lines(), w, area)
                } else {
                    old(self).lines()
                };
                let text = old(self).text();
                let cursor = old(self).cursor();
                let pre = views(old(ops)@) + (if resized {
                    redraw_ops(size, lines0, text, cursor)
                } else {
                    Seq::empty()
                });
                match key {
                    None => {
                        &&& r is None
                        &&& final(self).lines() == lines0
                        &&& final(self).text() == text
                        &&& final(self).cursor() == cursor
                        &&& views(final(ops)@) == pre
                    },
                    Some(Key::Escape) => {
                        &&& r matches Some(TuiEvent::Quit)
                        &&& final(self).lines() == lines0
                        &&& final(self).text() == text
                        &&& final(self).cursor() == cursor
                        &&& views(final(ops)@) == pre
                    },
                    Some(Key::Enter) => {
                        &&& (match r {
                            Some(TuiEvent::SendMsg(m)) => m@ == text,
                            _ => false,
                        })
                        &&& final(self).lines() == retained(lines0.push(own_prefix() + text), w, area)
                        &&& final(self).text() == Seq::<char>::empty()
                        &&& final(self).cursor() == 0
                        &&& views(final(ops)@) == pre + output_ops(size, final(self).lines(), 0, true)
                            + input_bar_ops(size, Seq::<char>::empty(), 0)
                    },
                    Some(k) => {
                        &&& r is None
                        &&& final(self).lines() == lines0
                        &&& final(self).text() == edit_text(text, cursor, k)
                        &&& final(self).cursor() == edit_cursor(text, cursor, k)
                        &&& views(final(ops)@) == if k is Left || k is Right {
                            pre.push(DrawView::SetCursor { x: final(self).cursor(), y: input_row(size.height as int) })
                        } else {
                            pre + input_bar_ops(size, final(self).text(), final(self).cursor())
                        }
                    },
                }
            }),
    {
        let ghost start = views(ops@);
        if size != self.prev_size {
            proof {
                lemma_one_clear_per_redraw(
                    size,
                    retained(old(self).lines(), size.width as int, output_area(size.height as int)),
                    old(self).text(),
                    old(self).cursor(),
                    false,
                );
                lemma_clear_count_concat(
                    start,
                    redraw_ops(
                        size,
                        retained(
                            old(self).lines(),
                            size.width as int,
                            output_area(size.height as int),
                        ),
                        old(self).text(),
                        old(self).cursor(),
                    ),
                );
            }
            self.prev_size = size;
            let area = self.output_area_height();
            self.output_lines.fit(size.width, area);
            proof {
                lemma_fit_region(old(self).lines(), size.width as int, area as int);
            }
            self.redraw(ops);
        }
        let ghost lines0 = self.lines();
        let ghost pre = views(ops@);
        assert(pre == start || pre == start + redraw_ops(size, lines0, old(self).text(), old(self).cursor()));
        let r = match key {
            None => None,
            Some(Key::Escape) => Some(TuiEvent::Quit),
            Some(Key::Enter) => {
                let chars = self.input.submit();
                let msg = text_of(&chars);
                let mut line = "You: ".to_owned();
                line.append(msg.as_str());
                proof {
                    reveal_strlit("You: ");
                    assert(line@ =~= own_prefix() + chars@);
                }
                self.add_message(line.as_str(), ops);
                self.draw_input_bar(ops);
                proof {
                    assert(views(ops@) =~= pre + output_ops(size, self.lines(), 0, true)
                        + input_bar_ops(size, Seq::<char>::empty(), 0));
                }
                Some(TuiEvent::SendMsg(msg))
            },
            Some(Key::Char(c)) => {
                if self.input.len() < usize::MAX {
                    self.input.insert(c);
                }
                self.draw_input_bar(ops);
                None
            },
            Some(Key::Num(n)) => {
                if n <= 9 && self.input.len() < usize::MAX {
                    self.input.insert((48u8 + n) as char);
                }
                self.draw_input_bar(ops);
                None
            },
            Some(Key::Backspace) => {
                self.input.backspace();
                self.draw_input_bar(ops);
                None
            },
            Some(Key::Left) => {
                self.input.move_cursor(-1);
                self.reset_position(ops);
                None
            },
            Some(Key::Right) => {
                self.input.move_cursor(1);
                self.reset_position(ops);
                None
            },
        };
        proof {
            lemma_one_clear_per_redraw(size, self.lines(), self.text(), self.cursor(), true);
            lemma_one_clear_per_redraw(size, self.lines(), Seq::<char>::empty(), 0, true);
            let added = views(ops@).subrange(pre.len() as int, views(ops@).len() as int);
            assert(views(ops@) =~= pre + added);
            lemma_clear_count_concat(pre, added);
            if added.len() > 0 {
                assert(added == input_bar_ops(size, self.text(), self.cursor())
                    || added == seq![DrawView::SetCursor { x: self.cursor(), y: input_row(size.height as int) }]
                    || added == output_ops(size, self.lines(), 0, true) + input_bar_ops(size, Seq::<char>::empty(), 0));
                lemma_no_clear(seq![DrawView::SetCursor { x: self.cursor(), y: input_row(size.height as int) }]);
                lemma_clear_count_concat(output_ops(size, self.lines(), 0, true), input_bar_ops(size, Seq::<char>::empty(), 0));
            } else {
                assert(added =~= Seq::<DrawView>::empty());
            }
        }
        r
    }

    /// Puts the terminal cursor at the edit position on the input row.
    pub fn reset_position(&self, ops: &mut Vec<DrawOp>)
        ensures
            views(final(ops)@) == views(old(ops)@).push(
                DrawView::SetCursor { x: self.cursor(), y: input_row(self.size().height as int) },
            ),
    {
        let y = self.calc_input_position();
        emit(ops, DrawOp::SetCursor { x: self.input.cursor(), y });
    }

    pub fn draw_input_bar(&self, ops: &mut Vec<DrawOp>)
        ensures
            views(final(ops)@) == views(old(ops)@) + input_bar_ops(
                self.size(),
                self.text(),
                self.cursor(),
            ),
    {
        let w = self.prev_size.width as i32;
        let h = self.prev_size.height as i32;
        let bar = h - INPUT_BAR_HEIGHT as i32;
        let row = self.calc_input_position();
        emit(ops, DrawOp::SetColor { fg: Color::DarkBlue, bg: Color::DarkBlue });
        emit(ops, DrawOp::Fill { x1: 0, y1: bar, x2: w + 1, y2: bar });
        emit(ops, DrawOp::SetColor { fg: Color::Black, bg: Color::LightGray });
        emit(ops, DrawOp::Fill { x1: 0, y1: row, x2: w + 1, y2: h });
        emit(ops, DrawOp::SetCursor { x: 0, y: row });
        emit(ops, DrawOp::Write(text_of(self.input.chars())));
        self.reset_position(ops);
        assert(views(ops@) =~= views(old(ops)@) + input_bar_ops(
            self.size(),
            self.text(),
            self.cursor(),
        ));
    }

    /// Paints the output region from the top, optionally blanking it first.
    pub fn draw_output(&self, redraw_background: bool, ops: &mut Vec<DrawOp>)
        requires
            self.wf(),
        ensures
            views(final(ops)@) == views(old(ops)@) + output_ops(
                self.size(),
                self.lines(),
                self.cursor(),
                redraw_background,
            ),
    {
        let w = self.prev_size.width as i32;
        let h = self.prev_size.height as i32;
        let ghost lines = self.lines();
        let ghost width = w as int;
        emit(ops, DrawOp::SetColor { fg: Color::Black, bg: Color::LightGray });
        emit(ops, DrawOp::SetCursor { x: 0, y: 0 });
        if redraw_background {
            emit(ops, DrawOp::Fill { x1: 0, y1: 0, x2: w + 1, y2: h - INPUT_BAR_HEIGHT as i32 - 1 });
        }
        let ghost head = views(ops@);
        let n = self.output_lines.len();
        let mut i: usize = 0;
        let mut y: i32 = 0;
        assert(lines.subrange(0, 0) =~= Seq::<Seq<char>>::empty());
        while i < n
            invariant
                self.wf(),
                n == lines.len(),
                lines == self.lines(),
                width == self.size().width as int,
                i <= n,
                y == total_rows(lines.subrange(0, i as int), width),
                views(ops@) == head + lines_ops(lines.subrange(0, i as int), width),
            decreases n - i,
        {
            let line = self.output_lines.line(i);
            emit(ops, DrawOp::SetCursor { x: 0, y });
            emit(ops, DrawOp::Write(line.clone()));
            let ghost next = lines.subrange(0, i + 1);
            proof {
                assert(next.drop_last() =~= lines.subrange(0, i as int));
                lemma_prefix_rows(lines, width, i + 1);
                lemma_prefix_rows(lines, width, i as int);
                lemma_rows_positive(line@.len() as int, width);
                assert(views(ops@) =~= head + lines_ops(next, width));
            }
            let q: usize = line.as_str().unicode_len() / (self.prev_size.width as usize);
            proof {
                assert(next.last() == line@);
                assert(total_rows(next, width) == y + 1 + q);
                assert(total_rows(lines, width) <= output_area(self.size().height as int));
            }
            y = y + q as i32 + 1;
            i = i + 1;
        }
        assert(lines.subrange(0, n as int) =~= lines);
        self.reset_position(ops);
        assert(views(ops@) =~= views(old(ops)@) + output_ops(
            self.size(),
            self.lines(),
            self.cursor(),
            redraw_background,
        ));
    }

    /// Clears the screen and paints the output region and the input bar.
    pub fn redraw(&self, ops: &mut Vec<DrawOp>)
        requires
            self.wf(),
        ensures
            views(final(ops)@) == views(old(ops)@) + redraw_ops(
                self.size(),
                self.lines(),
                self.text(),
                self.cursor(),
            ),
    {
        emit(ops, DrawOp::SetColor { fg: Color::Black, bg: Color::LightGray });
        emit(ops, DrawOp::ClearScreen);
        self.draw_output(false, ops);
        self.draw_input_bar(ops);
        emit(ops, DrawOp::SetColor { fg: Color::Black, bg: Color::LightGray });
        self.reset_position(ops);
        assert(views(ops@) =~= views(old(ops)@) + redraw_ops(
            self.size(),
            self.lines(),
            self.text(),
            self.cursor(),
        ));
    }
}

/// A fresh screen of `size`: empty scrollback and input, painted whole.
pub fn init(size: ConsoleSize, ops: &mut Vec<DrawOp>) -> (r: Tui)
    requires
        size.width > 0,
    ensures
        r.wf(),
        r.size() == size,
        r.lines() == Seq::<Seq<char>>::empty(),
        r.text() == Seq::<char>::empty(),
        r.cursor() == 0,
        views(final(ops)@) == views(old(ops)@) + redraw_ops(
            size,
            Seq::<Seq<char>>::empty(),
            Seq::<char>::empty(),
            0,
        ),
{
    let tui = Tui { prev_size: size, output_lines: ScrollbackBuffer::new(), input: InputLine::new() };
    tui.redraw(ops);
    tui
}

} // verus!
