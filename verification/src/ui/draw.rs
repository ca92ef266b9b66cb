//! Drawing as data: styled strings at places of a character grid.
use vstd::prelude::*;

verus! {

/// Colours of the interfaces.
#[derive(Debug, Clone, Copy, PartialEq, Eq, Structural)]
pub enum Color {
    Black,
    Cyan,
    DarkGray,
    Gray,
    Green,
    Red,
    White,
    Yellow,
}

/// Style of a string.
#[derive(Debug, Clone, Copy, PartialEq, Eq, Structural)]
pub struct Style {
    pub fg: Color,
    /// On a cyan ground.
    pub on_cyan: bool,
    pub bold: bool,
}

/// A plain style.
pub open spec fn plain(fg: Color) -> Style {
    Style { fg, on_cyan: false, bold: false }
}

/// A bold style.
pub open spec fn bold(fg: Color) -> Style {
    Style { fg, on_cyan: false, bold: true }
}

/// A plain style.
pub fn plain_style(fg: Color) -> (s: Style)
    ensures
        s == plain(fg),
{
    Style { fg, on_cyan: false, bold: false }
}

/// A bold style.
pub fn bold_style(fg: Color) -> (s: Style)
    ensures
        s == bold(fg),
{
    Style { fg, on_cyan: false, bold: true }
}

/// A styled string from column `x` of row `y` on, cut after `maxw` cells.
#[derive(Debug)]
pub struct DrawOp {
    pub x: u16,
    pub y: u16,
    pub text: String,
    pub style: Style,
    pub maxw: u16,
}

/// What an operation draws.
#[verifier::ext_equal]
pub struct Drawn {
    pub x: int,
    pub y: int,
    pub text: Seq<char>,
    pub style: Style,
    pub maxw: int,
}

impl DrawOp {
    /// What the operation draws.
    pub open spec fn view(&self) -> Drawn {
        Drawn {
            x: self.x as int,
            y: self.y as int,
            text: self.text@,
            style: self.style,
            maxw: self.maxw as int,
        }
    }
}

/// What a list of operations draws, in order.
pub open spec fn drawn(ops: Seq<DrawOp>) -> Seq<Drawn> {
    ops.map_values(|o: DrawOp| o@)
}

/// A string drawn if its row is on the terminal.
pub open spec fn placed(rows: int, x: int, y: int, text: Seq<char>, style: Style, maxw: int) -> Seq<
    Drawn,
> {
    if y < rows {
        seq![Drawn { x, y, text, style, maxw }]
    } else {
        Seq::empty()
    }
}

/// Draws a string if its row is on the terminal.
pub fn put(ops: &mut Vec<DrawOp>, rows: u16, x: u16, y: u16, text: String, style: Style, maxw: u16)
    ensures
        drawn(final(ops)@) == drawn(old(ops)@) + placed(
            rows as int,
            x as int,
            y as int,
            text@,
            style,
            maxw as int,
        ),
{
    let ghost before = drawn(ops@);
    if y < rows {
        let ghost t = text@;
        ops.push(DrawOp { x, y, text, style, maxw });
        assert(drawn(ops@) =~= before + placed(
            rows as int,
            x as int,
            y as int,
            t,
            style,
            maxw as int,
        ));
    } else {
        assert(before + Seq::<Drawn>::empty() =~= before);
    }
}

/// Where `len` cells start that are centred on a column.
pub open spec fn centred(column: int, len: int) -> int {
    if column >= len / 2 {
        column - len / 2
    } else {
        0
    }
}

/// The column that centres `len` cells on a column.
pub fn cx(column: u16, len: u16) -> (x: u16)
    ensures
        x == centred(column as int, len as int),
{
    column.saturating_sub(len / 2)
}

/// Everything is drawn on a terminal of `rows` rows.
pub open spec fn within(rows: int, ops: Seq<Drawn>) -> bool {
    forall|i: int| 0 <= i < ops.len() ==> (#[trigger] ops[i]).y < rows
}

/// Runs that stay on the terminal stay on it one after the other.
pub broadcast proof fn lemma_within_both(rows: int, a: Seq<Drawn>, b: Seq<Drawn>)
    requires
        within(rows, a),
        within(rows, b),
    ensures
        #[trigger] within(rows, a + b),
{
    assert forall|i: int| 0 <= i < (a + b).len() implies (#[trigger] (a + b)[i]).y < rows by {
        if i < a.len() {
            assert((a + b)[i] == a[i]);
        } else {
            assert((a + b)[i] == b[i - a.len()]);
        }
    }
}

/// A placed string stays on the terminal.
pub broadcast proof fn lemma_within_placed(
    rows: int,
    x: int,
    y: int,
    text: Seq<char>,
    style: Style,
    maxw: int,
)
    ensures
        #[trigger] within(rows, placed(rows, x, y, text, style, maxw)),
{
}

/// Three runs of operations appended one by one are appended as one.
pub proof fn lemma_three_runs(before: Seq<Drawn>, a: Seq<Drawn>, b: Seq<Drawn>, c: Seq<Drawn>)
    ensures
        before + a + b + c == before + (a + b + c),
{
    assert(before + a + b + c =~= before + (a + b + c));
}

/// A string on the terminal is drawn once, with its place, style and width; one
/// below it is not drawn at all.
pub proof fn law_strings_are_drawn_where_they_stand(
    rows: int,
    x: int,
    y: int,
    text: Seq<char>,
    style: Style,
    maxw: int,
)
    ensures
        y < rows ==> placed(rows, x, y, text, style, maxw).len() == 1,
        y < rows ==> ({
            let d = placed(rows, x, y, text, style, maxw)[0];
            d.x == x && d.y == y && d.text == text && d.style == style && d.maxw == maxw
        }),
        y >= rows ==> placed(rows, x, y, text, style, maxw).len() == 0,
{
}

/// What is centred has its middle on the column, a cell more to the left where
/// its length is even, unless it would begin left of the screen.
pub proof fn law_centred_text_has_its_middle_on_the_column(column: int, len: int)
    requires
        column >= 0,
        len >= 0,
    ensures
        2 * column >= len ==> 2 * column <= 2 * centred(column, len) + len <= 2 * column + 1,
        2 * column + 1 < len ==> centred(column, len) == 0,
        centred(column, len) >= 0,
{
}

/// Neither style has a ground of its own; they differ in weight alone.
pub proof fn law_styles_by_weight(fg: Color)
    ensures
        plain(fg).fg == fg && bold(fg).fg == fg,
        !plain(fg).bold && bold(fg).bold,
        !plain(fg).on_cyan && !bold(fg).on_cyan,
{
}

} // verus!
