//! The pedal's front panel: six dials, three toggle switches, the wordmark, two
//! footswitches and the enclosure around them.
use super::draw;
use super::draw::{bold_style, cx, plain_style, put, Color, DrawOp};
use crate::hothouse::ToggleswitchPosition;
use crate::text;
use crate::text::{owned, push_decimal, push_repeated};
use vstd::prelude::*;

verus! {

/// A knob as the panel shows it.
#[derive(Debug, Clone, Copy, PartialEq, Eq, Structural)]
pub struct KnobView {
    /// Which of the seven pointer directions, least first; beyond the last, the
    /// last.
    pub pointer: u8,
    /// Position in percent.
    pub percent: u8,
}

/// A snapshot of every control.
#[derive(Debug, Clone, Copy)]
pub struct Controls {
    pub knobs: [KnobView; 6],
    pub toggles: [ToggleswitchPosition; 3],
    /// Footswitches held down.
    pub footswitches: [bool; 2],
}

/// Width of the panel; it is centred in the terminal.
pub const CONTENT_W: u16 = 50;

/// Left edge of the panel.
pub open spec fn left_edge(cols: int) -> int {
    if cols >= 50 {
        (cols - 50) / 2
    } else {
        0
    }
}

/// Left edges of the three columns.
pub open spec fn column(ox: int, col: int) -> int {
    ox + 2 + 18 * col
}

// ---------------------------------------------------------------------------
// Dials
// ---------------------------------------------------------------------------

/// The cells of a pointer direction, as row and column in the dial.
pub open spec fn pointer_cells(direction: int) -> Seq<(int, int)> {
    if direction == 0 {
        seq![(3int, 3int), (3int, 2int)]
    } else if direction == 1 {
        seq![(2int, 3int), (2int, 2int), (2int, 1int)]
    } else if direction == 2 {
        seq![(1int, 3int), (1int, 2int)]
    } else if direction == 3 {
        seq![(1int, 4int)]
    } else if direction == 4 {
        seq![(1int, 5int), (1int, 6int)]
    } else if direction == 5 {
        seq![(2int, 5int), (2int, 6int), (2int, 7int)]
    } else {
        seq![(3int, 5int), (3int, 6int)]
    }
}

/// The glyph of a pointer direction.
pub open spec fn pointer_glyph(direction: int) -> Seq<char> {
    if direction == 0 || direction == 4 {
        "\u{2571}"@
    } else if direction == 2 || direction >= 6 {
        "\u{2572}"@
    } else if direction == 3 {
        "\u{2502}"@
    } else {
        "\u{2500}"@
    }
}

/// The pointer direction that is shown.
pub open spec fn shown_direction(k: KnobView) -> int {
    if k.pointer > 6 {
        6
    } else {
        k.pointer as int
    }
}

/// The first `n` cells of a pointer.
pub open spec fn pointer_ops(rows: int, x: int, ky: int, direction: int, n: nat) -> Seq<draw::Drawn>
    decreases n,
{
    if n == 0 {
        Seq::empty()
    } else {
        let cell = pointer_cells(direction)[n - 1];
        pointer_ops(rows, x, ky, direction, (n - 1) as nat) + draw::placed(
            rows,
            x + cell.1,
            ky + cell.0,
            pointer_glyph(direction),
            draw::bold(Color::White),
            1,
        )
    }
}

/// The dial itself: bezel and hub.
pub open spec fn dial_ops(rows: int, x: int, ky: int) -> Seq<draw::Drawn> {
    let bezel = draw::plain(Color::DarkGray);
    draw::placed(
        rows,
        x,
        ky,
        "\u{256d}\u{2500}\u{2500}\u{2500}\u{2500}\u{2500}\u{2500}\u{2500}\u{256e}"@,
        bezel,
        9,
    ) + draw::placed(rows, x, ky + 1, "\u{2502}       \u{2502}"@, bezel, 9) + draw::placed(
        rows,
        x,
        ky + 2,
        "\u{2502}   \u{25cf}   \u{2502}"@,
        bezel,
        9,
    ) + draw::placed(rows, x, ky + 3, "\u{2502}       \u{2502}"@, bezel, 9) + draw::placed(
        rows,
        x,
        ky + 4,
        "\u{2570}\u{2500}\u{2500}\u{2500}\u{2500}\u{2500}\u{2500}\u{2500}\u{256f}"@,
        bezel,
        9,
    )
}

/// Name and percentage below a dial.
pub open spec fn knob_labels(rows: int, x: int, ky: int, index: int, percent: int) -> Seq<
    draw::Drawn,
> {
    let name = "KNOB "@ + text::decimal(index + 1);
    let p = text::decimal(percent) + "%"@;
    draw::placed(
        rows,
        draw::centred(x + 4, name.len() as int),
        ky + 5,
        name,
        draw::plain(Color::Gray),
        8,
    ) + draw::placed(
        rows,
        draw::centred(x + 4, p.len() as int),
        ky + 6,
        p,
        draw::plain(Color::Green),
        5,
    )
}

/// A whole knob.
pub open spec fn knob_ops(rows: int, x: int, ky: int, index: int, k: KnobView) -> Seq<draw::Drawn> {
    dial_ops(rows, x, ky) + pointer_ops(
        rows,
        x,
        ky,
        shown_direction(k),
        pointer_cells(shown_direction(k)).len(),
    ) + knob_labels(rows, x, ky, index, k.percent as int)
}

fn draw_dial(ops: &mut Vec<DrawOp>, rows: u16, x: u16, ky: u16)
    requires
        ky <= 100,
    ensures
        draw::drawn(final(ops)@) == draw::drawn(old(ops)@) + dial_ops(
            rows as int,
            x as int,
            ky as int,
        ),
{
    let ghost before = draw::drawn(ops@);
    let bezel = plain_style(Color::DarkGray);
    put(
        ops,
        rows,
        x,
        ky,
        owned("\u{256d}\u{2500}\u{2500}\u{2500}\u{2500}\u{2500}\u{2500}\u{2500}\u{256e}"),
        bezel,
        9,
    );
    put(ops, rows, x, ky + 1, owned("\u{2502}       \u{2502}"), bezel, 9);
    put(ops, rows, x, ky + 2, owned("\u{2502}   \u{25cf}   \u{2502}"), bezel, 9);
    put(ops, rows, x, ky + 3, owned("\u{2502}       \u{2502}"), bezel, 9);
    put(
        ops,
        rows,
        x,
        ky + 4,
        owned("\u{2570}\u{2500}\u{2500}\u{2500}\u{2500}\u{2500}\u{2500}\u{2500}\u{256f}"),
        bezel,
        9,
    );
    assert(draw::drawn(ops@) =~= before + dial_ops(rows as int, x as int, ky as int));
}

fn glyph_of(direction: u8) -> (s: &'static str)
    ensures
        s@ == pointer_glyph(direction as int),
{
    if direction == 0 || direction == 4 {
        "\u{2571}"
    } else if direction == 2 || direction >= 6 {
        "\u{2572}"
    } else if direction == 3 {
        "\u{2502}"
    } else {
        "\u{2500}"
    }
}

/// Row and column of cell `i` of a pointer, and the number of its cells.
fn cell_of(direction: u8, i: usize) -> (c: (u16, u16))
    requires
        i < pointer_cells(direction as int).len(),
    ensures
        (c.0 as int, c.1 as int) == pointer_cells(direction as int)[i as int],
        c.0 <= 3,
        c.1 <= 7,
{
    if direction == 0 {
        if i == 0 {
            (3, 3)
        } else {
            (3, 2)
        }
    } else if direction == 1 {
        if i == 0 {
            (2, 3)
        } else if i == 1 {
            (2, 2)
        } else {
            (2, 1)
        }
    } else if direction == 2 {
        if i == 0 {
            (1, 3)
        } else {
            (1, 2)
        }
    } else if direction == 3 {
        (1, 4)
    } else if direction == 4 {
        if i == 0 {
            (1, 5)
        } else {
            (1, 6)
        }
    } else if direction == 5 {
        if i == 0 {
            (2, 5)
        } else if i == 1 {
            (2, 6)
        } else {
            (2, 7)
        }
    } else if i == 0 {
        (3, 5)
    } else {
        (3, 6)
    }
}

fn draw_pointer(ops: &mut Vec<DrawOp>, rows: u16, x: u16, ky: u16, direction: u8)
    requires
        ky <= 100,
        x <= 60_000,
    ensures
        draw::drawn(final(ops)@) == draw::drawn(old(ops)@) + pointer_ops(
            rows as int,
            x as int,
            ky as int,
            direction as int,
            pointer_cells(direction as int).len(),
        ),
{
    let ghost before = draw::drawn(ops@);
    let n: usize = if direction == 1 || direction == 5 {
        3
    } else if direction == 3 {
        1
    } else {
        2
    };
    assert(n == pointer_cells(direction as int).len());
    let mut i: usize = 0;
    assert(before + Seq::<draw::Drawn>::empty() =~= before);
    while i < n
        invariant
            i <= n,
            n == pointer_cells(direction as int).len(),
            ky <= 100,
            x <= 60_000,
            draw::drawn(ops@) == before + pointer_ops(
                rows as int,
                x as int,
                ky as int,
                direction as int,
                i as nat,
            ),
        decreases n - i,
    {
        let (pr, pc) = cell_of(direction, i);
        put(ops, rows, x + pc, ky + pr, owned(glyph_of(direction)), bold_style(Color::White), 1);
        assert(draw::drawn(ops@) =~= before + pointer_ops(
            rows as int,
            x as int,
            ky as int,
            direction as int,
            (i + 1) as nat,
        ));
        i = i + 1;
    }
}

fn draw_knob(ops: &mut Vec<DrawOp>, rows: u16, x: u16, ky: u16, index: u16, k: KnobView)
    requires
        ky <= 100,
        x <= 60_000,
        index < 6,
    ensures
        draw::drawn(final(ops)@) == draw::drawn(old(ops)@) + knob_ops(
            rows as int,
            x as int,
            ky as int,
            index as int,
            k,
        ),
{
    let ghost before = draw::drawn(ops@);
    draw_dial(ops, rows, x, ky);
    let direction: u8 = if k.pointer > 6 {
        6
    } else {
        k.pointer
    };
    draw_pointer(ops, rows, x, ky, direction);
    let mut name = owned("KNOB ");
    push_decimal(&mut name, (index + 1) as u64);
    proof {
        text::lemma_numeral_is_short((index + 1) as nat, 10, false);
        text::lemma_numeral_is_short(k.percent as nat, 10, false);
        reveal_strlit("KNOB ");
        reveal_strlit("%");
    }
    let name_len = text_width(&name);
    put(ops, rows, cx(x + 4, name_len), ky + 5, name, plain_style(Color::Gray), 8);
    let mut p = String::new();
    push_decimal(&mut p, k.percent as u64);
    p.append("%");
    assert(p@ =~= text::decimal(k.percent as int) + "%"@);
    let p_len = text_width(&p);
    put(ops, rows, cx(x + 4, p_len), ky + 6, p, plain_style(Color::Green), 5);
    assert(draw::drawn(ops@) =~= before + knob_ops(
        rows as int,
        x as int,
        ky as int,
        index as int,
        k,
    ));
}

/// Characters of a text, as a width of at most the largest terminal.
fn text_width(s: &String) -> (w: u16)
    requires
        s@.len() <= 60_000,
    ensures
        w == s@.len(),
{
    s.as_str().unicode_len() as u16
}

// ---------------------------------------------------------------------------
// Toggle switches, wordmark, footswitches, enclosure
// ---------------------------------------------------------------------------

/// Glyph of a toggle switch.
pub open spec fn toggle_glyph(p: ToggleswitchPosition) -> Seq<char> {
    match p {
        ToggleswitchPosition::Up => "[\u{25b2}]"@,
        ToggleswitchPosition::Middle => "[\u{2550}]"@,
        ToggleswitchPosition::Down => "[\u{25bc}]"@,
    }
}

/// A toggle switch and its name.
pub open spec fn toggle_ops(rows: int, x: int, y: int, col: int, p: ToggleswitchPosition) -> Seq<
    draw::Drawn,
> {
    let name = "SWITCH "@ + text::decimal(col + 1);
    draw::placed(
        rows,
        draw::centred(x + 4, 3),
        y,
        toggle_glyph(p),
        draw::plain(Color::Yellow),
        3,
    ) + draw::placed(
        rows,
        draw::centred(x + 4, name.len() as int),
        y + 1,
        name,
        draw::plain(Color::Gray),
        9,
    )
}

fn draw_toggle(
    ops: &mut Vec<DrawOp>,
    rows: u16,
    x: u16,
    y: u16,
    col: u16,
    p: ToggleswitchPosition,
)
    requires
        y <= 100,
        x <= 60_000,
        col < 3,
    ensures
        draw::drawn(final(ops)@) == draw::drawn(old(ops)@) + toggle_ops(
            rows as int,
            x as int,
            y as int,
            col as int,
            p,
        ),
{
    let ghost before = draw::drawn(ops@);
    let g = match p {
        ToggleswitchPosition::Up => "[\u{25b2}]",
        ToggleswitchPosition::Middle => "[\u{2550}]",
        ToggleswitchPosition::Down => "[\u{25bc}]",
    };
    put(ops, rows, cx(x + 4, 3), y, owned(g), plain_style(Color::Yellow), 3);
    let mut s = owned("SWITCH ");
    push_decimal(&mut s, (col + 1) as u64);
    proof {
        text::lemma_numeral_is_short((col + 1) as nat, 10, false);
        reveal_strlit("SWITCH ");
    }
    let len = text_width(&s);
    put(ops, rows, cx(x + 4, len), y + 1, s, plain_style(Color::Gray), 9);
    assert(draw::drawn(ops@) =~= before + toggle_ops(
        rows as int,
        x as int,
        y as int,
        col as int,
        p,
    ));
}

/// The wordmark: each letter of the pedal's name turned a quarter to the left.
pub open spec fn logo_line(i: int) -> Seq<char> {
    if i == 0 {
        "\u{2588}\u{2588}\u{2588}\u{2588}\u{2588} \u{2588}\u{2588}\u{2588}\u{2588}\u{2588} \u{2588}     \u{2588}\u{2588}\u{2588}\u{2588}\u{2588} \u{2588}\u{2588}\u{2588}\u{2588}\u{2588} \u{2588}\u{2588}\u{2588}\u{2588}\u{2588} \u{2588} \u{2588}\u{2588}\u{2588} \u{2588} \u{2588} \u{2588}"@
    } else if i == 1 {
        "  \u{2588}   \u{2588}   \u{2588} \u{2588}\u{2588}\u{2588}\u{2588}\u{2588}   \u{2588}   \u{2588}   \u{2588}     \u{2588} \u{2588} \u{2588} \u{2588} \u{2588} \u{2588} \u{2588}"@
    } else {
        "\u{2588}\u{2588}\u{2588}\u{2588}\u{2588} \u{2588}\u{2588}\u{2588}\u{2588}\u{2588} \u{2588}     \u{2588}\u{2588}\u{2588}\u{2588}\u{2588} \u{2588}\u{2588}\u{2588}\u{2588}\u{2588} \u{2588}\u{2588}\u{2588}\u{2588}\u{2588} \u{2588}\u{2588}\u{2588} \u{2588} \u{2588}\u{2588}\u{2588}\u{2588}\u{2588}"@
    }
}

/// Wordmark and tag line.
pub open spec fn logo_ops(rows: int, ox: int) -> Seq<draw::Drawn> {
    let logo = draw::bold(Color::White);
    draw::placed(
        rows,
        draw::centred(ox + 25, logo_line(0).len() as int),
        20,
        logo_line(0),
        logo,
        50,
    ) + draw::placed(
        rows,
        draw::centred(ox + 25, logo_line(1).len() as int),
        21,
        logo_line(1),
        logo,
        50,
    ) + draw::placed(
        rows,
        draw::centred(ox + 25, logo_line(2).len() as int),
        22,
        logo_line(2),
        logo,
        50,
    ) + draw::placed(
        rows,
        draw::centred(ox + 25, 22),
        23,
        "diy :: dsp :: platform"@,
        draw::plain(Color::DarkGray),
        50,
    )
}

fn draw_logo(ops: &mut Vec<DrawOp>, rows: u16, ox: u16)
    requires
        ox <= 40_000,
    ensures
        draw::drawn(final(ops)@) == draw::drawn(old(ops)@) + logo_ops(rows as int, ox as int),
{
    let ghost before = draw::drawn(ops@);
    proof {
        reveal_strlit(
            "\u{2588}\u{2588}\u{2588}\u{2588}\u{2588} \u{2588}\u{2588}\u{2588}\u{2588}\u{2588} \u{2588}     \u{2588}\u{2588}\u{2588}\u{2588}\u{2588} \u{2588}\u{2588}\u{2588}\u{2588}\u{2588} \u{2588}\u{2588}\u{2588}\u{2588}\u{2588} \u{2588} \u{2588}\u{2588}\u{2588} \u{2588} \u{2588} \u{2588}",
        );
        reveal_strlit(
            "  \u{2588}   \u{2588}   \u{2588} \u{2588}\u{2588}\u{2588}\u{2588}\u{2588}   \u{2588}   \u{2588}   \u{2588}     \u{2588} \u{2588} \u{2588} \u{2588} \u{2588} \u{2588} \u{2588}",
        );
        reveal_strlit(
            "\u{2588}\u{2588}\u{2588}\u{2588}\u{2588} \u{2588}\u{2588}\u{2588}\u{2588}\u{2588} \u{2588}     \u{2588}\u{2588}\u{2588}\u{2588}\u{2588} \u{2588}\u{2588}\u{2588}\u{2588}\u{2588} \u{2588}\u{2588}\u{2588}\u{2588}\u{2588} \u{2588}\u{2588}\u{2588} \u{2588} \u{2588}\u{2588}\u{2588}\u{2588}\u{2588}",
        );
    }
    let logo = bold_style(Color::White);
    let l0 = owned(
        "\u{2588}\u{2588}\u{2588}\u{2588}\u{2588} \u{2588}\u{2588}\u{2588}\u{2588}\u{2588} \u{2588}     \u{2588}\u{2588}\u{2588}\u{2588}\u{2588} \u{2588}\u{2588}\u{2588}\u{2588}\u{2588} \u{2588}\u{2588}\u{2588}\u{2588}\u{2588} \u{2588} \u{2588}\u{2588}\u{2588} \u{2588} \u{2588} \u{2588}",
    );
    let w0 = text_width(&l0);
    put(ops, rows, cx(ox + 25, w0), 20, l0, logo, 50);
    let l1 = owned(
        "  \u{2588}   \u{2588}   \u{2588} \u{2588}\u{2588}\u{2588}\u{2588}\u{2588}   \u{2588}   \u{2588}   \u{2588}     \u{2588} \u{2588} \u{2588} \u{2588} \u{2588} \u{2588} \u{2588}",
    );
    let w1 = text_width(&l1);
    put(ops, rows, cx(ox + 25, w1), 21, l1, logo, 50);
    let l2 = owned(
        "\u{2588}\u{2588}\u{2588}\u{2588}\u{2588} \u{2588}\u{2588}\u{2588}\u{2588}\u{2588} \u{2588}     \u{2588}\u{2588}\u{2588}\u{2588}\u{2588} \u{2588}\u{2588}\u{2588}\u{2588}\u{2588} \u{2588}\u{2588}\u{2588}\u{2588}\u{2588} \u{2588}\u{2588}\u{2588} \u{2588} \u{2588}\u{2588}\u{2588}\u{2588}\u{2588}",
    );
    let w2 = text_width(&l2);
    put(ops, rows, cx(ox + 25, w2), 22, l2, logo, 50);
    put(
        ops,
        rows,
        cx(ox + 25, 22),
        23,
        owned("diy :: dsp :: platform"),
        plain_style(Color::DarkGray),
        50,
    );
    assert(draw::drawn(ops@) =~= before + logo_ops(rows as int, ox as int));
}

/// A footswitch: its indicator, its cap and its name.
pub open spec fn footswitch_ops(rows: int, x: int, i: int, on: bool) -> Seq<draw::Drawn> {
    let y = 25int;
    let btn = draw::plain(Color::Gray);
    let name = "FOOTSWITCH "@ + text::decimal(i + 1);
    draw::placed(
        rows,
        x + 3,
        y,
        "\u{25cf}"@,
        if on {
            draw::bold(Color::Red)
        } else {
            draw::plain(Color::DarkGray)
        },
        1,
    ) + draw::placed(
        rows,
        x,
        y + 1,
        "\u{256d}\u{2500}\u{2500}\u{2500}\u{2500}\u{2500}\u{256e}"@,
        btn,
        7,
    ) + draw::placed(
        rows,
        x,
        y + 2,
        if on {
            "\u{2502} \u{2588}\u{2588}\u{2588} \u{2502}"@
        } else {
            "\u{2502} \u{2593}\u{2593}\u{2593} \u{2502}"@
        },
        btn,
        7,
    ) + draw::placed(
        rows,
        x,
        y + 3,
        "\u{2570}\u{2500}\u{2500}\u{2500}\u{2500}\u{2500}\u{256f}"@,
        btn,
        7,
    ) + draw::placed(rows, draw::centred(x + 3, name.len() as int), y + 4, name, btn, 12)
}

fn draw_footswitch(ops: &mut Vec<DrawOp>, rows: u16, x: u16, i: u16, on: bool)
    requires
        x <= 60_000,
        i < 2,
    ensures
        draw::drawn(final(ops)@) == draw::drawn(old(ops)@) + footswitch_ops(
            rows as int,
            x as int,
            i as int,
            on,
        ),
{
    let ghost before = draw::drawn(ops@);
    let y: u16 = 25;
    let btn = plain_style(Color::Gray);
    let led = if on {
        bold_style(Color::Red)
    } else {
        plain_style(Color::DarkGray)
    };
    put(ops, rows, x + 3, y, owned("\u{25cf}"), led, 1);
    put(
        ops,
        rows,
        x,
        y + 1,
        owned("\u{256d}\u{2500}\u{2500}\u{2500}\u{2500}\u{2500}\u{256e}"),
        btn,
        7,
    );
    let face = if on {
        "\u{2502} \u{2588}\u{2588}\u{2588} \u{2502}"
    } else {
        "\u{2502} \u{2593}\u{2593}\u{2593} \u{2502}"
    };
    put(ops, rows, x, y + 2, owned(face), btn, 7);
    put(
        ops,
        rows,
        x,
        y + 3,
        owned("\u{2570}\u{2500}\u{2500}\u{2500}\u{2500}\u{2500}\u{256f}"),
        btn,
        7,
    );
    let mut name = owned("FOOTSWITCH ");
    push_decimal(&mut name, (i + 1) as u64);
    proof {
        text::lemma_numeral_is_short((i + 1) as nat, 10, false);
        reveal_strlit("FOOTSWITCH ");
    }
    let len = text_width(&name);
    put(ops, rows, cx(x + 3, len), y + 4, name, btn, 12);
    assert(draw::drawn(ops@) =~= before + footswitch_ops(rows as int, x as int, i as int, on));
}

/// A horizontal edge of the enclosure.
pub open spec fn edge_text(left: Seq<char>, right: Seq<char>, inner: int) -> Seq<char> {
    left + text::repeated('\u{2500}', inner) + right
}

/// The sides of the enclosure, rows 1 to `n`.
pub open spec fn side_ops(rows: int, bx0: int, bx1: int, n: nat) -> Seq<draw::Drawn>
    decreases n,
{
    if n == 0 {
        Seq::empty()
    } else {
        side_ops(rows, bx0, bx1, (n - 1) as nat) + draw::placed(
            rows,
            bx0,
            n as int,
            "\u{2502}"@,
            draw::plain(Color::Gray),
            1,
        ) + draw::placed(rows, bx1, n as int, "\u{2502}"@, draw::plain(Color::Gray), 1)
    }
}

/// The enclosure: from row 0 to row 30, two columns around the panel.
pub open spec fn enclosure_ops(rows: int, ox: int) -> Seq<draw::Drawn> {
    let bx0 = if ox >= 2 {
        ox - 2
    } else {
        0
    };
    let bx1 = ox + 51;
    let edge = draw::plain(Color::Gray);
    draw::placed(
        rows,
        bx0,
        0,
        edge_text("\u{256d}"@, "\u{256e}"@, bx1 - bx0 - 1),
        edge,
        bx1 - bx0 + 1,
    ) + draw::placed(
        rows,
        bx0,
        30,
        edge_text("\u{2570}"@, "\u{256f}"@, bx1 - bx0 - 1),
        edge,
        bx1 - bx0 + 1,
    ) + side_ops(rows, bx0, bx1, 29)
}

fn draw_enclosure(ops: &mut Vec<DrawOp>, rows: u16, ox: u16)
    requires
        ox <= 40_000,
    ensures
        draw::drawn(final(ops)@) == draw::drawn(old(ops)@) + enclosure_ops(rows as int, ox as int),
{
    let ghost before = draw::drawn(ops@);
    proof {
        reveal_strlit("\u{2500}");
        assert("\u{2500}"@ =~= seq!['\u{2500}']);
    }
    let edge = plain_style(Color::Gray);
    let bx0: u16 = ox.saturating_sub(2);
    let bx1: u16 = ox + 51;
    let inner: usize = (bx1 - bx0 - 1) as usize;
    let mut top = owned("\u{256d}");
    push_repeated(&mut top, "\u{2500}", inner, Ghost('\u{2500}'));
    top.append("\u{256e}");
    let mut bot = owned("\u{2570}");
    push_repeated(&mut bot, "\u{2500}", inner, Ghost('\u{2500}'));
    bot.append("\u{256f}");
    put(ops, rows, bx0, 0, top, edge, bx1 - bx0 + 1);
    put(ops, rows, bx0, 30, bot, edge, bx1 - bx0 + 1);
    let ghost framed = draw::drawn(ops@);
    let mut yy: u16 = 1;
    assert(framed + Seq::<draw::Drawn>::empty() =~= framed);
    while yy <= 29
        invariant
            1 <= yy <= 30,
            edge == draw::plain(Color::Gray),
            draw::drawn(ops@) == framed + side_ops(
                rows as int,
                bx0 as int,
                bx1 as int,
                (yy - 1) as nat,
            ),
        decreases 30 - yy,
    {
        put(ops, rows, bx0, yy, owned("\u{2502}"), edge, 1);
        put(ops, rows, bx1, yy, owned("\u{2502}"), edge, 1);
        assert(draw::drawn(ops@) =~= framed + side_ops(
            rows as int,
            bx0 as int,
            bx1 as int,
            yy as nat,
        ));
        yy = yy + 1;
    }
    assert(draw::drawn(ops@) =~= before + enclosure_ops(rows as int, ox as int));
}

// ---------------------------------------------------------------------------
// The whole panel
// ---------------------------------------------------------------------------

/// A row of three knobs, the first of which is number `first`.
pub open spec fn knob_row(c: Controls, rows: int, ox: int, ky: int, first: int) -> Seq<draw::Drawn> {
    knob_ops(rows, column(ox, 0), ky, first, c.knobs@[first]) + knob_ops(
        rows,
        column(ox, 1),
        ky,
        first + 1,
        c.knobs@[first + 1],
    ) + knob_ops(rows, column(ox, 2), ky, first + 2, c.knobs@[first + 2])
}

/// The three toggle switches, under the knob columns.
pub open spec fn toggle_row(c: Controls, rows: int, ox: int) -> Seq<draw::Drawn> {
    toggle_ops(rows, column(ox, 0), 17, 0, c.toggles@[0]) + toggle_ops(
        rows,
        column(ox, 1),
        17,
        1,
        c.toggles@[1],
    ) + toggle_ops(rows, column(ox, 2), 17, 2, c.toggles@[2])
}

/// The footswitches and the brand between them.
pub open spec fn footswitch_row(c: Controls, rows: int, ox: int) -> Seq<draw::Drawn> {
    footswitch_ops(rows, ox + 3, 0, c.footswitches@[0]) + footswitch_ops(
        rows,
        ox + 39,
        1,
        c.footswitches@[1],
    ) + draw::placed(rows, draw::centred(ox + 25, 5), 27, ">cle_"@, draw::bold(Color::Green), 6)
}

/// What a frame draws, in order.
pub open spec fn panel_ops(c: Controls, cols: int, rows: int) -> Seq<draw::Drawn> {
    let ox = left_edge(cols);
    knob_row(c, rows, ox, 1, 0) + knob_row(c, rows, ox, 9, 3) + toggle_row(c, rows, ox) + logo_ops(
        rows,
        ox,
    ) + footswitch_row(c, rows, ox) + enclosure_ops(rows, ox)
}

fn draw_knob_row(ops: &mut Vec<DrawOp>, c: &Controls, rows: u16, ox: u16, ky: u16, first: u16)
    requires
        ox <= 40_000,
        ky <= 100,
        first <= 3,
    ensures
        draw::drawn(final(ops)@) == draw::drawn(old(ops)@) + knob_row(
            *c,
            rows as int,
            ox as int,
            ky as int,
            first as int,
        ),
{
    let ghost before = draw::drawn(ops@);
    let k = first as usize;
    draw_knob(ops, rows, ox + 2, ky, first, c.knobs[k]);
    draw_knob(ops, rows, ox + 20, ky, first + 1, c.knobs[k + 1]);
    draw_knob(ops, rows, ox + 38, ky, first + 2, c.knobs[k + 2]);
    proof {
        let (r, o, y, f) = (rows as int, ox as int, ky as int, first as int);
        draw::lemma_three_runs(
            before,
            knob_ops(r, column(o, 0), y, f, c.knobs@[f]),
            knob_ops(r, column(o, 1), y, f + 1, c.knobs@[f + 1]),
            knob_ops(r, column(o, 2), y, f + 2, c.knobs@[f + 2]),
        );
    }
}

fn draw_toggle_row(ops: &mut Vec<DrawOp>, c: &Controls, rows: u16, ox: u16)
    requires
        ox <= 40_000,
    ensures
        draw::drawn(final(ops)@) == draw::drawn(old(ops)@) + toggle_row(*c, rows as int, ox as int),
{
    let ghost before = draw::drawn(ops@);
    draw_toggle(ops, rows, ox + 2, 17, 0, c.toggles[0]);
    draw_toggle(ops, rows, ox + 20, 17, 1, c.toggles[1]);
    draw_toggle(ops, rows, ox + 38, 17, 2, c.toggles[2]);
    proof {
        let (r, o) = (rows as int, ox as int);
        draw::lemma_three_runs(
            before,
            toggle_ops(r, column(o, 0), 17, 0, c.toggles@[0]),
            toggle_ops(r, column(o, 1), 17, 1, c.toggles@[1]),
            toggle_ops(r, column(o, 2), 17, 2, c.toggles@[2]),
        );
    }
}

fn draw_footswitch_row(ops: &mut Vec<DrawOp>, c: &Controls, rows: u16, ox: u16)
    requires
        ox <= 40_000,
    ensures
        draw::drawn(final(ops)@) == draw::drawn(old(ops)@) + footswitch_row(
            *c,
            rows as int,
            ox as int,
        ),
{
    let ghost before = draw::drawn(ops@);
    draw_footswitch(ops, rows, ox + 3, 0, c.footswitches[0]);
    draw_footswitch(ops, rows, ox + 39, 1, c.footswitches[1]);
    put(ops, rows, cx(ox + 25, 5), 27, owned(">cle_"), bold_style(Color::Green), 6);
    proof {
        let (r, o) = (rows as int, ox as int);
        draw::lemma_three_runs(
            before,
            footswitch_ops(r, o + 3, 0, c.footswitches@[0]),
            footswitch_ops(r, o + 39, 1, c.footswitches@[1]),
            draw::placed(r, draw::centred(o + 25, 5), 27, ">cle_"@, draw::bold(Color::Green), 6),
        );
    }
}

/// Draws the panel on a terminal of `cols` by `rows`.
pub fn render(c: &Controls, cols: u16, rows: u16) -> (ops: Vec<DrawOp>)
    ensures
        draw::drawn(ops@) == panel_ops(*c, cols as int, rows as int),
{
    let ox: u16 = cols.saturating_sub(CONTENT_W) / 2;
    let mut ops: Vec<DrawOp> = Vec::new();
    proof {
        let first = knob_row(*c, rows as int, ox as int, 1, 0);
        assert(draw::drawn(ops@) =~= Seq::empty());
        assert(Seq::<draw::Drawn>::empty() + first =~= first);
    }
    draw_knob_row(&mut ops, c, rows, ox, 1, 0);
    draw_knob_row(&mut ops, c, rows, ox, 9, 3);
    draw_toggle_row(&mut ops, c, rows, ox);
    draw_logo(&mut ops, rows, ox);
    draw_footswitch_row(&mut ops, c, rows, ox);
    draw_enclosure(&mut ops, rows, ox);
    ops
}

proof fn lemma_pointer_within(rows: int, x: int, ky: int, direction: int, n: nat)
    ensures
        draw::within(rows, pointer_ops(rows, x, ky, direction, n)),
    decreases n,
{
    broadcast use {draw::lemma_within_both, draw::lemma_within_placed};

    if n > 0 {
        lemma_pointer_within(rows, x, ky, direction, (n - 1) as nat);
    }
}

proof fn lemma_knob_within(rows: int, x: int, ky: int, index: int, k: KnobView)
    ensures
        draw::within(rows, knob_ops(rows, x, ky, index, k)),
{
    broadcast use {draw::lemma_within_both, draw::lemma_within_placed};

    let d = shown_direction(k);
    lemma_pointer_within(rows, x, ky, d, pointer_cells(d).len());
    assert(draw::within(rows, dial_ops(rows, x, ky)));
    assert(draw::within(rows, knob_labels(rows, x, ky, index, k.percent as int)));
}

proof fn lemma_knob_row_within(c: Controls, rows: int, ox: int, ky: int, first: int)
    ensures
        draw::within(rows, knob_row(c, rows, ox, ky, first)),
{
    broadcast use draw::lemma_within_both;

    lemma_knob_within(rows, column(ox, 0), ky, first, c.knobs@[first]);
    lemma_knob_within(rows, column(ox, 1), ky, first + 1, c.knobs@[first + 1]);
    lemma_knob_within(rows, column(ox, 2), ky, first + 2, c.knobs@[first + 2]);
}

proof fn lemma_sides_within(rows: int, bx0: int, bx1: int, n: nat)
    ensures
        draw::within(rows, side_ops(rows, bx0, bx1, n)),
    decreases n,
{
    broadcast use {draw::lemma_within_both, draw::lemma_within_placed};

    if n > 0 {
        lemma_sides_within(rows, bx0, bx1, (n - 1) as nat);
    }
}

/// However short the terminal is, the panel draws nothing below it.
pub proof fn law_panel_stays_on_the_terminal(c: Controls, cols: int, rows: int)
    ensures
        draw::within(rows, panel_ops(c, cols, rows)),
{
    broadcast use {draw::lemma_within_both, draw::lemma_within_placed};

    let ox = left_edge(cols);
    lemma_knob_row_within(c, rows, ox, 1, 0);
    lemma_knob_row_within(c, rows, ox, 9, 3);
    lemma_sides_within(
        rows,
        if ox >= 2 {
            ox - 2
        } else {
            0
        },
        ox + 51,
        29,
    );
    assert(draw::within(rows, toggle_ops(rows, column(ox, 0), 17, 0, c.toggles@[0])));
    assert(draw::within(rows, toggle_ops(rows, column(ox, 1), 17, 1, c.toggles@[1])));
    assert(draw::within(rows, toggle_ops(rows, column(ox, 2), 17, 2, c.toggles@[2])));
    assert(draw::within(rows, toggle_row(c, rows, ox)));
    assert(draw::within(rows, logo_ops(rows, ox)));
    assert(draw::within(rows, footswitch_ops(rows, ox + 3, 0, c.footswitches@[0])));
    assert(draw::within(rows, footswitch_ops(rows, ox + 39, 1, c.footswitches@[1])));
    assert(draw::within(rows, footswitch_row(c, rows, ox)));
    assert(draw::within(rows, enclosure_ops(rows, ox)));
}

/// The panel stands in the middle of the terminal, half a cell to the left where
/// it cannot, and at the left edge of one that is too narrow. Its three columns
/// lie evenly between its edges.
pub proof fn law_panel_is_centred(cols: int, ox: int)
    ensures
        cols >= 50 ==> cols - 1 <= 2 * left_edge(cols) + 50 <= cols,
        cols < 50 ==> left_edge(cols) == 0,
        column(ox, 0) == ox + 2,
        column(ox, 1) - column(ox, 0) == 18,
        column(ox, 2) - column(ox, 1) == 18,
        column(ox, 2) + 9 < ox + 50,
{
}

/// The pointer directions go round clockwise from the lower left to the lower
/// right, and are mirror images: a direction as far from the last as another is
/// from the first shows the same rows, with the columns mirrored at the hub.
pub proof fn law_pointers_are_mirror_images(d: int, i: int)
    requires
        0 <= d <= 6,
        0 <= i < pointer_cells(d).len(),
    ensures
        pointer_cells(6 - d).len() == pointer_cells(d).len(),
        pointer_cells(6 - d)[i].0 == pointer_cells(d)[i].0,
        pointer_cells(6 - d)[i].1 + pointer_cells(d)[i].1 == 8,
        1 <= pointer_cells(d)[i].0 <= 3,
        1 <= pointer_cells(d)[i].1 <= 7,
        d < 3 ==> pointer_cells(d)[i].1 == 3 - i,
        d == 3 ==> pointer_cells(d)[i] == (1int, 4int),
        d < 3 ==> pointer_cells(d)[i].0 == 3 - d,
        d == 1 || d == 5 <==> pointer_cells(d).len() == 3,
        d == 3 <==> pointer_cells(d).len() == 1,
{
}

/// The direction shown is the knob's own, up to the last.
pub proof fn law_pointers_stop_at_the_last(k: KnobView)
    ensures
        k.pointer <= 6 ==> shown_direction(k) == k.pointer,
        k.pointer > 6 ==> shown_direction(k) == 6,
{
}

/// A toggle shows an arrow up, a bar or an arrow down, as it stands.
pub proof fn law_toggles_show_their_position(rows: int, x: int, y: int, col: int)
    requires
        y + 1 < rows,
        x >= 0,
    ensures
        toggle_ops(rows, x, y, col, ToggleswitchPosition::Up)[0].text == "[\u{25b2}]"@,
        toggle_ops(rows, x, y, col, ToggleswitchPosition::Middle)[0].text == "[\u{2550}]"@,
        toggle_ops(rows, x, y, col, ToggleswitchPosition::Down)[0].text == "[\u{25bc}]"@,
        forall|p: ToggleswitchPosition|
            (#[trigger] toggle_ops(rows, x, y, col, p)).len() == 2 && toggle_ops(
                rows,
                x,
                y,
                col,
                p,
            )[0].x == x + 3 && toggle_ops(rows, x, y, col, p)[0].y == y && toggle_ops(
                rows,
                x,
                y,
                col,
                p,
            )[1].text == "SWITCH "@ + text::decimal(col + 1),
{
}

/// A footswitch's light is red while it is held down and dark otherwise, above
/// the button, and its name stands below.
pub proof fn law_footswitch_lights_show_the_switch(rows: int, x: int, i: int, on: bool)
    requires
        rows >= 30,
    ensures
        footswitch_ops(rows, x, i, on).len() == 5,
        footswitch_ops(rows, x, i, on)[0].y == 25,
        footswitch_ops(rows, x, i, on)[0].x == x + 3,
        footswitch_ops(rows, x, i, true)[0].style.fg == Color::Red,
        footswitch_ops(rows, x, i, false)[0].style.fg == Color::DarkGray,
        footswitch_ops(rows, x, i, on)[4].text == "FOOTSWITCH "@ + text::decimal(i + 1),
        footswitch_ops(rows, x, i, on)[4].y == 29,
{
}

/// A knob's labels give its number, counted from one, and its percentage below.
pub proof fn law_knob_labels_name_the_knob(rows: int, x: int, ky: int, index: int, percent: int)
    requires
        ky + 6 < rows,
    ensures
        knob_labels(rows, x, ky, index, percent).len() == 2,
        knob_labels(rows, x, ky, index, percent)[0].text == "KNOB "@ + text::decimal(index + 1),
        knob_labels(rows, x, ky, index, percent)[1].text == text::decimal(percent) + "%"@,
        knob_labels(rows, x, ky, index, percent)[0].y == ky + 5,
        knob_labels(rows, x, ky, index, percent)[1].y == ky + 6,
{
}

/// A pointer is drawn cell by cell, each where its direction says, counted from
/// the corner of the dial.
pub proof fn law_pointer_cells_are_drawn(rows: int, x: int, ky: int, direction: int, n: nat, i: int)
    requires
        0 <= direction <= 6,
        n <= pointer_cells(direction).len(),
        ky + 3 < rows,
        0 <= i < n,
    ensures
        pointer_ops(rows, x, ky, direction, n).len() == n,
        pointer_ops(rows, x, ky, direction, n)[i].x == x + pointer_cells(direction)[i].1,
        pointer_ops(rows, x, ky, direction, n)[i].y == ky + pointer_cells(direction)[i].0,
        pointer_ops(rows, x, ky, direction, n)[i].text == pointer_glyph(direction),
    decreases n,
{
    if n > 1 {
        law_pointer_cells_are_drawn(
            rows,
            x,
            ky,
            direction,
            (n - 1) as nat,
            if i < n - 1 {
                i
            } else {
                0
            },
        );
    }
    reveal_with_fuel(pointer_ops, 2);
}

/// A pointer's stroke lies along its direction: straight up, level, or one of
/// the two slants, which alternate from the lower left on.
pub proof fn law_pointer_strokes_by_direction(d: int)
    requires
        0 <= d <= 6,
    ensures
        pointer_glyph(d) == if d == 3 {
            "\u{2502}"@
        } else if d == 1 || d == 5 {
            "\u{2500}"@
        } else if d % 4 == 0 {
            "\u{2571}"@
        } else {
            "\u{2572}"@
        },
{
}

/// The two footswitches stand left and right, each lit by its own switch.
pub proof fn law_footswitches_stand_left_and_right(c: Controls, rows: int, ox: int)
    requires
        rows >= 30,
    ensures
        footswitch_row(c, rows, ox).len() == 11,
        footswitch_row(c, rows, ox)[0].x == ox + 6,
        footswitch_row(c, rows, ox)[5].x == ox + 42,
        c.footswitches@[0] <==> footswitch_row(c, rows, ox)[0].style.fg == Color::Red,
        c.footswitches@[1] <==> footswitch_row(c, rows, ox)[5].style.fg == Color::Red,
        footswitch_row(c, rows, ox)[4].text == "FOOTSWITCH "@ + text::decimal(1),
        footswitch_row(c, rows, ox)[9].text == "FOOTSWITCH "@ + text::decimal(2),
        footswitch_row(c, rows, ox)[10].y == 27,
{
    law_footswitch_lights_show_the_switch(rows, ox + 3, 0, c.footswitches@[0]);
    law_footswitch_lights_show_the_switch(rows, ox + 39, 1, c.footswitches@[1]);
}

/// The three toggles stand in their columns, in order.
pub proof fn law_toggles_stand_in_their_columns(c: Controls, rows: int, ox: int)
    requires
        rows >= 19,
        ox >= 0,
    ensures
        toggle_row(c, rows, ox).len() == 6,
        toggle_row(c, rows, ox)[0].x == ox + 5 && toggle_row(c, rows, ox)[2].x == ox + 23
            && toggle_row(c, rows, ox)[4].x == ox + 41,
        toggle_row(c, rows, ox)[0].text == toggle_glyph(c.toggles@[0]),
        toggle_row(c, rows, ox)[2].text == toggle_glyph(c.toggles@[1]),
        toggle_row(c, rows, ox)[4].text == toggle_glyph(c.toggles@[2]),
        toggle_row(c, rows, ox)[1].text == "SWITCH "@ + text::decimal(1),
        toggle_row(c, rows, ox)[3].text == "SWITCH "@ + text::decimal(2),
        toggle_row(c, rows, ox)[5].text == "SWITCH "@ + text::decimal(3),
        toggle_row(c, rows, ox)[0].y == 17,
{
    law_toggles_show_their_position(rows, ox + 2, 17, 0);
    law_toggles_show_their_position(rows, ox + 20, 17, 1);
    law_toggles_show_their_position(rows, ox + 38, 17, 2);
}

/// The sides run down both edges of the enclosure, a row at a time.
pub proof fn law_sides_run_down_both_edges(rows: int, bx0: int, bx1: int, n: nat, i: int)
    requires
        n < rows,
        0 <= i < n,
    ensures
        side_ops(rows, bx0, bx1, n).len() == 2 * n,
        side_ops(rows, bx0, bx1, n)[2 * i].x == bx0,
        side_ops(rows, bx0, bx1, n)[2 * i + 1].x == bx1,
        side_ops(rows, bx0, bx1, n)[2 * i].y == i + 1,
        side_ops(rows, bx0, bx1, n)[2 * i + 1].y == i + 1,
        side_ops(rows, bx0, bx1, n)[2 * i].maxw == 1,
        side_ops(rows, bx0, bx1, n)[2 * i + 1].maxw == 1,
    decreases n,
{
    if n > 1 {
        law_sides_run_down_both_edges(
            rows,
            bx0,
            bx1,
            (n - 1) as nat,
            if i < n - 1 {
                i
            } else {
                0
            },
        );
    }
    reveal_with_fuel(side_ops, 2);
}

/// The enclosure goes from the first row to row 30, and two columns round the
/// panel where there is room.
pub proof fn law_enclosure_goes_round_the_panel(rows: int, ox: int)
    requires
        rows >= 31,
        ox >= 2,
    ensures
        enclosure_ops(rows, ox).len() == 60,
        enclosure_ops(rows, ox)[0].y == 0 && enclosure_ops(rows, ox)[1].y == 30,
        enclosure_ops(rows, ox)[0].x == ox - 2 && enclosure_ops(rows, ox)[1].x == ox - 2,
        enclosure_ops(rows, ox)[2].x == ox - 2 && enclosure_ops(rows, ox)[3].x == ox + 51,
        enclosure_ops(rows, ox)[0].maxw == 54 && enclosure_ops(rows, ox)[1].maxw == 54,
{
    law_sides_run_down_both_edges(rows, ox - 2, ox + 51, 29, 0);
}

/// The wordmark takes rows 20 to 22, in bold, and the tag line row 23.
pub proof fn law_wordmark_has_its_rows(rows: int, ox: int)
    requires
        rows >= 24,
    ensures
        logo_ops(rows, ox).len() == 4,
        logo_ops(rows, ox)[0].y == 20 && logo_ops(rows, ox)[1].y == 21 && logo_ops(rows, ox)[2].y
            == 22 && logo_ops(rows, ox)[3].y == 23,
        logo_ops(rows, ox)[0].style.bold && !logo_ops(rows, ox)[3].style.bold,
        logo_ops(rows, ox)[3].text == "diy :: dsp :: platform"@,
        ox >= 0 ==> logo_ops(rows, ox)[3].x == ox + 14,
{
}

/// A dial is a box of nine columns and five rows, with its hub on the middle row.
pub proof fn law_dials_are_nine_by_five(rows: int, x: int, ky: int, i: int)
    requires
        ky + 4 < rows,
        0 <= i < 5,
    ensures
        dial_ops(rows, x, ky).len() == 5,
        dial_ops(rows, x, ky)[i].x == x,
        dial_ops(rows, x, ky)[i].y == ky + i,
        dial_ops(rows, x, ky)[i].maxw == 9,
        dial_ops(rows, x, ky)[i].text.len() == 9,
        dial_ops(rows, x, ky)[2].text[4] == '\u{25cf}',
        dial_ops(rows, x, ky)[i].style.fg == Color::DarkGray,
{
    reveal_strlit("\u{256d}\u{2500}\u{2500}\u{2500}\u{2500}\u{2500}\u{2500}\u{2500}\u{256e}");
    reveal_strlit("\u{2502}       \u{2502}");
    reveal_strlit("\u{2502}   \u{25cf}   \u{2502}");
    reveal_strlit("\u{2570}\u{2500}\u{2500}\u{2500}\u{2500}\u{2500}\u{2500}\u{2500}\u{256f}");
}

/// The knobs of a row stand in the three columns, in order: each dial where its
/// column is, each with its own number and percentage.
pub proof fn law_knobs_stand_in_their_columns(c: Controls, rows: int, ox: int, ky: int, first: int)
    requires
        ky + 6 < rows,
        0 <= first <= 3,
    ensures
        ({
            let a = knob_ops(rows, ox + 2, ky, first, c.knobs@[first]);
            let b = knob_ops(rows, ox + 20, ky, first + 1, c.knobs@[first + 1]);
            let d = knob_ops(rows, ox + 38, ky, first + 2, c.knobs@[first + 2]);
            &&& knob_row(c, rows, ox, ky, first) == a + b + d
            &&& a[0].x == ox + 2 && b[0].x == ox + 20 && d[0].x == ox + 38
            &&& a.last().text == text::decimal(c.knobs@[first].percent as int) + "%"@
            &&& b.last().text == text::decimal(c.knobs@[first + 1].percent as int) + "%"@
            &&& d.last().text == text::decimal(c.knobs@[first + 2].percent as int) + "%"@
        }),
{
}

} // verus!
