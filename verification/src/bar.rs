//! Ten-cell progress bars with three fill levels per cell (30 units in all).

use vstd::prelude::*;
use crate::color::{wrap, red, green, wrapped};

verus! {

/// Cells in a bar.
pub const CELLS: i32 = 10;
/// Fill levels of one cell.
pub const LEVELS: i32 = 3;
/// Fill units of a whole bar.
pub const TOTAL: i32 = 30;

/// The glyph of a cell filled to `fill` levels: empty, one third, two
/// thirds, and full for any other level.
pub open spec fn glyph_text(fill: int) -> Seq<char> {
    if fill == 0 { "░"@ } else if fill == 1 { "▒"@ } else if fill == 2 { "▓"@ } else { "█"@ }
}

/// How many of the levels of cell `i` a bar filled to `units` covers.
pub open spec fn cell_fill(units: int, i: int) -> int {
    let f = units - i * 3;
    if f < 0 { 0 } else if f > 3 { 3 } else { f }
}

/// The cells `0..k` of a bar, each rendered by `cell`, side by side.
pub open spec fn cells(cell: spec_fn(int) -> Seq<char>, k: int) -> Seq<char>
    decreases k,
{
    if k <= 0 {
        Seq::empty()
    } else {
        cells(cell, k - 1) + cell(k - 1)
    }
}

/// A cell of a plain bar: filled cells in `style` (if any), empty ones plain.
pub open spec fn plain_cell(units: int, style: Option<Seq<char>>, no_color: bool, i: int) -> Seq<char> {
    let f = cell_fill(units, i);
    if f > 0 {
        match style {
            Some(s) => wrapped(glyph_text(f), s, no_color),
            None => glyph_text(f),
        }
    } else {
        "░"@
    }
}

/// A cell of a bar with a threshold: the filled part of a cell that reaches
/// past `thresh` units is red.
pub open spec fn threshold_cell(units: int, thresh: int, no_color: bool, i: int) -> Seq<char> {
    let f = cell_fill(units, i);
    if f > 0 {
        if i * 3 + f > thresh {
            wrapped(glyph_text(f), "red"@, no_color)
        } else {
            glyph_text(f)
        }
    } else {
        "░"@
    }
}

/// A cell of a bar against an expected level: usage past the expected units,
/// or the partial tip when over the expected curve, is red; the partial tip
/// when under it is green; empty cells within the expected units are green.
pub open spec fn curve_cell(units: int, expected: int, over: bool, no_color: bool, i: int) -> Seq<char> {
    let used = cell_fill(units, i);
    let exp = cell_fill(expected, i);
    if used > 0 {
        if i * 3 + used > expected || (over && used < 3) {
            wrapped(glyph_text(used), "red"@, no_color)
        } else if !over && used < 3 {
            wrapped(glyph_text(used), "green"@, no_color)
        } else {
            glyph_text(used)
        }
    } else if exp > 0 {
        wrapped("░"@, "green"@, no_color)
    } else {
        "░"@
    }
}

/// The view of an optional style name.
pub open spec fn style_view(style: Option<&str>) -> Option<Seq<char>> {
    match style {
        Some(s) => Some(s@),
        None => None,
    }
}

/// The glyph of a cell filled to `fill` levels.
pub fn glyph(fill: i32) -> (res: &'static str)
    ensures
        res@ == glyph_text(fill as int),
{
    if fill == 0 {
        "░"
    } else if fill == 1 {
        "▒"
    } else if fill == 2 {
        "▓"
    } else {
        "█"
    }
}

fn fill_of(units: i32, i: i32) -> (res: i32)
    requires
        0 <= units <= TOTAL,
        0 <= i < CELLS,
    ensures
        res == cell_fill(units as int, i as int),
{
    let f = units - i * LEVELS;
    if f < 0 { 0 } else if f > LEVELS { LEVELS } else { f }
}

/// A bar filled to `units` (of 30), its filled cells in `style` when given.
pub fn plain_bar(units: i32, style: Option<&str>, no_color: bool) -> (res: String)
    requires
        0 <= units <= TOTAL,
    ensures
        res@ == cells(|i: int| plain_cell(units as int, style_view(style), no_color, i), 10),
{
    let ghost st = style_view(style);
    let ghost f = |i: int| plain_cell(units as int, st, no_color, i);
    let mut bar = String::new();
    let mut i: i32 = 0;
    while i < CELLS
        invariant
            0 <= units <= TOTAL,
            0 <= i <= CELLS,
            st == style_view(style),
            f == (|i: int| plain_cell(units as int, st, no_color, i)),
            bar@ == cells(f, i as int),
        decreases CELLS - i,
    {
        let fill = fill_of(units, i);
        if fill > 0 {
            let g = glyph(fill);
            match style {
                Some(s) => {
                    let w = wrap(g, s, no_color);
                    bar.append(w.as_str());
                },
                None => bar.append(g),
            }
        } else {
            bar.append("░");
        }
        i = i + 1;
    }
    bar
}

/// A bar filled to `units` (of 30) whose filled part past `thresh` units is red.
pub fn threshold_bar(units: i32, thresh: i32, no_color: bool) -> (res: String)
    requires
        0 <= units <= TOTAL,
    ensures
        res@ == cells(|i: int| threshold_cell(units as int, thresh as int, no_color, i), 10),
{
    let ghost f = |i: int| threshold_cell(units as int, thresh as int, no_color, i);
    let mut bar = String::new();
    let mut i: i32 = 0;
    while i < CELLS
        invariant
            0 <= units <= TOTAL,
            0 <= i <= CELLS,
            f == (|i: int| threshold_cell(units as int, thresh as int, no_color, i)),
            bar@ == cells(f, i as int),
        decreases CELLS - i,
    {
        let fill = fill_of(units, i);
        if fill > 0 {
            let g = glyph(fill);
            if i * LEVELS + fill > thresh {
                let w = red(g, no_color);
                bar.append(w.as_str());
            } else {
                bar.append(g);
            }
        } else {
            bar.append("░");
        }
        i = i + 1;
    }
    bar
}

/// A bar filled to `units` (of 30) against `expected` units; `over` tells
/// whether the usage is above the expected curve. Its tip colour agrees with
/// `over`: over the curve (at or past the expected units) it shows only red
/// cells besides plain ones, under it (at or below) only green ones; see
/// [`law_make_bar_tip`].
pub fn make_bar(units: i32, expected: i32, over: bool, no_color: bool) -> (res: String)
    requires
        0 <= units <= TOTAL,
        0 <= expected <= TOTAL,
    ensures
        res@ == cells(|i: int| curve_cell(units as int, expected as int, over, no_color, i), 10),
        over && units >= expected ==> res@ == marked_bar(units as int,
            |i: int| curve_red(units as int, expected as int, over, i), "red"@, no_color),
        !over && units <= expected ==> res@ == marked_bar(units as int,
            |i: int| curve_green(units as int, expected as int, over, i), "green"@, no_color),
{
    proof { law_make_bar_tip(units as int, expected as int, over, no_color); }
    let ghost f = |i: int| curve_cell(units as int, expected as int, over, no_color, i);
    let mut bar = String::new();
    let mut i: i32 = 0;
    while i < CELLS
        invariant
            0 <= units <= TOTAL,
            0 <= expected <= TOTAL,
            0 <= i <= CELLS,
            f == (|i: int| curve_cell(units as int, expected as int, over, no_color, i)),
            bar@ == cells(f, i as int),
        decreases CELLS - i,
    {
        let cell_used = fill_of(units, i);
        let cell_exp = fill_of(expected, i);
        if cell_used > 0 {
            let g = glyph(cell_used);
            if i * LEVELS + cell_used > expected || (over && cell_used < LEVELS) {
                let w = red(g, no_color);
                bar.append(w.as_str());
            } else if !over && cell_used < LEVELS {
                let w = green(g, no_color);
                bar.append(w.as_str());
            } else {
                bar.append(g);
            }
        } else if cell_exp > 0 {
            let w = green("░", no_color);
            bar.append(w.as_str());
        } else {
            bar.append("░");
        }
        i = i + 1;
    }
    bar
}

/// A cell with colors off: its glyph alone.
pub open spec fn bare_cell(units: int, i: int) -> Seq<char> {
    glyph_text(cell_fill(units, i))
}

proof fn lemma_cells_agree(f: spec_fn(int) -> Seq<char>, g: spec_fn(int) -> Seq<char>, k: int)
    requires
        forall|i: int| 0 <= i < k ==> #[trigger] f(i) == g(i),
    ensures
        cells(f, k) == cells(g, k),
    decreases k,
{
    if k > 0 {
        lemma_cells_agree(f, g, k - 1);
    }
}

proof fn lemma_cells_len(f: spec_fn(int) -> Seq<char>, k: int)
    requires
        k >= 0,
        forall|i: int| 0 <= i < k ==> (#[trigger] f(i)).len() == 1,
    ensures
        cells(f, k).len() == k,
    decreases k,
{
    if k > 0 {
        lemma_cells_len(f, k - 1);
    }
}

/// With colors off, the three kinds of bar show the same cells, whatever the
/// style, threshold or expected level: one glyph per cell, ten in all.
pub proof fn law_bars_without_color(
    units: int,
    style: Option<Seq<char>>,
    thresh: int,
    expected: int,
    over: bool,
)
    ensures
        cells(|i: int| plain_cell(units, style, true, i), 10) == cells(|i: int| bare_cell(units, i), 10),
        cells(|i: int| threshold_cell(units, thresh, true, i), 10) == cells(|i: int| bare_cell(units, i), 10),
        cells(|i: int| curve_cell(units, expected, over, true, i), 10) == cells(|i: int| bare_cell(units, i), 10),
        cells(|i: int| bare_cell(units, i), 10).len() == 10,
{
    reveal_strlit("░");
    reveal_strlit("▒");
    reveal_strlit("▓");
    reveal_strlit("█");
    let b = |i: int| bare_cell(units, i);
    lemma_cells_agree(|i: int| plain_cell(units, style, true, i), b, 10);
    lemma_cells_agree(|i: int| threshold_cell(units, thresh, true, i), b, 10);
    lemma_cells_agree(|i: int| curve_cell(units, expected, over, true, i), b, 10);
    lemma_cells_len(b, 10);
}

/// Whether cell `i` of a bar against an expected level is red: it holds
/// usage past the expected units, or it is the partial tip over the curve.
pub open spec fn curve_red(units: int, expected: int, over: bool, i: int) -> bool {
    let used = cell_fill(units, i);
    used > 0 && (i * 3 + used > expected || (over && used < 3))
}

/// Whether cell `i` of a bar against an expected level is green: it is the
/// partial tip under the curve, or an empty cell within the expected units.
pub open spec fn curve_green(units: int, expected: int, over: bool, i: int) -> bool {
    let used = cell_fill(units, i);
    if used > 0 {
        !(i * 3 + used > expected) && !over && used < 3
    } else {
        cell_fill(expected, i) > 0
    }
}

/// The ten glyphs of a bar, those marked by `marked` wrapped in `style`.
pub open spec fn marked_bar(units: int, marked: spec_fn(int) -> bool, style: Seq<char>, no_color: bool) -> Seq<char> {
    cells(|i: int| if marked(i) { wrapped(bare_cell(units, i), style, no_color) } else { bare_cell(units, i) }, 10)
}

/// The text of `make_bar` (the cells of [`curve_cell`]) agrees with `over`:
/// over the curve and at or past the expected units it is the ten glyphs
/// with some wrapped in red and none in green; under the curve and at or
/// below the expected units, with some wrapped in green and none in red. Its
/// glyphs alone are ten, each one of `░ ▒ ▓ █`.
pub proof fn law_make_bar_tip(units: int, expected: int, over: bool, no_color: bool)
    requires
        0 <= units <= 30,
        0 <= expected <= 30,
    ensures
        over && units >= expected ==> cells(|i: int| curve_cell(units, expected, over, no_color, i), 10)
            == marked_bar(units, |i: int| curve_red(units, expected, over, i), "red"@, no_color),
        !over && units <= expected ==> cells(|i: int| curve_cell(units, expected, over, no_color, i), 10)
            == marked_bar(units, |i: int| curve_green(units, expected, over, i), "green"@, no_color),
        cells(|i: int| bare_cell(units, i), 10).len() == 10,
        forall|i: int| 0 <= i < 10 ==> {
            let g = #[trigger] bare_cell(units, i);
            g == "░"@ || g == "▒"@ || g == "▓"@ || g == "█"@
        },
{
    law_bars_without_color(units, None, 0, expected, over);
    let f = |i: int| curve_cell(units, expected, over, no_color, i);
    if over && units >= expected {
        let red = |i: int| curve_red(units, expected, over, i);
        let g = |i: int| if red(i) { wrapped(bare_cell(units, i), "red"@, no_color) } else { bare_cell(units, i) };
        assert forall|i: int| 0 <= i < 10 implies #[trigger] f(i) == g(i) by {}
        lemma_cells_agree(f, g, 10);
    }
    if !over && units <= expected {
        let green = |i: int| curve_green(units, expected, over, i);
        let g = |i: int| if green(i) { wrapped(bare_cell(units, i), "green"@, no_color) } else { bare_cell(units, i) };
        assert forall|i: int| 0 <= i < 10 implies #[trigger] f(i) == g(i) by {}
        lemma_cells_agree(f, g, 10);
    }
}

/// A threshold bar marks nothing while the usage stays within the
/// threshold: with `units` at or below `thresh` it is the plain, unstyled bar.
/// Past the threshold, the cell that holds the first unit over it is red.
pub proof fn law_threshold_bar_red_only_past_threshold(units: int, thresh: int, no_color: bool)
    requires
        0 <= units <= 30,
        0 <= thresh,
    ensures
        units <= thresh ==> cells(|i: int| threshold_cell(units, thresh, no_color, i), 10)
            == cells(|i: int| plain_cell(units, None, no_color, i), 10),
        thresh < units ==> threshold_cell(units, thresh, no_color, thresh / 3)
            == wrapped(glyph_text(cell_fill(units, thresh / 3)), "red"@, no_color),
{
    if units <= thresh {
        let f = |i: int| threshold_cell(units, thresh, no_color, i);
        let g = |i: int| plain_cell(units, None, no_color, i);
        assert forall|i: int| 0 <= i < 10 implies #[trigger] f(i) == g(i) by {
            let fl = cell_fill(units, i);
            if fl > 0 {
                assert(i * 3 + fl <= units);
            }
        }
        lemma_cells_agree(f, g, 10);
    }
}

} // verus!
