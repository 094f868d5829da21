//! Rectangles on the screen, and the bytes that clear them.

use vstd::prelude::*;

use crate::decimal::decimal;
use crate::decimal::push_decimal;

verus! {

/// Where the popup stands on the screen.
#[derive(Debug, Clone, Copy, PartialEq, Eq, Structural)]
pub struct PopupLayout {
    pub start_row: u16,
    pub start_col: u16,
    pub width: u16,
    pub height: u16,
    /// How far rendering popups has scrolled the viewport.
    pub scroll_deficit: u16,
}

/// The side of the popup that the description box stands on.
#[derive(Debug, Clone, Copy, PartialEq, Eq, Structural)]
pub enum DetailPosition {
    SideRight,
    SideLeft,
}

/// Where the description box stands on the screen.
#[derive(Debug, Clone, Copy, PartialEq, Eq, Structural)]
pub struct DetailLayout {
    pub start_row: u16,
    pub start_col: u16,
    pub width: u16,
    pub height: u16,
    pub position: DetailPosition,
}

/// A rectangle of cells.
#[derive(Debug, Clone, Copy, PartialEq, Eq, Structural)]
pub struct OverlayRect {
    pub start_row: u16,
    pub start_col: u16,
    pub width: u16,
    pub height: u16,
}

/// The sum, or the greatest value of 16 bits where it is greater.
pub open spec fn clamp_sum(a: u16, b: u16) -> int {
    if a + b <= u16::MAX {
        a + b
    } else {
        u16::MAX as int
    }
}

impl OverlayRect {
    /// The cell lies in the rectangle.
    pub open spec fn covers(&self, row: int, col: int) -> bool {
        &&& self.start_row <= row < clamp_sum(self.start_row, self.height)
        &&& self.start_col <= col < clamp_sum(self.start_col, self.width)
    }

    pub fn from_popup(layout: &PopupLayout) -> (rect: Self)
        ensures
            rect == (OverlayRect {
                start_row: layout.start_row,
                start_col: layout.start_col,
                width: layout.width,
                height: layout.height,
            }),
    {
        OverlayRect {
            start_row: layout.start_row,
            start_col: layout.start_col,
            width: layout.width,
            height: layout.height,
        }
    }

    pub fn from_detail(layout: &DetailLayout) -> (rect: Self)
        ensures
            rect == (OverlayRect {
                start_row: layout.start_row,
                start_col: layout.start_col,
                width: layout.width,
                height: layout.height,
            }),
    {
        OverlayRect {
            start_row: layout.start_row,
            start_col: layout.start_col,
            width: layout.width,
            height: layout.height,
        }
    }

    fn is_at(&self, row: u16, col: u16) -> (inside: bool)
        ensures
            inside == self.covers(row as int, col as int),
    {
        self.start_row <= row && row < self.start_row.saturating_add(self.height) && self.start_col
            <= col && col < self.start_col.saturating_add(self.width)
    }
}

// ---- Scrolling ----

/// The part of a box that is left on the screen once the viewport has scrolled up.
pub open spec fn scrolled_layout(layout: DetailLayout, scroll: u16) -> Option<DetailLayout> {
    let end_row = clamp_sum(layout.start_row, layout.height);
    let clipped = if scroll > layout.start_row {
        scroll - layout.start_row
    } else {
        0
    };
    if layout.width == 0 || layout.height == 0 {
        None
    } else if scroll == 0 {
        Some(layout)
    } else if scroll >= end_row || clipped >= layout.height {
        None
    } else {
        Some(
            DetailLayout {
                start_row: if scroll > layout.start_row {
                    0
                } else {
                    (layout.start_row - scroll) as u16
                },
                height: (layout.height - clipped) as u16,
                ..layout
            },
        )
    }
}

pub fn detail_layout_after_scroll(layout: &DetailLayout, scroll: u16) -> (moved: Option<
    DetailLayout,
>)
    ensures
        moved == scrolled_layout(*layout, scroll),
{
    if layout.width == 0 || layout.height == 0 {
        return None;
    }
    if scroll == 0 {
        return Some(*layout);
    }
    let end_row: u16 = layout.start_row.saturating_add(layout.height);
    if scroll >= end_row {
        return None;
    }
    let clipped_rows: u16 = scroll.saturating_sub(layout.start_row);
    let height: u16 = layout.height.saturating_sub(clipped_rows);
    if height == 0 {
        return None;
    }
    Some(
        DetailLayout {
            start_row: layout.start_row.saturating_sub(scroll),
            start_col: layout.start_col,
            width: layout.width,
            height,
            position: layout.position,
        },
    )
}

// ---- Terminal control ----

/// `ESC 7`.
pub open spec fn save_cursor_bytes() -> Seq<u8> {
    seq![0x1Bu8, 0x37u8]
}

/// `ESC 8`.
pub open spec fn restore_cursor_bytes() -> Seq<u8> {
    seq![0x1Bu8, 0x38u8]
}

/// The sequence that moves the cursor to a cell, which the terminal counts from one.
pub open spec fn move_to_bytes(row: int, col: int) -> Seq<u8> {
    (seq![0x1Bu8, 0x5Bu8] + decimal((row + 1) as nat)).push(0x3B) + decimal((col + 1) as nat).push(
        0x48,
    )
}

/// `n` times the byte `b`.
pub open spec fn repeated(b: u8, n: int) -> Seq<u8> {
    Seq::new(n as nat, |i: int| b)
}

/// Appends the sequence that moves the cursor to a cell.
pub fn push_move_to(buf: &mut Vec<u8>, row: u16, col: u16)
    ensures
        final(buf)@ == old(buf)@ + move_to_bytes(row as int, col as int),
{
    let ghost before = buf@;
    buf.push(0x1B);
    buf.push(0x5B);
    push_decimal(buf, row as u32 + 1);
    buf.push(0x3B);
    push_decimal(buf, col as u32 + 1);
    buf.push(0x48);
    assert(buf@ =~= before + move_to_bytes(row as int, col as int));
}

/// Appends `n` times the byte `b`.
pub fn push_repeated(buf: &mut Vec<u8>, b: u8, n: usize)
    ensures
        final(buf)@ == old(buf)@ + repeated(b, n as int),
{
    let ghost before = buf@;
    let mut i: usize = 0;
    assert(before + repeated(b, 0) =~= before);
    while i < n
        invariant
            i <= n,
            buf@ == before + repeated(b, i as int),
        decreases n - i,
    {
        buf.push(b);
        i = i + 1;
        assert(buf@ =~= before + repeated(b, i as int));
    }
}

// ---- Clearing what nothing covers ----

/// Some rectangle covers the cell.
pub open spec fn is_covered(covers: Seq<OverlayRect>, row: int, col: int) -> bool {
    exists|i: int| 0 <= i < covers.len() && (#[trigger] covers[i]).covers(row, col)
}

/// The first column at or after `col` that is covered, or `end`.
pub open spec fn run_end(covers: Seq<OverlayRect>, row: int, col: int, end: int) -> int
    decreases end - col,
{
    if col >= end || is_covered(covers, row, col) {
        col
    } else {
        run_end(covers, row, col + 1, end)
    }
}

/// The runs of columns from `col` up to `end` that nothing covers, from left to right,
/// each with its first column and the column behind its last.
pub open spec fn uncovered_runs(covers: Seq<OverlayRect>, row: int, col: int, end: int) -> Seq<
    (int, int),
>
    decreases end - col,
{
    if col >= end {
        Seq::empty()
    } else if is_covered(covers, row, col) {
        uncovered_runs(covers, row, col + 1, end)
    } else {
        let stop = run_end(covers, row, col, end);
        if col < stop <= end {
            seq![(col, stop)] + uncovered_runs(covers, row, stop, end)
        } else {
            Seq::empty()
        }
    }
}

/// The bytes that overwrite runs of a row with spaces.
pub open spec fn runs_bytes(row: int, runs: Seq<(int, int)>) -> Seq<u8>
    decreases runs.len(),
{
    if runs.len() == 0 {
        Seq::empty()
    } else {
        move_to_bytes(row, runs[0].0) + repeated(0x20, runs[0].1 - runs[0].0) + runs_bytes(
            row,
            runs.skip(1),
        )
    }
}

/// The bytes that clear the first `n` rows of a box, except for what is covered.
pub open spec fn rows_bytes(layout: DetailLayout, covers: Seq<OverlayRect>, n: int) -> Seq<u8>
    decreases n,
{
    if n <= 0 {
        Seq::empty()
    } else {
        let row = clamp_sum(layout.start_row, (n - 1) as u16);
        rows_bytes(layout, covers, n - 1) + runs_bytes(
            row,
            uncovered_runs(
                covers,
                row,
                layout.start_col as int,
                clamp_sum(layout.start_col, layout.width),
            ),
        )
    }
}

/// The bytes that clear a box except for what is covered: nothing for an empty box.
pub open spec fn uncovered_clear_bytes(layout: DetailLayout, covers: Seq<OverlayRect>) -> Seq<u8> {
    if layout.width == 0 || layout.height == 0 {
        Seq::empty()
    } else {
        save_cursor_bytes() + rows_bytes(layout, covers, layout.height as int)
            + restore_cursor_bytes()
    }
}

fn covered(covers: &[OverlayRect], row: u16, col: u16) -> (is: bool)
    ensures
        is == is_covered(covers@, row as int, col as int),
{
    let mut i: usize = 0;
    while i < covers.len()
        invariant
            i <= covers@.len(),
            forall|j: int| 0 <= j < i ==> !(#[trigger] covers@[j]).covers(row as int, col as int),
        decreases covers.len() - i,
    {
        if covers[i].is_at(row, col) {
            assert(covers@[i as int].covers(row as int, col as int));
            return true;
        }
        i = i + 1;
    }
    false
}

proof fn lemma_run_end(covers: Seq<OverlayRect>, row: int, col: int, end: int)
    requires
        col <= end,
    ensures
        col <= run_end(covers, row, col, end) <= end,
        col < end && !is_covered(covers, row, col) ==> col < run_end(covers, row, col, end),
        forall|c: int|
            col <= c < run_end(covers, row, col, end) ==> !#[trigger] is_covered(covers, row, c),
    decreases end - col,
{
    if col < end && !is_covered(covers, row, col) {
        lemma_run_end(covers, row, col + 1, end);
        assert forall|c: int| col <= c < run_end(covers, row, col, end) implies !#[trigger] is_covered(
            covers,
            row,
            c,
        ) by {
            if c > col {
                assert(run_end(covers, row, col, end) == run_end(covers, row, col + 1, end));
            }
        }
    }
}

fn clear_row(buf: &mut Vec<u8>, covers: &[OverlayRect], row: u16, from: u16, end: u16)
    ensures
        final(buf)@ == old(buf)@ + runs_bytes(
            row as int,
            uncovered_runs(covers@, row as int, from as int, end as int),
        ),
{
    let ghost r = row as int;
    let ghost goal = old(buf)@ + runs_bytes(r, uncovered_runs(covers@, r, from as int, end as int));
    let mut col: u16 = from;
    while col < end
        invariant
            from <= col,
            r == row,
            buf@ + runs_bytes(r, uncovered_runs(covers@, r, col as int, end as int)) == goal,
        decreases end - col,
    {
        if covered(covers, row, col) {
            col = col + 1;
        } else {
            let ghost runs = uncovered_runs(covers@, r, col as int, end as int);
            let ghost before = buf@;
            let start: u16 = col;
            proof {
                lemma_run_end(covers@, r, col as int, end as int);
            }
            while col < end && !covered(covers, row, col)
                invariant
                    start <= col <= end,
                    r == row,
                    run_end(covers@, r, col as int, end as int) == run_end(
                        covers@,
                        r,
                        start as int,
                        end as int,
                    ),
                decreases end - col,
            {
                col = col + 1;
            }
            push_move_to(buf, row, start);
            push_repeated(buf, 0x20, (col - start) as usize);
            proof {
                let rest = uncovered_runs(covers@, r, col as int, end as int);
                assert(runs == seq![(start as int, col as int)] + rest);
                assert(runs.skip(1) =~= rest);
                let head = move_to_bytes(r, start as int) + repeated(0x20, col - start);
                assert(before + (head + runs_bytes(r, rest)) =~= before + move_to_bytes(
                    r,
                    start as int,
                ) + repeated(0x20, col - start) + runs_bytes(r, rest));
            }
        }
    }
    assert(buf@ + runs_bytes(r, uncovered_runs(covers@, r, col as int, end as int)) =~= buf@);
}

/// Clears a description box except for what the given rectangles cover.
pub fn clear_detail_box_uncovered_by(
    buf: &mut Vec<u8>,
    layout: &DetailLayout,
    covers: &[OverlayRect],
)
    ensures
        final(buf)@ == old(buf)@ + uncovered_clear_bytes(*layout, covers@),
{
    if layout.width == 0 || layout.height == 0 {
        assert(buf@ + Seq::<u8>::empty() =~= buf@);
        return;
    }
    let ghost before = buf@;
    buf.push(0x1B);
    buf.push(0x37);
    assert(buf@ =~= before + save_cursor_bytes());
    let end: u16 = layout.start_col.saturating_add(layout.width);
    let mut offset: u16 = 0;
    assert(buf@ =~= before + save_cursor_bytes() + rows_bytes(*layout, covers@, 0));
    while offset < layout.height
        invariant
            offset <= layout.height,
            end == clamp_sum(layout.start_col, layout.width),
            buf@ == before + save_cursor_bytes() + rows_bytes(*layout, covers@, offset as int),
        decreases layout.height - offset,
    {
        let ghost rows = rows_bytes(*layout, covers@, offset as int);
        let row: u16 = layout.start_row.saturating_add(offset);
        clear_row(buf, covers, row, layout.start_col, end);
        offset = offset + 1;
        assert(buf@ =~= before + save_cursor_bytes() + rows_bytes(
            *layout,
            covers@,
            offset as int,
        ));
    }
    buf.push(0x1B);
    buf.push(0x38);
    assert(buf@ =~= before + uncovered_clear_bytes(*layout, covers@));
}

// ---- Laws ----

/// The rows of a box after a scroll are its rows from before, moved up, without those that
/// left the screen.
pub proof fn law_scroll_moves_rows(layout: DetailLayout, scroll: u16, row: int)
    requires
        layout.width > 0,
        layout.start_row + layout.height <= u16::MAX,
        0 <= row,
    ensures
        (scrolled_layout(layout, scroll) matches Some(moved) && moved.start_row <= row
            < moved.start_row + moved.height) <==> layout.start_row <= row + scroll
            < layout.start_row + layout.height,
{
}

/// Scrolling a box leaves its columns as they are.
pub proof fn law_scroll_keeps_columns(layout: DetailLayout, scroll: u16)
    ensures
        scrolled_layout(layout, scroll) matches Some(moved) ==> moved.start_col == layout.start_col
            && moved.width == layout.width && moved.position == layout.position,
{
}

/// A column lies in some run.
pub open spec fn in_runs(runs: Seq<(int, int)>, col: int) -> bool {
    exists|i: int| 0 <= i < runs.len() && (#[trigger] runs[i]).0 <= col < runs[i].1
}

/// What is overwritten in a row of a box is exactly what nothing covers there.
pub proof fn law_cleared_columns_are_the_uncovered_ones(
    covers: Seq<OverlayRect>,
    row: int,
    from: int,
    end: int,
    col: int,
)
    ensures
        in_runs(uncovered_runs(covers, row, from, end), col) <==> from <= col < end && !is_covered(
            covers,
            row,
            col,
        ),
    decreases end - from,
{
    let runs = uncovered_runs(covers, row, from, end);
    if from < end {
        if is_covered(covers, row, from) {
            law_cleared_columns_are_the_uncovered_ones(covers, row, from + 1, end, col);
        } else {
            lemma_run_end(covers, row, from, end);
            let stop = run_end(covers, row, from, end);
            let rest = uncovered_runs(covers, row, stop, end);
            law_cleared_columns_are_the_uncovered_ones(covers, row, stop, end, col);
            assert(runs == seq![(from, stop)] + rest);
            assert(runs[0] == (from, stop));
            if in_runs(rest, col) {
                let i = choose|i: int|
                    0 <= i < rest.len() && (#[trigger] rest[i]).0 <= col < rest[i].1;
                assert(runs[i + 1] == rest[i]);
                assert(in_runs(runs, col));
            }
            if in_runs(runs, col) {
                let i = choose|i: int|
                    0 <= i < runs.len() && (#[trigger] runs[i]).0 <= col < runs[i].1;
                if i > 0 {
                    assert(rest[i - 1] == runs[i]);
                    assert(in_runs(rest, col));
                }
            }
        }
    }
}

/// A rectangle covers as many rows and columns as it is high and wide, from its first cell
/// on.
pub proof fn law_rectangle_covers_its_cells(rect: OverlayRect, row: int, col: int)
    requires
        rect.start_row + rect.height <= u16::MAX,
        rect.start_col + rect.width <= u16::MAX,
    ensures
        rect.covers(row, col) <==> 0 <= row - rect.start_row < rect.height && 0 <= col
            - rect.start_col < rect.width,
{
}

/// The cursor is moved by `ESC [`, the row and the column counted from one, and `H`.
pub proof fn law_cells_count_from_one(row: int, col: int)
    requires
        row >= 0,
        col >= 0,
    ensures
        move_to_bytes(row, col) == seq![0x1Bu8, '[' as u8] + decimal((row + 1) as nat) + seq![
            ';' as u8,
        ] + decimal((col + 1) as nat) + seq!['H' as u8],
{
    assert(move_to_bytes(row, col) =~= seq![0x1Bu8, '[' as u8] + decimal((row + 1) as nat) + seq![
        ';' as u8,
    ] + decimal((col + 1) as nat) + seq!['H' as u8]);
}

/// Each run of a row is overwritten where it stands, with as many spaces as it is long.
pub proof fn law_runs_are_overwritten_by_spaces(row: int, from: int, to: int, rest: Seq<(int, int)>)
    requires
        from <= to,
    ensures
        runs_bytes(row, seq![(from, to)] + rest) == move_to_bytes(row, from) + Seq::new(
            (to - from) as nat,
            |i: int| ' ' as u8,
        ) + runs_bytes(row, rest),
        runs_bytes(row, Seq::empty()) == Seq::<u8>::empty(),
{
    assert((seq![(from, to)] + rest).skip(1) =~= rest);
    assert(repeated(0x20, to - from) =~= Seq::new((to - from) as nat, |i: int| ' ' as u8));
}

/// A box is cleared row by row from its first to its last, over its whole width but for
/// what is covered, and the cursor is put back where it was.
pub proof fn law_box_is_cleared_row_by_row(layout: DetailLayout, covers: Seq<OverlayRect>, n: int)
    requires
        layout.start_row + layout.height <= u16::MAX,
        layout.start_col + layout.width <= u16::MAX,
        0 <= n < layout.height,
        layout.width > 0,
    ensures
        rows_bytes(layout, covers, n + 1) == rows_bytes(layout, covers, n) + runs_bytes(
            layout.start_row + n,
            uncovered_runs(
                covers,
                layout.start_row + n,
                layout.start_col as int,
                layout.start_col + layout.width,
            ),
        ),
        rows_bytes(layout, covers, 0) == Seq::<u8>::empty(),
        uncovered_clear_bytes(layout, covers) == seq![0x1Bu8, '7' as u8] + rows_bytes(
            layout,
            covers,
            layout.height as int,
        ) + seq![0x1Bu8, '8' as u8],
{
    assert(n as u16 == n);
}

/// An empty box is not cleared at all.
pub proof fn law_empty_box_clears_nothing(layout: DetailLayout, covers: Seq<OverlayRect>)
    requires
        layout.width == 0 || layout.height == 0,
    ensures
        uncovered_clear_bytes(layout, covers).len() == 0,
        forall|scroll: u16| #[trigger] scrolled_layout(layout, scroll) is None,
{
}

} // verus!
