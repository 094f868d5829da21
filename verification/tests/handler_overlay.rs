use pty::handler::overlay::DetailLayout;
use pty::handler::overlay::DetailPosition;
use pty::handler::overlay::OverlayRect;
use pty::handler::overlay::PopupLayout;
use pty::handler::overlay::clear_detail_box_uncovered_by;
use pty::handler::overlay::detail_layout_after_scroll;
use pty::handler::screen::CleanupScope;
use pty::handler::screen::Dropped;
use pty::handler::screen::Screen;

fn popup_layout() -> PopupLayout {
    PopupLayout {
        start_row: 5,
        start_col: 0,
        width: 20,
        height: 1,
        scroll_deficit: 0,
    }
}

fn detail_layout_at(start_row: u16, start_col: u16, width: u16, height: u16) -> DetailLayout {
    DetailLayout {
        start_row,
        start_col,
        width,
        height,
        position: DetailPosition::SideRight,
    }
}

fn as_text(bytes: &[u8]) -> String {
    String::from_utf8_lossy(bytes).into_owned()
}

fn count_cursor_moves(buf: &[u8]) -> usize {
    let mut count = 0;
    let mut i = 0;
    while i + 1 < buf.len() {
        if buf[i] == 0x1b && buf[i + 1] == b'[' {
            let mut j = i + 2;
            while j < buf.len() && buf[j] != b'H' && buf[j] != b'l' && buf[j] != b'h' {
                j += 1;
            }
            if j < buf.len() && buf[j] == b'H' {
                count += 1;
            }
            i = j + 1;
        } else {
            i += 1;
        }
    }
    count
}

fn count_spaces(buf: &[u8]) -> usize {
    buf.iter().filter(|&&b| b == b' ').count()
}

#[test]
fn test_clear_detail_box_uncovered_by_no_covers_clears_full_rect() {
    let layout = detail_layout_at(5, 10, 4, 3);
    let mut buf = Vec::new();
    clear_detail_box_uncovered_by(&mut buf, &layout, &[]);

    assert!(buf.starts_with(b"\x1b7"), "must save cursor at start");
    assert!(buf.ends_with(b"\x1b8"), "must restore cursor at end");
    assert_eq!(
        count_spaces(&buf),
        (layout.width as usize) * (layout.height as usize),
        "no covers should fully wipe the rect with width*height spaces",
    );
}

#[test]
fn test_clear_detail_box_uncovered_by_full_cover_emits_no_spaces() {
    let layout = detail_layout_at(5, 10, 4, 3);
    let cover = OverlayRect {
        start_row: 4,
        start_col: 8,
        width: 12,
        height: 5,
    };
    let mut buf = Vec::new();
    clear_detail_box_uncovered_by(&mut buf, &layout, &[cover]);

    assert!(buf.starts_with(b"\x1b7"));
    assert!(buf.ends_with(b"\x1b8"));
    assert_eq!(
        count_spaces(&buf),
        0,
        "cover that fully contains the layout should leave no spans to clear",
    );
}

#[test]
fn test_clear_detail_box_uncovered_by_split_into_left_right_slivers() {
    let layout = detail_layout_at(5, 10, 10, 2);
    let cover = OverlayRect {
        start_row: 5,
        start_col: 13,
        width: 4,
        height: 2,
    };
    let mut buf = Vec::new();
    clear_detail_box_uncovered_by(&mut buf, &layout, &[cover]);

    assert!(buf.starts_with(b"\x1b7"));
    assert!(buf.ends_with(b"\x1b8"));
    assert_eq!(
        count_cursor_moves(&buf),
        4,
        "splitting each row into two slivers should emit 2 moves * 2 rows = 4 moves",
    );
    let expected_per_row = (layout.width - cover.width) as usize;
    assert_eq!(
        count_spaces(&buf),
        expected_per_row * layout.height as usize,
        "surviving widths per row must sum to (layout.width - cover.width)",
    );
}

#[test]
fn test_clear_detail_box_uncovered_by_multiple_covers_disjoint() {
    let layout = detail_layout_at(5, 10, 14, 1);
    let cover_a = OverlayRect {
        start_row: 5,
        start_col: 13,
        width: 3,
        height: 1,
    };
    let cover_b = OverlayRect {
        start_row: 5,
        start_col: 19,
        width: 2,
        height: 1,
    };
    let mut buf = Vec::new();
    clear_detail_box_uncovered_by(&mut buf, &layout, &[cover_a, cover_b]);

    assert!(buf.starts_with(b"\x1b7"));
    assert!(buf.ends_with(b"\x1b8"));
    assert_eq!(
        count_cursor_moves(&buf),
        3,
        "two disjoint covers on one row should leave three slivers (3 moves)",
    );
}

#[test]
fn test_clear_detail_box_uncovered_by_zero_width_layout_emits_nothing() {
    let layout = detail_layout_at(5, 10, 0, 3);
    let mut buf = Vec::new();
    clear_detail_box_uncovered_by(&mut buf, &layout, &[]);
    assert!(
        buf.is_empty(),
        "zero-width layout must short-circuit before emitting save/restore cursor: {buf:?}"
    );
}

#[test]
fn test_clear_detail_box_uncovered_by_zero_height_layout_emits_nothing() {
    let layout = detail_layout_at(5, 10, 4, 0);
    let mut buf = Vec::new();
    clear_detail_box_uncovered_by(&mut buf, &layout, &[]);
    assert!(
        buf.is_empty(),
        "zero-height layout must short-circuit before emitting save/restore cursor: {buf:?}"
    );
}

#[test]
fn uncovered_clear_has_exact_bytes() {
    let layout = detail_layout_at(5, 10, 4, 1);
    let cover = OverlayRect {
        start_row: 0,
        start_col: 12,
        width: 9,
        height: 9,
    };
    let mut buf = vec![b'x'];
    clear_detail_box_uncovered_by(&mut buf, &layout, &[cover]);
    assert_eq!(as_text(&buf), "x\x1b7\x1b[6;11H  \x1b8");
}

#[test]
fn test_detail_layout_after_scroll_zero_size_returns_none() {
    let layout = detail_layout_at(5, 10, 0, 0);
    assert!(detail_layout_after_scroll(&layout, 1).is_none());
}

#[test]
fn test_detail_layout_after_scroll_zero_scroll_clones() {
    let layout = detail_layout_at(5, 10, 12, 4);
    let result = detail_layout_after_scroll(&layout, 0).expect("zero scroll must clone");
    assert_eq!(result.start_row, layout.start_row);
    assert_eq!(result.start_col, layout.start_col);
    assert_eq!(result.width, layout.width);
    assert_eq!(result.height, layout.height);
}

#[test]
fn test_detail_layout_after_scroll_fully_consumed_returns_none() {
    let layout = detail_layout_at(5, 10, 12, 3);
    assert!(
        detail_layout_after_scroll(&layout, 10).is_none(),
        "scroll that meets or exceeds end_row must drop the layout",
    );
}

#[test]
fn test_detail_layout_after_scroll_partial_clip_adjusts_height() {
    let layout = detail_layout_at(2, 10, 12, 5);
    let result = detail_layout_after_scroll(&layout, 4).expect("partial clip must keep layout");
    assert_eq!(result.start_row, 0);
    assert_eq!(result.height, 3);
}

#[test]
fn test_detail_layout_after_scroll_layout_at_origin_clips_full_scroll() {
    let layout = detail_layout_at(0, 0, 10, 5);
    let result =
        detail_layout_after_scroll(&layout, 2).expect("partial clip at origin must keep layout");
    assert_eq!(result.start_row, 0);
    assert_eq!(result.height, 3);
}

#[test]
fn test_detail_layout_after_scroll_scroll_below_start_row_no_clip() {
    let layout = detail_layout_at(5, 10, 12, 3);
    let result =
        detail_layout_after_scroll(&layout, 2).expect("scroll above start must keep layout");
    assert_eq!(result.start_row, 3);
    assert_eq!(result.height, 3);
}

// ---- Tickets of overlay writes ----

#[test]
fn tokens_never_repeat_from_one_stage_to_the_next() {
    let mut screen = Screen::new();
    screen.stage_render(popup_layout(), None, 0);
    let first = screen.ticket();
    screen.stage_render(popup_layout(), None, 0);
    let second = screen.ticket();
    assert!(first.render_token.is_some());
    assert_ne!(first.render_token, second.render_token);
    screen.stage_cleanup(CleanupScope::DetailOnly);
    assert!(screen.ticket().cleanup_token.is_some());
}

#[test]
fn an_older_ticket_does_not_commit_a_newer_render() {
    let mut screen = Screen::new();
    screen.stage_render(popup_layout(), None, 0);
    let older = screen.ticket();
    let newer_layout = PopupLayout {
        start_row: 9,
        ..popup_layout()
    };
    screen.stage_render(newer_layout, None, 0);
    screen.commit(older);
    assert_eq!(screen.last_layout, None);
    let ticket = screen.ticket();
    screen.commit(ticket);
    assert_eq!(screen.last_layout, Some(newer_layout));
    assert_eq!(screen.pending_overlay_render, None);
}

#[test]
fn a_lost_render_leaves_what_is_on_the_screen() {
    let mut screen = Screen::new();
    screen.stage_render(popup_layout(), None, 0);
    let ticket = screen.ticket();
    assert_eq!(screen.discard(ticket), Dropped::Render);
    assert_eq!(screen.last_layout, None);
    assert_eq!(screen.discard(ticket), Dropped::Nothing);
}
