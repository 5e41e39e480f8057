use session_stats::duration::Duration;
use session_stats::lines::TextStyle;
use session_stats::session_stats::TokenUsage;
use session_stats::scroll_window::ScrollWindow;
use session_stats::session_stats::SessionStats;
use session_stats::stats_view::CancellationEvent;
use session_stats::stats_view::KeyCode;
use session_stats::stats_view::KeyPress;
use session_stats::stats_view::StatsView;
use session_stats::stats_view::MAX_POPUP_ROWS;
use session_stats::text::basename_of;
use session_stats::text::format_percent_tenths;
use session_stats::text::format_tokens_compact;

fn plain(code: KeyCode) -> KeyPress {
    KeyPress { code, plain: true }
}

#[test]
fn compact_token_formatting() {
    assert_eq!(format_tokens_compact(0), "0");
    assert_eq!(format_tokens_compact(999), "999");
    assert_eq!(format_tokens_compact(1000), "1.0K");
    assert_eq!(format_tokens_compact(1500), "1.5K");
    assert_eq!(format_tokens_compact(999_999), "999.9K");
    assert_eq!(format_tokens_compact(2_500_000), "2.5M");
    assert_eq!(format_tokens_compact(3_000_000_000), "3.0B");
    assert_eq!(format_tokens_compact(-1500), "-1.5K");
    assert_eq!(format_tokens_compact(-7), "-7");
}

#[test]
fn percent_one_fractional_digit() {
    assert_eq!(format_percent_tenths(666), "66.6");
    assert_eq!(format_percent_tenths(0), "0.0");
    assert_eq!(format_percent_tenths(1000), "100.0");
}

#[test]
fn basename_extraction() {
    assert_eq!(basename_of("src/main.rs"), "main.rs");
    assert_eq!(basename_of("main.rs"), "main.rs");
    assert_eq!(basename_of("a/b/c.txt"), "c.txt");
    assert_eq!(basename_of("dir/"), "dir/");
    assert_eq!(basename_of(""), "");
}

#[test]
fn wrap_around_navigation() {
    let mut w = ScrollWindow::new();
    w.selected_index = Some(0);
    w.move_selection_up(7);
    assert_eq!(w.selected_index, Some(6));
    w.move_selection_down(7);
    assert_eq!(w.selected_index, Some(0));
    w.move_selection_down(7);
    assert_eq!(w.selected_index, Some(1));
    // an empty list ignores both keys
    w.move_selection_up(0);
    assert_eq!(w.selected_index, Some(1));
}

#[test]
fn ensure_visible_keeps_selection_in_window() {
    let list_length = 12;
    let mut w = ScrollWindow::new();
    w.selected_index = Some(0);
    let moves = [true, true, false, true, true, true, true, false, true, true, true];
    let rows_cycle = [3usize, 5, 1, 12, 2, 4, 7, 6, 3, 2, 9];
    for (i, up) in moves.iter().enumerate() {
        if *up {
            w.move_selection_up(list_length);
        } else {
            w.move_selection_down(list_length);
        }
        let rows = rows_cycle[i % rows_cycle.len()];
        w.ensure_visible(list_length, rows);
        let sel = w.selected_index.unwrap();
        assert!(w.scroll_top <= sel && sel < w.scroll_top + rows);
        assert!(w.scroll_top <= list_length - rows.min(list_length));
    }
}

#[test]
fn ensure_visible_degenerate_viewport() {
    let mut w = ScrollWindow::new();
    w.selected_index = Some(9);
    w.scroll_top = 4;
    w.ensure_visible(10, 0);
    assert_eq!(w.scroll_top, 0);
    // a viewport as tall as the list pins the top to zero
    w.selected_index = Some(9);
    w.scroll_top = 3;
    w.ensure_visible(10, 10);
    assert_eq!(w.scroll_top, 0);
}

#[test]
fn popup_snapshot_and_dismiss() {
    let mut stats = SessionStats::new(0);
    stats.record_command("ls".to_string(), 0, Duration::from_secs(1));
    let mut view = StatsView::new(&stats, 1000);
    assert!(!view.is_complete());
    assert!(view.line_count() >= 20);

    // lines are a snapshot: later aggregator changes leave them alone
    let before = view.line_count();
    stats.record_file_accessed("x.rs".to_string());
    assert_eq!(view.line_count(), before);

    view.handle_key(plain(KeyCode::Char('x')));
    assert!(!view.is_complete());
    view.handle_key(plain(KeyCode::Esc));
    assert!(view.is_complete());
}

#[test]
fn popup_enter_dismisses_too() {
    let stats = SessionStats::new(0);
    let mut view = StatsView::new(&stats, 0);
    view.handle_key(plain(KeyCode::Enter));
    assert!(view.is_complete());
    assert_eq!(view.on_ctrl_c(), CancellationEvent::Handled);
}

#[test]
fn letter_shortcuts_only_fire_unmodified() {
    let stats = SessionStats::new(0);
    let mut view = StatsView::new(&stats, 0);
    let start = view.state.selected_index;
    view.handle_key(KeyPress { code: KeyCode::Char('k'), plain: false });
    assert_eq!(view.state.selected_index, start);
    view.handle_key(plain(KeyCode::Char('k')));
    assert_eq!(view.state.selected_index, Some(view.line_count() - 1));
    view.handle_key(plain(KeyCode::Char('j')));
    assert_eq!(view.state.selected_index, Some(0));
}

#[test]
fn arrow_keys_wrap_through_the_list() {
    let stats = SessionStats::new(0);
    let mut view = StatsView::new(&stats, 0);
    let n = view.line_count();
    view.handle_key(plain(KeyCode::Up));
    assert_eq!(view.state.selected_index, Some(n - 1));
    view.handle_key(plain(KeyCode::Down));
    assert_eq!(view.state.selected_index, Some(0));
    view.handle_key(plain(KeyCode::Down));
    assert_eq!(view.state.selected_index, Some(1));
}

#[test]
fn layout_window_budgets_rows() {
    let stats = SessionStats::new(0);
    let mut view = StatsView::new(&stats, 0);
    let n = view.line_count();

    // zero-area target renders nothing and keeps the cached budget
    let cached = view.last_visible_rows;
    assert_eq!(view.layout_window(0, 10), (0, 0));
    assert_eq!(view.last_visible_rows, cached);

    // a tall area caps the window at MAX_POPUP_ROWS
    let (top, height) = view.layout_window(80, 100);
    assert_eq!(height, MAX_POPUP_ROWS.min(n));
    assert_eq!(top, 0);
    assert_eq!(view.last_visible_rows, height);

    // a cramped area shrinks the budget: 9 rows - footer - padding - header
    let (_, height) = view.layout_window(80, 9);
    assert_eq!(height, 3);

    // too small to show any list rows
    let (top, height) = view.layout_window(80, 4);
    assert_eq!((top, height), (0, 0));
}

#[test]
fn stale_budget_applies_to_next_key() {
    let stats = SessionStats::new(0);
    let mut view = StatsView::new(&stats, 0);
    let (_, h) = view.layout_window(80, 9);
    assert_eq!(h, 3);
    // scroll to the bottom with the 3-row budget committed by the render
    view.handle_key(plain(KeyCode::Up));
    let n = view.line_count();
    assert_eq!(view.state.selected_index, Some(n - 1));
    assert_eq!(view.state.scroll_top, n - 3);
    // the selected line sits inside the sliced window
    let (top, h) = view.layout_window(80, 9);
    assert!(top <= n - 1 && n - 1 < top + h);
}

#[test]
fn desired_height_counts_all_parts() {
    let stats = SessionStats::new(0);
    let view = StatsView::new(&stats, 0);
    let rows = MAX_POPUP_ROWS.min(view.line_count());
    assert_eq!(view.desired_height(80), 2 + 1 + rows + 1 + 2);
}

#[test]
fn header_block_lines() {
    let stats = SessionStats::new(0);
    let view = StatsView::new(&stats, 0);
    let header = view.header_lines();
    assert_eq!(header.len(), 2);
    assert_eq!(header[0].spans[0].text, "Session Statistics");
    assert_eq!(header[0].spans[0].style, TextStyle::Bold);
    assert_eq!(header[1].spans[0].text, "Performance metrics for this session.");
    assert_eq!(header[1].spans[0].style, TextStyle::Dim);
}

#[test]
fn stats_lines_sections_and_values() {
    let mut stats = SessionStats::new(0);
    stats.record_command("ls".to_string(), 0, Duration::from_secs(1));
    stats.record_command("mv".to_string(), 1, Duration::from_secs(2));
    stats.record_file_accessed("src/deep/path.rs".to_string());
    stats.start_model_request(0);
    stats.end_model_request(500);

    let view = StatsView::new(&stats, 1000);

    // Commands section
    let l0 = view.line_at(0);
    assert_eq!(l0.spans[0].text, "── ");
    assert_eq!(l0.spans[1].text, "Commands");
    assert_eq!(l0.spans[1].style, TextStyle::Bold);
    assert_eq!(l0.spans[2].text, " ──");

    let total = view.line_at(1);
    assert_eq!(total.spans[1].text, "Total executed: ");
    assert_eq!(total.spans[2].text, "2");
    assert_eq!(total.spans[2].style, TextStyle::Cyan);

    assert_eq!(view.line_at(2).spans[2].text, "1 (50.0%)");
    assert_eq!(view.line_at(3).spans[2].text, "1");
    assert_eq!(view.line_at(4).spans[2].text, "3s");
    assert!(view.line_at(5).spans.is_empty());

    // Files section, with the basename of the accessed path
    assert_eq!(view.line_at(6).spans[1].text, "Files");
    assert_eq!(view.line_at(7).spans[2].text, "0");
    assert_eq!(view.line_at(8).spans[2].text, "1");
    assert_eq!(view.line_at(9).spans[0].text, "  Top accessed:");
    let entry = view.line_at(10);
    assert_eq!(entry.spans[1].text, "path.rs");
    assert_eq!(entry.spans[2].text, " (1x)");

    // Turns section shows zero turns, then the Timing section
    assert_eq!(view.line_at(12).spans[1].text, "Turns & Tokens");
    assert_eq!(view.line_at(13).spans[2].text, "0");
    assert_eq!(view.line_at(18).spans[1].text, "Timing");
    assert_eq!(view.line_at(19).spans[2].text, "1s");
    assert_eq!(view.line_at(20).spans[2].text, "500ms (50.0%)");
    assert_eq!(view.line_at(21).spans[2].text, "0ms (0.0%)");
    assert_eq!(view.line_count(), 22);
}

#[test]
fn recent_turns_shows_last_five() {
    let mut stats = SessionStats::new(0);
    for i in 1..=7 {
        stats.start_turn();
        stats.record_turn_tokens(&TokenUsage {
            input_tokens: i * 10,
            output_tokens: i,
            reasoning_output_tokens: 0,
            cached_input_tokens: 0,
        });
    }
    let view = StatsView::new(&stats, 0);
    // turns sub-list: heading plus entries for turns 3..=7, oldest first
    assert_eq!(view.line_at(15).spans[0].text, "  Recent turns:");
    assert_eq!(view.line_at(16).spans[0].text, "    Turn 3: ");
    assert_eq!(view.line_at(16).spans[1].text, "30");
    assert_eq!(view.line_at(20).spans[0].text, "    Turn 7: ");
    assert_eq!(view.line_at(20).spans[3].text, "7");
}
