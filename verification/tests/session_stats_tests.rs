use session_stats::duration::Duration;
use session_stats::duration::format_duration;
use session_stats::session_stats::SessionStats;
use session_stats::session_stats::TokenUsage;

#[test]
fn test_command_tracking() {
    let mut stats = SessionStats::new(0);

    stats.record_command("ls".to_string(), 0, Duration::from_secs(1));
    stats.record_command("cat file.txt".to_string(), 0, Duration::from_secs(2));
    stats.record_command("grep pattern".to_string(), 1, Duration::from_secs(1));

    assert_eq!(stats.total_commands(), 3);
    assert_eq!(stats.successful_commands(), 2);
    assert_eq!(stats.failed_commands(), 1);
    assert!((stats.success_rate_tenths() as f64 / 10.0 - 66.666).abs() < 1.0);
}

#[test]
fn test_file_tracking() {
    let mut stats = SessionStats::new(0);

    stats.record_file_accessed("src/main.rs".to_string());
    stats.record_file_accessed("src/main.rs".to_string());
    stats.record_file_accessed("src/lib.rs".to_string());
    stats.record_file_modified("src/main.rs".to_string());

    assert_eq!(stats.files_accessed_count(), 2);
    assert_eq!(stats.files_modified_count(), 1);

    let top = stats.top_accessed_files(5);
    assert_eq!(top.len(), 2);
    assert_eq!(top[0].1, 2); // main.rs accessed twice
}

#[test]
fn test_format_duration() {
    assert_eq!(format_duration(Duration::from_millis(500)), "500ms");
    assert_eq!(format_duration(Duration::from_secs(30)), "30s");
    assert_eq!(format_duration(Duration::from_secs(90)), "1m 30s");
    assert_eq!(format_duration(Duration::from_secs(3661)), "1h 1m");
}

#[test]
fn format_duration_exact_boundaries() {
    assert_eq!(format_duration(Duration::from_millis(0)), "0ms");
    assert_eq!(format_duration(Duration::from_millis(999)), "999ms");
    assert_eq!(format_duration(Duration::from_millis(1000)), "1s");
    assert_eq!(format_duration(Duration::from_secs(59)), "59s");
    assert_eq!(format_duration(Duration::from_secs(60)), "1m 0s");
    assert_eq!(format_duration(Duration::from_secs(3599)), "59m 59s");
    assert_eq!(format_duration(Duration::from_secs(3600)), "1h 0m");
}

#[test]
fn success_and_failed_partition_the_log() {
    let mut stats = SessionStats::new(0);
    assert_eq!(stats.success_rate_tenths(), 1000); // empty log reads as 100.0%
    for (code, secs) in [(0, 1), (2, 3), (0, 2), (137, 1), (1, 4)] {
        stats.record_command("step".to_string(), code, Duration::from_secs(secs));
        assert_eq!(
            stats.successful_commands() + stats.failed_commands(),
            stats.total_commands()
        );
    }
    assert_eq!(stats.successful_commands(), 2);
    assert_eq!(stats.failed_commands(), 3);
}

#[test]
fn end_to_end_command_totals() {
    let mut stats = SessionStats::new(0);
    stats.record_command("a".to_string(), 0, Duration::from_secs(1));
    stats.record_command("b".to_string(), 0, Duration::from_secs(2));
    stats.record_command("c".to_string(), 1, Duration::from_secs(1));
    assert_eq!(stats.total_commands(), 3);
    assert_eq!(stats.successful_commands(), 2);
    assert_eq!(stats.success_rate_tenths(), 666); // 66.6%, one fractional digit
    assert_eq!(stats.total_command_time().as_secs(), 4);
    assert_eq!(stats.total_command_time().as_millis(), 4000);
}

#[test]
fn repeated_access_counts_pile_up() {
    let mut stats = SessionStats::new(0);
    for _ in 0..7 {
        stats.record_file_accessed("notes/todo.txt".to_string());
    }
    assert_eq!(stats.files_accessed_count(), 1);
    let top = stats.top_accessed_files(3);
    assert_eq!(top.len(), 1);
    assert_eq!(top[0].0, "notes/todo.txt");
    assert_eq!(top[0].1, 7);
}

#[test]
fn top_files_sorted_with_stable_ties() {
    let mut stats = SessionStats::new(0);
    for _ in 0..2 {
        stats.record_file_accessed("b.rs".to_string());
    }
    for _ in 0..5 {
        stats.record_file_accessed("c.rs".to_string());
    }
    for _ in 0..2 {
        stats.record_file_accessed("a.rs".to_string());
    }
    stats.record_file_accessed("d.rs".to_string());

    let top = stats.top_accessed_files(3);
    assert_eq!(top.len(), 3);
    assert_eq!(top[0], ("c.rs".to_string(), 5));
    // b.rs and a.rs tie on 2; the earlier-recorded path comes first
    assert_eq!(top[1], ("b.rs".to_string(), 2));
    assert_eq!(top[2], ("a.rs".to_string(), 2));

    let all = stats.top_accessed_files(10);
    assert_eq!(all.len(), 4);
    assert_eq!(all[3], ("d.rs".to_string(), 1));
}

#[test]
fn tie_break_survives_a_late_maximum() {
    // both tied entries recorded before the top entry: recording order still
    // decides the tie
    let mut stats = SessionStats::new(0);
    for _ in 0..2 {
        stats.record_file_accessed("a.rs".to_string());
    }
    for _ in 0..2 {
        stats.record_file_accessed("b.rs".to_string());
    }
    for _ in 0..5 {
        stats.record_file_accessed("c.rs".to_string());
    }
    let top = stats.top_accessed_files(3);
    assert_eq!(top[0], ("c.rs".to_string(), 5));
    assert_eq!(top[1], ("a.rs".to_string(), 2));
    assert_eq!(top[2], ("b.rs".to_string(), 2));
}

#[test]
fn top_modified_files_ranked() {
    let mut stats = SessionStats::new(0);
    stats.record_file_modified("x.rs".to_string());
    stats.record_file_modified("y.rs".to_string());
    stats.record_file_modified("y.rs".to_string());
    let top = stats.top_modified_files(1);
    assert_eq!(top, vec![("y.rs".to_string(), 2)]);
}

#[test]
fn turn_and_token_accounting() {
    let mut stats = SessionStats::new(0);
    assert_eq!(stats.current_turn(), 0);
    assert_eq!(stats.total_tokens(), 0);

    stats.start_turn();
    stats.record_turn_tokens(&TokenUsage {
        input_tokens: 100,
        output_tokens: 40,
        reasoning_output_tokens: 10,
        cached_input_tokens: 5,
    });
    stats.start_turn();
    stats.record_turn_tokens(&TokenUsage {
        input_tokens: 200,
        output_tokens: 60,
        reasoning_output_tokens: 0,
        cached_input_tokens: 0,
    });

    assert_eq!(stats.current_turn(), 2);
    let turns = stats.turn_token_breakdown();
    assert_eq!(turns.len(), 2);
    assert_eq!(turns[0].turn_number, 1);
    assert_eq!(turns[1].turn_number, 2);
    assert_eq!(turns[0].total(), 140);
    assert_eq!(stats.total_tokens(), 400);
    assert_eq!(stats.total_input_tokens(), 300);
    assert_eq!(stats.total_output_tokens(), 100);
}

#[test]
fn model_wait_percentage_zero_elapsed() {
    let stats = SessionStats::new(5000);
    // the clock still reads the session start: zero elapsed, no division
    assert_eq!(stats.session_duration(5000).as_millis(), 0);
    assert_eq!(stats.model_wait_percentage_tenths(5000), 0);
    assert_eq!(stats.tool_execution_percentage_tenths(5000), 0);
}

#[test]
fn timing_intervals_accumulate() {
    let mut stats = SessionStats::new(0);
    stats.start_model_request(1000);
    stats.end_model_request(3000);
    assert_eq!(stats.model_wait_time().as_millis(), 2000);
    stats.start_tool_execution(3000);
    stats.end_tool_execution(3500);
    assert_eq!(stats.tool_execution_time().as_millis(), 500);
    assert_eq!(stats.session_duration(4000).as_millis(), 4000);
    // 2000 of 4000 ms waiting: 50.0%
    assert_eq!(stats.model_wait_percentage_tenths(4000), 500);
    assert_eq!(stats.tool_execution_percentage_tenths(4000), 125);
}

#[test]
fn double_close_is_a_no_op() {
    let mut stats = SessionStats::new(0);
    stats.start_model_request(100);
    stats.end_model_request(600);
    assert_eq!(stats.model_wait_time().as_millis(), 500);
    stats.end_model_request(9999);
    assert_eq!(stats.model_wait_time().as_millis(), 500);

    stats.end_tool_execution(50);
    assert_eq!(stats.tool_execution_time().as_millis(), 0);
}
