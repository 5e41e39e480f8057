//! Turning a statistics snapshot into an ordered list of styled text lines.
//!
//! Four fixed sections — Commands, Files, Turns & Tokens, Timing — each
//! opened by a header line and separated by a blank line.  The host renders
//! each span with its style class; nothing here touches a terminal.

use vstd::prelude::*;

use crate::duration::format_duration;
use crate::duration::spec_format_duration;
use crate::session_stats::SessionStats;
use crate::session_stats::StatsModel;
use crate::session_stats::TurnTokenUsage;
use crate::session_stats::count_failed;
use crate::session_stats::count_success;
use crate::session_stats::pairs_view;
use crate::session_stats::spec_elapsed;
use crate::session_stats::spec_percentage_tenths;
use crate::session_stats::spec_success_rate_tenths;
use crate::session_stats::sum_command_millis;
use crate::session_stats::sum_input_tokens;
use crate::session_stats::sum_output_tokens;
use crate::session_stats::sum_total_tokens;
use crate::session_stats::top_files_ok;
use crate::text::dec_str;
use crate::text::fmt_u64;
use crate::text::format_percent_tenths;
use crate::text::format_tokens_compact;
use crate::text::basename_of;
use crate::text::spec_basename;
use crate::text::spec_compact_i64;
use crate::text::spec_percent_tenths;

verus! {

/// Style class of a span; the host maps these to terminal attributes.
#[derive(Clone, Copy, Debug, PartialEq, Eq, Structural)]
pub enum TextStyle {
    Plain,
    Dim,
    Bold,
    Cyan,
}

/// A run of text rendered in one style.
#[derive(Debug, Clone)]
pub struct Span {
    pub text: String,
    pub style: TextStyle,
}

/// One display line, as a list of styled spans.
#[derive(Debug, Clone)]
pub struct StyledLine {
    pub spans: Vec<Span>,
}

pub open spec fn is_blank(l: StyledLine) -> bool {
    l.spans@.len() == 0
}

pub open spec fn is_section_header(l: StyledLine, title: Seq<char>) -> bool {
    &&& l.spans@.len() == 3
    &&& l.spans@[0].text@ == "── "@ && l.spans@[0].style == TextStyle::Dim
    &&& l.spans@[1].text@ == title && l.spans@[1].style == TextStyle::Bold
    &&& l.spans@[2].text@ == " ──"@ && l.spans@[2].style == TextStyle::Dim
}

pub open spec fn is_stat_line(l: StyledLine, label: Seq<char>, value: Seq<char>) -> bool {
    &&& l.spans@.len() == 3
    &&& l.spans@[0].text@ == "  "@ && l.spans@[0].style == TextStyle::Plain
    &&& l.spans@[1].text@ == label + ": "@ && l.spans@[1].style == TextStyle::Plain
    &&& l.spans@[2].text@ == value && l.spans@[2].style == TextStyle::Cyan
}

pub open spec fn is_sub_header(l: StyledLine, text: Seq<char>) -> bool {
    &&& l.spans@.len() == 1
    &&& l.spans@[0].text@ == text && l.spans@[0].style == TextStyle::Dim
}

pub open spec fn is_file_entry(l: StyledLine, path: Seq<char>, count: u32) -> bool {
    &&& l.spans@.len() == 3
    &&& l.spans@[0].text@ == "    "@ && l.spans@[0].style == TextStyle::Plain
    &&& l.spans@[1].text@ == spec_basename(path) && l.spans@[1].style == TextStyle::Plain
    &&& l.spans@[2].text@ == " ("@ + dec_str(count as int) + "x)"@ && l.spans@[2].style
        == TextStyle::Dim
}

pub open spec fn is_turn_entry(l: StyledLine, t: TurnTokenUsage) -> bool {
    &&& l.spans@.len() == 5
    &&& l.spans@[0].text@ == "    Turn "@ + dec_str(t.turn_number as int) + ": "@
        && l.spans@[0].style == TextStyle::Plain
    &&& l.spans@[1].text@ == spec_compact_i64(t.input_tokens as int) && l.spans@[1].style
        == TextStyle::Dim
    &&& l.spans@[2].text@ == " in, "@ && l.spans@[2].style == TextStyle::Dim
    &&& l.spans@[3].text@ == spec_compact_i64(t.output_tokens as int) && l.spans@[3].style
        == TextStyle::Dim
    &&& l.spans@[4].text@ == " out"@ && l.spans@[4].style == TextStyle::Dim
}

/// Rows of the "Top accessed" sub-list: a heading plus up to three entries,
/// absent entirely when no file was accessed.
pub open spec fn file_sub_len(m: StatsModel) -> int {
    if m.files_accessed.len() == 0 {
        0
    } else {
        1 + vstd::math::min(3, m.files_accessed.len() as int)
    }
}

/// Rows of the "Recent turns" sub-list: a heading plus up to five entries,
/// absent entirely when no turn was recorded.
pub open spec fn turn_sub_len(m: StatsModel) -> int {
    if m.turns.len() == 0 {
        0
    } else {
        1 + vstd::math::min(5, m.turns.len() as int)
    }
}

pub open spec fn commands_section_ok(m: StatsModel, part: Seq<StyledLine>) -> bool {
    &&& part.len() == 6
    &&& is_section_header(part[0], "Commands"@)
    &&& is_stat_line(part[1], "Total executed"@, dec_str(m.commands.len() as int))
    &&& is_stat_line(
        part[2],
        "Successful"@,
        dec_str(count_success(m.commands)) + " ("@ + spec_percent_tenths(
            spec_success_rate_tenths(m.commands),
        ) + "%)"@,
    )
    &&& is_stat_line(part[3], "Failed"@, dec_str(count_failed(m.commands)))
    &&& is_stat_line(
        part[4],
        "Total exec time"@,
        spec_format_duration(sum_command_millis(m.commands)),
    )
    &&& is_blank(part[5])
}

pub open spec fn files_section_ok(m: StatsModel, part: Seq<StyledLine>) -> bool {
    &&& part.len() == 4 + file_sub_len(m)
    &&& is_section_header(part[0], "Files"@)
    &&& is_stat_line(part[1], "Files modified"@, dec_str(m.files_modified.len() as int))
    &&& is_stat_line(part[2], "Files accessed"@, dec_str(m.files_accessed.len() as int))
    &&& (m.files_accessed.len() > 0 ==> is_sub_header(part[3], "  Top accessed:"@) && (exists|
        top: Seq<(Seq<char>, u32)>,
    |
        top_files_ok(m.files_accessed, 3, top) && (forall|e: int|
            0 <= e < vstd::math::min(3, m.files_accessed.len() as int) ==> is_file_entry(
                part[4 + e],
                top[e].0,
                top[e].1,
            ))))
    &&& is_blank(part[part.len() - 1])
}

pub open spec fn turns_section_ok(m: StatsModel, part: Seq<StyledLine>) -> bool {
    &&& part.len() == 6 + turn_sub_len(m)
    &&& is_section_header(part[0], "Turns & Tokens"@)
    &&& is_stat_line(part[1], "Total turns"@, dec_str(m.current_turn as int))
    &&& is_stat_line(part[2], "Total tokens"@, spec_compact_i64(sum_total_tokens(m.turns)))
    &&& is_stat_line(part[3], "Input tokens"@, spec_compact_i64(sum_input_tokens(m.turns)))
    &&& is_stat_line(part[4], "Output tokens"@, spec_compact_i64(sum_output_tokens(m.turns)))
    &&& (m.turns.len() > 0 ==> is_sub_header(part[5], "  Recent turns:"@) && (forall|e: int|
        6 <= e < 6 + vstd::math::min(5, m.turns.len() as int) ==> is_turn_entry(
            #[trigger] part[e],
            m.turns[vstd::math::max(0, m.turns.len() as int - 5) + e - 6],
        )))
    &&& is_blank(part[part.len() - 1])
}

pub open spec fn timing_section_ok(m: StatsModel, now_ms: u64, part: Seq<StyledLine>) -> bool {
    &&& part.len() == 4
    &&& is_section_header(part[0], "Timing"@)
    &&& is_stat_line(
        part[1],
        "Session duration"@,
        spec_format_duration(spec_elapsed(m.session_start_ms, now_ms)),
    )
    &&& is_stat_line(
        part[2],
        "Model wait time"@,
        spec_format_duration(m.model_wait_ms as int) + " ("@ + spec_percent_tenths(
            spec_percentage_tenths(
                m.model_wait_ms as int,
                spec_elapsed(m.session_start_ms, now_ms),
            ),
        ) + "%)"@,
    )
    &&& is_stat_line(
        part[3],
        "Tool exec time"@,
        spec_format_duration(m.tool_exec_ms as int) + " ("@ + spec_percent_tenths(
            spec_percentage_tenths(
                m.tool_exec_ms as int,
                spec_elapsed(m.session_start_ms, now_ms),
            ),
        ) + "%)"@,
    )
}

/// The whole rendered list: the four sections in fixed order.
pub open spec fn stats_lines_ok(m: StatsModel, now_ms: u64, ls: Seq<StyledLine>) -> bool {
    let fa = file_sub_len(m);
    let tn = turn_sub_len(m);
    &&& ls.len() == 20 + fa + tn
    &&& commands_section_ok(m, ls.subrange(0, 6))
    &&& files_section_ok(m, ls.subrange(6, 10 + fa))
    &&& turns_section_ok(m, ls.subrange(10 + fa, 16 + fa + tn))
    &&& timing_section_ok(m, now_ms, ls.subrange(16 + fa + tn, 20 + fa + tn))
}

fn blank_line() -> (l: StyledLine)
    ensures
        is_blank(l),
{
    StyledLine { spans: Vec::new() }
}

fn section_header(title: &str) -> (l: StyledLine)
    ensures
        is_section_header(l, title@),
{
    let mut spans: Vec<Span> = Vec::new();
    spans.push(Span { text: String::from_str("── "), style: TextStyle::Dim });
    spans.push(Span { text: String::from_str(title), style: TextStyle::Bold });
    spans.push(Span { text: String::from_str(" ──"), style: TextStyle::Dim });
    StyledLine { spans }
}

fn stat_line(label: &str, value: String) -> (l: StyledLine)
    ensures
        is_stat_line(l, label@, value@),
{
    let mut mid = String::from_str(label);
    mid.append(": ");
    let mut spans: Vec<Span> = Vec::new();
    spans.push(Span { text: String::from_str("  "), style: TextStyle::Plain });
    spans.push(Span { text: mid, style: TextStyle::Plain });
    spans.push(Span { text: value, style: TextStyle::Cyan });
    StyledLine { spans }
}

/// A single-span line in the dim style.
pub fn dim_line(text: &str) -> (l: StyledLine)
    ensures
        is_sub_header(l, text@),
{
    let mut spans: Vec<Span> = Vec::new();
    spans.push(Span { text: String::from_str(text), style: TextStyle::Dim });
    StyledLine { spans }
}

pub open spec fn is_bold_line(l: StyledLine, text: Seq<char>) -> bool {
    &&& l.spans@.len() == 1
    &&& l.spans@[0].text@ == text && l.spans@[0].style == TextStyle::Bold
}

/// A single-span line in the bold style.
pub fn bold_line(text: &str) -> (l: StyledLine)
    ensures
        is_bold_line(l, text@),
{
    let mut spans: Vec<Span> = Vec::new();
    spans.push(Span { text: String::from_str(text), style: TextStyle::Bold });
    StyledLine { spans }
}

fn file_entry(path: &str, count: u32) -> (l: StyledLine)
    ensures
        is_file_entry(l, path@, count),
{
    let name = basename_of(path);
    let mut suffix = String::from_str(" (");
    let c = fmt_u64(count as u64);
    suffix.append(c.as_str());
    suffix.append("x)");
    let mut spans: Vec<Span> = Vec::new();
    spans.push(Span { text: String::from_str("    "), style: TextStyle::Plain });
    spans.push(Span { text: name, style: TextStyle::Plain });
    spans.push(Span { text: suffix, style: TextStyle::Dim });
    proof {
        assert(suffix@ =~= " ("@ + dec_str(count as int) + "x)"@);
    }
    StyledLine { spans }
}

fn turn_entry(t: &TurnTokenUsage) -> (l: StyledLine)
    ensures
        is_turn_entry(l, *t),
{
    let mut head = String::from_str("    Turn ");
    let num = fmt_u64(t.turn_number as u64);
    head.append(num.as_str());
    head.append(": ");
    let mut spans: Vec<Span> = Vec::new();
    spans.push(Span { text: head, style: TextStyle::Plain });
    spans.push(Span { text: format_tokens_compact(t.input_tokens), style: TextStyle::Dim });
    spans.push(Span { text: String::from_str(" in, "), style: TextStyle::Dim });
    spans.push(Span { text: format_tokens_compact(t.output_tokens), style: TextStyle::Dim });
    spans.push(Span { text: String::from_str(" out"), style: TextStyle::Dim });
    proof {
        assert(spans@[0].text@ =~= "    Turn "@ + dec_str(t.turn_number as int) + ": "@);
    }
    StyledLine { spans }
}

fn commands_section(stats: &SessionStats) -> (r: Vec<StyledLine>)
    ensures
        commands_section_ok(stats@, r@),
{
    let mut r: Vec<StyledLine> = Vec::new();
    r.push(section_header("Commands"));
    r.push(stat_line("Total executed", fmt_u64(stats.total_commands() as u64)));
    let succ = stats.successful_commands();
    let rate = stats.success_rate_tenths();
    let mut val = fmt_u64(succ as u64);
    val.append(" (");
    let p = format_percent_tenths(rate);
    val.append(p.as_str());
    val.append("%)");
    proof {
        assert(val@ =~= dec_str(count_success(stats@.commands)) + " ("@ + spec_percent_tenths(
            spec_success_rate_tenths(stats@.commands),
        ) + "%)"@);
    }
    r.push(stat_line("Successful", val));
    r.push(stat_line("Failed", fmt_u64(stats.failed_commands() as u64)));
    r.push(stat_line("Total exec time", format_duration(stats.total_command_time())));
    r.push(blank_line());
    r
}

fn files_section(stats: &SessionStats) -> (r: Vec<StyledLine>)
    requires
        stats.wf(),
    ensures
        files_section_ok(stats@, r@),
{
    let mut r: Vec<StyledLine> = Vec::new();
    r.push(section_header("Files"));
    r.push(stat_line("Files modified", fmt_u64(stats.files_modified_count() as u64)));
    r.push(stat_line("Files accessed", fmt_u64(stats.files_accessed_count() as u64)));
    let top = stats.top_accessed_files(3);
    let k = top.len();
    if k > 0 {
        r.push(dim_line("  Top accessed:"));
        let mut e: usize = 0;
        while e < k
            invariant
                e <= k,
                k == top@.len(),
                k == vstd::math::min(3, stats@.files_accessed.len() as int),
                top_files_ok(stats@.files_accessed, 3, pairs_view(top@)),
                r@.len() == 4 + e,
                is_section_header(r@[0], "Files"@),
                is_stat_line(
                    r@[1],
                    "Files modified"@,
                    dec_str(stats@.files_modified.len() as int),
                ),
                is_stat_line(
                    r@[2],
                    "Files accessed"@,
                    dec_str(stats@.files_accessed.len() as int),
                ),
                is_sub_header(r@[3], "  Top accessed:"@),
                forall|j: int|
                    0 <= j < e ==> is_file_entry(
                        r@[4 + j],
                        pairs_view(top@)[j].0,
                        pairs_view(top@)[j].1,
                    ),
            decreases k - e,
        {
            let l = file_entry(top[e].0.as_str(), top[e].1);
            proof {
                assert(pairs_view(top@)[e as int] == (top@[e as int].0@, top@[e as int].1));
            }
            r.push(l);
            e = e + 1;
        }
        r.push(blank_line());
        proof {
            let m = stats@;
            assert(top_files_ok(m.files_accessed, 3, pairs_view(top@)) && (forall|e2: int|
                0 <= e2 < vstd::math::min(3, m.files_accessed.len() as int) ==> is_file_entry(
                    r@[4 + e2],
                    pairs_view(top@)[e2].0,
                    pairs_view(top@)[e2].1,
                )));
        }
    } else {
        r.push(blank_line());
    }
    r
}

fn turns_section(stats: &SessionStats) -> (r: Vec<StyledLine>)
    ensures
        turns_section_ok(stats@, r@),
{
    let mut r: Vec<StyledLine> = Vec::new();
    r.push(section_header("Turns & Tokens"));
    r.push(stat_line("Total turns", fmt_u64(stats.current_turn() as u64)));
    r.push(stat_line("Total tokens", format_tokens_compact(stats.total_tokens())));
    r.push(stat_line("Input tokens", format_tokens_compact(stats.total_input_tokens())));
    r.push(stat_line("Output tokens", format_tokens_compact(stats.total_output_tokens())));
    let turns = stats.turn_token_breakdown();
    let n = turns.len();
    if n > 0 {
        r.push(dim_line("  Recent turns:"));
        let start = if n > 5 {
            n - 5
        } else {
            0
        };
        let mut e = start;
        while e < n
            invariant
                start <= e <= n,
                n == turns@.len(),
                turns@ == stats@.turns,
                start == vstd::math::max(0, n as int - 5),
                r@.len() == 6 + (e - start),
                is_section_header(r@[0], "Turns & Tokens"@),
                is_stat_line(r@[1], "Total turns"@, dec_str(stats@.current_turn as int)),
                is_stat_line(
                    r@[2],
                    "Total tokens"@,
                    spec_compact_i64(sum_total_tokens(stats@.turns)),
                ),
                is_stat_line(
                    r@[3],
                    "Input tokens"@,
                    spec_compact_i64(sum_input_tokens(stats@.turns)),
                ),
                is_stat_line(
                    r@[4],
                    "Output tokens"@,
                    spec_compact_i64(sum_output_tokens(stats@.turns)),
                ),
                is_sub_header(r@[5], "  Recent turns:"@),
                forall|j: int|
                    6 <= j < 6 + (e - start) ==> is_turn_entry(
                        #[trigger] r@[j],
                        stats@.turns[start + j - 6],
                    ),
            decreases n - e,
        {
            r.push(turn_entry(&turns[e]));
            e = e + 1;
        }
        r.push(blank_line());
    } else {
        r.push(blank_line());
    }
    r
}

fn timing_section(stats: &SessionStats, now_ms: u64) -> (r: Vec<StyledLine>)
    ensures
        timing_section_ok(stats@, now_ms, r@),
{
    let mut r: Vec<StyledLine> = Vec::new();
    r.push(section_header("Timing"));
    r.push(stat_line("Session duration", format_duration(stats.session_duration(now_ms))));
    let mut wait_val = format_duration(stats.model_wait_time());
    wait_val.append(" (");
    let wp = format_percent_tenths(stats.model_wait_percentage_tenths(now_ms));
    wait_val.append(wp.as_str());
    wait_val.append("%)");
    proof {
        assert(wait_val@ =~= spec_format_duration(stats@.model_wait_ms as int) + " ("@
            + spec_percent_tenths(
            spec_percentage_tenths(
                stats@.model_wait_ms as int,
                spec_elapsed(stats@.session_start_ms, now_ms),
            ),
        ) + "%)"@);
    }
    r.push(stat_line("Model wait time", wait_val));
    let mut tool_val = format_duration(stats.tool_execution_time());
    tool_val.append(" (");
    let tp = format_percent_tenths(stats.tool_execution_percentage_tenths(now_ms));
    tool_val.append(tp.as_str());
    tool_val.append("%)");
    proof {
        assert(tool_val@ =~= spec_format_duration(stats@.tool_exec_ms as int) + " ("@
            + spec_percent_tenths(
            spec_percentage_tenths(
                stats@.tool_exec_ms as int,
                spec_elapsed(stats@.session_start_ms, now_ms),
            ),
        ) + "%)"@);
    }
    r.push(stat_line("Tool exec time", tool_val));
    r
}

/// Build the display lines for a statistics snapshot at the given clock
/// reading.  The same snapshot and clock always produce the same lines.
pub fn build_stats_lines(stats: &SessionStats, now_ms: u64) -> (r: Vec<StyledLine>)
    requires
        stats.wf(),
    ensures
        stats_lines_ok(stats@, now_ms, r@),
{
    let mut lines = commands_section(stats);
    let ghost c = lines@;
    let mut fs = files_section(stats);
    let ghost f = fs@;
    lines.append(&mut fs);
    let mut ts = turns_section(stats);
    let ghost t = ts@;
    lines.append(&mut ts);
    let mut gs = timing_section(stats, now_ms);
    let ghost g = gs@;
    lines.append(&mut gs);
    proof {
        let m = stats@;
        let fa = file_sub_len(m);
        let tn = turn_sub_len(m);
        assert(lines@ == c + f + t + g);
        assert(lines@.subrange(0, 6) =~= c);
        assert(lines@.subrange(6, 10 + fa) =~= f);
        assert(lines@.subrange(10 + fa, 16 + fa + tn) =~= t);
        assert(lines@.subrange(16 + fa + tn, 20 + fa + tn) =~= g);
    }
    lines
}

} // verus!
