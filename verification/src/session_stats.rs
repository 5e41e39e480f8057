//! Session statistics tracking.
//!
//! Tracks metrics across one session: command execution counts and
//! success/failure rates, files touched, token usage per turn, and time spent
//! waiting for the model versus executing tools.  Timestamps are supplied by
//! the caller as milliseconds on the host's monotonic clock, so the
//! aggregator itself is pure data and arithmetic.

use vstd::prelude::*;

use crate::duration::Duration;

verus! {

/// Statistics for a single command execution.
#[derive(Debug, Clone)]
pub struct CommandStat {
    pub command: String,
    pub exit_code: i32,
    pub duration: Duration,
}

impl CommandStat {
    pub open spec fn spec_is_success(self) -> bool {
        self.exit_code == 0
    }

    pub fn is_success(&self) -> (r: bool)
        ensures
            r == self.spec_is_success(),
    {
        self.exit_code == 0
    }
}

/// Token usage for a single turn.
#[derive(Debug, Clone, Copy, Default, PartialEq, Eq, Structural)]
pub struct TurnTokenUsage {
    pub turn_number: u32,
    pub input_tokens: i64,
    pub output_tokens: i64,
    pub reasoning_tokens: i64,
    pub cached_tokens: i64,
}

/// A token-usage report handed in by the host session runtime.  Negative
/// values are passed through uninterpreted.
#[derive(Debug, Clone, Copy, Default, PartialEq, Eq, Structural)]
pub struct TokenUsage {
    pub input_tokens: i64,
    pub output_tokens: i64,
    pub reasoning_output_tokens: i64,
    pub cached_input_tokens: i64,
}

/// Signed addition clamped into `i64`'s range.
pub open spec fn sat_add_i64(a: int, b: int) -> int {
    if a + b > i64::MAX {
        i64::MAX as int
    } else if a + b < i64::MIN {
        i64::MIN as int
    } else {
        a + b
    }
}

/// Unsigned addition clamped at `u64::MAX`.
pub open spec fn sat_add_u64(a: int, b: int) -> int {
    vstd::math::min(a + b, u64::MAX as int)
}

/// A counter bump clamped at `u32::MAX`.
pub open spec fn sat_inc_u32(c: u32) -> u32 {
    if c < u32::MAX {
        (c + 1) as u32
    } else {
        u32::MAX
    }
}

fn add_i64_sat(a: i64, b: i64) -> (r: i64)
    ensures
        r as int == sat_add_i64(a as int, b as int),
{
    match a.checked_add(b) {
        Some(v) => v,
        None => if b >= 0 {
            i64::MAX
        } else {
            i64::MIN
        },
    }
}

impl TurnTokenUsage {
    /// Input plus output tokens, clamped into `i64`'s range.
    pub fn total(&self) -> (r: i64)
        ensures
            r as int == sat_add_i64(self.input_tokens as int, self.output_tokens as int),
    {
        add_i64_sat(self.input_tokens, self.output_tokens)
    }
}

/// How many of the recorded commands exited with status zero.
pub open spec fn count_success(s: Seq<CommandStat>) -> int
    decreases s.len(),
{
    if s.len() == 0 {
        0
    } else {
        count_success(s.drop_last()) + if s.last().spec_is_success() {
            1int
        } else {
            0int
        }
    }
}

/// How many of the recorded commands exited with a non-zero status.
pub open spec fn count_failed(s: Seq<CommandStat>) -> int
    decreases s.len(),
{
    if s.len() == 0 {
        0
    } else {
        count_failed(s.drop_last()) + if s.last().spec_is_success() {
            0int
        } else {
            1int
        }
    }
}

/// Every command is counted exactly once: the successes and the failures
/// partition the command log, whatever it holds.
pub proof fn lemma_command_partition(s: Seq<CommandStat>)
    ensures
        count_success(s) + count_failed(s) == s.len(),
        0 <= count_success(s) <= s.len(),
        0 <= count_failed(s) <= s.len(),
    decreases s.len(),
{
    if s.len() > 0 {
        lemma_command_partition(s.drop_last());
    }
}

/// Total of the recorded command durations in milliseconds, clamped at
/// `u64::MAX`.
pub open spec fn sum_command_millis(s: Seq<CommandStat>) -> int
    decreases s.len(),
{
    if s.len() == 0 {
        0
    } else {
        sat_add_u64(sum_command_millis(s.drop_last()), s.last().duration.millis as int)
    }
}

/// Running clamped total of input plus output tokens over the turn log.
pub open spec fn sum_total_tokens(s: Seq<TurnTokenUsage>) -> int
    decreases s.len(),
{
    if s.len() == 0 {
        0
    } else {
        sat_add_i64(
            sum_total_tokens(s.drop_last()),
            sat_add_i64(s.last().input_tokens as int, s.last().output_tokens as int),
        )
    }
}

/// Running clamped total of input tokens over the turn log.
pub open spec fn sum_input_tokens(s: Seq<TurnTokenUsage>) -> int
    decreases s.len(),
{
    if s.len() == 0 {
        0
    } else {
        sat_add_i64(sum_input_tokens(s.drop_last()), s.last().input_tokens as int)
    }
}

/// Running clamped total of output tokens over the turn log.
pub open spec fn sum_output_tokens(s: Seq<TurnTokenUsage>) -> int
    decreases s.len(),
{
    if s.len() == 0 {
        0
    } else {
        sat_add_i64(sum_output_tokens(s.drop_last()), s.last().output_tokens as int)
    }
}

/// The index of the entry with path `p` in a touch-counter sequence, or `-1`
/// when no entry holds it.
pub open spec fn find_path(s: Seq<(Seq<char>, u32)>, p: Seq<char>) -> int
    decreases s.len(),
{
    if s.len() == 0 {
        -1
    } else if s[0].0 == p {
        0
    } else {
        let r = find_path(s.drop_first(), p);
        if r < 0 {
            -1
        } else {
            r + 1
        }
    }
}

pub proof fn lemma_find_path(s: Seq<(Seq<char>, u32)>, p: Seq<char>)
    ensures
        -1 <= find_path(s, p) < s.len(),
        find_path(s, p) == -1 ==> forall|k: int| 0 <= k < s.len() ==> s[k].0 != p,
        find_path(s, p) >= 0 ==> s[find_path(s, p)].0 == p && forall|k: int|
            0 <= k < find_path(s, p) ==> s[k].0 != p,
    decreases s.len(),
{
    if s.len() > 0 && s[0].0 != p {
        lemma_find_path(s.drop_first(), p);
        let st = s.drop_first();
        let r = find_path(s, p);
        if r == -1 {
            assert forall|k: int| 0 <= k < s.len() implies s[k].0 != p by {
                if k > 0 {
                    assert(st[k - 1] == s[k]);
                    assert(st[k - 1].0 != p);
                }
            }
        } else {
            assert(r == find_path(st, p) + 1);
            assert(s[r] == st[r - 1]);
            assert forall|k: int| 0 <= k < r implies s[k].0 != p by {
                if k > 0 {
                    assert(st[k - 1] == s[k]);
                    assert(st[k - 1].0 != p);
                }
            }
        }
    }
}

/// One increment-or-insert step on a touch-counter sequence: bump the entry
/// holding `p`, or append a fresh entry with count one.
pub open spec fn spec_record_touch(s: Seq<(Seq<char>, u32)>, p: Seq<char>) -> Seq<
    (Seq<char>, u32),
> {
    let i = find_path(s, p);
    if i >= 0 {
        s.update(i, (s[i].0, sat_inc_u32(s[i].1)))
    } else {
        s.push((p, 1u32))
    }
}

/// No two entries of a touch-counter sequence hold the same path.
pub open spec fn distinct_paths(s: Seq<(Seq<char>, u32)>) -> bool {
    forall|i: int, j: int| 0 <= i < j < s.len() ==> s[i].0 != s[j].0
}

/// An increment-or-insert step never duplicates a path.
pub proof fn lemma_record_touch_distinct(s: Seq<(Seq<char>, u32)>, p: Seq<char>)
    requires
        distinct_paths(s),
    ensures
        distinct_paths(spec_record_touch(s, p)),
{
    lemma_find_path(s, p);
}

/// The counter that `n` touches of the single path `p` build up from
/// nothing.
pub open spec fn iter_touch(p: Seq<char>, n: nat) -> Seq<(Seq<char>, u32)>
    decreases n,
{
    if n == 0 {
        Seq::empty()
    } else {
        spec_record_touch(iter_touch(p, (n - 1) as nat), p)
    }
}

/// Repeated touches of one path pile up in a single entry: after `n` touches
/// of `p` starting from nothing, the counter holds one entry, `(p, n)`.
pub proof fn lemma_repeated_touch(p: Seq<char>, n: nat)
    requires
        1 <= n <= u32::MAX,
    ensures
        iter_touch(p, n).len() == 1,
        iter_touch(p, n)[0] == (p, n as u32),
    decreases n,
{
    if n == 1 {
        let e = Seq::<(Seq<char>, u32)>::empty();
        assert(iter_touch(p, 0) == e);
        assert(find_path(e, p) == -1);
        assert(iter_touch(p, 1) == e.push((p, 1u32)));
    } else {
        lemma_repeated_touch(p, (n - 1) as nat);
        let prev = iter_touch(p, (n - 1) as nat);
        assert(prev[0].0 == p);
        assert(find_path(prev, p) == 0);
        assert(iter_touch(p, n) == prev.update(0, (prev[0].0, sat_inc_u32(prev[0].1))));
        assert(sat_inc_u32((n - 1) as u32) == n as u32);
    }
}

/// The whole state of the aggregator, as mathematical sequences and numbers.
pub ghost struct StatsModel {
    pub commands: Seq<CommandStat>,
    pub files_modified: Seq<(Seq<char>, u32)>,
    pub files_accessed: Seq<(Seq<char>, u32)>,
    pub turns: Seq<TurnTokenUsage>,
    pub current_turn: u32,
    pub model_wait_ms: u64,
    pub tool_exec_ms: u64,
    pub model_request_start: Option<u64>,
    pub tool_execution_start: Option<u64>,
    pub session_start_ms: u64,
}

/// Milliseconds from `start` to `now`, zero when the clock reads earlier than
/// `start`.
pub open spec fn spec_elapsed(start: u64, now: u64) -> int {
    if now >= start {
        now - start
    } else {
        0
    }
}

/// Closing the model-wait interval: adds the elapsed time to the total and
/// clears the marker; a no-op when no interval is open.
pub open spec fn spec_end_model_wait(m: StatsModel, now: u64) -> StatsModel {
    match m.model_request_start {
        Some(start) => (StatsModel {
            model_wait_ms: sat_add_u64(m.model_wait_ms as int, spec_elapsed(start, now)) as u64,
            model_request_start: None,
            ..m
        }),
        None => m,
    }
}

/// Closing the tool-execution interval, symmetric to the model-wait case.
pub open spec fn spec_end_tool_exec(m: StatsModel, now: u64) -> StatsModel {
    match m.tool_execution_start {
        Some(start) => (StatsModel {
            tool_exec_ms: sat_add_u64(m.tool_exec_ms as int, spec_elapsed(start, now)) as u64,
            tool_execution_start: None,
            ..m
        }),
        None => m,
    }
}

/// Closing an interval twice in a row is safe: the second close, with no
/// intervening start, changes nothing at all.
pub proof fn lemma_end_model_wait_idempotent(m: StatsModel, t1: u64, t2: u64)
    ensures
        spec_end_model_wait(spec_end_model_wait(m, t1), t2) == spec_end_model_wait(m, t1),
{
}

pub proof fn lemma_end_tool_exec_idempotent(m: StatsModel, t1: u64, t2: u64)
    ensures
        spec_end_tool_exec(spec_end_tool_exec(m, t1), t2) == spec_end_tool_exec(m, t1),
{
}

/// `part` out of `whole` in tenths of a percent, zero when `whole` is zero,
/// clamped at `u64::MAX`.
pub open spec fn spec_percentage_tenths(part: int, whole: int) -> int {
    if whole == 0 {
        0
    } else {
        vstd::math::min(part * 1000 / whole, u64::MAX as int)
    }
}

/// Share of successful commands in tenths of a percent; an empty log counts
/// as full success.
pub open spec fn spec_success_rate_tenths(s: Seq<CommandStat>) -> int {
    if s.len() == 0 {
        1000
    } else {
        count_success(s) * 1000 / s.len() as int
    }
}

/// View of a ranked-files result: each returned pair as plain values.
pub open spec fn pairs_view(r: Seq<(String, u32)>) -> Seq<(Seq<char>, u32)> {
    r.map_values(|e: (String, u32)| (e.0@, e.1))
}

/// Counts never increase along the sequence.
pub open spec fn sorted_desc(s: Seq<(Seq<char>, u32)>) -> bool {
    forall|i: int, j: int| 0 <= i <= j < s.len() ==> s[i].1 >= s[j].1
}

/// Some entry of `s` holds the path `p`.
pub open spec fn in_paths(s: Seq<(Seq<char>, u32)>, p: Seq<char>) -> bool {
    exists|i: int| 0 <= i < s.len() && s[i].0 == p
}

/// In a counter with unrepeated paths, `find_path` recovers each entry's own
/// index.
pub proof fn lemma_find_path_unique(s: Seq<(Seq<char>, u32)>, k: int)
    requires
        distinct_paths(s),
        0 <= k < s.len(),
    ensures
        find_path(s, s[k].0) == k,
{
    lemma_find_path(s, s[k].0);
    let f = find_path(s, s[k].0);
    if f == -1 {
        assert(s[k].0 != s[k].0);
    } else if f < k {
        assert(s[f].0 != s[k].0);
        assert(false);
    } else if f > k {
        assert(s[k].0 != s[k].0);
    }
}

/// What a ranking of the touch counter `s` limited to `limit` entries must
/// satisfy: as many entries as fit, each one a genuine counter entry, paths
/// unrepeated, counts descending with equal counts kept in recording order,
/// and nothing left out that ranks above what was kept.
pub open spec fn top_files_ok(
    s: Seq<(Seq<char>, u32)>,
    limit: int,
    r: Seq<(Seq<char>, u32)>,
) -> bool {
    &&& r.len() == vstd::math::min(limit, s.len() as int)
    &&& sorted_desc(r)
    &&& forall|i: int| 0 <= i < r.len() ==> s.contains(r[i])
    &&& forall|i: int, j: int| 0 <= i < j < r.len() ==> r[i].0 != r[j].0
    &&& forall|i: int, j: int|
        #![trigger r[i].1, r[j].1]
        0 <= i < j < r.len() && r[i].1 == r[j].1 ==> find_path(s, r[i].0) < find_path(s, r[j].0)
    &&& forall|k: int|
        0 <= k < s.len() && !in_paths(r, s[k].0) && r.len() > 0 ==> (s[k].1 < r[r.len() - 1].1 || (
        s[k].1 == r[r.len() - 1].1 && find_path(s, r[r.len() - 1].0) < k))
}

/// The sort's working view: each entry's path, count, and the index it holds
/// in the counter it came from.
spec fn triples_view(r: Seq<(String, u32, usize)>) -> Seq<(Seq<char>, u32, int)> {
    r.map_values(|e: (String, u32, usize)| (e.0@, e.1, e.2 as int))
}

/// The ranking order: higher counts first, and on equal counts the entry
/// recorded earlier.
spec fn keyed_ge(x: (Seq<char>, u32, int), y: (Seq<char>, u32, int)) -> bool {
    x.1 > y.1 || (x.1 == y.1 && x.2 <= y.2)
}

/// Every working entry is the counter's entry at its carried index.
spec fn anchored(tv: Seq<(Seq<char>, u32, int)>, s: Seq<(Seq<char>, u32)>) -> bool {
    forall|k: int|
        0 <= k < tv.len() ==> 0 <= #[trigger] tv[k].2 < s.len() && s[tv[k].2] == (tv[k].0, tv[k].1)
}

spec fn in_paths3(tv: Seq<(Seq<char>, u32, int)>, p: Seq<char>) -> bool {
    exists|i: int| 0 <= i < tv.len() && tv[i].0 == p
}

/// Rank the counter's entries by descending count and keep the first `limit`.
/// Ties on equal counts keep the earlier-recorded entry first, so the output
/// is deterministic.
fn top_files(v: &Vec<FileCount>, limit: usize) -> (r: Vec<(String, u32)>)
    requires
        distinct_paths(counters_view(v@)),
    ensures
        top_files_ok(counters_view(v@), limit as int, pairs_view(r@)),
{
    let ghost origin = counters_view(v@);
    let n = v.len();
    let mut arr: Vec<(String, u32, usize)> = Vec::new();
    let mut i: usize = 0;
    while i < n
        invariant
            i <= n,
            n == v@.len(),
            origin == counters_view(v@),
            arr@.len() == i,
            forall|k: int| 0 <= k < i ==> #[trigger] triples_view(arr@)[k] == (origin[k].0, origin[k].1, k),
        decreases n - i,
    {
        let ghost prev = arr@;
        arr.push((v[i].path.clone(), v[i].count, i));
        proof {
            assert forall|k: int| 0 <= k < i + 1 implies #[trigger] triples_view(arr@)[k] == (
                origin[k].0,
                origin[k].1,
                k,
            ) by {
                assert(arr@ == prev.push((arr@[i as int].0, arr@[i as int].1, arr@[i as int].2)));
                if k < i {
                    assert(arr@[k] == prev[k]);
                    assert(triples_view(prev)[k] == (origin[k].0, origin[k].1, k));
                } else {
                    assert(arr@[k].0@ == origin[k].0);
                }
            }
        }
        i = i + 1;
    }
    proof {
        assert forall|k: int| 0 <= k < n implies 0 <= #[trigger] triples_view(arr@)[k].2 < n
            && origin[triples_view(arr@)[k].2] == (
            triples_view(arr@)[k].0,
            triples_view(arr@)[k].1,
        ) by {
            assert(triples_view(arr@)[k] == (origin[k].0, origin[k].1, k));
        }
        assert forall|p: Seq<char>| #[trigger] in_paths(origin, p) implies in_paths3(
            triples_view(arr@),
            p,
        ) by {
            let w = choose|w: int| 0 <= w < origin.len() && origin[w].0 == p;
            assert(triples_view(arr@)[w].0 == p);
        }
    }
    let mut i: usize = 0;
    while i < n
        invariant
            i <= n,
            n == origin.len(),
            arr@.len() == n,
            distinct_paths(origin),
            anchored(triples_view(arr@), origin),
            forall|a: int, b: int|
                0 <= a < b < n ==> #[trigger] triples_view(arr@)[a].2 != #[trigger] triples_view(
                    arr@,
                )[b].2,
            forall|p: Seq<char>| #[trigger] in_paths(origin, p) ==> in_paths3(triples_view(arr@), p),
            forall|a: int, b: int|
                0 <= a <= b < i ==> keyed_ge(
                    #[trigger] triples_view(arr@)[a],
                    #[trigger] triples_view(arr@)[b],
                ),
            forall|a: int, b: int|
                0 <= a < i <= b < n ==> keyed_ge(
                    #[trigger] triples_view(arr@)[a],
                    #[trigger] triples_view(arr@)[b],
                ),
        decreases n - i,
    {
        let ghost snap = arr@;
        let mut m: usize = i;
        let mut j: usize = i + 1;
        while j < n
            invariant
                i <= m < j <= n,
                n == arr@.len(),
                arr@ == snap,
                forall|t: int|
                    i <= t < j ==> keyed_ge(
                        triples_view(arr@)[m as int],
                        #[trigger] triples_view(arr@)[t],
                    ),
            decreases n - j,
        {
            if arr[j].1 > arr[m].1 || (arr[j].1 == arr[m].1 && arr[j].2 < arr[m].2) {
                m = j;
            }
            j = j + 1;
        }
        if m != i {
            let ghost av = triples_view(arr@);
            let bpath = arr[m].0.clone();
            let bcount = arr[m].1;
            let bidx = arr[m].2;
            let apath = arr[i].0.clone();
            let acount = arr[i].1;
            let aidx = arr[i].2;
            let pi = &mut arr[i];
            *pi = (bpath, bcount, bidx);
            let pm = &mut arr[m];
            *pm = (apath, acount, aidx);
            proof {
                let nv = triples_view(arr@);
                assert(nv =~= av.update(i as int, av[m as int]).update(m as int, av[i as int]));
                assert forall|k: int| 0 <= k < nv.len() implies 0 <= #[trigger] nv[k].2
                    < origin.len() && origin[nv[k].2] == (nv[k].0, nv[k].1) by {
                    if k == i {
                        assert(nv[k] == av[m as int]);
                    } else if k == m {
                        assert(nv[k] == av[i as int]);
                    } else {
                        assert(nv[k] == av[k]);
                    }
                }
                assert forall|p: Seq<char>| #[trigger] in_paths(origin, p) implies in_paths3(
                    nv,
                    p,
                ) by {
                    assert(in_paths3(av, p));
                    let w = choose|w: int| 0 <= w < av.len() && av[w].0 == p;
                    if w == i {
                        assert(nv[m as int].0 == p);
                    } else if w == m {
                        assert(nv[i as int].0 == p);
                    } else {
                        assert(nv[w].0 == p);
                    }
                }
            }
        }
        i = i + 1;
    }
    let ghost full = triples_view(arr@);
    let want = if limit < n {
        limit
    } else {
        n
    };
    let mut out: Vec<(String, u32)> = Vec::new();
    let mut e: usize = 0;
    while e < want
        invariant
            e <= want,
            want <= n == arr@.len(),
            out@.len() == e,
            forall|k: int|
                0 <= k < e ==> #[trigger] pairs_view(out@)[k] == (
                    triples_view(arr@)[k].0,
                    triples_view(arr@)[k].1,
                ),
        decreases want - e,
    {
        let ghost prevout = out@;
        out.push((arr[e].0.clone(), arr[e].1));
        proof {
            assert forall|k: int| 0 <= k < e + 1 implies #[trigger] pairs_view(out@)[k] == (
                triples_view(arr@)[k].0,
                triples_view(arr@)[k].1,
            ) by {
                if k < e {
                    assert(out@[k] == prevout[k]);
                    assert(pairs_view(prevout)[k] == (triples_view(arr@)[k].0, triples_view(arr@)[k].1));
                } else {
                    assert(out@[k].0@ == triples_view(arr@)[k].0);
                    assert(out@[k].1 == triples_view(arr@)[k].1);
                }
            }
        }
        e = e + 1;
    }
    proof {
        let rv = pairs_view(out@);
        assert forall|i2: int| 0 <= i2 < rv.len() implies origin.contains(#[trigger] rv[i2]) by {
            assert(rv[i2] == (full[i2].0, full[i2].1));
            assert(origin[full[i2].2] == rv[i2]);
        }
        assert forall|a: int, b: int| 0 <= a < b < rv.len() implies rv[a].0 != rv[b].0 by {
            if rv[a].0 == rv[b].0 {
                assert(origin[full[a].2].0 == origin[full[b].2].0);
                assert(false);
            }
        }
        assert forall|a: int, b: int|
            #![trigger rv[a].1, rv[b].1]
            0 <= a < b < rv.len() && rv[a].1 == rv[b].1 implies find_path(origin, rv[a].0)
            < find_path(origin, rv[b].0) by {
            assert(keyed_ge(full[a], full[b]));
            lemma_find_path_unique(origin, full[a].2);
            lemma_find_path_unique(origin, full[b].2);
        }
        assert forall|k: int|
            0 <= k < origin.len() && !in_paths(rv, origin[k].0) && rv.len() > 0 implies (
        origin[k].1 < rv[rv.len() - 1].1 || (origin[k].1 == rv[rv.len() - 1].1 && find_path(
            origin,
            rv[rv.len() - 1].0,
        ) < k)) by {
            let p = origin[k].0;
            assert(in_paths(origin, p));
            assert(in_paths3(full, p));
            let j = choose|j: int| 0 <= j < full.len() && full[j].0 == p;
            assert(origin[full[j].2].0 == p);
            if full[j].2 != k {
                assert(origin[full[j].2].0 != origin[k].0);
            }
            assert(full[j].2 == k);
            if j < rv.len() {
                assert(rv[j].0 == p);
                assert(false);
            }
            let last = rv.len() - 1;
            assert(keyed_ge(full[last], full[j]));
            assert(rv[last] == (full[last].0, full[last].1));
            lemma_find_path_unique(origin, full[last].2);
            if full[last].2 == full[j].2 && last != j {
                assert(false);
            }
        }
        assert forall|a: int, b: int| 0 <= a <= b < rv.len() implies rv[a].1 >= rv[b].1 by {
            assert(keyed_ge(full[a], full[b]));
        }
    }
    out
}

/// A touch counter for one file path.
#[derive(Debug, Clone)]
pub struct FileCount {
    pub path: String,
    pub count: u32,
}

pub open spec fn counters_view(v: Seq<FileCount>) -> Seq<(Seq<char>, u32)> {
    v.map_values(|fc: FileCount| (fc.path@, fc.count))
}

/// Aggregated session statistics.
#[derive(Debug, Clone)]
pub struct SessionStats {
    commands: Vec<CommandStat>,
    files_modified: Vec<FileCount>,
    files_accessed: Vec<FileCount>,
    turn_token_usage: Vec<TurnTokenUsage>,
    current_turn: u32,
    model_wait_ms: u64,
    tool_exec_ms: u64,
    model_request_start: Option<u64>,
    tool_execution_start: Option<u64>,
    session_start_ms: u64,
}

impl View for SessionStats {
    type V = StatsModel;

    closed spec fn view(&self) -> StatsModel {
        StatsModel {
            commands: self.commands@,
            files_modified: counters_view(self.files_modified@),
            files_accessed: counters_view(self.files_accessed@),
            turns: self.turn_token_usage@,
            current_turn: self.current_turn,
            model_wait_ms: self.model_wait_ms,
            tool_exec_ms: self.tool_exec_ms,
            model_request_start: self.model_request_start,
            tool_execution_start: self.tool_execution_start,
            session_start_ms: self.session_start_ms,
        }
    }
}

impl SessionStats {
    /// Both touch-counter maps keep their keys unique.
    pub open spec fn wf(&self) -> bool {
        distinct_paths(self@.files_modified) && distinct_paths(self@.files_accessed)
    }

    /// A fresh aggregator, anchored at the given session-start timestamp.
    pub fn new(now_ms: u64) -> (s: SessionStats)
        ensures
            s.wf(),
            s@ == (StatsModel {
                commands: Seq::empty(),
                files_modified: Seq::empty(),
                files_accessed: Seq::empty(),
                turns: Seq::empty(),
                current_turn: 0u32,
                model_wait_ms: 0u64,
                tool_exec_ms: 0u64,
                model_request_start: None,
                tool_execution_start: None,
                session_start_ms: now_ms,
            }),
    {
        let s = SessionStats {
            commands: Vec::new(),
            files_modified: Vec::new(),
            files_accessed: Vec::new(),
            turn_token_usage: Vec::new(),
            current_turn: 0,
            model_wait_ms: 0,
            tool_exec_ms: 0,
            model_request_start: None,
            tool_execution_start: None,
            session_start_ms: now_ms,
        };
        proof {
            assert(s@.files_modified =~= Seq::<(Seq<char>, u32)>::empty());
            assert(s@.files_accessed =~= Seq::<(Seq<char>, u32)>::empty());
        }
        s
    }

    /// Record a completed command execution.
    pub fn record_command(&mut self, command: String, exit_code: i32, duration: Duration)
        ensures
            final(self)@ == (StatsModel {
                commands: old(self)@.commands.push(
                    CommandStat { command, exit_code, duration },
                ),
                ..old(self)@
            }),
            old(self).wf() ==> final(self).wf(),
    {
        self.commands.push(CommandStat { command, exit_code, duration });
    }

    /// Total number of commands executed.
    pub fn total_commands(&self) -> (r: usize)
        ensures
            r == self@.commands.len(),
    {
        self.commands.len()
    }

    /// Number of successful commands (exit code zero).
    pub fn successful_commands(&self) -> (r: usize)
        ensures
            r as int == count_success(self@.commands),
    {
        let n = self.commands.len();
        let mut count: usize = 0;
        let mut i: usize = 0;
        while i < n
            invariant
                i <= n,
                n == self@.commands.len(),
                count <= i,
                count as int == count_success(self@.commands.take(i as int)),
            decreases n - i,
        {
            proof {
                assert(self@.commands.take(i + 1).drop_last() =~= self@.commands.take(i as int));
                assert(self@.commands.take(i + 1).last() == self@.commands[i as int]);
            }
            if self.commands[i].is_success() {
                count = count + 1;
            }
            i = i + 1;
        }
        proof {
            assert(self@.commands.take(n as int) =~= self@.commands);
        }
        count
    }

    /// Number of failed commands (non-zero exit code).
    pub fn failed_commands(&self) -> (r: usize)
        ensures
            r as int == count_failed(self@.commands),
    {
        proof {
            lemma_command_partition(self@.commands);
        }
        self.commands.len() - self.successful_commands()
    }

    /// Share of successful commands, in tenths of a percent (`666` reads as
    /// `66.6%`).  An empty log yields `1000`: no evidence of failure.
    pub fn success_rate_tenths(&self) -> (r: u64)
        ensures
            r as int == spec_success_rate_tenths(self@.commands),
            r <= 1000,
    {
        let total = self.commands.len();
        if total == 0 {
            return 1000;
        }
        let succ = self.successful_commands();
        proof {
            lemma_command_partition(self@.commands);
            vstd::arithmetic::div_mod::lemma_div_is_ordered(
                succ as int * 1000,
                total as int * 1000,
                total as int,
            );
            vstd::arithmetic::div_mod::lemma_div_by_multiple(1000, total as int);
            vstd::arithmetic::div_mod::lemma_div_pos_is_pos(succ as int * 1000, total as int);
        }
        ((succ as u128) * 1000 / (total as u128)) as u64
    }

    /// Total recorded command execution time.
    pub fn total_command_time(&self) -> (r: Duration)
        ensures
            r.millis as int == sum_command_millis(self@.commands),
    {
        let n = self.commands.len();
        let mut acc: u64 = 0;
        let mut i: usize = 0;
        while i < n
            invariant
                i <= n,
                n == self@.commands.len(),
                acc as int == sum_command_millis(self@.commands.take(i as int)),
            decreases n - i,
        {
            proof {
                assert(self@.commands.take(i + 1).drop_last() =~= self@.commands.take(i as int));
                assert(self@.commands.take(i + 1).last() == self@.commands[i as int]);
            }
            acc = acc.saturating_add(self.commands[i].duration.millis);
            i = i + 1;
        }
        proof {
            assert(self@.commands.take(n as int) =~= self@.commands);
        }
        Duration::from_millis(acc)
    }

    /// Record a file modification.
    pub fn record_file_modified(&mut self, path: String)
        requires
            old(self).wf(),
        ensures
            final(self).wf(),
            final(self)@ == (StatsModel {
                files_modified: spec_record_touch(old(self)@.files_modified, path@),
                ..old(self)@
            }),
    {
        proof {
            lemma_record_touch_distinct(self@.files_modified, path@);
        }
        touch_counter(&mut self.files_modified, path);
    }

    /// Record a file access (read).
    pub fn record_file_accessed(&mut self, path: String)
        requires
            old(self).wf(),
        ensures
            final(self).wf(),
            final(self)@ == (StatsModel {
                files_accessed: spec_record_touch(old(self)@.files_accessed, path@),
                ..old(self)@
            }),
    {
        proof {
            lemma_record_touch_distinct(self@.files_accessed, path@);
        }
        touch_counter(&mut self.files_accessed, path);
    }

    /// Number of unique files modified.
    pub fn files_modified_count(&self) -> (r: usize)
        ensures
            r == self@.files_modified.len(),
    {
        self.files_modified.len()
    }

    /// Number of unique files accessed.
    pub fn files_accessed_count(&self) -> (r: usize)
        ensures
            r == self@.files_accessed.len(),
    {
        self.files_accessed.len()
    }

    /// The most frequently accessed files, highest count first, at most
    /// `limit` of them.  Equal counts keep the earlier-recorded path first.
    pub fn top_accessed_files(&self, limit: usize) -> (r: Vec<(String, u32)>)
        requires
            self.wf(),
        ensures
            top_files_ok(self@.files_accessed, limit as int, pairs_view(r@)),
    {
        top_files(&self.files_accessed, limit)
    }

    /// The most frequently modified files, highest count first, at most
    /// `limit` of them.  Equal counts keep the earlier-recorded path first.
    pub fn top_modified_files(&self, limit: usize) -> (r: Vec<(String, u32)>)
        requires
            self.wf(),
        ensures
            top_files_ok(self@.files_modified, limit as int, pairs_view(r@)),
    {
        top_files(&self.files_modified, limit)
    }

    /// Start a new turn.  The counter saturates rather than wrapping.
    pub fn start_turn(&mut self)
        ensures
            final(self)@ == (StatsModel {
                current_turn: sat_inc_u32(old(self)@.current_turn),
                ..old(self)@
            }),
            old(self).wf() ==> final(self).wf(),
    {
        if self.current_turn < u32::MAX {
            self.current_turn = self.current_turn + 1;
        }
    }

    /// Record token usage for the current turn.
    pub fn record_turn_tokens(&mut self, usage: &TokenUsage)
        ensures
            final(self)@ == (StatsModel {
                turns: old(self)@.turns.push(
                    TurnTokenUsage {
                        turn_number: old(self)@.current_turn,
                        input_tokens: usage.input_tokens,
                        output_tokens: usage.output_tokens,
                        reasoning_tokens: usage.reasoning_output_tokens,
                        cached_tokens: usage.cached_input_tokens,
                    },
                ),
                ..old(self)@
            }),
            old(self).wf() ==> final(self).wf(),
    {
        let turn_usage = TurnTokenUsage {
            turn_number: self.current_turn,
            input_tokens: usage.input_tokens,
            output_tokens: usage.output_tokens,
            reasoning_tokens: usage.reasoning_output_tokens,
            cached_tokens: usage.cached_input_tokens,
        };
        self.turn_token_usage.push(turn_usage);
    }

    /// The current turn number.
    pub fn current_turn(&self) -> (r: u32)
        ensures
            r == self@.current_turn,
    {
        self.current_turn
    }

    /// Token usage breakdown by turn, oldest first.
    pub fn turn_token_breakdown(&self) -> (r: &[TurnTokenUsage])
        ensures
            r@ == self@.turns,
    {
        self.turn_token_usage.as_slice()
    }

    /// Total input plus output tokens across all turns.
    pub fn total_tokens(&self) -> (r: i64)
        ensures
            r as int == sum_total_tokens(self@.turns),
    {
        let n = self.turn_token_usage.len();
        let mut acc: i64 = 0;
        let mut i: usize = 0;
        while i < n
            invariant
                i <= n,
                n == self@.turns.len(),
                acc as int == sum_total_tokens(self@.turns.take(i as int)),
            decreases n - i,
        {
            proof {
                assert(self@.turns.take(i + 1).drop_last() =~= self@.turns.take(i as int));
                assert(self@.turns.take(i + 1).last() == self@.turns[i as int]);
            }
            let t = self.turn_token_usage[i].total();
            acc = add_i64_sat(acc, t);
            i = i + 1;
        }
        proof {
            assert(self@.turns.take(n as int) =~= self@.turns);
        }
        acc
    }

    /// Total input tokens across all turns.
    pub fn total_input_tokens(&self) -> (r: i64)
        ensures
            r as int == sum_input_tokens(self@.turns),
    {
        let n = self.turn_token_usage.len();
        let mut acc: i64 = 0;
        let mut i: usize = 0;
        while i < n
            invariant
                i <= n,
                n == self@.turns.len(),
                acc as int == sum_input_tokens(self@.turns.take(i as int)),
            decreases n - i,
        {
            proof {
                assert(self@.turns.take(i + 1).drop_last() =~= self@.turns.take(i as int));
                assert(self@.turns.take(i + 1).last() == self@.turns[i as int]);
            }
            acc = add_i64_sat(acc, self.turn_token_usage[i].input_tokens);
            i = i + 1;
        }
        proof {
            assert(self@.turns.take(n as int) =~= self@.turns);
        }
        acc
    }

    /// Total output tokens across all turns.
    pub fn total_output_tokens(&self) -> (r: i64)
        ensures
            r as int == sum_output_tokens(self@.turns),
    {
        let n = self.turn_token_usage.len();
        let mut acc: i64 = 0;
        let mut i: usize = 0;
        while i < n
            invariant
                i <= n,
                n == self@.turns.len(),
                acc as int == sum_output_tokens(self@.turns.take(i as int)),
            decreases n - i,
        {
            proof {
                assert(self@.turns.take(i + 1).drop_last() =~= self@.turns.take(i as int));
                assert(self@.turns.take(i + 1).last() == self@.turns[i as int]);
            }
            acc = add_i64_sat(acc, self.turn_token_usage[i].output_tokens);
            i = i + 1;
        }
        proof {
            assert(self@.turns.take(n as int) =~= self@.turns);
        }
        acc
    }

    /// Mark the start of a model request.
    pub fn start_model_request(&mut self, now_ms: u64)
        ensures
            final(self)@ == (StatsModel { model_request_start: Some(now_ms), ..old(self)@ }),
            old(self).wf() ==> final(self).wf(),
    {
        self.model_request_start = Some(now_ms);
    }

    /// Mark the end of a model request.  A close with no open interval is a
    /// silent no-op, so closing twice in a row is safe.
    pub fn end_model_request(&mut self, now_ms: u64)
        ensures
            final(self)@ == spec_end_model_wait(old(self)@, now_ms),
            old(self).wf() ==> final(self).wf(),
    {
        match self.model_request_start {
            Some(start) => {
                let elapsed = now_ms.saturating_sub(start);
                self.model_wait_ms = self.model_wait_ms.saturating_add(elapsed);
                self.model_request_start = None;
            },
            None => {},
        }
    }

    /// Mark the start of tool execution.
    pub fn start_tool_execution(&mut self, now_ms: u64)
        ensures
            final(self)@ == (StatsModel { tool_execution_start: Some(now_ms), ..old(self)@ }),
            old(self).wf() ==> final(self).wf(),
    {
        self.tool_execution_start = Some(now_ms);
    }

    /// Mark the end of tool execution; a close with no open interval is a
    /// silent no-op.
    pub fn end_tool_execution(&mut self, now_ms: u64)
        ensures
            final(self)@ == spec_end_tool_exec(old(self)@, now_ms),
            old(self).wf() ==> final(self).wf(),
    {
        match self.tool_execution_start {
            Some(start) => {
                let elapsed = now_ms.saturating_sub(start);
                self.tool_exec_ms = self.tool_exec_ms.saturating_add(elapsed);
                self.tool_execution_start = None;
            },
            None => {},
        }
    }

    /// Total time spent waiting for model responses.
    pub fn model_wait_time(&self) -> (r: Duration)
        ensures
            r.millis == self@.model_wait_ms,
    {
        Duration::from_millis(self.model_wait_ms)
    }

    /// Total time spent executing tools.
    pub fn tool_execution_time(&self) -> (r: Duration)
        ensures
            r.millis == self@.tool_exec_ms,
    {
        Duration::from_millis(self.tool_exec_ms)
    }

    /// Time elapsed since the session started, given the clock's current
    /// reading.
    pub fn session_duration(&self, now_ms: u64) -> (r: Duration)
        ensures
            r.millis as int == spec_elapsed(self@.session_start_ms, now_ms),
    {
        Duration::from_millis(now_ms.saturating_sub(self.session_start_ms))
    }

    /// Share of the session spent waiting for the model, in tenths of a
    /// percent.  A zero-length session yields zero: nothing is divided by
    /// zero at session start.
    pub fn model_wait_percentage_tenths(&self, now_ms: u64) -> (r: u64)
        ensures
            r as int == spec_percentage_tenths(
                self@.model_wait_ms as int,
                spec_elapsed(self@.session_start_ms, now_ms),
            ),
    {
        percentage_tenths(self.model_wait_ms, now_ms.saturating_sub(self.session_start_ms))
    }

    /// Share of the session spent executing tools, in tenths of a percent;
    /// zero for a zero-length session.
    pub fn tool_execution_percentage_tenths(&self, now_ms: u64) -> (r: u64)
        ensures
            r as int == spec_percentage_tenths(
                self@.tool_exec_ms as int,
                spec_elapsed(self@.session_start_ms, now_ms),
            ),
    {
        percentage_tenths(self.tool_exec_ms, now_ms.saturating_sub(self.session_start_ms))
    }
}

fn percentage_tenths(part: u64, whole: u64) -> (r: u64)
    ensures
        r as int == spec_percentage_tenths(part as int, whole as int),
{
    if whole == 0 {
        0
    } else {
        proof {
            vstd::arithmetic::div_mod::lemma_div_pos_is_pos(part as int * 1000, whole as int);
        }
        let q = (part as u128) * 1000 / (whole as u128);
        if q > u64::MAX as u128 {
            u64::MAX
        } else {
            q as u64
        }
    }
}

/// Increment-or-insert `path`'s entry, matching `spec_record_touch` on the
/// counter's view.
fn touch_counter(v: &mut Vec<FileCount>, path: String)
    ensures
        counters_view(final(v)@) == spec_record_touch(counters_view(old(v)@), path@),
{
    let ghost s = counters_view(old(v)@);
    let n = v.len();
    let mut i: usize = 0;
    while i < n
        invariant
            i <= n,
            n == v@.len(),
            v@ == old(v)@,
            s == counters_view(old(v)@),
            forall|k: int| 0 <= k < i ==> counters_view(v@)[k].0 != path@,
        decreases n - i,
    {
        if v[i].path == path {
            proof {
                lemma_find_path(s, path@);
                let f = find_path(s, path@);
                assert(s[i as int] == (v@[i as int].path@, v@[i as int].count));
                assert(s[i as int].0 == path@);
                if f == -1 {
                    assert(false);
                } else if f < i {
                    assert(s[f].0 != path@);
                    assert(false);
                } else if f > i {
                    assert(s[i as int].0 != path@);
                    assert(false);
                }
                assert(f == i);
            }
            let c = v[i].count;
            let newc = if c < u32::MAX {
                c + 1
            } else {
                u32::MAX
            };
            let p = &mut v[i];
            p.count = newc;
            proof {
                assert(counters_view(v@) =~= spec_record_touch(s, path@));
            }
            return ;
        }
        i = i + 1;
    }
    proof {
        lemma_find_path(s, path@);
        if find_path(s, path@) >= 0 {
            assert(s[find_path(s, path@)].0 == path@);
            assert(false);
        }
    }
    v.push(FileCount { path, count: 1 });
    proof {
        assert(counters_view(v@) =~= spec_record_touch(s, path@));
    }
}

} // verus!
