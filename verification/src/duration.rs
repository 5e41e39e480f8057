//! A span of time, stored as a whole number of milliseconds.
//!
//! Stands in for the host clock's duration values: every measurement the
//! aggregator makes is millisecond-grained, and timestamps arrive as plain
//! millisecond counts supplied by the caller.

use vstd::prelude::*;

use crate::text::dec_str;
use crate::text::fmt_u64;

verus! {

#[derive(Clone, Copy, Debug, PartialEq, Eq, Structural)]
pub struct Duration {
    pub millis: u64,
}

impl Duration {
    pub fn zero() -> (d: Duration)
        ensures
            d.millis == 0,
    {
        Duration { millis: 0 }
    }

    pub fn from_millis(ms: u64) -> (d: Duration)
        ensures
            d.millis == ms,
    {
        Duration { millis: ms }
    }

    /// Saturates at the largest representable span rather than overflowing.
    pub fn from_secs(secs: u64) -> (d: Duration)
        ensures
            d.millis == vstd::math::min(secs as int * 1000, u64::MAX as int),
    {
        match secs.checked_mul(1000) {
            Some(ms) => Duration { millis: ms },
            None => Duration { millis: u64::MAX },
        }
    }

    pub fn as_secs(&self) -> (r: u64)
        ensures
            r == self.millis / 1000,
    {
        self.millis / 1000
    }

    pub fn as_millis(&self) -> (r: u64)
        ensures
            r == self.millis,
    {
        self.millis
    }

    /// Sum of two spans, saturating at the largest representable span.
    pub fn saturating_add(self, other: Duration) -> (d: Duration)
        ensures
            d.millis == vstd::math::min(self.millis as int + other.millis as int, u64::MAX as int),
    {
        Duration { millis: self.millis.saturating_add(other.millis) }
    }
}

/// The rendered form of a span: `"{h}h {m}m"` from one hour up, `"{m}m {s}s"`
/// from one minute up, `"{s}s"` from one second up, else `"{ms}ms"`.  The
/// cutoffs are exact: sub-unit remainders truncate, nothing rounds up.
pub open spec fn spec_format_duration(ms: int) -> Seq<char> {
    let secs = ms / 1000;
    if secs >= 3600 {
        dec_str(secs / 3600) + "h "@ + dec_str(secs % 3600 / 60) + "m"@
    } else if secs >= 60 {
        dec_str(secs / 60) + "m "@ + dec_str(secs % 60) + "s"@
    } else if secs >= 1 {
        dec_str(secs) + "s"@
    } else {
        dec_str(ms) + "ms"@
    }
}

/// Format a duration for display.
pub fn format_duration(d: Duration) -> (s: String)
    ensures
        s@ == spec_format_duration(d.millis as int),
{
    let secs = d.as_secs();
    if secs >= 3600 {
        let mut s = fmt_u64(secs / 3600);
        s.append("h ");
        let mins = fmt_u64(secs % 3600 / 60);
        s.append(mins.as_str());
        s.append("m");
        proof {
            assert(s@ =~= spec_format_duration(d.millis as int));
        }
        s
    } else if secs >= 60 {
        let mut s = fmt_u64(secs / 60);
        s.append("m ");
        let rem = fmt_u64(secs % 60);
        s.append(rem.as_str());
        s.append("s");
        proof {
            assert(s@ =~= spec_format_duration(d.millis as int));
        }
        s
    } else if secs >= 1 {
        let mut s = fmt_u64(secs);
        s.append("s");
        proof {
            assert(s@ =~= spec_format_duration(d.millis as int));
        }
        s
    } else {
        let mut s = fmt_u64(d.as_millis());
        s.append("ms");
        proof {
            assert(s@ =~= spec_format_duration(d.millis as int));
        }
        s
    }
}

} // verus!
