//! The `M:SS` clock rendering of a playback time given in microseconds.

use vstd::prelude::*;
use crate::num::{spec_u64_dec, spec_two_digit, u64_to_string, push_two_digit};

verus! {

/// Whole seconds of a microsecond count, clamped below at zero.
pub open spec fn spec_clamped_secs(us: int) -> int {
    if us <= 0 {
        0
    } else {
        us / 1000000
    }
}

/// The `M:SS` rendering: whole minutes, a colon, and two-digit seconds;
/// negative times read as zero.
pub open spec fn spec_fmt_time(us: int) -> Seq<char> {
    let secs = spec_clamped_secs(us);
    spec_u64_dec((secs / 60) as nat) + seq![':'] + spec_two_digit((secs % 60) as nat)
}

/// Render a microsecond count as `M:SS`, clamping negative times to
/// `0:00`.
pub fn fmt_time(us: i64) -> (r: String)
    ensures
        r@ == spec_fmt_time(us as int),
{
    let secs: i64 = if us <= 0 {
        0
    } else {
        us / 1000000
    };
    let m: u64 = (secs / 60) as u64;
    let rsec: u64 = (secs % 60) as u64;
    let mut out = u64_to_string(m);
    out.push(':');
    push_two_digit(&mut out, rsec);
    proof {
        assert(out@ =~= spec_fmt_time(us as int));
    }
    out
}

/// The rendering depends only on the whole seconds of the clamped time:
/// a time and its floor to a full second render alike.
pub proof fn lemma_fmt_time_floor(us: int)
    ensures
        spec_fmt_time(us) == spec_fmt_time(spec_clamped_secs(us) * 1000000),
{
    let s0 = spec_clamped_secs(us);
    assert(s0 >= 0);
    assert((s0 * 1000000) / 1000000 == s0) by (nonlinear_arith)
        requires
            s0 >= 0,
    ;
    if s0 == 0 {
        assert(spec_clamped_secs(s0 * 1000000) == 0);
    } else {
        assert(s0 * 1000000 > 0) by (nonlinear_arith)
            requires
                s0 > 0,
        ;
        assert(spec_clamped_secs(s0 * 1000000) == s0);
    }
}

} // verus!
