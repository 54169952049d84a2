//! Decimal rendering and parsing: unsigned integers, two-digit fields, and
//! signed decimal literals with a fractional part, parsed with saturation.

use vstd::prelude::*;

verus! {

/// The decimal digit character for `d` (meaningful for `d < 10`).
pub open spec fn dec_digit(d: nat) -> char {
    if d == 0 {
        '0'
    } else if d == 1 {
        '1'
    } else if d == 2 {
        '2'
    } else if d == 3 {
        '3'
    } else if d == 4 {
        '4'
    } else if d == 5 {
        '5'
    } else if d == 6 {
        '6'
    } else if d == 7 {
        '7'
    } else if d == 8 {
        '8'
    } else {
        '9'
    }
}

/// The decimal digit string of `n`, without sign or padding.
pub open spec fn spec_u64_dec(n: nat) -> Seq<char>
    decreases n,
{
    if n < 10 {
        seq![dec_digit(n)]
    } else {
        spec_u64_dec(n / 10) + seq![dec_digit(n % 10)]
    }
}

/// The digit character for `d < 10`.
pub fn digit_char(d: u64) -> (r: char)
    requires
        d < 10,
    ensures
        r == dec_digit(d as nat),
{
    if d == 0 {
        '0'
    } else if d == 1 {
        '1'
    } else if d == 2 {
        '2'
    } else if d == 3 {
        '3'
    } else if d == 4 {
        '4'
    } else if d == 5 {
        '5'
    } else if d == 6 {
        '6'
    } else if d == 7 {
        '7'
    } else if d == 8 {
        '8'
    } else {
        '9'
    }
}

/// Render `n` in decimal.
pub fn u64_to_string(n: u64) -> (r: String)
    ensures
        r@ == spec_u64_dec(n as nat),
    decreases n,
{
    if n < 10 {
        let mut s = String::new();
        s.push(digit_char(n));
        proof {
            assert(s@ =~= seq![dec_digit(n as nat)]);
        }
        s
    } else {
        let mut s = u64_to_string(n / 10);
        s.push(digit_char(n % 10));
        proof {
            assert(s@ =~= spec_u64_dec((n / 10) as nat) + seq![dec_digit((n % 10) as nat)]);
        }
        s
    }
}

/// A two-digit zero-padded decimal field (meaningful for `n < 100`).
pub open spec fn spec_two_digit(n: nat) -> Seq<char> {
    seq![dec_digit(n / 10 % 10), dec_digit(n % 10)]
}

/// Append the two-digit zero-padded rendering of `n` to `out`.
pub fn push_two_digit(out: &mut String, n: u64)
    requires
        n < 100,
    ensures
        final(out)@ == old(out)@ + spec_two_digit(n as nat),
{
    out.push(digit_char(n / 10 % 10));
    out.push(digit_char(n % 10));
    proof {
        assert(out@ =~= old(out)@ + spec_two_digit(n as nat));
    }
}

/// Whether `c` is a decimal digit.
pub open spec fn is_digit(c: char) -> bool {
    '0' <= c && c <= '9'
}

/// The numeric value of a digit character.
pub open spec fn char_digit(c: char) -> nat {
    ((c as u32) - ('0' as u32)) as nat
}

/// Every character of `s` is a decimal digit.
pub open spec fn all_digits(s: Seq<char>) -> bool {
    forall|i: int| 0 <= i < s.len() ==> is_digit(#[trigger] s[i])
}

/// The value of a digit string, read left to right.
pub open spec fn spec_digits_val(s: Seq<char>) -> nat
    decreases s.len(),
{
    if s.len() == 0 {
        0
    } else {
        spec_digits_val(s.drop_last()) * 10 + char_digit(s.last())
    }
}

pub proof fn lemma_digits_val_push(s: Seq<char>, c: char)
    ensures
        spec_digits_val(s.push(c)) == spec_digits_val(s) * 10 + char_digit(c),
{
    assert(s.push(c).drop_last() =~= s);
    assert(s.push(c).last() == c);
}

/// `spec_parse_u64` accepts an optional leading plus sign followed by one
/// or more digits whose value fits in a `u64`.
pub open spec fn spec_parse_u64(s: Seq<char>) -> Option<u64> {
    let body = if s.len() > 0 && s[0] == '+' {
        s.drop_first()
    } else {
        s
    };
    if body.len() > 0 && all_digits(body) && spec_digits_val(body) <= u64::MAX {
        Some(spec_digits_val(body) as u64)
    } else {
        None
    }
}

/// Accumulate one digit with saturation at `u64::MAX`, reporting whether
/// the true value has exceeded the range.
fn acc_digit(acc: u64, sat: bool, d: u64) -> (r: (u64, bool))
    requires
        d < 10,
    ensures
        ({
            let v = if sat {
                u64::MAX as nat + 1
            } else {
                acc as nat
            };
            let nv = v * 10 + d;
            if nv > u64::MAX {
                r.1 && (!sat ==> r.0 == acc)
            } else {
                !r.1 && r.0 == nv
            }
        }),
{
    if sat {
        proof {
            assert((u64::MAX as nat + 1) * 10 + d > u64::MAX) by (nonlinear_arith)
                requires
                    d < 10,
            ;
        }
        return (acc, true);
    }
    let limit: u64 = u64::MAX / 10;
    if acc > limit || (acc == limit && d > u64::MAX % 10) {
        proof {
            assert(acc as nat * 10 + d > u64::MAX) by (nonlinear_arith)
                requires
                    d < 10,
                    acc > u64::MAX / 10 || (acc == u64::MAX / 10 && d > u64::MAX % 10),
            ;
        }
        (acc, true)
    } else {
        proof {
            assert(acc as nat * 10 + d <= u64::MAX) by (nonlinear_arith)
                requires
                    d < 10,
                    acc <= u64::MAX / 10,
                    acc == u64::MAX / 10 ==> d <= u64::MAX % 10,
            ;
        }
        (acc * 10 + d, false)
    }
}

/// Parse an unsigned decimal integer: an optional leading plus sign and
/// one or more digits; `None` on anything else or on a value above
/// `u64::MAX`.
pub fn parse_u64(s: &str) -> (r: Option<u64>)
    ensures
        r == spec_parse_u64(s@),
{
    let len = s.unicode_len();
    let mut i: usize = 0;
    if len > 0 && s.get_char(0) == '+' {
        i = 1;
    }
    let ghost body = if s@.len() > 0 && s@[0] == '+' {
        s@.drop_first()
    } else {
        s@
    };
    let ghost start = i as int;
    if i >= len {
        // empty body
        return None;
    }
    let mut acc: u64 = 0;
    let mut sat: bool = false;
    let mut j: usize = i;
    while j < len
        invariant
            len == s@.len(),
            start <= j <= len,
            body =~= s@.subrange(start, len as int),
            start == if s@.len() > 0 && s@[0] == '+' {
                1int
            } else {
                0int
            },
            all_digits(s@.subrange(start, j as int)),
            !sat ==> acc == spec_digits_val(s@.subrange(start, j as int)),
            sat ==> spec_digits_val(s@.subrange(start, j as int)) > u64::MAX,
        decreases len - j,
    {
        let c = s.get_char(j);
        if c < '0' || c > '9' {
            proof {
                assert(body[j - start] == s@[j as int]);
                assert(!is_digit(body[j - start]));
            }
            return None;
        }
        let d: u64 = (c as u32 - 48) as u64;
        proof {
            assert(d == char_digit(s@[j as int]));
            assert(d < 10);
        }
        let ghost pre = s@.subrange(start, j as int);
        let (nacc, nsat) = acc_digit(acc, sat, d);
        proof {
            assert(s@.subrange(start, j + 1 as int) =~= pre.push(s@[j as int]));
            lemma_digits_val_push(pre, s@[j as int]);
        }
        acc = nacc;
        sat = nsat;
        j = j + 1;
    }
    proof {
        assert(s@.subrange(start, len as int) =~= body);
    }
    if sat {
        None
    } else {
        Some(acc)
    }
}

/// A parsed decimal literal: sign, integer part saturated at `u64::MAX`,
/// and what the fractional digits contribute — their first digit (which
/// decides rounding) and whether any of them is non-zero.
#[derive(Clone, Copy, PartialEq, Eq, Structural, Debug)]
pub struct Dec {
    pub neg: bool,
    pub units: u64,
    pub sat: bool,
    pub frac_first: u8,
    pub frac_nonzero: bool,
}

/// The index of the first dot in `s`, if any.
pub open spec fn spec_dot_pos(s: Seq<char>) -> Option<int>
    decreases s.len(),
{
    if s.len() == 0 {
        None
    } else if s[0] == '.' {
        Some(0)
    } else {
        match spec_dot_pos(s.drop_first()) {
            Some(i) => Some(i + 1),
            None => None,
        }
    }
}

/// The `Dec` summary of an integer part and fractional digits.
pub open spec fn spec_dec_of(neg: bool, intpart: Seq<char>, frac: Seq<char>) -> Dec {
    Dec {
        neg,
        units: if spec_digits_val(intpart) > u64::MAX {
            u64::MAX
        } else {
            spec_digits_val(intpart) as u64
        },
        sat: spec_digits_val(intpart) > u64::MAX,
        frac_first: if frac.len() > 0 {
            char_digit(frac[0]) as u8
        } else {
            0
        },
        frac_nonzero: exists|i: int| 0 <= i < frac.len() && frac[i] != '0',
    }
}

/// `spec_parse_dec` accepts an optional sign, one or more integer digits,
/// and an optional dot followed by one or more fractional digits.
pub open spec fn spec_parse_dec(s: Seq<char>) -> Option<Dec> {
    let neg = s.len() > 0 && s[0] == '-';
    let body = if s.len() > 0 && (s[0] == '-' || s[0] == '+') {
        s.drop_first()
    } else {
        s
    };
    match spec_dot_pos(body) {
        Some(dot) => {
            let intpart = body.subrange(0, dot);
            let frac = body.subrange(dot + 1, body.len() as int);
            if intpart.len() > 0 && frac.len() > 0 && all_digits(intpart) && all_digits(frac) {
                Some(spec_dec_of(neg, intpart, frac))
            } else {
                None
            }
        },
        None => {
            if body.len() > 0 && all_digits(body) {
                Some(spec_dec_of(neg, body, Seq::empty()))
            } else {
                None
            }
        },
    }
}

impl Dec {
    /// The literal denotes a value strictly below zero.
    pub open spec fn spec_is_negative(self) -> bool {
        self.neg && (self.units > 0 || self.sat || self.frac_nonzero)
    }

    /// Whether the literal denotes a value strictly below zero.
    pub fn is_negative(&self) -> (r: bool)
        ensures
            r == self.spec_is_negative(),
    {
        self.neg && (self.units > 0 || self.sat || self.frac_nonzero)
    }

    /// The absolute value rounded to the nearest integer, half away from
    /// zero, saturated at `u64::MAX`.
    pub open spec fn spec_abs_rounded(self) -> u64 {
        if self.sat {
            u64::MAX
        } else if self.frac_first >= 5 {
            if self.units == u64::MAX {
                u64::MAX
            } else {
                (self.units + 1) as u64
            }
        } else {
            self.units
        }
    }

    /// Round the absolute value to the nearest integer, half away from
    /// zero, saturated at `u64::MAX`.
    pub fn abs_rounded(&self) -> (r: u64)
        ensures
            r == self.spec_abs_rounded(),
    {
        if self.sat {
            u64::MAX
        } else if self.frac_first >= 5 {
            if self.units == u64::MAX {
                u64::MAX
            } else {
                self.units + 1
            }
        } else {
            self.units
        }
    }

    /// The value in whole units truncated toward zero and clamped to zero
    /// when negative, saturated at `u64::MAX`: how a non-negative
    /// microsecond count is read from a decimal literal.
    pub open spec fn spec_clamped_trunc(self) -> u64 {
        if self.neg {
            0
        } else if self.sat {
            u64::MAX
        } else {
            self.units
        }
    }

    /// Truncate toward zero and clamp below at zero.
    pub fn clamped_trunc(&self) -> (r: u64)
        ensures
            r == self.spec_clamped_trunc(),
    {
        if self.neg {
            0
        } else if self.sat {
            u64::MAX
        } else {
            self.units
        }
    }
}

/// Whether the character at `j` is a dot.
fn dot_at(s: &str, j: usize) -> (r: bool)
    requires
        j < s@.len(),
    ensures
        r == (s@[j as int] == '.'),
{
    s.get_char(j) == '.'
}

/// Parse a signed decimal literal with an optional fractional part.
#[verifier::rlimit(50)]
pub fn parse_dec(s: &str) -> (r: Option<Dec>)
    ensures
        r == spec_parse_dec(s@),
{
    let len = s.unicode_len();
    let mut i: usize = 0;
    let mut neg = false;
    if len > 0 && s.get_char(0) == '-' {
        neg = true;
        i = 1;
    } else if len > 0 && s.get_char(0) == '+' {
        i = 1;
    }
    let ghost body = if s@.len() > 0 && (s@[0] == '-' || s@[0] == '+') {
        s@.drop_first()
    } else {
        s@
    };
    let ghost start = i as int;
    proof {
        assert(body =~= s@.subrange(start, len as int));
    }
    if i >= len {
        return None;
    }
    // integer part
    let mut acc: u64 = 0;
    let mut sat: bool = false;
    let mut j: usize = i;
    while j < len && !dot_at(s, j)
        invariant
            len == s@.len(),
            start <= j <= len,
            body =~= s@.subrange(start, len as int),
            start == if s@.len() > 0 && (s@[0] == '-' || s@[0] == '+') {
                1int
            } else {
                0int
            },
            all_digits(s@.subrange(start, j as int)),
            forall|k: int| start <= k < j ==> s@[k] != '.',
            !sat ==> acc == spec_digits_val(s@.subrange(start, j as int)),
            sat ==> spec_digits_val(s@.subrange(start, j as int)) > u64::MAX,
        decreases len - j,
    {
        let c = s.get_char(j);
        if c < '0' || c > '9' {
            proof {
                assert(!is_digit(s@[j as int]) && s@[j as int] != '.');
            }
            return none_on_bad_int(s, Ghost(start), Ghost(j as int));
        }
        let d: u64 = (c as u32 - 48) as u64;
        proof {
            assert(d == char_digit(s@[j as int]));
        }
        let ghost pre = s@.subrange(start, j as int);
        let (nacc, nsat) = acc_digit(acc, sat, d);
        proof {
            assert(s@.subrange(start, j + 1 as int) =~= pre.push(s@[j as int]));
            lemma_digits_val_push(pre, s@[j as int]);
            assert(pre.push(s@[j as int]).drop_last() =~= pre);
        }
        acc = nacc;
        sat = nsat;
        j = j + 1;
    }
    let ghost intpart = s@.subrange(start, j as int);
    if j == i {
        // empty integer part (input begins with the dot or the sign alone)
        proof {
            lemma_dot_pos_first(body, j - start);
        }
        return None;
    }
    if j == len {
        // no fractional part
        proof {
            lemma_no_dot(body);
            assert(intpart =~= body);
        }
        return Some(Dec { neg, units: if sat { u64::MAX } else { acc }, sat, frac_first: 0, frac_nonzero: false });
    }
    // s@[j] == '.'
    proof {
        lemma_dot_pos_first(body, j - start);
    }
    let mut k: usize = j + 1;
    if k >= len {
        // dot with no fractional digits
        return None;
    }
    let ff = s.get_char(k);
    if ff < '0' || ff > '9' {
        return None;
    }
    let frac_first: u8 = (ff as u32 - 48) as u8;
    let mut frac_nonzero = ff != '0';
    k = k + 1;
    let ghost fstart: int = j + 1;
    while k < len
        invariant
            len == s@.len(),
            fstart == j + 1,
            start == if s@.len() > 0 && (s@[0] == '-' || s@[0] == '+') {
                1int
            } else {
                0int
            },
            0 <= start <= j,
            s@[j as int] == '.',
            forall|k2: int| start <= k2 < j ==> s@[k2] != '.',
            j < len,
            fstart < len,
            fstart <= k <= len,
            all_digits(s@.subrange(fstart as int, k as int)),
            frac_first == char_digit(s@[fstart as int]),
            k > fstart,
            frac_nonzero == exists|t: int| fstart <= t < k && s@[t] != '0',
        decreases len - k,
    {
        let c = s.get_char(k);
        if c < '0' || c > '9' {
            proof {
                assert(!is_digit(s@[k as int]));
            }
            return none_on_bad_frac(s, Ghost(start), Ghost(j as int), Ghost(k as int));
        }
        if c != '0' {
            frac_nonzero = true;
        }
        proof {
            assert(s@.subrange(fstart as int, k + 1 as int) =~= s@.subrange(
                fstart as int,
                k as int,
            ).push(s@[k as int]));
        }
        k = k + 1;
    }
    let ghost frac = s@.subrange(fstart as int, len as int);
    proof {
        let dot = j - start;
        assert(spec_dot_pos(body) == Some(dot)) by {
            lemma_dot_pos_first(body, dot);
        }
        assert(body.subrange(0, dot) =~= intpart);
        assert(body.subrange(dot + 1, body.len() as int) =~= frac);
        assert(frac[0] == s@[fstart as int]);
        assert(frac.len() > 0);
        assert(all_digits(frac)) by {
            assert(forall|t: int|
                0 <= t < frac.len() ==> frac[t] == s@.subrange(fstart as int, len as int)[t]);
        }
        assert(frac_nonzero == exists|i: int| 0 <= i < frac.len() && frac[i] != '0') by {
            if exists|t: int| fstart <= t < len && s@[t] != '0' {
                let t = choose|t: int| fstart <= t < len && s@[t] != '0';
                assert(frac[t - fstart] != '0');
            }
            if exists|i: int| 0 <= i < frac.len() && frac[i] != '0' {
                let i2 = choose|i: int| 0 <= i < frac.len() && frac[i] != '0';
                assert(s@[i2 + fstart] != '0');
            }
        }
    }
    Some(Dec { neg, units: if sat { u64::MAX } else { acc }, sat, frac_first, frac_nonzero })
}

/// The integer part holds a character that is neither digit nor dot, so
/// the literal is rejected whatever follows.
fn none_on_bad_int(s: &str, Ghost(start): Ghost<int>, Ghost(bad): Ghost<int>) -> (r: Option<Dec>)
    requires
        0 <= start <= bad < s@.len(),
        !is_digit(s@[bad]) && s@[bad] != '.',
        forall|k: int| start <= k < bad ==> s@[k] != '.',
        start == if s@.len() > 0 && (s@[0] == '-' || s@[0] == '+') {
            1int
        } else {
            0int
        },
    ensures
        r == spec_parse_dec(s@),
        r is None,
{
    proof {
        let body = if s@.len() > 0 && (s@[0] == '-' || s@[0] == '+') {
            s@.drop_first()
        } else {
            s@
        };
        assert(body =~= s@.subrange(start, s@.len() as int));
        lemma_dot_pos_props(body);
        match spec_dot_pos(body) {
            Some(dot) => {
                assert(body[bad - start] == s@[bad]);
                if dot < bad - start {
                    assert(body[dot] == s@[dot + start]);
                    assert(s@[dot + start] != '.');
                }
                assert(dot > bad - start);
                let intpart = body.subrange(0, dot);
                assert(intpart[bad - start] == s@[bad]);
                assert(!all_digits(intpart));
            },
            None => {
                assert(body[bad - start] == s@[bad]);
                assert(!all_digits(body));
            },
        }
    }
    None
}

/// A fractional digit position holds a non-digit, so the literal is
/// rejected.
fn none_on_bad_frac(
    s: &str,
    Ghost(start): Ghost<int>,
    Ghost(dotpos): Ghost<int>,
    Ghost(bad): Ghost<int>,
) -> (r: Option<Dec>)
    requires
        0 <= start <= dotpos < bad < s@.len(),
        s@[dotpos] == '.',
        forall|k: int| start <= k < dotpos ==> s@[k] != '.',
        !is_digit(s@[bad]),
        start == if s@.len() > 0 && (s@[0] == '-' || s@[0] == '+') {
            1int
        } else {
            0int
        },
    ensures
        r == spec_parse_dec(s@),
        r is None,
{
    proof {
        let body = if s@.len() > 0 && (s@[0] == '-' || s@[0] == '+') {
            s@.drop_first()
        } else {
            s@
        };
        assert(body =~= s@.subrange(start, s@.len() as int));
        lemma_dot_pos_first(body, dotpos - start);
        let dot = dotpos - start;
        let frac = body.subrange(dot + 1, body.len() as int);
        if bad - start - dot - 1 < frac.len() {
            assert(frac[bad - start - dot - 1] == s@[bad]);
            assert(!all_digits(frac));
        }
    }
    None
}

/// If `t` is a dot position in `s` with no dot before it, it is the
/// position `spec_dot_pos` finds.
proof fn lemma_dot_pos_first(s: Seq<char>, t: int)
    requires
        0 <= t < s.len(),
        s[t] == '.',
        forall|k: int| 0 <= k < t ==> s[k] != '.',
    ensures
        spec_dot_pos(s) == Some(t),
    decreases s.len(),
{
    if t == 0 {
    } else {
        assert(s[0] != '.');
        assert(forall|k: int| 0 <= k < s.drop_first().len() ==> s.drop_first()[k] == s[k + 1]);
        lemma_dot_pos_first(s.drop_first(), t - 1);
    }
}

/// A string with no dot has no dot position.
proof fn lemma_no_dot(s: Seq<char>)
    requires
        forall|k: int| 0 <= k < s.len() ==> s[k] != '.',
    ensures
        spec_dot_pos(s) is None,
    decreases s.len(),
{
    if s.len() > 0 {
        assert(forall|k: int| 0 <= k < s.drop_first().len() ==> s.drop_first()[k] == s[k + 1]);
        lemma_no_dot(s.drop_first());
    }
}

/// Whatever position `spec_dot_pos` finds is the first dot.
pub proof fn lemma_dot_pos_props(s: Seq<char>)
    ensures
        match spec_dot_pos(s) {
            Some(i) => 0 <= i < s.len() && s[i] == '.' && forall|j: int| 0 <= j < i ==> s[j] != '.',
            None => forall|j: int| 0 <= j < s.len() ==> s[j] != '.',
        },
    decreases s.len(),
{
    if s.len() > 0 && s[0] != '.' {
        let t = s.drop_first();
        lemma_dot_pos_props(t);
        assert(forall|k: int| 0 <= k < t.len() ==> t[k] == s[k + 1]);
        match spec_dot_pos(t) {
            Some(i) => {
                assert(s[i + 1] == t[i]);
                assert forall|j: int| 0 <= j < i + 1 implies s[j] != '.' by {
                    if j > 0 {
                        assert(t[j - 1] == s[j]);
                    }
                }
            },
            None => {
                assert forall|j: int| 0 <= j < s.len() implies s[j] != '.' by {
                    if j > 0 {
                        assert(t[j - 1] == s[j]);
                    }
                }
            },
        }
    }
}

} // verus!
