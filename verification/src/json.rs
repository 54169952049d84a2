//! The JSON wire format of the bridge: escaping and rendering for the
//! records it writes, and a parser for the flat objects it reads back
//! (IPC commands, the snapshot, event-log lines).

use vstd::prelude::*;
use crate::num::{
    dec_digit, digit_char, spec_u64_dec, u64_to_string, is_digit, Dec, spec_parse_dec, parse_dec,
};
use crate::text::{spec_match_at, match_at};

verus! {

/// The hexadecimal digit character for `d` (meaningful for `d < 16`),
/// lower case.
pub open spec fn hex_digit(d: nat) -> char {
    if d < 10 {
        dec_digit(d)
    } else if d == 10 {
        'a'
    } else if d == 11 {
        'b'
    } else if d == 12 {
        'c'
    } else if d == 13 {
        'd'
    } else if d == 14 {
        'e'
    } else {
        'f'
    }
}

/// The hex digit character for `d < 16`.
pub fn hex_char(d: u32) -> (r: char)
    requires
        d < 16,
    ensures
        r == hex_digit(d as nat),
{
    if d < 10 {
        digit_char(d as u64)
    } else if d == 10 {
        'a'
    } else if d == 11 {
        'b'
    } else if d == 12 {
        'c'
    } else if d == 13 {
        'd'
    } else if d == 14 {
        'e'
    } else {
        'f'
    }
}

/// How one character appears inside a JSON string: quote and backslash
/// get a backslash escape, the named control characters their short
/// forms, any other control character a `\u00XX` escape, and everything
/// else stands as itself.
pub open spec fn json_escape_char(c: char) -> Seq<char> {
    if c == '"' {
        seq!['\\', '"']
    } else if c == '\\' {
        seq!['\\', '\\']
    } else if c == '\u{8}' {
        seq!['\\', 'b']
    } else if c == '\t' {
        seq!['\\', 't']
    } else if c == '\n' {
        seq!['\\', 'n']
    } else if c == '\u{c}' {
        seq!['\\', 'f']
    } else if c == '\r' {
        seq!['\\', 'r']
    } else if (c as u32) < 32 {
        seq!['\\', 'u', '0', '0', hex_digit(((c as u32) / 16) as nat), hex_digit(((c as u32) % 16) as nat)]
    } else {
        seq![c]
    }
}

/// The body of a JSON string: every character escaped as needed.
pub open spec fn spec_json_str_body(s: Seq<char>) -> Seq<char>
    decreases s.len(),
{
    if s.len() == 0 {
        Seq::empty()
    } else {
        json_escape_char(s[0]) + spec_json_str_body(s.drop_first())
    }
}

/// A whole JSON string: the escaped body between double quotes.
pub open spec fn spec_json_string(s: Seq<char>) -> Seq<char> {
    seq!['"'] + spec_json_str_body(s) + seq!['"']
}

pub proof fn lemma_json_body_push(s: Seq<char>, c: char)
    ensures
        spec_json_str_body(s.push(c)) == spec_json_str_body(s) + json_escape_char(c),
    decreases s.len(),
{
    if s.len() == 0 {
        let t = s.push(c);
        assert(t[0] == c);
        assert(t.drop_first() =~= Seq::<char>::empty());
        assert(spec_json_str_body(t.drop_first()) =~= Seq::<char>::empty());
        assert(spec_json_str_body(t) =~= json_escape_char(c));
        assert(spec_json_str_body(s) =~= Seq::<char>::empty());
        assert(spec_json_str_body(s) + json_escape_char(c) =~= json_escape_char(c));
    } else {
        assert(s.push(c).drop_first() =~= s.drop_first().push(c));
        lemma_json_body_push(s.drop_first(), c);
        assert(spec_json_str_body(s.push(c)) =~= spec_json_str_body(s) + json_escape_char(c));
    }
}

/// Append `s` to `out` as a quoted, escaped JSON string.
pub fn push_json_string(out: &mut String, s: &str)
    ensures
        final(out)@ == old(out)@ + spec_json_string(s@),
{
    let len = s.unicode_len();
    out.push('"');
    let mut i: usize = 0;
    while i < len
        invariant
            len == s@.len(),
            i <= len,
            out@ == old(out)@ + seq!['"'] + spec_json_str_body(s@.subrange(0, i as int)),
        decreases len - i,
    {
        let c = s.get_char(i);
        if c == '"' {
            out.append("\\\"");
            proof {
                reveal_strlit("\\\"");
                assert("\\\""@ =~= json_escape_char('"'));
            }
        } else if c == '\\' {
            out.append("\\\\");
            proof {
                reveal_strlit("\\\\");
                assert("\\\\"@ =~= json_escape_char('\\'));
            }
        } else if c == '\u{8}' {
            out.append("\\b");
            proof {
                reveal_strlit("\\b");
                assert("\\b"@ =~= json_escape_char('\u{8}'));
            }
        } else if c == '\t' {
            out.append("\\t");
            proof {
                reveal_strlit("\\t");
                assert("\\t"@ =~= json_escape_char('\t'));
            }
        } else if c == '\n' {
            out.append("\\n");
            proof {
                reveal_strlit("\\n");
                assert("\\n"@ =~= json_escape_char('\n'));
            }
        } else if c == '\u{c}' {
            out.append("\\f");
            proof {
                reveal_strlit("\\f");
                assert("\\f"@ =~= json_escape_char('\u{c}'));
            }
        } else if c == '\r' {
            out.append("\\r");
            proof {
                reveal_strlit("\\r");
                assert("\\r"@ =~= json_escape_char('\r'));
            }
        } else if (c as u32) < 32 {
            let v = c as u32;
            out.push('\\');
            out.push('u');
            out.push('0');
            out.push('0');
            out.push(hex_char(v / 16));
            out.push(hex_char(v % 16));
            proof {
                assert(seq!['\\', 'u', '0', '0', hex_digit((v / 16) as nat), hex_digit((v % 16) as nat)]
                    =~= json_escape_char(c));
            }
        } else {
            out.push(c);
            proof {
                assert(seq![c] =~= json_escape_char(c));
            }
        }
        proof {
            lemma_json_body_push(s@.subrange(0, i as int), s@[i as int]);
            assert(s@.subrange(0, i + 1 as int) =~= s@.subrange(0, i as int).push(s@[i as int]));
            assert(out@ =~= old(out)@ + seq!['"'] + spec_json_str_body(s@.subrange(0, i + 1 as int)));
        }
        i = i + 1;
    }
    out.push('"');
    proof {
        assert(s@.subrange(0, len as int) =~= s@);
        assert(out@ =~= old(out)@ + spec_json_string(s@));
    }
}

/// The six digits of a microsecond remainder, most significant first.
pub open spec fn spec_pad6(f: nat) -> Seq<char> {
    seq![
        dec_digit(f / 100000 % 10),
        dec_digit(f / 10000 % 10),
        dec_digit(f / 1000 % 10),
        dec_digit(f / 100 % 10),
        dec_digit(f / 10 % 10),
        dec_digit(f % 10),
    ]
}

/// Trailing zeros removed.
pub open spec fn spec_trim_zeros(s: Seq<char>) -> Seq<char>
    decreases s.len(),
{
    if s.len() > 0 && s.last() == '0' {
        spec_trim_zeros(s.drop_last())
    } else {
        s
    }
}

/// A digit below ten renders as `'0'` exactly when it is zero.
proof fn lemma_dec_digit_zero(d: nat)
    requires
        d < 10,
    ensures
        (dec_digit(d) == '0') == (d == 0),
{
}

/// A microsecond count rendered as a JSON number of seconds: the whole
/// seconds in decimal, then — only when the microsecond remainder is not
/// zero — a dot and the six-digit remainder with trailing zeros removed.
pub open spec fn spec_secs_json(us: nat) -> Seq<char> {
    if us % 1000000 == 0 {
        spec_u64_dec(us / 1000000)
    } else {
        spec_u64_dec(us / 1000000) + seq!['.'] + spec_trim_zeros(spec_pad6(us % 1000000))
    }
}

/// Digits mapped to their characters.
pub open spec fn digits_chars(ds: Seq<u64>) -> Seq<char> {
    ds.map_values(|d: u64| dec_digit(d as nat))
}

/// Render a microsecond count as a JSON number of seconds.
pub fn secs_json(us: u64) -> (r: String)
    ensures
        r@ == spec_secs_json(us as nat),
{
    let whole: u64 = us / 1000000;
    let frac: u64 = us % 1000000;
    let mut out = u64_to_string(whole);
    if frac == 0 {
        return out;
    }
    out.push('.');
    let mut ds: Vec<u64> = Vec::new();
    ds.push(frac / 100000 % 10);
    ds.push(frac / 10000 % 10);
    ds.push(frac / 1000 % 10);
    ds.push(frac / 100 % 10);
    ds.push(frac / 10 % 10);
    ds.push(frac % 10);
    proof {
        assert(digits_chars(ds@) =~= spec_pad6(frac as nat));
    }
    while ds.len() > 0 && ds[ds.len() - 1] == 0
        invariant
            spec_trim_zeros(digits_chars(ds@)) == spec_trim_zeros(spec_pad6(frac as nat)),
            forall|k: int| 0 <= k < ds@.len() ==> #[trigger] ds@[k] < 10,
        decreases ds.len(),
    {
        proof {
            let m = digits_chars(ds@);
            assert(m.last() == dec_digit(ds@.last() as nat));
            assert(m.drop_last() =~= digits_chars(ds@.drop_last()));
        }
        ds.pop();
    }
    proof {
        let m = digits_chars(ds@);
        if ds@.len() > 0 {
            lemma_dec_digit_zero(ds@.last() as nat);
            assert(m.last() != '0');
            assert(spec_trim_zeros(m) == m);
        } else {
            assert(m =~= Seq::<char>::empty());
            assert(spec_trim_zeros(m) == m);
        }
    }
    let ghost base = out@;
    let mut i: usize = 0;
    while i < ds.len()
        invariant
            i <= ds@.len(),
            forall|k: int| 0 <= k < ds@.len() ==> #[trigger] ds@[k] < 10,
            out@ == base + digits_chars(ds@.subrange(0, i as int)),
        decreases ds.len() - i,
    {
        out.push(digit_char(ds[i]));
        proof {
            assert(digits_chars(ds@.subrange(0, i + 1 as int)) =~= digits_chars(
                ds@.subrange(0, i as int),
            ).push(dec_digit(ds@[i as int] as nat)));
        }
        i = i + 1;
    }
    proof {
        assert(ds@.subrange(0, ds@.len() as int) =~= ds@);
        assert(out@ =~= spec_secs_json(us as nat));
    }
    out
}

/// Relies on `char::from_u32`: converts a code point to a character
/// exactly when the code is a Unicode scalar value (not a surrogate and
/// at most 0x10FFFF).
pub assume_specification[ char::from_u32 ](u: u32) -> (r: Option<char>)
    ensures
        (0xD800 <= u < 0xE000 || u > 0x10FFFF) ==> r is None,
        !(0xD800 <= u < 0xE000 || u > 0x10FFFF) ==> (match r {
            Some(c) => c as u32 == u,
            None => false,
        }),
;

/// The character with the given code point (meaningful for Unicode
/// scalar values).
pub open spec fn code_char(code: u32) -> char {
    code as char
}

/// Characters with the same code point are the same character.
proof fn lemma_char_eq(a: char, b: char)
    requires
        a as u32 == b as u32,
    ensures
        a == b,
{
}

/// JSON whitespace.
pub open spec fn is_ws(c: char) -> bool {
    c == ' ' || c == '\t' || c == '\n' || c == '\r'
}

/// The first position at or after `i` that does not hold whitespace.
pub open spec fn spec_skip_ws(s: Seq<char>, i: int) -> int
    decreases s.len() - i,
{
    if i < 0 || i >= s.len() {
        i
    } else if is_ws(s[i]) {
        spec_skip_ws(s, i + 1)
    } else {
        i
    }
}

/// Whether the character at `i` is JSON whitespace.
fn ws_at(s: &str, i: usize) -> (r: bool)
    requires
        i < s@.len(),
    ensures
        r == is_ws(s@[i as int]),
{
    let c = s.get_char(i);
    c == ' ' || c == '\t' || c == '\n' || c == '\r'
}

/// Skip JSON whitespace.
pub fn skip_ws(s: &str, from: usize) -> (r: usize)
    requires
        from <= s@.len(),
    ensures
        r == spec_skip_ws(s@, from as int),
        from <= r <= s@.len(),
{
    let len = s.unicode_len();
    let mut i: usize = from;
    while i < len && ws_at(s, i)
        invariant
            len == s@.len(),
            from <= i <= len,
            spec_skip_ws(s@, from as int) == spec_skip_ws(s@, i as int),
        decreases len - i,
    {
        i = i + 1;
    }
    i
}

/// A hexadecimal digit.
pub open spec fn is_hex(c: char) -> bool {
    is_digit(c) || ('a' <= c && c <= 'f') || ('A' <= c && c <= 'F')
}

/// The value of a hexadecimal digit.
pub open spec fn hex_val(c: char) -> nat {
    if is_digit(c) {
        ((c as u32) - ('0' as u32)) as nat
    } else if 'a' <= c && c <= 'f' {
        ((c as u32) - ('a' as u32) + 10) as nat
    } else {
        ((c as u32) - ('A' as u32) + 10) as nat
    }
}

/// The value of four hexadecimal digits starting at `i`.
pub open spec fn hex4_val(s: Seq<char>, i: int) -> nat {
    hex_val(s[i]) * 4096 + hex_val(s[i + 1]) * 256 + hex_val(s[i + 2]) * 16 + hex_val(s[i + 3])
}

/// The character a short escape stands for, if the letter names one.
pub open spec fn simple_escape(e: char) -> Option<char> {
    if e == '"' {
        Some('"')
    } else if e == '\\' {
        Some('\\')
    } else if e == '/' {
        Some('/')
    } else if e == 'b' {
        Some('\u{8}')
    } else if e == 'f' {
        Some('\u{c}')
    } else if e == 'n' {
        Some('\n')
    } else if e == 'r' {
        Some('\r')
    } else if e == 't' {
        Some('\t')
    } else {
        None
    }
}

/// The body of a JSON string starting at `i` (just past the opening
/// quote): the decoded characters and the position past the closing
/// quote. Short escapes and non-surrogate `\uXXXX` escapes are decoded;
/// raw control characters, unknown escapes and surrogate escapes are
/// rejected.
pub open spec fn spec_parse_str_body(s: Seq<char>, i: int) -> Option<(Seq<char>, int)>
    decreases s.len() - i,
{
    if i < 0 || i >= s.len() {
        None
    } else if s[i] == '"' {
        Some((Seq::empty(), i + 1))
    } else if s[i] == '\\' {
        if i + 1 >= s.len() {
            None
        } else if s[i + 1] == 'u' {
            if i + 6 > s.len() {
                None
            } else if !(is_hex(s[i + 2]) && is_hex(s[i + 3]) && is_hex(s[i + 4]) && is_hex(
                s[i + 5],
            )) {
                None
            } else {
                let code = hex4_val(s, i + 2);
                if 0xD800 <= code < 0xE000 {
                    None
                } else {
                    match spec_parse_str_body(s, i + 6) {
                        Some(p) => Some((seq![code_char(code as u32)] + p.0, p.1)),
                        None => None,
                    }
                }
            }
        } else {
            match simple_escape(s[i + 1]) {
                Some(c) => match spec_parse_str_body(s, i + 2) {
                    Some(p) => Some((seq![c] + p.0, p.1)),
                    None => None,
                },
                None => None,
            }
        }
    } else if (s[i] as u32) < 32 {
        None
    } else {
        match spec_parse_str_body(s, i + 1) {
            Some(p) => Some((seq![s[i]] + p.0, p.1)),
            None => None,
        }
    }
}

/// The decoded body, where defined.
pub open spec fn sb_val(s: Seq<char>, i: int) -> Seq<char> {
    match spec_parse_str_body(s, i) {
        Some(p) => p.0,
        None => Seq::empty(),
    }
}

/// The position past the closing quote, where defined.
pub open spec fn sb_next(s: Seq<char>, i: int) -> int {
    match spec_parse_str_body(s, i) {
        Some(p) => p.1,
        None => 0,
    }
}

/// Positions a string body parse can reach stay within the text.
pub proof fn lemma_sb_next_bound(s: Seq<char>, i: int)
    ensures
        spec_parse_str_body(s, i) is Some ==> i < sb_next(s, i) <= s.len(),
    decreases s.len() - i,
{
    if 0 <= i < s.len() {
        if s[i] == '"' {
        } else if s[i] == '\\' {
            if i + 1 < s.len() {
                if s[i + 1] == 'u' {
                    if i + 6 <= s.len() {
                        lemma_sb_next_bound(s, i + 6);
                    }
                } else {
                    lemma_sb_next_bound(s, i + 2);
                }
            }
        } else {
            lemma_sb_next_bound(s, i + 1);
        }
    }
}

/// The hex digit value of `c`.
fn hex_val_char(c: char) -> (r: u32)
    requires
        is_hex(c),
    ensures
        r == hex_val(c),
        r < 16,
{
    if c >= '0' && c <= '9' {
        c as u32 - 48
    } else if c >= 'a' && c <= 'f' {
        c as u32 - 97 + 10
    } else {
        c as u32 - 65 + 10
    }
}

/// Decode a JSON string body starting just past the opening quote;
/// returns the decoded text and the position past the closing quote.
#[verifier::rlimit(50)]
pub fn parse_str_body(s: &str, start: usize) -> (r: Option<(String, usize)>)
    requires
        start <= s@.len(),
    ensures
        match r {
            Some(p) => spec_parse_str_body(s@, start as int) is Some && p.0@ == sb_val(
                s@,
                start as int,
            ) && p.1 == sb_next(s@, start as int) && p.1 <= s@.len(),
            None => spec_parse_str_body(s@, start as int) is None,
        },
{
    let len = s.unicode_len();
    let mut i: usize = start;
    let mut acc = String::new();
    proof {
        assert(acc@ + sb_val(s@, start as int) =~= sb_val(s@, start as int));
    }
    loop
        invariant
            len == s@.len(),
            start <= i <= len,
            spec_parse_str_body(s@, i as int) is Some ==> {
                &&& spec_parse_str_body(s@, start as int) is Some
                &&& sb_val(s@, start as int) == acc@ + sb_val(s@, i as int)
                &&& sb_next(s@, start as int) == sb_next(s@, i as int)
            },
            spec_parse_str_body(s@, i as int) is None ==> spec_parse_str_body(
                s@,
                start as int,
            ) is None,
        decreases len - i,
    {
        if i >= len {
            return None;
        }
        let c = s.get_char(i);
        if c == '"' {
            proof {
                assert(acc@ + sb_val(s@, i as int) =~= acc@);
                lemma_sb_next_bound(s@, start as int);
            }
            return Some((acc, i + 1));
        }
        if c == '\\' {
            if i + 1 >= len {
                return None;
            }
            let e = s.get_char(i + 1);
            if e == 'u' {
                if len - i < 6 {
                    return None;
                }
                let h2 = s.get_char(i + 2);
                let h3 = s.get_char(i + 3);
                let h4 = s.get_char(i + 4);
                let h5 = s.get_char(i + 5);
                let hex_ok = (h2 >= '0' && h2 <= '9' || h2 >= 'a' && h2 <= 'f' || h2 >= 'A' && h2
                    <= 'F') && (h3 >= '0' && h3 <= '9' || h3 >= 'a' && h3 <= 'f' || h3 >= 'A' && h3
                    <= 'F') && (h4 >= '0' && h4 <= '9' || h4 >= 'a' && h4 <= 'f' || h4 >= 'A' && h4
                    <= 'F') && (h5 >= '0' && h5 <= '9' || h5 >= 'a' && h5 <= 'f' || h5 >= 'A' && h5
                    <= 'F');
                if !hex_ok {
                    return None;
                }
                let code: u32 = hex_val_char(h2) * 4096 + hex_val_char(h3) * 256 + hex_val_char(h4)
                    * 16 + hex_val_char(h5);
                proof {
                    assert(code == hex4_val(s@, i + 2));
                }
                if code >= 0xD800 && code < 0xE000 {
                    return None;
                }
                match char::from_u32(code) {
                    Some(ch) => {
                        proof {
                            assert(code <= 0xFFFF);
                            assert(!(0xD800 <= code && code < 0xE000));
                            assert(ch as u32 == code);
                            assert((code as char) as u32 == code);
                            lemma_char_eq(code_char(code), ch);
                        }
                        let ghost pre = acc@;
                        acc.push(ch);
                        proof {
                            assert(pre + (seq![ch] + sb_val(s@, i + 6)) =~= pre.push(ch) + sb_val(
                                s@,
                                i + 6,
                            ));
                        }
                        i = i + 6;
                    },
                    None => {
                        // unreachable: the code is a scalar value
                        return None;
                    },
                }
            } else {
                let m: Option<char> = if e == '"' {
                    Some('"')
                } else if e == '\\' {
                    Some('\\')
                } else if e == '/' {
                    Some('/')
                } else if e == 'b' {
                    Some('\u{8}')
                } else if e == 'f' {
                    Some('\u{c}')
                } else if e == 'n' {
                    Some('\n')
                } else if e == 'r' {
                    Some('\r')
                } else if e == 't' {
                    Some('\t')
                } else {
                    None
                };
                proof {
                    assert(m == simple_escape(s@[i + 1]));
                }
                match m {
                    Some(mc) => {
                        let ghost pre = acc@;
                        acc.push(mc);
                        proof {
                            assert(pre + (seq![mc] + sb_val(s@, i + 2)) =~= pre.push(mc) + sb_val(
                                s@,
                                i + 2,
                            ));
                        }
                        i = i + 2;
                    },
                    None => {
                        return None;
                    },
                }
            }
        } else if (c as u32) < 32 {
            return None;
        } else {
            let ghost pre = acc@;
            acc.push(c);
            proof {
                assert(pre + (seq![c] + sb_val(s@, i + 1)) =~= pre.push(c) + sb_val(s@, i + 1));
            }
            i = i + 1;
        }
    }
}

/// A character that can stand in a number token.
pub open spec fn is_num_char(c: char) -> bool {
    is_digit(c) || c == '+' || c == '-' || c == '.'
}

/// The end of the numeric token starting at `i`.
pub open spec fn spec_num_end(s: Seq<char>, i: int) -> int
    decreases s.len() - i,
{
    if i < 0 || i >= s.len() {
        i
    } else if is_num_char(s[i]) {
        spec_num_end(s, i + 1)
    } else {
        i
    }
}

/// Whether the character at `i` can stand in a number token.
fn num_char_at(s: &str, i: usize) -> (r: bool)
    requires
        i < s@.len(),
    ensures
        r == is_num_char(s@[i as int]),
{
    let c = s.get_char(i);
    c >= '0' && c <= '9' || c == '+' || c == '-' || c == '.'
}

/// Find the end of a numeric token.
fn num_end(s: &str, from: usize) -> (r: usize)
    requires
        from <= s@.len(),
    ensures
        r == spec_num_end(s@, from as int),
        from <= r <= s@.len(),
{
    let len = s.unicode_len();
    let mut i: usize = from;
    while i < len && num_char_at(s, i)
        invariant
            len == s@.len(),
            from <= i <= len,
            spec_num_end(s@, from as int) == spec_num_end(s@, i as int),
        decreases len - i,
    {
        i = i + 1;
    }
    i
}

/// A parsed JSON value of the flat subset the bridge speaks: a string, a
/// decimal number, a boolean, or null.
pub enum JsonVal {
    S(String),
    N(Dec),
    B(bool),
    Null,
}

/// The mathematical value of a parsed JSON value.
#[verifier::ext_equal]
pub enum JVal {
    S(Seq<char>),
    N(Dec),
    B(bool),
    Null,
}

impl View for JsonVal {
    type V = JVal;

    open spec fn view(&self) -> JVal {
        match self {
            JsonVal::S(x) => JVal::S(x@),
            JsonVal::N(d) => JVal::N(*d),
            JsonVal::B(b) => JVal::B(*b),
            JsonVal::Null => JVal::Null,
        }
    }
}

impl DeepView for JsonVal {
    type V = JVal;

    open spec fn deep_view(&self) -> JVal {
        self.view()
    }
}

/// The JSON value starting at `i`: a string, a literal, or a number token
/// that parses as a decimal; nested objects and arrays are outside the
/// flat subset and rejected.
pub open spec fn spec_parse_value(s: Seq<char>, i: int) -> Option<(JVal, int)> {
    if i < 0 || i >= s.len() {
        None
    } else if s[i] == '"' {
        match spec_parse_str_body(s, i + 1) {
            Some(p) => Some((JVal::S(p.0), p.1)),
            None => None,
        }
    } else if s[i] == 't' {
        if spec_match_at(s, "true"@, i) {
            Some((JVal::B(true), i + 4))
        } else {
            None
        }
    } else if s[i] == 'f' {
        if spec_match_at(s, "false"@, i) {
            Some((JVal::B(false), i + 5))
        } else {
            None
        }
    } else if s[i] == 'n' {
        if spec_match_at(s, "null"@, i) {
            Some((JVal::Null, i + 4))
        } else {
            None
        }
    } else {
        let e = spec_num_end(s, i);
        match spec_parse_dec(s.subrange(i, e)) {
            Some(d) => Some((JVal::N(d), e)),
            None => None,
        }
    }
}

/// Parse one JSON value of the flat subset.
pub fn parse_value(s: &str, i: usize) -> (r: Option<(JsonVal, usize)>)
    requires
        i <= s@.len(),
    ensures
        match r {
            Some(p) => spec_parse_value(s@, i as int) == Some((p.0@, p.1 as int)) && p.1
                <= s@.len(),
            None => spec_parse_value(s@, i as int) is None,
        },
{
    let len = s.unicode_len();
    if i >= len {
        return None;
    }
    let c = s.get_char(i);
    if c == '"' {
        match parse_str_body(s, i + 1) {
            Some((v, n)) => Some((JsonVal::S(v), n)),
            None => None,
        }
    } else if c == 't' {
        if match_at(s, "true", i) {
            proof {
                reveal_strlit("true");
            }
            Some((JsonVal::B(true), i + 4))
        } else {
            None
        }
    } else if c == 'f' {
        if match_at(s, "false", i) {
            proof {
                reveal_strlit("false");
            }
            Some((JsonVal::B(false), i + 5))
        } else {
            None
        }
    } else if c == 'n' {
        if match_at(s, "null", i) {
            proof {
                reveal_strlit("null");
            }
            Some((JsonVal::Null, i + 4))
        } else {
            None
        }
    } else {
        let e = num_end(s, i);
        let sub = s.substring_char(i, e);
        match parse_dec(sub) {
            Some(d) => Some((JsonVal::N(d), e)),
            None => None,
        }
    }
}

/// A member list view: each key and value as mathematical values.
pub open spec fn members_view(v: Seq<(String, JsonVal)>) -> Seq<(Seq<char>, JVal)> {
    v.map_values(|p: (String, JsonVal)| (p.0@, p.1@))
}

/// The members of a flat object from position `i` (at the first key) to
/// the closing brace: key, colon, value, then a comma and further
/// members or the closing brace. The fuel bounds the recursion and is
/// always called with more fuel than there can be members.
pub open spec fn spec_parse_members(s: Seq<char>, i: int, fuel: nat) -> Option<
    (Seq<(Seq<char>, JVal)>, int),
>
    decreases fuel,
{
    if fuel == 0 {
        None
    } else if i < 0 || i >= s.len() || s[i] != '"' {
        None
    } else {
        match spec_parse_str_body(s, i + 1) {
            None => None,
            Some(kp) => {
                let j = spec_skip_ws(s, kp.1);
                if j >= s.len() || s[j] != ':' {
                    None
                } else {
                    let k = spec_skip_ws(s, j + 1);
                    match spec_parse_value(s, k) {
                        None => None,
                        Some(vp) => {
                            let w = spec_skip_ws(s, vp.1);
                            if w < s.len() && s[w] == ',' {
                                let n = spec_skip_ws(s, w + 1);
                                match spec_parse_members(s, n, (fuel - 1) as nat) {
                                    None => None,
                                    Some(rp) => Some((seq![(kp.0, vp.0)] + rp.0, rp.1)),
                                }
                            } else if w < s.len() && s[w] == '}' {
                                Some((seq![(kp.0, vp.0)], w + 1))
                            } else {
                                None
                            }
                        },
                    }
                }
            },
        }
    }
}

/// Parse the members of a flat object.
#[verifier::rlimit(50)]
fn parse_members(s: &str, i: usize, fuel: usize) -> (r: Option<(Vec<(String, JsonVal)>, usize)>)
    requires
        i <= s@.len(),
    ensures
        match r {
            Some(p) => spec_parse_members(s@, i as int, fuel as nat) == Some(
                (members_view(p.0@), p.1 as int),
            ) && p.1 <= s@.len(),
            None => spec_parse_members(s@, i as int, fuel as nat) is None,
        },
    decreases fuel,
{
    if fuel == 0 {
        return None;
    }
    let len = s.unicode_len();
    if i >= len {
        return None;
    }
    if s.get_char(i) != '"' {
        return None;
    }
    let (key, after_key) = match parse_str_body(s, i + 1) {
        Some(p) => p,
        None => {
            return None;
        },
    };
    let j = skip_ws(s, after_key);
    if j >= len {
        return None;
    }
    if s.get_char(j) != ':' {
        return None;
    }
    let k = skip_ws(s, j + 1);
    let (v, m) = match parse_value(s, k) {
        Some(p) => p,
        None => {
            return None;
        },
    };
    let w = skip_ws(s, m);
    if w < len && s.get_char(w) == ',' {
        let n = skip_ws(s, w + 1);
        let ghost kv = key@;
        let ghost vv = v@;
        match parse_members(s, n, fuel - 1) {
            Some((mut rest, end)) => {
                let ghost restv = rest@;
                rest.insert(0, (key, v));
                proof {
                    assert(members_view(rest@) =~= seq![(kv, vv)] + members_view(restv));
                }
                Some((rest, end))
            },
            None => None,
        }
    } else if w < len && s.get_char(w) == '}' {
        let ghost kv = key@;
        let ghost vv = v@;
        let mut one: Vec<(String, JsonVal)> = Vec::new();
        one.push((key, v));
        proof {
            assert(members_view(one@) =~= seq![(kv, vv)]);
        }
        Some((one, w + 1))
    } else {
        None
    }
}

/// A whole line parsed as one flat JSON object: optional whitespace, the
/// braces and members, optional trailing whitespace, nothing else.
pub open spec fn spec_parse_flat_obj(s: Seq<char>) -> Option<Seq<(Seq<char>, JVal)>> {
    let i = spec_skip_ws(s, 0);
    if i >= s.len() || s[i] != '{' {
        None
    } else {
        let j = spec_skip_ws(s, i + 1);
        if j < s.len() && s[j] == '}' {
            if spec_skip_ws(s, j + 1) == s.len() {
                Some(Seq::empty())
            } else {
                None
            }
        } else {
            match spec_parse_members(s, j, s.len() as nat) {
                None => None,
                Some(p) => {
                    if spec_skip_ws(s, p.1) == s.len() {
                        Some(p.0)
                    } else {
                        None
                    }
                },
            }
        }
    }
}

/// Parse a whole line as one flat JSON object.
pub fn parse_flat_obj(s: &str) -> (r: Option<Vec<(String, JsonVal)>>)
    ensures
        match r {
            Some(v) => spec_parse_flat_obj(s@) == Some(members_view(v@)),
            None => spec_parse_flat_obj(s@) is None,
        },
{
    let len = s.unicode_len();
    let i = skip_ws(s, 0);
    if i >= len {
        return None;
    }
    if s.get_char(i) != '{' {
        return None;
    }
    let j = skip_ws(s, i + 1);
    if j < len && s.get_char(j) == '}' {
        if skip_ws(s, j + 1) == len {
            let empty: Vec<(String, JsonVal)> = Vec::new();
            proof {
                assert(members_view(empty@) =~= Seq::<(Seq<char>, JVal)>::empty());
            }
            Some(empty)
        } else {
            None
        }
    } else {
        match parse_members(s, j, len) {
            None => None,
            Some((v, end)) => {
                if skip_ws(s, end) == len {
                    Some(v)
                } else {
                    None
                }
            },
        }
    }
}

/// The value under the first occurrence of a key.
pub open spec fn spec_lookup(m: Seq<(Seq<char>, JVal)>, k: Seq<char>) -> Option<JVal>
    decreases m.len(),
{
    if m.len() == 0 {
        None
    } else if m[0].0 == k {
        Some(m[0].1)
    } else {
        spec_lookup(m.drop_first(), k)
    }
}

/// Look a key up in a parsed object, handing back a copy of the value.
pub fn lookup_field(obj: &Vec<(String, JsonVal)>, key: &str) -> (r: Option<JsonVal>)
    ensures
        r.deep_view() == spec_lookup(members_view(obj@), key@),
{
    let mut i: usize = 0;
    proof {
        assert(members_view(obj@).skip(0) =~= members_view(obj@));
    }
    while i < obj.len()
        invariant
            i <= obj@.len(),
            spec_lookup(members_view(obj@), key@) == spec_lookup(
                members_view(obj@).skip(i as int),
                key@,
            ),
        decreases obj@.len() - i,
    {
        let pair = &obj[i];
        proof {
            assert(members_view(obj@).skip(i as int)[0] == (pair.0@, pair.1@));
            assert(members_view(obj@).skip(i as int).drop_first() =~= members_view(obj@).skip(
                i as int + 1,
            ));
        }
        if crate::text::str_eq(pair.0.as_str(), key) {
            let copy: JsonVal = match &pair.1 {
                JsonVal::S(x) => JsonVal::S(x.clone()),
                JsonVal::N(d) => JsonVal::N(*d),
                JsonVal::B(b) => JsonVal::B(*b),
                JsonVal::Null => JsonVal::Null,
            };
            return Some(copy);
        }
        i = i + 1;
    }
    proof {
        assert(members_view(obj@).skip(i as int) =~= Seq::<(Seq<char>, JVal)>::empty());
    }
    None
}

/// The string under a key, if the key is present with a string value.
pub open spec fn spec_get_string(m: Seq<(Seq<char>, JVal)>, k: Seq<char>) -> Option<Seq<char>> {
    match spec_lookup(m, k) {
        Some(JVal::S(x)) => Some(x),
        _ => None,
    }
}

/// Fetch a string field from a parsed object.
pub fn get_string(obj: &Vec<(String, JsonVal)>, key: &str) -> (r: Option<String>)
    ensures
        r.deep_view() == spec_get_string(members_view(obj@), key@),
{
    match lookup_field(obj, key) {
        Some(JsonVal::S(x)) => Some(x),
        _ => None,
    }
}

/// The number under a key, if the key is present with a number value.
pub open spec fn spec_get_dec(m: Seq<(Seq<char>, JVal)>, k: Seq<char>) -> Option<Dec> {
    match spec_lookup(m, k) {
        Some(JVal::N(d)) => Some(d),
        _ => None,
    }
}

/// Fetch a number field from a parsed object.
pub fn get_dec(obj: &Vec<(String, JsonVal)>, key: &str) -> (r: Option<Dec>)
    ensures
        r == spec_get_dec(members_view(obj@), key@),
{
    match lookup_field(obj, key) {
        Some(JsonVal::N(d)) => Some(d),
        _ => None,
    }
}


} // verus!
