//! Character-level text utilities: equality, prefix and substring search,
//! truncation with an ellipsis, Pango markup escaping, and ASCII
//! case-insensitive prefix matching.

use vstd::prelude::*;

verus! {

/// Relies on `String::push`: appends the given character to the end of the
/// string.
pub assume_specification[ String::push ](s: &mut String, c: char)
    ensures
        final(s)@ == old(s)@.push(c),
;

/// Character equality of two string slices.
pub fn str_eq(a: &str, b: &str) -> (r: bool)
    ensures
        r == (a@ == b@),
{
    let alen = a.unicode_len();
    let blen = b.unicode_len();
    if alen != blen {
        return false;
    }
    let mut i: usize = 0;
    while i < alen
        invariant
            alen == a@.len(),
            alen == b@.len(),
            i <= alen,
            forall|j: int| 0 <= j < i ==> a@[j] == b@[j],
        decreases alen - i,
    {
        if a.get_char(i) != b.get_char(i) {
            return false;
        }
        i = i + 1;
    }
    proof {
        assert(a@ =~= b@);
    }
    true
}

/// The pattern `p` occurs in `s` at position `at`.
pub open spec fn spec_match_at(s: Seq<char>, p: Seq<char>, at: int) -> bool {
    &&& 0 <= at
    &&& at + p.len() <= s.len()
    &&& forall|j: int| 0 <= j < p.len() ==> s[at + j] == p[j]
}

/// The string `s` starts with the pattern `p`.
pub open spec fn spec_starts_with(s: Seq<char>, p: Seq<char>) -> bool {
    spec_match_at(s, p, 0)
}

/// The pattern `p` occurs somewhere in `s`.
pub open spec fn spec_contains(s: Seq<char>, p: Seq<char>) -> bool {
    exists|at: int| spec_match_at(s, p, at)
}

/// Whether `p` occurs in `s` at position `at`.
pub fn match_at(s: &str, p: &str, at: usize) -> (r: bool)
    ensures
        r == spec_match_at(s@, p@, at as int),
{
    let slen = s.unicode_len();
    let plen = p.unicode_len();
    if at > slen || plen > slen - at {
        return false;
    }
    let mut j: usize = 0;
    while j < plen
        invariant
            slen == s@.len(),
            plen == p@.len(),
            at + plen <= slen,
            j <= plen,
            forall|k: int| 0 <= k < j ==> s@[at + k] == p@[k],
        decreases plen - j,
    {
        if s.get_char(at + j) != p.get_char(j) {
            return false;
        }
        j = j + 1;
    }
    true
}

/// Whether `s` starts with `p`.
pub fn starts_with_str(s: &str, p: &str) -> (r: bool)
    ensures
        r == spec_starts_with(s@, p@),
{
    match_at(s, p, 0)
}

/// Whether `p` occurs anywhere in `s`.
pub fn contains_str(s: &str, p: &str) -> (r: bool)
    ensures
        r == spec_contains(s@, p@),
{
    let slen = s.unicode_len();
    let plen = p.unicode_len();
    if plen > slen {
        return false;
    }
    let mut at: usize = 0;
    while at <= slen - plen
        invariant
            slen == s@.len(),
            plen == p@.len(),
            plen <= slen,
            at <= slen - plen + 1,
            forall|a: int| 0 <= a < at ==> !spec_match_at(s@, p@, a),
        decreases slen - plen + 1 - at,
    {
        if match_at(s, p, at) {
            return true;
        }
        at = at + 1;
    }
    proof {
        assert forall|a: int| !spec_match_at(s@, p@, a) by {
            if spec_match_at(s@, p@, a) {
                assert(0 <= a && a + p@.len() <= s@.len());
                assert(a < at);
            }
        }
    }
    false
}

/// A copy of the first `n` characters of `s`.
pub fn copy_prefix(s: &str, n: usize) -> (r: String)
    requires
        n <= s@.len(),
    ensures
        r@ == s@.subrange(0, n as int),
{
    let mut out = String::new();
    let mut i: usize = 0;
    while i < n
        invariant
            n <= s@.len(),
            i <= n,
            out@ == s@.subrange(0, i as int),
        decreases n - i,
    {
        out.push(s.get_char(i));
        proof {
            assert(out@ =~= s@.subrange(0, i + 1 as int));
        }
        i = i + 1;
    }
    out
}

/// The label `s` trimmed to at most `max` characters: unchanged when it
/// fits, otherwise the first `max - 1` characters followed by an ellipsis,
/// so that the result has exactly `max` characters.
pub open spec fn spec_truncate(s: Seq<char>, max: nat) -> Seq<char> {
    if s.len() <= max {
        s
    } else if max == 0 {
        Seq::empty()
    } else {
        s.subrange(0, max - 1).push('…')
    }
}

/// Truncate a label to at most `max` characters, marking a trim with a
/// final ellipsis.
pub fn truncate(s: &str, max: usize) -> (r: String)
    ensures
        r@ == spec_truncate(s@, max as nat),
{
    let len = s.unicode_len();
    if len <= max {
        return String::from_str(s);
    }
    if max == 0 {
        return String::new();
    }
    let mut out = copy_prefix(s, max - 1);
    out.push('…');
    out
}

/// A truncated label never exceeds the limit; a label that fits is
/// returned unchanged; a trimmed label has exactly `max` characters and
/// ends in an ellipsis.
pub proof fn lemma_truncate_bounds(s: Seq<char>, max: nat)
    ensures
        spec_truncate(s, max).len() <= max,
        s.len() <= max ==> spec_truncate(s, max) == s,
        s.len() > max && max > 0 ==> spec_truncate(s, max).len() == max && spec_truncate(
            s,
            max,
        ).last() == '…',
{
}

/// The characters that Pango markup escaping replaces.
pub open spec fn pango_special(c: char) -> bool {
    c == '&' || c == '<' || c == '>' || c == '\'' || c == '"'
}

/// The escape sequence for one character.
pub open spec fn pango_char(c: char) -> Seq<char> {
    if c == '&' {
        seq!['&', 'a', 'm', 'p', ';']
    } else if c == '<' {
        seq!['&', 'l', 't', ';']
    } else if c == '>' {
        seq!['&', 'g', 't', ';']
    } else if c == '\'' {
        seq!['&', 'a', 'p', 'o', 's', ';']
    } else if c == '"' {
        seq!['&', 'q', 'u', 'o', 't', ';']
    } else {
        seq![c]
    }
}

/// Pango markup escaping of a whole string; the ampersand substitution
/// comes first, so escape sequences produced for the other characters are
/// never re-escaped within one application.
pub open spec fn spec_pango(s: Seq<char>) -> Seq<char>
    decreases s.len(),
{
    if s.len() == 0 {
        Seq::empty()
    } else {
        pango_char(s[0]) + spec_pango(s.drop_first())
    }
}

pub proof fn lemma_pango_push(s: Seq<char>, c: char)
    ensures
        spec_pango(s.push(c)) == spec_pango(s) + pango_char(c),
    decreases s.len(),
{
    if s.len() == 0 {
        let t = s.push(c);
        assert(t.len() == 1);
        assert(t[0] == c);
        assert(t.drop_first() =~= Seq::<char>::empty());
        assert(spec_pango(t) == pango_char(t[0]) + spec_pango(t.drop_first()));
        assert(spec_pango(t.drop_first()) =~= Seq::<char>::empty());
        assert(spec_pango(t) =~= pango_char(c));
        assert(spec_pango(s) =~= Seq::<char>::empty());
        assert(spec_pango(s) + pango_char(c) =~= pango_char(c));
    } else {
        assert(s.push(c).drop_first() =~= s.drop_first().push(c));
        lemma_pango_push(s.drop_first(), c);
        assert(spec_pango(s.push(c)) =~= spec_pango(s) + pango_char(c));
    }
}

/// Escape Pango markup: `&`, `<`, `>`, `'` and `"` become their entity
/// forms, the ampersand first.
pub fn pango_escape(s: &str) -> (r: String)
    ensures
        r@ == spec_pango(s@),
{
    let len = s.unicode_len();
    let mut out = String::new();
    let mut i: usize = 0;
    while i < len
        invariant
            len == s@.len(),
            i <= len,
            out@ == spec_pango(s@.subrange(0, i as int)),
        decreases len - i,
    {
        let c = s.get_char(i);
        if c == '&' {
            out.append("&amp;");
            proof {
                reveal_strlit("&amp;");
                assert("&amp;"@ =~= pango_char('&'));
            }
        } else if c == '<' {
            out.append("&lt;");
            proof {
                reveal_strlit("&lt;");
                assert("&lt;"@ =~= pango_char('<'));
            }
        } else if c == '>' {
            out.append("&gt;");
            proof {
                reveal_strlit("&gt;");
                assert("&gt;"@ =~= pango_char('>'));
            }
        } else if c == '\'' {
            out.append("&apos;");
            proof {
                reveal_strlit("&apos;");
                assert("&apos;"@ =~= pango_char('\''));
            }
        } else if c == '"' {
            out.append("&quot;");
            proof {
                reveal_strlit("&quot;");
                assert("&quot;"@ =~= pango_char('"'));
            }
        } else {
            out.push(c);
            proof {
                assert(seq![c] =~= pango_char(c));
            }
        }
        proof {
            lemma_pango_push(s@.subrange(0, i as int), s@[i as int]);
            assert(s@.subrange(0, i + 1 as int) =~= s@.subrange(0, i as int).push(s@[i as int]));
        }
        i = i + 1;
    }
    proof {
        assert(s@.subrange(0, len as int) =~= s@);
    }
    out
}

/// A string with no character that Pango escaping replaces.
pub open spec fn pango_plain(s: Seq<char>) -> bool {
    forall|i: int| 0 <= i < s.len() ==> !pango_special(#[trigger] s[i])
}

pub proof fn lemma_pango_plain_identity(s: Seq<char>)
    requires
        pango_plain(s),
    ensures
        spec_pango(s) == s,
    decreases s.len(),
{
    if s.len() == 0 {
        assert(spec_pango(s) =~= s);
    } else {
        assert(!pango_special(s[0]));
        assert(pango_plain(s.drop_first())) by {
            assert(forall|i: int|
                0 <= i < s.drop_first().len() ==> s.drop_first()[i] == s[i + 1]);
        }
        lemma_pango_plain_identity(s.drop_first());
        assert(spec_pango(s) =~= s);
    }
}

pub proof fn lemma_pango_grows(s: Seq<char>)
    ensures
        spec_pango(s).len() >= s.len(),
        !pango_plain(s) ==> spec_pango(s).len() > s.len(),
    decreases s.len(),
{
    if s.len() == 0 {
    } else {
        lemma_pango_grows(s.drop_first());
        assert(pango_char(s[0]).len() >= 1);
        if !pango_plain(s) {
            if pango_special(s[0]) {
                assert(pango_char(s[0]).len() >= 4);
            } else {
                let i = choose|i: int| 0 <= i < s.len() && pango_special(s[i]);
                assert(s.drop_first()[i - 1] == s[i]);
                assert(!pango_plain(s.drop_first()));
            }
        }
    }
}

pub proof fn lemma_pango_output_special(s: Seq<char>)
    requires
        !pango_plain(s),
    ensures
        !pango_plain(spec_pango(s)),
    decreases s.len(),
{
    let i = choose|i: int| 0 <= i < s.len() && pango_special(s[i]);
    if pango_special(s[0]) {
        assert(pango_char(s[0])[0] == '&');
        assert(spec_pango(s)[0] == '&');
        assert(pango_special(spec_pango(s)[0]));
    } else {
        assert(s.drop_first()[i - 1] == s[i]);
        assert(!pango_plain(s.drop_first()));
        lemma_pango_output_special(s.drop_first());
        let t = spec_pango(s.drop_first());
        let j = choose|j: int| 0 <= j < t.len() && pango_special(t[j]);
        assert(pango_char(s[0]) =~= seq![s[0]]);
        assert(spec_pango(s)[j + 1] == t[j]);
        assert(pango_special(spec_pango(s)[j + 1]));
    }
}

/// Pango escaping is idempotent exactly on text it leaves unchanged: a
/// second application returns the first application's result if and only
/// if the text held none of the five escaped characters. On any other
/// text the first application introduces an ampersand, which a second
/// application re-encodes.
pub proof fn lemma_pango_idempotent_iff_plain(s: Seq<char>)
    ensures
        spec_pango(spec_pango(s)) == spec_pango(s) <==> pango_plain(s),
{
    if pango_plain(s) {
        lemma_pango_plain_identity(s);
    } else {
        lemma_pango_output_special(s);
        lemma_pango_grows(spec_pango(s));
    }
}

/// ASCII lower-casing of one character; every other character is kept.
pub open spec fn lower_char(c: char) -> char {
    if 'A' <= c && c <= 'Z' {
        (((c as u32) + 32) as u8) as char
    } else {
        c
    }
}

/// `s` starts with `p` when compared ASCII-case-insensitively; `p` is
/// expected to be lower case already.
pub open spec fn spec_ci_prefix(s: Seq<char>, p: Seq<char>) -> bool {
    &&& p.len() <= s.len()
    &&& forall|j: int| 0 <= j < p.len() ==> lower_char(s[j]) == p[j]
}

/// Whether `s` starts with the lower-case pattern `p`, ignoring ASCII
/// case in `s`.
pub fn starts_with_ci(s: &str, p: &str) -> (r: bool)
    ensures
        r == spec_ci_prefix(s@, p@),
{
    let slen = s.unicode_len();
    let plen = p.unicode_len();
    if plen > slen {
        return false;
    }
    let mut j: usize = 0;
    while j < plen
        invariant
            slen == s@.len(),
            plen == p@.len(),
            plen <= slen,
            j <= plen,
            forall|k: int| 0 <= k < j ==> lower_char(s@[k]) == p@[k],
        decreases plen - j,
    {
        let c = s.get_char(j);
        let lc: char = if c >= 'A' && c <= 'Z' {
            (((c as u32) + 32) as u8) as char
        } else {
            c
        };
        if lc != p.get_char(j) {
            return false;
        }
        j = j + 1;
    }
    true
}

/// Whitespace for ASCII trimming: the characters trimmed from field ends.
pub open spec fn is_trim_ws(c: char) -> bool {
    c == ' ' || c == '\t' || c == '\n' || c == '\r' || c == '\u{b}' || c == '\u{c}'
}

/// The first position at or after `i` that is not trim whitespace.
pub open spec fn spec_trim_start(s: Seq<char>, i: int) -> int
    decreases s.len() - i,
{
    if i < 0 || i >= s.len() {
        i
    } else if is_trim_ws(s[i]) {
        spec_trim_start(s, i + 1)
    } else {
        i
    }
}

/// The position after the last non-whitespace character at or before `i`.
pub open spec fn spec_trim_end(s: Seq<char>, i: int) -> int
    decreases i,
{
    if i <= 0 {
        0
    } else if is_trim_ws(s[i - 1]) {
        spec_trim_end(s, i - 1)
    } else {
        i
    }
}

/// `s` with ASCII whitespace removed from both ends.
pub open spec fn spec_trim(s: Seq<char>) -> Seq<char> {
    let hi = spec_trim_end(s, s.len() as int);
    let t = s.take(hi);
    t.skip(spec_trim_start(t, 0))
}

/// Whether the character at `i` is trim whitespace.
fn trim_ws_at(s: &str, i: usize) -> (r: bool)
    requires
        i < s@.len(),
    ensures
        r == is_trim_ws(s@[i as int]),
{
    let c = s.get_char(i);
    c == ' ' || c == '\t' || c == '\n' || c == '\r' || c == '\u{b}' || c == '\u{c}'
}

/// Trim ASCII whitespace from both ends of `s`.
pub fn trim_ascii(s: &str) -> (r: String)
    ensures
        r@ == spec_trim(s@),
{
    let len = s.unicode_len();
    let mut hi: usize = len;
    while hi > 0 && trim_ws_at(s, hi - 1)
        invariant
            len == s@.len(),
            hi <= len,
            spec_trim_end(s@, len as int) == spec_trim_end(s@, hi as int),
        decreases hi,
    {
        hi = hi - 1;
    }
    proof {
        assert(spec_trim_end(s@, hi as int) == hi as int);
    }
    let ghost t = s@.take(hi as int);
    let mut lo: usize = 0;
    while lo < hi && trim_ws_at(s, lo)
        invariant
            len == s@.len(),
            lo <= hi <= len,
            t == s@.take(hi as int),
            spec_trim_start(t, 0) == spec_trim_start(t, lo as int),
        decreases hi - lo,
    {
        proof {
            assert(t[lo as int] == s@[lo as int]);
        }
        lo = lo + 1;
    }
    proof {
        if lo < hi {
            assert(t[lo as int] == s@[lo as int]);
        }
        assert(spec_trim_start(t, lo as int) == lo as int);
    }
    let sub = s.substring_char(lo, hi);
    let r = String::from_str(sub);
    proof {
        assert(r@ =~= spec_trim(s@));
    }
    r
}

/// The position of the first occurrence of `c` in `s`, if any.
pub open spec fn spec_char_pos(s: Seq<char>, c: char) -> Option<int>
    decreases s.len(),
{
    if s.len() == 0 {
        None
    } else if s[0] == c {
        Some(0)
    } else {
        match spec_char_pos(s.drop_first(), c) {
            Some(i) => Some(i + 1),
            None => None,
        }
    }
}

/// Whatever position `spec_char_pos` finds is the first occurrence.
pub proof fn lemma_char_pos_props(s: Seq<char>, c: char)
    ensures
        match spec_char_pos(s, c) {
            Some(i) => 0 <= i < s.len() && s[i] == c && forall|j: int| 0 <= j < i ==> s[j] != c,
            None => forall|j: int| 0 <= j < s.len() ==> s[j] != c,
        },
    decreases s.len(),
{
    if s.len() > 0 && s[0] != c {
        let t = s.drop_first();
        lemma_char_pos_props(t, c);
        assert(forall|k: int| 0 <= k < t.len() ==> t[k] == s[k + 1]);
        match spec_char_pos(t, c) {
            Some(i) => {
                assert(s[i + 1] == t[i]);
                assert forall|j: int| 0 <= j < i + 1 implies s[j] != c by {
                    if j > 0 {
                        assert(t[j - 1] == s[j]);
                    }
                }
            },
            None => {
                assert forall|j: int| 0 <= j < s.len() implies s[j] != c by {
                    if j > 0 {
                        assert(t[j - 1] == s[j]);
                    }
                }
            },
        }
    }
}

/// If `t` is an occurrence of `c` with none before it, it is the position
/// `spec_char_pos` finds.
pub proof fn lemma_char_pos_first(s: Seq<char>, c: char, t: int)
    requires
        0 <= t < s.len(),
        s[t] == c,
        forall|k: int| 0 <= k < t ==> s[k] != c,
    ensures
        spec_char_pos(s, c) == Some(t),
    decreases s.len(),
{
    if t > 0 {
        assert(s[0] != c);
        assert(forall|k: int| 0 <= k < s.drop_first().len() ==> s.drop_first()[k] == s[k + 1]);
        lemma_char_pos_first(s.drop_first(), c, t - 1);
    }
}

/// A string without `c` has no position for it.
pub proof fn lemma_char_pos_none(s: Seq<char>, c: char)
    requires
        forall|k: int| 0 <= k < s.len() ==> s[k] != c,
    ensures
        spec_char_pos(s, c) is None,
    decreases s.len(),
{
    if s.len() > 0 {
        assert(forall|k: int| 0 <= k < s.drop_first().len() ==> s.drop_first()[k] == s[k + 1]);
        lemma_char_pos_none(s.drop_first(), c);
    }
}

/// Find the first occurrence of `c` in `s`.
pub fn find_char(s: &str, c: char) -> (r: Option<usize>)
    ensures
        match r {
            Some(i) => spec_char_pos(s@, c) == Some(i as int) && i < s@.len(),
            None => spec_char_pos(s@, c) is None,
        },
{
    let len = s.unicode_len();
    let mut i: usize = 0;
    while i < len
        invariant
            len == s@.len(),
            i <= len,
            forall|j: int| 0 <= j < i ==> s@[j] != c,
        decreases len - i,
    {
        if s.get_char(i) == c {
            proof {
                lemma_char_pos_first(s@, c, i as int);
            }
            return Some(i);
        }
        i = i + 1;
    }
    proof {
        lemma_char_pos_none(s@, c);
    }
    None
}

/// `s` with every occurrence of `pat` replaced by `rep`, scanning left to
/// right without revisiting replaced text; an empty pattern replaces
/// nothing.
pub open spec fn spec_replace(s: Seq<char>, pat: Seq<char>, rep: Seq<char>) -> Seq<char>
    decreases s.len(),
{
    if pat.len() == 0 || s.len() < pat.len() {
        s
    } else if spec_match_at(s, pat, 0) {
        rep + spec_replace(s.skip(pat.len() as int), pat, rep)
    } else {
        seq![s[0]] + spec_replace(s.drop_first(), pat, rep)
    }
}

/// Replace every occurrence of `pat` in `s` by `rep`, scanning left to
/// right.
pub fn replace_all(s: &str, pat: &str, rep: &str) -> (r: String)
    ensures
        r@ == spec_replace(s@, pat@, rep@),
{
    let len = s.unicode_len();
    let plen = pat.unicode_len();
    if plen == 0 {
        return String::from_str(s);
    }
    let mut out = String::new();
    let mut i: usize = 0;
    proof {
        assert(s@.skip(0) =~= s@);
        assert(out@ + spec_replace(s@, pat@, rep@) =~= spec_replace(s@, pat@, rep@));
    }
    while i < len
        invariant
            len == s@.len(),
            plen == pat@.len(),
            plen > 0,
            i <= len,
            spec_replace(s@, pat@, rep@) == out@ + spec_replace(s@.skip(i as int), pat@, rep@),
        decreases len - i,
    {
        let ghost suf = s@.skip(i as int);
        if match_at(s, pat, i) {
            proof {
                assert forall|j: int| 0 <= j < pat@.len() implies suf[j] == pat@[j] by {
                    assert(suf[j] == s@[i + j]);
                }
                assert(spec_match_at(suf, pat@, 0));
                assert(suf.skip(plen as int) =~= s@.skip(i + plen));
            }
            out.append(rep);
            i = i + plen;
        } else {
            proof {
                if suf.len() >= plen && spec_match_at(suf, pat@, 0) {
                    assert forall|j: int| 0 <= j < pat@.len() implies s@[i + j] == pat@[j] by {
                        assert(suf[j] == s@[i + j]);
                    }
                    assert(spec_match_at(s@, pat@, i as int));
                }
                assert(suf[0] == s@[i as int]);
                assert(suf.drop_first() =~= s@.skip(i as int + 1));
            }
            let ghost pre = out@;
            out.push(s.get_char(i));
            proof {
                assert(pre + (seq![s@[i as int]] + spec_replace(
                    s@.skip(i as int + 1),
                    pat@,
                    rep@,
                )) =~= pre.push(s@[i as int]) + spec_replace(s@.skip(i as int + 1), pat@, rep@));
            }
            i = i + 1;
        }
    }
    proof {
        assert(s@.skip(len as int) =~= Seq::<char>::empty());
        assert(out@ + Seq::<char>::empty() =~= out@);
    }
    out
}

} // verus!
