//! Parsing of the display-configuration tool's textual status output into
//! hardware-output descriptors, and of user-typed resolution text.
//!
//! A status line describes one output. Lines containing `" connected"` are
//! kept: the first whitespace-separated token is the output identifier, and
//! the first token containing `'+'` carries geometry as `WxH+X+Y`. Fields
//! that cannot be read fall back to documented defaults instead of aborting.

use vstd::prelude::*;

use crate::model::MAX_RAW_POS;
use crate::numtext::{
    parse_dec_range, parse_u32_range, spec_parse_dec, spec_parse_u32,
};

verus! {

/// A hardware-output descriptor as the enumeration collaborator reports it.
pub struct Descriptor {
    /// Output identifier, the first token of the status line.
    pub id: String,
    /// Whether the line reported the output as connected.
    pub connected: bool,
    /// Width, height and position, when the line carried usable geometry.
    pub geometry: Option<(u32, u32, i64, i64)>,
}

/// Index of the first occurrence of `c` at or after `from`.
pub open spec fn spec_find(s: Seq<char>, c: char, from: int) -> Option<int>
    decreases s.len() - from,
{
    if from < 0 || from >= s.len() {
        None
    } else if s[from] == c {
        Some(from)
    } else {
        spec_find(s, c, from + 1)
    }
}

/// The characters `pat` occur in `s` starting at index `i`.
pub open spec fn spec_contains_at(s: Seq<char>, pat: Seq<char>, i: int) -> bool {
    &&& 0 <= i
    &&& i + pat.len() <= s.len()
    &&& s.subrange(i, i + pat.len()) == pat
}

/// The characters `pat` occur somewhere in `s`.
pub open spec fn spec_contains(s: Seq<char>, pat: Seq<char>) -> bool {
    exists|i: int| spec_contains_at(s, pat, i)
}

/// The line reports a connected output. The leading space keeps lines that
/// say `"disconnected"` out: there the `connected` letters follow an `s`,
/// not a space.
pub open spec fn spec_line_connected(line: Seq<char>) -> bool {
    spec_contains(line, " connected"@)
}

/// Whitespace as the tokenizer understands it.
pub open spec fn spec_is_ws(c: char) -> bool {
    c == ' ' || c == '\t' || c == '\r'
}

/// Index of the first non-whitespace character at or after `i`.
pub open spec fn spec_skip_ws(s: Seq<char>, i: int) -> int
    decreases s.len() - i,
{
    if i < 0 || i >= s.len() {
        s.len() as int
    } else if spec_is_ws(s[i]) {
        spec_skip_ws(s, i + 1)
    } else {
        i
    }
}

/// Index just past the token that starts at or covers `i`: the first
/// whitespace character at or after `i`.
pub open spec fn spec_scan_token(s: Seq<char>, i: int) -> int
    decreases s.len() - i,
{
    if i < 0 || i >= s.len() {
        s.len() as int
    } else if spec_is_ws(s[i]) {
        i
    } else {
        spec_scan_token(s, i + 1)
    }
}

/// Start of the token that covers index `j`: one past the nearest whitespace
/// character before `j`.
pub open spec fn spec_tok_start(s: Seq<char>, j: int) -> int
    decreases j,
{
    if j <= 0 {
        0
    } else if spec_is_ws(s[j - 1]) {
        j
    } else {
        spec_tok_start(s, j - 1)
    }
}

/// The output identifier of a status line: its first token.
pub open spec fn spec_line_id(line: Seq<char>) -> Seq<char> {
    line.subrange(spec_skip_ws(line, 0), spec_scan_token(line, spec_skip_ws(line, 0)))
}

/// A position field: an optional minus sign followed by digits, worth its
/// decimal value up to the raw-coordinate limit; anything else is the
/// documented default of zero.
pub open spec fn spec_parse_pos(t: Seq<char>) -> int {
    if t.len() >= 2 && t[0] == '-' {
        match spec_parse_dec(t.skip(1), MAX_RAW_POS as int) {
            Some(v) => -v,
            None => 0,
        }
    } else {
        match spec_parse_dec(t, MAX_RAW_POS as int) {
            Some(v) => v,
            None => 0,
        }
    }
}

/// Geometry read from a `WxH+X+Y` token. The width is the digits before the
/// first `'x'`, the height the digits between that `'x'` and the first `'+'`,
/// and the positions the two following `'+'`-separated fields; each field
/// falls back to its documented default (1920, 1080, origin) when it cannot
/// be read.
pub open spec fn spec_parse_geom(t: Seq<char>) -> (u32, u32, i64, i64) {
    match spec_find(t, 'x', 0) {
        None => (1920u32, 1080u32, 0i64, 0i64),
        Some(xi) => {
            let w = match spec_parse_u32(t.take(xi)) {
                Some(v) => v,
                None => 1920u32,
            };
            let rest = t.subrange(xi + 1, t.len() as int);
            match spec_find(rest, '+', 0) {
                None => {
                    let h = match spec_parse_u32(rest) {
                        Some(v) => v,
                        None => 1080u32,
                    };
                    (w, h, 0i64, 0i64)
                },
                Some(p1) => {
                    let h = match spec_parse_u32(rest.take(p1)) {
                        Some(v) => v,
                        None => 1080u32,
                    };
                    let xend = match spec_find(rest, '+', p1 + 1) {
                        Some(p2) => p2,
                        None => rest.len() as int,
                    };
                    let x = spec_parse_pos(rest.subrange(p1 + 1, xend));
                    let y = if xend == rest.len() {
                        0int
                    } else {
                        let yend = match spec_find(rest, '+', xend + 1) {
                            Some(p3) => p3,
                            None => rest.len() as int,
                        };
                        spec_parse_pos(rest.subrange(xend + 1, yend))
                    };
                    (w, h, x as i64, y as i64)
                },
            }
        },
    }
}

/// The geometry of a status line: the first token containing `'+'`, parsed,
/// or nothing when no token carries a position.
pub open spec fn spec_line_geom(line: Seq<char>) -> Option<(u32, u32, i64, i64)> {
    match spec_find(line, '+', 0) {
        None => None,
        Some(j) => Some(
            spec_parse_geom(line.subrange(spec_tok_start(line, j), spec_scan_token(line, j))),
        ),
    }
}

/// The descriptor carries exactly what the status line says.
pub open spec fn spec_desc_of_line(line: Seq<char>, d: Descriptor) -> bool {
    &&& d.connected
    &&& d.id@ == spec_line_id(line)
    &&& d.geometry == spec_line_geom(line)
}

/// Index of the first occurrence of `c` at or after `from`.
#[verifier::loop_isolation(false)]
pub fn find_char_from(s: &str, c: char, from: usize) -> (r: Option<usize>)
    requires
        from <= s@.len(),
    ensures
        match r {
            Some(j) => {
                &&& spec_find(s@, c, from as int) == Some(j as int)
                &&& from <= j < s@.len()
                &&& s@[j as int] == c
            },
            None => spec_find(s@, c, from as int) is None,
        },
{
    let n = s.unicode_len();
    let mut i: usize = from;
    while i < n
        invariant
            from <= i <= n,
            spec_find(s@, c, from as int) == spec_find(s@, c, i as int),
        decreases n - i,
    {
        if s.get_char(i) == c {
            return Some(i);
        }
        i = i + 1;
    }
    None
}

/// Whether the characters of `pat` occur in `s` at index `i`.
#[verifier::loop_isolation(false)]
fn match_at(s: &str, pat: &str, i: usize) -> (r: bool)
    requires
        i + pat@.len() <= s@.len(),
    ensures
        r == spec_contains_at(s@, pat@, i as int),
{
    let n = s.unicode_len();
    let m = pat.unicode_len();
    let mut j: usize = 0;
    while j < m
        invariant
            0 <= j <= m,
            i + m <= n,
            forall|q: int| 0 <= q < j ==> s@[i + q] == pat@[q],
        decreases m - j,
    {
        if s.get_char(i + j) != pat.get_char(j) {
            proof {
                assert(s@.subrange(i as int, i + m)[j as int] != pat@[j as int]);
            }
            return false;
        }
        j = j + 1;
    }
    proof {
        assert(s@.subrange(i as int, i + m) =~= pat@);
    }
    true
}

/// Whether the characters of `pat` occur anywhere in `s`.
#[verifier::loop_isolation(false)]
pub fn contains_str(s: &str, pat: &str) -> (r: bool)
    ensures
        r == spec_contains(s@, pat@),
{
    let n = s.unicode_len();
    let m = pat.unicode_len();
    if m == 0 {
        proof {
            assert(s@.subrange(0, 0) =~= pat@);
            assert(spec_contains_at(s@, pat@, 0));
        }
        return true;
    }
    if m > n {
        return false;
    }
    let mut i: usize = 0;
    while n - i >= m
        invariant
            1 <= m <= n,
            0 <= i <= n - m + 1,
            forall|k: int| 0 <= k < i ==> !spec_contains_at(s@, pat@, k),
        decreases n - i,
    {
        if match_at(s, pat, i) {
            return true;
        }
        i = i + 1;
    }
    proof {
        assert forall|k: int| !spec_contains_at(s@, pat@, k) by {
            if 0 <= k <= n - m {
                assert(!spec_contains_at(s@, pat@, k));
            }
        }
    }
    false
}

/// Index of the first non-whitespace character at or after `from`.
#[verifier::loop_isolation(false)]
pub fn skip_ws_from(s: &str, from: usize) -> (r: usize)
    requires
        from <= s@.len(),
    ensures
        r == spec_skip_ws(s@, from as int),
        from <= r <= s@.len(),
{
    let n = s.unicode_len();
    let mut i: usize = from;
    while i < n
        invariant
            from <= i <= n,
            spec_skip_ws(s@, from as int) == spec_skip_ws(s@, i as int),
        decreases n - i,
    {
        let c = s.get_char(i);
        if !(c == ' ' || c == '\t' || c == '\r') {
            return i;
        }
        i = i + 1;
    }
    n
}

/// Index just past the token at `from`: the first whitespace at or after it.
#[verifier::loop_isolation(false)]
pub fn scan_token_from(s: &str, from: usize) -> (r: usize)
    requires
        from <= s@.len(),
    ensures
        r == spec_scan_token(s@, from as int),
        from <= r <= s@.len(),
{
    let n = s.unicode_len();
    let mut i: usize = from;
    while i < n
        invariant
            from <= i <= n,
            spec_scan_token(s@, from as int) == spec_scan_token(s@, i as int),
        decreases n - i,
    {
        let c = s.get_char(i);
        if c == ' ' || c == '\t' || c == '\r' {
            return i;
        }
        i = i + 1;
    }
    n
}

/// Start of the token covering index `j`.
#[verifier::loop_isolation(false)]
pub fn tok_start_back(s: &str, j: usize) -> (r: usize)
    requires
        j <= s@.len(),
    ensures
        r == spec_tok_start(s@, j as int),
        r <= j,
{
    let mut i: usize = j;
    while i > 0
        invariant
            0 <= i <= j,
            spec_tok_start(s@, j as int) == spec_tok_start(s@, i as int),
        decreases i,
    {
        let c = s.get_char(i - 1);
        if c == ' ' || c == '\t' || c == '\r' {
            return i;
        }
        i = i - 1;
    }
    0
}

/// Parse the characters `s[from..to]` as a position field.
pub fn parse_pos_range(s: &str, from: usize, to: usize) -> (r: i64)
    requires
        from <= to <= s@.len(),
    ensures
        r == spec_parse_pos(s@.subrange(from as int, to as int)),
{
    let ghost t = s@.subrange(from as int, to as int);
    if to - from >= 2 && s.get_char(from) == '-' {
        proof {
            assert(t.skip(1) =~= s@.subrange(from + 1, to as int));
        }
        match parse_dec_range(s, from + 1, to, 100_000_000) {
            Some(v) => -(v as i64),
            None => 0,
        }
    } else {
        match parse_dec_range(s, from, to, 100_000_000) {
            Some(v) => v as i64,
            None => 0,
        }
    }
}

/// Parse a geometry token of the shape `WxH+X+Y`.
pub fn parse_geom_token(t: &str) -> (g: (u32, u32, i64, i64))
    ensures
        g == spec_parse_geom(t@),
{
    let n = t.unicode_len();
    match find_char_from(t, 'x', 0) {
        None => (1920, 1080, 0, 0),
        Some(xi) => {
            proof {
                assert(t@.take(xi as int) =~= t@.subrange(0, xi as int));
            }
            let w = match parse_u32_range(t, 0, xi) {
                Some(v) => v,
                None => 1920,
            };
            let rest = t.substring_char(xi + 1, n);
            let rn = rest.unicode_len();
            match find_char_from(rest, '+', 0) {
                None => {
                    proof {
                        assert(rest@.subrange(0, rn as int) =~= rest@);
                    }
                    let h = match parse_u32_range(rest, 0, rn) {
                        Some(v) => v,
                        None => 1080,
                    };
                    (w, h, 0, 0)
                },
                Some(p1) => {
                    proof {
                        assert(rest@.take(p1 as int) =~= rest@.subrange(0, p1 as int));
                    }
                    let h = match parse_u32_range(rest, 0, p1) {
                        Some(v) => v,
                        None => 1080,
                    };
                    let xend = match find_char_from(rest, '+', p1 + 1) {
                        Some(p2) => p2,
                        None => rn,
                    };
                    let x = parse_pos_range(rest, p1 + 1, xend);
                    let y = if xend == rn {
                        0
                    } else {
                        let yend = match find_char_from(rest, '+', xend + 1) {
                            Some(p3) => p3,
                            None => rn,
                        };
                        parse_pos_range(rest, xend + 1, yend)
                    };
                    (w, h, x, y)
                },
            }
        },
    }
}

/// Parse one status line. A line that does not report a connected output
/// yields nothing; otherwise the descriptor carries the line's first token
/// as the identifier and its first `'+'`-bearing token, parsed, as the
/// geometry.
pub fn parse_status_line(line: &str) -> (r: Option<Descriptor>)
    ensures
        r is Some <==> spec_line_connected(line@),
        match r {
            Some(d) => spec_desc_of_line(line@, d),
            None => true,
        },
{
    if !contains_str(line, " connected") {
        return None;
    }
    let n = line.unicode_len();
    let a = skip_ws_from(line, 0);
    let b = scan_token_from(line, a);
    proof {
        lemma_scan_token_ge(line@, a as int);
    }
    let id_str = line.substring_char(a, b);
    let id = id_str.to_owned();
    let geometry = match find_char_from(line, '+', 0) {
        None => None,
        Some(j) => {
            let ts = tok_start_back(line, j);
            let te = scan_token_from(line, j);
            proof {
                lemma_scan_token_ge(line@, j as int);
            }
            let tok = line.substring_char(ts, te);
            Some(parse_geom_token(tok))
        },
    };
    Some(Descriptor { id, connected: true, geometry })
}

/// Scanning for a token's end never moves left.
proof fn lemma_scan_token_ge(s: Seq<char>, i: int)
    requires
        0 <= i <= s.len(),
    ensures
        i <= spec_scan_token(s, i) <= s.len(),
    decreases s.len() - i,
{
    if i < s.len() && !spec_is_ws(s[i]) {
        lemma_scan_token_ge(s, i + 1);
    }
}

/// Index of the line break at or after `p`, or the text's length.
pub open spec fn spec_line_break(s: Seq<char>, p: int) -> int
    decreases s.len() - p,
{
    if p < 0 || p >= s.len() {
        s.len() as int
    } else if s[p] == '\n' {
        p
    } else {
        spec_line_break(s, p + 1)
    }
}

/// The lines of the text from index `p` on, split at `'\n'`; the split keeps
/// a final empty line after a trailing break, as the usual split does.
pub open spec fn spec_lines_from(s: Seq<char>, p: int) -> Seq<Seq<char>>
    decreases s.len() - p,
{
    if p < 0 || p >= s.len() {
        seq![Seq::<char>::empty()]
    } else {
        let rest = spec_lines_from(s, p + 1);
        if s[p] == '\n' {
            seq![Seq::<char>::empty()] + rest
        } else {
            seq![seq![s[p]] + rest.first()] + rest.drop_first()
        }
    }
}

/// The lines of the whole text.
pub open spec fn spec_lines(s: Seq<char>) -> Seq<Seq<char>> {
    spec_lines_from(s, 0)
}

/// The line split agrees with slicing at the next line break: the first
/// line runs to the break, and the remaining lines follow it.
proof fn lemma_lines_from_split(s: Seq<char>, p: int)
    requires
        0 <= p <= s.len(),
    ensures
        p <= spec_line_break(s, p) <= s.len(),
        spec_line_break(s, p) < s.len() ==> s[spec_line_break(s, p)] == '\n',
        spec_lines_from(s, p) == (if spec_line_break(s, p) < s.len() {
            seq![s.subrange(p, spec_line_break(s, p))] + spec_lines_from(
                s,
                spec_line_break(s, p) + 1,
            )
        } else {
            seq![s.subrange(p, spec_line_break(s, p))]
        }),
    decreases s.len() - p,
{
    let j = spec_line_break(s, p);
    if p >= s.len() {
        assert(spec_lines_from(s, p) =~~= seq![s.subrange(p, j)]);
    } else if s[p] == '\n' {
        assert(spec_lines_from(s, p) =~~= seq![s.subrange(p, p)] + spec_lines_from(s, p + 1));
    } else {
        lemma_lines_from_split(s, p + 1);
        let rest = spec_lines_from(s, p + 1);
        assert(seq![s[p]] + rest.first() =~= s.subrange(p, j));
        if j < s.len() {
            assert(spec_lines_from(s, p) =~~= seq![s.subrange(p, j)] + spec_lines_from(s, j + 1));
        } else {
            assert(spec_lines_from(s, p) =~~= seq![s.subrange(p, j)]);
        }
    }
}

/// Index of the line break at or after `from`, or the text's length.
#[verifier::loop_isolation(false)]
pub fn line_break_from(s: &str, from: usize) -> (r: usize)
    requires
        from <= s@.len(),
    ensures
        r == spec_line_break(s@, from as int),
        from <= r <= s@.len(),
{
    let n = s.unicode_len();
    let mut i: usize = from;
    while i < n
        invariant
            from <= i <= n,
            spec_line_break(s@, from as int) == spec_line_break(s@, i as int),
        decreases n - i,
    {
        if s.get_char(i) == '\n' {
            return i;
        }
        i = i + 1;
    }
    n
}

/// The lines among `ls` that report a connected output, in order.
pub open spec fn spec_connected_lines(ls: Seq<Seq<char>>) -> Seq<Seq<char>>
    decreases ls.len(),
{
    if ls.len() == 0 {
        Seq::empty()
    } else {
        spec_connected_lines(ls.drop_last()) + if spec_line_connected(ls.last()) {
            seq![ls.last()]
        } else {
            Seq::empty()
        }
    }
}

/// Parse the whole status output: one descriptor per line that reports a
/// connected output, in text order, each carrying that line's identifier
/// and geometry.
#[verifier::loop_isolation(false)]
pub fn parse_status_output(text: &str) -> (r: Vec<Descriptor>)
    ensures
        r@.len() == spec_connected_lines(spec_lines(text@)).len(),
        forall|k: int|
            0 <= k < r@.len() ==> spec_desc_of_line(
                spec_connected_lines(spec_lines(text@))[k],
                #[trigger] r@[k],
            ),
{
    let n = text.unicode_len();
    let mut out: Vec<Descriptor> = Vec::new();
    let ghost mut done: Seq<Seq<char>> = Seq::empty();
    let mut pos: usize = 0;
    let mut finished = false;
    while !finished
        invariant
            0 <= pos <= n,
            n == text@.len(),
            !finished ==> spec_lines(text@) == done + spec_lines_from(text@, pos as int),
            finished ==> spec_lines(text@) == done,
            out@.len() == spec_connected_lines(done).len(),
            forall|k: int|
                0 <= k < out@.len() ==> spec_desc_of_line(
                    spec_connected_lines(done)[k],
                    #[trigger] out@[k],
                ),
        decreases n - pos + (if finished {
            0int
        } else {
            1int
        }),
    {
        let j = line_break_from(text, pos);
        proof {
            lemma_lines_from_split(text@, pos as int);
        }
        let line = text.substring_char(pos, j);
        match parse_status_line(line) {
            Some(d) => {
                out.push(d);
            },
            None => {},
        }
        proof {
            let old_done = done;
            done = done.push(line@);
            assert(done.drop_last() =~= old_done);
            assert(spec_connected_lines(done) == spec_connected_lines(old_done)
                + if spec_line_connected(line@) {
                seq![line@]
            } else {
                Seq::<Seq<char>>::empty()
            });
            if j < n {
                assert(done + spec_lines_from(text@, j + 1) =~~= old_done + spec_lines_from(
                    text@,
                    pos as int,
                ));
            } else {
                assert(done =~~= old_done + spec_lines_from(text@, pos as int));
            }
        }
        if j < n {
            pos = j + 1;
        } else {
            finished = true;
        }
    }
    out
}

/// Parse user-typed resolution text of the exact shape `WxH`: two decimal
/// digit runs joined by one `'x'`, each fitting a `u32`; anything else is
/// rejected.
pub open spec fn spec_parse_resolution(s: Seq<char>) -> Option<(u32, u32)> {
    match spec_find(s, 'x', 0) {
        None => None,
        Some(xi) => {
            if spec_find(s, 'x', xi + 1) is Some {
                None
            } else {
                match (spec_parse_u32(s.take(xi)), spec_parse_u32(s.subrange(xi + 1, s.len() as int))) {
                    (Some(w), Some(h)) => Some((w, h)),
                    _ => None,
                }
            }
        },
    }
}

/// Parse user-typed resolution text `WxH` into a pixel pair; malformed text
/// yields nothing, so the caller retains the last valid value.
pub fn parse_resolution_input(input: &str) -> (r: Option<(u32, u32)>)
    ensures
        r == spec_parse_resolution(input@),
{
    let n = input.unicode_len();
    match find_char_from(input, 'x', 0) {
        None => None,
        Some(xi) => {
            if find_char_from(input, 'x', xi + 1).is_some() {
                return None;
            }
            proof {
                assert(input@.take(xi as int) =~= input@.subrange(0, xi as int));
            }
            let w = parse_u32_range(input, 0, xi);
            let h = parse_u32_range(input, xi + 1, n);
            match (w, h) {
                (Some(wv), Some(hv)) => Some((wv, hv)),
                _ => None,
            }
        },
    }
}

} // verus!
