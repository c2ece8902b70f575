//! The readiness detector: recognizing the readiness marker in a stdout
//! line of the sidecar and extracting the bound port.
//!
//! A line signals readiness when it contains the fixed marker substring.
//! The port is then read from the last whitespace-delimited token of the
//! line, with trailing period characters stripped; if that token does not
//! parse as an unsigned 16-bit integer, the line is ignored. The detector is
//! a single pass over the stream: every line is examined, one event is
//! raised per matching line, and the scan never stops before the end of the
//! stream.

use vstd::prelude::*;

verus! {

/// The readiness marker: the fixed substring of a stdout line that signals
/// the backend has bound its network port.
pub open spec fn marker() -> Seq<char> {
    "Starting Sage Desktop Server on port"@
}

/// The ASCII whitespace characters; tokens of a line are the maximal runs
/// of characters that are not among them.
pub open spec fn is_space(c: char) -> bool {
    c == ' ' || c == '\t' || c == '\n' || c == '\r' || c == '\u{b}' || c == '\u{c}'
}

/// `needle` occurs in `hay` starting at position `i`.
pub open spec fn matches_at(hay: Seq<char>, needle: Seq<char>, i: int) -> bool {
    &&& 0 <= i
    &&& i + needle.len() <= hay.len()
    &&& hay.subrange(i, i + needle.len()) == needle
}

/// `needle` occurs somewhere in `hay`.
pub open spec fn contains_seq(hay: Seq<char>, needle: Seq<char>) -> bool {
    exists|i: int| matches_at(hay, needle, i)
}

/// The longest suffix of `s` made of non-whitespace characters only.
pub open spec fn nonspace_suffix(s: Seq<char>) -> Seq<char>
    decreases s.len(),
{
    if s.len() == 0 || is_space(s.last()) {
        Seq::empty()
    } else {
        nonspace_suffix(s.drop_last()).push(s.last())
    }
}

/// The last whitespace-delimited token of `s`: the empty sequence when `s`
/// holds no non-whitespace character at all.
pub open spec fn last_token(s: Seq<char>) -> Seq<char>
    decreases s.len(),
{
    if s.len() == 0 {
        Seq::empty()
    } else if is_space(s.last()) {
        last_token(s.drop_last())
    } else {
        nonspace_suffix(s)
    }
}

/// `s` with every trailing period character removed.
pub open spec fn strip_trailing_dots(s: Seq<char>) -> Seq<char>
    decreases s.len(),
{
    if s.len() > 0 && s.last() == '.' {
        strip_trailing_dots(s.drop_last())
    } else {
        s
    }
}

/// `c` is an ASCII decimal digit.
pub open spec fn is_digit(c: char) -> bool {
    48 <= c as u32 <= 57
}

/// The numeric value of the digit `c`.
pub open spec fn digit_value(c: char) -> int {
    c as u32 - 48
}

/// The number denoted by `s` read as a big-endian run of decimal digits.
pub open spec fn digits_value(s: Seq<char>) -> int
    decreases s.len(),
{
    if s.len() == 0 {
        0
    } else {
        digits_value(s.drop_last()) * 10 + digit_value(s.last())
    }
}

/// Every character of `s` is a decimal digit.
pub open spec fn all_digits(s: Seq<char>) -> bool {
    forall|i: int| 0 <= i < s.len() ==> is_digit(s[i])
}

/// What parsing `s` as an unsigned 16-bit integer yields: an optional
/// leading plus sign, then one or more decimal digits denoting a value of
/// at most `u16::MAX`; anything else is rejected.
pub open spec fn parse_u16(s: Seq<char>) -> Option<u16> {
    let digits = if s.len() > 0 && s[0] == '+' {
        s.drop_first()
    } else {
        s
    };
    if digits.len() > 0 && all_digits(digits) && digits_value(digits) <= u16::MAX {
        Some(digits_value(digits) as u16)
    } else {
        None
    }
}

/// The event raised for one stdout line: the port from the line's last
/// token (trailing periods stripped) when the line contains the readiness
/// marker and that token parses as a port, and nothing otherwise.
pub open spec fn line_event(line: Seq<char>) -> Option<u16> {
    if contains_seq(line, marker()) {
        parse_u16(strip_trailing_dots(last_token(line)))
    } else {
        None
    }
}

/// The events raised over a whole stream of stdout lines, one per matching
/// line, in stream order.
pub open spec fn events_of(lines: Seq<Seq<char>>) -> Seq<u16>
    decreases lines.len(),
{
    if lines.len() == 0 {
        Seq::empty()
    } else {
        let rest = events_of(lines.drop_last());
        match line_event(lines.last()) {
            Some(p) => rest.push(p),
            None => rest,
        }
    }
}

/// Whether the marker occurs in `line` starting at position `i`.
fn marker_matches_at(line: &str, m: &str, i: usize) -> (b: bool)
    requires
        m@ == marker(),
        i + m@.len() <= line@.len(),
        line@.len() <= usize::MAX,
    ensures
        b == matches_at(line@, marker(), i as int),
{
    let k: usize = m.unicode_len();
    let mut j: usize = 0;
    while j < k
        invariant
            m@ == marker(),
            marker().len() == k,
            i + k <= line@.len(),
            line@.len() <= usize::MAX,
            j <= k,
            forall|t: int| 0 <= t < j ==> line@[i + t] == marker()[t],
        decreases k - j,
    {
        if line.get_char(i + j) != m.get_char(j) {
            proof {
                if matches_at(line@, marker(), i as int) {
                    assert(line@.subrange(i as int, i + k)[j as int] == line@[i + j]);
                }
            }
            return false;
        }
        j = j + 1;
    }
    proof {
        assert(line@.subrange(i as int, i + k) =~= marker());
    }
    true
}

/// Whether `line` contains the readiness marker.
pub fn contains_marker(line: &str) -> (b: bool)
    ensures
        b == contains_seq(line@, marker()),
{
    let m: &str = "Starting Sage Desktop Server on port";
    proof {
        reveal_strlit("Starting Sage Desktop Server on port");
    }
    let n: usize = line.unicode_len();
    let k: usize = m.unicode_len();
    if n < k {
        proof {
            assert forall|j: int| !matches_at(line@, marker(), j) by {
                assert(marker().len() == k);
            }
        }
        return false;
    }
    let mut i: usize = 0;
    while i <= n - k
        invariant
            line@.len() == n,
            marker().len() == k,
            m@ == marker(),
            1 <= k <= n,
            i <= n - k + 1,
            forall|j: int| 0 <= j < i ==> !matches_at(line@, marker(), j),
        decreases n - i,
    {
        if marker_matches_at(line, m, i) {
            return true;
        }
        i = i + 1;
    }
    proof {
        assert forall|j: int| !matches_at(line@, marker(), j) by {
            if 0 <= j && j + marker().len() <= line@.len() {
                assert(j < i);
            }
        }
    }
    false
}

/// Whether `c` is one of the whitespace characters.
fn is_space_char(c: char) -> (b: bool)
    ensures
        b == is_space(c),
{
    c == ' ' || c == '\t' || c == '\n' || c == '\r' || c == '\u{b}' || c == '\u{c}'
}

/// When everything from `start` to the end of `s` is non-whitespace and
/// `start` sits right after a whitespace character (or at the front), the
/// non-whitespace suffix of `s` is exactly that range.
proof fn lemma_nonspace_suffix_range(s: Seq<char>, start: int)
    requires
        0 <= start <= s.len(),
        forall|t: int| start <= t < s.len() ==> !is_space(s[t]),
        start == 0 || is_space(s[start - 1]),
    ensures
        nonspace_suffix(s) == s.subrange(start, s.len() as int),
    decreases s.len(),
{
    if s.len() == start {
        assert(nonspace_suffix(s) =~= s.subrange(start, s.len() as int));
    } else {
        lemma_nonspace_suffix_range(s.drop_last(), start);
        assert(s.drop_last().subrange(start, s.len() - 1) =~= s.subrange(start, s.len() - 1));
        assert(nonspace_suffix(s) =~= s.subrange(start, s.len() as int));
    }
}

/// Trailing whitespace does not change the last token.
proof fn lemma_last_token_trim(s: Seq<char>, e: int)
    requires
        0 <= e <= s.len(),
        forall|t: int| e <= t < s.len() ==> is_space(s[t]),
    ensures
        last_token(s) == last_token(s.take(e)),
    decreases s.len(),
{
    if s.len() == e {
        assert(s.take(e) =~= s);
    } else {
        lemma_last_token_trim(s.drop_last(), e);
        assert(s.drop_last().take(e) =~= s.take(e));
    }
}

/// A run of digits denotes a non-negative number.
proof fn lemma_digits_value_nonneg(s: Seq<char>)
    requires
        all_digits(s),
    ensures
        digits_value(s) >= 0,
    decreases s.len(),
{
    if s.len() > 0 {
        assert(all_digits(s.drop_last()));
        lemma_digits_value_nonneg(s.drop_last());
    }
}

/// Appending digits never shrinks the denoted number: the whole run
/// denotes at least as much as any prefix of it.
proof fn lemma_digits_value_prefix(s: Seq<char>, k: int)
    requires
        all_digits(s),
        0 <= k <= s.len(),
    ensures
        digits_value(s) >= digits_value(s.take(k)),
    decreases s.len(),
{
    if s.len() == k {
        assert(s.take(k) =~= s);
    } else {
        assert(all_digits(s.drop_last()));
        lemma_digits_value_prefix(s.drop_last(), k);
        assert(s.drop_last().take(k) =~= s.take(k));
        lemma_digits_value_nonneg(s.drop_last());
    }
}

/// Bounds of the last whitespace-delimited token of `line`, or `None` when
/// the line holds no non-whitespace character at all.
#[verifier::loop_isolation(false)]
fn token_bounds(line: &str) -> (r: Option<(usize, usize)>)
    ensures
        match r {
            Some(bounds) => {
                &&& bounds.0 < bounds.1 <= line@.len()
                &&& line@.subrange(bounds.0 as int, bounds.1 as int) == last_token(line@)
            },
            None => last_token(line@).len() == 0,
        },
{
    let n: usize = line.unicode_len();
    let mut end: usize = n;
    while end > 0 && is_space_char(line.get_char(end - 1))
        invariant
            end <= n,
            forall|t: int| end <= t < n ==> is_space(line@[t]),
        decreases end,
    {
        end = end - 1;
    }
    proof {
        lemma_last_token_trim(line@, end as int);
    }
    if end == 0 {
        proof {
            assert(line@.take(0) =~= Seq::<char>::empty());
        }
        return None;
    }
    let mut start: usize = end;
    while start > 0 && !is_space_char(line.get_char(start - 1))
        invariant
            start <= end,
            forall|t: int| start <= t < end ==> !is_space(line@[t]),
        decreases start,
    {
        start = start - 1;
    }
    proof {
        let te = line@.take(end as int);
        assert(te.last() == line@[end - 1]);
        lemma_nonspace_suffix_range(te, start as int);
        assert(te.subrange(start as int, end as int) =~= line@.subrange(
            start as int,
            end as int,
        ));
    }
    Some((start, end))
}

/// Parse the range `[start, end)` of `line` as an unsigned 16-bit integer,
/// as `parse_u16` describes.
#[verifier::loop_isolation(false)]
fn parse_u16_range(line: &str, start: usize, end: usize) -> (r: Option<u16>)
    requires
        start <= end <= line@.len(),
    ensures
        r == parse_u16(line@.subrange(start as int, end as int)),
{
    let ghost tok = line@.subrange(start as int, end as int);
    let mut ds: usize = start;
    if start < end && line.get_char(start) == '+' {
        ds = start + 1;
        proof {
            assert(tok[0] == '+');
            assert(tok.drop_first() =~= line@.subrange(ds as int, end as int));
        }
    } else {
        proof {
            if tok.len() > 0 {
                assert(tok[0] == line@[start as int]);
            }
        }
    }
    let ghost digits = line@.subrange(ds as int, end as int);
    if ds == end {
        proof {
            assert(digits =~= Seq::<char>::empty());
        }
        return None;
    }
    let mut val: u32 = 0;
    let mut i: usize = ds;
    while i < end
        invariant
            ds <= i <= end,
            val <= 65535,
            forall|t: int| ds <= t < i ==> is_digit(line@[t]),
            val == digits_value(line@.subrange(ds as int, i as int)),
        decreases end - i,
    {
        let c = line.get_char(i);
        let u: u32 = c as u32;
        if u < 48 || u > 57 {
            proof {
                assert(digits[i - ds] == line@[i as int]);
            }
            return None;
        }
        let d: u32 = u - 48;
        let nv: u32 = val * 10 + d;
        proof {
            assert(line@.subrange(ds as int, i + 1).drop_last() =~= line@.subrange(
                ds as int,
                i as int,
            ));
            assert(line@.subrange(ds as int, i + 1).last() == line@[i as int]);
            assert(digits_value(line@.subrange(ds as int, i + 1)) == val * 10 + d);
        }
        if nv > 65535 {
            proof {
                if all_digits(digits) {
                    lemma_digits_value_prefix(digits, i + 1 - ds);
                    assert(digits.take(i + 1 - ds) =~= line@.subrange(ds as int, i + 1));
                    assert(digits_value(digits) > 65535);
                }
            }
            return None;
        }
        val = nv;
        i = i + 1;
    }
    proof {
        assert(line@.subrange(ds as int, i as int) =~= digits);
    }
    Some(val as u16)
}

/// Examine one stdout line: the readiness event it raises, if any. A line
/// without the marker, or a matching line whose last token does not parse
/// as a port, raises nothing and is otherwise ignored.
#[verifier::loop_isolation(false)]
pub fn detect_line(line: &str) -> (r: Option<u16>)
    ensures
        r == line_event(line@),
{
    if !contains_marker(line) {
        return None;
    }
    match token_bounds(line) {
        None => {
            proof {
                assert(last_token(line@) =~= Seq::<char>::empty());
            }
            None
        },
        Some((start, end)) => {
            let mut e: usize = end;
            while e > start && line.get_char(e - 1) == '.'
                invariant
                    start <= e <= end,
                    strip_trailing_dots(line@.subrange(start as int, e as int))
                        == strip_trailing_dots(last_token(line@)),
                decreases e,
            {
                proof {
                    assert(line@.subrange(start as int, e as int).drop_last() =~= line@.subrange(
                        start as int,
                        e - 1,
                    ));
                    assert(line@.subrange(start as int, e as int).last() == line@[e - 1]);
                }
                e = e - 1;
            }
            proof {
                let stok = line@.subrange(start as int, e as int);
                if e > start {
                    assert(stok.last() == line@[e - 1]);
                } else {
                    assert(stok =~= Seq::<char>::empty());
                }
            }
            parse_u16_range(line, start, e)
        },
    }
}

/// Drain a whole stream of stdout lines: every line is examined in order,
/// and the returned events are exactly those of the matching lines, in
/// stream order. The scan never stops early: a line that raises no event is
/// ignored and the next one is read.
#[verifier::loop_isolation(false)]
pub fn scan_lines(lines: &Vec<String>) -> (events: Vec<u16>)
    ensures
        events@ == events_of(lines@.map_values(|l: String| l@)),
{
    let ghost vs = lines@.map_values(|l: String| l@);
    let mut events: Vec<u16> = Vec::new();
    let mut i: usize = 0;
    while i < lines.len()
        invariant
            i <= lines.len(),
            events@ == events_of(vs.take(i as int)),
        decreases lines.len() - i,
    {
        proof {
            assert(vs.take(i + 1).drop_last() =~= vs.take(i as int));
            assert(vs.take(i + 1).last() == lines@[i as int]@);
        }
        match detect_line(lines[i].as_str()) {
            Some(p) => events.push(p),
            None => {},
        }
        i = i + 1;
    }
    proof {
        assert(vs.take(lines.len() as int) =~= vs);
    }
    events
}

/// Parse a whole string as a port number, as `parse_u16` describes.
pub fn parse_port(s: &str) -> (r: Option<u16>)
    ensures
        r == parse_u16(s@),
{
    let n: usize = s.unicode_len();
    proof {
        assert(s@.subrange(0, n as int) =~= s@);
    }
    parse_u16_range(s, 0, n)
}

/// The synchronous readiness query: the proposed port, read from the value
/// of the port environment variable as it was set once before spawn — not
/// necessarily the port the backend actually bound, a discrepancy that is
/// kept on purpose. `None` when the variable is unset or its value does not
/// parse.
pub fn get_server_port(env_value: Option<&str>) -> (r: Option<u16>)
    ensures
        r == match env_value {
            Some(v) => parse_u16(v@),
            None => None::<u16>,
        },
{
    match env_value {
        Some(v) => parse_port(v),
        None => None,
    }
}

/// Detector law: a line that contains the readiness marker and whose last
/// token, once trailing periods are stripped, parses as port `p`, raises
/// exactly one event, with that port.
pub proof fn lemma_marker_line_emits(line: Seq<char>, p: u16)
    requires
        contains_seq(line, marker()),
        parse_u16(strip_trailing_dots(last_token(line))) == Some(p),
    ensures
        line_event(line) == Some(p),
{
}

/// Detector law: a line that contains the marker but whose last token does
/// not parse as a port raises no event; by the contract of `scan_lines` the
/// scan still goes on with the following lines.
pub proof fn lemma_unparseable_token_no_event(line: Seq<char>)
    requires
        contains_seq(line, marker()),
        parse_u16(strip_trailing_dots(last_token(line))) is None,
    ensures
        line_event(line) is None,
{
}

/// Detector law: a line without the marker raises no event, whatever else
/// it holds.
pub proof fn lemma_no_marker_no_event(line: Seq<char>)
    requires
        !contains_seq(line, marker()),
    ensures
        line_event(line) is None,
{
}

/// Detector law: over a stream in which every line raises an event, the
/// events come out one per line, in stream order.
pub proof fn lemma_events_in_order(lines: Seq<Seq<char>>, ports: Seq<u16>)
    requires
        lines.len() == ports.len(),
        forall|i: int| 0 <= i < lines.len() ==> line_event(lines[i]) == Some(ports[i]),
    ensures
        events_of(lines) == ports,
    decreases lines.len(),
{
    if lines.len() == 0 {
        assert(events_of(lines) =~= ports);
    } else {
        lemma_events_in_order(lines.drop_last(), ports.drop_last());
        assert(events_of(lines) =~= ports);
    }
}

} // verus!
