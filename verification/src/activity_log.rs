//! Parser for the unified container activity log.
//!
//! The log is a line-oriented byte stream. A data line has the shape
//! `'[' timestamp ']' ' ' '[' SERVICE ']' ' ' '[' STREAM ']' ' ' content`
//! with STREAM one of `STDIN`, `STDOUT`, `STDERR`. Lines that do not match
//! (session-management tags, header lines starting with `=== `, malformed
//! lines) are ignored for byte-stream purposes.

use vstd::prelude::*;

use crate::types::StdioStream;

verus! {

pub open spec fn is_space(b: u8) -> bool {
    b == 32 || b == 9
}

/// Index of the first occurrence of `b` in `s` at or after `from`, or -1.
pub open spec fn find_byte(s: Seq<u8>, b: u8, from: int) -> int
    decreases s.len() - from,
{
    if from < 0 || from >= s.len() {
        -1
    } else if s[from] == b {
        from
    } else {
        find_byte(s, b, from + 1)
    }
}

/// Index of the first non-space byte of `s` at or after `from`, or `s.len()`.
pub open spec fn skip_spaces(s: Seq<u8>, from: int) -> int
    decreases s.len() - from,
{
    if from < 0 || from >= s.len() {
        s.len() as int
    } else if is_space(s[from]) {
        skip_spaces(s, from + 1)
    } else {
        from
    }
}

pub open spec fn stdin_tag() -> Seq<u8> {
    seq![83u8, 84u8, 68u8, 73u8, 78u8]
}

pub open spec fn stdout_tag() -> Seq<u8> {
    seq![83u8, 84u8, 68u8, 79u8, 85u8, 84u8]
}

pub open spec fn stderr_tag() -> Seq<u8> {
    seq![83u8, 84u8, 68u8, 69u8, 82u8, 82u8]
}

/// `=== ` prefix that marks a header line.
pub open spec fn header_prefix() -> Seq<u8> {
    seq![61u8, 61u8, 61u8, 32u8]
}

pub open spec fn is_header_line(line: Seq<u8>) -> bool {
    line.len() >= 4 && line.subrange(0, 4) == header_prefix()
}

pub open spec fn stream_of_tag(tag: Seq<u8>) -> Option<StdioStream> {
    if tag == stdin_tag() {
        Some(StdioStream::Stdin)
    } else if tag == stdout_tag() {
        Some(StdioStream::Stdout)
    } else if tag == stderr_tag() {
        Some(StdioStream::Stderr)
    } else {
        None
    }
}

/// Mathematical model of parsing one log line: the stream it addresses and
/// the start of its content, or `None` for a line that carries no stdio data.
pub open spec fn parse_activity_line(line: Seq<u8>) -> Option<(StdioStream, int)> {
    if is_header_line(line) {
        None
    } else {
        let c0 = find_byte(line, 93, 0);
        if c0 < 0 {
            None
        } else {
            let p1 = skip_spaces(line, c0 + 1);
            if !(p1 < line.len() && line[p1] == 91) {
                None
            } else {
                let c1 = find_byte(line, 93, p1);
                if c1 < 0 {
                    None
                } else {
                    let p2 = skip_spaces(line, c1 + 1);
                    if !(p2 < line.len() && line[p2] == 91) {
                        None
                    } else {
                        let c2 = find_byte(line, 93, p2);
                        if c2 < 0 {
                            None
                        } else {
                            let tag = line.subrange(p2 + 1, c2);
                            match stream_of_tag(tag) {
                                Some(s) => Some((s, skip_spaces(line, c2 + 1))),
                                None => None,
                            }
                        }
                    }
                }
            }
        }
    }
}

/// Content bytes of a data line: everything from the content start to the
/// end of the line.
pub open spec fn line_content(line: Seq<u8>) -> Seq<u8>
    recommends parse_activity_line(line) is Some,
{
    line.subrange(parse_activity_line(line)->Some_0.1, line.len() as int)
}

/// First position of `b` in `s` at or after `from`, if any.
pub fn exec_find_byte(s: &[u8], b: u8, from: usize) -> (r: Option<usize>)
    ensures
        match r {
            Some(i) => from <= i < s@.len() && find_byte(s@, b, from as int) == i,
            None => find_byte(s@, b, from as int) == -1,
        },
{
    let mut i = from;
    while i < s.len()
        invariant
            from <= i,
            find_byte(s@, b, from as int) == find_byte(s@, b, i as int),
        decreases s@.len() - i,
    {
        if s[i] == b {
            return Some(i);
        }
        i = i + 1;
    }
    None
}

/// The first occurrence found is never before `from`.
proof fn lemma_find_byte_bounds(s: Seq<u8>, b: u8, from: int)
    ensures
        find_byte(s, b, from) == -1 || (from <= find_byte(s, b, from) < s.len()),
    decreases s.len() - from,
{
    if 0 <= from < s.len() && s[from] != b {
        lemma_find_byte_bounds(s, b, from + 1);
    }
}

fn exec_skip_spaces(s: &[u8], from: usize) -> (r: usize)
    requires
        from <= s@.len(),
    ensures
        r == skip_spaces(s@, from as int),
        from <= r <= s@.len(),
{
    let mut i = from;
    while i < s.len()
        invariant
            from <= i <= s@.len(),
            skip_spaces(s@, from as int) == skip_spaces(s@, i as int),
        decreases s@.len() - i,
    {
        if !(s[i] == 32 || s[i] == 9) {
            return i;
        }
        i = i + 1;
    }
    s.len()
}

/// Parse one line; on a data line, return its stream and the index where
/// the content starts.
pub fn parse_line(line: &[u8]) -> (r: Option<(StdioStream, usize)>)
    ensures
        match r {
            Some((s, start)) => {
                &&& parse_activity_line(line@) == Some((s, start as int))
                &&& 0 < start <= line@.len()
            },
            None => parse_activity_line(line@) is None,
        },
{
    // Header lines such as "=== Container ... ===" are ignored.
    if line.len() >= 4 && line[0] == 61 && line[1] == 61 && line[2] == 61 && line[3] == 32 {
        proof {
            assert(line@.subrange(0, 4) =~= header_prefix());
        }
        return None;
    }
    proof {
        assert(!is_header_line(line@)) by {
            if line@.len() >= 4 && line@.subrange(0, 4) == header_prefix() {
                assert(line@[0] == header_prefix()[0]);
                assert(line@[1] == header_prefix()[1]);
                assert(line@[2] == header_prefix()[2]);
                assert(line@[3] == header_prefix()[3]);
            }
        }
    }
    // Leading "[timestamp]" tag.
    let c0 = match exec_find_byte(line, 93, 0) {
        Some(i) => i,
        None => {
            return None;
        },
    };
    let p1 = exec_skip_spaces(line, c0 + 1);
    if !(p1 < line.len() && line[p1] == 91) {
        return None;
    }
    // "[SERVICE]" tag.
    let c1 = match exec_find_byte(line, 93, p1) {
        Some(i) => i,
        None => {
            return None;
        },
    };
    let p2 = exec_skip_spaces(line, c1 + 1);
    if !(p2 < line.len() && line[p2] == 91) {
        return None;
    }
    // "[STREAM]" tag.
    let c2 = match exec_find_byte(line, 93, p2) {
        Some(i) => i,
        None => {
            return None;
        },
    };
    proof {
        // line[p2] is '[', not ']', so the closing bracket lies strictly after p2.
        assert(find_byte(line@, 93, p2 as int) == find_byte(line@, 93, p2 as int + 1));
        lemma_find_byte_bounds(line@, 93, p2 as int + 1);
    }
    let stream = match tag_to_stream(line, p2 + 1, c2) {
        Some(s) => s,
        None => {
            return None;
        },
    };
    let start = exec_skip_spaces(line, c2 + 1);
    Some((stream, start))
}

/// The tag bytes of a stream.
pub open spec fn tag_of_stream(s: StdioStream) -> Seq<u8> {
    match s {
        StdioStream::Stdin => stdin_tag(),
        StdioStream::Stdout => stdout_tag(),
        StdioStream::Stderr => stderr_tag(),
    }
}

/// The rendered form of one data line:
/// `'[' ts ']' ' ' '[' service ']' ' ' '[' STREAM ']' ' ' content`.
pub open spec fn rendered_line(
    ts: Seq<u8>,
    service: Seq<u8>,
    stream: StdioStream,
    content: Seq<u8>,
) -> Seq<u8> {
    seq![91u8] + ts + seq![93u8, 32u8, 91u8] + service + seq![93u8, 32u8, 91u8] + tag_of_stream(
        stream,
    ) + seq![93u8, 32u8] + content
}

/// A timestamp or service tag that the renderer may embed: free of the
/// closing bracket and of line breaks.
pub open spec fn tag_text_ok(t: Seq<u8>) -> bool {
    forall|j: int| 0 <= j < t.len() ==> t[j] != 93 && t[j] != 10
}

/// Content the renderer may embed: it does not begin with blank space (the
/// parser strips it) and holds no line break or trailing carriage return.
pub open spec fn content_ok(c: Seq<u8>) -> bool {
    &&& c.len() > 0 ==> !is_space(c[0])
    &&& forall|j: int| 0 <= j < c.len() ==> c[j] != 10
    &&& c.len() > 0 ==> c.last() != 13
}

/// `find_byte` returns the position of the first occurrence.
proof fn lemma_find_byte_first(s: Seq<u8>, b: u8, from: int, i: int)
    requires
        0 <= from <= i < s.len(),
        s[i] == b,
        forall|j: int| from <= j < i ==> s[j] != b,
    ensures
        find_byte(s, b, from) == i,
    decreases i - from,
{
    if from < i {
        lemma_find_byte_first(s, b, from + 1, i);
    }
}

/// `skip_spaces` stops at the first non-space position.
proof fn lemma_skip_spaces_stops(s: Seq<u8>, from: int, i: int)
    requires
        0 <= from <= i <= s.len(),
        forall|j: int| from <= j < i ==> is_space(s[j]),
        i < s.len() ==> !is_space(s[i]),
    ensures
        skip_spaces(s, from) == i,
    decreases i - from,
{
    if from < i {
        lemma_skip_spaces_stops(s, from + 1, i);
    }
}

/// Parsing inverts rendering: a rendered data line parses to its stream,
/// and its content is recovered exactly.
pub proof fn lemma_parse_rendered_line(
    ts: Seq<u8>,
    service: Seq<u8>,
    stream: StdioStream,
    content: Seq<u8>,
)
    requires
        tag_text_ok(ts),
        tag_text_ok(service),
        content.len() > 0 ==> !is_space(content[0]),
    ensures
        ({
            let line = rendered_line(ts, service, stream, content);
            let start = line.len() - content.len();
            parse_activity_line(line) == Some((stream, start as int)) && line_content(line)
                == content
        }),
{
    let line = rendered_line(ts, service, stream, content);
    let tag = tag_of_stream(stream);
    let c0 = 1 + ts.len() as int;
    let p1 = c0 + 2;
    let c1 = p1 + 1 + service.len() as int;
    let p2 = c1 + 2;
    let c2 = p2 + 1 + tag.len() as int;
    let start = c2 + 2;
    assert(line.len() == start + content.len());
    assert(line[0] == 91);
    assert(!is_header_line(line));
    assert forall|j: int| 0 <= j < c0 implies line[j] != 93 by {
        if j > 0 {
            assert(line[j] == ts[j - 1]);
        }
    }
    assert(line[c0] == 93);
    lemma_find_byte_first(line, 93, 0, c0);
    assert(is_space(line[c0 + 1]));
    assert(!is_space(line[p1]));
    lemma_skip_spaces_stops(line, c0 + 1, p1);
    assert(line[p1] == 91);
    assert forall|j: int| p1 <= j < c1 implies line[j] != 93 by {
        if j > p1 {
            assert(line[j] == service[j - p1 - 1]);
        }
    }
    assert(line[c1] == 93);
    lemma_find_byte_first(line, 93, p1, c1);
    assert(is_space(line[c1 + 1]));
    assert(!is_space(line[p2]));
    lemma_skip_spaces_stops(line, c1 + 1, p2);
    assert(line[p2] == 91);
    assert forall|j: int| p2 <= j < c2 implies line[j] != 93 by {
        if j > p2 {
            assert(line[j] == tag[j - p2 - 1]);
            assert(tag[j - p2 - 1] != 93);
        }
    }
    assert(line[c2] == 93);
    lemma_find_byte_first(line, 93, p2, c2);
    assert(line.subrange(p2 + 1, c2) =~= tag);
    assert(stream_of_tag(tag) == Some(stream)) by {
        reveal_distinct_tags();
    }
    assert(is_space(line[c2 + 1]));
    if content.len() > 0 {
        assert(!is_space(line[start]));
    }
    lemma_skip_spaces_stops(line, c2 + 1, start);
    assert(parse_activity_line(line) == Some((stream, start)));
    assert(line_content(line) =~= content);
}

/// A serialized log: the lines, each terminated by a newline.
pub open spec fn rendered_log(lines: Seq<Seq<u8>>) -> Seq<u8>
    decreases lines.len(),
{
    if lines.len() == 0 {
        Seq::empty()
    } else {
        lines.first() + seq![10u8] + rendered_log(lines.drop_first())
    }
}

/// A line the serializer may emit: free of line breaks, with no trailing
/// carriage return.
pub open spec fn line_text_ok(l: Seq<u8>) -> bool {
    &&& forall|j: int| 0 <= j < l.len() ==> l[j] != 10
    &&& l.len() > 0 ==> l.last() != 13
}

/// Splitting a serialized log recovers exactly the lines that were
/// serialized.
pub proof fn lemma_split_rendered_log(lines: Seq<Seq<u8>>)
    requires
        forall|i: int| 0 <= i < lines.len() ==> line_text_ok(#[trigger] lines[i]),
    ensures
        crate::stdio_capture::split_lines(rendered_log(lines)) == lines,
    decreases lines.len(),
{
    if lines.len() == 0 {
        assert(crate::stdio_capture::split_lines(rendered_log(lines)) =~= lines);
    } else {
        let first = lines.first();
        let rest = lines.drop_first();
        let whole = rendered_log(lines);
        assert(line_text_ok(lines[0]));
        assert forall|j: int| 0 <= j < first.len() implies whole[j] != 10 by {
            assert(whole[j] == first[j]);
        }
        assert(whole[first.len() as int] == 10);
        lemma_find_byte_first(whole, 10, 0, first.len() as int);
        let i = first.len() as int;
        assert(whole.subrange(0, i) =~= first);
        assert(crate::stdio_capture::chop_cr(first) == first);
        assert(whole.subrange(i + 1, whole.len() as int) =~= rendered_log(rest));
        assert(forall|k: int| 0 <= k < rest.len() ==> line_text_ok(#[trigger] rest[k]));
        lemma_split_rendered_log(rest);
        assert(crate::stdio_capture::split_lines(whole) == seq![first]
            + crate::stdio_capture::split_lines(rendered_log(rest)));
        assert(crate::stdio_capture::split_lines(whole) =~= lines);
    }
}

/// The rendered lines of a sequence of data-line entries, each entry a
/// `(timestamp, service, stream, content)` tuple.
pub open spec fn rendered_lines(entries: Seq<(Seq<u8>, Seq<u8>, StdioStream, Seq<u8>)>) -> Seq<
    Seq<u8>,
> {
    entries.map_values(
        |e: (Seq<u8>, Seq<u8>, StdioStream, Seq<u8>)| rendered_line(e.0, e.1, e.2, e.3),
    )
}

/// Line `i` of the parsed serialization carries entry `i`'s stream and
/// content.
pub open spec fn entry_round_trips(
    entries: Seq<(Seq<u8>, Seq<u8>, StdioStream, Seq<u8>)>,
    i: int,
) -> bool {
    let parsed = crate::stdio_capture::split_lines(rendered_log(rendered_lines(entries)));
    &&& parse_activity_line(parsed[i]) is Some
    &&& parse_activity_line(parsed[i])->Some_0.0 == entries[i].2
    &&& line_content(parsed[i]) == entries[i].3
}

/// Law: serializing data-line entries into a log and parsing that log back
/// recovers every entry's stream and content, in order — so the multiset
/// of `(stream, content)` pairs is preserved.
pub proof fn lemma_log_round_trip(entries: Seq<(Seq<u8>, Seq<u8>, StdioStream, Seq<u8>)>)
    requires
        forall|i: int|
            0 <= i < entries.len() ==> {
                &&& tag_text_ok((#[trigger] entries[i]).0)
                &&& tag_text_ok(entries[i].1)
                &&& content_ok(entries[i].3)
            },
    ensures
        crate::stdio_capture::split_lines(rendered_log(rendered_lines(entries))).len()
            == entries.len(),
        forall|i: int| 0 <= i < entries.len() ==> #[trigger] entry_round_trips(entries, i),
{
    let lines = rendered_lines(entries);
    assert forall|i: int| 0 <= i < lines.len() implies line_text_ok(#[trigger] lines[i]) by {
        let e = entries[i];
        let l = rendered_line(e.0, e.1, e.2, e.3);
        assert(lines[i] == l);
        let tag = tag_of_stream(e.2);
        let start = l.len() - e.3.len();
        assert forall|j: int| 0 <= j < l.len() implies l[j] != 10 by {
            if j >= start {
                assert(l[j] == e.3[j - start]);
            }
        }
        if l.len() > 0 {
            if e.3.len() > 0 {
                assert(l.last() == e.3.last());
            } else {
                assert(l.last() == 32);
            }
        }
    }
    lemma_split_rendered_log(lines);
    assert forall|i: int| 0 <= i < entries.len() implies #[trigger] entry_round_trips(
        entries,
        i,
    ) by {
        let e = entries[i];
        lemma_parse_rendered_line(e.0, e.1, e.2, e.3);
    }
}

/// The three stream tags are pairwise distinct byte sequences.
proof fn reveal_distinct_tags()
    ensures
        stdin_tag() != stdout_tag(),
        stdin_tag() != stderr_tag(),
        stdout_tag() != stderr_tag(),
{
    assert(stdin_tag().len() == 5 && stdout_tag().len() == 6);
    assert(stdout_tag()[3] == 79u8 && stderr_tag()[3] == 69u8);
}

fn tag_to_stream(line: &[u8], lo: usize, hi: usize) -> (r: Option<StdioStream>)
    requires
        lo <= hi <= line@.len(),
    ensures
        r == stream_of_tag(line@.subrange(lo as int, hi as int)),
{
    let n = hi - lo;
    if n == 5 && line[lo] == 83 && line[lo + 1] == 84 && line[lo + 2] == 68 && line[lo + 3] == 73
        && line[lo + 4] == 78 {
        proof {
            assert(line@.subrange(lo as int, hi as int) =~= stdin_tag());
        }
        Some(StdioStream::Stdin)
    } else if n == 6 && line[lo] == 83 && line[lo + 1] == 84 && line[lo + 2] == 68 && line[lo + 3]
        == 79 && line[lo + 4] == 85 && line[lo + 5] == 84 {
        proof {
            assert(line@.subrange(lo as int, hi as int) =~= stdout_tag());
        }
        Some(StdioStream::Stdout)
    } else if n == 6 && line[lo] == 83 && line[lo + 1] == 84 && line[lo + 2] == 68 && line[lo + 3]
        == 69 && line[lo + 4] == 82 && line[lo + 5] == 82 {
        proof {
            assert(line@.subrange(lo as int, hi as int) =~= stderr_tag());
        }
        Some(StdioStream::Stderr)
    } else {
        proof {
            let tag = line@.subrange(lo as int, hi as int);
            assert(tag.len() == n);
            if tag == stdin_tag() {
                assert(tag[0] == 83u8 && tag[1] == 84u8 && tag[2] == 68u8 && tag[3] == 73u8
                    && tag[4] == 78u8);
            }
            if tag == stdout_tag() {
                assert(tag[0] == 83u8 && tag[1] == 84u8 && tag[2] == 68u8 && tag[3] == 79u8
                    && tag[4] == 85u8 && tag[5] == 84u8);
            }
            if tag == stderr_tag() {
                assert(tag[0] == 83u8 && tag[1] == 84u8 && tag[2] == 68u8 && tag[3] == 69u8
                    && tag[4] == 82u8 && tag[5] == 82u8);
            }
        }
        None
    }
}

} // verus!
