//! Accumulation of per-stream stdio buffers from the activity log.
//!
//! A `StdioCapture` owns the three reconstructed byte streams of one session
//! together with a timestamp series. Feeding it an activity log appends, for
//! every data line, the line's content plus a newline to the stream the line
//! addresses, and one `(time, stream, size)` entry to the series.

use vstd::prelude::*;
use vstd::slice::slice_subrange;

use crate::activity_log::{find_byte, parse_activity_line, parse_line};
use crate::types::StdioStream;

verus! {

/// Mathematical state of a stdio capture.
#[verifier::ext_equal]
pub ghost struct StdioModel {
    pub stdin: Seq<u8>,
    pub stdout: Seq<u8>,
    pub stderr: Seq<u8>,
    pub timestamps: Seq<(i64, StdioStream, usize)>,
}

/// State after one log line has been handled: a data line appends its
/// content plus `'\n'` to the addressed stream; any other line is ignored.
pub open spec fn line_step(m: StdioModel, line: Seq<u8>, now_ms: i64) -> StdioModel {
    match parse_activity_line(line) {
        Some((s, start)) => {
            let content = line.subrange(start, line.len() as int).push(10);
            let ts = m.timestamps.push((now_ms, s, content.len() as usize));
            match s {
                StdioStream::Stdin => StdioModel {
                    stdin: m.stdin + content,
                    timestamps: ts,
                    ..m
                },
                StdioStream::Stdout => StdioModel {
                    stdout: m.stdout + content,
                    timestamps: ts,
                    ..m
                },
                StdioStream::Stderr => StdioModel {
                    stderr: m.stderr + content,
                    timestamps: ts,
                    ..m
                },
            }
        },
        None => m,
    }
}

/// State after the first `k` of the given lines have been handled in order.
pub open spec fn log_fold(m: StdioModel, lines: Seq<Seq<u8>>, k: int, now_ms: i64) -> StdioModel
    decreases k,
{
    if k <= 0 {
        m
    } else {
        line_step(log_fold(m, lines, k - 1, now_ms), lines[k - 1], now_ms)
    }
}

/// A line with its trailing carriage return removed, as a CRLF-terminated
/// log yields the same lines as an LF-terminated one.
pub open spec fn chop_cr(l: Seq<u8>) -> Seq<u8> {
    if l.len() > 0 && l.last() == 13 {
        l.drop_last()
    } else {
        l
    }
}

/// The lines of a byte stream, split on `'\n'`; a final fragment without a
/// terminating newline still counts as a line.
pub open spec fn split_lines(s: Seq<u8>) -> Seq<Seq<u8>>
    decreases s.len(),
{
    if s.len() == 0 {
        Seq::empty()
    } else {
        let i = find_byte(s, 10, 0);
        if i < 0 || i >= s.len() {
            seq![chop_cr(s)]
        } else {
            seq![chop_cr(s.subrange(0, i))] + split_lines(s.subrange(i + 1, s.len() as int))
        }
    }
}

/// Finding a byte in a suffix is finding it in the whole, shifted.
proof fn lemma_find_byte_shift(s: Seq<u8>, b: u8, a: int, from: int)
    requires
        0 <= a <= s.len(),
        0 <= from,
    ensures
        find_byte(s.subrange(a, s.len() as int), b, from) == if find_byte(s, b, a + from) == -1 {
            -1
        } else {
            find_byte(s, b, a + from) - a
        },
    decreases s.len() - a - from,
{
    let suf = s.subrange(a, s.len() as int);
    if from >= suf.len() {
    } else {
        if suf[from] == b {
        } else {
            lemma_find_byte_shift(s, b, a, from + 1);
        }
    }
}

/// Reconstructed stdio streams of one session.
pub struct StdioCapture {
    /// Identifier of the session the capture belongs to.
    pub session_id: u128,
    /// Reconstructed STDIN bytes.
    pub stdin_data: Vec<u8>,
    /// Reconstructed STDOUT bytes.
    pub stdout_data: Vec<u8>,
    /// Reconstructed STDERR bytes.
    pub stderr_data: Vec<u8>,
    /// `(time, stream, size)` of every appended chunk, in append order.
    pub timestamps: Vec<(i64, StdioStream, usize)>,
}

impl StdioCapture {
    /// The mathematical state of this capture.
    pub open spec fn model(&self) -> StdioModel {
        StdioModel {
            stdin: self.stdin_data@,
            stdout: self.stdout_data@,
            stderr: self.stderr_data@,
            timestamps: self.timestamps@,
        }
    }

    /// Sum of the three stream lengths.
    pub open spec fn total_len(&self) -> int {
        self.stdin_data@.len() as int + self.stdout_data@.len() as int
            + self.stderr_data@.len() as int
    }

    /// Creates an empty capture for `session_id`.
    pub fn new(session_id: u128) -> (r: Self)
        ensures
            r.session_id == session_id,
            r.model() == (StdioModel {
                stdin: Seq::<u8>::empty(),
                stdout: Seq::<u8>::empty(),
                stderr: Seq::<u8>::empty(),
                timestamps: Seq::<(i64, StdioStream, usize)>::empty(),
            }),
    {
        let r = StdioCapture {
            session_id,
            stdin_data: Vec::new(),
            stdout_data: Vec::new(),
            stderr_data: Vec::new(),
            timestamps: Vec::new(),
        };
        proof {
            assert(r.model() =~= StdioModel {
                stdin: Seq::<u8>::empty(),
                stdout: Seq::<u8>::empty(),
                stderr: Seq::<u8>::empty(),
                timestamps: Seq::<(i64, StdioStream, usize)>::empty(),
            });
        }
        r
    }

    /// Handles one log line.
    pub fn parse_log_line(&mut self, line: &[u8], now_ms: i64)
        ensures
            final(self).session_id == old(self).session_id,
            final(self).model() == line_step(old(self).model(), line@, now_ms),
    {
        match parse_line(line) {
            None => {},
            Some((s, start)) => {
                let content = slice_subrange(line, start, line.len());
                let n = line.len() - start + 1;
                match s {
                    StdioStream::Stdin => {
                        self.stdin_data.extend_from_slice(content);
                        self.stdin_data.push(10);
                    },
                    StdioStream::Stdout => {
                        self.stdout_data.extend_from_slice(content);
                        self.stdout_data.push(10);
                    },
                    StdioStream::Stderr => {
                        self.stderr_data.extend_from_slice(content);
                        self.stderr_data.push(10);
                    },
                }
                self.timestamps.push((now_ms, s, n));
                proof {
                    let m = line_step(old(self).model(), line@, now_ms);
                    assert(self.model().stdin =~= m.stdin);
                    assert(self.model().stdout =~= m.stdout);
                    assert(self.model().stderr =~= m.stderr);
                    assert(self.model().timestamps =~= m.timestamps);
                    assert(self.model() =~= m);
                }
            },
        }
    }

    /// Parses a whole activity log, handling its lines in order.
    pub fn capture_activity_log(&mut self, log: &[u8], now_ms: i64)
        ensures
            final(self).session_id == old(self).session_id,
            final(self).model() == log_fold(
                old(self).model(),
                split_lines(log@),
                split_lines(log@).len() as int,
                now_ms,
            ),
    {
        let ghost lines = split_lines(log@);
        let ghost m0 = old(self).model();
        let mut pos: usize = 0;
        let ghost mut k: int = 0;
        proof {
            assert(log@.subrange(0, log@.len() as int) =~= log@);
            assert(lines.subrange(0, lines.len() as int) =~= lines);
        }
        while pos < log.len()
            invariant
                pos <= log@.len(),
                0 <= k <= lines.len(),
                self.session_id == old(self).session_id,
                self.model() == log_fold(m0, lines, k, now_ms),
                lines == split_lines(log@),
                lines.subrange(k, lines.len() as int) == split_lines(
                    log@.subrange(pos as int, log@.len() as int),
                ),
            decreases log@.len() - pos,
        {
            let ghost suffix = log@.subrange(pos as int, log@.len() as int);
            proof {
                lemma_find_byte_shift(log@, 10, pos as int, 0);
            }
            let (line_end, next_pos): (usize, usize) = match crate::activity_log::exec_find_byte(
                log,
                10,
                pos,
            ) {
                Some(i) => (i, i + 1),
                None => (log.len(), log.len()),
            };
            // Drop a carriage return that precedes the newline.
            let content_end: usize = if line_end > pos && log[line_end - 1] == 13 {
                line_end - 1
            } else {
                line_end
            };
            let line = slice_subrange(log, pos, content_end);
            let ghost tail = log@.subrange(next_pos as int, log@.len() as int);
            proof {
                assert(suffix.len() > 0);
                // The raw first line of the suffix equals log[pos..line_end],
                // and its chopped form equals log[pos..content_end] == line@.
                assert(chop_cr(log@.subrange(pos as int, line_end as int)) =~= log@.subrange(
                    pos as int,
                    content_end as int,
                ));
                if next_pos > line_end {
                    // A newline was found at line_end.
                    let i = find_byte(suffix, 10, 0);
                    assert(i == line_end - pos);
                    assert(split_lines(suffix) == seq![chop_cr(suffix.subrange(0, i))]
                        + split_lines(suffix.subrange(i + 1, suffix.len() as int)));
                    assert(suffix.subrange(0, i) =~= log@.subrange(pos as int, line_end as int));
                    assert(suffix.subrange(i + 1, suffix.len() as int) =~= tail);
                    assert(split_lines(suffix) == seq![line@] + split_lines(tail));
                } else {
                    assert(find_byte(suffix, 10, 0) == -1);
                    assert(split_lines(suffix) == seq![chop_cr(suffix)]);
                    assert(suffix =~= log@.subrange(pos as int, line_end as int));
                    assert(tail =~= Seq::<u8>::empty());
                    assert(split_lines(suffix) == seq![line@] + split_lines(tail));
                }
                assert(lines.subrange(k, lines.len() as int) == seq![line@] + split_lines(tail));
                assert(lines.len() - k == 1 + split_lines(tail).len());
                assert((seq![line@] + split_lines(tail))[0] == line@);
                assert(lines.subrange(k, lines.len() as int)[0] == lines[k + 0]);
                assert(lines[k] == line@);
            }
            self.parse_log_line(line, now_ms);
            pos = next_pos;
            proof {
                let ghost k0 = k;
                k = k + 1;
                let rest = split_lines(tail);
                assert(lines.subrange(k0, lines.len() as int) == seq![line@] + rest);
                assert(lines.subrange(k0, lines.len() as int).len() == lines.len() - k0);
                assert((seq![line@] + rest).len() == 1 + rest.len());
                assert(lines.len() - k0 == 1 + rest.len());
                assert forall|j: int| 0 <= j < rest.len() implies lines[k0 + 1 + j] == rest[j] by {
                    assert(lines.subrange(k0, lines.len() as int)[j + 1] == lines[k0 + (j + 1)]);
                    assert((seq![line@] + rest)[j + 1] == rest[j]);
                }
                assert(lines.subrange(k, lines.len() as int) =~= rest);
            }
        }
        proof {
            assert(log@.subrange(pos as int, log@.len() as int) =~= Seq::<u8>::empty());
            assert(lines.subrange(k, lines.len() as int) =~= Seq::<Seq<u8>>::empty());
            assert(k == lines.len());
        }
    }

    /// Returns copies of the three stream buffers and the timestamp series.
    pub fn get_artifacts(&self) -> (r: (Vec<u8>, Vec<u8>, Vec<u8>, Vec<(i64, StdioStream, usize)>))
        ensures
            r.0@ == self.stdin_data@,
            r.1@ == self.stdout_data@,
            r.2@ == self.stderr_data@,
            r.3@ == self.timestamps@,
    {
        (
            copy_bytes(&self.stdin_data),
            copy_bytes(&self.stdout_data),
            copy_bytes(&self.stderr_data),
            copy_stdio_timestamps(&self.timestamps),
        )
    }
}

/// Byte-for-byte copy of a buffer.
pub fn copy_bytes(v: &Vec<u8>) -> (r: Vec<u8>)
    ensures
        r@ == v@,
{
    let mut r: Vec<u8> = Vec::new();
    let mut i: usize = 0;
    while i < v.len()
        invariant
            i <= v@.len(),
            r@ == v@.subrange(0, i as int),
        decreases v@.len() - i,
    {
        r.push(v[i]);
        i = i + 1;
        proof {
            assert(r@ =~= v@.subrange(0, i as int));
        }
    }
    proof {
        assert(r@ =~= v@);
    }
    r
}

/// Entry-for-entry copy of a stdio timestamp series.
pub fn copy_stdio_timestamps(v: &Vec<(i64, StdioStream, usize)>) -> (r: Vec<
    (i64, StdioStream, usize),
>)
    ensures
        r@ == v@,
{
    let mut r: Vec<(i64, StdioStream, usize)> = Vec::new();
    let mut i: usize = 0;
    while i < v.len()
        invariant
            i <= v@.len(),
            r@ == v@.subrange(0, i as int),
        decreases v@.len() - i,
    {
        r.push(v[i]);
        i = i + 1;
        proof {
            assert(r@ =~= v@.subrange(0, i as int));
        }
    }
    proof {
        assert(r@ =~= v@);
    }
    r
}

} // verus!
