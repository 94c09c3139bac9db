//! The text the filesystem backend writes: the session's key-value record,
//! the two timestamp tables, and the artifacts meta text. The layout of
//! these files is part of the backend's external contract, so the rendering
//! is verified here; the surrounding runtime only writes the bytes out.

use vstd::prelude::*;
use vstd::string::StringExecFns;

use crate::fmt_util::{dec_digits, hex032, u128_to_hex032, u64_to_string};
use crate::recorder::CaptureArtifacts;
use crate::session::{Session, SessionView};
use crate::timefmt::{format_rfc3339_ms, renderable_ms, rfc3339_of};
use crate::types::{Direction, SessionStatus, StdioStream};

verus! {

/// The status names as stored.
pub open spec fn status_text(s: SessionStatus) -> Seq<char> {
    match s {
        SessionStatus::Pending => "Pending"@,
        SessionStatus::Active => "Active"@,
        SessionStatus::Completed => "Completed"@,
        SessionStatus::Error => "Error"@,
    }
}

/// Renders a session status as stored.
pub fn status_str(s: SessionStatus) -> (r: String)
    ensures
        r@ == status_text(s),
{
    match s {
        SessionStatus::Pending => String::from_str("Pending"),
        SessionStatus::Active => String::from_str("Active"),
        SessionStatus::Completed => String::from_str("Completed"),
        SessionStatus::Error => String::from_str("Error"),
    }
}

/// Whether every timestamp of the session lies in the renderer's range.
pub open spec fn session_renderable(sv: SessionView) -> bool {
    &&& renderable_ms(sv.start_time_ms)
    &&& match sv.end_time_ms {
        Some(t) => renderable_ms(t),
        None => true,
    }
}

/// The session's key-value record: one `key: value` line per field, times
/// as RFC 3339 text, the id in fixed-width hexadecimal.
pub open spec fn session_record_text(sv: SessionView) -> Seq<char> {
    "id: "@ + hex032(sv.id as int) + "\nservice_name: "@ + sv.service_name + "\nclient_addr: "@
        + sv.client_ip + ":"@ + dec_digits(sv.client_port as int) + "\nstart_time: "@
        + rfc3339_of(sv.start_time_ms as int) + "\nend_time: "@ + (match sv.end_time_ms {
        Some(t) => rfc3339_of(t as int),
        None => "none"@,
    }) + "\ncontainer_id: "@ + (match sv.container_id {
        Some(c) => c,
        None => "none"@,
    }) + "\nbytes_transferred: "@ + dec_digits(sv.bytes_transferred as int) + "\nstatus: "@
        + status_text(sv.status) + "\n"@
}

/// Renders a session's key-value record.
pub fn render_session_record(s: &Session) -> (r: String)
    requires
        session_renderable(s@),
    ensures
        r@ == session_record_text(s@),
{
    let mut out = String::from_str("id: ");
    let id_text = u128_to_hex032(s.id);
    out.append(id_text.as_str());
    out.append("\nservice_name: ");
    out.append(s.service_name.as_str());
    out.append("\nclient_addr: ");
    out.append(s.client_ip.as_str());
    out.append(":");
    let port_text = u64_to_string(s.client_port as u64);
    out.append(port_text.as_str());
    out.append("\nstart_time: ");
    let start_text = format_rfc3339_ms(s.start_time_ms);
    out.append(start_text.as_str());
    out.append("\nend_time: ");
    match s.end_time_ms {
        Some(t) => {
            let end_text = format_rfc3339_ms(t);
            out.append(end_text.as_str());
        },
        None => {
            out.append("none");
        },
    }
    out.append("\ncontainer_id: ");
    match &s.container_id {
        Some(c) => {
            out.append(c.as_str());
        },
        None => {
            out.append("none");
        },
    }
    out.append("\nbytes_transferred: ");
    let bytes_text = u64_to_string(s.bytes_transferred);
    out.append(bytes_text.as_str());
    out.append("\nstatus: ");
    let status_text_r = status_str(s.status);
    out.append(status_text_r.as_str());
    out.append("\n");
    proof {
        assert(out@ =~= session_record_text(s@));
    }
    out
}

/// The stored name of a TCP flow direction.
pub open spec fn direction_text(d: Direction) -> Seq<char> {
    match d {
        Direction::ClientToContainer => "C2S"@,
        Direction::ContainerToClient => "S2C"@,
    }
}

/// The stored name of a stdio stream.
pub open spec fn stream_text(s: StdioStream) -> Seq<char> {
    match s {
        StdioStream::Stdin => "Stdin"@,
        StdioStream::Stdout => "Stdout"@,
        StdioStream::Stderr => "Stderr"@,
    }
}

/// One line of the TCP timestamp table.
pub open spec fn tcp_csv_line(e: (i64, Direction, usize)) -> Seq<char> {
    rfc3339_of(e.0 as int) + ", "@ + direction_text(e.1) + ", "@ + dec_digits(e.2 as int)
        + "\n"@
}

/// The first `k` lines of the TCP timestamp table.
pub open spec fn tcp_csv_lines(ts: Seq<(i64, Direction, usize)>, k: int) -> Seq<char>
    decreases k,
{
    if k <= 0 {
        Seq::empty()
    } else {
        tcp_csv_lines(ts, k - 1) + tcp_csv_line(ts[k - 1])
    }
}

/// Renders the TCP timestamp table, one line per recorded chunk, in order.
pub fn render_tcp_timestamps(ts: &Vec<(i64, Direction, usize)>) -> (r: String)
    requires
        forall|i: int| 0 <= i < ts@.len() ==> renderable_ms((#[trigger] ts@[i]).0),
    ensures
        r@ == tcp_csv_lines(ts@, ts@.len() as int),
{
    let mut out = String::new();
    let mut i: usize = 0;
    proof {
        assert(out@ =~= tcp_csv_lines(ts@, 0));
    }
    while i < ts.len()
        invariant
            i <= ts@.len(),
            forall|j: int| 0 <= j < ts@.len() ==> renderable_ms((#[trigger] ts@[j]).0),
            out@ == tcp_csv_lines(ts@, i as int),
        decreases ts@.len() - i,
    {
        let (t, d, n) = ts[i];
        let time_text = format_rfc3339_ms(t);
        out.append(time_text.as_str());
        out.append(", ");
        match d {
            Direction::ClientToContainer => out.append("C2S"),
            Direction::ContainerToClient => out.append("S2C"),
        }
        out.append(", ");
        let n_text = u64_to_string(n as u64);
        out.append(n_text.as_str());
        out.append("\n");
        i = i + 1;
        proof {
            assert(out@ =~= tcp_csv_lines(ts@, i as int));
        }
    }
    out
}

/// One line of the stdio timestamp table.
pub open spec fn stdio_csv_line(e: (i64, StdioStream, usize)) -> Seq<char> {
    rfc3339_of(e.0 as int) + ", "@ + stream_text(e.1) + ", "@ + dec_digits(e.2 as int) + "\n"@
}

/// The first `k` lines of the stdio timestamp table.
pub open spec fn stdio_csv_lines(ts: Seq<(i64, StdioStream, usize)>, k: int) -> Seq<char>
    decreases k,
{
    if k <= 0 {
        Seq::empty()
    } else {
        stdio_csv_lines(ts, k - 1) + stdio_csv_line(ts[k - 1])
    }
}

/// Renders the stdio timestamp table, one line per chunk, in order.
pub fn render_stdio_timestamps(ts: &Vec<(i64, StdioStream, usize)>) -> (r: String)
    requires
        forall|i: int| 0 <= i < ts@.len() ==> renderable_ms((#[trigger] ts@[i]).0),
    ensures
        r@ == stdio_csv_lines(ts@, ts@.len() as int),
{
    let mut out = String::new();
    let mut i: usize = 0;
    proof {
        assert(out@ =~= stdio_csv_lines(ts@, 0));
    }
    while i < ts.len()
        invariant
            i <= ts@.len(),
            forall|j: int| 0 <= j < ts@.len() ==> renderable_ms((#[trigger] ts@[j]).0),
            out@ == stdio_csv_lines(ts@, i as int),
        decreases ts@.len() - i,
    {
        let (t, s, n) = ts[i];
        let time_text = format_rfc3339_ms(t);
        out.append(time_text.as_str());
        out.append(", ");
        match s {
            StdioStream::Stdin => out.append("Stdin"),
            StdioStream::Stdout => out.append("Stdout"),
            StdioStream::Stderr => out.append("Stderr"),
        }
        out.append(", ");
        let n_text = u64_to_string(n as u64);
        out.append(n_text.as_str());
        out.append("\n");
        i = i + 1;
        proof {
            assert(out@ =~= stdio_csv_lines(ts@, i as int));
        }
    }
    out
}

/// The artifacts meta text: the session id, the byte total, and the
/// capture duration.
pub open spec fn artifacts_meta_text(id: int, total_bytes: int, duration_ms: int) -> Seq<char> {
    "session_id: "@ + hex032(id) + "\ntotal_bytes: "@ + dec_digits(total_bytes)
        + "\nduration_ms: "@ + dec_digits(duration_ms) + "\n"@
}

/// Renders the artifacts meta text.
pub fn render_artifacts_meta(a: &CaptureArtifacts) -> (r: String)
    requires
        a.duration_ms >= 0,
    ensures
        r@ == artifacts_meta_text(
            a.session_id as int,
            a.total_bytes as int,
            a.duration_ms as int,
        ),
{
    let mut out = String::from_str("session_id: ");
    let id_text = u128_to_hex032(a.session_id);
    out.append(id_text.as_str());
    out.append("\ntotal_bytes: ");
    let total_text = u64_to_string(a.total_bytes);
    out.append(total_text.as_str());
    out.append("\nduration_ms: ");
    let duration_text = u64_to_string(a.duration_ms as u64);
    out.append(duration_text.as_str());
    out.append("\n");
    proof {
        assert(out@ =~= artifacts_meta_text(
            a.session_id as int,
            a.total_bytes as int,
            a.duration_ms as int,
        ));
    }
    out
}

} // verus!
