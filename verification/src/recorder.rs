//! Per-session capture orchestration.
//!
//! A `StreamRecorder` owns the TCP capture and the optional stdio capture of
//! one session and aggregates them, at finalization, into a write-once
//! `CaptureArtifacts` record whose `total_bytes` is exactly the sum of the
//! five captured byte-stream lengths.

use vstd::prelude::*;

use crate::stdio_capture::{StdioCapture, StdioModel, log_fold, split_lines};
use crate::tcp_capture::TcpCapture;
use crate::types::{Direction, StdioStream};

verus! {

/// Aggregated capture artifacts persisted after a session completes.
pub struct CaptureArtifacts {
    /// The related session identifier.
    pub session_id: u128,
    /// Raw TCP payload captured from client to container.
    pub tcp_client_to_container: Vec<u8>,
    /// Raw TCP payload captured from container to client.
    pub tcp_container_to_client: Vec<u8>,
    /// Reconstructed stdin bytes.
    pub stdio_stdin: Vec<u8>,
    /// Reconstructed stdout bytes.
    pub stdio_stdout: Vec<u8>,
    /// Reconstructed stderr bytes.
    pub stdio_stderr: Vec<u8>,
    /// Timestamped sizes of the forwarded TCP chunks.
    pub tcp_timestamps: Vec<(i64, Direction, usize)>,
    /// Timestamped sizes of the reconstructed stdio chunks.
    pub stdio_timestamps: Vec<(i64, StdioStream, usize)>,
    /// Total number of bytes captured across the five streams.
    pub total_bytes: u64,
    /// Capture duration in milliseconds.
    pub duration_ms: i64,
}

/// Mathematical view of a capture artifacts record.
#[verifier::ext_equal]
pub ghost struct ArtifactsView {
    pub session_id: u128,
    pub tcp_client_to_container: Seq<u8>,
    pub tcp_container_to_client: Seq<u8>,
    pub stdio_stdin: Seq<u8>,
    pub stdio_stdout: Seq<u8>,
    pub stdio_stderr: Seq<u8>,
    pub tcp_timestamps: Seq<(i64, Direction, usize)>,
    pub stdio_timestamps: Seq<(i64, StdioStream, usize)>,
    pub total_bytes: u64,
    pub duration_ms: i64,
}

impl View for CaptureArtifacts {
    type V = ArtifactsView;

    open spec fn view(&self) -> ArtifactsView {
        ArtifactsView {
            session_id: self.session_id,
            tcp_client_to_container: self.tcp_client_to_container@,
            tcp_container_to_client: self.tcp_container_to_client@,
            stdio_stdin: self.stdio_stdin@,
            stdio_stdout: self.stdio_stdout@,
            stdio_stderr: self.stdio_stderr@,
            tcp_timestamps: self.tcp_timestamps@,
            stdio_timestamps: self.stdio_timestamps@,
            total_bytes: self.total_bytes,
            duration_ms: self.duration_ms,
        }
    }
}

impl CaptureArtifacts {
    /// A field-for-field copy of the record.
    pub fn duplicate(&self) -> (r: CaptureArtifacts)
        ensures
            r@ == self@,
    {
        let r = CaptureArtifacts {
            session_id: self.session_id,
            tcp_client_to_container: crate::stdio_capture::copy_bytes(
                &self.tcp_client_to_container,
            ),
            tcp_container_to_client: crate::stdio_capture::copy_bytes(
                &self.tcp_container_to_client,
            ),
            stdio_stdin: crate::stdio_capture::copy_bytes(&self.stdio_stdin),
            stdio_stdout: crate::stdio_capture::copy_bytes(&self.stdio_stdout),
            stdio_stderr: crate::stdio_capture::copy_bytes(&self.stdio_stderr),
            tcp_timestamps: crate::tcp_capture::copy_tcp_timestamps(&self.tcp_timestamps),
            stdio_timestamps: crate::stdio_capture::copy_stdio_timestamps(&self.stdio_timestamps),
            total_bytes: self.total_bytes,
            duration_ms: self.duration_ms,
        };
        proof {
            assert(r@ =~= self@);
        }
        r
    }

    /// Sum of the five captured byte-stream lengths.
    pub open spec fn stream_total(&self) -> int {
        self.tcp_client_to_container@.len() as int + self.tcp_container_to_client@.len() as int
            + self.stdio_stdin@.len() as int + self.stdio_stdout@.len() as int
            + self.stdio_stderr@.len() as int
    }

    /// The record accounts for exactly the bytes it carries.
    pub open spec fn consistent(&self) -> bool {
        self.total_bytes == self.stream_total()
    }
}

/// Owns the capture state of one session.
pub struct StreamRecorder {
    /// Identifier of the session being recorded.
    pub session_id: u128,
    /// TCP capture of both proxy directions.
    pub tcp: TcpCapture,
    /// Stdio capture, created on first use.
    pub stdio: Option<StdioCapture>,
    /// Wall-clock start of the recording, milliseconds since the epoch.
    pub start_time_ms: i64,
}

impl StreamRecorder {
    /// The stdio state, an empty model while no stdio was captured.
    pub open spec fn stdio_model(&self) -> StdioModel {
        match self.stdio {
            Some(c) => c.model(),
            None => StdioModel {
                stdin: Seq::<u8>::empty(),
                stdout: Seq::<u8>::empty(),
                stderr: Seq::<u8>::empty(),
                timestamps: Seq::<(i64, StdioStream, usize)>::empty(),
            },
        }
    }

    /// Sum of the five captured byte-stream lengths.
    pub open spec fn total_capture_len(&self) -> int {
        self.tcp.total_len() + self.stdio_model().stdin.len() + self.stdio_model().stdout.len()
            + self.stdio_model().stderr.len()
    }

    /// The recorder belongs to one session throughout, and its TCP capture
    /// accounts for itself.
    pub open spec fn wf(&self) -> bool {
        &&& self.tcp.wf()
        &&& self.tcp.session_id == self.session_id
        &&& match self.stdio {
            Some(c) => c.session_id == self.session_id,
            None => true,
        }
    }

    /// Creates a recorder for `session_id` started at `start_time_ms`.
    pub fn new(session_id: u128, start_time_ms: i64) -> (r: Self)
        ensures
            r.wf(),
            r.session_id == session_id,
            r.start_time_ms == start_time_ms,
            r.tcp.client_to_container@ == Seq::<u8>::empty(),
            r.tcp.container_to_client@ == Seq::<u8>::empty(),
            r.tcp.timestamps@ == Seq::<(i64, Direction, usize)>::empty(),
            r.stdio is None,
    {
        StreamRecorder {
            session_id,
            tcp: TcpCapture::new(session_id),
            stdio: None,
            start_time_ms,
        }
    }

    /// Records one forwarded TCP chunk.
    pub fn record_tcp_chunk(&mut self, dir: Direction, data: &[u8], now_ms: i64)
        requires
            old(self).wf(),
            data@.len() > 0,
            crate::tcp_capture::dir_last_time(old(self).tcp.timestamps@, dir) <= now_ms,
        ensures
            final(self).wf(),
            final(self).session_id == old(self).session_id,
            final(self).start_time_ms == old(self).start_time_ms,
            final(self).stdio_model() == old(self).stdio_model(),
            final(self).tcp.buffer(dir) == old(self).tcp.buffer(dir) + data@,
            final(self).tcp.buffer(crate::tcp_capture::opposite(dir)) == old(self).tcp.buffer(
                crate::tcp_capture::opposite(dir),
            ),
            final(self).tcp.timestamps@ == old(self).tcp.timestamps@.push(
                (now_ms, dir, data@.len() as usize),
            ),
    {
        self.tcp.record_chunk(dir, data, now_ms);
    }

    /// Parses a unified activity log and appends its STDIN/STDOUT/STDERR
    /// content to this recorder's stdio buffers. Safe to call any number of
    /// times; the stdio capture is created on first use.
    pub fn parse_stdio_log(&mut self, log: &[u8], now_ms: i64)
        requires
            old(self).wf(),
        ensures
            final(self).wf(),
            final(self).session_id == old(self).session_id,
            final(self).start_time_ms == old(self).start_time_ms,
            final(self).tcp == old(self).tcp,
            final(self).stdio_model() == log_fold(
                old(self).stdio_model(),
                split_lines(log@),
                split_lines(log@).len() as int,
                now_ms,
            ),
    {
        match &mut self.stdio {
            Some(c) => {
                c.capture_activity_log(log, now_ms);
            },
            None => {
                let mut c = StdioCapture::new(self.session_id);
                c.capture_activity_log(log, now_ms);
                self.stdio = Some(c);
            },
        }
    }

    /// Aggregates the captured buffers into a `CaptureArtifacts` record.
    ///
    /// The record's `total_bytes` equals the sum of the five byte-stream
    /// lengths, and its duration spans from the recording start to `now_ms`.
    pub fn finalize_capture(&self, now_ms: i64) -> (a: CaptureArtifacts)
        requires
            self.wf(),
            self.total_capture_len() <= u64::MAX,
            0 <= self.start_time_ms <= now_ms,
        ensures
            a.session_id == self.session_id,
            a.tcp_client_to_container@ == self.tcp.buffer(Direction::ClientToContainer),
            a.tcp_container_to_client@ == self.tcp.buffer(Direction::ContainerToClient),
            a.stdio_stdin@ == self.stdio_model().stdin,
            a.stdio_stdout@ == self.stdio_model().stdout,
            a.stdio_stderr@ == self.stdio_model().stderr,
            a.tcp_timestamps@ == self.tcp.timestamps@,
            a.stdio_timestamps@ == self.stdio_model().timestamps,
            a.consistent(),
            a.duration_ms == now_ms - self.start_time_ms,
    {
        let (c2s, s2c, tcp_ts) = self.tcp.get_artifacts();
        let (stdin_b, stdout_b, stderr_b, stdio_ts) = match &self.stdio {
            Some(c) => c.get_artifacts(),
            None => (Vec::new(), Vec::new(), Vec::new(), Vec::new()),
        };
        let total_bytes: u64 = c2s.len() as u64 + s2c.len() as u64 + stdin_b.len() as u64
            + stdout_b.len() as u64 + stderr_b.len() as u64;
        let duration_ms = now_ms - self.start_time_ms;
        CaptureArtifacts {
            session_id: self.session_id,
            tcp_client_to_container: c2s,
            tcp_container_to_client: s2c,
            stdio_stdin: stdin_b,
            stdio_stdout: stdout_b,
            stdio_stderr: stderr_b,
            tcp_timestamps: tcp_ts,
            stdio_timestamps: stdio_ts,
            total_bytes,
            duration_ms,
        }
    }
}

} // verus!
