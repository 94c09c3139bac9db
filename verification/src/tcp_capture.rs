//! Recording state of the full-duplex TCP proxy.
//!
//! `TcpCapture` buffers both directions of a proxied connection and records
//! one `(time, direction, size)` entry per forwarded chunk. `ProxySession`
//! carries the per-direction forwarding state and decides, for every read
//! outcome, what the forwarding loop must do next — in particular that EOF
//! from one peer shuts down the write half of the opposite stream (graceful
//! half-close) rather than tearing the whole proxy down.

use vstd::prelude::*;

use crate::stdio_capture::copy_bytes;
use crate::types::Direction;

verus! {

/// The opposite flow direction.
pub open spec fn opposite(dir: Direction) -> Direction {
    match dir {
        Direction::ClientToContainer => Direction::ContainerToClient,
        Direction::ContainerToClient => Direction::ClientToContainer,
    }
}

/// Concatenation of a sequence of chunks.
pub open spec fn chunks_concat(chunks: Seq<Seq<u8>>) -> Seq<u8> {
    chunks.flatten()
}

/// Sum of the recorded chunk sizes of one direction.
pub open spec fn dir_size_sum(ts: Seq<(i64, Direction, usize)>, dir: Direction) -> int
    decreases ts.len(),
{
    if ts.len() == 0 {
        0
    } else {
        dir_size_sum(ts.drop_last(), dir) + (if ts.last().1 == dir {
            ts.last().2 as int
        } else {
            0
        })
    }
}

/// Time of the last recorded chunk of one direction; the earliest
/// representable instant while none was recorded.
pub open spec fn dir_last_time(ts: Seq<(i64, Direction, usize)>, dir: Direction) -> int
    decreases ts.len(),
{
    if ts.len() == 0 {
        i64::MIN as int
    } else if ts.last().1 == dir {
        ts.last().0 as int
    } else {
        dir_last_time(ts.drop_last(), dir)
    }
}

/// Under per-direction monotonicity, no recorded time of a direction lies
/// after the direction's last recorded time.
proof fn lemma_dir_last_time_bound(ts: Seq<(i64, Direction, usize)>, dir: Direction, i: int)
    requires
        0 <= i < ts.len(),
        ts[i].1 == dir,
        forall|a: int, b: int|
            0 <= a < b < ts.len() && (#[trigger] ts[a]).1 == (#[trigger] ts[b]).1 ==> ts[a].0
                <= ts[b].0,
    ensures
        ts[i].0 <= dir_last_time(ts, dir),
    decreases ts.len(),
{
    if i == ts.len() - 1 {
    } else if ts.last().1 == dir {
        assert(ts[i].0 <= ts[ts.len() - 1].0);
    } else {
        assert(forall|a: int, b: int|
            0 <= a < b < ts.drop_last().len() && (#[trigger] ts.drop_last()[a]).1 == (
            #[trigger] ts.drop_last()[b]).1 ==> ts.drop_last()[a].0 <= ts.drop_last()[b].0);
        lemma_dir_last_time_bound(ts.drop_last(), dir, i);
    }
}

/// Records TCP traffic for one session while the proxy forwards it.
pub struct TcpCapture {
    /// Identifier of the session the capture belongs to.
    pub session_id: u128,
    /// Bytes forwarded from the client to the container.
    pub client_to_container: Vec<u8>,
    /// Bytes forwarded from the container to the client.
    pub container_to_client: Vec<u8>,
    /// `(time, direction, size)` of every forwarded chunk, in forward order.
    pub timestamps: Vec<(i64, Direction, usize)>,
}

impl TcpCapture {
    /// The recorded buffer of one direction.
    pub open spec fn buffer(&self, dir: Direction) -> Seq<u8> {
        match dir {
            Direction::ClientToContainer => self.client_to_container@,
            Direction::ContainerToClient => self.container_to_client@,
        }
    }

    /// Sum of the two direction buffer lengths.
    pub open spec fn total_len(&self) -> int {
        self.client_to_container@.len() as int + self.container_to_client@.len() as int
    }

    /// The capture accounts for itself: per direction, the recorded chunk
    /// sizes sum to exactly the buffer length, only forwarded (non-empty)
    /// chunks are recorded, and the recorded times never step backwards.
    pub open spec fn wf(&self) -> bool {
        &&& dir_size_sum(self.timestamps@, Direction::ClientToContainer)
            == self.client_to_container@.len()
        &&& dir_size_sum(self.timestamps@, Direction::ContainerToClient)
            == self.container_to_client@.len()
        &&& forall|i: int| 0 <= i < self.timestamps@.len() ==> (#[trigger] self.timestamps@[i]).2 > 0
        &&& forall|a: int, b: int|
            0 <= a < b < self.timestamps@.len() && (#[trigger] self.timestamps@[a]).1 == (
            #[trigger] self.timestamps@[b]).1 ==> self.timestamps@[a].0 <= self.timestamps@[b].0
    }

    /// Creates an empty capture for `session_id`.
    pub fn new(session_id: u128) -> (r: Self)
        ensures
            r.wf(),
            r.session_id == session_id,
            r.client_to_container@ == Seq::<u8>::empty(),
            r.container_to_client@ == Seq::<u8>::empty(),
            r.timestamps@ == Seq::<(i64, Direction, usize)>::empty(),
    {
        let r = TcpCapture {
            session_id,
            client_to_container: Vec::new(),
            container_to_client: Vec::new(),
            timestamps: Vec::new(),
        };
        r
    }

    /// Records one forwarded chunk: the bytes are appended to the buffer of
    /// their direction and a timestamp entry is pushed. Only forwarded
    /// chunks are recorded, at or after the direction's last recorded time.
    pub fn record_chunk(&mut self, dir: Direction, data: &[u8], now_ms: i64)
        requires
            old(self).wf(),
            data@.len() > 0,
            dir_last_time(old(self).timestamps@, dir) <= now_ms,
        ensures
            final(self).wf(),
            final(self).session_id == old(self).session_id,
            final(self).buffer(dir) == old(self).buffer(dir) + data@,
            final(self).buffer(opposite(dir)) == old(self).buffer(opposite(dir)),
            final(self).timestamps@ == old(self).timestamps@.push(
                (now_ms, dir, data@.len() as usize),
            ),
    {
        match dir {
            Direction::ClientToContainer => {
                self.client_to_container.extend_from_slice(data);
            },
            Direction::ContainerToClient => {
                self.container_to_client.extend_from_slice(data);
            },
        }
        self.timestamps.push((now_ms, dir, data.len()));
        proof {
            let ts = self.timestamps@;
            assert(ts.drop_last() =~= old(self).timestamps@);
            assert forall|a: int, b: int|
                0 <= a < b < ts.len() && (#[trigger] ts[a]).1 == (#[trigger] ts[b]).1
                    implies ts[a].0 <= ts[b].0 by {
                if b == ts.len() - 1 && ts[a].1 == dir {
                    lemma_dir_last_time_bound(old(self).timestamps@, dir, a);
                }
            }
        }
    }

    /// Records a whole sequence of chunks of one direction, in order: the
    /// direction's buffer grows by exactly the concatenation of the chunks.
    pub fn record_chunks(&mut self, dir: Direction, chunks: &Vec<Vec<u8>>, now_ms: i64)
        requires
            old(self).wf(),
            forall|i: int| 0 <= i < chunks@.len() ==> (#[trigger] chunks@[i])@.len() > 0,
            dir_last_time(old(self).timestamps@, dir) <= now_ms,
        ensures
            final(self).wf(),
            final(self).session_id == old(self).session_id,
            final(self).buffer(dir) == old(self).buffer(dir) + chunks_concat(
                chunks@.map_values(|c: Vec<u8>| c@),
            ),
            final(self).buffer(opposite(dir)) == old(self).buffer(opposite(dir)),
            final(self).timestamps@.len() == old(self).timestamps@.len() + chunks@.len(),
    {
        let ghost pre = old(self).buffer(dir);
        let mut i: usize = 0;
        proof {
            assert(chunks@.subrange(0, 0).map_values(|c: Vec<u8>| c@).flatten()
                =~= Seq::<u8>::empty());
            assert(pre + Seq::<u8>::empty() =~= pre);
        }
        while i < chunks.len()
            invariant
                i <= chunks@.len(),
                self.wf(),
                forall|j: int| 0 <= j < chunks@.len() ==> (#[trigger] chunks@[j])@.len() > 0,
                dir_last_time(self.timestamps@, dir) <= now_ms,
                self.session_id == old(self).session_id,
                self.buffer(dir) == pre + chunks_concat(
                    chunks@.subrange(0, i as int).map_values(|c: Vec<u8>| c@),
                ),
                self.buffer(opposite(dir)) == old(self).buffer(opposite(dir)),
                self.timestamps@.len() == old(self).timestamps@.len() + i,
            decreases chunks@.len() - i,
        {
            self.record_chunk(dir, chunks[i].as_slice(), now_ms);
            i = i + 1;
            proof {
                let mapped = chunks@.subrange(0, i as int).map_values(|c: Vec<u8>| c@);
                let prev = chunks@.subrange(0, i as int - 1).map_values(|c: Vec<u8>| c@);
                assert(mapped =~= prev.push(chunks@[i as int - 1]@));
                Seq::lemma_flatten_push(prev, chunks@[i as int - 1]@);
                assert(pre + prev.flatten() + chunks@[i as int - 1]@ =~= pre + mapped.flatten());
            }
        }
        proof {
            assert(chunks@.subrange(0, chunks@.len() as int) =~= chunks@);
        }
    }

    /// Returns copies of both direction buffers and the timestamp series.
    pub fn get_artifacts(&self) -> (r: (Vec<u8>, Vec<u8>, Vec<(i64, Direction, usize)>))
        ensures
            r.0@ == self.client_to_container@,
            r.1@ == self.container_to_client@,
            r.2@ == self.timestamps@,
    {
        (
            copy_bytes(&self.client_to_container),
            copy_bytes(&self.container_to_client),
            copy_tcp_timestamps(&self.timestamps),
        )
    }
}

/// Entry-for-entry copy of a TCP timestamp series.
pub fn copy_tcp_timestamps(v: &Vec<(i64, Direction, usize)>) -> (r: Vec<(i64, Direction, usize)>)
    ensures
        r@ == v@,
{
    let mut r: Vec<(i64, Direction, usize)> = Vec::new();
    let mut i: usize = 0;
    while i < v.len()
        invariant
            i <= v@.len(),
            r@ == v@.subrange(0, i as int),
        decreases v@.len() - i,
    {
        r.push(v[i]);
        i = i + 1;
        proof {
            assert(r@ =~= v@.subrange(0, i as int));
        }
    }
    proof {
        assert(r@ =~= v@);
    }
    r
}

/// Forwarding state of one proxy direction.
#[derive(Debug, Clone, Copy, PartialEq, Eq, Structural)]
pub enum DirectionState {
    /// The reader still delivers bytes.
    Forwarding,
    /// The reader returned EOF; the opposite writer was shut down.
    Closed,
    /// The direction failed with an I/O error.
    Failed,
}

/// What the forwarding loop must do after a read outcome.
#[derive(Debug, Clone, Copy, PartialEq, Eq, Structural)]
pub enum ProxyAction {
    /// Write the chunk to the opposite stream; it has been recorded.
    ForwardChunk,
    /// Shut down the write half of the opposite stream and stop this
    /// direction; the opposite direction keeps running.
    ShutdownOpposite,
    /// Fail this direction.
    AbortDirection,
}

/// Decision state of a full-duplex recording proxy for one session.
pub struct ProxySession {
    /// The traffic recorded so far.
    pub capture: TcpCapture,
    /// State of the client-to-container direction.
    pub c2s: DirectionState,
    /// State of the container-to-client direction.
    pub s2c: DirectionState,
}

impl ProxySession {
    /// Forwarding state of one direction.
    pub open spec fn state(&self, dir: Direction) -> DirectionState {
        match dir {
            Direction::ClientToContainer => self.c2s,
            Direction::ContainerToClient => self.s2c,
        }
    }

    /// The proxy is done when neither direction still forwards.
    pub open spec fn finished(&self) -> bool {
        self.c2s != DirectionState::Forwarding && self.s2c != DirectionState::Forwarding
    }

    /// Creates a proxy session with both directions forwarding.
    pub fn new(session_id: u128) -> (r: Self)
        ensures
            r.capture.wf(),
            r.capture.session_id == session_id,
            r.capture.client_to_container@ == Seq::<u8>::empty(),
            r.capture.container_to_client@ == Seq::<u8>::empty(),
            r.capture.timestamps@ == Seq::<(i64, Direction, usize)>::empty(),
            r.c2s == DirectionState::Forwarding,
            r.s2c == DirectionState::Forwarding,
    {
        ProxySession {
            capture: TcpCapture::new(session_id),
            c2s: DirectionState::Forwarding,
            s2c: DirectionState::Forwarding,
        }
    }

    /// A successful read of `data` on `dir`: record it; the loop must write
    /// it through to the opposite stream.
    pub fn on_chunk(&mut self, dir: Direction, data: &[u8], now_ms: i64) -> (a: ProxyAction)
        requires
            old(self).state(dir) == DirectionState::Forwarding,
            old(self).capture.wf(),
            data@.len() > 0,
            dir_last_time(old(self).capture.timestamps@, dir) <= now_ms,
        ensures
            final(self).capture.wf(),
            a == ProxyAction::ForwardChunk,
            final(self).state(dir) == DirectionState::Forwarding,
            final(self).state(opposite(dir)) == old(self).state(opposite(dir)),
            final(self).capture.session_id == old(self).capture.session_id,
            final(self).capture.buffer(dir) == old(self).capture.buffer(dir) + data@,
            final(self).capture.buffer(opposite(dir)) == old(self).capture.buffer(opposite(dir)),
            final(self).capture.timestamps@ == old(self).capture.timestamps@.push(
                (now_ms, dir, data@.len() as usize),
            ),
    {
        self.capture.record_chunk(dir, data, now_ms);
        ProxyAction::ForwardChunk
    }

    /// EOF on `dir`: this direction ends and the loop must shut down the
    /// write half of the opposite stream, leaving the opposite direction's
    /// reader untouched.
    pub fn on_eof(&mut self, dir: Direction) -> (a: ProxyAction)
        requires
            old(self).state(dir) == DirectionState::Forwarding,
        ensures
            a == ProxyAction::ShutdownOpposite,
            final(self).state(dir) == DirectionState::Closed,
            final(self).state(opposite(dir)) == old(self).state(opposite(dir)),
            final(self).capture == old(self).capture,
            old(self).state(opposite(dir)) != DirectionState::Forwarding ==> final(self).finished(),
    {
        match dir {
            Direction::ClientToContainer => {
                self.c2s = DirectionState::Closed;
            },
            Direction::ContainerToClient => {
                self.s2c = DirectionState::Closed;
            },
        }
        ProxyAction::ShutdownOpposite
    }

    /// An I/O error on `dir`: this direction fails; the recorded buffers
    /// stay as they were.
    pub fn on_error(&mut self, dir: Direction) -> (a: ProxyAction)
        requires
            old(self).state(dir) == DirectionState::Forwarding,
        ensures
            a == ProxyAction::AbortDirection,
            final(self).state(dir) == DirectionState::Failed,
            final(self).state(opposite(dir)) == old(self).state(opposite(dir)),
            final(self).capture == old(self).capture,
    {
        match dir {
            Direction::ClientToContainer => {
                self.c2s = DirectionState::Failed;
            },
            Direction::ContainerToClient => {
                self.s2c = DirectionState::Failed;
            },
        }
        ProxyAction::AbortDirection
    }

    /// Whether both directions have ended.
    pub fn is_finished(&self) -> (r: bool)
        ensures
            r == self.finished(),
    {
        !matches!(self.c2s, DirectionState::Forwarding) && !matches!(
            self.s2c,
            DirectionState::Forwarding,
        )
    }
}

} // verus!
