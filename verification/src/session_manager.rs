//! The session lifecycle engine.
//!
//! The manager admits session requests, owns each active session's record,
//! container handle and stream recorder, and drives finalization. Its
//! well-formedness carries the resource invariants of the pipeline: every
//! active session owns exactly one registered container, no more sessions
//! are active than the configured cap, and a session's record is persisted
//! before any of its capture artifacts.

use vstd::prelude::*;

use crate::container::{ContainerHandle, ContainerManager, HandleView, registry_has_host_port, registry_has_id};
use crate::errors::{SessionError, StorageError};
use crate::recorder::{ArtifactsView, StreamRecorder};
use crate::seq_util::lemma_filter_removes_one;
use crate::session::{Session, SessionView};
use crate::storage::{
    Storage, StorageEvent, artifacts_upserted, is_artifacts_save_outcome, is_session_save_outcome,
    session_upserted,
};
use crate::types::SessionStatus;

verus! {

/// An admitted session: its record, its container, and its recorder.
pub struct ActiveSession {
    /// The session metadata and state.
    pub session: Session,
    /// The container that serves this session.
    pub container: ContainerHandle,
    /// Recorder capturing the session's traffic.
    pub recorder: StreamRecorder,
}

/// The session views of a sequence of active sessions.
pub open spec fn active_views(s: Seq<ActiveSession>) -> Seq<SessionView> {
    s.map_values(|a: ActiveSession| a.session@)
}

/// The container views of a sequence of active sessions.
pub open spec fn container_views(s: Seq<ActiveSession>) -> Seq<HandleView> {
    s.map_values(|a: ActiveSession| a.container@)
}

/// Whether an active session with the id exists.
pub open spec fn has_active_id(s: Seq<ActiveSession>, id: u128) -> bool {
    exists|i: int| 0 <= i < s.len() && s[i].session@.id == id
}

/// Whether a cleanup at `now_ms` with the timeout expires the session: its
/// end time is set and lies at least the timeout in the past.
pub open spec fn session_is_expired(sv: SessionView, now_ms: i64, timeout_ms: i64) -> bool {
    match sv.end_time_ms {
        Some(end) => now_ms - end >= timeout_ms,
        None => false,
    }
}

/// The record of a session finished at `now_ms` with `total` captured
/// bytes.
pub open spec fn finished_view(sv: SessionView, now_ms: i64, total: u64, ok: bool) -> SessionView {
    SessionView {
        end_time_ms: Some(now_ms),
        bytes_transferred: total,
        status: if ok {
            SessionStatus::Completed
        } else {
            SessionStatus::Error
        },
        ..sv
    }
}

/// In a well-ordered event trace, artifacts are only ever saved for a
/// session whose record was saved earlier.
pub open spec fn events_ordered(events: Seq<StorageEvent>) -> bool {
    forall|i: int, id: u128|
        0 <= i < events.len() && events[i] == StorageEvent::ArtifactsSaved(id) ==> exists|j: int|
            0 <= j < i && events[j] == StorageEvent::SessionSaved(id)
}

/// Admits session requests, owns active sessions and their resources, and
/// drives finalization.
pub struct SessionManager<S: Storage> {
    /// The sessions currently being served.
    pub active_sessions: Vec<ActiveSession>,
    /// Bookkeeping of the live containers.
    pub container_manager: ContainerManager,
    /// The persistence backend.
    pub storage: S,
    /// Cap on concurrently active sessions.
    pub max_sessions: usize,
    /// Expiry for sessions whose end time has passed, in milliseconds.
    pub session_timeout_ms: i64,
}

impl<S: Storage> SessionManager<S> {
    /// The session views of the active sessions.
    pub open spec fn active(&self) -> Seq<SessionView> {
        active_views(self.active_sessions@)
    }

    /// Well-formedness of the whole engine.
    pub open spec fn wf(&self) -> bool {
        &&& self.storage.inv()
        &&& self.container_manager.wf()
        &&& self.active_sessions@.len() <= self.max_sessions
        &&& forall|i: int, j: int|
            0 <= i < j < self.active_sessions@.len()
                ==> #[trigger] self.active_sessions@[i].session@.id != (
            #[trigger] self.active_sessions@[j].session@.id)
        &&& container_views(self.active_sessions@) == self.container_manager.registry()
        &&& forall|i: int|
            0 <= i < self.active_sessions@.len() ==> {
                &&& (#[trigger] self.active_sessions@[i]).recorder.wf()
                &&& self.active_sessions@[i].recorder.session_id
                    == self.active_sessions@[i].session@.id
                &&& self.active_sessions@[i].recorder.start_time_ms >= 0
            }
        &&& events_ordered(self.storage.events())
        &&& forall|i: int|
            0 <= i < self.active_sessions@.len() ==> exists|j: int|
                0 <= j < self.storage.events().len() && self.storage.events()[j]
                    == StorageEvent::SessionSaved(
                    (#[trigger] self.active_sessions@[i]).session@.id,
                )
    }

    /// The number of live containers never exceeds the session cap.
    pub proof fn lemma_live_containers_bounded(&self)
        requires
            self.wf(),
        ensures
            self.container_manager.registry().len() <= self.max_sessions,
    {
        assert(container_views(self.active_sessions@).len() == self.active_sessions@.len());
    }

    /// No two active sessions share a host port.
    pub proof fn lemma_active_host_ports_distinct(&self, i: int, j: int)
        requires
            self.wf(),
            0 <= i < self.active_sessions@.len(),
            0 <= j < self.active_sessions@.len(),
            i != j,
        ensures
            self.active_sessions@[i].container@.host_port
                != self.active_sessions@[j].container@.host_port,
    {
        let cv = container_views(self.active_sessions@);
        assert(cv[i] == self.active_sessions@[i].container@);
        assert(cv[j] == self.active_sessions@[j].container@);
        if i < j {
            self.container_manager.lemma_host_ports_distinct(i, j);
        } else {
            self.container_manager.lemma_host_ports_distinct(j, i);
        }
    }

    /// A session's record is saved before any of its artifacts: every
    /// artifacts-save event for an id is preceded by a session-save event
    /// for the same id.
    pub proof fn lemma_session_record_precedes_artifacts(&self, i: int, id: u128)
        requires
            self.wf(),
            0 <= i < self.storage.events().len(),
            self.storage.events()[i] == StorageEvent::ArtifactsSaved(id),
        ensures
            exists|j: int|
                0 <= j < i && self.storage.events()[j] == StorageEvent::SessionSaved(id),
    {
    }

    /// Creates a session manager around a fresh container manager and a
    /// backend whose event trace is well ordered.
    pub fn new(
        container_manager: ContainerManager,
        storage: S,
        max_sessions: usize,
        session_timeout_ms: i64,
    ) -> (r: SessionManager<S>)
        requires
            storage.inv(),
            events_ordered(storage.events()),
            container_manager.wf(),
            container_manager.registry() == Seq::<HandleView>::empty(),
        ensures
            r.wf(),
            r.active() == Seq::<SessionView>::empty(),
            r.storage == storage,
            r.max_sessions == max_sessions,
            r.session_timeout_ms == session_timeout_ms,
    {
        let r = SessionManager {
            active_sessions: Vec::new(),
            container_manager,
            storage,
            max_sessions,
            session_timeout_ms,
        };
        proof {
            assert(r.active() =~= Seq::<SessionView>::empty());
            assert(container_views(r.active_sessions@) =~= Seq::<HandleView>::empty());
        }
        r
    }

    /// Finds the active session a reconnecting client belongs to: the one
    /// whose client address and source port equal the request's.
    pub fn find_session(&self, client_ip: &str, client_port: u16) -> (r: Option<usize>)
        ensures
            match r {
                Some(i) => i < self.active_sessions@.len()
                    && self.active_sessions@[i as int].session@.client_ip == client_ip@
                    && self.active_sessions@[i as int].session@.client_port == client_port,
                None => forall|i: int|
                    0 <= i < self.active_sessions@.len()
                        ==> !((#[trigger] self.active_sessions@[i]).session@.client_ip == client_ip@
                        && self.active_sessions@[i].session@.client_port == client_port),
            },
    {
        let n = self.active_sessions.len();
        let mut i: usize = 0;
        while i < n
            invariant
                n == self.active_sessions@.len(),
                i <= n,
                forall|j: int|
                    0 <= j < i ==> !((#[trigger] self.active_sessions@[j]).session@.client_ip
                        == client_ip@ && self.active_sessions@[j].session@.client_port
                        == client_port),
            decreases n - i,
        {
            let same_ip = crate::container::str_eq(
                self.active_sessions[i].session.client_ip.as_str(),
                client_ip,
            );
            if same_ip && self.active_sessions[i].session.client_port == client_port {
                return Some(i);
            }
            i = i + 1;
        }
        None
    }

    /// Whether one more session may be admitted.
    pub fn can_admit(&self) -> (r: bool)
        ensures
            r == (self.active_sessions@.len() < self.max_sessions),
    {
        self.active_sessions.len() < self.max_sessions
    }

    /// Admits a new session around a freshly created container: persists
    /// the session record, registers the container, and installs the
    /// recorder. Rejects the request when the cap is reached, and fails
    /// without any change when the container conflicts with a live one or
    /// the record cannot be persisted.
    pub fn begin_session(
        &mut self,
        service_name: &str,
        client_ip: &str,
        client_port: u16,
        start_time_ms: i64,
        container: ContainerHandle,
    ) -> (r: Result<u128, SessionError>)
        requires
            old(self).wf(),
            start_time_ms >= 0,
        ensures
            final(self).wf(),
            final(self).max_sessions == old(self).max_sessions,
            final(self).session_timeout_ms == old(self).session_timeout_ms,
            // At the cap the request is rejected, with this error and no
            // other.
            old(self).active_sessions@.len() >= old(self).max_sessions ==> r matches Err(
                SessionError::SessionLimitReached,
            ),
            match r {
                Ok(id) => {
                    &&& old(self).active_sessions@.len() < old(self).max_sessions
                    &&& !has_active_id(old(self).active_sessions@, id)
                    &&& !registry_has_id(old(self).container_manager.registry(), container@.id)
                    &&& !registry_has_host_port(
                        old(self).container_manager.registry(),
                        container@.host_port,
                    )
                    &&& final(self).active() == old(self).active().push(
                        new_session_view(
                            id,
                            service_name@,
                            client_ip@,
                            client_port,
                            start_time_ms,
                            container@.id,
                        ),
                    )
                    &&& final(self).container_manager.registry() == old(
                        self,
                    ).container_manager.registry().push(container@)
                    &&& session_upserted(
                        old(self).storage.sessions(),
                        final(self).storage.sessions(),
                        new_session_view(
                            id,
                            service_name@,
                            client_ip@,
                            client_port,
                            start_time_ms,
                            container@.id,
                        ),
                    )
                    &&& final(self).storage.interaction_log() == old(
                        self,
                    ).storage.interaction_log()
                    &&& final(self).storage.artifacts() == old(self).storage.artifacts()
                    &&& final(self).storage.events() == old(self).storage.events().push(
                        StorageEvent::SessionSaved(id),
                    )
                    &&& final(self).container_manager.stats.total_created == old(
                        self,
                    ).container_manager.stats.total_created + 1
                    &&& final(self).container_manager.stats.failed_count == old(
                        self,
                    ).container_manager.stats.failed_count
                },
                Err(SessionError::SessionLimitReached) => {
                    &&& old(self).active_sessions@.len() >= old(self).max_sessions
                    &&& final(self).active_sessions@ == old(self).active_sessions@
                    &&& final(self).container_manager == old(self).container_manager
                    &&& final(self).storage.sessions() == old(self).storage.sessions()
                    &&& final(self).storage.interaction_log() == old(
                        self,
                    ).storage.interaction_log()
                    &&& final(self).storage.artifacts() == old(self).storage.artifacts()
                    &&& final(self).storage.events() == old(self).storage.events()
                },
                Err(SessionError::StorageError(_)) => {
                    &&& final(self).active_sessions@ == old(self).active_sessions@
                    &&& final(self).container_manager == old(self).container_manager
                    &&& final(self).storage.sessions() == old(self).storage.sessions()
                    &&& final(self).storage.interaction_log() == old(
                        self,
                    ).storage.interaction_log()
                    &&& final(self).storage.artifacts() == old(self).storage.artifacts()
                    &&& exists|nid: u128|
                        final(self).storage.events() == old(self).storage.events().push(
                            StorageEvent::SessionSaveFailed(nid),
                        )
                },
                Err(_) => {
                    &&& final(self).active_sessions@ == old(self).active_sessions@
                    &&& final(self).container_manager == old(self).container_manager
                    &&& final(self).storage.sessions() == old(self).storage.sessions()
                    &&& final(self).storage.interaction_log() == old(
                        self,
                    ).storage.interaction_log()
                    &&& final(self).storage.artifacts() == old(self).storage.artifacts()
                    &&& final(self).storage.events() == old(self).storage.events()
                },
            },
    {
        if !(self.active_sessions.len() < self.max_sessions) {
            return Err(SessionError::SessionLimitReached);
        }
        let id = crate::ids::new_session_id();
        if self.has_active_session(id) {
            return Err(SessionError::CreationFailed);
        }
        if self.container_manager.has_container(container.id.as_str()) {
            return Err(SessionError::CreationFailed);
        }
        if self.container_manager.has_host_port(container.host_port) {
            return Err(SessionError::CreationFailed);
        }
        let stats = self.container_manager.get_container_stats();
        if stats.total_created == u64::MAX {
            return Err(SessionError::CreationFailed);
        }
        let session = Session {
            id,
            service_name: service_name.to_owned(),
            client_ip: client_ip.to_owned(),
            client_port,
            start_time_ms,
            end_time_ms: None,
            container_id: Some(container.id.clone()),
            bytes_transferred: 0,
            status: SessionStatus::Active,
        };
        proof {
            assert(session@ =~= new_session_view(
                id,
                service_name@,
                client_ip@,
                client_port,
                start_time_ms,
                container@.id,
            ));
        }
        match self.storage.save_session(&session) {
            Ok(()) => {},
            Err(e) => {
                proof {
                    // The one appended event is a refusal, so the trace
                    // stays well ordered and all earlier witnesses stand.
                    let e0 = old(self).storage.events();
                    let e2 = self.storage.events();
                    assert forall|i: int, eid: u128|
                        0 <= i < e2.len() && e2[i] == StorageEvent::ArtifactsSaved(eid)
                            implies exists|j: int|
                        0 <= j < i && e2[j] == StorageEvent::SessionSaved(eid) by {
                        assert(i < e0.len());
                        let j = choose|j: int|
                            0 <= j < i && e0[j] == StorageEvent::SessionSaved(eid);
                        assert(e2[j] == StorageEvent::SessionSaved(eid));
                    }
                    assert forall|i: int|
                        0 <= i < self.active_sessions@.len() implies exists|j: int|
                        0 <= j < e2.len() && e2[j] == StorageEvent::SessionSaved(
                            (#[trigger] self.active_sessions@[i]).session@.id,
                        ) by {
                        let j = choose|j: int|
                            0 <= j < e0.len() && e0[j] == StorageEvent::SessionSaved(
                                old(self).active_sessions@[i].session@.id,
                            );
                        assert(e2[j] == StorageEvent::SessionSaved(
                            self.active_sessions@[i].session@.id,
                        ));
                    }
                }
                return Err(SessionError::StorageError(e));
            },
        }
        let ghost events_mid = self.storage.events();
        match self.container_manager.register_container(container.duplicate()) {
            Ok(()) => {},
            Err(_) => {
                proof {
                    assert(false);
                }
                return Err(SessionError::CreationFailed);
            },
        }
        let recorder = StreamRecorder::new(id, start_time_ms);
        let active = ActiveSession { session, container, recorder };
        self.active_sessions.push(active);
        proof {
            let pre_active = old(self).active_sessions@;
            let sv = new_session_view(
                id,
                service_name@,
                client_ip@,
                client_port,
                start_time_ms,
                container@.id,
            );
            assert(self.active_sessions@.last().session@ =~= sv);
            assert(self.active() =~= active_views(pre_active).push(sv));
            assert(container_views(self.active_sessions@) =~= container_views(pre_active).push(
                container@,
            ));
            // The fresh event trace stays well ordered: the one new event is
            // a session save.
            assert(events_mid == old(self).storage.events().push(StorageEvent::SessionSaved(id)));
            assert forall|i: int, eid: u128|
                0 <= i < self.storage.events().len() && self.storage.events()[i]
                    == StorageEvent::ArtifactsSaved(eid) implies exists|j: int|
                0 <= j < i && self.storage.events()[j] == StorageEvent::SessionSaved(eid) by {
                if i < old(self).storage.events().len() {
                    assert(self.storage.events()[i] == old(self).storage.events()[i]);
                    let j = choose|j: int|
                        0 <= j < i && old(self).storage.events()[j] == StorageEvent::SessionSaved(
                            eid,
                        );
                    assert(self.storage.events()[j] == StorageEvent::SessionSaved(eid));
                } else {
                    assert(self.storage.events()[i] == StorageEvent::SessionSaved(id));
                }
            }
            assert forall|i: int|
                0 <= i < self.active_sessions@.len() implies exists|j: int|
                0 <= j < self.storage.events().len() && self.storage.events()[j]
                    == StorageEvent::SessionSaved(
                    (#[trigger] self.active_sessions@[i]).session@.id,
                ) by {
                if i < pre_active.len() {
                    let j = choose|j: int|
                        0 <= j < old(self).storage.events().len() && old(self).storage.events()[j]
                            == StorageEvent::SessionSaved(pre_active[i].session@.id);
                    assert(self.storage.events()[j] == StorageEvent::SessionSaved(
                        self.active_sessions@[i].session@.id,
                    ));
                } else {
                    assert(self.storage.events()[self.storage.events().len() - 1]
                        == StorageEvent::SessionSaved(id));
                }
            }
        }
        Ok(id)
    }

    /// The position of the active session with the id, if any.
    pub fn find_active_index(&self, id: u128) -> (r: Option<usize>)
        ensures
            match r {
                Some(k) => k < self.active_sessions@.len()
                    && self.active_sessions@[k as int].session@.id == id,
                None => !has_active_id(self.active_sessions@, id),
            },
    {
        let n = self.active_sessions.len();
        let mut i: usize = 0;
        while i < n
            invariant
                n == self.active_sessions@.len(),
                i <= n,
                forall|j: int|
                    0 <= j < i ==> (#[trigger] self.active_sessions@[j]).session@.id != id,
            decreases n - i,
        {
            if self.active_sessions[i].session.id == id {
                return Some(i);
            }
            i = i + 1;
        }
        None
    }

    /// Whether an active session with the id exists.
    pub fn has_active_session(&self, id: u128) -> (r: bool)
        ensures
            r == has_active_id(self.active_sessions@, id),
    {
        let n = self.active_sessions.len();
        let mut i: usize = 0;
        while i < n
            invariant
                n == self.active_sessions@.len(),
                i <= n,
                forall|j: int|
                    0 <= j < i ==> (#[trigger] self.active_sessions@[j]).session@.id != id,
            decreases n - i,
        {
            if self.active_sessions[i].session.id == id {
                return true;
            }
            i = i + 1;
        }
        false
    }
}

/// Bound of a mathematical duration into the machine's range.
pub open spec fn clamp_i64(x: int) -> i64 {
    if x > i64::MAX {
        i64::MAX
    } else if x < i64::MIN {
        i64::MIN
    } else {
        x as i64
    }
}

/// Time a session has run: from its start to its end where ended, to
/// `now_ms` otherwise.
pub open spec fn session_duration_ms(sv: SessionView, now_ms: i64) -> int {
    (match sv.end_time_ms {
        Some(e) => e as int,
        None => now_ms as int,
    }) - sv.start_time_ms
}

impl<S: Storage> SessionManager<S> {
    /// Ends every active session: each one's capture teardown is driven
    /// through the backend as by `end_session` — the event trace shows an
    /// artifacts-save outcome followed by a session-save outcome for every
    /// previously active session — and each container is released.
    /// Individual storage failures do not stop the shutdown.
    pub fn shutdown_all_sessions(&mut self, now_ms: i64) -> (r: Result<(), SessionError>)
        requires
            old(self).wf(),
            0 <= now_ms,
            can_finalize_all(old(self).active_sessions@, now_ms),
        ensures
            final(self).wf(),
            final(self).max_sessions == old(self).max_sessions,
            final(self).session_timeout_ms == old(self).session_timeout_ms,
            final(self).active_sessions@.len() == 0,
            final(self).container_manager.registry().len() == 0,
            events_extend(old(self).storage.events(), final(self).storage.events()),
            forall|id: u128|
                has_active_id(old(self).active_sessions@, id) ==> #[trigger] teardown_attempted(
                    old(self).storage.events(),
                    final(self).storage.events(),
                    id,
                ),
            // The trace grew only by teardown outcomes of sessions that
            // were active.
            only_teardown_outcomes(
                old(self).storage.events(),
                final(self).storage.events(),
                old(self).active_sessions@,
            ),
            r is Ok,
    {
        let ghost ev0 = old(self).storage.events();
        let ghost active0 = old(self).active_sessions@;
        while self.active_sessions.len() > 0
            invariant
                self.wf(),
                0 <= now_ms,
                can_finalize_all(self.active_sessions@, now_ms),
                self.max_sessions == old(self).max_sessions,
                self.session_timeout_ms == old(self).session_timeout_ms,
                events_extend(ev0, self.storage.events()),
                forall|id: u128|
                    has_active_id(active0, id) && !has_active_id(self.active_sessions@, id)
                        ==> #[trigger] teardown_attempted(ev0, self.storage.events(), id),
                forall|id: u128|
                    has_active_id(self.active_sessions@, id) ==> has_active_id(active0, id),
                only_teardown_outcomes(ev0, self.storage.events(), active0),
            decreases self.active_sessions@.len(),
        {
            let id = self.active_sessions[0].session.id;
            let ghost pre = self.active_sessions@;
            let ghost mid_ev = self.storage.events();
            proof {
                assert(has_active_id(pre, id));
            }
            let step = self.end_session(id, now_ms);
            proof {
                let ki = active_index_of(pre, id);
                pre.remove_ensures(ki);
                assert forall|i: int|
                    0 <= i < self.active_sessions@.len() implies {
                    &&& (#[trigger] self.active_sessions@[i]).recorder.start_time_ms <= now_ms
                    &&& self.active_sessions@[i].recorder.total_capture_len() <= u64::MAX
                } by {
                    if i < ki {
                        assert(self.active_sessions@[i] == pre[i]);
                    } else {
                        assert(self.active_sessions@[i] == pre[i + 1]);
                    }
                }
                // Whatever the backend answered, the trace gained an
                // artifacts outcome then a session outcome for the id.
                let e2 = self.storage.events();
                assert(e2.len() == mid_ev.len() + 2);
                assert(is_artifacts_save_outcome(e2[mid_ev.len() as int], id));
                assert(is_session_save_outcome(e2[mid_ev.len() as int + 1], id));
                assert(events_extend(mid_ev, e2));
                assert(events_extend(ev0, e2));
                assert(teardown_attempted(ev0, e2, id));
                assert forall|x: u128|
                    has_active_id(active0, x) && !has_active_id(self.active_sessions@, x)
                        implies #[trigger] teardown_attempted(ev0, e2, x) by {
                    if !has_active_id(pre, x) {
                        lemma_teardown_attempted_extend(ev0, mid_ev, e2, x);
                    } else if x != id {
                        // Its entry survived the removal, a contradiction.
                        let w = choose|w: int|
                            0 <= w < pre.len() && pre[w].session@.id == x;
                        assert(pre[ki].session@.id == id);
                        if w < ki {
                            assert(self.active_sessions@[w] == pre[w]);
                        } else {
                            assert(w != ki);
                            assert(self.active_sessions@[w - 1] == pre[w]);
                        }
                        assert(has_active_id(self.active_sessions@, x));
                    }
                }
                assert(has_active_id(active0, id));
                assert forall|i: int|
                    ev0.len() <= i < e2.len() implies exists|x: u128|
                    has_active_id(active0, x) && (is_artifacts_save_outcome(
                        #[trigger] e2[i],
                        x,
                    ) || is_session_save_outcome(e2[i], x)) by {
                    if i < mid_ev.len() {
                        assert(e2[i] == mid_ev[i]);
                        assert(only_teardown_outcomes(ev0, mid_ev, active0));
                        let x = choose|x: u128|
                            has_active_id(active0, x) && (is_artifacts_save_outcome(
                                mid_ev[i],
                                x,
                            ) || is_session_save_outcome(mid_ev[i], x));
                        assert(is_artifacts_save_outcome(e2[i], x) || is_session_save_outcome(
                            e2[i],
                            x,
                        ));
                    } else {
                        assert(is_artifacts_save_outcome(e2[mid_ev.len() as int], id));
                        assert(is_session_save_outcome(e2[mid_ev.len() as int + 1], id));
                    }
                }
                assert(only_teardown_outcomes(ev0, e2, active0));
                assert forall|x: u128|
                    has_active_id(self.active_sessions@, x) implies has_active_id(
                    active0,
                    x,
                ) by {
                    let w = choose|w: int|
                        0 <= w < self.active_sessions@.len()
                            && self.active_sessions@[w].session@.id == x;
                    if w < ki {
                        assert(pre[w].session@.id == x);
                    } else {
                        assert(pre[w + 1].session@.id == x);
                    }
                    assert(has_active_id(pre, x));
                }
            }
        }
        proof {
            assert(container_views(self.active_sessions@).len() == 0);
            assert forall|id: u128|
                has_active_id(active0, id) implies #[trigger] teardown_attempted(
                ev0,
                self.storage.events(),
                id,
            ) by {
                assert(!has_active_id(self.active_sessions@, id));
            }
        }
        Ok(())
    }

    /// Ends every active session whose end time is set and lies at least
    /// the session timeout in the past: the active set afterwards is
    /// exactly the old one with the expired entries removed, and each
    /// removed session's capture teardown was driven through the backend
    /// as by `end_session`. Sessions without an end time, and those that
    /// ended more recently, are untouched.
    pub fn cleanup_expired_sessions(&mut self, now_ms: i64)
        requires
            old(self).wf(),
            0 <= now_ms,
            can_finalize_all(old(self).active_sessions@, now_ms),
        ensures
            final(self).wf(),
            final(self).max_sessions == old(self).max_sessions,
            final(self).session_timeout_ms == old(self).session_timeout_ms,
            final(self).active_sessions@ == old(self).active_sessions@.filter(
                |a: ActiveSession| !session_is_expired(
                    a.session@,
                    now_ms,
                    old(self).session_timeout_ms,
                ),
            ),
            events_extend(old(self).storage.events(), final(self).storage.events()),
            forall|t: int|
                0 <= t < old(self).active_sessions@.len() && session_is_expired(
                    (#[trigger] old(self).active_sessions@[t]).session@,
                    now_ms,
                    old(self).session_timeout_ms,
                ) ==> teardown_attempted(
                    old(self).storage.events(),
                    final(self).storage.events(),
                    old(self).active_sessions@[t].session@.id,
                ),
    {
        let ghost ev0 = old(self).storage.events();
        let ghost pre_active = old(self).active_sessions@;
        let ghost keep = |a: ActiveSession| !session_is_expired(
            a.session@,
            now_ms,
            old(self).session_timeout_ms,
        );
        let mut i: usize = 0;
        let ghost mut p: int = 0;
        proof {
            reveal(Seq::filter);
            assert(pre_active.subrange(0, 0).filter(keep) =~= Seq::<ActiveSession>::empty());
            assert(self.active_sessions@ =~= pre_active.subrange(0, 0).filter(keep)
                + pre_active.subrange(0, pre_active.len() as int));
        }
        while i < self.active_sessions.len()
            invariant
                self.wf(),
                0 <= now_ms,
                can_finalize_all(self.active_sessions@, now_ms),
                self.max_sessions == old(self).max_sessions,
                self.session_timeout_ms == old(self).session_timeout_ms,
                0 <= p <= pre_active.len(),
                keep == (|a: ActiveSession| !session_is_expired(
                    a.session@,
                    now_ms,
                    old(self).session_timeout_ms,
                )),
                self.active_sessions@ == pre_active.subrange(0, p).filter(keep)
                    + pre_active.subrange(p, pre_active.len() as int),
                i == pre_active.subrange(0, p).filter(keep).len(),
                events_extend(ev0, self.storage.events()),
                forall|t: int|
                    0 <= t < p && session_is_expired(
                        (#[trigger] pre_active[t]).session@,
                        now_ms,
                        old(self).session_timeout_ms,
                    ) ==> teardown_attempted(
                        ev0,
                        self.storage.events(),
                        pre_active[t].session@.id,
                    ),
            decreases pre_active.len() - p,
        {
            let ghost cur = self.active_sessions@;
            proof {
                // The element under the cursor is the next unprocessed one.
                assert(p < pre_active.len());
                assert(cur[i as int] == pre_active[p]);
            }
            let expired = match self.active_sessions[i].session.end_time_ms {
                Some(end) => (now_ms as i128) - (end as i128) >= (self.session_timeout_ms
                    as i128),
                None => false,
            };
            if expired {
                let id = self.active_sessions[i].session.id;
                let ghost mid_ev = self.storage.events();
                proof {
                    assert(cur[i as int].session@.id == id);
                    assert(has_active_id(cur, id));
                }
                let step = self.end_session(id, now_ms);
                proof {
                    reveal(Seq::filter);
                    let ki = active_index_of(cur, id);
                    assert(0 <= ki < cur.len() && cur[ki].session@.id == id);
                    if ki != i as int {
                        assert(cur[ki].session@.id != cur[i as int].session@.id);
                    }
                    assert(ki == i as int);
                    cur.remove_ensures(ki);
                    assert forall|j: int|
                        0 <= j < self.active_sessions@.len() implies {
                        &&& (#[trigger] self.active_sessions@[j]).recorder.start_time_ms
                            <= now_ms
                        &&& self.active_sessions@[j].recorder.total_capture_len() <= u64::MAX
                    } by {
                        if j < ki {
                            assert(self.active_sessions@[j] == cur[j]);
                        } else {
                            assert(self.active_sessions@[j] == cur[j + 1]);
                        }
                    }
                    // The kept prefix is unchanged by dropping this entry.
                    let prefix2 = pre_active.subrange(0, p + 1);
                    assert(prefix2.drop_last() =~= pre_active.subrange(0, p));
                    assert(prefix2.last() == pre_active[p]);
                    assert(!keep(pre_active[p]));
                    assert(prefix2.filter(keep) == pre_active.subrange(0, p).filter(keep));
                    assert(self.active_sessions@ =~= prefix2.filter(keep)
                        + pre_active.subrange(p + 1, pre_active.len() as int));
                    // The trace gained both teardown outcomes for the id.
                    let e2 = self.storage.events();
                    assert(e2.len() == mid_ev.len() + 2);
                    assert(is_artifacts_save_outcome(e2[mid_ev.len() as int], id));
                    assert(is_session_save_outcome(e2[mid_ev.len() as int + 1], id));
                    assert(events_extend(mid_ev, e2));
                    assert(events_extend(ev0, e2));
                    assert(teardown_attempted(ev0, e2, id));
                    assert forall|t: int|
                        0 <= t < p + 1 && session_is_expired(
                            (#[trigger] pre_active[t]).session@,
                            now_ms,
                            old(self).session_timeout_ms,
                        ) implies teardown_attempted(ev0, e2, pre_active[t].session@.id) by {
                        if t < p {
                            lemma_teardown_attempted_extend(
                                ev0,
                                mid_ev,
                                e2,
                                pre_active[t].session@.id,
                            );
                        }
                    }
                    p = p + 1;
                }
            } else {
                i = i + 1;
                proof {
                    reveal(Seq::filter);
                    let prefix2 = pre_active.subrange(0, p + 1);
                    assert(prefix2.drop_last() =~= pre_active.subrange(0, p));
                    assert(prefix2.last() == pre_active[p]);
                    assert(keep(pre_active[p]));
                    assert(prefix2.filter(keep) == pre_active.subrange(0, p).filter(keep).push(
                        pre_active[p],
                    ));
                    assert(self.active_sessions@ =~= prefix2.filter(keep)
                        + pre_active.subrange(p + 1, pre_active.len() as int));
                    p = p + 1;
                }
            }
        }
        proof {
            assert(p == pre_active.len());
            assert(pre_active.subrange(0, pre_active.len() as int) =~= pre_active);
            assert(pre_active.subrange(
                pre_active.len() as int,
                pre_active.len() as int,
            ) =~= Seq::<ActiveSession>::empty());
            assert(self.active_sessions@ =~= pre_active.filter(keep));
        }
    }

    /// Records one forwarded TCP chunk into the session's recorder.
    pub fn record_proxy_chunk(
        &mut self,
        session_id: u128,
        dir: crate::types::Direction,
        data: &[u8],
        now_ms: i64,
    ) -> (r: Result<(), SessionError>)
        requires
            old(self).wf(),
            data@.len() > 0,
            tcp_clock_ok(old(self).active_sessions@, session_id, dir, now_ms),
        ensures
            final(self).wf(),
            final(self).max_sessions == old(self).max_sessions,
            final(self).session_timeout_ms == old(self).session_timeout_ms,
            final(self).storage == old(self).storage,
            match r {
                Ok(()) => {
                    &&& has_active_id(old(self).active_sessions@, session_id)
                    &&& final(self).active_sessions@.len() == old(self).active_sessions@.len()
                    &&& forall|j: int|
                        0 <= j < old(self).active_sessions@.len() && j != active_index_of(
                            old(self).active_sessions@,
                            session_id,
                        ) ==> final(self).active_sessions@[j] == old(self).active_sessions@[j]
                    &&& {
                        let k = active_index_of(old(self).active_sessions@, session_id);
                        let pre = old(self).active_sessions@[k];
                        let post = final(self).active_sessions@[k];
                        &&& post.session == pre.session
                        &&& post.container == pre.container
                        &&& post.recorder.stdio_model() == pre.recorder.stdio_model()
                        &&& post.recorder.start_time_ms == pre.recorder.start_time_ms
                        &&& post.recorder.tcp.buffer(dir) == pre.recorder.tcp.buffer(dir)
                            + data@
                        &&& post.recorder.tcp.buffer(crate::tcp_capture::opposite(dir))
                            == pre.recorder.tcp.buffer(crate::tcp_capture::opposite(dir))
                        &&& post.recorder.tcp.timestamps@ == pre.recorder.tcp.timestamps@.push(
                            (now_ms, dir, data@.len() as usize),
                        )
                    }
                },
                Err(e) => {
                    &&& e matches SessionError::NotFound
                    &&& !has_active_id(old(self).active_sessions@, session_id)
                    &&& final(self).active_sessions@ == old(self).active_sessions@
                    &&& final(self).container_manager == old(self).container_manager
                },
            },
    {
        let ghost pre_active = old(self).active_sessions@;
        let k = match self.find_active_index(session_id) {
            Some(k) => k,
            None => {
                return Err(SessionError::NotFound);
            },
        };
        proof {
            let ki = active_index_of(pre_active, session_id);
            assert(pre_active[k as int].session@.id == session_id);
            assert(has_active_id(pre_active, session_id));
            assert(0 <= ki < pre_active.len() && pre_active[ki].session@.id == session_id);
            if ki != k as int {
                assert(pre_active[ki].session@.id != pre_active[k as int].session@.id);
            }
            assert(ki == k as int);
        }
        self.active_sessions[k].recorder.record_tcp_chunk(dir, data, now_ms);
        proof {
            self.lemma_wf_after_element_update(*old(self), k as int);
        }
        Ok(())
    }

    /// Parses an activity log into the session's stdio buffers.
    pub fn append_activity_log(&mut self, session_id: u128, log: &[u8], now_ms: i64) -> (r:
        Result<(), SessionError>)
        requires
            old(self).wf(),
        ensures
            final(self).wf(),
            final(self).max_sessions == old(self).max_sessions,
            final(self).session_timeout_ms == old(self).session_timeout_ms,
            final(self).storage == old(self).storage,
            match r {
                Ok(()) => {
                    &&& has_active_id(old(self).active_sessions@, session_id)
                    &&& final(self).active_sessions@.len() == old(self).active_sessions@.len()
                    &&& forall|j: int|
                        0 <= j < old(self).active_sessions@.len() && j != active_index_of(
                            old(self).active_sessions@,
                            session_id,
                        ) ==> final(self).active_sessions@[j] == old(self).active_sessions@[j]
                    &&& {
                        let k = active_index_of(old(self).active_sessions@, session_id);
                        let pre = old(self).active_sessions@[k];
                        let post = final(self).active_sessions@[k];
                        &&& post.session == pre.session
                        &&& post.container == pre.container
                        &&& post.recorder.tcp == pre.recorder.tcp
                        &&& post.recorder.start_time_ms == pre.recorder.start_time_ms
                        &&& post.recorder.stdio_model() == crate::stdio_capture::log_fold(
                            pre.recorder.stdio_model(),
                            crate::stdio_capture::split_lines(log@),
                            crate::stdio_capture::split_lines(log@).len() as int,
                            now_ms,
                        )
                    }
                },
                Err(e) => {
                    &&& e matches SessionError::NotFound
                    &&& !has_active_id(old(self).active_sessions@, session_id)
                    &&& final(self).active_sessions@ == old(self).active_sessions@
                    &&& final(self).container_manager == old(self).container_manager
                },
            },
    {
        let ghost pre_active = old(self).active_sessions@;
        let k = match self.find_active_index(session_id) {
            Some(k) => k,
            None => {
                return Err(SessionError::NotFound);
            },
        };
        proof {
            let ki = active_index_of(pre_active, session_id);
            assert(pre_active[k as int].session@.id == session_id);
            assert(has_active_id(pre_active, session_id));
            assert(0 <= ki < pre_active.len() && pre_active[ki].session@.id == session_id);
            if ki != k as int {
                assert(pre_active[ki].session@.id != pre_active[k as int].session@.id);
            }
            assert(ki == k as int);
        }
        self.active_sessions[k].recorder.parse_stdio_log(log, now_ms);
        proof {
            self.lemma_wf_after_element_update(*old(self), k as int);
        }
        Ok(())
    }

    /// Finalizes the capture of a session that stays active: persists the
    /// artifacts, updates the record's end time, transferred bytes and
    /// status, and persists the updated record. The container and the
    /// recorder are untouched.
    pub fn finalize_session_capture(&mut self, session_id: u128, now_ms: i64) -> (r: Result<
        (),
        SessionError,
    >)
        requires
            old(self).wf(),
            0 <= now_ms,
            can_finalize_id(old(self).active_sessions@, session_id, now_ms),
        ensures
            final(self).wf(),
            final(self).max_sessions == old(self).max_sessions,
            final(self).session_timeout_ms == old(self).session_timeout_ms,
            match r {
                Ok(()) => {
                    &&& has_active_id(old(self).active_sessions@, session_id)
                    &&& final(self).active_sessions@.len() == old(self).active_sessions@.len()
                    &&& forall|j: int|
                        0 <= j < old(self).active_sessions@.len() && j != active_index_of(
                            old(self).active_sessions@,
                            session_id,
                        ) ==> final(self).active_sessions@[j] == old(self).active_sessions@[j]
                    &&& {
                        let k = active_index_of(old(self).active_sessions@, session_id);
                        let pre = old(self).active_sessions@[k];
                        let post = final(self).active_sessions@[k];
                        &&& post.container == pre.container
                        &&& post.recorder == pre.recorder
                        &&& exists|av: ArtifactsView|
                            {
                                &&& av.session_id == session_id
                                &&& av.total_bytes == av.tcp_client_to_container.len()
                                    + av.tcp_container_to_client.len() + av.stdio_stdin.len()
                                    + av.stdio_stdout.len() + av.stdio_stderr.len()
                                &&& capture_of_recorder(
                                    av,
                                    old(self).active_sessions@[active_index_of(
                                        old(self).active_sessions@,
                                        session_id,
                                    )].recorder,
                                    now_ms,
                                )
                                &&& artifacts_upserted(
                                    old(self).storage.artifacts(),
                                    final(self).storage.artifacts(),
                                    av,
                                )
                                &&& post.session@ == finished_view(
                                    pre.session@,
                                    now_ms,
                                    av.total_bytes,
                                    true,
                                )
                                &&& session_upserted(
                                    old(self).storage.sessions(),
                                    final(self).storage.sessions(),
                                    post.session@,
                                )
                            }
                    }
                    &&& final(self).storage.interaction_log() == old(
                        self,
                    ).storage.interaction_log()
                    &&& final(self).storage.events() == old(self).storage.events().push(
                        StorageEvent::ArtifactsSaved(session_id),
                    ).push(StorageEvent::SessionSaved(session_id))
                },
                Err(e) => {
                    ||| {
                        &&& e matches SessionError::NotFound
                        &&& !has_active_id(old(self).active_sessions@, session_id)
                        &&& final(self).active_sessions@ == old(self).active_sessions@
                        &&& final(self).storage.events() == old(self).storage.events()
                    }
                    ||| {
                        &&& e matches SessionError::StorageError(_)
                        &&& has_active_id(old(self).active_sessions@, session_id)
                        &&& final(self).active_sessions@.len() == old(
                            self,
                        ).active_sessions@.len()
                        &&& forall|j: int|
                            0 <= j < old(self).active_sessions@.len() && j != active_index_of(
                                old(self).active_sessions@,
                                session_id,
                            ) ==> final(self).active_sessions@[j] == old(
                                self,
                            ).active_sessions@[j]
                        &&& final(self).storage.interaction_log() == old(
                            self,
                        ).storage.interaction_log()
                        &&& {
                            let k = active_index_of(old(self).active_sessions@, session_id);
                            let pre = old(self).active_sessions@[k];
                            let post = final(self).active_sessions@[k];
                            &&& post.container == pre.container
                            &&& post.recorder == pre.recorder
                            &&& exists|av: ArtifactsView|
                                {
                                    &&& av.session_id == session_id
                                    &&& av.total_bytes == av.tcp_client_to_container.len()
                                        + av.tcp_container_to_client.len()
                                        + av.stdio_stdin.len() + av.stdio_stdout.len()
                                        + av.stdio_stderr.len()
                                    &&& capture_of_recorder(
                                        av,
                                        old(self).active_sessions@[active_index_of(
                                            old(self).active_sessions@,
                                            session_id,
                                        )].recorder,
                                        now_ms,
                                    )
                                    &&& post.session@ == finished_view(
                                        pre.session@,
                                        now_ms,
                                        av.total_bytes,
                                        final(self).storage.events()[old(
                                            self,
                                        ).storage.events().len() as int]
                                            == StorageEvent::ArtifactsSaved(session_id),
                                    )
                                    &&& teardown_trail_on_failure(
                                        old(self).storage.sessions(),
                                        final(self).storage.sessions(),
                                        old(self).storage.artifacts(),
                                        final(self).storage.artifacts(),
                                        old(self).storage.events(),
                                        final(self).storage.events(),
                                        pre.session@,
                                        av,
                                        now_ms,
                                        session_id,
                                    )
                                }
                        }
                    }
                },
            },
    {
        let ghost pre_active = old(self).active_sessions@;
        let k = match self.find_active_index(session_id) {
            Some(k) => k,
            None => {
                return Err(SessionError::NotFound);
            },
        };
        proof {
            assert(pre_active[k as int].session@.id == session_id);
            assert(has_active_id(pre_active, session_id));
            let ki = active_index_of(pre_active, session_id);
            assert(0 <= ki < pre_active.len() && pre_active[ki].session@.id == session_id);
            if ki != k as int {
                assert(pre_active[ki].session@.id != pre_active[k as int].session@.id);
            }
            assert(ki == k as int);
        }
        let mut act = self.active_sessions.remove(k);
        act.session.end_time_ms = Some(now_ms);
        let artifacts = act.recorder.finalize_capture(now_ms);
        let saved_artifacts = match self.storage.save_capture_artifacts(&artifacts) {
            Ok(()) => true,
            Err(_) => false,
        };
        act.session.bytes_transferred = artifacts.total_bytes;
        act.session.status = if saved_artifacts {
            SessionStatus::Completed
        } else {
            SessionStatus::Error
        };
        proof {
            assert(act.session@ =~= finished_view(
                pre_active[k as int].session@,
                now_ms,
                artifacts@.total_bytes,
                saved_artifacts,
            ));
        }
        let saved_session = match self.storage.save_session(&act.session) {
            Ok(()) => true,
            Err(_) => false,
        };
        self.active_sessions.insert(k, act);
        proof {
            assert(self.active_sessions@ =~= pre_active.update(k as int, act));
            let e0 = old(self).storage.events();
            let e2 = self.storage.events();
            assert(e0.len() <= e2.len());
            assert(forall|i: int| 0 <= i < e0.len() ==> e2[i] == e0[i]);
            assert forall|i: int, eid: u128|
                0 <= i < e2.len() && e2[i] == StorageEvent::ArtifactsSaved(eid) implies exists|
                j: int,
            | 0 <= j < i && e2[j] == StorageEvent::SessionSaved(eid) by {
                if i < e0.len() {
                    let j = choose|j: int|
                        0 <= j < i && e0[j] == StorageEvent::SessionSaved(eid);
                    assert(e2[j] == StorageEvent::SessionSaved(eid));
                } else {
                    assert(eid == session_id);
                    let j = choose|j: int|
                        0 <= j < e0.len() && e0[j] == StorageEvent::SessionSaved(
                            pre_active[k as int].session@.id,
                        );
                    assert(e2[j] == StorageEvent::SessionSaved(eid));
                }
            }
            self.lemma_wf_after_record_update(*old(self), k as int);
            // The saved artifacts are exactly what the recorder captured.
            assert(capture_of_recorder(artifacts@, pre_active[k as int].recorder, now_ms));
            // Name the exact trail the two save calls left behind.
            if !(saved_artifacts && saved_session) {
                let av = artifacts@;
                let e0 = old(self).storage.events();
                assert(av.session_id == session_id);
                assert(av.total_bytes == av.tcp_client_to_container.len()
                    + av.tcp_container_to_client.len() + av.stdio_stdin.len()
                    + av.stdio_stdout.len() + av.stdio_stderr.len());
                let sv = pre_active[k as int].session@;
                if !saved_artifacts && saved_session {
                    assert(self.storage.events() == e0.push(
                        StorageEvent::ArtifactsSaveFailed(session_id),
                    ).push(StorageEvent::SessionSaved(session_id)));
                    assert(self.storage.events()[e0.len() as int]
                        == StorageEvent::ArtifactsSaveFailed(session_id));
                    assert(session_upserted(
                        old(self).storage.sessions(),
                        self.storage.sessions(),
                        finished_view(sv, now_ms, av.total_bytes, false),
                    ));
                } else if !saved_artifacts && !saved_session {
                    assert(self.storage.events() == e0.push(
                        StorageEvent::ArtifactsSaveFailed(session_id),
                    ).push(StorageEvent::SessionSaveFailed(session_id)));
                    assert(self.storage.events()[e0.len() as int]
                        == StorageEvent::ArtifactsSaveFailed(session_id));
                } else {
                    assert(self.storage.events() == e0.push(
                        StorageEvent::ArtifactsSaved(session_id),
                    ).push(StorageEvent::SessionSaveFailed(session_id)));
                    assert(self.storage.events()[e0.len() as int]
                        == StorageEvent::ArtifactsSaved(session_id));
                    assert(artifacts_upserted(
                        old(self).storage.artifacts(),
                        self.storage.artifacts(),
                        av,
                    ));
                }
                assert(saved_artifacts == (self.storage.events()[e0.len() as int]
                    == StorageEvent::ArtifactsSaved(session_id)));
                assert(self.active_sessions@[k as int].session@ == finished_view(
                    sv,
                    now_ms,
                    av.total_bytes,
                    saved_artifacts,
                ));
                assert(teardown_trail_on_failure(
                    old(self).storage.sessions(),
                    self.storage.sessions(),
                    old(self).storage.artifacts(),
                    self.storage.artifacts(),
                    e0,
                    self.storage.events(),
                    sv,
                    av,
                    now_ms,
                    session_id,
                ));
            }
        }
        if saved_artifacts && saved_session {
            Ok(())
        } else {
            Err(SessionError::StorageError(StorageError::WriteFailed))
        }
    }

    /// Restores well-formedness after one active session's record was
    /// updated in place under its own id, possibly alongside storage saves
    /// that extend the event trace.
    proof fn lemma_wf_after_record_update(&self, pre: SessionManager<S>, k: int)
        requires
            pre.wf(),
            0 <= k < pre.active_sessions@.len(),
            self.max_sessions == pre.max_sessions,
            self.storage.inv(),
            events_ordered(self.storage.events()),
            pre.storage.events().len() <= self.storage.events().len(),
            forall|i: int|
                0 <= i < pre.storage.events().len() ==> self.storage.events()[i]
                    == pre.storage.events()[i],
            self.container_manager == pre.container_manager,
            self.active_sessions@.len() == pre.active_sessions@.len(),
            forall|j: int|
                0 <= j < pre.active_sessions@.len() && j != k ==> self.active_sessions@[j]
                    == pre.active_sessions@[j],
            self.active_sessions@[k].session@.id == pre.active_sessions@[k].session@.id,
            self.active_sessions@[k].container == pre.active_sessions@[k].container,
            self.active_sessions@[k].recorder == pre.active_sessions@[k].recorder,
        ensures
            self.wf(),
    {
        assert(container_views(self.active_sessions@) =~= container_views(pre.active_sessions@));
        assert forall|i: int, j: int|
            0 <= i < j < self.active_sessions@.len()
                implies #[trigger] self.active_sessions@[i].session@.id != (
        #[trigger] self.active_sessions@[j].session@.id) by {
            assert(self.active_sessions@[i].session@.id == pre.active_sessions@[i].session@.id);
            assert(self.active_sessions@[j].session@.id == pre.active_sessions@[j].session@.id);
            assert(pre.active_sessions@[i].session@.id != pre.active_sessions@[j].session@.id);
        }
        assert forall|i: int| 0 <= i < self.active_sessions@.len() implies {
            &&& (#[trigger] self.active_sessions@[i]).recorder.wf()
            &&& self.active_sessions@[i].recorder.session_id
                == self.active_sessions@[i].session@.id
            &&& self.active_sessions@[i].recorder.start_time_ms >= 0
        } by {
            if i != k {
                assert(self.active_sessions@[i] == pre.active_sessions@[i]);
            }
        }
        assert forall|i: int| 0 <= i < self.active_sessions@.len() implies exists|j: int|
            0 <= j < self.storage.events().len() && self.storage.events()[j]
                == StorageEvent::SessionSaved(
                (#[trigger] self.active_sessions@[i]).session@.id,
            ) by {
            assert(self.active_sessions@[i].session@.id == pre.active_sessions@[i].session@.id);
            let j = choose|j: int|
                0 <= j < pre.storage.events().len() && pre.storage.events()[j]
                    == StorageEvent::SessionSaved(pre.active_sessions@[i].session@.id);
            assert(self.storage.events()[j] == StorageEvent::SessionSaved(
                self.active_sessions@[i].session@.id,
            ));
        }
    }

    /// Restores well-formedness after one active session's recorder was
    /// updated in place: record and container untouched, recorder still
    /// well formed and bound to the same session.
    proof fn lemma_wf_after_element_update(&self, pre: SessionManager<S>, k: int)
        requires
            pre.wf(),
            0 <= k < pre.active_sessions@.len(),
            self.max_sessions == pre.max_sessions,
            self.storage == pre.storage,
            self.container_manager == pre.container_manager,
            self.active_sessions@.len() == pre.active_sessions@.len(),
            forall|j: int|
                0 <= j < pre.active_sessions@.len() && j != k ==> self.active_sessions@[j]
                    == pre.active_sessions@[j],
            self.active_sessions@[k].session == pre.active_sessions@[k].session,
            self.active_sessions@[k].container == pre.active_sessions@[k].container,
            self.active_sessions@[k].recorder.wf(),
            self.active_sessions@[k].recorder.session_id
                == pre.active_sessions@[k].recorder.session_id,
            self.active_sessions@[k].recorder.start_time_ms
                == pre.active_sessions@[k].recorder.start_time_ms,
        ensures
            self.wf(),
    {
        assert(container_views(self.active_sessions@) =~= container_views(pre.active_sessions@));
        assert forall|i: int, j: int|
            0 <= i < j < self.active_sessions@.len()
                implies #[trigger] self.active_sessions@[i].session@.id != (
        #[trigger] self.active_sessions@[j].session@.id) by {
            assert(self.active_sessions@[i].session == pre.active_sessions@[i].session);
            assert(self.active_sessions@[j].session == pre.active_sessions@[j].session);
            assert(pre.active_sessions@[i].session@.id != pre.active_sessions@[j].session@.id);
        }
        assert forall|i: int| 0 <= i < self.active_sessions@.len() implies {
            &&& (#[trigger] self.active_sessions@[i]).recorder.wf()
            &&& self.active_sessions@[i].recorder.session_id
                == self.active_sessions@[i].session@.id
            &&& self.active_sessions@[i].recorder.start_time_ms >= 0
        } by {
            if i != k {
                assert(self.active_sessions@[i] == pre.active_sessions@[i]);
            }
        }
        assert forall|i: int| 0 <= i < self.active_sessions@.len() implies exists|j: int|
            0 <= j < self.storage.events().len() && self.storage.events()[j]
                == StorageEvent::SessionSaved(
                (#[trigger] self.active_sessions@[i]).session@.id,
            ) by {
            assert(self.active_sessions@[i].session == pre.active_sessions@[i].session);
            let j = choose|j: int|
                0 <= j < pre.storage.events().len() && pre.storage.events()[j]
                    == StorageEvent::SessionSaved(pre.active_sessions@[i].session@.id);
            assert(self.storage.events()[j] == StorageEvent::SessionSaved(
                self.active_sessions@[i].session@.id,
            ));
        }
    }

    /// Whether every active session's recorder can finalize at `now_ms` —
    /// the executable test for the precondition of the teardown
    /// operations, so a caller can check a clock reading before using it.
    pub fn can_finalize(&self, now_ms: i64) -> (r: bool)
        ensures
            r == can_finalize_all(self.active_sessions@, now_ms),
    {
        let n = self.active_sessions.len();
        let mut i: usize = 0;
        while i < n
            invariant
                n == self.active_sessions@.len(),
                i <= n,
                forall|j: int|
                    0 <= j < i ==> {
                        &&& (#[trigger] self.active_sessions@[j]).recorder.start_time_ms
                            <= now_ms
                        &&& self.active_sessions@[j].recorder.total_capture_len() <= u64::MAX
                    },
            decreases n - i,
        {
            let a = &self.active_sessions[i];
            if !(a.recorder.start_time_ms <= now_ms) {
                return false;
            }
            let tcp_total: u128 = a.recorder.tcp.client_to_container.len() as u128
                + a.recorder.tcp.container_to_client.len() as u128;
            let stdio_total: u128 = match &a.recorder.stdio {
                Some(c) => c.stdin_data.len() as u128 + c.stdout_data.len() as u128
                    + c.stderr_data.len() as u128,
                None => 0u128,
            };
            let total: u128 = tcp_total + stdio_total;
            proof {
                assert(total as int == self.active_sessions@[i as int].recorder
                    .total_capture_len());
            }
            if !(total <= u64::MAX as u128) {
                return false;
            }
            i = i + 1;
        }
        true
    }

    /// Returns the session's status, transferred bytes, and duration so
    /// far, bounded into the machine's range.
    pub fn get_session_stats(&self, session_id: u128, now_ms: i64) -> (r: Option<
        (SessionStatus, u64, i64),
    >)
        requires
            self.wf(),
        ensures
            match r {
                Some((st, bytes, d)) => {
                    &&& has_active_id(self.active_sessions@, session_id)
                    &&& {
                        let sv = active_view_of(self.active_sessions@, session_id);
                        st == sv.status && bytes == sv.bytes_transferred && d == clamp_i64(
                            session_duration_ms(sv, now_ms),
                        )
                    }
                },
                None => !has_active_id(self.active_sessions@, session_id),
            },
    {
        let k = match self.find_active_index(session_id) {
            Some(k) => k,
            None => {
                return None;
            },
        };
        proof {
            let ki = active_index_of(self.active_sessions@, session_id);
            assert(self.active_sessions@[k as int].session@.id == session_id);
            assert(has_active_id(self.active_sessions@, session_id));
            assert(0 <= ki < self.active_sessions@.len() && self.active_sessions@[ki].session@.id
                == session_id);
            if ki != k as int {
                assert(self.active_sessions@[ki].session@.id
                    != self.active_sessions@[k as int].session@.id);
            }
            assert(ki == k as int);
        }
        let s = &self.active_sessions[k].session;
        let upto: i64 = match s.end_time_ms {
            Some(e) => e,
            None => now_ms,
        };
        let diff: i128 = (upto as i128) - (s.start_time_ms as i128);
        let d: i64 = if diff > i64::MAX as i128 {
            i64::MAX
        } else if diff < i64::MIN as i128 {
            i64::MIN
        } else {
            diff as i64
        };
        Some((s.status, s.bytes_transferred, d))
    }
}

/// Whether every active session's recorder can finalize at `now_ms`: each
/// started no later than `now_ms` and holds no more bytes than the total
/// counter can carry.
pub open spec fn can_finalize_all(s: Seq<ActiveSession>, now_ms: i64) -> bool {
    forall|i: int|
        0 <= i < s.len() ==> {
            &&& (#[trigger] s[i]).recorder.start_time_ms <= now_ms
            &&& s[i].recorder.total_capture_len() <= u64::MAX
        }
}

/// Whether the one active session carrying the id (if any) can finalize at
/// `now_ms`: it started no later than `now_ms` and holds no more bytes than
/// the total counter can carry.
pub open spec fn can_finalize_id(s: Seq<ActiveSession>, id: u128, now_ms: i64) -> bool {
    forall|i: int|
        0 <= i < s.len() && (#[trigger] s[i]).session@.id == id ==> {
            &&& s[i].recorder.start_time_ms <= now_ms
            &&& s[i].recorder.total_capture_len() <= u64::MAX
        }
}

/// Whether `now_ms` lies at or after the last chunk time recorded for the
/// direction by the session carrying the id (if any): the clock handed to
/// the recorder never steps backwards within one direction.
pub open spec fn tcp_clock_ok(
    s: Seq<ActiveSession>,
    id: u128,
    dir: crate::types::Direction,
    now_ms: i64,
) -> bool {
    forall|i: int|
        0 <= i < s.len() && (#[trigger] s[i]).session@.id == id
            ==> crate::tcp_capture::dir_last_time(s[i].recorder.tcp.timestamps@, dir) <= now_ms
}

/// The newer event trace keeps the older one as a prefix.
pub open spec fn events_extend(pre: Seq<StorageEvent>, post: Seq<StorageEvent>) -> bool {
    &&& pre.len() <= post.len()
    &&& forall|i: int| 0 <= i < pre.len() ==> post[i] == pre[i]
}

/// The session's capture teardown was driven through the backend: among the
/// events appended since `pre`, an artifacts-save outcome for the id is
/// followed by a session-save outcome for the id. A body that merely drops
/// the session cannot leave this trail.
pub open spec fn teardown_attempted(
    pre: Seq<StorageEvent>,
    post: Seq<StorageEvent>,
    id: u128,
) -> bool {
    exists|i: int, j: int|
        pre.len() <= i < j < post.len() && is_artifacts_save_outcome(#[trigger] post[i], id)
            && is_session_save_outcome(#[trigger] post[j], id)
}

/// The trace extension holds nothing but teardown outcomes of sessions in
/// the given active set.
pub open spec fn only_teardown_outcomes(
    pre: Seq<StorageEvent>,
    post: Seq<StorageEvent>,
    active: Seq<ActiveSession>,
) -> bool {
    forall|i: int|
        pre.len() <= i < post.len() ==> exists|id: u128|
            has_active_id(active, id) && (is_artifacts_save_outcome(#[trigger] post[i], id)
                || is_session_save_outcome(post[i], id))
}

/// A recorded teardown trail survives any further extension of the trace.
pub proof fn lemma_teardown_attempted_extend(
    pre: Seq<StorageEvent>,
    mid: Seq<StorageEvent>,
    post: Seq<StorageEvent>,
    id: u128,
)
    requires
        teardown_attempted(pre, mid, id),
        pre.len() <= mid.len(),
        events_extend(mid, post),
    ensures
        teardown_attempted(pre, post, id),
{
    let (i, j) = choose|i: int, j: int|
        pre.len() <= i < j < mid.len() && is_artifacts_save_outcome(#[trigger] mid[i], id)
            && is_session_save_outcome(#[trigger] mid[j], id);
    assert(post[i] == mid[i] && post[j] == mid[j]);
}

/// The artifacts record is exactly what the recorder captured: both TCP
/// buffers, the three stdio streams, both timestamp series, and the
/// duration from the recording's start to `now_ms`.
pub open spec fn capture_of_recorder(av: ArtifactsView, rec: StreamRecorder, now_ms: i64) -> bool {
    &&& av.tcp_client_to_container == rec.tcp.buffer(crate::types::Direction::ClientToContainer)
    &&& av.tcp_container_to_client == rec.tcp.buffer(crate::types::Direction::ContainerToClient)
    &&& av.stdio_stdin == rec.stdio_model().stdin
    &&& av.stdio_stdout == rec.stdio_model().stdout
    &&& av.stdio_stderr == rec.stdio_model().stderr
    &&& av.tcp_timestamps == rec.tcp.timestamps@
    &&& av.stdio_timestamps == rec.stdio_model().timestamps
    &&& av.duration_ms == now_ms - rec.start_time_ms
}

/// What a teardown whose saves the backend partly refused left behind: the
/// refusals stand in the trace, and exactly the accepted records were
/// upserted. The record is marked errored exactly when the artifacts save
/// was refused.
pub open spec fn teardown_trail_on_failure(
    pre_sessions: Seq<SessionView>,
    post_sessions: Seq<SessionView>,
    pre_artifacts: Seq<ArtifactsView>,
    post_artifacts: Seq<ArtifactsView>,
    pre_events: Seq<StorageEvent>,
    post_events: Seq<StorageEvent>,
    sv: SessionView,
    av: ArtifactsView,
    now_ms: i64,
    id: u128,
) -> bool {
    ||| {
        // The artifacts save was refused; the errored record was accepted.
        &&& post_events == pre_events.push(StorageEvent::ArtifactsSaveFailed(id)).push(
            StorageEvent::SessionSaved(id),
        )
        &&& post_artifacts == pre_artifacts
        &&& session_upserted(
            pre_sessions,
            post_sessions,
            finished_view(sv, now_ms, av.total_bytes, false),
        )
    }
    ||| {
        // Both saves were refused.
        &&& post_events == pre_events.push(StorageEvent::ArtifactsSaveFailed(id)).push(
            StorageEvent::SessionSaveFailed(id),
        )
        &&& post_artifacts == pre_artifacts
        &&& post_sessions == pre_sessions
    }
    ||| {
        // The artifacts were accepted; the record save was refused.
        &&& post_events == pre_events.push(StorageEvent::ArtifactsSaved(id)).push(
            StorageEvent::SessionSaveFailed(id),
        )
        &&& artifacts_upserted(pre_artifacts, post_artifacts, av)
        &&& post_sessions == pre_sessions
    }
}

/// The index of the active session with the id.
pub open spec fn active_index_of(s: Seq<ActiveSession>, id: u128) -> int {
    choose|i: int| 0 <= i < s.len() && s[i].session@.id == id
}

/// The view of the active session with the id.
pub open spec fn active_view_of(s: Seq<ActiveSession>, id: u128) -> SessionView {
    s[active_index_of(s, id)].session@
}

impl<S: Storage> SessionManager<S> {
    /// Ends the session: removes it from the active set, finalizes its
    /// capture, persists the artifacts and the updated record, and releases
    /// its container. The persisted artifacts account for exactly the bytes
    /// they carry, and the persisted record's transferred-bytes counter
    /// equals the artifacts' total. Storage failures mark the record as
    /// errored; the container is released on every path.
    #[verifier::rlimit(60)]
    pub fn end_session(&mut self, session_id: u128, now_ms: i64) -> (r: Result<(), SessionError>)
        requires
            old(self).wf(),
            0 <= now_ms,
            can_finalize_id(old(self).active_sessions@, session_id, now_ms),
        ensures
            final(self).wf(),
            final(self).max_sessions == old(self).max_sessions,
            final(self).session_timeout_ms == old(self).session_timeout_ms,
            match r {
                Ok(()) => {
                    &&& has_active_id(old(self).active_sessions@, session_id)
                    &&& final(self).active_sessions@ == old(self).active_sessions@.remove(
                        active_index_of(old(self).active_sessions@, session_id),
                    )
                    &&& exists|av: ArtifactsView|
                        {
                            &&& av.session_id == session_id
                            &&& av.total_bytes == av.tcp_client_to_container.len()
                                + av.tcp_container_to_client.len() + av.stdio_stdin.len()
                                + av.stdio_stdout.len() + av.stdio_stderr.len()
                            &&& capture_of_recorder(
                                av,
                                old(self).active_sessions@[active_index_of(
                                    old(self).active_sessions@,
                                    session_id,
                                )].recorder,
                                now_ms,
                            )
                            &&& artifacts_upserted(
                                old(self).storage.artifacts(),
                                final(self).storage.artifacts(),
                                av,
                            )
                            &&& session_upserted(
                                old(self).storage.sessions(),
                                final(self).storage.sessions(),
                                finished_view(
                                    active_view_of(old(self).active_sessions@, session_id),
                                    now_ms,
                                    av.total_bytes,
                                    true,
                                ),
                            )
                        }
                    &&& final(self).storage.interaction_log() == old(
                        self,
                    ).storage.interaction_log()
                    &&& final(self).storage.events() == old(self).storage.events().push(
                        StorageEvent::ArtifactsSaved(session_id),
                    ).push(StorageEvent::SessionSaved(session_id))
                },
                Err(e) => {
                    ||| {
                        &&& e matches SessionError::NotFound
                        &&& !has_active_id(old(self).active_sessions@, session_id)
                        &&& final(self).active_sessions@ == old(self).active_sessions@
                        &&& final(self).container_manager.registry() == old(
                            self,
                        ).container_manager.registry()
                        &&& final(self).storage.events() == old(self).storage.events()
                    }
                    ||| {
                        &&& e matches SessionError::StorageError(_)
                        &&& has_active_id(old(self).active_sessions@, session_id)
                        &&& final(self).active_sessions@ == old(self).active_sessions@.remove(
                            active_index_of(old(self).active_sessions@, session_id),
                        )
                        &&& final(self).storage.interaction_log() == old(
                            self,
                        ).storage.interaction_log()
                        &&& exists|av: ArtifactsView|
                            {
                                &&& av.session_id == session_id
                                &&& av.total_bytes == av.tcp_client_to_container.len()
                                    + av.tcp_container_to_client.len() + av.stdio_stdin.len()
                                    + av.stdio_stdout.len() + av.stdio_stderr.len()
                                &&& capture_of_recorder(
                                    av,
                                    old(self).active_sessions@[active_index_of(
                                        old(self).active_sessions@,
                                        session_id,
                                    )].recorder,
                                    now_ms,
                                )
                                &&& teardown_trail_on_failure(
                                    old(self).storage.sessions(),
                                    final(self).storage.sessions(),
                                    old(self).storage.artifacts(),
                                    final(self).storage.artifacts(),
                                    old(self).storage.events(),
                                    final(self).storage.events(),
                                    active_view_of(old(self).active_sessions@, session_id),
                                    av,
                                    now_ms,
                                    session_id,
                                )
                            }
                    }
                },
            },
    {
        let ghost pre_active = old(self).active_sessions@;
        let k = match self.find_active_index(session_id) {
            Some(k) => k,
            None => {
                return Err(SessionError::NotFound);
            },
        };
        proof {
            assert(pre_active[k as int].session@.id == session_id);
            assert(has_active_id(pre_active, session_id));
            // The found index is the unique index carrying the id.
            let ki = active_index_of(pre_active, session_id);
            assert(0 <= ki < pre_active.len() && pre_active[ki].session@.id == session_id);
            if ki != k as int {
                assert(pre_active[ki].session@.id != pre_active[k as int].session@.id);
            }
            assert(ki == k as int);
        }
        let mut act = self.active_sessions.remove(k);
        act.session.end_time_ms = Some(now_ms);
        let artifacts = act.recorder.finalize_capture(now_ms);
        let saved_artifacts = match self.storage.save_capture_artifacts(&artifacts) {
            Ok(()) => true,
            Err(_) => false,
        };
        act.session.bytes_transferred = artifacts.total_bytes;
        act.session.status = if saved_artifacts {
            SessionStatus::Completed
        } else {
            SessionStatus::Error
        };
        proof {
            assert(act.session@ =~= finished_view(
                active_view_of(pre_active, session_id),
                now_ms,
                artifacts@.total_bytes,
                saved_artifacts,
            ));
        }
        let saved_session = match self.storage.save_session(&act.session) {
            Ok(()) => true,
            Err(_) => false,
        };
        let handle = act.container.duplicate();
        match self.container_manager.cleanup_container(handle) {
            Ok(()) => {},
            Err(_) => {},
        }
        proof {
            let e0 = old(self).storage.events();
            let e2 = self.storage.events();
            assert(e0.len() <= e2.len());
            assert(forall|i: int| 0 <= i < e0.len() ==> e2[i] == e0[i]);
            assert forall|i: int, eid: u128|
                0 <= i < e2.len() && e2[i] == StorageEvent::ArtifactsSaved(eid) implies exists|
                j: int,
            | 0 <= j < i && e2[j] == StorageEvent::SessionSaved(eid) by {
                if i < e0.len() {
                    let j = choose|j: int|
                        0 <= j < i && e0[j] == StorageEvent::SessionSaved(eid);
                    assert(e2[j] == StorageEvent::SessionSaved(eid));
                } else {
                    // The only appended artifacts event is for this session,
                    // whose record was saved when it was admitted.
                    assert(eid == session_id);
                    let j = choose|j: int|
                        0 <= j < e0.len() && e0[j] == StorageEvent::SessionSaved(
                            pre_active[k as int].session@.id,
                        );
                    assert(e2[j] == StorageEvent::SessionSaved(eid));
                }
            }
            self.lemma_restore_wf_after_removal(pre_active, k as int, *old(self));
            // The saved artifacts are exactly what the recorder captured.
            assert(capture_of_recorder(artifacts@, pre_active[k as int].recorder, now_ms));
            // Name the exact trail the two save calls left behind.
            if !(saved_artifacts && saved_session) {
                let av = artifacts@;
                assert(av.session_id == session_id);
                assert(av.total_bytes == av.tcp_client_to_container.len()
                    + av.tcp_container_to_client.len() + av.stdio_stdin.len()
                    + av.stdio_stdout.len() + av.stdio_stderr.len());
                let sv = active_view_of(pre_active, session_id);
                if !saved_artifacts && saved_session {
                    assert(self.storage.events() == old(self).storage.events().push(
                        StorageEvent::ArtifactsSaveFailed(session_id),
                    ).push(StorageEvent::SessionSaved(session_id)));
                    assert(session_upserted(
                        old(self).storage.sessions(),
                        self.storage.sessions(),
                        finished_view(sv, now_ms, av.total_bytes, false),
                    ));
                } else if !saved_artifacts && !saved_session {
                    assert(self.storage.events() == old(self).storage.events().push(
                        StorageEvent::ArtifactsSaveFailed(session_id),
                    ).push(StorageEvent::SessionSaveFailed(session_id)));
                } else {
                    assert(self.storage.events() == old(self).storage.events().push(
                        StorageEvent::ArtifactsSaved(session_id),
                    ).push(StorageEvent::SessionSaveFailed(session_id)));
                    assert(artifacts_upserted(
                        old(self).storage.artifacts(),
                        self.storage.artifacts(),
                        av,
                    ));
                }
                assert(teardown_trail_on_failure(
                    old(self).storage.sessions(),
                    self.storage.sessions(),
                    old(self).storage.artifacts(),
                    self.storage.artifacts(),
                    old(self).storage.events(),
                    self.storage.events(),
                    sv,
                    av,
                    now_ms,
                    session_id,
                ));
            }
        }
        if saved_artifacts && saved_session {
            Ok(())
        } else {
            Err(SessionError::StorageError(StorageError::WriteFailed))
        }
    }

    /// After removing the session at `k` and releasing its container, the
    /// engine is well formed again.
    proof fn lemma_restore_wf_after_removal(
        &self,
        pre_active: Seq<ActiveSession>,
        k: int,
        pre: SessionManager<S>,
    )
        requires
            0 <= k < pre_active.len(),
            pre.wf(),
            pre.active_sessions@ == pre_active,
            self.max_sessions == pre.max_sessions,
            self.active_sessions@ == pre_active.remove(k),
            self.storage.inv(),
            events_ordered(self.storage.events()),
            pre.storage.events().len() <= self.storage.events().len(),
            forall|i: int|
                0 <= i < pre.storage.events().len() ==> self.storage.events()[i]
                    == pre.storage.events()[i],
            self.container_manager.wf(),
            self.container_manager.registry() == pre.container_manager.registry().filter(
                |h: HandleView| h.id != pre_active[k].container@.id,
            ),
        ensures
            self.wf(),
    {
        let cid = pre_active[k].container@.id;
        let reg = pre.container_manager.registry();
        let cv = container_views(pre_active);
        assert(cv == reg);
        assert(cv[k] == pre_active[k].container@);
        assert(reg[k].id == cid);
        assert forall|j: int| 0 <= j < reg.len() && j != k implies (#[trigger] reg[j]).id
            != cid by {
            if j < k {
                assert(reg[j].id != reg[k].id);
            } else {
                assert(reg[k].id != reg[j].id);
            }
        }
        lemma_filter_removes_one(reg, |h: HandleView| h.id != cid, k);
        assert(self.container_manager.registry() == reg.remove(k));
        pre_active.remove_ensures(k);
        reg.remove_ensures(k);
        assert(container_views(self.active_sessions@) =~= reg.remove(k));
        assert forall|a: int, b: int|
            0 <= a < b < self.active_sessions@.len()
                implies #[trigger] self.active_sessions@[a].session@.id != (
        #[trigger] self.active_sessions@[b].session@.id) by {
            let a0 = if a < k {
                a
            } else {
                a + 1
            };
            let b0 = if b < k {
                b
            } else {
                b + 1
            };
            assert(self.active_sessions@[a] == pre_active[a0]);
            assert(self.active_sessions@[b] == pre_active[b0]);
            assert(pre_active[a0].session@.id != pre_active[b0].session@.id);
        }
        assert forall|i: int| 0 <= i < self.active_sessions@.len() implies {
            &&& (#[trigger] self.active_sessions@[i]).recorder.wf()
            &&& self.active_sessions@[i].recorder.session_id
                == self.active_sessions@[i].session@.id
            &&& self.active_sessions@[i].recorder.start_time_ms >= 0
        } by {
            let i0 = if i < k {
                i
            } else {
                i + 1
            };
            assert(self.active_sessions@[i] == pre_active[i0]);
        }
        assert forall|i: int| 0 <= i < self.active_sessions@.len() implies exists|j: int|
            0 <= j < self.storage.events().len() && self.storage.events()[j]
                == StorageEvent::SessionSaved(
                (#[trigger] self.active_sessions@[i]).session@.id,
            ) by {
            let i0 = if i < k {
                i
            } else {
                i + 1
            };
            assert(self.active_sessions@[i] == pre_active[i0]);
            let j = choose|j: int|
                0 <= j < pre.storage.events().len() && pre.storage.events()[j]
                    == StorageEvent::SessionSaved(pre_active[i0].session@.id);
            assert(self.storage.events()[j] == StorageEvent::SessionSaved(
                pre_active[i0].session@.id,
            ));
        }
    }
}

/// The view of a freshly admitted session.
pub open spec fn new_session_view(
    id: u128,
    service_name: Seq<char>,
    client_ip: Seq<char>,
    client_port: u16,
    start_time_ms: i64,
    container_id: Seq<char>,
) -> SessionView {
    SessionView {
        id,
        service_name,
        client_ip,
        client_port,
        start_time_ms,
        end_time_ms: None,
        container_id: Some(container_id),
        bytes_transferred: 0,
        status: SessionStatus::Active,
    }
}

} // verus!
