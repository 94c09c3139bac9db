//! The persistence contract.
//!
//! A backend stores session records (one per id, upsert), an append-only
//! interaction log, and capture artifacts (one record per session id,
//! upsert). The contract is stated over a mathematical model: the sequence
//! of stored session views, the interaction log in call order, the stored
//! artifact views, and an event trace that fixes the order in which records
//! of one session were first saved.

use vstd::prelude::*;

use crate::errors::StorageError;
use crate::recorder::{ArtifactsView, CaptureArtifacts};
use crate::session::{Session, SessionView};
use crate::types::SessionStatus;

verus! {

/// One persistence call, as recorded in the model's event trace. Every
/// save call leaves an event — a success or a refusal — so a contract over
/// the trace can demand that a save was at least attempted.
#[derive(Debug, Clone, Copy, PartialEq, Eq, Structural)]
pub enum StorageEvent {
    /// `save_session` succeeded for the id.
    SessionSaved(u128),
    /// `save_session` was refused by the backend for the id.
    SessionSaveFailed(u128),
    /// `save_interaction` succeeded for the id.
    InteractionSaved(u128),
    /// `save_interaction` was refused by the backend for the id.
    InteractionSaveFailed(u128),
    /// `save_capture_artifacts` succeeded for the id.
    ArtifactsSaved(u128),
    /// `save_capture_artifacts` was refused by the backend for the id.
    ArtifactsSaveFailed(u128),
}

/// Whether the event is the outcome — accepted or refused — of an
/// artifacts save for the id.
pub open spec fn is_artifacts_save_outcome(e: StorageEvent, id: u128) -> bool {
    e == StorageEvent::ArtifactsSaved(id) || e == StorageEvent::ArtifactsSaveFailed(id)
}

/// Whether the event is the outcome — accepted or refused — of a session
/// save for the id.
pub open spec fn is_session_save_outcome(e: StorageEvent, id: u128) -> bool {
    e == StorageEvent::SessionSaved(id) || e == StorageEvent::SessionSaveFailed(id)
}

/// Whether a stored session with the id exists.
pub open spec fn has_session_id(s: Seq<SessionView>, id: u128) -> bool {
    exists|i: int| 0 <= i < s.len() && s[i].id == id
}

/// Whether stored artifacts with the session id exist.
pub open spec fn has_artifacts_id(a: Seq<ArtifactsView>, id: u128) -> bool {
    exists|i: int| 0 <= i < a.len() && a[i].session_id == id
}

/// Each stored session carries a distinct id.
pub open spec fn unique_session_ids(s: Seq<SessionView>) -> bool {
    forall|i: int, j: int| 0 <= i < j < s.len() ==> s[i].id != s[j].id
}

/// Each stored artifacts record carries a distinct session id.
pub open spec fn unique_artifact_ids(a: Seq<ArtifactsView>) -> bool {
    forall|i: int, j: int| 0 <= i < j < a.len() ==> a[i].session_id != a[j].session_id
}

/// `post` is `pre` with `x` saved by id: the record with `x`'s id is
/// replaced where one exists, appended otherwise.
pub open spec fn session_upserted(pre: Seq<SessionView>, post: Seq<SessionView>, x: SessionView) -> bool {
    if has_session_id(pre, x.id) {
        &&& post.len() == pre.len()
        &&& forall|i: int|
            0 <= i < pre.len() ==> post[i] == (if pre[i].id == x.id {
                x
            } else {
                pre[i]
            })
    } else {
        post == pre.push(x)
    }
}

/// `post` is `pre` with `x` saved by session id.
pub open spec fn artifacts_upserted(
    pre: Seq<ArtifactsView>,
    post: Seq<ArtifactsView>,
    x: ArtifactsView,
) -> bool {
    if has_artifacts_id(pre, x.session_id) {
        &&& post.len() == pre.len()
        &&& forall|i: int|
            0 <= i < pre.len() ==> post[i] == (if pre[i].session_id == x.session_id {
                x
            } else {
                pre[i]
            })
    } else {
        post == pre.push(x)
    }
}

/// Concatenation, in call order, of the interaction chunks saved for `id`.
pub open spec fn session_data_of(log: Seq<(u128, Seq<u8>)>, id: u128) -> Seq<u8>
    decreases log.len(),
{
    if log.len() == 0 {
        Seq::empty()
    } else {
        session_data_of(log.drop_last(), id) + (if log.last().0 == id {
            log.last().1
        } else {
            Seq::<u8>::empty()
        })
    }
}

/// Law: appending an interaction chunk appends exactly its bytes to its
/// session's concatenated data, and leaves every other session's data
/// unchanged — so a sequence of saves concatenates in call order.
pub proof fn lemma_session_data_append(
    log: Seq<(u128, Seq<u8>)>,
    id: u128,
    chunk_id: u128,
    data: Seq<u8>,
)
    ensures
        chunk_id == id ==> session_data_of(log.push((chunk_id, data)), id) == session_data_of(
            log,
            id,
        ) + data,
        chunk_id != id ==> session_data_of(log.push((chunk_id, data)), id) == session_data_of(
            log,
            id,
        ),
{
    let pushed = log.push((chunk_id, data));
    assert(pushed.drop_last() =~= log);
    assert(pushed.last() == (chunk_id, data));
    if chunk_id != id {
        assert(session_data_of(pushed, id) =~= session_data_of(log, id));
    }
}

/// Whether `pre` holds a session with `id` that a cleanup at `cutoff_ms`
/// removes: its coalesced timestamp lies strictly before the cutoff.
pub open spec fn session_expired(pre: Seq<SessionView>, id: u128, cutoff_ms: i64) -> bool {
    exists|i: int| 0 <= i < pre.len() && pre[i].id == id && pre[i].coalesced_time_ms() < cutoff_ms
}

/// Mathematical view of a query filter.
#[verifier::ext_equal]
pub ghost struct FilterView {
    pub service_name: Option<Seq<char>>,
    pub start_date_ms: Option<i64>,
    pub end_date_ms: Option<i64>,
    pub client_ip: Option<Seq<char>>,
    pub status: Option<SessionStatus>,
}

/// The always-true filter, used when a query passes no criteria.
pub open spec fn empty_filter() -> FilterView {
    FilterView {
        service_name: None,
        start_date_ms: None,
        end_date_ms: None,
        client_ip: None,
        status: None,
    }
}

/// Criteria for filtering session queries.
pub struct SessionFilter {
    /// Match by exact service name.
    pub service_name: Option<String>,
    /// Sessions starting at or after this time.
    pub start_date_ms: Option<i64>,
    /// Sessions whose coalesced timestamp is at or before this time.
    pub end_date_ms: Option<i64>,
    /// Match sessions by client IP address.
    pub client_ip: Option<String>,
    /// Match by session status.
    pub status: Option<SessionStatus>,
}

impl View for SessionFilter {
    type V = FilterView;

    open spec fn view(&self) -> FilterView {
        FilterView {
            service_name: match self.service_name {
                Some(s) => Some(s@),
                None => None,
            },
            start_date_ms: self.start_date_ms,
            end_date_ms: self.end_date_ms,
            client_ip: match self.client_ip {
                Some(s) => Some(s@),
                None => None,
            },
            status: self.status,
        }
    }
}

impl SessionFilter {
    /// A filter with no criteria; it matches every session.
    pub fn none() -> (r: SessionFilter)
        ensures
            r@ == empty_filter(),
    {
        let r = SessionFilter {
            service_name: None,
            start_date_ms: None,
            end_date_ms: None,
            client_ip: None,
            status: None,
        };
        proof {
            assert(r@ =~= empty_filter());
        }
        r
    }
}

/// Builds a filter that matches sessions by exact service name.
pub fn by_service_name(name: String) -> (r: SessionFilter)
    ensures
        r@ == (FilterView { service_name: Some(name@), ..empty_filter() }),
{
    let r = SessionFilter {
        service_name: Some(name),
        start_date_ms: None,
        end_date_ms: None,
        client_ip: None,
        status: None,
    };
    proof {
        assert(r@ =~= FilterView { service_name: Some(name@), ..empty_filter() });
    }
    r
}

/// Whether a session matches every criterion of a filter.
pub open spec fn matches_filter(s: SessionView, f: FilterView) -> bool {
    &&& match f.service_name {
        Some(n) => s.service_name == n,
        None => true,
    }
    &&& match f.start_date_ms {
        Some(t) => s.start_time_ms >= t,
        None => true,
    }
    &&& match f.end_date_ms {
        Some(t) => s.coalesced_time_ms() <= t,
        None => true,
    }
    &&& match f.client_ip {
        Some(ip) => s.client_ip == ip,
        None => true,
    }
    &&& match f.status {
        Some(st) => s.status == st,
        None => true,
    }
}

/// The view of an optional filter: the empty filter when absent.
pub open spec fn opt_filter_view(f: Option<&SessionFilter>) -> FilterView {
    match f {
        Some(g) => g@,
        None => empty_filter(),
    }
}

/// Uniform save/query contract for session and artifact storage backends.
///
/// Every operation is specified against the backend's model; a failing
/// operation leaves the model unchanged.
pub trait Storage: Sized {
    /// Stored session records, one per id.
    spec fn sessions(&self) -> Seq<SessionView>;

    /// The interaction log: `(session id, chunk)` in call order.
    spec fn interaction_log(&self) -> Seq<(u128, Seq<u8>)>;

    /// Stored capture artifacts, one record per session id.
    spec fn artifacts(&self) -> Seq<ArtifactsView>;

    /// Successful persistence calls, in call order.
    spec fn events(&self) -> Seq<StorageEvent>;

    /// The backend's internal invariant.
    spec fn inv(&self) -> bool;

    /// A valid backend keeps one session record and one artifacts record
    /// per id.
    proof fn inv_properties(&self)
        requires
            self.inv(),
        ensures
            unique_session_ids(self.sessions()),
            unique_artifact_ids(self.artifacts()),
    ;

    /// Upserts the session record by id.
    fn save_session(&mut self, session: &Session) -> (r: Result<(), StorageError>)
        requires
            old(self).inv(),
        ensures
            final(self).inv(),
            match r {
                Ok(()) => {
                    &&& session_upserted(old(self).sessions(), final(self).sessions(), session@)
                    &&& final(self).interaction_log() == old(self).interaction_log()
                    &&& final(self).artifacts() == old(self).artifacts()
                    &&& final(self).events() == old(self).events().push(
                        StorageEvent::SessionSaved(session.id),
                    )
                },
                Err(_) => {
                    &&& final(self).sessions() == old(self).sessions()
                    &&& final(self).interaction_log() == old(self).interaction_log()
                    &&& final(self).artifacts() == old(self).artifacts()
                    &&& final(self).events() == old(self).events().push(
                        StorageEvent::SessionSaveFailed(session.id),
                    )
                },
            },
    ;

    /// Returns the sessions matching the filter; every match exactly once,
    /// in no guaranteed order.
    fn get_sessions(&self, filter: Option<&SessionFilter>) -> (r: Result<Vec<Session>, StorageError>)
        requires
            self.inv(),
        ensures
            match r {
                Ok(v) => v@.map_values(|s: Session| s@).to_multiset() == self.sessions().filter(
                    |s: SessionView| matches_filter(s, opt_filter_view(filter)),
                ).to_multiset(),
                Err(_) => true,
            },
    ;

    /// Appends `data` to the session's interaction log.
    fn save_interaction(&mut self, session_id: u128, data: &[u8]) -> (r: Result<(), StorageError>)
        requires
            old(self).inv(),
        ensures
            final(self).inv(),
            match r {
                Ok(()) => {
                    &&& final(self).interaction_log() == old(self).interaction_log().push(
                        (session_id, data@),
                    )
                    &&& final(self).sessions() == old(self).sessions()
                    &&& final(self).artifacts() == old(self).artifacts()
                    &&& final(self).events() == old(self).events().push(
                        StorageEvent::InteractionSaved(session_id),
                    )
                },
                Err(_) => {
                    &&& final(self).sessions() == old(self).sessions()
                    &&& final(self).interaction_log() == old(self).interaction_log()
                    &&& final(self).artifacts() == old(self).artifacts()
                    &&& final(self).events() == old(self).events().push(
                        StorageEvent::InteractionSaveFailed(session_id),
                    )
                },
            },
    ;

    /// Returns the concatenation of the session's interaction chunks, in
    /// call order.
    fn get_session_data(&self, session_id: u128) -> (r: Result<Vec<u8>, StorageError>)
        requires
            self.inv(),
        ensures
            match r {
                Ok(v) => v@ == session_data_of(self.interaction_log(), session_id),
                Err(_) => true,
            },
    ;

    /// Deletes every session whose coalesced timestamp lies strictly before
    /// `cutoff_ms`, together with its interactions and artifacts, and
    /// returns how many sessions were removed.
    fn cleanup_old_sessions(&mut self, cutoff_ms: i64) -> (r: Result<usize, StorageError>)
        requires
            old(self).inv(),
        ensures
            final(self).inv(),
            match r {
                Ok(n) => {
                    &&& final(self).sessions() == old(self).sessions().filter(
                        |s: SessionView| s.coalesced_time_ms() >= cutoff_ms,
                    )
                    &&& n == old(self).sessions().len() - final(self).sessions().len()
                    &&& final(self).interaction_log() == old(self).interaction_log().filter(
                        |p: (u128, Seq<u8>)| !session_expired(old(self).sessions(), p.0, cutoff_ms),
                    )
                    &&& final(self).artifacts() == old(self).artifacts().filter(
                        |a: ArtifactsView| !session_expired(
                            old(self).sessions(),
                            a.session_id,
                            cutoff_ms,
                        ),
                    )
                    &&& final(self).events() == old(self).events()
                },
                Err(_) => {
                    &&& final(self).sessions() == old(self).sessions()
                    &&& final(self).interaction_log() == old(self).interaction_log()
                    &&& final(self).artifacts() == old(self).artifacts()
                    &&& final(self).events() == old(self).events()
                },
            },
    ;

    /// Upserts the artifacts record by session id.
    fn save_capture_artifacts(&mut self, artifacts: &CaptureArtifacts) -> (r: Result<
        (),
        StorageError,
    >)
        requires
            old(self).inv(),
        ensures
            final(self).inv(),
            match r {
                Ok(()) => {
                    &&& artifacts_upserted(old(self).artifacts(), final(self).artifacts(), artifacts@)
                    &&& final(self).sessions() == old(self).sessions()
                    &&& final(self).interaction_log() == old(self).interaction_log()
                    &&& final(self).events() == old(self).events().push(
                        StorageEvent::ArtifactsSaved(artifacts.session_id),
                    )
                },
                Err(_) => {
                    &&& final(self).sessions() == old(self).sessions()
                    &&& final(self).interaction_log() == old(self).interaction_log()
                    &&& final(self).artifacts() == old(self).artifacts()
                    &&& final(self).events() == old(self).events().push(
                        StorageEvent::ArtifactsSaveFailed(artifacts.session_id),
                    )
                },
            },
    ;

    /// Retrieves the artifacts stored for the session id; fails with
    /// `ReadFailed` exactly when none are stored.
    fn get_capture_artifacts(&self, session_id: u128) -> (r: Result<CaptureArtifacts, StorageError>)
        requires
            self.inv(),
        ensures
            match r {
                Ok(a) => {
                    &&& has_artifacts_id(self.artifacts(), session_id)
                    &&& exists|i: int|
                        0 <= i < self.artifacts().len() && self.artifacts()[i].session_id
                            == session_id && a@ == self.artifacts()[i]
                },
                Err(e) => !has_artifacts_id(self.artifacts(), session_id) && e matches
                    StorageError::ReadFailed,
            },
    ;
}

} // verus!
