//! In-memory storage backend, verified against the persistence contract.
//!
//! Records live in plain vectors: session and artifact records keyed by id
//! (one record per id), and the interaction log in call order.

use vstd::prelude::*;
use vstd::slice::slice_to_vec;

use crate::errors::StorageError;
use crate::recorder::{ArtifactsView, CaptureArtifacts};
use crate::session::{Session, SessionView};
use crate::seq_util::{lemma_filter_distinct_on, lemma_filter_member};
use crate::storage::{
    Storage, StorageEvent, artifacts_upserted, has_artifacts_id, has_session_id, matches_filter,
    opt_filter_view, session_data_of, session_expired, session_upserted, unique_artifact_ids,
    unique_session_ids, SessionFilter,
};

verus! {

/// One saved interaction chunk.
pub struct InteractionChunk {
    /// The session the chunk belongs to.
    pub session_id: u128,
    /// The chunk's bytes.
    pub data: Vec<u8>,
}

impl View for InteractionChunk {
    type V = (u128, Seq<u8>);

    open spec fn view(&self) -> (u128, Seq<u8>) {
        (self.session_id, self.data@)
    }
}

/// The in-memory backend.
pub struct MemoryStorage {
    /// Session records, one per id.
    pub sessions: Vec<Session>,
    /// The interaction log, in call order.
    pub interactions: Vec<InteractionChunk>,
    /// Artifact records, one per session id.
    pub artifacts: Vec<CaptureArtifacts>,
    /// Successful persistence calls, in call order.
    pub events: Ghost<Seq<StorageEvent>>,
}

impl MemoryStorage {
    /// Creates an empty backend.
    pub fn new() -> (r: Self)
        ensures
            r.inv(),
            r.sessions() == Seq::<SessionView>::empty(),
            r.interaction_log() == Seq::<(u128, Seq<u8>)>::empty(),
            r.artifacts() == Seq::<ArtifactsView>::empty(),
            r.events() == Seq::<StorageEvent>::empty(),
    {
        let r = MemoryStorage {
            sessions: Vec::new(),
            interactions: Vec::new(),
            artifacts: Vec::new(),
            events: Ghost(Seq::empty()),
        };
        proof {
            assert(r.sessions() =~= Seq::<SessionView>::empty());
            assert(r.interaction_log() =~= Seq::<(u128, Seq<u8>)>::empty());
            assert(r.artifacts() =~= Seq::<ArtifactsView>::empty());
        }
        r
    }
}

/// Whether `s` matches the (possibly absent) filter.
pub fn session_matches(s: &Session, filter: Option<&SessionFilter>) -> (r: bool)
    ensures
        r == matches_filter(s@, opt_filter_view(filter)),
{
    match filter {
        None => true,
        Some(f) => {
            let name_ok = match &f.service_name {
                Some(n) => s.service_name == *n,
                None => true,
            };
            let start_ok = match f.start_date_ms {
                Some(t) => s.start_time_ms >= t,
                None => true,
            };
            let end_ok = match f.end_date_ms {
                Some(t) => s.coalesced_time_ms() <= t,
                None => true,
            };
            let ip_ok = match &f.client_ip {
                Some(ip) => s.client_ip == *ip,
                None => true,
            };
            let status_ok = match f.status {
                Some(st) => s.status == st,
                None => true,
            };
            name_ok && start_ok && end_ok && ip_ok && status_ok
        },
    }
}

impl Storage for MemoryStorage {
    open spec fn sessions(&self) -> Seq<SessionView> {
        self.sessions@.map_values(|s: Session| s@)
    }

    open spec fn interaction_log(&self) -> Seq<(u128, Seq<u8>)> {
        self.interactions@.map_values(|c: InteractionChunk| c@)
    }

    open spec fn artifacts(&self) -> Seq<ArtifactsView> {
        self.artifacts@.map_values(|a: CaptureArtifacts| a@)
    }

    open spec fn events(&self) -> Seq<StorageEvent> {
        self.events@
    }

    open spec fn inv(&self) -> bool {
        unique_session_ids(self.sessions()) && unique_artifact_ids(self.artifacts())
    }

    proof fn inv_properties(&self) {
    }

    fn save_session(&mut self, session: &Session) -> (r: Result<(), StorageError>)
        // The in-memory backend never refuses a save.
        ensures
            r is Ok,
    {
        let ghost pre = old(self).sessions();
        let n = self.sessions.len();
        let mut i: usize = 0;
        while i < n
            invariant
                n == self.sessions@.len(),
                i <= n,
                self.sessions@ == old(self).sessions@,
                self.interactions@ == old(self).interactions@,
                self.artifacts@ == old(self).artifacts@,
                self.events@ == old(self).events@,
                pre == self.sessions@.map_values(|s: Session| s@),
                unique_session_ids(pre),
                unique_artifact_ids(self.artifacts@.map_values(|a: CaptureArtifacts| a@)),
                forall|j: int| 0 <= j < i ==> #[trigger] self.sessions@[j]@.id != session.id,
            decreases n - i,
        {
            if self.sessions[i].id == session.id {
                proof {
                    assert(pre[i as int] == self.sessions@[i as int]@);
                    assert(pre[i as int].id == session@.id);
                    assert(has_session_id(pre, session@.id));
                }
                let dup = session.duplicate();
                self.sessions.remove(i);
                self.sessions.insert(i, dup);
                proof {
                    let post = self.sessions();
                    assert(self.sessions@ =~= old(self).sessions@.update(i as int, dup));
                    assert forall|j: int| 0 <= j < pre.len() implies post[j] == (if pre[j].id
                        == session@.id {
                        session@
                    } else {
                        pre[j]
                    }) by {
                        if j != i as int {
                            assert(pre[j].id != pre[i as int].id);
                        }
                    }
                    assert(session_upserted(pre, post, session@));
                    assert(unique_session_ids(post));
                    self.events = Ghost(
                        self.events@.push(StorageEvent::SessionSaved(session.id)),
                    );
                    assert(self.interaction_log() =~= old(self).interaction_log());
                    assert(self.artifacts() =~= old(self).artifacts());
                }
                return Ok(());
            }
            i = i + 1;
        }
        let dup = session.duplicate();
        self.sessions.push(dup);
        proof {
            assert(!has_session_id(pre, session@.id));
            assert(self.sessions() =~= pre.push(session@));
            assert(session_upserted(pre, self.sessions(), session@));
            assert forall|a: int, b: int|
                0 <= a < b < self.sessions().len() implies self.sessions()[a].id
                != self.sessions()[b].id by {
                if b == pre.len() {
                    assert(self.sessions()[a] == pre[a]);
                }
            }
            self.events = Ghost(self.events@.push(StorageEvent::SessionSaved(session.id)));
            assert(self.interaction_log() =~= old(self).interaction_log());
            assert(self.artifacts() =~= old(self).artifacts());
        }
        Ok(())
    }

    fn get_sessions(&self, filter: Option<&SessionFilter>) -> (r: Result<
        Vec<Session>,
        StorageError,
    >)
        ensures
            r is Ok,
    {
        let ghost pred = |s: SessionView| matches_filter(s, opt_filter_view(filter));
        let mut out: Vec<Session> = Vec::new();
        let mut i: usize = 0;
        proof {
            reveal(Seq::filter);
            assert(pre_filter(self.sessions(), 0) =~= Seq::<SessionView>::empty());
        }
        while i < self.sessions.len()
            invariant
                i <= self.sessions@.len(),
                out@.map_values(|s: Session| s@) == pre_filter_matches(
                    self.sessions(),
                    i as int,
                    opt_filter_view(filter),
                ),
            decreases self.sessions@.len() - i,
        {
            let ghost prefix = self.sessions().subrange(0, i as int);
            let matched = session_matches(&self.sessions[i], filter);
            if matched {
                out.push(self.sessions[i].duplicate());
            }
            i = i + 1;
            proof {
                reveal(Seq::filter);
                let prefix2 = self.sessions().subrange(0, i as int);
                assert(prefix2.drop_last() =~= prefix);
                assert(prefix2.last() == self.sessions()[i - 1]);
                if matched {
                    assert(out@.map_values(|s: Session| s@) =~= prefix.filter(
                        |s: SessionView| matches_filter(s, opt_filter_view(filter)),
                    ).push(self.sessions()[i - 1]));
                }
            }
        }
        proof {
            assert(self.sessions().subrange(0, self.sessions@.len() as int) =~= self.sessions());
        }
        Ok(out)
    }

    fn save_interaction(&mut self, session_id: u128, data: &[u8]) -> (r: Result<
        (),
        StorageError,
    >)
        ensures
            r is Ok,
    {
        let chunk = InteractionChunk { session_id, data: slice_to_vec(data) };
        self.interactions.push(chunk);
        proof {
            assert(self.interaction_log() =~= old(self).interaction_log().push(
                (session_id, data@),
            ));
            assert(self.sessions() =~= old(self).sessions());
            assert(self.artifacts() =~= old(self).artifacts());
            self.events = Ghost(self.events@.push(StorageEvent::InteractionSaved(session_id)));
        }
        Ok(())
    }

    fn get_session_data(&self, session_id: u128) -> (r: Result<Vec<u8>, StorageError>)
        ensures
            r is Ok,
    {
        let ghost log = self.interaction_log();
        let mut out: Vec<u8> = Vec::new();
        let mut i: usize = 0;
        proof {
            assert(log.subrange(0, 0) =~= Seq::<(u128, Seq<u8>)>::empty());
            assert(out@ =~= session_data_of(log.subrange(0, 0), session_id));
        }
        while i < self.interactions.len()
            invariant
                i <= self.interactions@.len(),
                log == self.interaction_log(),
                out@ == session_data_of(log.subrange(0, i as int), session_id),
            decreases self.interactions@.len() - i,
        {
            let ghost prefix = log.subrange(0, i as int);
            let c = &self.interactions[i];
            let is_match = c.session_id == session_id;
            if is_match {
                out.extend_from_slice(c.data.as_slice());
            }
            i = i + 1;
            proof {
                let prefix2 = log.subrange(0, i as int);
                assert(prefix2.drop_last() =~= prefix);
                assert(prefix2.last() == log[i - 1]);
                if is_match {
                    assert(out@ =~= session_data_of(prefix2, session_id));
                } else {
                    assert(session_data_of(prefix2, session_id) =~= session_data_of(
                        prefix,
                        session_id,
                    ));
                }
            }
        }
        proof {
            assert(log.subrange(0, self.interactions@.len() as int) =~= log);
        }
        Ok(out)
    }

    fn cleanup_old_sessions(&mut self, cutoff_ms: i64) -> (r: Result<usize, StorageError>)
        ensures
            r is Ok,
    {
        let ghost pre = old(self).sessions();
        let ghost keep = |s: SessionView| s.coalesced_time_ms() >= cutoff_ms;
        let ghost expire = |s: SessionView| !(s.coalesced_time_ms() >= cutoff_ms);
        let mut kept: Vec<Session> = Vec::new();
        let mut removed_ids: Vec<u128> = Vec::new();
        let mut i: usize = 0;
        proof {
            reveal(Seq::filter);
            assert(pre.subrange(0, 0) =~= Seq::<SessionView>::empty());
        }
        while i < self.sessions.len()
            invariant
                i <= self.sessions@.len(),
                self.sessions@ == old(self).sessions@,
                self.interactions@ == old(self).interactions@,
                self.artifacts@ == old(self).artifacts@,
                self.events@ == old(self).events@,
                pre == self.sessions@.map_values(|s: Session| s@),
                kept@.map_values(|s: Session| s@) == pre.subrange(0, i as int).filter(
                    |s: SessionView| s.coalesced_time_ms() >= cutoff_ms,
                ),
                removed_ids@ == pre.subrange(0, i as int).filter(
                    |s: SessionView| !(s.coalesced_time_ms() >= cutoff_ms),
                ).map_values(|s: SessionView| s.id),
                kept@.len() + removed_ids@.len() == i,
            decreases self.sessions@.len() - i,
        {
            let ghost prefix = pre.subrange(0, i as int);
            let t = self.sessions[i].coalesced_time_ms();
            if t >= cutoff_ms {
                kept.push(self.sessions[i].duplicate());
            } else {
                removed_ids.push(self.sessions[i].id);
            }
            i = i + 1;
            proof {
                reveal(Seq::filter);
                let prefix2 = pre.subrange(0, i as int);
                assert(prefix2.drop_last() =~= prefix);
                assert(prefix2.last() == pre[i - 1]);
                if t >= cutoff_ms {
                    assert(kept@.map_values(|s: Session| s@) =~= prefix.filter(
                        |s: SessionView| s.coalesced_time_ms() >= cutoff_ms,
                    ).push(pre[i - 1]));
                } else {
                    assert(removed_ids@ =~= prefix.filter(
                        |s: SessionView| !(s.coalesced_time_ms() >= cutoff_ms),
                    ).map_values(|s: SessionView| s.id).push(pre[i - 1].id));
                }
            }
        }
        proof {
            assert(pre.subrange(0, self.sessions@.len() as int) =~= pre);
        }
        // Every id in `removed_ids` is exactly an id that the cutoff expires.
        proof {
            let expired_seq = pre.filter(|s: SessionView| !(s.coalesced_time_ms() >= cutoff_ms));
            assert forall|id: u128|
                removed_ids@.contains(id) implies session_expired(pre, id, cutoff_ms) by {
                let j = choose|j: int| 0 <= j < removed_ids@.len() && removed_ids@[j] == id;
                assert(expired_seq.contains(expired_seq[j]));
                lemma_filter_member(
                    pre,
                    |s: SessionView| !(s.coalesced_time_ms() >= cutoff_ms),
                    expired_seq[j],
                );
                let t = choose|t: int| 0 <= t < pre.len() && pre[t] == expired_seq[j];
                assert(pre[t].id == id && pre[t].coalesced_time_ms() < cutoff_ms);
            }
            assert forall|id: u128|
                session_expired(pre, id, cutoff_ms) implies removed_ids@.contains(id) by {
                let t = choose|t: int|
                    0 <= t < pre.len() && pre[t].id == id && pre[t].coalesced_time_ms()
                        < cutoff_ms;
                Seq::lemma_filter_contains(
                    pre,
                    |s: SessionView| !(s.coalesced_time_ms() >= cutoff_ms),
                    t,
                );
                let u = choose|u: int|
                    0 <= u < expired_seq.len() && expired_seq[u] == pre[t];
                assert(removed_ids@[u] == id);
            }
        }
        let removed_count = removed_ids.len();
        self.sessions = kept;
        // Drop the interactions of the removed sessions.
        let ghost old_log = old(self).interaction_log();
        let mut kept_inter: Vec<InteractionChunk> = Vec::new();
        let mut j: usize = 0;
        proof {
            reveal(Seq::filter);
            assert(old_log.subrange(0, 0) =~= Seq::<(u128, Seq<u8>)>::empty());
        }
        while j < self.interactions.len()
            invariant
                j <= self.interactions@.len(),
                self.interactions@ == old(self).interactions@,
                self.artifacts@ == old(self).artifacts@,
                self.events@ == old(self).events@,
                old_log == self.interactions@.map_values(|c: InteractionChunk| c@),
                forall|id: u128|
                    #[trigger] removed_ids@.contains(id) == session_expired(pre, id, cutoff_ms),
                kept_inter@.map_values(|c: InteractionChunk| c@) == old_log.subrange(
                    0,
                    j as int,
                ).filter(|p: (u128, Seq<u8>)| !session_expired(pre, p.0, cutoff_ms)),
            decreases self.interactions@.len() - j,
        {
            let ghost prefix = old_log.subrange(0, j as int);
            let c = &self.interactions[j];
            let dropped = contains_id(&removed_ids, c.session_id);
            if !dropped {
                kept_inter.push(
                    InteractionChunk {
                        session_id: c.session_id,
                        data: crate::stdio_capture::copy_bytes(&c.data),
                    },
                );
            }
            j = j + 1;
            proof {
                reveal(Seq::filter);
                let prefix2 = old_log.subrange(0, j as int);
                assert(prefix2.drop_last() =~= prefix);
                assert(prefix2.last() == old_log[j - 1]);
                if !dropped {
                    assert(kept_inter@.map_values(|c: InteractionChunk| c@) =~= prefix.filter(
                        |p: (u128, Seq<u8>)| !session_expired(pre, p.0, cutoff_ms),
                    ).push(old_log[j - 1]));
                }
            }
        }
        proof {
            assert(old_log.subrange(0, self.interactions@.len() as int) =~= old_log);
        }
        self.interactions = kept_inter;
        // Drop the artifacts of the removed sessions.
        let ghost old_art = old(self).artifacts();
        let mut kept_art: Vec<CaptureArtifacts> = Vec::new();
        let mut m: usize = 0;
        proof {
            reveal(Seq::filter);
            assert(old_art.subrange(0, 0) =~= Seq::<ArtifactsView>::empty());
        }
        while m < self.artifacts.len()
            invariant
                m <= self.artifacts@.len(),
                self.artifacts@ == old(self).artifacts@,
                self.events@ == old(self).events@,
                old_art == self.artifacts@.map_values(|a: CaptureArtifacts| a@),
                forall|id: u128|
                    #[trigger] removed_ids@.contains(id) == session_expired(pre, id, cutoff_ms),
                kept_art@.map_values(|a: CaptureArtifacts| a@) == old_art.subrange(
                    0,
                    m as int,
                ).filter(|a: ArtifactsView| !session_expired(pre, a.session_id, cutoff_ms)),
            decreases self.artifacts@.len() - m,
        {
            let ghost prefix = old_art.subrange(0, m as int);
            let dropped = contains_id(&removed_ids, self.artifacts[m].session_id);
            if !dropped {
                kept_art.push(self.artifacts[m].duplicate());
            }
            m = m + 1;
            proof {
                reveal(Seq::filter);
                let prefix2 = old_art.subrange(0, m as int);
                assert(prefix2.drop_last() =~= prefix);
                assert(prefix2.last() == old_art[m - 1]);
                if !dropped {
                    assert(kept_art@.map_values(|a: CaptureArtifacts| a@) =~= prefix.filter(
                        |a: ArtifactsView| !session_expired(pre, a.session_id, cutoff_ms),
                    ).push(old_art[m - 1]));
                }
            }
        }
        proof {
            assert(old_art.subrange(0, self.artifacts@.len() as int) =~= old_art);
        }
        self.artifacts = kept_art;
        proof {
            lemma_filter_distinct_on(
                pre,
                |s: SessionView| s.coalesced_time_ms() >= cutoff_ms,
                |s: SessionView| s.id,
            );
            lemma_filter_distinct_on(
                old_art,
                |a: ArtifactsView| !session_expired(pre, a.session_id, cutoff_ms),
                |a: ArtifactsView| a.session_id,
            );
            Seq::lemma_filter_len(
                pre,
                |s: SessionView| s.coalesced_time_ms() >= cutoff_ms,
            );
        }
        Ok(removed_count)
    }

    fn save_capture_artifacts(&mut self, artifacts: &CaptureArtifacts) -> (r: Result<
        (),
        StorageError,
    >)
        ensures
            r is Ok,
    {
        let ghost pre = old(self).artifacts();
        let n = self.artifacts.len();
        let mut i: usize = 0;
        while i < n
            invariant
                n == self.artifacts@.len(),
                i <= n,
                self.sessions@ == old(self).sessions@,
                self.interactions@ == old(self).interactions@,
                self.artifacts@ == old(self).artifacts@,
                self.events@ == old(self).events@,
                pre == self.artifacts@.map_values(|a: CaptureArtifacts| a@),
                unique_artifact_ids(pre),
                unique_session_ids(self.sessions@.map_values(|s: Session| s@)),
                forall|j: int|
                    0 <= j < i ==> #[trigger] self.artifacts@[j]@.session_id
                        != artifacts.session_id,
            decreases n - i,
        {
            if self.artifacts[i].session_id == artifacts.session_id {
                proof {
                    assert(pre[i as int] == self.artifacts@[i as int]@);
                    assert(pre[i as int].session_id == artifacts@.session_id);
                    assert(has_artifacts_id(pre, artifacts@.session_id));
                }
                let dup = artifacts.duplicate();
                self.artifacts.remove(i);
                self.artifacts.insert(i, dup);
                proof {
                    let post = self.artifacts();
                    assert(self.artifacts@ =~= old(self).artifacts@.update(i as int, dup));
                    assert forall|j: int| 0 <= j < pre.len() implies post[j] == (if pre[j].session_id
                        == artifacts@.session_id {
                        artifacts@
                    } else {
                        pre[j]
                    }) by {
                        if j != i as int {
                            assert(pre[j].session_id != pre[i as int].session_id);
                        }
                    }
                    assert(artifacts_upserted(pre, post, artifacts@));
                    assert(unique_artifact_ids(post));
                    self.events = Ghost(
                        self.events@.push(StorageEvent::ArtifactsSaved(artifacts.session_id)),
                    );
                    assert(self.interaction_log() =~= old(self).interaction_log());
                    assert(self.sessions() =~= old(self).sessions());
                }
                return Ok(());
            }
            i = i + 1;
        }
        let dup = artifacts.duplicate();
        self.artifacts.push(dup);
        proof {
            assert(!has_artifacts_id(pre, artifacts@.session_id));
            assert(self.artifacts() =~= pre.push(artifacts@));
            assert(artifacts_upserted(pre, self.artifacts(), artifacts@));
            assert forall|a: int, b: int|
                0 <= a < b < self.artifacts().len() implies self.artifacts()[a].session_id
                != self.artifacts()[b].session_id by {
                if b == pre.len() {
                    assert(self.artifacts()[a] == pre[a]);
                }
            }
            self.events = Ghost(
                self.events@.push(StorageEvent::ArtifactsSaved(artifacts.session_id)),
            );
            assert(self.interaction_log() =~= old(self).interaction_log());
            assert(self.sessions() =~= old(self).sessions());
        }
        Ok(())
    }

    fn get_capture_artifacts(&self, session_id: u128) -> (r: Result<
        CaptureArtifacts,
        StorageError,
    >) {
        let n = self.artifacts.len();
        let mut i: usize = 0;
        while i < n
            invariant
                n == self.artifacts@.len(),
                i <= n,
                forall|j: int|
                    0 <= j < i ==> #[trigger] self.artifacts@[j]@.session_id != session_id,
            decreases n - i,
        {
            if self.artifacts[i].session_id == session_id {
                let dup = self.artifacts[i].duplicate();
                proof {
                    assert(self.artifacts()[i as int] == self.artifacts@[i as int]@);
                    assert(self.artifacts()[i as int].session_id == session_id);
                    assert(dup@ == self.artifacts()[i as int]);
                }
                return Ok(dup);
            }
            i = i + 1;
        }
        proof {
            assert forall|j: int|
                0 <= j < self.artifacts().len() implies self.artifacts()[j].session_id
                != session_id by {
                assert(self.artifacts()[j] == self.artifacts@[j]@);
            }
        }
        Err(StorageError::ReadFailed)
    }
}

/// Whether `ids` holds `id`.
fn contains_id(ids: &Vec<u128>, id: u128) -> (r: bool)
    ensures
        r == ids@.contains(id),
{
    let mut i: usize = 0;
    while i < ids.len()
        invariant
            i <= ids@.len(),
            forall|j: int| 0 <= j < i ==> ids@[j] != id,
        decreases ids@.len() - i,
    {
        if ids[i] == id {
            return true;
        }
        i = i + 1;
    }
    false
}

/// The empty prefix of any session sequence, filtered, is empty.
pub open spec fn pre_filter(s: Seq<SessionView>, k: int) -> Seq<SessionView> {
    s.subrange(0, k)
}

/// The first `k` stored sessions that match `f`.
pub open spec fn pre_filter_matches(s: Seq<SessionView>, k: int, f: crate::storage::FilterView) -> Seq<
    SessionView,
> {
    s.subrange(0, k).filter(|sv: SessionView| matches_filter(sv, f))
}

} // verus!
