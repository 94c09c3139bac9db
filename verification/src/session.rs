//! The session record: one client's interaction with one honeypot service.

use vstd::prelude::*;

use crate::types::SessionStatus;

verus! {

/// Mathematical view of a session record.
#[verifier::ext_equal]
pub ghost struct SessionView {
    pub id: u128,
    pub service_name: Seq<char>,
    pub client_ip: Seq<char>,
    pub client_port: u16,
    pub start_time_ms: i64,
    pub end_time_ms: Option<i64>,
    pub container_id: Option<Seq<char>>,
    pub bytes_transferred: u64,
    pub status: SessionStatus,
}

impl SessionView {
    /// The end time where set, the start time otherwise; the timestamp that
    /// querying and expiry coalesce on.
    pub open spec fn coalesced_time_ms(&self) -> i64 {
        match self.end_time_ms {
            Some(t) => t,
            None => self.start_time_ms,
        }
    }
}

/// A captured service session: connection metadata, lifecycle timestamps,
/// traffic accounting and final status.
pub struct Session {
    /// Unique identifier for the session.
    pub id: u128,
    /// Service name inferred or configured (e.g. "ssh", "http").
    pub service_name: String,
    /// Client IP address, as text.
    pub client_ip: String,
    /// Client TCP source port.
    pub client_port: u16,
    /// Session start, milliseconds since the epoch (UTC).
    pub start_time_ms: i64,
    /// Session end, if known.
    pub end_time_ms: Option<i64>,
    /// Identifier of the container running the service, once bound.
    pub container_id: Option<String>,
    /// Total number of bytes transferred, authoritative at finalization.
    pub bytes_transferred: u64,
    /// Current status of the session.
    pub status: SessionStatus,
}

impl View for Session {
    type V = SessionView;

    open spec fn view(&self) -> SessionView {
        SessionView {
            id: self.id,
            service_name: self.service_name@,
            client_ip: self.client_ip@,
            client_port: self.client_port,
            start_time_ms: self.start_time_ms,
            end_time_ms: self.end_time_ms,
            container_id: match self.container_id {
                Some(s) => Some(s@),
                None => None,
            },
            bytes_transferred: self.bytes_transferred,
            status: self.status,
        }
    }
}

impl Session {
    /// A field-for-field copy of the record.
    pub fn duplicate(&self) -> (r: Session)
        ensures
            r@ == self@,
    {
        let r = Session {
            id: self.id,
            service_name: self.service_name.clone(),
            client_ip: self.client_ip.clone(),
            client_port: self.client_port,
            start_time_ms: self.start_time_ms,
            end_time_ms: self.end_time_ms,
            container_id: match &self.container_id {
                Some(s) => Some(s.clone()),
                None => None,
            },
            bytes_transferred: self.bytes_transferred,
            status: self.status,
        };
        proof {
            assert(r@ =~= self@);
        }
        r
    }

    /// The end time where set, the start time otherwise.
    pub fn coalesced_time_ms(&self) -> (r: i64)
        ensures
            r == self@.coalesced_time_ms(),
    {
        match self.end_time_ms {
            Some(t) => t,
            None => self.start_time_ms,
        }
    }
}

} // verus!
