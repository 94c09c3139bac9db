use miel::container::{ContainerHandle, ContainerManager};
use miel::memory_storage::MemoryStorage;
use miel::session_manager::SessionManager;
use miel::storage::Storage;
use miel::types::{Direction, SessionStatus};

fn handle(id: &str, service: &str, host_port: u16) -> ContainerHandle {
    ContainerHandle {
        id: id.to_string(),
        service_name: service.to_string(),
        port: 80,
        host_port,
        created_at_ms: 0,
    }
}

fn manager(max_sessions: usize) -> SessionManager<MemoryStorage> {
    let cm = ContainerManager::new(true, true).unwrap();
    SessionManager::new(cm, MemoryStorage::new(), max_sessions, 170_000_000)
}

#[test]
fn session_lifecycle_persists_one_record_and_one_artifact() {
    let mut m = manager(4);
    let id = m
        .begin_session("http", "203.0.113.45", 50123, 1_000, handle("c-1", "http", 40001))
        .unwrap();

    // The session record is persisted at admission, once, as Active.
    assert_eq!(m.storage.sessions.len(), 1);
    assert_eq!(m.storage.sessions[0].id, id);
    assert!(matches!(m.storage.sessions[0].status, SessionStatus::Active));
    assert_eq!(m.storage.artifacts.len(), 0);

    m.record_proxy_chunk(id, Direction::ClientToContainer, b"GET / HTTP/1.1\r\n", 1_500)
        .unwrap();
    m.record_proxy_chunk(id, Direction::ContainerToClient, b"HTTP/1.1 200 OK", 1_600)
        .unwrap();
    m.append_activity_log(id, b"[ts] [HTTP] [STDIN] GET / HTTP/1.1\n", 1_700)
        .unwrap();

    m.end_session(id, 2_000).unwrap();

    // Exactly one session record and one artifacts record for the id.
    assert_eq!(m.storage.sessions.len(), 1);
    assert_eq!(m.storage.artifacts.len(), 1);
    let art = m.storage.get_capture_artifacts(id).unwrap();

    // The artifacts account for exactly the bytes they carry.
    let sum = art.tcp_client_to_container.len()
        + art.tcp_container_to_client.len()
        + art.stdio_stdin.len()
        + art.stdio_stdout.len()
        + art.stdio_stderr.len();
    assert_eq!(art.total_bytes as usize, sum);
    assert_eq!(art.tcp_client_to_container, b"GET / HTTP/1.1\r\n");
    assert_eq!(art.tcp_container_to_client, b"HTTP/1.1 200 OK");
    assert_eq!(art.stdio_stdin, b"GET / HTTP/1.1\n");

    // The finished record carries the artifacts' byte total.
    let rec = &m.storage.sessions[0];
    assert_eq!(rec.bytes_transferred, art.total_bytes);
    assert!(matches!(rec.status, SessionStatus::Completed));
    assert_eq!(rec.end_time_ms, Some(2_000));

    // The container slot is released.
    assert_eq!(m.container_manager.get_container_stats().active_count, 0);
    assert_eq!(m.container_manager.get_container_stats().total_created, 1);
}

#[test]
fn session_limit_rejects_and_creates_no_container() {
    let mut m = manager(1);
    let id1 = m
        .begin_session("http", "198.51.100.2", 1111, 1_000, handle("c-1", "http", 40001))
        .unwrap();

    let second = m.begin_session("http", "198.51.100.3", 2222, 1_100, handle("c-2", "http", 40002));
    assert!(matches!(second, Err(miel::errors::SessionError::SessionLimitReached)));

    // The second request created nothing: one container, one session.
    let stats = m.container_manager.get_container_stats();
    assert_eq!(stats.active_count, 1);
    assert_eq!(stats.total_created, 1);
    assert_eq!(m.storage.sessions.len(), 1);

    m.end_session(id1, 2_000).unwrap();
    assert_eq!(m.container_manager.get_container_stats().active_count, 0);
}

#[test]
fn duplicate_host_port_is_rejected() {
    let mut m = manager(4);
    m.begin_session("http", "198.51.100.2", 1111, 1_000, handle("c-1", "http", 40001))
        .unwrap();
    let clash = m.begin_session("http", "198.51.100.3", 2222, 1_100, handle("c-2", "http", 40001));
    assert!(matches!(clash, Err(miel::errors::SessionError::CreationFailed)));
    // No two live containers ever share a host port.
    assert_eq!(m.container_manager.get_container_stats().active_count, 1);
}

#[test]
fn expiration_sweep_removes_only_expired_sessions() {
    let timeout: i64 = 10_000;
    let now: i64 = 100_000;
    let cm = ContainerManager::new(true, true).unwrap();
    let mut m: SessionManager<MemoryStorage> =
        SessionManager::new(cm, MemoryStorage::new(), 8, timeout);

    // Session A ends two timeouts ago; session B ends just now. Both stay
    // in the active set: finalizing a capture does not remove a session.
    let id_a = m
        .begin_session("ssh", "127.0.0.1", 1, 0, handle("c-a", "ssh", 40001))
        .unwrap();
    let id_b = m
        .begin_session("ssh", "127.0.0.1", 2, 0, handle("c-b", "ssh", 40002))
        .unwrap();
    m.finalize_session_capture(id_a, now - 2 * timeout).unwrap();
    m.finalize_session_capture(id_b, now).unwrap();
    assert_eq!(m.active_sessions.len(), 2);

    m.cleanup_expired_sessions(now);

    // A is gone and its container cleaned; B is untouched.
    assert_eq!(m.active_sessions.len(), 1);
    assert_eq!(m.active_sessions[0].session.id, id_b);
    let stats = m.container_manager.get_container_stats();
    assert_eq!(stats.active_count, 1);
    assert!(m.container_manager.get_container("c-a").is_none());
    assert!(m.container_manager.get_container("c-b").is_some());
}

#[test]
fn finalize_capture_updates_record_in_place() {
    let mut m = manager(4);
    let id = m
        .begin_session("ssh", "127.0.0.1", 7, 1_000, handle("c-1", "ssh", 40001))
        .unwrap();
    m.record_proxy_chunk(id, Direction::ClientToContainer, b"whoami", 1_500)
        .unwrap();

    m.finalize_session_capture(id, 3_000).unwrap();

    // The session stays active, its record now carries the capture totals.
    assert_eq!(m.active_sessions.len(), 1);
    let rec = &m.active_sessions[0].session;
    assert_eq!(rec.end_time_ms, Some(3_000));
    assert!(matches!(rec.status, SessionStatus::Completed));
    let art = m.storage.get_capture_artifacts(id).unwrap();
    assert_eq!(art.tcp_client_to_container, b"whoami");
    assert_eq!(rec.bytes_transferred, art.total_bytes);
    assert_eq!(art.total_bytes, 6);
}

#[test]
fn shutdown_finalizes_every_session() {
    let mut m = manager(8);
    let mut ids = Vec::new();
    for i in 0..5u16 {
        let id = m
            .begin_session(
                "http",
                "198.51.100.9",
                1000 + i,
                1_000,
                handle(&format!("c-{}", i), "http", 40010 + i),
            )
            .unwrap();
        ids.push(id);
    }
    assert_eq!(m.container_manager.get_container_stats().active_count, 5);

    m.shutdown_all_sessions(5_000).unwrap();

    assert_eq!(m.active_sessions.len(), 0);
    let stats = m.container_manager.get_container_stats();
    assert_eq!(stats.active_count, 0);
    assert_eq!(stats.total_created, 5);
    // Every session was finalized: five artifact records persisted.
    assert_eq!(m.storage.artifacts.len(), 5);
    for id in ids {
        assert!(m.storage.get_capture_artifacts(id).is_ok());
    }
}

#[test]
fn reconnect_lookup_matches_ip_and_port() {
    let mut m = manager(4);
    let id = m
        .begin_session("ssh", "203.0.113.7", 40123, 1_000, handle("c-1", "ssh", 40001))
        .unwrap();
    assert!(m.find_session("203.0.113.7", 40123).is_some());
    assert!(m.find_session("203.0.113.7", 40124).is_none());
    assert!(m.find_session("203.0.113.8", 40123).is_none());
    let stats = m.get_session_stats(id, 9_000).unwrap();
    assert!(matches!(stats.0, SessionStatus::Active));
    assert_eq!(stats.1, 0);
    assert_eq!(stats.2, 8_000);
}

#[test]
fn ending_unknown_session_is_not_found() {
    let mut m = manager(4);
    let r = m.end_session(424242, 1_000);
    assert!(matches!(r, Err(miel::errors::SessionError::NotFound)));
}

#[test]
fn finalize_precondition_is_testable() {
    let mut m = manager(4);
    m.begin_session("ssh", "127.0.0.1", 7, 5_000, handle("c-1", "ssh", 40001))
        .unwrap();
    // A clock reading before the recorder's start is rejected; one at or
    // after it is accepted.
    assert!(!m.can_finalize(4_999));
    assert!(m.can_finalize(5_000));
    assert!(m.can_finalize(9_000));
}
