use miel::memory_storage::MemoryStorage;
use miel::recorder::CaptureArtifacts;
use miel::session::Session;
use miel::storage::{by_service_name, SessionFilter, Storage};
use miel::types::{Direction, SessionStatus, StdioStream};

fn session(id: u128, name: &str, start_ms: i64, end_ms: Option<i64>) -> Session {
    Session {
        id,
        service_name: name.to_string(),
        client_ip: "127.0.0.1".to_string(),
        client_port: 2222,
        start_time_ms: start_ms,
        end_time_ms: end_ms,
        container_id: Some("cont-1".to_string()),
        bytes_transferred: 42,
        status: SessionStatus::Completed,
    }
}

fn artifacts(id: u128, total: u64) -> CaptureArtifacts {
    CaptureArtifacts {
        session_id: id,
        tcp_client_to_container: b"c2s".to_vec(),
        tcp_container_to_client: b"s2c".to_vec(),
        stdio_stdin: b"in".to_vec(),
        stdio_stdout: b"out".to_vec(),
        stdio_stderr: b"err".to_vec(),
        tcp_timestamps: vec![
            (1, Direction::ClientToContainer, 3),
            (2, Direction::ContainerToClient, 3),
        ],
        stdio_timestamps: vec![(3, StdioStream::Stdout, 3)],
        total_bytes: total,
        duration_ms: 5000,
    }
}

#[test]
fn test_save_and_get_session() {
    let mut storage = MemoryStorage::new();
    let s = session(1, "ssh", 1000, Some(2000));
    storage.save_session(&s).unwrap();
    let all = storage.get_sessions(None).unwrap();
    assert!(all.iter().any(|x| x.id == s.id));

    let filtered = storage
        .get_sessions(Some(&by_service_name("ssh".to_string())))
        .unwrap();
    assert!(filtered.iter().any(|x| x.id == s.id));

    let none = storage
        .get_sessions(Some(&by_service_name("http".to_string())))
        .unwrap();
    assert!(!none.iter().any(|x| x.id == s.id));
}

#[test]
fn test_interaction_data_roundtrip() {
    let mut storage = MemoryStorage::new();
    storage.save_interaction(9, b"hello ").unwrap();
    storage.save_interaction(9, b"world").unwrap();
    let data = storage.get_session_data(9).unwrap();
    assert_eq!(data, b"hello world");
}

#[test]
fn interaction_order_per_session_is_kept() {
    let mut storage = MemoryStorage::new();
    storage.save_interaction(1, b"a").unwrap();
    storage.save_interaction(2, b"x").unwrap();
    storage.save_interaction(1, b"b").unwrap();
    storage.save_interaction(2, b"y").unwrap();
    storage.save_interaction(1, b"c").unwrap();
    assert_eq!(storage.get_session_data(1).unwrap(), b"abc");
    assert_eq!(storage.get_session_data(2).unwrap(), b"xy");
    assert_eq!(storage.get_session_data(3).unwrap(), b"");
}

#[test]
fn test_capture_artifacts_roundtrip() {
    let mut storage = MemoryStorage::new();
    let a = artifacts(5, 9);
    storage.save_capture_artifacts(&a).unwrap();
    let got = storage.get_capture_artifacts(5).unwrap();
    assert_eq!(got.session_id, a.session_id);
    assert_eq!(got.tcp_client_to_container, a.tcp_client_to_container);
    assert_eq!(got.tcp_container_to_client, a.tcp_container_to_client);
    assert_eq!(got.stdio_stdout, a.stdio_stdout);
    assert_eq!(got.total_bytes, a.total_bytes);
    assert_eq!(got.duration_ms, a.duration_ms);
}

#[test]
fn missing_artifacts_read_fails() {
    let storage = MemoryStorage::new();
    let missing = storage.get_capture_artifacts(1234);
    assert!(matches!(missing, Err(miel::errors::StorageError::ReadFailed)));
}

#[test]
fn save_session_upserts_by_id() {
    let mut storage = MemoryStorage::new();
    let mut s = session(1, "ssh", 1000, None);
    storage.save_session(&s).unwrap();
    s.bytes_transferred = 99;
    s.status = SessionStatus::Error;
    storage.save_session(&s).unwrap();
    let all = storage.get_sessions(None).unwrap();
    assert_eq!(all.len(), 1);
    assert_eq!(all[0].bytes_transferred, 99);
    assert!(matches!(all[0].status, SessionStatus::Error));
}

#[test]
fn cleanup_removes_exactly_older_sessions_with_cascade() {
    let mut storage = MemoryStorage::new();
    // Session 1 ended at t=1000, session 2 has no end time and started at
    // t=5000, session 3 ended at t=9000.
    storage.save_session(&session(1, "ssh", 500, Some(1000))).unwrap();
    storage.save_session(&session(2, "ssh", 5000, None)).unwrap();
    storage.save_session(&session(3, "http", 8000, Some(9000))).unwrap();
    storage.save_interaction(1, b"one").unwrap();
    storage.save_interaction(2, b"two").unwrap();
    storage.save_capture_artifacts(&artifacts(1, 3)).unwrap();
    storage.save_capture_artifacts(&artifacts(3, 3)).unwrap();

    // The cutoff removes exactly the sessions whose coalesced timestamp
    // (end time, else start time) lies strictly before it.
    let removed = storage.cleanup_old_sessions(5000).unwrap();
    assert_eq!(removed, 1);

    let left = storage.get_sessions(None).unwrap();
    let mut ids: Vec<u128> = left.iter().map(|s| s.id).collect();
    ids.sort();
    assert_eq!(ids, vec![2, 3]);

    // The removed session's interactions and artifacts are purged too.
    assert_eq!(storage.get_session_data(1).unwrap(), b"");
    assert!(storage.get_capture_artifacts(1).is_err());
    // Untouched dependents stay.
    assert_eq!(storage.get_session_data(2).unwrap(), b"two");
    assert!(storage.get_capture_artifacts(3).is_ok());
}

#[test]
fn cleanup_boundary_keeps_exact_cutoff() {
    let mut storage = MemoryStorage::new();
    storage.save_session(&session(1, "ssh", 100, Some(5000))).unwrap();
    // Coalesced time equal to the cutoff is kept: removal is strict.
    let removed = storage.cleanup_old_sessions(5000).unwrap();
    assert_eq!(removed, 0);
    assert_eq!(storage.get_sessions(None).unwrap().len(), 1);
}

#[test]
fn get_sessions_filters_by_time_status_and_ip() {
    let mut storage = MemoryStorage::new();
    let mut a = session(1, "ssh", 1000, Some(2000));
    a.status = SessionStatus::Completed;
    let mut b = session(2, "ssh", 3000, None);
    b.status = SessionStatus::Active;
    b.client_ip = "10.0.0.7".to_string();
    storage.save_session(&a).unwrap();
    storage.save_session(&b).unwrap();

    let by_status = storage
        .get_sessions(Some(&SessionFilter {
            service_name: None,
            start_date_ms: None,
            end_date_ms: None,
            client_ip: None,
            status: Some(SessionStatus::Active),
        }))
        .unwrap();
    assert_eq!(by_status.len(), 1);
    assert_eq!(by_status[0].id, 2);

    // The end-date bound coalesces a missing end time to the start time.
    let by_end = storage
        .get_sessions(Some(&SessionFilter {
            service_name: None,
            start_date_ms: None,
            end_date_ms: Some(2500),
            client_ip: None,
            status: None,
        }))
        .unwrap();
    assert_eq!(by_end.len(), 1);
    assert_eq!(by_end[0].id, 1);

    let by_ip = storage
        .get_sessions(Some(&SessionFilter {
            service_name: None,
            start_date_ms: None,
            end_date_ms: None,
            client_ip: Some("10.0.0.7".to_string()),
            status: None,
        }))
        .unwrap();
    assert_eq!(by_ip.len(), 1);
    assert_eq!(by_ip[0].id, 2);

    let by_start = storage
        .get_sessions(Some(&SessionFilter {
            service_name: None,
            start_date_ms: Some(2000),
            end_date_ms: None,
            client_ip: None,
            status: None,
        }))
        .unwrap();
    assert_eq!(by_start.len(), 1);
    assert_eq!(by_start[0].id, 2);
}
