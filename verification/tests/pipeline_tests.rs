use miel::config::{Config, IpFilter, IpRange, PortFilter, PortRange, Protocol, ServiceConfig};
use miel::container::{backoff_wait_ms, container_dir_path, activity_log_path, pty_path,
    container_id_for, fresh_container_id, rootfs_dir_list, rootfs_file_plan, ContainerManager};
use miel::detector::ServiceDetector;
use miel::fmt_util::u128_to_hex032;
use miel::recorder::CaptureArtifacts;
use miel::session::Session;
use miel::session_record::{
    render_artifacts_meta, render_session_record, render_stdio_timestamps,
    render_tcp_timestamps,
};
use miel::types::{SessionStatus, StdioStream};
use miel::filter::{ConnectionFilter, ProtocolFilter};
use miel::fmt_util::{u128_to_hex02, u128_to_string, u64_to_string};
use miel::obfuscation::ObfuscationManager;
use miel::recorder::StreamRecorder;
use miel::tcp_capture::{DirectionState, ProxyAction, ProxySession, TcpCapture};
use miel::types::Direction;

#[test]
fn proxy_records_exactly_what_each_peer_sent() {
    // Two pre-agreed byte sequences, fed as the chunks each peer sent.
    let mut p = ProxySession::new(11);
    let a1 = p.on_chunk(Direction::ClientToContainer, b"hel", 1);
    let a2 = p.on_chunk(Direction::ClientToContainer, b"lo", 2);
    let a3 = p.on_chunk(Direction::ContainerToClient, b"pong", 3);
    assert!(matches!(a1, ProxyAction::ForwardChunk));
    assert!(matches!(a2, ProxyAction::ForwardChunk));
    assert!(matches!(a3, ProxyAction::ForwardChunk));

    let (c2s, s2c, ts) = p.capture.get_artifacts();
    assert_eq!(c2s, b"hello");
    assert_eq!(s2c, b"pong");
    assert_eq!(ts.len(), 3);
    assert!(ts
        .iter()
        .any(|(_, d, n)| matches!(d, Direction::ClientToContainer) && *n > 0));
    assert!(ts
        .iter()
        .any(|(_, d, n)| matches!(d, Direction::ContainerToClient) && *n > 0));
}

#[test]
fn record_chunks_concatenates_in_order() {
    let mut cap = TcpCapture::new(5);
    let chunks: Vec<Vec<u8>> = vec![b"ab".to_vec(), b"c".to_vec(), b"de".to_vec()];
    cap.record_chunks(Direction::ClientToContainer, &chunks, 9);
    assert_eq!(cap.client_to_container, b"abcde");
    assert_eq!(cap.container_to_client, b"");
    assert_eq!(cap.timestamps.len(), 3);
}

#[test]
fn half_close_shuts_down_opposite_writer_only() {
    let mut p = ProxySession::new(12);
    // The client sends EOF without closing its read half: the proxy shuts
    // down the write half of the container stream, and the opposite
    // direction keeps running.
    let a = p.on_eof(Direction::ClientToContainer);
    assert!(matches!(a, ProxyAction::ShutdownOpposite));
    assert!(matches!(p.c2s, DirectionState::Closed));
    assert!(matches!(p.s2c, DirectionState::Forwarding));
    assert!(!p.is_finished());

    // The proxy terminates once the container side also reaches EOF.
    let b = p.on_eof(Direction::ContainerToClient);
    assert!(matches!(b, ProxyAction::ShutdownOpposite));
    assert!(p.is_finished());
}

#[test]
fn recorder_total_is_sum_of_five_streams() {
    let mut r = StreamRecorder::new(3, 1_000);
    r.record_tcp_chunk(Direction::ClientToContainer, b"12345", 1_100);
    r.record_tcp_chunk(Direction::ContainerToClient, b"678", 1_200);
    r.parse_stdio_log(b"[ts] [SSH] [STDIN] ls\n[ts] [SSH] [STDOUT] ok\n", 1_300);
    let a = r.finalize_capture(4_000);
    assert_eq!(a.session_id, 3);
    assert_eq!(a.tcp_client_to_container, b"12345");
    assert_eq!(a.tcp_container_to_client, b"678");
    assert_eq!(a.stdio_stdin, b"ls\n");
    assert_eq!(a.stdio_stdout, b"ok\n");
    assert_eq!(a.stdio_stderr, b"");
    assert_eq!(a.total_bytes, 5 + 3 + 3 + 3);
    assert_eq!(a.duration_ms, 3_000);
}

fn http_service(port: u16) -> ServiceConfig {
    ServiceConfig {
        name: "http".to_string(),
        port,
        protocol: Protocol::TCP,
        container_image: "img".to_string(),
        enabled: true,
        header_patterns: vec!["GET".to_string(), "POST".to_string()],
        banner_response: None,
        obfuscation: Default::default(),
    }
}

fn ssh_service(port: u16) -> ServiceConfig {
    ServiceConfig {
        name: "ssh".to_string(),
        port,
        protocol: Protocol::TCP,
        container_image: "img".to_string(),
        enabled: true,
        header_patterns: vec!["SSH-".to_string()],
        banner_response: None,
        obfuscation: Default::default(),
    }
}

#[test]
fn detector_prefers_match_then_port_fallback() {
    let services = vec![ssh_service(22), http_service(80)];
    let d = ServiceDetector::new(&services);

    // A matching header pattern wins.
    assert_eq!(d.detect_service(b"GET / HTTP/1.1", 22).unwrap(), "http");
    assert_eq!(d.detect_service(b"SSH-2.0-OpenSSH", 80).unwrap(), "ssh");

    // Among matches, the service on the accept port wins.
    let two_http = vec![http_service(8080), http_service(80)];
    let d2 = ServiceDetector::new(&two_http);
    assert_eq!(d2.detect_service(b"GET /", 80).unwrap(), "http");

    // With no match, fall back to the service bound to the port.
    assert_eq!(d.detect_service(b"\x00\x01\x02", 22).unwrap(), "ssh");
    assert_eq!(d.detect_service(b"\x00\x01\x02", 80).unwrap(), "http");

    // No match and no service on the port: nothing is detected.
    assert!(d.detect_service(b"\x00\x01\x02", 9999).is_none());
}

#[test]
fn connection_filter_applies_block_allow_and_whitelist() {
    // The default filter accepts everything on a valid port.
    let f = ConnectionFilter::new();
    assert!(f.should_accept_connection(0x7F000001, 22));

    // Blocked ranges reject.
    let f2 = ConnectionFilter {
        ip_filter: IpFilter {
            allowed_ranges: vec![IpRange { start: 0, end: u32::MAX }],
            blocked_ranges: vec![IpRange { start: 0x0A000000, end: 0x0AFFFFFF }],
            whitelist_mode: false,
        },
        port_filter: PortFilter {
            allowed_ports: vec![PortRange { start: 1, end: 65535 }],
            blocked_ports: vec![PortRange { start: 23, end: 23 }],
        },
        protocol_filter: ProtocolFilter::default(),
    };
    assert!(!f2.should_accept_connection(0x0A000001, 22)); // blocked IP
    assert!(!f2.should_accept_connection(0x7F000001, 23)); // blocked port
    assert!(f2.should_accept_connection(0x7F000001, 22));

    // Whitelist mode restricts to the allowed ranges.
    let f3 = ConnectionFilter {
        ip_filter: IpFilter {
            allowed_ranges: vec![IpRange { start: 0xC0A80000, end: 0xC0A8FFFF }],
            blocked_ranges: vec![],
            whitelist_mode: true,
        },
        port_filter: PortFilter {
            allowed_ports: vec![PortRange { start: 1, end: 65535 }],
            blocked_ports: vec![],
        },
        protocol_filter: ProtocolFilter::default(),
    };
    assert!(f3.should_accept_connection(0xC0A80001, 80));
    assert!(!f3.should_accept_connection(0x7F000001, 80));
}

#[test]
fn backoff_grows_and_caps() {
    assert_eq!(backoff_wait_ms(1), 700);
    assert_eq!(backoff_wait_ms(2), 900);
    assert_eq!(backoff_wait_ms(3), 1100);
    assert_eq!(backoff_wait_ms(5), 1500);
    assert_eq!(backoff_wait_ms(12), 2900);
    assert_eq!(backoff_wait_ms(13), 3000);
    assert_eq!(backoff_wait_ms(30), 3000);
}

#[test]
fn container_paths_and_ids() {
    assert_eq!(container_dir_path("x"), "/tmp/miel-containers/x");
    assert_eq!(
        activity_log_path("miel-ssh-1"),
        "/tmp/miel-logs/container-miel-ssh-1-activity.log"
    );
    assert_eq!(pty_path("miel-ssh-1"), "/tmp/miel-pty-miel-ssh-1");
    assert_eq!(
        container_id_for("ssh", "12345678-abcd-1234-abcd-123456789012"),
        "miel-ssh-12345678-abcd-1234-abcd-123456789012"
    );
    let fresh = fresh_container_id("http");
    assert!(fresh.starts_with("miel-http-"));
    assert_eq!(fresh.len(), "miel-http-".len() + 36);
}

#[test]
fn rootfs_plan_lists_skeleton_and_system_files() {
    let dirs = rootfs_dir_list();
    assert_eq!(dirs.len(), 23);
    assert!(dirs.iter().any(|d| d == "etc/ssh"));
    assert!(dirs.iter().any(|d| d == "var/run/sshd"));
    assert!(dirs.iter().any(|d| d == "home/miel"));

    let files = rootfs_file_plan();
    assert_eq!(files.len(), 4);
    assert_eq!(files[0].path, "etc/passwd");
    assert!(files[0].content.contains("miel:x:1000:1000"));
    assert_eq!(files[3].path, "www/index.html");
    assert!(files[3].content.contains("It works."));
}

#[test]
fn container_manager_checks_runtime_and_privileges() {
    assert!(matches!(
        ContainerManager::new(false, true),
        Err(miel::errors::ContainerError::RuntimeNotAvailable)
    ));
    assert!(matches!(
        ContainerManager::new(true, false),
        Err(miel::errors::ContainerError::InsufficientPrivileges)
    ));
    let m = ContainerManager::new(true, true).unwrap();
    let stats = m.get_container_stats();
    assert_eq!(stats.active_count, 0);
    assert_eq!(stats.total_created, 0);
    assert_eq!(stats.failed_count, 0);
}

#[test]
fn decimal_and_hex_rendering() {
    assert_eq!(u64_to_string(0), "0");
    assert_eq!(u64_to_string(7), "7");
    assert_eq!(u64_to_string(12345), "12345");
    assert_eq!(u128_to_string(340282366920938463463374607431768211455), "340282366920938463463374607431768211455");
    assert_eq!(u128_to_hex02(0), "00");
    assert_eq!(u128_to_hex02(5), "05");
    assert_eq!(u128_to_hex02(0x1f), "1f");
    assert_eq!(u128_to_hex02(0x1bc), "1bc");
}

#[test]
fn fake_ip_script_for_no_interfaces_is_exact() {
    let script = ObfuscationManager::generate_fake_ip_script(&[]);
    assert_eq!(
        script,
        "#!/bin/sh\n# Fake ip command\necho '1: lo: <LOOPBACK,UP,LOWER_UP> mtu 65536 qdisc noqueue state UNKNOWN'\necho '    inet 127.0.0.1/8 scope host lo'\n"
    );
}

#[test]
fn fake_scripts_render_each_interface() {
    let ifs = vec!["eth0".to_string(), "wlan0".to_string()];
    let ifconfig = ObfuscationManager::generate_fake_ifconfig_script(&ifs);
    assert!(ifconfig.starts_with("#!/bin/sh\n# Fake ifconfig command\n"));
    assert!(ifconfig.contains("lo        Link encap:Local Loopback"));
    assert!(ifconfig.contains("eth0      Link encap:Ethernet  HWaddr 02:42:ac:11:00:00"));
    assert!(ifconfig.contains("wlan0      Link encap:Ethernet  HWaddr 02:42:ac:11:00:01"));
    assert!(ifconfig.contains("inet addr:192.168.1.100"));
    assert!(ifconfig.contains("inet addr:192.168.1.101"));

    let ip = ObfuscationManager::generate_fake_ip_script(&ifs);
    assert!(ip.contains("2: eth0: <BROADCAST,MULTICAST,UP,LOWER_UP>"));
    assert!(ip.contains("3: wlan0: <BROADCAST,MULTICAST,UP,LOWER_UP>"));
    assert!(ip.contains("inet 192.168.1.100/24 brd 192.168.1.255 scope global eth0"));
}

#[test]
fn config_defaults_are_stable() {
    let c = Config::from_file().unwrap();
    assert_eq!(c.max_sessions, 10);
    assert_eq!(c.session_timeout_ms, 170_000_000);
    assert_eq!(c.bind_address, "0.0.0.0");
    assert!(c.services.is_empty());
    let c2 = Config::from_args().unwrap();
    assert_eq!(c2.web_ui_port, 8080);
    assert!(!c2.web_ui_enabled);

    let d = ServiceConfig::default();
    assert_eq!(d.name, "test_service");
    assert_eq!(d.port, 8000);
    assert!(matches!(d.protocol, Protocol::TCP));
    assert!(d.enabled);

    let p = miel::config::ConfigurationParser::new();
    assert_eq!(p.config.max_sessions, 10);
}

#[test]
fn zero_padded_hex_rendering() {
    assert_eq!(u128_to_hex032(0), "00000000000000000000000000000000");
    assert_eq!(u128_to_hex032(255), "000000000000000000000000000000ff");
    assert_eq!(
        u128_to_hex032(u128::MAX),
        "ffffffffffffffffffffffffffffffff"
    );
}

#[test]
fn session_record_rendering_is_exact() {

    let start: i64 = 1_700_000_000_000;
    let end: i64 = 1_700_000_123_456;
    let s = Session {
        id: 0xab,
        service_name: "ssh".to_string(),
        client_ip: "203.0.113.7".to_string(),
        client_port: 40123,
        start_time_ms: start,
        end_time_ms: Some(end),
        container_id: Some("miel-ssh-x".to_string()),
        bytes_transferred: 42,
        status: SessionStatus::Completed,
    };
    let start_text = chrono::DateTime::from_timestamp_millis(start)
        .unwrap()
        .to_rfc3339();
    let end_text = chrono::DateTime::from_timestamp_millis(end)
        .unwrap()
        .to_rfc3339();
    let expected = format!(
        "id: {:032x}\nservice_name: ssh\nclient_addr: 203.0.113.7:40123\nstart_time: {}\nend_time: {}\ncontainer_id: miel-ssh-x\nbytes_transferred: 42\nstatus: Completed\n",
        0xabu128, start_text, end_text
    );
    assert_eq!(render_session_record(&s), expected);

    // Absent fields render as the stored "none" marker.
    let mut s2 = s.duplicate();
    s2.end_time_ms = None;
    s2.container_id = None;
    let r2 = render_session_record(&s2);
    assert!(r2.contains("end_time: none\n"));
    assert!(r2.contains("container_id: none\n"));
}

#[test]
fn timestamp_tables_render_one_line_per_chunk() {

    let t: i64 = 1_700_000_000_000;
    let t_text = chrono::DateTime::from_timestamp_millis(t).unwrap().to_rfc3339();
    let tcp = vec![
        (t, Direction::ClientToContainer, 5usize),
        (t, Direction::ContainerToClient, 3usize),
    ];
    let expected = format!("{}, C2S, 5\n{}, S2C, 3\n", t_text, t_text);
    assert_eq!(render_tcp_timestamps(&tcp), expected);

    let stdio = vec![(t, StdioStream::Stdout, 7usize)];
    assert_eq!(
        render_stdio_timestamps(&stdio),
        format!("{}, Stdout, 7\n", t_text)
    );
}

#[test]
fn artifacts_meta_rendering_is_exact() {

    let a = CaptureArtifacts {
        session_id: 1,
        tcp_client_to_container: vec![],
        tcp_container_to_client: vec![],
        stdio_stdin: vec![],
        stdio_stdout: vec![],
        stdio_stderr: vec![],
        tcp_timestamps: vec![],
        stdio_timestamps: vec![],
        total_bytes: 9,
        duration_ms: 5000,
    };
    assert_eq!(
        render_artifacts_meta(&a),
        format!("session_id: {:032x}\ntotal_bytes: 9\nduration_ms: 5000\n", 1u128)
    );
}
