use miel::stdio_capture::StdioCapture;

fn capture_of(log: &str) -> (String, String, String, usize) {
    let mut cap = StdioCapture::new(7);
    cap.capture_activity_log(log.as_bytes(), 1_000);
    let (stdin_b, stdout_b, stderr_b, ts) = cap.get_artifacts();
    (
        String::from_utf8(stdin_b).unwrap(),
        String::from_utf8(stdout_b).unwrap(),
        String::from_utf8(stderr_b).unwrap(),
        ts.len(),
    )
}

#[test]
fn parse_demo_log_to_streams() {
    let demo = r#"=== Container miel-ssh-699296c7-aee4-4751-93d8-97ce46b79bcd Activity Log Started at 2025-09-03 18:17:07 UTC ===
[2025-09-03 20:17:07 UTC] [SSHD] /etc/ssh/sshd_config line 7: Deprecated option UsePrivilegeSeparation
[2025-09-03 20:17:17 UTC] [SSH] [STDIN] export PS1=\"miel@honeypot:\\w$ \"
[2025-09-03 20:17:18 UTC] [SSH] [STDIN] ls
[2025-09-03 20:17:18 UTC] [SSH] [STDIN] ls
[2025-09-03 20:17:18 UTC] [SSH] [STDOUT] total 0
[2025-09-03 20:17:18 UTC] [SSH] [STDERR] warning: something minor
[2025-09-03 20:17:19 UTC] [SSH] [STDIN] pwd
[2025-09-03 20:17:22 UTC] [SSH] [STDIN] exit
[2025-09-03 20:17:22 UTC] [SSHD] Received disconnect from 127.0.0.1 port 36414:11: disconnected by user
"#;

    let (stdin_s, stdout_s, stderr_s, ts) = capture_of(demo);

    assert!(stdin_s.contains("ls\n"));
    assert!(stdin_s.contains("pwd\n"));
    assert!(stdin_s.contains("exit\n"));
    assert!(stdout_s.contains("total 0\n"));
    assert!(stderr_s.contains("warning: something minor\n"));
    assert!(ts > 0);
}

#[test]
fn parse_http_activity_log() {
    let http_log = r#"=== Container miel-http-96a584c9-a064-4b56-9e6a-e4fa07a3c598 Activity Log Started at 2025-09-03 20:32:43 UTC ===
[2025-09-03 20:32:43 UTC] [HTTP] [STDOUT] Server listening on 127.0.0.1:38959
[2025-09-03 20:34:05 UTC] [HTTP] [STDIN] GET / HTTP/1.1
"#;

    let (stdin_s, stdout_s, stderr_s, ts) = capture_of(http_log);

    assert!(stdout_s.contains("Server listening on 127.0.0.1:38959\n"));
    assert!(stdin_s.contains("GET / HTTP/1.1\n"));
    assert!(stderr_s.is_empty());
    assert!(ts > 0);
}

#[test]
fn parse_ssh_activity_log_sample() {
    let ssh_log = r#"=== Container miel-ssh-1909fc67-86d2-473d-a0c0-7058c1bdbac5 Activity Log Started at 2025-09-03 20:32:42 UTC ===
[2025-09-03 22:32:43 UTC] [SSHD] /etc/ssh/sshd_config line 7: Deprecated option UsePrivilegeSeparation
[2025-09-03 22:32:43 UTC] [SSHD] Server listening on 127.0.0.1 port 45245.
[2025-09-03 22:32:43 UTC] [SSHD] rexec line 7: Deprecated option UsePrivilegeSeparation
[2025-09-03 22:32:43 UTC] [SSHD] WARNING: 'UsePAM no' is not supported in this build and may cause several problems.
[2025-09-03 22:32:43 UTC] [SSHD] Connection from 127.0.0.1 port 51952 on 127.0.0.1 port 45245 rdomain ""
[2025-09-03 22:32:45 UTC] [SSHD] rexec line 7: Deprecated option UsePrivilegeSeparation
[2025-09-03 22:32:45 UTC] [SSHD] WARNING: 'UsePAM no' is not supported in this build and may cause several problems.
[2025-09-03 22:32:45 UTC] [SSHD] Connection from 127.0.0.1 port 51968 on 127.0.0.1 port 45245 rdomain ""
[2025-09-03 22:32:48 UTC] [SSHD] Accepted password for miel from 127.0.0.1 port 51968 ssh2
[2025-09-03 22:32:48 UTC] [SSHD] User child is on pid 23
[2025-09-03 22:32:48 UTC] [SSHD] lastlog_openseek: Couldn't stat /var/log/lastlog: No such file or directory
[2025-09-03 22:32:48 UTC] [SSHD] lastlog_openseek: Couldn't stat /var/log/lastlog: No such file or directory
[2025-09-03 22:32:48 UTC] [SSH-SESSION] Interactive shell session started
[2025-09-03 22:32:48 UTC] [SSHD] Starting session: shell on pts/1 for miel from 127.0.0.1 port 51968 id 0
[2025-09-03 22:32:50 UTC] [SSH] [STDIN] ls
[2025-09-03 22:32:52 UTC] [SSH] [STDIN] cat
[2025-09-03 22:32:57 UTC] [SSH] [STDIN] w
[2025-09-03 22:32:57 UTC] [SSH] [STDOUT]  22:32:57 up  1:37,  0 user,  load average: 2.54, 4.02, 6.63
[2025-09-03 22:32:57 UTC] [SSH] [STDOUT] USER     TTY        LOGIN@   IDLE   JCPU   PCPU WHAT
[2025-09-03 22:33:12 UTC] [SSH] [STDIN] ls
[2025-09-03 22:33:19 UTC] [SSH] [STDIN] w
[2025-09-03 22:33:19 UTC] [SSH] [STDOUT]  22:33:19 up  1:38,  0 user,  load average: 1.96, 3.79, 6.50
[2025-09-03 22:33:19 UTC] [SSH] [STDOUT] USER     TTY        LOGIN@   IDLE   JCPU   PCPU WHAT
[2025-09-03 22:33:31 UTC] [SSHD] syslogin_perform_logout: logout() returned an error
[2025-09-03 22:33:31 UTC] [SSHD] Close session: user miel from 127.0.0.1 port 51968 id 0
[2025-09-03 22:33:31 UTC] [SSHD] Received disconnect from 127.0.0.1 port 51968:11: disconnected by user
[2025-09-03 22:33:31 UTC] [SSHD] Disconnected from user miel 127.0.0.1 port 51968
[2025-09-03 22:34:44 UTC] [SSHD] Timeout before authentication for connection from 127.0.0.1 to 127.0.0.1, pid = 13
[2025-09-03 22:34:44 UTC] [SSHD] srclimit_penalise: ipv4: new 127.0.0.1/32 active penalty of 90 seconds for penalty: exceeded LoginGraceTime
"#;

    let (stdin_s, stdout_s, stderr_s, ts) = capture_of(ssh_log);

    // Check that several commands were captured
    assert!(stdin_s.contains("ls \n") || stdin_s.contains("ls\n"));
    assert!(stdin_s.contains("w \n") || stdin_s.contains("w\n"));
    assert!(stdin_s.contains("cat \n") || stdin_s.contains("cat\n"));
    // Check that expected stdout snippets were captured
    assert!(stdout_s.contains("USER     TTY"));
    assert!(stdout_s.contains("up  1:"));
    // This sample contains no explicit STDERR lines
    assert!(stderr_s.is_empty());
    assert!(ts > 0);
}

#[test]
fn parse_noise_and_unknown_tags_ignored() {
    let log = r#"=== Container miel-mixed Activity Log Started at 2025-09-03 20:32:43 UTC ===
[2025-09-03 20:32:43 UTC] [SSHD] Server listening on 127.0.0.1 port 45245.
[2025-09-03 20:32:44 UTC] [HTTP-SERVER] [INFO] Started
[2025-09-03 20:32:45 UTC] [SSH-SESSION] Interactive shell session started
[2025-09-03 20:32:46 UTC] [SSH] [STDIN] echo hello
[2025-09-03 20:32:47 UTC] [FOO] [BAR] should be ignored
[2025-09-03 20:32:48 UTC] [SSH] [STDOUT] world
"#;

    let (stdin_s, stdout_s, stderr_s, ts) = capture_of(log);

    assert!(stdin_s.contains("echo hello\n"));
    assert!(stdout_s.contains("world\n"));
    assert!(stderr_s.is_empty());
    assert!(ts > 0);
}

#[test]
fn ssh_command_capture_streams_exactly() {
    // Three STDIN data lines reconstruct to the typed commands, in order.
    let log = "[2025-09-03 20:17:18 UTC] [SSH] [STDIN] ls\n[2025-09-03 20:17:19 UTC] [SSH] [STDIN] pwd\n[2025-09-03 20:17:22 UTC] [SSH] [STDIN] exit\n";
    let (stdin_s, stdout_s, _stderr_s, ts) = capture_of(log);
    assert_eq!(stdin_s, "ls\npwd\nexit\n");
    assert!(stdout_s.is_empty());
    assert_eq!(ts, 3);
}

#[test]
fn parse_single_line() {
    // A data line parses to its stream and the start of its content.
    let line = b"[ts] [SSH] [STDOUT] total 0";
    let parsed = miel::activity_log::parse_line(line);
    let (stream, start) = parsed.expect("data line should parse");
    assert!(matches!(stream, miel::types::StdioStream::Stdout));
    assert_eq!(&line[start..], b"total 0");

    // Header and malformed lines are ignored.
    assert!(miel::activity_log::parse_line(b"=== Container x ===").is_none());
    assert!(miel::activity_log::parse_line(b"no brackets here").is_none());
    assert!(miel::activity_log::parse_line(b"[ts] [SSH] [WEIRD] data").is_none());
}

#[test]
fn crlf_terminated_lines_parse_like_lf() {
    let log = "[ts] [SSH] [STDIN] ls\r\n[ts] [SSH] [STDIN] pwd\r\n";
    let (stdin_s, _, _, ts) = capture_of(log);
    assert_eq!(stdin_s, "ls\npwd\n");
    assert_eq!(ts, 2);
}
