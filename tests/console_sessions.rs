use lab::{boot_session, shutdown_session, ConsoleError, SessionStatus, CONSOLE_TIMEOUT_MS};

const BOOT_LOG: &[u8] = b"U-Boot 2022.01 (Jan 01 2022)\r\nStarting kernel ...\r\n\
[    0.000000] Linux version 5.15.0 (gcc)\r\n[    1.2] Run /sbin/init as init process\r\n\
Fedora 36\r\nicicle login: ";

#[test]
fn boot_in_order_logs_in() {
    let mut s = boot_session();
    assert!(s.feed(b"").is_empty());
    let sent = s.feed(BOOT_LOG);
    assert_eq!(sent, vec!["root".to_string()]);
    assert_eq!(s.status(), SessionStatus::Waiting);
    let sent = s.feed(b"root\r\nPassword: ");
    assert_eq!(sent, vec!["fedora_rocks!".to_string()]);
    let sent = s.feed(b"\r\n[root@icicle ~]# ");
    assert!(sent.is_empty());
    assert_eq!(s.status(), SessionStatus::Succeeded);
    s.tick(CONSOLE_TIMEOUT_MS);
    assert_eq!(s.status(), SessionStatus::Succeeded);
}

#[test]
fn boot_markers_split_across_reads() {
    let mut s = boot_session();
    let mut sent = Vec::new();
    for chunk in BOOT_LOG.chunks(3) {
        sent.extend(s.feed(chunk));
    }
    assert_eq!(sent, vec!["root".to_string()]);
    assert_eq!(s.position(), 5);
}

#[test]
fn reversed_markers_time_out_waiting_for_kernel() {
    let mut s = boot_session();
    let sent = s.feed(b"U-Boot 2022.01\r\nicicle login: \r\ninit\r\n");
    assert!(sent.is_empty());
    let sent = s.feed(b"Linux version 5.15.0\r\n");
    assert!(sent.is_empty());
    assert_eq!(s.position(), 2);
    s.tick(CONSOLE_TIMEOUT_MS - 1);
    assert_eq!(s.status(), SessionStatus::Waiting);
    s.tick(CONSOLE_TIMEOUT_MS);
    assert_eq!(s.status(), SessionStatus::Failed(ConsoleError::BootTimeout));
    assert!(s.feed(b"init login: ").is_empty());
    assert_eq!(s.status(), SessionStatus::Failed(ConsoleError::BootTimeout));
}

#[test]
fn missing_shell_prompt_is_unexpected_output() {
    let mut s = boot_session();
    s.feed(BOOT_LOG);
    s.feed(b"Password: ");
    s.feed(b"Login incorrect\r\n");
    s.tick(CONSOLE_TIMEOUT_MS + 5);
    assert_eq!(s.status(), SessionStatus::Failed(ConsoleError::UnexpectedConsoleOutput));
}

#[test]
fn shutdown_sends_poweroff_and_waits_for_halt() {
    let mut s = shutdown_session();
    assert_eq!(s.feed(b""), vec!["poweroff".to_string()]);
    assert_eq!(s.status(), SessionStatus::Waiting);
    assert!(s.feed(b"[  OK  ] Reached target Power-Off.\r\n[ 20.1] reboot: System halted\r\n").is_empty());
    assert_eq!(s.status(), SessionStatus::Succeeded);
}

#[test]
fn shutdown_timeout() {
    let mut s = shutdown_session();
    s.feed(b"");
    s.feed(b"reboot: Restarting system\r\n");
    s.tick(CONSOLE_TIMEOUT_MS);
    assert_eq!(s.status(), SessionStatus::Failed(ConsoleError::ShutdownTimeout));
}
