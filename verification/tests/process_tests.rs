use webtiles_rs::process::{
    format_lock_file, parse_lock_file, ttyrec_chunk_header, ttyrec_id_header,
    ttyrec_id_header_at, update_crash_info, CrashInfo,
};

#[test]
fn error_header_line_extracts_message() {
    let mut info = CrashInfo::default();
    update_crash_info(
        &mut info,
        "ERROR in 'wizard.cc' at line 79: Intentional crash",
        None,
    );
    assert_eq!(info.reason.as_deref(), Some("crash"));
    assert_eq!(info.message.as_deref(), Some("Intentional crash"));
}

#[test]
fn crash_report_line_builds_dump_url() {
    let mut info = CrashInfo::default();
    update_crash_info(
        &mut info,
        "crash report: /rcs/alice/crash-alice-20240101-000000.txt",
        Some("http://example.com/morgue/alice/"),
    );
    assert_eq!(
        info.dump_filename.as_deref(),
        Some("http://example.com/morgue/alice/crash-alice-20240101-000000")
    );
}

#[test]
fn we_crashed_legacy_format_extracts_paren_group() {
    let mut info = CrashInfo::default();
    update_crash_info(
        &mut info,
        "We crashed! (crash-alice-20240101-000000.txt)",
        Some("http://example.com/morgue/alice/"),
    );
    assert_eq!(
        info.dump_filename.as_deref(),
        Some("http://example.com/morgue/alice/crash-alice-20240101-000000")
    );
}

#[test]
fn writing_crash_info_legacy_format() {
    let mut info = CrashInfo::default();
    update_crash_info(
        &mut info,
        "Writing crash info to /rcs/alice/crash-alice-20240101-000000.txt",
        Some("http://example.com/morgue/alice/"),
    );
    assert_eq!(
        info.dump_filename.as_deref(),
        Some("http://example.com/morgue/alice/crash-alice-20240101-000000")
    );
}

#[test]
fn unrelated_lines_are_ignored() {
    let mut info = CrashInfo::default();
    update_crash_info(&mut info, "just some ordinary stderr chatter", None);
    assert_eq!(info, CrashInfo::default());
}

#[test]
fn crash_report_without_morgue_url_only_sets_reason() {
    let mut info = CrashInfo::default();
    update_crash_info(&mut info, "crash report: /rcs/a.txt", None);
    assert_eq!(info.reason.as_deref(), Some("crash"));
    assert_eq!(info.dump_filename, None);
}

#[test]
fn error_line_without_colon_keeps_message() {
    let mut info = CrashInfo::default();
    info.message = Some("earlier".to_string());
    update_crash_info(&mut info, "ERROR something odd", None);
    assert_eq!(info.reason.as_deref(), Some("crash"));
    assert_eq!(info.message.as_deref(), Some("earlier"));
}

#[test]
fn writing_crash_info_without_slash_uses_last_word() {
    let mut info = CrashInfo::default();
    update_crash_info(&mut info, "Writing crash info to crash-x.txt ", Some("u/"));
    assert_eq!(info.dump_filename.as_deref(), Some("u/"));
    let mut info = CrashInfo::default();
    update_crash_info(&mut info, "Writing crash info to crash-x.txt", Some("u/"));
    assert_eq!(info.dump_filename.as_deref(), Some("u/crash-x"));
}

#[test]
fn lock_file_round_trips() {
    let text = format_lock_file(12345, 24, 80);
    assert_eq!(text, "12345\n24\n80\n");
    assert_eq!(parse_lock_file(&text), Some((12345, 24, 80)));
}

#[test]
fn corrupt_lock_file_fails_to_parse() {
    assert_eq!(parse_lock_file("not-a-pid\n24\n80\n"), None);
    assert_eq!(parse_lock_file(""), None);
}

#[test]
fn lock_file_lines_are_trimmed_and_bounded() {
    assert_eq!(parse_lock_file(" 7 \r\n+24\n80"), Some((7, 24, 80)));
    assert_eq!(parse_lock_file("7\n70000\n80\n"), None);
    assert_eq!(parse_lock_file("7\n24\n"), None);
    assert_eq!(parse_lock_file("4294967295\n0\n65535\nextra"), Some((4294967295, 0, 65535)));
}

#[test]
fn ttyrec_id_header_contains_expected_fields() {
    let header = ttyrec_id_header("alice", "Play Trunk", "myserver", "2024-01-01.00:00:00.ttyrec");
    let text = String::from_utf8(header).unwrap();
    assert!(text.contains("Player: alice"));
    assert!(text.contains("Game: Play Trunk"));
    assert!(text.contains("Server: myserver"));
    assert!(text.contains("Filename: 2024-01-01.00:00:00.ttyrec"));
}

#[test]
fn ttyrec_id_header_at_fixed_time_is_exact() {
    let header = ttyrec_id_header_at("bob", "G", "S", "f.ttyrec", 1700000000);
    assert_eq!(
        String::from_utf8(header).unwrap(),
        "\x1b[2J\x1b[1;1H\r\nPlayer: bob\r\nGame: G\r\nServer: S\r\nFilename: f.ttyrec\r\nTime: (1700000000) epoch-seconds\r\n\x1b[2J"
    );
}

#[test]
fn ttyrec_chunk_header_is_little_endian() {
    let h = ttyrec_chunk_header(0x0102_0304, 5, 6);
    assert_eq!(h, vec![4, 3, 2, 1, 5, 0, 0, 0, 6, 0, 0, 0]);
    let wide = ttyrec_chunk_header(0x1_0000_0001, 0, 0);
    assert_eq!(&wide[0..4], &[1, 0, 0, 0]);
}
