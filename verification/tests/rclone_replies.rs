use rclone_ui::rclone::{
    copy_from_output, delete_from_output, full_path, listing_from_output, parse_remotes,
    parse_version, remotes_from_output, split_remote_path, trim_colons, version_from_output, CommandOutput,
    RcloneClient, RcloneError,
};
use rclone_ui::text::{chars_of, lines_of, string_of};

fn ok(stdout: &[u8]) -> CommandOutput {
    CommandOutput { success: true, stdout: stdout.to_vec(), stderr: Vec::new() }
}

fn failed(stderr: &[u8]) -> CommandOutput {
    CommandOutput { success: false, stdout: b"ignored".to_vec(), stderr: stderr.to_vec() }
}

fn names(remotes: &[rclone_ui::Remote]) -> Vec<String> {
    remotes.iter().map(|r| r.name.clone()).collect()
}

#[test]
fn default_client_runs_rclone() {
    assert_eq!(RcloneClient::new().rclone_path(), "rclone");
    assert_eq!(RcloneClient::default().rclone_path(), "rclone");
}

#[test]
fn commands_name_their_arguments() {
    let client = RcloneClient::new();
    let inv = client.list_remotes_command();
    assert_eq!(inv.program, "rclone");
    assert_eq!(inv.args, vec!["listremotes"]);
    assert_eq!(client.list_files_command("gdrive", "Documents/a").args, vec!["lsjson", "gdrive:Documents/a"]);
    assert_eq!(client.list_files_command("gdrive", "").args, vec!["lsjson", "gdrive:"]);
    assert_eq!(client.copy_command("a:x", "b:y").args, vec!["copy", "a:x", "b:y"]);
    assert_eq!(client.delete_command("a:x").args, vec!["delete", "a:x"]);
    assert_eq!(client.version_command().args, vec!["version"]);
}

#[test]
fn full_path_joins_remote_and_path() {
    assert_eq!(full_path("myremote", ""), "myremote:");
    assert_eq!(full_path("myremote", "/path/to/folder"), "myremote:/path/to/folder");
    assert_eq!(full_path("s3", "bucket"), "s3:bucket");
}

#[test]
fn lines_follow_str_lines() {
    for text in ["", "a", "a\n", "a\r\nb\rc\n\nd", "\n", "\r\n\r\n", "x\r", "one\ntwo\r\n"] {
        let expected: Vec<String> = text.lines().map(|l| l.to_string()).collect();
        assert_eq!(lines_of(text), expected, "text {:?}", text);
    }
}

#[test]
fn chars_and_strings_round_trip() {
    let s = "héllo ☁️";
    let v = chars_of(s);
    assert_eq!(v, s.chars().collect::<Vec<char>>());
    assert_eq!(string_of(&v), s);
}

#[test]
fn trailing_colons_are_trimmed() {
    assert_eq!(trim_colons("gdrive:"), "gdrive");
    assert_eq!(trim_colons("a:::"), "a");
    assert_eq!(trim_colons("a:b"), "a:b");
    assert_eq!(trim_colons(":::"), "");
    assert_eq!(trim_colons(""), "");
}

#[test]
fn remotes_are_read_from_listing() {
    let remotes = parse_remotes("gdrive:\ns3:\r\n\nbackup::\n:\n");
    assert_eq!(names(&remotes), vec!["gdrive", "s3", "backup", ""]);
    assert!(remotes.iter().all(|r| r.remote_type == "unknown"));
    assert!(parse_remotes("").is_empty());
    assert!(parse_remotes("\n\n").is_empty());
    assert_eq!(names(&parse_remotes("last:")), vec!["last"]);
}

#[test]
fn listing_reads_back_remote_names() {
    let listed = ["gdrive", "my s3", "a:b", ""];
    let mut text = String::new();
    for n in listed {
        text.push_str(n);
        text.push_str(":\n");
    }
    assert_eq!(names(&parse_remotes(&text)), listed.to_vec());
}

#[test]
fn version_is_first_line() {
    assert_eq!(parse_version("rclone v1.65.0\n- os/version: x\n"), "rclone v1.65.0");
    assert_eq!(parse_version("rclone v1.65.0\r\n"), "rclone v1.65.0");
    assert_eq!(parse_version(""), "unknown");
    assert_eq!(parse_version("\nsecond"), "");
}

#[test]
fn successful_replies_are_read() {
    let remotes = remotes_from_output(&ok(b"gdrive:\ns3:\n")).unwrap();
    assert_eq!(names(&remotes), vec!["gdrive", "s3"]);
    assert_eq!(listing_from_output(&ok(b"[]")).unwrap(), "[]");
    assert!(copy_from_output(&ok(b"")).is_ok());
    assert!(delete_from_output(&ok(b"")).is_ok());
    assert_eq!(version_from_output(&ok(b"rclone v1.66.0\nmore\n")).unwrap(), "rclone v1.66.0");
    assert_eq!(version_from_output(&ok(b"")).unwrap(), "unknown");
}

#[test]
fn failed_replies_name_the_operation() {
    let cases: Vec<(&str, RcloneError)> = vec![
        ("listremotes", remotes_from_output(&failed(b"boom")).unwrap_err()),
        ("lsjson", listing_from_output(&failed(b"boom")).unwrap_err()),
        ("copy", copy_from_output(&failed(b"boom")).unwrap_err()),
        ("delete", delete_from_output(&failed(b"boom")).unwrap_err()),
        ("version", version_from_output(&failed(b"boom")).unwrap_err()),
    ];
    for (op, e) in cases {
        match &e {
            RcloneError::CommandFailed { operation, stderr } => {
                assert_eq!(operation, op);
                assert_eq!(stderr, "boom");
            }
        }
        assert_eq!(e.message(), format!("rclone {} failed: boom", op));
    }
}

#[test]
fn invalid_bytes_are_replaced() {
    let text = listing_from_output(&ok(&[b'f', 0xff, b'g'])).unwrap();
    assert_eq!(text, "f\u{FFFD}g");
    let remotes = remotes_from_output(&ok("caf\u{e9}:\n".as_bytes())).unwrap();
    assert_eq!(names(&remotes), vec!["caf\u{e9}"]);
}

#[test]
fn locations_split_at_first_colon() {
    assert_eq!(split_remote_path("myremote:"), Some(("myremote".to_string(), String::new())));
    assert_eq!(
        split_remote_path("myremote:/path/to/folder"),
        Some(("myremote".to_string(), "/path/to/folder".to_string()))
    );
    assert_eq!(split_remote_path("a:b:c"), Some(("a".to_string(), "b:c".to_string())));
    assert_eq!(split_remote_path("nocolon"), None);
    assert_eq!(split_remote_path(""), None);
    let (r, p) = split_remote_path("s3:bucket/x").unwrap();
    assert_eq!(full_path(&r, &p), "s3:bucket/x");
}
