//! Directory entries and connections.
use hosttui::model::Host;
use hosttui::sftp::{
    after_auth, auth_methods, expand_tilde, host_address, listing, shellexpand_tilde,
    sort_entries_by_name, status_after, AuthDecision, AuthMethod, AuthReply, ConnectOutcome,
    ConnectReport, ConnectStage, FileEntry, RemoteStat, SftpConnectionStatus,
};

fn entry(name: &str, is_dir: bool, size: u64) -> FileEntry {
    FileEntry { name: name.into(), is_dir, size, modified: None, permissions: None }
}

fn host(identity_file: Option<&str>) -> Host {
    Host {
        alias: "box".into(),
        hostname: "10.0.0.7".into(),
        user: "me".into(),
        port: 2222,
        identity_file: identity_file.map(Into::into),
        group: None,
        extra: vec![],
        details: String::new(),
        last_accessed: String::new(),
    }
}

#[test]
fn file_entry_construction() {
    let e = FileEntry {
        name: "test.txt".into(),
        is_dir: false,
        size: 1024,
        modified: Some(1700000000),
        permissions: Some(0o644),
    };
    assert_eq!(e.name, "test.txt");
    assert!(!e.is_dir);
    assert_eq!(e.size, 1024);
    assert_eq!(e.modified, Some(1700000000));
    assert_eq!(e.permissions, Some(0o644));
}

#[test]
fn file_entry_directory() {
    let e = FileEntry {
        name: "src".into(),
        is_dir: true,
        size: 4096,
        modified: None,
        permissions: Some(0o755),
    };
    assert!(e.is_dir);
    assert_eq!(e.permissions, Some(0o755));
}

#[test]
fn sort_entries_dirs_first() {
    let mut entries = vec![
        entry("zebra.txt", false, 100),
        entry("alpha", true, 0),
        entry("beta.txt", false, 200),
        entry("delta", true, 0),
    ];
    sort_entries_by_name(&mut entries);

    assert_eq!(entries[0].name, "alpha");
    assert!(entries[0].is_dir);
    assert_eq!(entries[1].name, "delta");
    assert!(entries[1].is_dir);
    assert_eq!(entries[2].name, "beta.txt");
    assert!(!entries[2].is_dir);
    assert_eq!(entries[3].name, "zebra.txt");
    assert!(!entries[3].is_dir);
}

#[test]
fn sort_entries_alphabetical_within_group() {
    let mut entries = vec![
        entry("c_dir", true, 0),
        entry("a_dir", true, 0),
        entry("b_dir", true, 0),
        entry("z.txt", false, 10),
        entry("a.txt", false, 20),
    ];
    sort_entries_by_name(&mut entries);

    let names: Vec<&str> = entries.iter().map(|e| e.name.as_str()).collect();
    assert_eq!(names, vec!["a_dir", "b_dir", "c_dir", "a.txt", "z.txt"]);
}

#[test]
fn sort_empty_entries() {
    let mut entries: Vec<FileEntry> = vec![];
    sort_entries_by_name(&mut entries);
    assert!(entries.is_empty());
}

#[test]
fn sort_single_entry() {
    let mut entries = vec![entry("only", false, 42)];
    sort_entries_by_name(&mut entries);
    assert_eq!(entries.len(), 1);
    assert_eq!(entries[0].name, "only");
}

#[test]
fn sorting_by_name_minds_case_and_keeps_ties() {
    let mut entries =
        vec![entry("b", false, 1), entry("B", false, 2), entry("b", false, 3), entry("\u{e9}", false, 4)];
    sort_entries_by_name(&mut entries);
    let sizes: Vec<u64> = entries.iter().map(|e| e.size).collect();
    assert_eq!(sizes, vec![2, 1, 3, 4]);
}

#[test]
fn shellexpand_tilde_expands_home() {
    let expanded = shellexpand_tilde("~/foo/bar");
    assert!(!expanded.starts_with('~'));
    assert!(expanded.ends_with("foo/bar"));
}

#[test]
fn shellexpand_tilde_no_tilde() {
    let path = "/absolute/path";
    assert_eq!(shellexpand_tilde(path), path);
}

#[test]
fn shellexpand_tilde_bare() {
    let expanded = shellexpand_tilde("~");
    assert!(!expanded.starts_with('~') || expanded == "~");
}

#[test]
fn tilde_with_a_given_home() {
    assert_eq!(expand_tilde("~/key", Some("/home/me")), "/home/me/key");
    assert_eq!(expand_tilde("~/key", Some("/")), "/key");
    assert_eq!(expand_tilde("~", Some("/home/me")), "/home/me");
    assert_eq!(expand_tilde("~other/key", Some("/home/me")), "~other/key");
    assert_eq!(expand_tilde("~/key", None), "~/key");
    assert_eq!(expand_tilde("", Some("/home/me")), "");
}

#[test]
fn connect_outcome_display() {
    let needs_pw = ConnectOutcome::NeedsPassword;
    assert_eq!(needs_pw.to_string(), "password authentication required");

    let failed = ConnectOutcome::Failed("timeout".into());
    assert_eq!(failed.to_string(), "timeout");
}

#[test]
fn file_entry_equality() {
    let a = entry("same.txt", false, 100);
    let b = entry("same.txt", false, 100);
    assert_eq!(a, b);

    let c = entry("different.txt", false, 100);
    assert_ne!(a, c);
}

#[test]
fn permissions_and_links() {
    let mut e = entry("link", false, 1);
    assert_eq!(e.permissions_string(), None);
    assert!(!e.is_symlink());
    e.permissions = Some(0o120777);
    assert!(e.is_symlink());
    assert_eq!(e.permissions_string().unwrap(), "rwxrwxrwx");
    e.permissions = Some(0o100640);
    assert!(!e.is_symlink());
    assert_eq!(e.permissions_string().unwrap(), "rw-r-----");
}

#[test]
fn a_listing_drops_nameless_entries_and_sorts() {
    let stat = |name: Option<&str>, is_dir: bool, size: Option<u64>| RemoteStat {
        name: name.map(Into::into),
        is_dir,
        size,
        modified: Some(7),
        permissions: Some(0o644),
    };
    let entries = listing(vec![
        stat(Some("b.txt"), false, None),
        stat(None, true, Some(3)),
        stat(Some("z"), true, Some(4096)),
        stat(Some("a.txt"), false, Some(9)),
    ]);
    let names: Vec<&str> = entries.iter().map(|e| e.name.as_str()).collect();
    assert_eq!(names, vec!["z", "a.txt", "b.txt"]);
    assert_eq!(entries[2].size, 0);
    assert_eq!(entries[0].modified, Some(7));
}

#[test]
fn keys_are_tried_before_the_agent() {
    let methods = auth_methods(&host(Some("~/k")), Some("/home/me"), false);
    assert_eq!(
        methods,
        vec![
            AuthMethod::KeyFile("/home/me/k".into()),
            AuthMethod::KeyFile("/home/me/.ssh/id_ed25519".into()),
            AuthMethod::KeyFile("/home/me/.ssh/id_rsa".into()),
            AuthMethod::KeyFile("/home/me/.ssh/id_ecdsa".into()),
            AuthMethod::Agent,
        ]
    );
    assert_eq!(auth_methods(&host(None), None, true), vec![AuthMethod::Password]);
}

#[test]
fn replies_lead_on_or_end_the_attempt() {
    let key = AuthMethod::KeyFile("k".into());
    assert!(matches!(after_auth(&key, AuthReply::Accepted), AuthDecision::Open));
    assert!(matches!(after_auth(&key, AuthReply::Refused), AuthDecision::TryNext));
    assert!(matches!(after_auth(&key, AuthReply::Error("x".into())), AuthDecision::TryNext));
    assert!(matches!(
        after_auth(&AuthMethod::Agent, AuthReply::Refused),
        AuthDecision::Stop(ConnectOutcome::NeedsPassword)
    ));
    match after_auth(&AuthMethod::Password, AuthReply::Error("denied".into())) {
        AuthDecision::Stop(outcome) => assert_eq!(outcome.to_string(), "Authentication failed: denied"),
        _ => panic!("the attempt goes on"),
    }
    match after_auth(&AuthMethod::Password, AuthReply::Refused) {
        AuthDecision::Stop(outcome) => {
            assert_eq!(outcome.to_string(), "Authentication failed: invalid credentials")
        }
        _ => panic!("the attempt goes on"),
    }
}

#[test]
fn failures_name_their_step() {
    assert_eq!(host_address(&host(None)), "10.0.0.7:2222");
    assert_eq!(ConnectStage::Resolve.failure("e").to_string(), "DNS resolution failed: e");
    assert_eq!(ConnectStage::Tcp.failure("e").to_string(), "TCP connect failed: e");
    assert_eq!(ConnectStage::Session.failure("e").to_string(), "SSH session init failed: e");
    assert_eq!(ConnectStage::Handshake.failure("e").to_string(), "SSH handshake failed: e");
    assert_eq!(
        ConnectStage::Subsystem.failure("e").to_string(),
        "Failed to open SFTP subsystem: e"
    );
}

#[test]
fn reports_become_states() {
    let up = ConnectReport::Up { home_dir: None, entries: None };
    match status_after(up, false) {
        SftpConnectionStatus::ConnectedWithData { home_dir, entries } => {
            assert_eq!(home_dir, "/");
            assert!(entries.is_empty());
        }
        other => panic!("{other:?}"),
    }
    let ask = ConnectReport::Down(ConnectOutcome::NeedsPassword);
    assert!(matches!(status_after(ask, false), SftpConnectionStatus::NeedsPassword));
    let again = ConnectReport::Down(ConnectOutcome::NeedsPassword);
    assert!(matches!(
        status_after(again, true),
        SftpConnectionStatus::Failed(ref m) if m == "Authentication failed"
    ));
    let down = ConnectReport::Down(ConnectOutcome::Failed("no route".into()));
    assert!(matches!(
        status_after(down, true),
        SftpConnectionStatus::Failed(ref m) if m == "no route"
    ));
}
