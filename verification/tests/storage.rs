//! Files, errors, and the configuration of `ssh`.
use hosttui::error::Error;
use hosttui::model::{Config, Group, Host};
use hosttui::paths::{file_name_of, join_local, join_remote, parent_of, replace_extension};
use hosttui::ssh::{save_ssh_config, ssh_args, ssh_config};
use hosttui::storage::{config_file, config_path, load, persist, save, Reading, SaveStep};
use std::collections::HashMap;

/// Directories and files in memory. The contents of a file are the aliases of its
/// configuration, one in each line.
#[derive(Default)]
struct Disk {
    dirs: Vec<String>,
    files: HashMap<String, String>,
}

impl Disk {
    fn perform(&mut self, steps: &[SaveStep]) {
        for step in steps {
            match step {
                SaveStep::CreateDir(path) => self.dirs.push(path.clone()),
                SaveStep::Write { path, contents } => {
                    self.files.insert(path.clone(), contents.clone());
                }
                SaveStep::Rename { from, to } => {
                    let contents = self.files.remove(from).unwrap();
                    self.files.insert(to.clone(), contents);
                }
            }
        }
    }

    fn read(&self, path: &str) -> Reading {
        match self.files.get(path) {
            Some(contents) => {
                Reading::Found(Config::new(contents.lines().map(host).collect(), vec![]))
            }
            None => Reading::Missing,
        }
    }
}

fn contents(config: &Config) -> String {
    config.hosts().iter().map(|h| format!("{}\n", h.alias)).collect()
}

fn host(alias: &str) -> Host {
    Host {
        alias: alias.into(),
        hostname: "10.0.0.1".into(),
        user: "admin".into(),
        port: 22,
        identity_file: None,
        group: None,
        extra: vec![],
        details: String::new(),
        last_accessed: String::new(),
    }
}

#[test]
fn the_configuration_has_its_own_directory() {
    assert_eq!(
        config_file(Some("/home/me/.config".into())).unwrap(),
        "/home/me/.config/hosttui/hosts.toml"
    );
    let error = config_file(None).unwrap_err();
    assert!(matches!(error, Error::NoConfigDir));
    assert_eq!(error.to_string(), "could not determine config directory");
}

#[test]
fn the_configuration_is_below_the_directory_of_the_user() {
    match config_path() {
        Ok(path) => {
            let dir = dirs::config_dir().unwrap();
            assert_eq!(path, dir.join("hosttui").join("hosts.toml").to_str().unwrap());
        }
        Err(error) => {
            assert!(dirs::config_dir().is_none());
            assert!(matches!(error, Error::NoConfigDir));
        }
    }
}

#[test]
fn load_missing_file_returns_empty_config() {
    let dir = Disk::default();
    let config = load("/tmp/does_not_exist.toml", dir.read("/tmp/does_not_exist.toml")).unwrap();
    assert!(config.hosts().is_empty());
    assert!(config.groups().is_empty());
}

#[test]
fn reading_reports_what_failed() {
    let error = load("/x/hosts.toml", Reading::Unreadable("denied".into())).unwrap_err();
    assert_eq!(error.to_string(), "failed to read config from /x/hosts.toml");
    assert!(matches!(error, Error::ReadConfig { .. }));

    let error = load("/x/bad.toml", Reading::Malformed("line 1".into())).unwrap_err();
    assert_eq!(error.to_string(), "failed to parse config from /x/bad.toml");
    assert!(matches!(error, Error::ParseConfig { .. }));

    let found = Config::new(vec![host("web")], vec![Group { name: "prod".into() }]);
    let config = load("/x/hosts.toml", Reading::Found(found)).unwrap();
    assert_eq!(config.hosts().len(), 1);
    assert_eq!(config.groups().len(), 1);
}

#[test]
fn every_error_has_a_sentence() {
    assert_eq!(
        Error::SerializeConfig("x".into()).to_string(),
        "failed to serialize config"
    );
    assert_eq!(
        Error::Ssh { alias: "web".into(), source: "x".into() }.to_string(),
        "ssh connection to 'web' failed"
    );
    assert_eq!(
        Error::Pty { alias: "web".into(), source: "x".into() }.to_string(),
        "PTY error for 'web'"
    );
}

#[test]
fn saving_writes_beside_and_renames() {
    let steps = save("/cfg/hosttui/hosts.toml", "hosts = []\n".into());
    assert_eq!(steps.len(), 3);
    match &steps[0] {
        SaveStep::CreateDir(dir) => assert_eq!(dir, "/cfg/hosttui"),
        other => panic!("{other:?}"),
    }
    match &steps[1] {
        SaveStep::Write { path, contents } => {
            assert_eq!(path, "/cfg/hosttui/hosts.toml.tmp");
            assert_eq!(contents, "hosts = []\n");
        }
        other => panic!("{other:?}"),
    }
    match &steps[2] {
        SaveStep::Rename { from, to } => {
            assert_eq!(from, "/cfg/hosttui/hosts.toml.tmp");
            assert_eq!(to, "/cfg/hosttui/hosts.toml");
        }
        other => panic!("{other:?}"),
    }
}

#[test]
fn a_failed_step_names_its_path() {
    let steps = save("/cfg/hosts.toml", String::new());
    let texts: Vec<String> = steps.iter().map(|s| s.failed("full".into()).to_string()).collect();
    assert_eq!(
        texts,
        vec![
            "failed to write config to /cfg",
            "failed to write config to /cfg/hosts.toml.tmp",
            "failed to write config to /cfg/hosts.toml",
        ]
    );
    assert!(matches!(steps[0].failed("full".into()), Error::WriteConfig { .. }));
}

#[test]
fn extensions_are_replaced_like_those_of_paths() {
    let paths = [
        "/a/hosts.toml", "hosts.toml", "/a/b/", "/a/.hidden", "/a/x.y.z", "/", "..", "a/..", "a/.",
        "", ".", "/a//b.c", ".a.b",
    ];
    for path in paths {
        let expected = std::path::Path::new(path).with_extension("toml.tmp");
        assert_eq!(replace_extension(path, "toml.tmp"), expected.to_str().unwrap(), "{path}");
    }
}

#[test]
fn names_and_parents_are_those_of_paths() {
    let paths = ["/a/b", "/a", "/", "a", "a/b/", "/a/..", "/a/./", "", "/a//b"];
    for path in paths {
        let p = std::path::Path::new(path);
        assert_eq!(parent_of(path).as_deref(), p.parent().map(|p| p.to_str().unwrap()), "{path}");
        assert_eq!(
            file_name_of(path).as_deref(),
            p.file_name().map(|n| n.to_str().unwrap()),
            "{path}"
        );
    }
    assert_eq!(join_local("/a", "b"), "/a/b");
    assert_eq!(join_local("/a/", "/b"), "/b");
    assert_eq!(join_remote("/", "b"), "/b");
    assert_eq!(join_remote("/a//", "b"), "/a/b");
    assert_eq!(parent_of(&join_local("/a/b", "c")).as_deref(), Some("/a/b"));
}

#[test]
fn ssh_gets_options_before_the_destination() {
    let mut h = host("web");
    h.identity_file = Some("~/.ssh/key".into());
    h.port = 2222;
    h.extra = vec![("ForwardAgent".into(), "yes".into())];
    assert_eq!(
        ssh_args(&h),
        vec![
            "-i", "~/.ssh/key", "-p", "2222", "-o", "ConnectTimeout=5", "-o",
            "ServerAliveInterval=10", "-o", "ServerAliveCountMax=3", "-o", "ForwardAgent=yes",
            "admin@10.0.0.1",
        ]
    );
    assert_eq!(
        ssh_args(&host("plain")),
        vec![
            "-o", "ConnectTimeout=5", "-o", "ServerAliveInterval=10", "-o",
            "ServerAliveCountMax=3", "admin@10.0.0.1",
        ]
    );
}

#[test]
fn ssh_reads_a_section_for_each_host() {
    let mut web = host("web");
    web.identity_file = Some("~/.ssh/key".into());
    web.extra = vec![("ForwardAgent".into(), "yes".into())];
    let mut db = host("db");
    db.port = 2200;
    let config = Config::new(vec![web, db], vec![]);
    let expected = "Host web\n    HostName 10.0.0.1\n    User admin\n    Port 22\n    \
                    IdentityFile ~/.ssh/key\n    ForwardAgent yes\n\nHost db\n    HostName 10.0.0.1\n    \
                    User admin\n    Port 2200\n\n";
    assert_eq!(ssh_config(&config), expected);

    let steps = save_ssh_config("/home/me", &config);
    assert_eq!(steps.len(), 2);
    match (&steps[0], &steps[1]) {
        (SaveStep::CreateDir(dir), SaveStep::Write { path, contents }) => {
            assert_eq!(dir, "/home/me/.ssh");
            assert_eq!(path, "/home/me/.ssh/config.hosttui");
            assert_eq!(contents, expected);
        }
        other => panic!("{other:?}"),
    }
}

#[test]
fn save_creates_parent_dirs() {
    let mut disk = Disk::default();
    let path = "/tmp/store/nested/dir/hosts.toml";
    let config = Config::new(vec![], vec![]);
    disk.perform(&save(path, contents(&config)));
    assert_eq!(disk.dirs, vec!["/tmp/store/nested/dir"]);
    assert!(disk.files.contains_key(path));
}

#[test]
fn a_load_returns_what_was_saved() {
    let mut disk = Disk::default();
    let path = "/home/me/.config/hosttui/hosts.toml";
    let mut config = Config::new(vec![host("web")], vec![]);
    disk.perform(&save(path, contents(&config)));
    config.add_host(host("new"));
    let steps = save(path, contents(&config));
    disk.perform(&steps[..steps.len() - 1]);
    assert_eq!(load(path, disk.read(path)).unwrap().hosts().len(), 1);
    disk.perform(&steps[steps.len() - 1..]);

    let reloaded = load(path, disk.read(path)).unwrap();
    assert_eq!(reloaded.hosts().len(), 2);
    assert!(reloaded.find("new").is_some());
    assert_eq!(disk.files.len(), 1);
}

#[test]
fn both_files_are_written_on_every_save() {
    let mut disk = Disk::default();
    let path = "/home/me/.config/hosttui/hosts.toml";
    let config = Config::new(vec![host("web")], vec![]);
    disk.perform(&persist(path, contents(&config), Some("/home/me"), &config));
    assert_eq!(disk.files[path], "web\n");
    assert_eq!(disk.files["/home/me/.ssh/config.hosttui"], ssh_config(&config));
    assert_eq!(disk.files.len(), 2);

    let mut homeless = Disk::default();
    homeless.perform(&persist(path, contents(&config), None, &config));
    assert_eq!(homeless.files.len(), 1);
}

#[test]
fn what_was_persisted_is_loaded() {
    let path = config_file(Some("/home/me/.config".into())).unwrap();
    let config = Config::new(vec![host("web"), host("db")], vec![]);
    for home in [Some("/home/me"), None] {
        let mut disk = Disk::default();
        assert!(load(&path, disk.read(&path)).unwrap().hosts().is_empty());
        disk.perform(&persist(&path, contents(&config), home, &config));
        assert_eq!(load(&path, disk.read(&path)).unwrap(), config);
        let fewer = Config::new(vec![host("db")], vec![]);
        disk.perform(&persist(&path, contents(&fewer), home, &fewer));
        assert_eq!(load(&path, disk.read(&path)).unwrap(), fewer);
    }
}
