//! Hosts, groups and configurations.
use hosttui::model::{Config, Group, Host};

fn host(alias: &str, group: Option<&str>) -> Host {
    Host {
        alias: alias.into(),
        hostname: "127.0.0.1".into(),
        user: "user".into(),
        port: 22,
        identity_file: Some("~/.ssh/id_rsa".into()),
        group: group.map(Into::into),
        extra: vec![],
        details: "Test host".into(),
        last_accessed: "".into(),
    }
}

fn group(name: &str) -> Group {
    Group { name: name.into() }
}

fn sample_config() -> Config {
    Config::new(
        vec![
            host("web1", Some("production")),
            host("web2", Some("production")),
            host("staging", Some("staging")),
            host("personal", None),
        ],
        vec![group("production"), group("staging")],
    )
}

fn aliases(config: &Config) -> Vec<&str> {
    config.hosts().iter().map(|h| h.alias.as_str()).collect()
}

#[test]
fn host_fields() {
    let h = host("test", Some("group"));
    assert_eq!(h.alias, "test");
    assert_eq!(h.hostname, "127.0.0.1");
    assert_eq!(h.user, "user");
    assert_eq!(h.port, 22);
    assert_eq!(h.identity_file, Some("~/.ssh/id_rsa".into()));
    assert_eq!(h.group, Some("group".into()));
    assert_eq!(h.details, "Test host");
}

#[test]
fn find_existing_host() {
    let config = sample_config();
    let found = config.find("web1").unwrap();
    assert_eq!(found.alias, "web1");
    assert_eq!(found.group, Some("production".into()));
}

#[test]
fn find_missing_host() {
    let config = sample_config();
    assert!(config.find("nonexistent").is_none());
}

#[test]
fn groups_stored_independently() {
    let config = sample_config();
    let groups = config.groups();
    assert_eq!(groups.len(), 2);
    assert_eq!(groups[0].name, "production");
    assert_eq!(groups[1].name, "staging");
}

#[test]
fn hosts_in_group() {
    let config = sample_config();
    let prod_hosts = config.hosts_in_group("production");
    let aliases: Vec<&str> = prod_hosts.iter().map(|h| h.alias.as_str()).collect();
    assert_eq!(aliases, vec!["web1", "web2"]);
}

#[test]
fn hosts_in_nonexistent_group() {
    let config = sample_config();
    assert!(config.hosts_in_group("nope").is_empty());
}

#[test]
fn ungrouped_hosts() {
    let config = sample_config();
    let ungrouped = config.ungrouped_hosts();
    assert_eq!(ungrouped.len(), 1);
    assert_eq!(ungrouped[0].alias, "personal");
}

#[test]
fn unique_aliases() {
    let config = sample_config();
    assert!(config.has_unique_aliases());
}

#[test]
fn duplicate_aliases_detected() {
    let config = Config::new(vec![host("dup", None), host("dup", Some("group"))], vec![]);
    assert!(!config.has_unique_aliases());
}

#[test]
fn empty_config() {
    let config = Config::new(vec![], vec![]);
    assert!(config.hosts().is_empty());
    assert!(config.groups().is_empty());
    assert!(config.has_unique_aliases());
    assert!(config.find("anything").is_none());
}

#[test]
fn added_host_is_found_at_the_end() {
    let mut config = sample_config();
    config.add_host(host("new", Some("staging")));
    assert_eq!(aliases(&config), vec!["web1", "web2", "staging", "personal", "new"]);
    assert_eq!(config.find("new").unwrap().group, Some("staging".into()));
    assert!(config.has_unique_aliases());
}

#[test]
fn updated_host_may_change_its_alias() {
    let mut config = sample_config();
    config.update_host("web2", host("renamed", None));
    assert_eq!(aliases(&config), vec!["web1", "renamed", "staging", "personal"]);
    config.update_host("missing", host("other", None));
    assert_eq!(aliases(&config), vec!["web1", "renamed", "staging", "personal"]);
}

#[test]
fn removing_a_host_takes_all_of_its_alias() {
    let mut config = Config::new(vec![host("a", None), host("b", None), host("a", None)], vec![]);
    config.remove_host("a");
    assert_eq!(aliases(&config), vec!["b"]);
}

#[test]
fn a_group_is_added_once() {
    let mut config = sample_config();
    config.add_group("staging");
    config.add_group("lab");
    config.add_group("lab");
    let names: Vec<&str> = config.groups().iter().map(|g| g.name.as_str()).collect();
    assert_eq!(names, vec!["production", "staging", "lab"]);
    assert!(config.find_group("lab").is_some());
    assert!(config.find_group("home").is_none());
}

#[test]
fn removing_a_group_keeps_its_hosts() {
    let mut config = sample_config();
    config.remove_group("production");
    assert_eq!(config.hosts().len(), 4);
    assert!(config.find_group("production").is_none());
    assert_eq!(config.ungrouped_hosts().len(), 3);
    assert_eq!(config.find("staging").unwrap().group, Some("staging".into()));
}

#[test]
fn renaming_a_group_moves_its_hosts() {
    let mut config = sample_config();
    config.rename_group("production", "live");
    assert!(config.hosts_in_group("production").is_empty());
    assert_eq!(config.hosts_in_group("live").len(), 2);
    assert_eq!(config.groups()[0].name, "live");
}

#[test]
fn renaming_a_group_and_back_changes_nothing() {
    let mut config = sample_config();
    config.rename_group("production", "live");
    assert_ne!(config, sample_config());
    config.rename_group("live", "production");
    assert_eq!(config, sample_config());
}

#[test]
fn what_is_added_and_removed_leaves_no_trace() {
    let mut config = sample_config();
    config.add_host(host("brand-new", None));
    assert_ne!(config, sample_config());
    config.remove_host("brand-new");
    assert_eq!(config, sample_config());

    config.add_group("brand-new");
    assert_ne!(config, sample_config());
    config.remove_group("brand-new");
    assert_eq!(config, sample_config());
}

#[test]
fn a_clone_is_equal() {
    let config = sample_config();
    assert_eq!(config.clone(), config);
}

#[test]
fn access_time_has_the_usual_form() {
    let mut h = host("web", None);
    h.update_last_accessed();
    assert_eq!(h.last_accessed.len(), 19);
    assert_eq!(&h.last_accessed[10..11], "T");
    assert_eq!(h.alias, "web");
}
