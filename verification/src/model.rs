//! Hosts, groups, and the configuration that holds them.
use vstd::prelude::*;
use crate::seqs::{
    lemma_filter_all, lemma_filter_complete, lemma_filter_push, lemma_filter_sound,
    lemma_filter_take, lemma_position, lemma_position_is, lemma_position_none, position,
};
use crate::text::{decimal, digit, same_text};

verus! {

/// The text of an optional string.
pub open spec fn opt_text(s: Option<String>) -> Option<Seq<char>> {
    match s {
        Some(s) => Some(s@),
        None => None,
    }
}

/// The texts of a list of key/value pairs.
pub open spec fn pair_texts(pairs: Seq<(String, String)>) -> Seq<(Seq<char>, Seq<char>)> {
    pairs.map_values(|p: (String, String)| (p.0@, p.1@))
}

/// Copies an optional string.
pub fn clone_opt(s: &Option<String>) -> (r: Option<String>)
    ensures
        opt_text(r) == opt_text(*s),
{
    match s {
        Some(s) => Some(s.clone()),
        None => None,
    }
}

/// Copies a list of key/value pairs.
pub fn clone_pairs(pairs: &Vec<(String, String)>) -> (r: Vec<(String, String)>)
    ensures
        pair_texts(r@) == pair_texts(pairs@),
{
    let mut out: Vec<(String, String)> = Vec::new();
    for i in 0..pairs.len()
        invariant
            out@.len() == i,
            forall|k: int| 0 <= k < i ==> (#[trigger] out@[k]).0@ == pairs@[k].0@ && out@[k].1@
                == pairs@[k].1@,
    {
        out.push((pairs[i].0.clone(), pairs[i].1.clone()));
    }
    assert(pair_texts(out@) =~= pair_texts(pairs@));
    out
}

/// Whether an optional string holds a given text.
pub fn opt_is(s: &Option<String>, text: &str) -> (yes: bool)
    ensures
        yes == (opt_text(*s) == Some(text@)),
{
    match s {
        Some(s) => same_text(s.as_str(), text),
        None => false,
    }
}

/// A single SSH target.
///
/// The fields map closely to OpenSSH directives, so that the same value serves
/// the host list and a connection.
#[derive(Debug, PartialEq)]
pub struct Host {
    pub alias: String,
    pub hostname: String,
    pub user: String,
    pub port: u16,
    pub identity_file: Option<String>,
    pub group: Option<String>,
    pub extra: Vec<(String, String)>,
    pub details: String,
    pub last_accessed: String,
}

/// The model of a host.
#[verifier::ext_equal]
pub struct HostView {
    pub alias: Seq<char>,
    pub hostname: Seq<char>,
    pub user: Seq<char>,
    pub port: u16,
    pub identity_file: Option<Seq<char>>,
    pub group: Option<Seq<char>>,
    pub extra: Seq<(Seq<char>, Seq<char>)>,
    pub details: Seq<char>,
    pub last_accessed: Seq<char>,
}

impl View for Host {
    type V = HostView;

    open spec fn view(&self) -> HostView {
        HostView {
            alias: self.alias@,
            hostname: self.hostname@,
            user: self.user@,
            port: self.port,
            identity_file: opt_text(self.identity_file),
            group: opt_text(self.group),
            extra: pair_texts(self.extra@),
            details: self.details@,
            last_accessed: self.last_accessed@,
        }
    }
}

impl Clone for Host {
    fn clone(&self) -> (r: Self)
        ensures
            r@ == self@,
    {
        Host {
            alias: self.alias.clone(),
            hostname: self.hostname.clone(),
            user: self.user.clone(),
            port: self.port,
            identity_file: clone_opt(&self.identity_file),
            group: clone_opt(&self.group),
            extra: clone_pairs(&self.extra),
            details: self.details.clone(),
            last_accessed: self.last_accessed.clone(),
        }
    }
}

/// A number in two digits.
pub open spec fn two_digits(n: nat) -> Seq<char> {
    seq![digit(n / 10), digit(n % 10)]
}

/// A year in four digits, or with a sign where it takes more.
pub open spec fn year_digits(year: nat) -> Seq<char> {
    if year <= 9999 {
        two_digits(year / 100) + two_digits(year % 100)
    } else {
        "+"@ + decimal(year)
    }
}

/// A date and a time of day, as they are written.
pub open spec fn time_text(
    year: nat,
    month: nat,
    day: nat,
    hour: nat,
    minute: nat,
    second: nat,
) -> Seq<char> {
    year_digits(year) + "-"@ + two_digits(month) + "-"@ + two_digits(day) + "T"@ + two_digits(hour)
        + ":"@ + two_digits(minute) + ":"@ + two_digits(second)
}

/// Whether a text is a date and a time of day. A minute can have a leap second.
pub open spec fn is_time_text(text: Seq<char>) -> bool {
    exists|year: nat, month: nat, day: nat, hour: nat, minute: nat, second: nat|
        text == #[trigger] time_text(year, month, day, hour, minute, second) && 1 <= month <= 12
            && 1 <= day <= 31 && hour < 24 && minute < 60 && second <= 60
}

/// Calls `chrono::Local::now` and formats it as `%FT%H:%M:%S`.
///
/// The result is a date and a time of day in that form. Which ones they are
/// depends on the clock and the time zone, so nothing is stated of that.
#[verifier::external_body]
fn local_timestamp() -> (text: String)
    ensures
        is_time_text(text@),
{
    chrono::Local::now().format("%FT%H:%M:%S").to_string()
}

impl Host {
    /// Records the current local time as the time of the last access, whatever the
    /// clock says that time is.
    pub fn update_last_accessed(&mut self)
        ensures
            final(self)@ == accessed_at(old(self)@, final(self)@.last_accessed),
            is_time_text(final(self)@.last_accessed),
    {
        let now = local_timestamp();
        self.set_last_accessed(now);
    }

    /// Records a given time as the time of the last access.
    pub fn set_last_accessed(&mut self, timestamp: String)
        ensures
            final(self)@ == accessed_at(old(self)@, timestamp@),
    {
        self.last_accessed = timestamp;
    }
}

/// A group that hosts can belong to.
///
/// Membership is recorded on each host. The groups are kept apart, so that an
/// empty group can exist.
#[derive(Debug, PartialEq)]
pub struct Group {
    pub name: String,
}

impl Clone for Group {
    fn clone(&self) -> (r: Self)
        ensures
            r.name@ == self.name@,
    {
        Group { name: self.name.clone() }
    }
}

/// A host with another time of last access.
pub open spec fn accessed_at(host: HostView, time: Seq<char>) -> HostView {
    HostView { last_accessed: time, ..host }
}

/// The models of a list of hosts.
pub open spec fn host_views(hosts: Seq<Host>) -> Seq<HostView> {
    hosts.map_values(|h: Host| h@)
}

/// The names of a list of groups.
pub open spec fn group_names(groups: Seq<Group>) -> Seq<Seq<char>> {
    groups.map_values(|g: Group| g.name@)
}

/// Whether a text is a name.
pub open spec fn is_name(name: Seq<char>) -> spec_fn(Seq<char>) -> bool {
    |text: Seq<char>| text == name
}

/// Whether a text is another name.
pub open spec fn is_other_name(name: Seq<char>) -> spec_fn(Seq<char>) -> bool {
    |text: Seq<char>| text != name
}

/// The hosts and groups that the application manages.
///
/// Both are private, so that every change keeps the references from hosts to
/// groups consistent.
#[derive(Debug, PartialEq)]
pub struct Config {
    hosts: Vec<Host>,
    groups: Vec<Group>,
}

/// The model of a configuration.
#[verifier::ext_equal]
pub struct ConfigView {
    pub hosts: Seq<HostView>,
    pub groups: Seq<Seq<char>>,
}

impl View for Config {
    type V = ConfigView;

    closed spec fn view(&self) -> ConfigView {
        ConfigView { hosts: host_views(self.hosts@), groups: group_names(self.groups@) }
    }
}

impl ConfigView {
    /// The position of the first host with an alias.
    pub open spec fn index_of(self, alias: Seq<char>) -> Option<int> {
        position(self.hosts, |h: HostView| h.alias == alias)
    }

    /// The first host with an alias.
    pub open spec fn find(self, alias: Seq<char>) -> Option<HostView> {
        match self.index_of(alias) {
            Some(i) => Some(self.hosts[i]),
            None => None,
        }
    }

    /// The hosts of a group, in their order.
    pub open spec fn hosts_in_group(self, name: Seq<char>) -> Seq<HostView> {
        self.hosts.filter(|h: HostView| h.group == Some(name))
    }

    /// The hosts without a group, in their order.
    pub open spec fn ungrouped_hosts(self) -> Seq<HostView> {
        self.hosts.filter(|h: HostView| h.group is None)
    }

    /// Whether no two hosts share an alias.
    pub open spec fn unique_aliases(self) -> bool {
        forall|i: int, j: int|
            0 <= i < j < self.hosts.len() ==> (#[trigger] self.hosts[i]).alias != (
            #[trigger] self.hosts[j]).alias
    }

    /// Whether every host that names a group names one that exists.
    pub open spec fn groups_exist(self) -> bool {
        forall|i: int|
            0 <= i < self.hosts.len() && (#[trigger] self.hosts[i]).group is Some
                ==> self.groups.contains(self.hosts[i].group->0)
    }

    /// The configuration with a host at its end.
    pub open spec fn add_host(self, host: HostView) -> ConfigView {
        ConfigView { hosts: self.hosts.push(host), ..self }
    }

    /// The configuration with the first host of an alias replaced.
    pub open spec fn update_host(self, alias: Seq<char>, host: HostView) -> ConfigView {
        match self.index_of(alias) {
            Some(i) => ConfigView { hosts: self.hosts.update(i, host), ..self },
            None => self,
        }
    }

    /// The configuration without the hosts of an alias.
    pub open spec fn remove_host(self, alias: Seq<char>) -> ConfigView {
        ConfigView { hosts: self.hosts.filter(|h: HostView| h.alias != alias), ..self }
    }

    /// The configuration with a group, at the end if it is new.
    pub open spec fn add_group(self, name: Seq<char>) -> ConfigView {
        if self.groups.contains(name) {
            self
        } else {
            ConfigView { groups: self.groups.push(name), ..self }
        }
    }

    /// The configuration without a group, its hosts kept without a group.
    pub open spec fn remove_group(self, name: Seq<char>) -> ConfigView {
        ConfigView {
            hosts: self.hosts.map_values(
                |h: HostView|
                    if h.group == Some(name) {
                        HostView { group: None, ..h }
                    } else {
                        h
                    },
            ),
            groups: self.groups.filter(is_other_name(name)),
        }
    }

    /// The configuration with the first group of a name renamed, and with every
    /// host of the old name moved to the new one.
    pub open spec fn rename_group(self, from: Seq<char>, to: Seq<char>) -> ConfigView {
        ConfigView {
            hosts: self.hosts.map_values(
                |h: HostView|
                    if h.group == Some(from) {
                        HostView { group: Some(to), ..h }
                    } else {
                        h
                    },
            ),
            groups: match position(self.groups, is_name(from)) {
                Some(i) => self.groups.update(i, to),
                None => self.groups,
            },
        }
    }
}

impl Config {
    /// Creates a configuration from lists of hosts and groups, in their order.
    pub fn new(hosts: Vec<Host>, groups: Vec<Group>) -> (config: Self)
        ensures
            config@ == (ConfigView { hosts: host_views(hosts@), groups: group_names(groups@) }),
    {
        Config { hosts, groups }
    }

    /// The hosts, in their order.
    pub fn hosts(&self) -> (hosts: &[Host])
        ensures
            host_views(hosts@) == self@.hosts,
    {
        self.hosts.as_slice()
    }

    /// The groups, in their order.
    pub fn groups(&self) -> (groups: &[Group])
        ensures
            group_names(groups@) == self@.groups,
    {
        self.groups.as_slice()
    }

    /// Finds the position of the first host with an alias.
    fn host_position(&self, alias: &str) -> (pos: Option<usize>)
        ensures
            match pos {
                Some(i) => self@.index_of(alias@) == Some(i as int) && i < self.hosts@.len(),
                None => self@.index_of(alias@) is None,
            },
    {
        let ghost wanted = |h: HostView| h.alias == alias@;
        for i in 0..self.hosts.len()
            invariant
                wanted == (|h: HostView| h.alias == alias@),
                forall|k: int| 0 <= k < i ==> !wanted(#[trigger] self@.hosts[k]),
        {
            assert(self@.hosts[i as int] == self.hosts@[i as int]@);
            if same_text(self.hosts[i].alias.as_str(), alias) {
                proof {
                    lemma_position_is(self@.hosts, wanted, i as int);
                }
                return Some(i);
            }
        }
        proof {
            lemma_position_none(self@.hosts, wanted);
        }
        None
    }

    /// Finds a host by its alias.
    pub fn find(&self, alias: &str) -> (host: Option<&Host>)
        ensures
            match host {
                Some(h) => self@.find(alias@) == Some(h@),
                None => self@.find(alias@) is None,
            },
    {
        match self.host_position(alias) {
            Some(i) => Some(&self.hosts[i]),
            None => None,
        }
    }

    /// The hosts of a group, in their order.
    pub fn hosts_in_group(&self, group_name: &str) -> (hosts: Vec<&Host>)
        ensures
            hosts@.map_values(|h: &Host| h@) == self@.hosts_in_group(group_name@),
    {
        let ghost keep = |h: HostView| h.group == Some(group_name@);
        let mut out: Vec<&Host> = Vec::new();
        assert(out@.map_values(|h: &Host| h@) =~= self@.hosts.take(0).filter(keep)) by {
            reveal(Seq::filter);
        }
        for i in 0..self.hosts.len()
            invariant
                keep == (|h: HostView| h.group == Some(group_name@)),
                out@.map_values(|h: &Host| h@) == self@.hosts.take(i as int).filter(keep),
        {
            proof {
                lemma_filter_take(self@.hosts, i as int, keep);
            }
            assert(self@.hosts[i as int] == self.hosts@[i as int]@);
            if opt_is(&self.hosts[i].group, group_name) {
                let ghost before = out@;
                out.push(&self.hosts[i]);
                assert(out@.map_values(|h: &Host| h@) =~= before.map_values(|h: &Host| h@).push(
                    self.hosts@[i as int]@,
                ));
            }
        }
        assert(self@.hosts.take(self.hosts@.len() as int) =~= self@.hosts);
        out
    }

    /// The hosts without a group, in their order.
    pub fn ungrouped_hosts(&self) -> (hosts: Vec<&Host>)
        ensures
            hosts@.map_values(|h: &Host| h@) == self@.ungrouped_hosts(),
    {
        let ghost keep = |h: HostView| h.group is None;
        let mut out: Vec<&Host> = Vec::new();
        assert(out@.map_values(|h: &Host| h@) =~= self@.hosts.take(0).filter(keep)) by {
            reveal(Seq::filter);
        }
        for i in 0..self.hosts.len()
            invariant
                keep == (|h: HostView| h.group is None),
                out@.map_values(|h: &Host| h@) == self@.hosts.take(i as int).filter(keep),
        {
            proof {
                lemma_filter_take(self@.hosts, i as int, keep);
            }
            assert(self@.hosts[i as int] == self.hosts@[i as int]@);
            if self.hosts[i].group.is_none() {
                let ghost before = out@;
                out.push(&self.hosts[i]);
                assert(out@.map_values(|h: &Host| h@) =~= before.map_values(|h: &Host| h@).push(
                    self.hosts@[i as int]@,
                ));
            }
        }
        assert(self@.hosts.take(self.hosts@.len() as int) =~= self@.hosts);
        out
    }

    /// Whether no two hosts share an alias.
    pub fn has_unique_aliases(&self) -> (unique: bool)
        ensures
            unique == self@.unique_aliases(),
    {
        for j in 0..self.hosts.len()
            invariant
                forall|a: int, b: int|
                    0 <= a < b < j ==> (#[trigger] self@.hosts[a]).alias != (
                    #[trigger] self@.hosts[b]).alias,
        {
            assert(self@.hosts[j as int] == self.hosts@[j as int]@);
            for i in 0..j
                invariant
                    j < self.hosts@.len(),
                    self@.hosts[j as int] == self.hosts@[j as int]@,
                    forall|a: int| 0 <= a < i ==> (#[trigger] self@.hosts[a]).alias
                        != self@.hosts[j as int].alias,
            {
                assert(self@.hosts[i as int] == self.hosts@[i as int]@);
                if self.hosts[i].alias == self.hosts[j].alias {
                    return false;
                }
            }
        }
        true
    }

    /// Appends a host.
    pub fn add_host(&mut self, host: Host)
        ensures
            final(self)@ == old(self)@.add_host(host@),
    {
        self.hosts.push(host);
        assert(host_views(self.hosts@) =~= host_views(old(self).hosts@).push(host@));
    }

    /// Replaces the first host with an alias. The new host may have another alias.
    pub fn update_host(&mut self, alias: &str, host: Host)
        ensures
            final(self)@ == old(self)@.update_host(alias@, host@),
    {
        if let Some(i) = self.host_position(alias) {
            self.hosts[i] = host;
            assert(host_views(self.hosts@) =~= host_views(old(self).hosts@).update(i as int, host@));
        }
    }

    /// Removes the hosts with an alias.
    pub fn remove_host(&mut self, alias: &str)
        ensures
            final(self)@ == old(self)@.remove_host(alias@),
    {
        let ghost given = self@.hosts;
        let ghost keep = |h: HostView| h.alias != alias@;
        let mut i: usize = 0;
        let ghost mut seen: int = 0;
        assert(given.take(0).filter(keep) =~= Seq::<HostView>::empty()) by {
            reveal(Seq::filter);
        }
        assert(host_views(self.hosts@) =~= given.take(0).filter(keep) + given.skip(0));
        while i < self.hosts.len()
            invariant
                keep == (|h: HostView| h.alias != alias@),
                0 <= seen <= given.len(),
                i <= self.hosts@.len(),
                given.take(seen).filter(keep).len() == i,
                host_views(self.hosts@) == given.take(seen).filter(keep) + given.skip(seen),
                self.groups@ == old(self).groups@,
            decreases self.hosts@.len() - i,
        {
            let ghost now = host_views(self.hosts@);
            assert(now[i as int] == self.hosts@[i as int]@);
            assert(now[i as int] == given[seen]);
            proof {
                lemma_filter_take(given, seen, keep);
            }
            if same_text(self.hosts[i].alias.as_str(), alias) {
                let ghost before = self.hosts@;
                self.hosts.remove(i);
                assert(host_views(self.hosts@) =~= now.remove(i as int));
                assert(host_views(self.hosts@) =~= given.take(seen + 1).filter(keep) + given.skip(
                    seen + 1,
                ));
            } else {
                assert(host_views(self.hosts@) =~= given.take(seen + 1).filter(keep) + given.skip(
                    seen + 1,
                ));
                i = i + 1;
            }
            proof {
                seen = seen + 1;
            }
        }
        assert(given.take(seen) =~= given);
        assert(host_views(self.hosts@) =~= given.filter(keep));
    }

    /// Finds the position of the first group with a name.
    fn group_position(&self, name: &str) -> (pos: Option<usize>)
        ensures
            match pos {
                Some(i) => position(self@.groups, is_name(name@)) == Some(i as int) && i
                    < self.groups@.len() && self@.groups.contains(name@),
                None => position(self@.groups, is_name(name@)) is None
                    && !self@.groups.contains(name@),
            },
    {
        let ghost wanted = is_name(name@);
        for i in 0..self.groups.len()
            invariant
                wanted == is_name(name@),
                forall|k: int| 0 <= k < i ==> !wanted(#[trigger] self@.groups[k]),
        {
            assert(self@.groups[i as int] == self.groups@[i as int].name@);
            if same_text(self.groups[i].name.as_str(), name) {
                proof {
                    lemma_position_is(self@.groups, wanted, i as int);
                }
                return Some(i);
            }
        }
        proof {
            lemma_position_none(self@.groups, wanted);
        }
        None
    }

    /// Adds a group unless there is one of that name.
    pub fn add_group(&mut self, name: &str)
        ensures
            final(self)@ == old(self)@.add_group(name@),
    {
        if self.group_position(name).is_none() {
            self.groups.push(Group { name: name.to_string() });
            assert(group_names(self.groups@) =~= group_names(old(self).groups@).push(name@));
        }
    }

    /// Moves every host of a group to another group, or out of any group.
    fn regroup(&mut self, from: &str, to: Option<&str>)
        ensures
            final(self).groups == old(self).groups,
            final(self)@.hosts == old(self)@.hosts.map_values(
                |h: HostView|
                    if h.group == Some(from@) {
                        HostView {
                            group: match to {
                                Some(t) => Some(t@),
                                None => None,
                            },
                            ..h
                        }
                    } else {
                        h
                    },
            ),
    {
        let ghost given = self@.hosts;
        let ghost target: Option<Seq<char>> = match to {
            Some(t) => Some(t@),
            None => None,
        };
        let ghost moved = |h: HostView|
            if h.group == Some(from@) {
                HostView { group: target, ..h }
            } else {
                h
            };
        let mut i: usize = 0;
        while i < self.hosts.len()
            invariant
                i <= self.hosts@.len(),
                self.hosts@.len() == given.len(),
                self.groups == old(self).groups,
                target == (match to {
                    Some(t) => Some(t@),
                    None => None::<Seq<char>>,
                }),
                moved == (|h: HostView|
                    if h.group == Some(from@) {
                        HostView { group: target, ..h }
                    } else {
                        h
                    }),
                forall|k: int| 0 <= k < i ==> (#[trigger] self.hosts@[k])@ == moved(given[k]),
                forall|k: int| i <= k < given.len() ==> (#[trigger] self.hosts@[k])@ == given[k],
            decreases given.len() - i,
        {
            if opt_is(&self.hosts[i].group, from) {
                let group: Option<String> = match to {
                    Some(t) => Some(t.to_string()),
                    None => None,
                };
                self.hosts[i].group = group;
            }
            i = i + 1;
        }
        assert(host_views(self.hosts@) =~= given.map_values(moved));
        assert(given.map_values(moved) =~= given.map_values(
            |h: HostView|
                if h.group == Some(from@) {
                    HostView {
                        group: match to {
                            Some(t) => Some(t@),
                            None => None,
                        },
                        ..h
                    }
                } else {
                    h
                },
        ));
    }

    /// Removes a group. Its hosts stay, without a group.
    pub fn remove_group(&mut self, name: &str)
        ensures
            final(self)@ == old(self)@.remove_group(name@),
    {
        let ghost given = self@.groups;
        let ghost keep = is_other_name(name@);
        let mut i: usize = 0;
        let ghost mut seen: int = 0;
        assert(given.take(0).filter(keep) =~= Seq::<Seq<char>>::empty()) by {
            reveal(Seq::filter);
        }
        assert(group_names(self.groups@) =~= given.take(0).filter(keep) + given.skip(0));
        while i < self.groups.len()
            invariant
                keep == is_other_name(name@),
                0 <= seen <= given.len(),
                i <= self.groups@.len(),
                given.take(seen).filter(keep).len() == i,
                group_names(self.groups@) == given.take(seen).filter(keep) + given.skip(seen),
                self.hosts@ == old(self).hosts@,
            decreases self.groups@.len() - i,
        {
            let ghost now = group_names(self.groups@);
            assert(now[i as int] == self.groups@[i as int].name@);
            assert(now[i as int] == given[seen]);
            proof {
                lemma_filter_take(given, seen, keep);
            }
            if same_text(self.groups[i].name.as_str(), name) {
                self.groups.remove(i);
                assert(group_names(self.groups@) =~= now.remove(i as int));
                assert(group_names(self.groups@) =~= given.take(seen + 1).filter(keep)
                    + given.skip(seen + 1));
            } else {
                assert(group_names(self.groups@) =~= given.take(seen + 1).filter(keep)
                    + given.skip(seen + 1));
                i = i + 1;
            }
            proof {
                seen = seen + 1;
            }
        }
        assert(given.take(seen) =~= given);
        assert(group_names(self.groups@) =~= given.filter(keep));
        self.regroup(name, None);
        assert(self@.hosts =~= old(self)@.remove_group(name@).hosts);
    }

    /// Finds a group by its name.
    pub fn find_group(&self, name: &str) -> (group: Option<&Group>)
        ensures
            match group {
                Some(g) => g.name@ == name@ && self@.groups.contains(name@),
                None => !self@.groups.contains(name@),
            },
    {
        match self.group_position(name) {
            Some(i) => {
                proof {
                    lemma_position(self@.groups, is_name(name@));
                }
                assert(self@.groups[i as int] == self.groups@[i as int].name@);
                Some(&self.groups[i])
            },
            None => None,
        }
    }

    /// Renames a group, and moves its hosts along.
    pub fn rename_group(&mut self, old_name: &str, new_name: &str)
        ensures
            final(self)@ == old(self)@.rename_group(old_name@, new_name@),
    {
        if let Some(i) = self.group_position(old_name) {
            self.groups[i].name = new_name.to_string();
            assert(group_names(self.groups@) =~= group_names(old(self).groups@).update(
                i as int,
                new_name@,
            ));
        }
        self.regroup(old_name, Some(new_name));
        assert(self@.hosts =~= old(self)@.rename_group(old_name@, new_name@).hosts);
    }
}

impl Clone for Config {
    fn clone(&self) -> (r: Self)
        ensures
            r@ == self@,
    {
        let mut hosts: Vec<Host> = Vec::new();
        for i in 0..self.hosts.len()
            invariant
                hosts@.len() == i,
                forall|k: int| 0 <= k < i ==> (#[trigger] hosts@[k])@ == self.hosts@[k]@,
        {
            hosts.push(self.hosts[i].clone());
        }
        let mut groups: Vec<Group> = Vec::new();
        for i in 0..self.groups.len()
            invariant
                groups@.len() == i,
                forall|k: int| 0 <= k < i ==> (#[trigger] groups@[k]).name@ == self.groups@[k].name@,
        {
            groups.push(self.groups[i].clone());
        }
        assert(host_views(hosts@) =~= host_views(self.hosts@));
        assert(group_names(groups@) =~= group_names(self.groups@));
        Config { hosts, groups }
    }
}

// ---------------------------------------------------------------------------
// What changes keep
// ---------------------------------------------------------------------------

impl ConfigView {
    /// Whether no two hosts share an alias, every group that a host names exists,
    /// and no group is there twice.
    pub open spec fn valid(self) -> bool {
        self.unique_aliases() && self.groups_exist() && self.groups.no_duplicates()
    }
}

/// Where no two hosts share an alias, a host is the one found under its alias.
pub proof fn lemma_find_is(config: ConfigView, i: int)
    requires
        config.unique_aliases(),
        0 <= i < config.hosts.len(),
    ensures
        config.index_of(config.hosts[i].alias) == Some(i),
        config.find(config.hosts[i].alias) == Some(config.hosts[i]),
{
    let alias = config.hosts[i].alias;
    lemma_position_is(config.hosts, |h: HostView| h.alias == alias, i);
}

/// What is found under an alias has that alias and is there, and where nothing is
/// found nothing has it.
pub proof fn lemma_find(config: ConfigView, alias: Seq<char>)
    ensures
        config.find(alias) matches Some(host) ==> host.alias == alias && config.hosts.contains(
            host,
        ),
        config.find(alias) is None <==> forall|i: int|
            0 <= i < config.hosts.len() ==> (#[trigger] config.hosts[i]).alias != alias,
{
    lemma_position(config.hosts, |h: HostView| h.alias == alias);
    if let Some(i) = config.index_of(alias) {
        assert(config.hosts[i].alias == alias);
    }
}

/// A host that is added under a new alias is found under it, and no other alias
/// leads anywhere else than before.
pub proof fn lemma_found_after_add(config: ConfigView, host: HostView, alias: Seq<char>)
    requires
        config.find(host.alias) is None,
    ensures
        config.add_host(host).find(host.alias) == Some(host),
        alias != host.alias ==> config.add_host(host).find(alias) == config.find(alias),
{
    let after = config.add_host(host);
    lemma_find(config, host.alias);
    lemma_position(config.hosts, |h: HostView| h.alias == alias);
    assert(after.hosts.drop_last() =~= config.hosts);
    assert(after.hosts.last() == host);
}

/// Adding a host under a new alias keeps the aliases apart, and where its group
/// exists so do all groups of hosts.
pub proof fn lemma_add_host_keeps_valid(config: ConfigView, host: HostView)
    requires
        config.valid(),
        config.find(host.alias) is None,
        host.group is Some ==> config.groups.contains(host.group->0),
    ensures
        config.add_host(host).valid(),
{
    lemma_find(config, host.alias);
}

/// A host that takes the place of another is found under its alias, the old alias
/// leads nowhere if it is another one, and no other alias leads anywhere else
/// than before.
pub proof fn lemma_found_after_update(
    config: ConfigView,
    old_alias: Seq<char>,
    host: HostView,
    alias: Seq<char>,
)
    requires
        config.unique_aliases(),
        config.find(old_alias) is Some,
        host.alias == old_alias || config.find(host.alias) is None,
    ensures
        config.update_host(old_alias, host).unique_aliases(),
        config.update_host(old_alias, host).find(host.alias) == Some(host),
        host.alias != old_alias ==> config.update_host(old_alias, host).find(old_alias) is None,
        alias != host.alias && alias != old_alias ==> config.update_host(old_alias, host).find(
            alias,
        ) == config.find(alias),
{
    let after = config.update_host(old_alias, host);
    lemma_position(config.hosts, |h: HostView| h.alias == old_alias);
    lemma_find(config, host.alias);
    let i = config.index_of(old_alias)->0;
    assert forall|a: int, b: int| 0 <= a < b < after.hosts.len() implies (
    #[trigger] after.hosts[a]).alias != (#[trigger] after.hosts[b]).alias by {
        assert(config.hosts[a].alias != config.hosts[b].alias);
    }
    lemma_find_is(after, i);
    if host.alias != old_alias {
        assert forall|k: int| 0 <= k < after.hosts.len() implies (
        #[trigger] after.hosts[k]).alias != old_alias by {
            if k < i {
                assert(config.hosts[k].alias != config.hosts[i].alias);
            } else if k > i {
                assert(config.hosts[i].alias != config.hosts[k].alias);
            }
        }
        lemma_find(after, old_alias);
    }
    if alias != host.alias && alias != old_alias {
        lemma_position(config.hosts, |h: HostView| h.alias == alias);
        match config.index_of(alias) {
            Some(p) => {
                assert(after.hosts[p] == config.hosts[p]);
                lemma_find_is(after, p);
            },
            None => {
                assert forall|k: int| 0 <= k < after.hosts.len() implies (
                #[trigger] after.hosts[k]).alias != alias by {
                    assert(k != i ==> after.hosts[k] == config.hosts[k]);
                }
                lemma_find(after, alias);
            },
        }
    }
}

/// Replacing a host keeps a configuration valid, where the alias is free or stays
/// and the group exists.
pub proof fn lemma_update_host_keeps_valid(config: ConfigView, alias: Seq<char>, host: HostView)
    requires
        config.valid(),
        host.alias == alias || config.find(host.alias) is None,
        host.group is Some ==> config.groups.contains(host.group->0),
    ensures
        config.update_host(alias, host).valid(),
{
    if config.find(alias) is Some {
        lemma_found_after_update(config, alias, host, alias);
        lemma_position(config.hosts, |h: HostView| h.alias == alias);
        let after = config.update_host(alias, host);
        let i = config.index_of(alias)->0;
        assert forall|k: int|
            0 <= k < after.hosts.len() && (
            #[trigger] after.hosts[k]).group is Some implies after.groups.contains(
            after.hosts[k].group->0,
        ) by {
            assert(k != i ==> after.hosts[k] == config.hosts[k]);
        }
    }
}

proof fn lemma_filter_keeps_unique(hosts: Seq<HostView>, keep: spec_fn(HostView) -> bool)
    requires
        (ConfigView { hosts, groups: seq![] }).unique_aliases(),
    ensures
        (ConfigView { hosts: hosts.filter(keep), groups: seq![] }).unique_aliases(),
    decreases hosts.len(),
{
    reveal(Seq::filter);
    if hosts.len() > 0 {
        let rest = hosts.drop_last();
        assert((ConfigView { hosts: rest, groups: seq![] }).unique_aliases()) by {
            assert forall|i: int, j: int| 0 <= i < j < rest.len() implies (
            #[trigger] rest[i]).alias != (#[trigger] rest[j]).alias by {
                assert(hosts[i].alias != hosts[j].alias);
            }
        }
        lemma_filter_keeps_unique(rest, keep);
        lemma_filter_sound(rest, keep);
        let before = ConfigView { hosts: rest.filter(keep), groups: seq![] };
        let after = ConfigView { hosts: hosts.filter(keep), groups: seq![] };
        assert forall|i: int, j: int| 0 <= i < j < after.hosts.len() implies (
        #[trigger] after.hosts[i]).alias != (#[trigger] after.hosts[j]).alias by {
            if j < before.hosts.len() {
                assert(before.hosts[i].alias != before.hosts[j].alias);
            } else {
                let k = choose|k: int| 0 <= k < rest.len() && rest[k] == rest.filter(keep)[i];
                assert(hosts[k].alias != hosts[hosts.len() - 1].alias);
            }
        }
    }
}

/// A host that is removed is not found any more, no other alias leads anywhere
/// else than before, and the configuration stays valid.
pub proof fn lemma_remove_host(config: ConfigView, alias: Seq<char>, other: Seq<char>)
    requires
        config.valid(),
    ensures
        config.remove_host(alias).valid(),
        config.remove_host(alias).find(alias) is None,
        other != alias ==> config.remove_host(alias).find(other) == config.find(other),
{
    let keep = |h: HostView| h.alias != alias;
    let after = config.remove_host(alias);
    lemma_filter_sound(config.hosts, keep);
    lemma_filter_keeps_unique(config.hosts, keep);
    assert((ConfigView { hosts: config.hosts, groups: seq![] }).unique_aliases());
    assert(after.unique_aliases()) by {
        let bare = ConfigView { hosts: after.hosts, groups: seq![] };
        assert forall|i: int, j: int| 0 <= i < j < after.hosts.len() implies (
        #[trigger] after.hosts[i]).alias != (#[trigger] after.hosts[j]).alias by {
            assert(bare.hosts[i].alias != bare.hosts[j].alias);
        }
    }
    assert forall|k: int|
        0 <= k < after.hosts.len() && (
        #[trigger] after.hosts[k]).group is Some implies after.groups.contains(
        after.hosts[k].group->0,
    ) by {
        let at = choose|at: int| 0 <= at < config.hosts.len() && config.hosts[at] == after.hosts[k];
        assert(config.groups.contains(config.hosts[at].group->0));
    }
    lemma_find(after, alias);
    if other != alias {
        lemma_find(config, other);
        lemma_find(after, other);
        match config.find(other) {
            Some(host) => {
                lemma_filter_complete(config.hosts, keep, host);
                let at = choose|at: int| 0 <= at < after.hosts.len() && after.hosts[at] == host;
                lemma_find_is(after, at);
            },
            None => {
                assert forall|k: int| 0 <= k < after.hosts.len() implies (
                #[trigger] after.hosts[k]).alias != other by {
                    assert(config.hosts.contains(after.hosts[k]));
                }
            },
        }
    }
}

proof fn lemma_filter_keeps_distinct<T>(items: Seq<T>, keep: spec_fn(T) -> bool)
    requires
        items.no_duplicates(),
    ensures
        items.filter(keep).no_duplicates(),
    decreases items.len(),
{
    reveal(Seq::filter);
    if items.len() > 0 {
        let rest = items.drop_last();
        lemma_filter_keeps_distinct(rest, keep);
        lemma_filter_sound(rest, keep);
        let after = items.filter(keep);
        assert forall|i: int, j: int| 0 <= i < j < after.len() implies after[i] != after[j] by {
            if j >= rest.filter(keep).len() {
                let k = choose|k: int| 0 <= k < rest.len() && rest[k] == rest.filter(keep)[i];
                assert(items[k] != items[items.len() - 1]);
            }
        }
    }
}

/// Removing a group removes no host: each stays as it was, except that those of
/// the group have none any more. The configuration stays valid.
pub proof fn lemma_remove_group_keeps_hosts(config: ConfigView, name: Seq<char>)
    ensures
        config.remove_group(name).hosts.len() == config.hosts.len(),
        forall|i: int|
            0 <= i < config.hosts.len() ==> #[trigger] config.remove_group(name).hosts[i]
                == if config.hosts[i].group == Some(name) {
                HostView { group: None, ..config.hosts[i] }
            } else {
                config.hosts[i]
            },
        config.remove_group(name).hosts_in_group(name).len() == 0,
        !config.remove_group(name).groups.contains(name),
        config.valid() ==> config.remove_group(name).valid(),
{
    let after = config.remove_group(name);
    let members = |h: HostView| h.group == Some(name);
    let others = is_other_name(name);
    lemma_filter_sound(after.hosts, members);
    if after.hosts_in_group(name).len() > 0 {
        let host = after.hosts_in_group(name)[0];
        assert(members(host) && after.hosts.contains(host));
        let k = choose|k: int| 0 <= k < after.hosts.len() && after.hosts[k] == host;
        assert(after.hosts[k].group != Some(name));
    }
    lemma_filter_sound(config.groups, others);
    if config.valid() {
        lemma_filter_keeps_distinct(config.groups, others);
        assert forall|i: int, j: int| 0 <= i < j < after.hosts.len() implies (
        #[trigger] after.hosts[i]).alias != (#[trigger] after.hosts[j]).alias by {
            assert(config.hosts[i].alias != config.hosts[j].alias);
        }
        assert forall|k: int|
            0 <= k < after.hosts.len() && (
            #[trigger] after.hosts[k]).group is Some implies after.groups.contains(
            after.hosts[k].group->0,
        ) by {
            let group = config.hosts[k].group->0;
            assert(config.groups.contains(group));
            assert(others(group));
            lemma_filter_complete(config.groups, others, group);
        }
        assert(after.groups == config.groups.filter(others));
        assert(after.groups.no_duplicates());
    }
}

/// Renaming a group takes its hosts along, and changes nothing else about any
/// host. The configuration stays valid where the new name is free or stays.
pub proof fn lemma_rename_group_moves_hosts(config: ConfigView, from: Seq<char>, to: Seq<char>)
    requires
        config.valid(),
        config.groups.contains(from),
        from == to || !config.groups.contains(to),
    ensures
        config.rename_group(from, to).valid(),
        config.rename_group(from, to).hosts.len() == config.hosts.len(),
        forall|i: int|
            0 <= i < config.hosts.len() ==> #[trigger] config.rename_group(from, to).hosts[i]
                == if config.hosts[i].group == Some(from) {
                HostView { group: Some(to), ..config.hosts[i] }
            } else {
                config.hosts[i]
            },
        config.rename_group(from, to).groups.contains(to),
        from != to ==> !config.rename_group(from, to).groups.contains(from),
{
    let after = config.rename_group(from, to);
    let wanted = is_name(from);
    lemma_position(config.groups, wanted);
    let k = choose|k: int| 0 <= k < config.groups.len() && config.groups[k] == from;
    assert(wanted(config.groups[k]));
    let p = position(config.groups, wanted)->0;
    assert(config.groups[p] == from);
    assert(after.groups == config.groups.update(p, to));
    assert(after.groups[p] == to);
    assert forall|i: int, j: int|
        0 <= i < after.groups.len() && 0 <= j < after.groups.len() && i
            != j implies after.groups[i] != after.groups[j] by {
        assert(config.groups[i] != config.groups[j]);
    }
    assert forall|i: int, j: int| 0 <= i < j < after.hosts.len() implies (
    #[trigger] after.hosts[i]).alias != (#[trigger] after.hosts[j]).alias by {
        assert(config.hosts[i].alias != config.hosts[j].alias);
    }
    assert forall|k: int|
        0 <= k < after.hosts.len() && (
        #[trigger] after.hosts[k]).group is Some implies after.groups.contains(
        after.hosts[k].group->0,
    ) by {
        let group = config.hosts[k].group->0;
        assert(config.groups.contains(group));
        if group != from {
            let at = choose|at: int| 0 <= at < config.groups.len() && config.groups[at] == group;
            assert(after.groups[at] == group);
        }
    }
}

/// Renaming a group to a free name and back gives the configuration back.
pub proof fn lemma_rename_group_back(config: ConfigView, from: Seq<char>, to: Seq<char>)
    requires
        config.valid(),
        !config.groups.contains(to),
    ensures
        config.rename_group(from, to).rename_group(to, from) == config,
{
    let after = config.rename_group(from, to);
    let back = after.rename_group(to, from);
    assert forall|i: int| 0 <= i < config.hosts.len() implies #[trigger] back.hosts[i]
        == config.hosts[i] by {
        assert(config.hosts[i].group is Some ==> config.groups.contains(
            config.hosts[i].group->0,
        ));
        if config.hosts[i].group == Some(from) {
            assert(back.hosts[i] == HostView { group: Some(from), ..after.hosts[i] });
        }
    }
    assert(back.hosts =~= config.hosts);
    lemma_position(config.groups, is_name(from));
    match position(config.groups, is_name(from)) {
        Some(p) => {
            assert(after.groups =~= config.groups.update(p, to));
            assert forall|k: int| 0 <= k < p implies !is_name(to)(#[trigger] after.groups[k]) by {
                assert(config.groups.contains(config.groups[k]));
            }
            lemma_position_is(after.groups, is_name(to), p);
            assert(back.groups =~= config.groups);
        },
        None => {
            assert forall|k: int| 0 <= k < after.groups.len() implies !is_name(to)(
                #[trigger] after.groups[k],
            ) by {
                assert(config.groups.contains(config.groups[k]));
            }
            lemma_position_none(after.groups, is_name(to));
        },
    }
}

/// Adding a host under a free alias and removing it gives the configuration back.
pub proof fn lemma_added_host_is_removed(config: ConfigView, host: HostView)
    requires
        config.find(host.alias) is None,
    ensures
        config.add_host(host).remove_host(host.alias) == config,
{
    let alias = host.alias;
    let keep = |h: HostView| h.alias != alias;
    lemma_find(config, alias);
    lemma_filter_push(config.hosts, host, keep);
    lemma_filter_all(config.hosts, keep);
}

/// Adding a group under a free name and removing it gives the configuration back.
pub proof fn lemma_added_group_is_removed(config: ConfigView, name: Seq<char>)
    requires
        config.valid(),
        !config.groups.contains(name),
    ensures
        config.add_group(name).remove_group(name) == config,
{
    let back = config.add_group(name).remove_group(name);
    assert forall|i: int| 0 <= i < config.hosts.len() implies #[trigger] back.hosts[i]
        == config.hosts[i] by {
        assert(config.hosts[i].group is Some ==> config.groups.contains(
            config.hosts[i].group->0,
        ));
    }
    assert(back.hosts =~= config.hosts);
    assert forall|i: int| 0 <= i < config.groups.len() implies is_other_name(name)(
        #[trigger] config.groups[i],
    ) by {
        assert(config.groups.contains(config.groups[i]));
    }
    lemma_filter_push(config.groups, name, is_other_name(name));
    lemma_filter_all(config.groups, is_other_name(name));
}

} // verus!
