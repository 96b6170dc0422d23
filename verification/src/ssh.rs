//! The command line and the configuration of `ssh`.
use vstd::prelude::*;
use crate::model::{host_views, pair_texts, Config, ConfigView, Host, HostView};
use crate::paths::{join, join_local};
use crate::storage::{step_views, SaveStep, SaveStepView};
use crate::text::{concat3, decimal, decimal_string};

verus! {

/// The texts of a list of strings.
pub open spec fn texts(strings: Seq<String>) -> Seq<Seq<char>> {
    strings.map_values(|s: String| s@)
}

/// The options that a list of settings is passed as.
pub open spec fn extra_args(extra: Seq<(Seq<char>, Seq<char>)>) -> Seq<Seq<char>>
    decreases extra.len(),
{
    if extra.len() == 0 {
        seq![]
    } else {
        extra_args(extra.drop_last()) + seq!["-o"@, extra.last().0 + "="@ + extra.last().1]
    }
}

/// The arguments that connect to a host: the identity file if it has one, the
/// port if it is not the usual one, the timeouts, the host's own settings, and
/// last the destination.
pub open spec fn ssh_arguments(host: HostView) -> Seq<Seq<char>> {
    let identity = match host.identity_file {
        Some(path) => seq!["-i"@, path],
        None => seq![],
    };
    let port = if host.port != 22 {
        seq!["-p"@, decimal(host.port as nat)]
    } else {
        seq![]
    };
    let limits = seq![
        "-o"@,
        "ConnectTimeout=5"@,
        "-o"@,
        "ServerAliveInterval=10"@,
        "-o"@,
        "ServerAliveCountMax=3"@,
    ];
    (identity + port + limits + extra_args(host.extra)).push(host.user + "@"@ + host.hostname)
}

/// Converts a host into the arguments of `ssh`.
pub fn ssh_args(host: &Host) -> (args: Vec<String>)
    ensures
        texts(args@) == ssh_arguments(host@),
{
    let mut args: Vec<String> = Vec::new();
    if let Some(identity) = &host.identity_file {
        args.push("-i".to_string());
        args.push(identity.clone());
    }
    let ghost identity: Seq<Seq<char>> = match host@.identity_file {
        Some(path) => seq!["-i"@, path],
        None => seq![],
    };
    assert(texts(args@) =~= identity);
    if host.port != 22 {
        args.push("-p".to_string());
        args.push(decimal_string(host.port as u64));
    }
    let ghost port: Seq<Seq<char>> = if host.port != 22 {
        seq!["-p"@, decimal(host.port as nat)]
    } else {
        seq![]
    };
    assert(texts(args@) =~= identity + port);
    args.push("-o".to_string());
    args.push("ConnectTimeout=5".to_string());
    args.push("-o".to_string());
    args.push("ServerAliveInterval=10".to_string());
    args.push("-o".to_string());
    args.push("ServerAliveCountMax=3".to_string());
    let ghost start = texts(args@);
    assert(start =~= identity + port + seq![
        "-o"@,
        "ConnectTimeout=5"@,
        "-o"@,
        "ServerAliveInterval=10"@,
        "-o"@,
        "ServerAliveCountMax=3"@,
    ]);
    let ghost extra = host@.extra;
    assert(start + extra_args(extra.take(0)) =~= start);
    for i in 0..host.extra.len()
        invariant
            extra == host@.extra,
            texts(args@) == start + extra_args(extra.take(i as int)),
    {
        let ghost before = texts(args@);
        assert(extra.take(i + 1).drop_last() =~= extra.take(i as int));
        assert(extra.take(i + 1).last() == (
            host.extra@[i as int].0@,
            host.extra@[i as int].1@,
        ));
        args.push("-o".to_string());
        args.push(concat3(host.extra[i].0.as_str(), "=", host.extra[i].1.as_str()));
        assert(texts(args@) =~= before + seq![
            "-o"@,
            host.extra@[i as int].0@ + "="@ + host.extra@[i as int].1@,
        ]);
        assert(texts(args@) =~= start + extra_args(extra.take(i + 1)));
    }
    assert(extra.take(extra.len() as int) =~= extra);
    args.push(concat3(host.user.as_str(), "@", host.hostname.as_str()));
    assert(texts(args@) =~= ssh_arguments(host@));
    args
}

// ---------------------------------------------------------------------------
// The configuration file
// ---------------------------------------------------------------------------

/// A setting of a host.
pub open spec fn setting(key: Seq<char>, value: Seq<char>) -> Seq<char> {
    "    "@ + key + " "@ + value + "\n"@
}

/// The settings of a list, in order.
pub open spec fn settings(extra: Seq<(Seq<char>, Seq<char>)>) -> Seq<char>
    decreases extra.len(),
{
    if extra.len() == 0 {
        seq![]
    } else {
        settings(extra.drop_last()) + setting(extra.last().0, extra.last().1)
    }
}

/// What `ssh` reads about a host.
pub open spec fn host_section(host: HostView) -> Seq<char> {
    "Host "@ + host.alias + "\n"@ + setting("HostName"@, host.hostname) + setting(
        "User"@,
        host.user,
    ) + setting("Port"@, decimal(host.port as nat)) + (match host.identity_file {
        Some(path) => setting("IdentityFile"@, path),
        None => seq![],
    }) + settings(host.extra) + "\n"@
}

/// What `ssh` reads about some hosts, in order.
pub open spec fn host_sections(hosts: Seq<HostView>) -> Seq<char>
    decreases hosts.len(),
{
    if hosts.len() == 0 {
        seq![]
    } else {
        host_sections(hosts.drop_last()) + host_section(hosts.last())
    }
}

fn push_setting(out: &mut String, key: &str, value: &str)
    ensures
        final(out)@ == old(out)@ + setting(key@, value@),
{
    out.append("    ");
    out.append(key);
    out.append(" ");
    out.append(value);
    out.append("\n");
    assert(out@ =~= old(out)@ + setting(key@, value@));
}

fn section_of(host: &Host) -> (out: String)
    ensures
        out@ == host_section(host@),
{
    let mut out = concat3("Host ", host.alias.as_str(), "\n");
    let port = decimal_string(host.port as u64);
    push_setting(&mut out, "HostName", host.hostname.as_str());
    push_setting(&mut out, "User", host.user.as_str());
    push_setting(&mut out, "Port", port.as_str());
    let ghost before = out@;
    if let Some(path) = &host.identity_file {
        push_setting(&mut out, "IdentityFile", path.as_str());
    }
    assert(host@.identity_file is None ==> out@ =~= before + Seq::<char>::empty());
    push_settings(&mut out, &host.extra);
    out.append("\n");
    out
}

fn push_settings(out: &mut String, extra: &Vec<(String, String)>)
    ensures
        final(out)@ == old(out)@ + settings(pair_texts(extra@)),
{
    let ghost before = out@;
    let ghost pairs = pair_texts(extra@);
    assert(before =~= before + settings(pairs.take(0)));
    for i in 0..extra.len()
        invariant
            pairs == pair_texts(extra@),
            out@ == before + settings(pairs.take(i as int)),
    {
        assert(pairs.take(i + 1).drop_last() =~= pairs.take(i as int));
        push_setting(out, extra[i].0.as_str(), extra[i].1.as_str());
        assert(out@ =~= before + settings(pairs.take(i + 1)));
    }
    assert(pairs.take(pairs.len() as int) =~= pairs);
}

/// Writes down what `ssh` reads about the hosts of a configuration.
pub fn ssh_config(config: &Config) -> (text: String)
    ensures
        text@ == host_sections(config@.hosts),
{
    let hosts = config.hosts();
    let ghost views = config@.hosts;
    let mut out = String::new();
    assert(out@ =~= host_sections(views.take(0)));
    for i in 0..hosts.len()
        invariant
            views == host_views(hosts@),
            out@ == host_sections(views.take(i as int)),
    {
        assert(views.take(i + 1).drop_last() =~= views.take(i as int));
        assert(views.take(i + 1).last() == hosts@[i as int]@);
        let section = section_of(&hosts[i]);
        out.append(section.as_str());
    }
    assert(views.take(views.len() as int) =~= views);
    out
}

/// The file that `ssh` reads about the hosts, below a home directory.
pub open spec fn ssh_config_in(home: Seq<char>) -> Seq<char> {
    join(join(home, ".ssh"@), "config.hosttui"@)
}

/// How what `ssh` reads gets into its file below a home directory.
pub open spec fn ssh_saving(home: Seq<char>, config: ConfigView) -> Seq<SaveStepView> {
    seq![
        SaveStepView::CreateDir(join(home, ".ssh"@)),
        SaveStepView::Write { path: ssh_config_in(home), contents: host_sections(config.hosts) },
    ]
}

/// Plans how what `ssh` reads gets into its file below a home directory.
pub fn save_ssh_config(home: &str, config: &Config) -> (steps: Vec<SaveStep>)
    ensures
        step_views(steps@) == ssh_saving(home@, config@),
{
    let dir = join_local(home, ".ssh");
    let path = join_local(dir.as_str(), "config.hosttui");
    let steps = vec![
        SaveStep::CreateDir(dir),
        SaveStep::Write { path, contents: ssh_config(config) },
    ];
    assert(step_views(steps@) =~= ssh_saving(home@, config@));
    steps
}

} // verus!
