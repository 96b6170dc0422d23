//! What connecting to a host comes to, whatever the host is.
use vstd::prelude::*;
use crate::model::HostView;
use crate::paths::{join, lemma_join_lies_in, lies_in};
use crate::sftp::{
    auth_decision, auth_plan, key_methods, permission_chars, reported_status, tilde_expanded,
    AuthReply, ConnectReport, DecisionView, EntryView, MethodView, OutcomeView, StatusView,
};
use crate::ssh::{extra_args, host_section, host_sections, setting, settings, ssh_arguments};
use crate::text::{decimal, has_prefix, lemma_port_round_trip, parse_port};
use crate::transfer_laws::ends_in;

verus! {

// ---------------------------------------------------------------------------
// The arguments of `ssh`
// ---------------------------------------------------------------------------

proof fn lemma_extra_args(extra: Seq<(Seq<char>, Seq<char>)>, j: int)
    ensures
        extra_args(extra).len() == 2 * extra.len(),
        0 <= j < extra.len() ==> extra_args(extra)[2 * j] == "-o"@ && extra_args(extra)[2 * j + 1]
            == extra[j].0 + "="@ + extra[j].1,
    decreases extra.len(),
{
    if extra.len() > 0 {
        let rest = extra.drop_last();
        lemma_extra_args(rest, j);
        if 0 <= j < rest.len() {
            assert(rest[j] == extra[j]);
        }
    }
}

/// Where the arguments for the port would stand: behind those for the identity
/// file.
pub open spec fn port_place(host: HostView) -> int {
    if host.identity_file is Some {
        2
    } else {
        0
    }
}

/// An unusual port is passed, whatever else the host says: `-p` and behind it the
/// port's number, before the destination.
pub proof fn lemma_port_is_passed(host: HostView)
    requires
        host.port != 22,
    ensures
        ({
            let args = ssh_arguments(host);
            let i = port_place(host);
            &&& i + 1 < args.len() - 1
            &&& args[i] == "-p"@
            &&& args[i + 1] == decimal(host.port as nat)
            &&& parse_port(args[i + 1]) == Some(host.port)
        }),
{
    lemma_port_round_trip(host.port);
}

/// Apart from the two arguments for the port, the arguments are those for the same
/// host at the usual port.
pub proof fn lemma_port_adds_two_arguments(host: HostView)
    requires
        host.port != 22,
    ensures
        ({
            let usual = ssh_arguments(HostView { port: 22, ..host });
            let i = port_place(host);
            ssh_arguments(host) == usual.take(i) + seq!["-p"@, decimal(host.port as nat)]
                + usual.skip(i)
        }),
{
    let usual = ssh_arguments(HostView { port: 22, ..host });
    let i = port_place(host);
    assert(ssh_arguments(host) =~= usual.take(i) + seq!["-p"@, decimal(host.port as nat)]
        + usual.skip(i));
}

/// Hosts that differ in their ports only are connected to differently.
pub proof fn lemma_ports_are_told_apart(host: HostView, port: u16)
    requires
        port != host.port,
    ensures
        ssh_arguments(host) != ssh_arguments(HostView { port, ..host }),
{
    let other = HostView { port, ..host };
    let i = port_place(host);
    if host.port != 22 && port != 22 {
        lemma_port_is_passed(host);
        lemma_port_is_passed(other);
        assert(parse_port(ssh_arguments(host)[i + 1]) != parse_port(ssh_arguments(other)[i + 1]));
    } else {
        lemma_extra_args(host.extra, 0);
        assert(ssh_arguments(host).len() != ssh_arguments(other).len());
    }
}

/// An identity file is passed in front of all else, and changes nothing else.
pub proof fn lemma_identity_is_passed(host: HostView, path: Seq<char>)
    ensures
        ssh_arguments(HostView { identity_file: Some(path), ..host }) == seq!["-i"@, path]
            + ssh_arguments(HostView { identity_file: None, ..host }),
{
    assert(ssh_arguments(HostView { identity_file: Some(path), ..host }) =~= seq!["-i"@, path]
        + ssh_arguments(HostView { identity_file: None, ..host }));
}

/// The destination is the last argument: the user at the name of the host.
pub proof fn lemma_destination_comes_last(host: HostView)
    ensures
        ssh_arguments(host).len() > 0,
        ssh_arguments(host)[ssh_arguments(host).len() - 1] == host.user + "@"@ + host.hostname,
{
}

/// Every setting of the host is passed as an option, in its order, right before the
/// destination.
pub proof fn lemma_settings_are_passed(host: HostView, j: int)
    requires
        0 <= j < host.extra.len(),
    ensures
        ({
            let args = ssh_arguments(host);
            let i = args.len() - 1 - 2 * (host.extra.len() - j);
            &&& 0 <= i
            &&& args[i] == "-o"@
            &&& args[i + 1] == host.extra[j].0 + "="@ + host.extra[j].1
        }),
{
    lemma_extra_args(host.extra, j);
}

/// A connection attempt is given up after five seconds, and a connection that
/// gives no sign of life after three times ten, whatever the host says. Settings
/// of the host come after these. No other arguments are passed.
pub proof fn lemma_limits_are_passed(host: HostView)
    ensures
        ({
            let args = ssh_arguments(host);
            let i = args.len() - 1 - 2 * host.extra.len() - 6;
            &&& i == port_place(host) + (if host.port != 22 {
                2int
            } else {
                0
            })
            &&& args[i] == "-o"@ && args[i + 1] == "ConnectTimeout=5"@
            &&& args[i + 2] == "-o"@ && args[i + 3] == "ServerAliveInterval=10"@
            &&& args[i + 4] == "-o"@ && args[i + 5] == "ServerAliveCountMax=3"@
        }),
{
    lemma_extra_args(host.extra, 0);
}

// ---------------------------------------------------------------------------
// What `ssh` reads
// ---------------------------------------------------------------------------

/// Whether a text stands in another at a position.
pub open spec fn stands_at(text: Seq<char>, part: Seq<char>, i: int) -> bool {
    0 <= i && i + part.len() <= text.len() && text.subrange(i, i + part.len()) == part
}

/// Whether a text stands in another.
pub open spec fn holds(text: Seq<char>, part: Seq<char>) -> bool {
    exists|i: int| #[trigger] stands_at(text, part, i)
}

/// A line with a setting, as `ssh` reads it.
pub open spec fn line_of(key: Seq<char>, value: Seq<char>) -> Seq<char> {
    "    "@ + key + " "@ + value + "\n"@
}

proof fn lemma_holds(before: Seq<char>, part: Seq<char>, after: Seq<char>)
    ensures
        holds(before + part + after, part),
{
    let text = before + part + after;
    assert(text.subrange(before.len() as int, (before.len() + part.len()) as int) =~= part);
    assert(stands_at(text, part, before.len() as int));
}

proof fn lemma_holds_within(text: Seq<char>, part: Seq<char>, before: Seq<char>, after: Seq<char>)
    requires
        holds(text, part),
    ensures
        holds(before + text + after, part),
{
    let i = choose|i: int| #[trigger] stands_at(text, part, i);
    let more = before + text + after;
    assert(more.subrange(before.len() + i, before.len() + i + part.len()) =~= part);
    assert(stands_at(more, part, before.len() + i));
}

/// What `ssh` reads about a host names it by its alias, and says what it is called,
/// who to be there, and at which port, whatever that is.
pub proof fn lemma_section_describes_host(host: HostView)
    ensures
        has_prefix(host_section(host), "Host "@ + host.alias + "\n"@),
        holds(host_section(host), line_of("HostName"@, host.hostname)),
        holds(host_section(host), line_of("User"@, host.user)),
        holds(host_section(host), line_of("Port"@, decimal(host.port as nat))),
        host.identity_file matches Some(path) ==> holds(
            host_section(host),
            line_of("IdentityFile"@, path),
        ),
        ends_in(host_section(host), "\n"@),
{
    let head = "Host "@ + host.alias + "\n"@;
    let name = line_of("HostName"@, host.hostname);
    let user = line_of("User"@, host.user);
    let port = line_of("Port"@, decimal(host.port as nat));
    let identity = match host.identity_file {
        Some(path) => line_of("IdentityFile"@, path),
        None => seq![],
    };
    let rest = settings(host.extra);
    let text = host_section(host);
    assert(text.take(head.len() as int) =~= head);
    assert(text =~= head + name + (user + port + identity + rest + "\n"@));
    lemma_holds(head, name, user + port + identity + rest + "\n"@);
    assert(text =~= (head + name) + user + (port + identity + rest + "\n"@));
    lemma_holds(head + name, user, port + identity + rest + "\n"@);
    assert(text =~= (head + name + user) + port + (identity + rest + "\n"@));
    lemma_holds(head + name + user, port, identity + rest + "\n"@);
    assert(text =~= (head + name + user + port) + identity + (rest + "\n"@));
    lemma_holds(head + name + user + port, identity, rest + "\n"@);
    assert(text.skip(text.len() - "\n"@.len()) =~= "\n"@);
}

/// Every setting of the host has its line, in the order of the settings.
pub proof fn lemma_section_holds_settings(host: HostView, j: int)
    requires
        0 <= j < host.extra.len(),
    ensures
        holds(host_section(host), line_of(host.extra[j].0, host.extra[j].1)),
        settings(host.extra) == settings(host.extra.take(j)) + line_of(
            host.extra[j].0,
            host.extra[j].1,
        ) + settings(host.extra.skip(j + 1)),
{
    lemma_settings_split(host.extra, j);
    let line = line_of(host.extra[j].0, host.extra[j].1);
    lemma_holds(settings(host.extra.take(j)), line, settings(host.extra.skip(j + 1)));
    let identity = match host.identity_file {
        Some(path) => setting("IdentityFile"@, path),
        None => seq![],
    };
    let before = "Host "@ + host.alias + "\n"@ + setting("HostName"@, host.hostname) + setting(
        "User"@,
        host.user,
    ) + setting("Port"@, decimal(host.port as nat)) + identity;
    assert(host_section(host) =~= before + settings(host.extra) + "\n"@);
    lemma_holds_within(settings(host.extra), line, before, "\n"@);
}

proof fn lemma_settings_split(extra: Seq<(Seq<char>, Seq<char>)>, j: int)
    requires
        0 <= j < extra.len(),
    ensures
        settings(extra) == settings(extra.take(j)) + line_of(extra[j].0, extra[j].1) + settings(
            extra.skip(j + 1),
        ),
    decreases extra.len(),
{
    let rest = extra.drop_last();
    if j == rest.len() {
        assert(extra.take(j) =~= rest);
        assert(extra.skip(j + 1) =~= seq![]);
        assert(settings(extra.skip(j + 1)) =~= seq![]);
        assert(settings(extra) =~= settings(rest) + line_of(extra[j].0, extra[j].1) + Seq::<
            char,
        >::empty());
    } else {
        lemma_settings_split(rest, j);
        assert(rest.take(j) =~= extra.take(j));
        assert(extra.skip(j + 1).drop_last() =~= rest.skip(j + 1));
        assert(extra.skip(j + 1).last() == extra.last());
        assert(settings(extra) =~= settings(extra.take(j)) + line_of(extra[j].0, extra[j].1)
            + settings(extra.skip(j + 1)));
    }
}

/// An identity file adds its line and nothing else. Without one and without
/// settings, nothing stands between the port and the empty line at the end.
pub proof fn lemma_section_holds_nothing_else(host: HostView, path: Seq<char>)
    ensures
        host_section(HostView { identity_file: Some(path), extra: seq![], ..host }) == "Host "@
            + host.alias + "\n"@ + line_of("HostName"@, host.hostname) + line_of("User"@, host.user)
            + line_of("Port"@, decimal(host.port as nat)) + line_of("IdentityFile"@, path) + "\n"@,
        host_section(HostView { identity_file: Some(path), ..host }).len() == host_section(
            HostView { identity_file: None, ..host },
        ).len() + line_of("IdentityFile"@, path).len(),
{
    let bare = HostView { identity_file: Some(path), extra: seq![], ..host };
    assert(settings(bare.extra) =~= seq![]);
    assert(host_section(bare) =~= "Host "@ + host.alias + "\n"@ + line_of(
        "HostName"@,
        host.hostname,
    ) + line_of("User"@, host.user) + line_of("Port"@, decimal(host.port as nat)) + line_of(
        "IdentityFile"@,
        path,
    ) + "\n"@);
}

/// What `ssh` reads about several hosts is what it reads about each, in order: no
/// host is left out, and none changes what is said about another.
pub proof fn lemma_sections_add_up(a: Seq<HostView>, b: Seq<HostView>)
    ensures
        host_sections(a + b) == host_sections(a) + host_sections(b),
        forall|host: HostView| #[trigger] host_sections(seq![host]) == host_section(host),
        host_sections(seq![]) == Seq::<char>::empty(),
    decreases b.len(),
{
    assert forall|host: HostView| #[trigger] host_sections(seq![host]) == host_section(host) by {
        assert(seq![host].drop_last() =~= Seq::<HostView>::empty());
        assert(host_sections(Seq::<HostView>::empty()) =~= seq![]);
        assert(seq![host].last() == host);
        assert(Seq::<char>::empty() + host_section(host) =~= host_section(host));
    }
    if b.len() == 0 {
        assert(a + b =~= a);
        assert(host_sections(a) + host_sections(b) =~= host_sections(a));
    } else {
        lemma_sections_add_up(a, b.drop_last());
        assert((a + b).drop_last() =~= a + b.drop_last());
        assert(host_sections(a + b) =~= host_sections(a) + host_sections(b));
    }
}

// ---------------------------------------------------------------------------
// Authentication
// ---------------------------------------------------------------------------

/// Whether a path is that of a key of the usual name below a home directory.
pub open spec fn is_usual_key(path: Seq<char>, home: Seq<char>, name: Seq<char>) -> bool {
    if home.len() == 0 {
        lies_in(path, ".ssh"@, name)
    } else {
        exists|dir: Seq<char>| #[trigger] lies_in(dir, home, ".ssh"@) && lies_in(path, dir, name)
    }
}

proof fn lemma_usual_key(home: Seq<char>, name: Seq<char>)
    requires
        name.len() > 0,
        name[0] != '/',
    ensures
        is_usual_key(join(join(home, ".ssh"@), name), home, name),
{
    reveal_strlit(".ssh");
    let dir = join(home, ".ssh"@);
    lemma_join_lies_in(dir, name);
    if home.len() == 0 {
        assert(dir =~= ".ssh"@);
    } else {
        lemma_join_lies_in(home, ".ssh"@);
    }
}

/// Whenever the home directory is known, the three usual keys below it are tried
/// in their order, right before the last method, whatever the host's own identity
/// file is and whether or not there is a credential.
pub proof fn lemma_usual_keys_are_tried(
    identity_file: Option<Seq<char>>,
    home: Seq<char>,
    credential: bool,
)
    ensures
        ({
            let plan = auth_plan(identity_file, Some(home), credential);
            let n = plan.len() - 1;
            &&& n >= 3
            &&& plan[n - 3] matches MethodView::KeyFile(path) && is_usual_key(
                path,
                home,
                "id_ed25519"@,
            )
            &&& plan[n - 2] matches MethodView::KeyFile(path) && is_usual_key(
                path,
                home,
                "id_rsa"@,
            )
            &&& plan[n - 1] matches MethodView::KeyFile(path) && is_usual_key(
                path,
                home,
                "id_ecdsa"@,
            )
        }),
{
    reveal_strlit("id_ed25519");
    reveal_strlit("id_rsa");
    reveal_strlit("id_ecdsa");
    lemma_usual_key(home, "id_ed25519"@);
    lemma_usual_key(home, "id_rsa"@);
    lemma_usual_key(home, "id_ecdsa"@);
}

/// The host's own identity file is the first method, and adds nothing but itself.
pub proof fn lemma_own_key_is_tried_first(
    path: Seq<char>,
    home: Option<Seq<char>>,
    credential: bool,
)
    ensures
        auth_plan(Some(path), home, credential)[0] is KeyFile,
        auth_plan(Some(path), home, credential).skip(1) == auth_plan(None, home, credential),
        path.len() == 0 || path[0] != '~' || home is None ==> auth_plan(
            Some(path),
            home,
            credential,
        )[0] == MethodView::KeyFile(path),
{
    let with = auth_plan(Some(path), home, credential);
    assert(with.skip(1) =~= auth_plan(None, home, credential));
    if path.len() == 0 || path[0] != '~' {
        assert(!has_prefix(path, seq!['~', '/'])) by {
            if has_prefix(path, seq!['~', '/']) {
                assert(path.take(2)[0] == '~');
            }
        }
        assert(path != seq!['~']);
    }
}

/// A leading `~` stands for the home directory: alone for the directory itself,
/// and before a slash for what lies in it. Other paths stay as they are.
pub proof fn lemma_tilde_stands_for_home(path: Seq<char>, home: Seq<char>)
    ensures
        tilde_expanded(seq!['~'], Some(home)) == home,
        home.len() > 0 && (path.len() == 0 || path[0] != '/') ==> lies_in(
            tilde_expanded(seq!['~', '/'] + path, Some(home)),
            home,
            path,
        ),
        path.len() == 0 || path[0] != '~' ==> tilde_expanded(path, Some(home)) == path,
        path.len() > 1 && path[1] != '/' ==> tilde_expanded(path, Some(home)) == path,
        tilde_expanded(path, None) == path,
{
    let short = seq!['~'];
    assert(!has_prefix(short, seq!['~', '/']));
    let long = seq!['~', '/'] + path;
    assert(long.take(2) =~= seq!['~', '/']);
    assert(long.skip(2) =~= path);
    if home.len() > 0 && (path.len() == 0 || path[0] != '/') {
        lemma_join_lies_in(home, path);
    }
    if has_prefix(path, seq!['~', '/']) {
        assert(path.take(2)[0] == '~' && path.take(2)[1] == '/');
    }
}

/// Every method but the last is a key file. The last is the password where there is
/// one, and the agent where there is none.
pub proof fn lemma_last_method(
    identity_file: Option<Seq<char>>,
    home: Option<Seq<char>>,
    credential: bool,
    i: int,
)
    ensures
        ({
            let plan = auth_plan(identity_file, home, credential);
            &&& plan.len() == 1 + (if identity_file is Some {
                1int
            } else {
                0
            }) + (if home is Some {
                3int
            } else {
                0
            })
            &&& 0 <= i < plan.len() - 1 ==> plan[i] is KeyFile
            &&& plan[plan.len() - 1] == (if credential {
                MethodView::Password
            } else {
                MethodView::Agent
            })
        }),
{
    let keys = key_methods(identity_file, home);
    if 0 <= i < keys.len() {
        assert(auth_plan(identity_file, home, credential)[i] == keys[i]);
    }
}

/// A method that is accepted leads to an open connection. One that is not leads on
/// from a key file to the next method, from the agent to the question for a
/// password, and from the password to a failure that gives the reason.
pub proof fn lemma_replies_decide(method: MethodView, reply: AuthReply)
    ensures
        reply is Accepted ==> auth_decision(method, reply) is Open,
        !(reply is Accepted) ==> match method {
            MethodView::KeyFile(_) => auth_decision(method, reply) is TryNext,
            MethodView::Agent => auth_decision(method, reply) == DecisionView::Stop(
                OutcomeView::NeedsPassword,
            ),
            MethodView::Password => auth_decision(method, reply) matches DecisionView::Stop(
                OutcomeView::Failed(text),
            ) && has_prefix(text, "Authentication failed: "@) && (
            reply matches AuthReply::Error(message) ==> ends_in(text, message@)),
        },
{
    if method is Password {
        let start = "Authentication failed: "@;
        if let AuthReply::Error(message) = reply {
            assert((start + message@).take(start.len() as int) =~= start);
            assert((start + message@).skip(start.len() as int) =~= message@);
        }
        if reply is Refused {
            reveal_strlit("Authentication failed: ");
            reveal_strlit("Authentication failed: invalid credentials");
            let text = "Authentication failed: invalid credentials"@;
            assert(text.take(start.len() as int) =~= start);
        }
    }
}

/// A connection that is up shows the home directory and its listing, with the root
/// and nothing in place of what could not be read. A password is asked for once:
/// where one was given, that it is needed is a failure.
pub proof fn lemma_reports_decide(report: ConnectReport, credential: bool)
    ensures
        match report {
            ConnectReport::Up { home_dir, entries } => reported_status(report, credential) matches
                StatusView::ConnectedWithData { home_dir: shown, entries: listed } && shown == (
            match home_dir {
                Some(dir) => dir@,
                None => seq!['/'],
            }) && match entries {
                Some(found) => listed.len() == found@.len() && forall|i: int|
                    0 <= i < listed.len() ==> (#[trigger] listed[i]) == found@[i]@,
                None => listed.len() == 0,
            },
            ConnectReport::Down(outcome) => match outcome@ {
                OutcomeView::NeedsPassword => if credential {
                    reported_status(report, credential) is Failed
                } else {
                    reported_status(report, credential) is NeedsPassword
                },
                OutcomeView::Failed(message) => reported_status(report, credential)
                    == StatusView::Failed(message),
            },
        },
{
    reveal_strlit("/");
    assert("/"@ =~= seq!['/']);
}

// ---------------------------------------------------------------------------
// Permissions
// ---------------------------------------------------------------------------

/// The permissions are shown in three groups of three: a letter for each bit that is
/// set, from the highest to the lowest, and a dash for each that is not.
pub proof fn lemma_permissions_show_bits(mode: u32, i: int)
    requires
        0 <= i < 9,
    ensures
        permission_chars(mode).len() == 9,
        permission_chars(mode)[i] == (if (mode >> ((8 - i) as u32)) & 1 == 1 {
            if i % 3 == 0 {
                'r'
            } else if i % 3 == 1 {
                'w'
            } else {
                'x'
            }
        } else {
            '-'
        }),
{
    assert((mode & 256 != 0) == ((mode >> 8) & 1 == 1)) by (bit_vector);
    assert((mode & 128 != 0) == ((mode >> 7) & 1 == 1)) by (bit_vector);
    assert((mode & 64 != 0) == ((mode >> 6) & 1 == 1)) by (bit_vector);
    assert((mode & 32 != 0) == ((mode >> 5) & 1 == 1)) by (bit_vector);
    assert((mode & 16 != 0) == ((mode >> 4) & 1 == 1)) by (bit_vector);
    assert((mode & 8 != 0) == ((mode >> 3) & 1 == 1)) by (bit_vector);
    assert((mode & 4 != 0) == ((mode >> 2) & 1 == 1)) by (bit_vector);
    assert((mode & 2 != 0) == ((mode >> 1) & 1 == 1)) by (bit_vector);
    assert((mode & 1 != 0) == ((mode >> 0) & 1 == 1)) by (bit_vector);
}

/// An entry is a link if and only if its mode says so: the four bits above the permissions and
/// the three special bits hold the number of links.
pub proof fn lemma_links_are_told(entry: EntryView, mode: u32)
    requires
        entry.permissions == Some(mode),
    ensures
        entry.is_symlink() <==> (mode / 4096) % 16 == 10,
{
    assert((mode & 61440 == 40960) <==> (mode / 4096) % 16 == 10) by (bit_vector);
}

/// Without a mode nothing is known of an entry, and it is no link.
pub proof fn lemma_no_mode_no_link(entry: EntryView)
    requires
        entry.permissions is None,
    ensures
        !entry.is_symlink(),
        entry.permissions_string() is None,
{
}

} // verus!
