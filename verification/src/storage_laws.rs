//! Where files are kept, and how directories are listed and numbers are read.
use vstd::prelude::*;
use crate::error::ErrorView;
use crate::filebrowser::{opened, readable, start_path, SortField};
use crate::connect_laws::stands_at;
use crate::model::{ConfigView, HostView};
use crate::order::{is_sorted, lemma_stable_sort_permutes, lemma_stable_sort_sorts, stable_sort, text_le};
use crate::paths::{
    is_plain, join, lemma_join_lies_in, lemma_parent_of_join, lies_in, path_end,
};
use crate::sftp::{lemma_name_order, name_order, named_entries, EntryView, RemoteStat};
use crate::ssh::{host_sections, ssh_config_in, ssh_saving};
use crate::storage::{
    config_file_in, loaded, persisting, saving, temporary, ReadingView, SaveStepView,
};
use crate::text::{
    decimal, digit, digits_value, is_digit, lemma_last_position, parse_port, unsigned_part,
};
use crate::transfer::ListedView;
use crate::transfer_laws::ends_in;

verus! {

// ---------------------------------------------------------------------------
// Files
// ---------------------------------------------------------------------------

/// The configuration is in a directory of its own within the given one, and what `ssh`
/// reads is in its directory within the home directory.
pub proof fn lemma_files_have_their_places(dir: Seq<char>)
    requires
        dir.len() > 0,
    ensures
        exists|own: Seq<char>| #[trigger]
            lies_in(own, dir, "hosttui"@) && lies_in(config_file_in(dir), own, "hosts.toml"@),
        exists|own: Seq<char>| #[trigger]
            lies_in(own, dir, ".ssh"@) && lies_in(ssh_config_in(dir), own, "config.hosttui"@),
{
    reveal_strlit("hosttui");
    reveal_strlit("hosts.toml");
    reveal_strlit(".ssh");
    reveal_strlit("config.hosttui");
    let own = join(dir, "hosttui"@);
    lemma_join_lies_in(dir, "hosttui"@);
    lemma_join_lies_in(own, "hosts.toml"@);
    let other = join(dir, ".ssh"@);
    lemma_join_lies_in(dir, ".ssh"@);
    lemma_join_lies_in(other, "config.hosttui"@);
}

/// The directory that a file lies in is created before anything is written, and the file
/// gets the given contents by way of another one.
pub proof fn lemma_directory_is_created_first(
    dir: Seq<char>,
    name: Seq<char>,
    contents: Seq<char>,
)
    requires
        dir.len() > 0,
        dir == path_end(dir),
        is_plain(name),
        name != seq!['.'],
    ensures
        ({
            let path = join(dir, name);
            let steps = saving(path, contents);
            &&& lies_in(path, dir, name)
            &&& steps.len() == 3
            &&& steps[0] == SaveStepView::CreateDir(dir)
            &&& steps[1] matches SaveStepView::Write { path: beside, contents: written } && written
                == contents && steps[2] == (SaveStepView::Rename { from: beside, to: path })
        }),
{
    lemma_parent_of_join(dir, name);
    assert(name[0] != '/') by {
        assert(name.contains(name[0]));
    }
    lemma_join_lies_in(dir, name);
}

/// What is written beside a file with an extension has the same name up to that, and lies
/// beside it.
pub proof fn lemma_written_beside(dir: Seq<char>, stem: Seq<char>, extension: Seq<char>)
    requires
        dir.len() > 0,
        is_plain(stem),
        !extension.contains('/'),
        !extension.contains('.'),
        extension.len() > 0,
    ensures
        temporary(dir + "/"@ + stem + "."@ + extension) == dir + "/"@ + stem + ".toml.tmp"@,
{
    reveal_strlit("/");
    reveal_strlit(".");
    reveal_strlit("toml.tmp");
    reveal_strlit(".toml.tmp");
    let name = stem + "."@ + extension;
    let path = dir + "/"@ + stem + "."@ + extension;
    assert(path =~= dir.push('/') + name);
    assert(path.last() == extension.last());
    assert(extension.contains(extension.last()));
    assert(path_end(path) == path);
    lemma_last_position(path, '/');
    let at = crate::text::last_position(path, '/')->0;
    assert(path[dir.len() as int] == '/');
    assert(at == dir.len()) by {
        if at > dir.len() {
            let k = at - dir.len() - 1;
            assert(path[at] == name[k]);
            if k < stem.len() {
                assert(stem.contains(stem[k]));
            } else if k > stem.len() {
                assert(extension.contains(extension[k - stem.len() - 1]));
                assert(name[k] == extension[k - stem.len() - 1]);
            }
        }
    }
    assert(path.skip(at + 1) =~= name);
    lemma_last_position(name, '.');
    let dot = crate::text::last_position(name, '.')->0;
    assert(name[stem.len() as int] == '.');
    assert(dot == stem.len()) by {
        if dot > stem.len() {
            assert(name[dot] == extension[dot - stem.len() - 1]);
            assert(extension.contains(extension[dot - stem.len() - 1]));
        }
    }
    assert(name.len() >= 3);
    assert(name != seq!['.'] && name != seq!['.', '.']);
    assert(path.len() >= 2);
    assert(path.take(at + 1 + dot) =~= dir + "/"@ + stem);
    assert(temporary(path) =~= dir + "/"@ + stem + ".toml.tmp"@);
}

/// A change is saved to the configuration first, and then, where there is a home directory,
/// to what `ssh` reads, which holds a section for every host.
pub proof fn lemma_change_is_saved(
    path: Seq<char>,
    contents: Seq<char>,
    home: Seq<char>,
    config: ConfigView,
)
    ensures
        persisting(path, contents, None, config) == saving(path, contents),
        ({
            let steps = persisting(path, contents, Some(home), config);
            let n = saving(path, contents).len() as int;
            &&& steps.len() == n + 2
            &&& steps.take(n) == saving(path, contents)
            &&& steps[n] matches SaveStepView::CreateDir(own) && (home.len() > 0 ==> lies_in(
                own,
                home,
                ".ssh"@,
            )) && steps[n + 1] == (SaveStepView::Write {
                path: ssh_config_in(home),
                contents: host_sections(config.hosts),
            })
        }),
{
    reveal_strlit(".ssh");
    let n = saving(path, contents).len() as int;
    let steps = persisting(path, contents, Some(home), config);
    assert(steps.take(n) =~= saving(path, contents));
    assert(persisting(path, contents, None, config) =~= saving(path, contents));
    assert(steps[n] == ssh_saving(home, config)[0]);
    assert(steps[n + 1] == ssh_saving(home, config)[1]);
    if home.len() > 0 {
        lemma_join_lies_in(home, ".ssh"@);
    }
}

/// A step that failed is told with the path that was to be written.
pub proof fn lemma_failed_step_is_told(dir: Seq<char>, path: Seq<char>, from: Seq<char>, contents: Seq<char>)
    ensures
        SaveStepView::CreateDir(dir).target() == dir,
        (SaveStepView::Write { path, contents }).target() == path,
        (SaveStepView::Rename { from, to: path }).target() == path,
{
}

/// Without a file there are no hosts and no groups. What is there is loaded as it is, and
/// what cannot be read is an error that names the file.
pub proof fn lemma_loading(path: Seq<char>, reading: ReadingView)
    ensures
        match loaded(path, reading) {
            Ok(config) => reading == ReadingView::Found(config) || reading is Missing
                && config.hosts.len() == 0 && config.groups.len() == 0,
            Err(error) => {
                ||| reading matches ReadingView::Unreadable(source) && error
                    == (ErrorView::ReadConfig { path, source })
                ||| reading matches ReadingView::Malformed(source) && error
                    == (ErrorView::ParseConfig { path, source })
            },
        },
        loaded(path, reading) is Err <==> reading is Unreadable || reading is Malformed,
{
}

/// An error names the file or the host that it is about.
pub proof fn lemma_errors_name_their_subject(path: Seq<char>, source: Seq<char>)
    ensures
        ends_in((ErrorView::ReadConfig { path, source }).text(), path),
        ends_in((ErrorView::WriteConfig { path, source }).text(), path),
        ends_in((ErrorView::ParseConfig { path, source }).text(), path),
        (ErrorView::ReadConfig { path, source }).text() != (ErrorView::WriteConfig {
            path,
            source,
        }).text(),
        (ErrorView::ReadConfig { path, source }).text() != (ErrorView::ParseConfig {
            path,
            source,
        }).text(),
        stands_at(
            (ErrorView::Ssh { alias: path, source }).text(),
            path,
            "ssh connection to '"@.len() as int,
        ),
        stands_at(
            (ErrorView::Pty { alias: path, source }).text(),
            path,
            "PTY error for '"@.len() as int,
        ),
{
    reveal_strlit("failed to read config from ");
    reveal_strlit("failed to write config to ");
    reveal_strlit("failed to parse config from ");
    let read = "failed to read config from "@;
    let write = "failed to write config to "@;
    let parse = "failed to parse config from "@;
    assert((read + path).skip(read.len() as int) =~= path);
    assert((write + path).skip(write.len() as int) =~= path);
    assert((parse + path).skip(parse.len() as int) =~= path);
    assert((read + path)[10] == 'r' && (write + path)[10] == 'w' && (parse + path)[10] == 'p');
    let ssh = "ssh connection to '"@ + path + "' failed"@;
    let i = "ssh connection to '"@.len() as int;
    assert(ssh.subrange(i, i + path.len()) =~= path);
    let pty = "PTY error for '"@ + path + "'"@;
    let j = "PTY error for '"@.len() as int;
    assert(pty.subrange(j, j + path.len()) =~= path);
}

// ---------------------------------------------------------------------------
// Directories
// ---------------------------------------------------------------------------

/// Whether an entry is what a server says of a name.
pub open spec fn is_told_by(entry: EntryView, stat: RemoteStat) -> bool {
    stat.name matches Some(name) && entry.name == name@ && entry.is_dir == stat.is_dir
        && entry.modified == stat.modified && entry.permissions == stat.permissions && entry.size
        == (match stat.size {
        Some(n) => n,
        None => 0,
    })
}

/// Whether some place in a list of attributes tells an entry.
pub open spec fn is_told(entry: EntryView, stats: Seq<RemoteStat>) -> bool {
    exists|i: int| 0 <= i < stats.len() && is_told_by(entry, #[trigger] stats[i])
}

proof fn lemma_named_entries(stats: Seq<RemoteStat>, entry: EntryView)
    ensures
        named_entries(stats).contains(entry) <==> is_told(entry, stats),
    decreases stats.len(),
{
    if stats.len() > 0 {
        let rest = stats.drop_last();
        let before = named_entries(rest);
        let all = named_entries(stats);
        lemma_named_entries(rest, entry);
        if is_told(entry, stats) {
            let i = choose|i: int| 0 <= i < stats.len() && is_told_by(entry, #[trigger] stats[i]);
            if i < rest.len() {
                assert(is_told_by(entry, rest[i]));
                let k = choose|k: int| 0 <= k < before.len() && before[k] == entry;
                assert(all[k] == entry);
            } else {
                assert(all[before.len() as int] == entry);
            }
        }
        if all.contains(entry) {
            let k = choose|k: int| 0 <= k < all.len() && all[k] == entry;
            if k < before.len() {
                assert(before[k] == entry);
                let i = choose|i: int| 0 <= i < rest.len() && is_told_by(entry, #[trigger] rest[i]);
                assert(is_told_by(entry, stats[i]));
            } else {
                assert(is_told_by(entry, stats[stats.len() - 1]));
            }
        }
    }
}

/// The listing of a remote directory holds what the server tells of every name, and nothing
/// else. Directories come first, and names in order.
pub proof fn lemma_remote_listing(stats: Seq<RemoteStat>, entry: EntryView, i: int, j: int)
    ensures
        ({
            let listed = stable_sort(named_entries(stats), name_order());
            &&& listed.contains(entry) <==> is_told(entry, stats)
            &&& listed.len() == named_entries(stats).len()
            &&& 0 <= i < j < listed.len() ==> {
                ||| listed[i].is_dir && !listed[j].is_dir
                ||| listed[i].is_dir == listed[j].is_dir && text_le(listed[i].name, listed[j].name)
            }
        }),
{
    let given = named_entries(stats);
    let listed = stable_sort(given, name_order());
    lemma_named_entries(stats, entry);
    lemma_name_order();
    lemma_stable_sort_permutes(given, name_order());
    lemma_stable_sort_sorts(given, name_order());
    assert(is_sorted(listed, name_order()));
    broadcast use vstd::seq_lib::group_to_multiset_ensures;

    assert(listed.to_multiset().count(entry) == given.to_multiset().count(entry));
    if 0 <= i < j < listed.len() {
        let le = name_order();
        assert(le(listed[i], listed[j]));
    }
}

/// What can be read of a local directory is listed, in the order in which it came, and
/// nothing else.
pub proof fn lemma_readable_entries(a: Seq<ListedView>, b: Seq<ListedView>, entry: EntryView, message: Seq<char>)
    ensures
        readable(a + b) == readable(a) + readable(b),
        readable(seq![ListedView::Entry(entry)]) == seq![entry],
        readable(seq![ListedView::Unreadable(message)]).len() == 0,
        readable(seq![]).len() == 0,
    decreases b.len(),
{
    let one = seq![ListedView::Entry(entry)];
    assert(one.drop_last() =~= Seq::<ListedView>::empty());
    assert(readable(one.drop_last()) =~= Seq::<EntryView>::empty());
    assert(readable(one) =~= seq![entry]);
    let bad = seq![ListedView::Unreadable(message)];
    assert(bad.drop_last() =~= Seq::<ListedView>::empty());
    assert(readable(bad.drop_last()).len() == 0);
    if b.len() == 0 {
        assert(a + b =~= a);
        assert(readable(a) + readable(b) =~= readable(a));
    } else {
        lemma_readable_entries(a, b.drop_last(), entry, message);
        assert((a + b).drop_last() =~= a + b.drop_last());
        assert((a + b).last() == b.last());
        assert(readable(a + b) =~= readable(a) + readable(b));
    }
}

/// A new file browser belongs to its host, shows the local directory, and waits for the
/// connection.
pub proof fn lemma_opened_browser(host: HostView, path: Seq<char>, entries: Seq<EntryView>)
    ensures
        ({
            let browser = opened(host, path, entries);
            &&& browser.host == host && browser.alias == host.alias
            &&& browser.local_path == path && browser.local_selected == 0
            &&& crate::browser_laws::is_listed(browser.local_entries, SortField::Name, true)
            &&& browser.local_entries.to_multiset() == entries.to_multiset()
            &&& browser.sort_by is Name && browser.sort_ascending && !browser.show_hidden
            &&& browser.remote_path.len() == 0 && browser.remote_entries.len() == 0
            &&& browser.connection_status is Connecting && !browser.connected
            &&& browser.focus is Local && browser.mode is Normal && browser.error is None
            &&& browser.transfers.len() == 0
            &&& browser.local_search.text.len() == 0 && browser.remote_search.text.len() == 0
        }),
        start_path(Some(path)) == path,
        start_path(None) == "/"@,
{
    crate::browser_laws::lemma_sorted_is_listed(entries, SortField::Name, true);
}

// ---------------------------------------------------------------------------
// Numbers
// ---------------------------------------------------------------------------

/// A number is written digit by digit: another digit behind it makes it ten times as large
/// and adds that digit.
pub proof fn lemma_decimal_digits(n: nat, d: nat, c: char)
    requires
        d < 10,
        c as int == '0' as int + d,
    ensures
        n > 0 ==> decimal(10 * n + d) == decimal(n).push(c),
        decimal(d) == seq![c],
{
    assert((10 * n + d) / 10 == n);
    assert((10 * n + d) % 10 == d);
    assert(digit(d) == c);
}

/// A port is read digit by digit: another digit behind it makes it ten times as large and
/// adds that digit, and it is none where that is more than a port can be.
pub proof fn lemma_ports_are_read(text: Seq<char>, d: int, c: char)
    requires
        0 <= d < 10,
        c as int == '0' as int + d,
    ensures
        parse_port(seq![c]) == Some(d as u16),
        parse_port(text) matches Some(port) ==> parse_port(text.push(c)) == (if 10 * port + d
            <= 65535 {
            Some((10 * port + d) as u16)
        } else {
            None
        }),
{
    let one = seq![c];
    assert(one.drop_last() =~= Seq::<char>::empty());
    assert(digits_value(one.drop_last()) == 0);
    assert(is_digit(one[0]));
    assert(unsigned_part(one) == one);
    assert(digits_value(one) == d);
    if let Some(port) = parse_port(text) {
        let digits = unsigned_part(text);
        let more = unsigned_part(text.push(c));
        assert(more =~= digits.push(c));
        assert(more.drop_last() =~= digits);
        assert(digits_value(more) == 10 * digits_value(digits) + d);
        assert forall|i: int| 0 <= i < more.len() implies is_digit(#[trigger] more[i]) by {
            if i < digits.len() {
                assert(more[i] == digits[i]);
            }
        }
    }
}

/// A text with anything but digits in it is no port, but for a plus sign at the start, which
/// changes nothing. A text without digits is none either.
pub proof fn lemma_ports_are_digits(text: Seq<char>, i: int)
    ensures
        0 <= i < text.len() && !('0' <= text[i] <= '9') && (i > 0 || text[i] != '+') ==> parse_port(
            text,
        ) is None,
        text.len() > 0 && text[0] != '+' ==> parse_port(seq!['+'] + text) == parse_port(text),
        parse_port(seq![]) is None,
        parse_port(seq!['+']) is None,
{
    if 0 <= i < text.len() && !('0' <= text[i] <= '9') && (i > 0 || text[i] != '+') {
        let digits = unsigned_part(text);
        if text[0] == '+' {
            assert(digits[i - 1] == text[i]);
        } else {
            assert(digits[i] == text[i]);
        }
    }
    let signed = seq!['+'] + text;
    assert(signed.skip(1) =~= text);
    assert(signed[0] == '+');
    if text.len() > 0 && text[0] != '+' {
        assert(unsigned_part(signed) == unsigned_part(text));
    }
    assert(seq!['+'].skip(1) =~= Seq::<char>::empty());
}

} // verus!
