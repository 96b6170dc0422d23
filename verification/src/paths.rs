//! Slash-separated paths as strings.
use vstd::prelude::*;
use crate::text::{
    chars_of, concat, concat3, last_position, lemma_last_position, lemma_trailing_slashes, rfind,
    starts_with_char, string_of, trim_end_slashes, without_trailing_slashes,
};

verus! {

/// A path without the separators and the `.` segments at its end.
///
/// The root stays `/`, and a path that is nothing but `.` stays as it is.
pub open spec fn path_end(path: Seq<char>) -> Seq<char>
    decreases path.len(),
{
    if path.len() >= 2 && path.last() == '/' {
        path_end(path.drop_last())
    } else if path.len() >= 2 && path.last() == '.' && path[path.len() - 2] == '/' {
        path_end(path.drop_last())
    } else {
        path
    }
}

/// The position at which the last segment of a path starts.
pub open spec fn segment_start(path: Seq<char>) -> int {
    match last_position(path, '/') {
        Some(p) => p + 1,
        None => 0,
    }
}

/// Whether a path names nothing below the root or below the current directory.
pub open spec fn is_bare(path: Seq<char>) -> bool {
    path_end(path).len() == 0 || path_end(path) =~= seq!['/']
}

/// The parent of a path: what is left without its last segment.
pub open spec fn parent(path: Seq<char>) -> Option<Seq<char>> {
    let end = path_end(path);
    if is_bare(path) {
        None
    } else {
        Some(path_end(end.take(segment_start(end))))
    }
}

/// The last segment of a path, if it is a name.
pub open spec fn file_name(path: Seq<char>) -> Option<Seq<char>> {
    let end = path_end(path);
    let name = end.skip(segment_start(end));
    if is_bare(path) || name =~= seq!['.'] || name =~= seq!['.', '.'] {
        None
    } else {
        Some(name)
    }
}

/// A local path with a name below it. An absolute name replaces the path.
pub open spec fn join(base: Seq<char>, name: Seq<char>) -> Seq<char> {
    if name.len() > 0 && name[0] == '/' {
        name
    } else if base.len() > 0 && base.last() != '/' {
        base.push('/') + name
    } else {
        base + name
    }
}

/// A remote path with a name below it, one slash between them.
pub open spec fn remote_join(base: Seq<char>, name: Seq<char>) -> Seq<char> {
    without_trailing_slashes(base).push('/') + name
}

/// What follows the last slash of a text, or the whole text.
pub open spec fn after_last_slash(path: Seq<char>) -> Seq<char> {
    path.skip(segment_start(path))
}

/// The length of a path without the separators and `.` segments at its end.
fn end_of(chars: &Vec<char>, upto: usize) -> (n: usize)
    requires
        upto <= chars@.len(),
    ensures
        n <= upto,
        path_end(chars@.take(upto as int)) == chars@.take(n as int),
{
    let mut n: usize = upto;
    while n >= 2 && (chars[n - 1] == '/' || (chars[n - 1] == '.' && chars[n - 2] == '/'))
        invariant
            n <= upto <= chars@.len(),
            path_end(chars@.take(upto as int)) == path_end(chars@.take(n as int)),
        decreases n,
    {
        assert(chars@.take(n as int).drop_last() =~= chars@.take(n - 1));
        assert(chars@.take(n as int).last() == chars@[n - 1]);
        assert(chars@.take(n as int)[n - 2] == chars@[n - 2]);
        n = n - 1;
    }
    if n >= 2 {
        assert(chars@.take(n as int).last() == chars@[n - 1]);
        assert(chars@.take(n as int)[n - 2] == chars@[n - 2]);
    }
    n
}

/// The position of the last segment among the first `upto` characters.
fn start_of(chars: &Vec<char>, upto: usize) -> (s: usize)
    requires
        upto <= chars@.len(),
    ensures
        s <= upto,
        s == segment_start(chars@.take(upto as int)),
{
    let mut s: usize = upto;
    let ghost text = chars@.take(upto as int);
    assert(text.take(upto as int) =~= text);
    while s > 0 && chars[s - 1] != '/'
        invariant
            s <= upto <= chars@.len(),
            text == chars@.take(upto as int),
            segment_start(text) == segment_start(text.take(s as int)),
        decreases s,
    {
        assert(text.take(s as int).drop_last() =~= text.take(s - 1));
        assert(text.take(s as int).last() == chars@[s - 1]);
        s = s - 1;
    }
    if s > 0 {
        assert(text.take(s as int).last() == chars@[s - 1]);
    }
    s
}

/// A slash at the end of a path changes neither where it leads nor its parent, and no more does
/// a dot behind it.
pub proof fn lemma_end_of_path_does_not_matter(path: Seq<char>)
    requires
        path.len() > 0,
    ensures
        path_end(path.push('/')) == path_end(path),
        path_end(path.push('/').push('.')) == path_end(path),
        parent(path.push('/')) == parent(path),
        parent(path.push('/').push('.')) == parent(path),
        file_name(path.push('/')) == file_name(path),
        file_name(path.push('/').push('.')) == file_name(path),
{
    let slash = path.push('/');
    let dot = slash.push('.');
    assert(slash.drop_last() =~= path);
    assert(dot.drop_last() =~= slash);
    assert(dot[dot.len() - 2] == '/');
}

/// Finds the parent of a path.
pub fn parent_of(path: &str) -> (p: Option<String>)
    ensures
        match p {
            Some(p) => parent(path@) == Some(p@),
            None => parent(path@) is None,
        },
{
    let chars = chars_of(path);
    let n = end_of(&chars, chars.len());
    assert(chars@.take(chars@.len() as int) =~= path@);
    let ghost end = chars@.take(n as int);
    if n == 0 || (n == 1 && chars[0] == '/') {
        assert(n == 1 ==> end =~= seq!['/']);
        return None;
    }
    proof {
        if end =~= seq!['/'] {
            assert(end.len() == 1 && end[0] == '/');
            assert(end[0] == chars@[0]);
        }
    }
    let s = start_of(&chars, n);
    let m = end_of(&chars, s);
    assert(end.take(s as int) =~= chars@.take(s as int));
    Some(string_of(&chars, 0, m))
}

/// Finds the name at the end of a path.
pub fn file_name_of(path: &str) -> (name: Option<String>)
    ensures
        match name {
            Some(name) => file_name(path@) == Some(name@),
            None => file_name(path@) is None,
        },
{
    let chars = chars_of(path);
    let n = end_of(&chars, chars.len());
    assert(chars@.take(chars@.len() as int) =~= path@);
    let ghost end = chars@.take(n as int);
    if n == 0 || (n == 1 && chars[0] == '/') {
        assert(n == 1 ==> end =~= seq!['/']);
        return None;
    }
    proof {
        if end =~= seq!['/'] {
            assert(end.len() == 1 && end[0] == '/');
            assert(end[0] == chars@[0]);
        }
    }
    let s = start_of(&chars, n);
    let ghost name = end.skip(s as int);
    assert(forall|i: int| s <= i < n ==> chars@[i] == name[i - s]);
    let dot = n - s == 1 && chars[s] == '.';
    let dots = n - s == 2 && chars[s] == '.' && chars[s + 1] == '.';
    proof {
        assert(dot == (name =~= seq!['.']));
        assert(dots == (name =~= seq!['.', '.']));
    }
    if dot || dots {
        None
    } else {
        assert(chars@.subrange(s as int, n as int) =~= name);
        Some(string_of(&chars, s, n))
    }
}

/// Joins a name to a local path.
pub fn join_local(base: &str, name: &str) -> (path: String)
    ensures
        path@ == join(base@, name@),
{
    if starts_with_char(name, '/') {
        return name.to_string();
    }
    let n = base.unicode_len();
    if n > 0 && base.get_char(n - 1) != '/' {
        let out = concat3(base, "/", name);
        proof {
            reveal_strlit("/");
            assert(base@ + "/"@ =~= base@.push('/'));
        }
        out
    } else {
        concat(base, name)
    }
}

/// Joins a name to a remote path.
pub fn join_remote(base: &str, name: &str) -> (path: String)
    ensures
        path@ == remote_join(base@, name@),
{
    let trimmed = trim_end_slashes(base);
    let out = concat3(trimmed.as_str(), "/", name);
    proof {
        reveal_strlit("/");
        assert(trimmed@ + "/"@ =~= trimmed@.push('/'));
    }
    out
}

/// What follows the last slash of a text, or the whole text.
pub fn last_part(path: &str) -> (name: String)
    ensures
        name@ == after_last_slash(path@),
{
    let chars = chars_of(path);
    let s = start_of(&chars, chars.len());
    assert(chars@.take(chars@.len() as int) =~= path@);
    assert(path@.skip(s as int) =~= chars@.subrange(s as int, chars@.len() as int));
    string_of(&chars, s, chars.len())
}

/// Joining a plain name and going to the parent leads back to where one was.
pub proof fn lemma_parent_of_join(base: Seq<char>, name: Seq<char>)
    requires
        base == path_end(base),
        base.len() > 0,
        name.len() > 0,
        !name.contains('/'),
        name != seq!['.'],
    ensures
        parent(join(base, name)) == Some(base),
{
    let path = join(base, name);
    assert(name[0] != '/') by {
        assert(name.contains(name[0]));
    }
    let head: Seq<char> = if base.last() != '/' {
        base.push('/')
    } else {
        base
    };
    assert(path == head + name);
    assert(head.last() == '/');
    assert(name.last() != '/') by {
        assert(name.contains(name.last()));
    }
    // the joined path ends in the name, which nothing trims
    assert(path.last() == name.last());
    if path.last() == '.' && path[path.len() - 2] == '/' {
        if name.len() >= 2 {
            assert(path[path.len() - 2] == name[name.len() - 2]);
            assert(name.contains(name[name.len() - 2]));
        } else {
            assert(name =~= seq!['.']);
        }
    }
    assert(path_end(path) == path);
    // its last segment starts right behind the head
    lemma_last_position(path, '/');
    let at = last_position(path, '/')->0;
    assert(path[head.len() - 1] == '/');
    assert(at == head.len() - 1) by {
        if at >= head.len() {
            assert(path[at] == name[at - head.len()]);
            assert(name.contains(name[at - head.len()]));
        }
    }
    assert(path.take(segment_start(path)) =~= head);
    if base.last() != '/' {
        assert(head.drop_last() =~= base);
        assert(path_end(head) == path_end(base));
    }
    assert(path.len() >= 2);
}

/// Joining a plain name to a remote path and going to the parent leads back to
/// the path without its trailing slashes, or to the root.
pub proof fn lemma_remote_parent_of_join(base: Seq<char>, name: Seq<char>)
    requires
        !name.contains('/'),
    ensures
        last_position(remote_join(base, name), '/') == Some(
            without_trailing_slashes(base).len() as int,
        ),
        after_last_slash(remote_join(base, name)) == name,
{
    let head = without_trailing_slashes(base).push('/');
    let path = head + name;
    lemma_last_position(path, '/');
    let at = last_position(path, '/')->0;
    assert(path[head.len() - 1] == '/');
    assert(at == head.len() - 1) by {
        if at >= head.len() {
            assert(path[at] == name[at - head.len()]);
            assert(name.contains(name[at - head.len()]));
        }
    }
    assert(path.skip(segment_start(path)) =~= name);
}

/// How much of a name comes before its extension.
pub open spec fn stem_len(name: Seq<char>) -> int {
    match last_position(name, '.') {
        Some(p) => if p > 0 {
            p
        } else {
            name.len() as int
        },
        None => name.len() as int,
    }
}

/// A path with another extension on the name at its end.
pub open spec fn with_extension(path: Seq<char>, extension: Seq<char>) -> Seq<char> {
    let end = path_end(path);
    match file_name(path) {
        Some(name) => end.take(segment_start(end) + stem_len(name)) + "."@ + extension,
        None => path,
    }
}

/// Gives the name at the end of a path another extension.
pub fn replace_extension(path: &str, extension: &str) -> (changed: String)
    ensures
        changed@ == with_extension(path@, extension@),
{
    let name = match file_name_of(path) {
        Some(name) => name,
        None => {
            return path.to_string();
        },
    };
    let chars = chars_of(path);
    let n = end_of(&chars, chars.len());
    assert(chars@.take(chars@.len() as int) =~= path@);
    let ghost end = chars@.take(n as int);
    let s = start_of(&chars, n);
    assert(name@ == end.skip(s as int));
    let letters = chars_of(name.as_str());
    let stem: usize = match rfind(&letters, '.') {
        Some(p) => if p > 0 {
            p
        } else {
            letters.len()
        },
        None => letters.len(),
    };
    assert(stem == stem_len(name@)) by {
        lemma_last_position(name@, '.');
    }
    assert(s + stem <= n) by {
        lemma_last_position(name@, '.');
    }
    let kept = string_of(&chars, 0, s + stem);
    assert(kept@ =~= end.take(s + stem));
    concat3(kept.as_str(), ".", extension)
}

/// An extension of two parts is never the one that a name has.
pub proof fn lemma_double_extension_is_new(path: Seq<char>, extension: Seq<char>)
    requires
        file_name(path) is Some,
        extension.len() > 0,
        extension.last() != '/',
        extension.last() != '.',
        extension.contains('.'),
    ensures
        with_extension(path, extension) != path,
{
    reveal_strlit(".");
    let end = path_end(path);
    let start = segment_start(end);
    let name = file_name(path)->0;
    let stem = stem_len(name);
    lemma_last_position(end, '/');
    lemma_last_position(name, '.');
    let changed = with_extension(path, extension);
    if changed == path {
        assert(changed.last() == extension.last());
        assert(path_end(path) == path);
        let dot = extension.index_of('.');
        assert(extension[dot] == '.');
        assert(name[stem + 1 + dot] == '.') by {
            assert(end[start + stem + 1 + dot] == changed[start + stem + 1 + dot]);
        }
        assert(last_position(name, '.')->0 >= stem + 1 + dot);
    }
}

// ---------------------------------------------------------------------------
// Where a path leads
// ---------------------------------------------------------------------------

/// Whether a text can be the name of a file in a directory.
pub open spec fn is_plain(name: Seq<char>) -> bool {
    name.len() > 0 && !name.contains('/')
}

/// Whether some names all can be names of files.
pub open spec fn all_plain(names: Seq<Seq<char>>) -> bool {
    forall|i: int| 0 <= i < names.len() ==> is_plain(#[trigger] names[i])
}

/// Whether a path leads to a name in a directory: it is the directory, up to the
/// slashes that it ends with, then one slash, and then the name.
pub open spec fn lies_in(path: Seq<char>, dir: Seq<char>, name: Seq<char>) -> bool {
    exists|k: int| #[trigger] is_joined_at(path, dir, seq!['/'] + name, k)
}

/// Whether a path is the first characters of a directory with something behind
/// them, and only slashes of the directory are left out.
pub open spec fn is_joined_at(path: Seq<char>, dir: Seq<char>, end: Seq<char>, k: int) -> bool {
    &&& 0 <= k <= dir.len()
    &&& path == dir.take(k) + end
    &&& forall|i: int| k <= i < dir.len() ==> dir[i] == '/'
}

/// Some names, each behind a slash.
pub open spec fn trail(names: Seq<Seq<char>>) -> Seq<char>
    decreases names.len(),
{
    if names.len() == 0 {
        seq![]
    } else {
        trail(names.drop_last()) + (seq!['/'] + names.last())
    }
}

/// Whether a path leads from a directory to what some names stand for, each in
/// the one before. No names lead to the directory itself.
pub open spec fn lies_below(path: Seq<char>, root: Seq<char>, names: Seq<Seq<char>>) -> bool {
    if names.len() == 0 {
        path == root
    } else {
        exists|k: int| #[trigger] is_joined_at(path, root, trail(names), k)
    }
}

/// A name that is joined to a remote path lies in it, whatever the name is.
pub proof fn lemma_remote_join_lies_in(base: Seq<char>, name: Seq<char>)
    ensures
        lies_in(remote_join(base, name), base, name),
        forall|other: Seq<char>|
            without_trailing_slashes(other) == without_trailing_slashes(base) ==> #[trigger]
            remote_join(other, name) == remote_join(base, name),
{
    lemma_trailing_slashes(base);
    let k = without_trailing_slashes(base).len() as int;
    assert(remote_join(base, name) =~= base.take(k) + (seq!['/'] + name));
    assert(is_joined_at(remote_join(base, name), base, seq!['/'] + name, k));
}

/// A plain name that is joined to a local path lies in it.
pub proof fn lemma_join_lies_in(base: Seq<char>, name: Seq<char>)
    requires
        base.len() > 0,
        name.len() > 0 ==> name[0] != '/',
    ensures
        lies_in(join(base, name), base, name),
{
    let k = if base.last() == '/' {
        base.len() - 1
    } else {
        base.len() as int
    };
    assert(join(base, name) =~= base.take(k) + (seq!['/'] + name));
    assert(is_joined_at(join(base, name), base, seq!['/'] + name, k));
}

/// A path leads to one name only, and to one directory only but for the slashes
/// at its end.
pub proof fn lemma_lies_in_one_directory(
    path: Seq<char>,
    dir: Seq<char>,
    name: Seq<char>,
    other_dir: Seq<char>,
    other_name: Seq<char>,
)
    requires
        lies_in(path, dir, name),
        lies_in(path, other_dir, other_name),
        !name.contains('/'),
        !other_name.contains('/'),
    ensures
        name == other_name,
        without_trailing_slashes(dir) == without_trailing_slashes(other_dir),
        after_last_slash(path) == name,
{
    let k = choose|k: int| #[trigger] is_joined_at(path, dir, seq!['/'] + name, k);
    let j = choose|j: int| #[trigger] is_joined_at(path, other_dir, seq!['/'] + other_name, j);
    assert(path.skip(k + 1) =~= name);
    assert(path.skip(j + 1) =~= other_name);
    lemma_slash_before_plain(path, k, name);
    lemma_slash_before_plain(path, j, other_name);
    assert(dir.take(k) =~= path.take(k));
    assert(other_dir.take(k) =~= path.take(k));
    lemma_only_slashes_follow(dir, k);
    lemma_only_slashes_follow(other_dir, k);
}

proof fn lemma_slash_before_plain(path: Seq<char>, k: int, name: Seq<char>)
    requires
        0 <= k,
        path.len() == k + 1 + name.len(),
        path[k] == '/',
        path.skip(k + 1) == name,
        !name.contains('/'),
    ensures
        last_position(path, '/') == Some(k),
{
    lemma_last_position(path, '/');
    let at = last_position(path, '/')->0;
    if at > k {
        assert(path.skip(k + 1)[at - k - 1] == path[at]);
        assert(name.contains(name[at - k - 1]));
    }
}

proof fn lemma_only_slashes_follow(dir: Seq<char>, k: int)
    requires
        0 <= k <= dir.len(),
        forall|i: int| k <= i < dir.len() ==> dir[i] == '/',
    ensures
        without_trailing_slashes(dir) == without_trailing_slashes(dir.take(k)),
    decreases dir.len() - k,
{
    if k == dir.len() {
        assert(dir.take(k) =~= dir);
    } else {
        lemma_only_slashes_follow(dir.drop_last(), k);
        assert(dir.drop_last().take(k) =~= dir.take(k));
    }
}

/// A name in a directory that lies below another lies below that one too, one
/// name further.
pub proof fn lemma_lies_one_further(
    path: Seq<char>,
    dir: Seq<char>,
    name: Seq<char>,
    root: Seq<char>,
    names: Seq<Seq<char>>,
)
    requires
        lies_in(path, dir, name),
        lies_below(dir, root, names),
        all_plain(names),
        is_plain(name),
    ensures
        lies_below(path, root, names.push(name)),
        all_plain(names.push(name)),
{
    let k = choose|k: int| #[trigger] is_joined_at(path, dir, seq!['/'] + name, k);
    let more = names.push(name);
    assert(more.drop_last() =~= names);
    if names.len() == 0 {
        assert(trail(names) =~= seq![]);
        assert(trail(more) =~= seq!['/'] + name);
        assert(is_joined_at(path, root, trail(more), k));
    } else {
        let j = choose|j: int| #[trigger] is_joined_at(dir, root, trail(names), j);
        let last = names.last();
        assert(is_plain(names[names.len() - 1]));
        assert(dir.last() == last.last());
        assert(last.contains(last.last()));
        assert(k == dir.len()) by {
            if k < dir.len() {
                assert(dir[dir.len() - 1] == '/');
            }
        }
        assert(path =~= root.take(j) + trail(more));
        assert(is_joined_at(path, root, trail(more), j));
    }
}

/// Different names lead to different paths below a directory.
pub proof fn lemma_paths_below_differ(
    path: Seq<char>,
    root: Seq<char>,
    a: Seq<Seq<char>>,
    b: Seq<Seq<char>>,
)
    requires
        lies_below(path, root, a),
        lies_below(path, root, b),
        all_plain(a),
        all_plain(b),
    ensures
        a == b,
{
    let k = if a.len() == 0 {
        root.len() as int
    } else {
        choose|k: int| #[trigger] is_joined_at(path, root, trail(a), k)
    };
    let j = if b.len() == 0 {
        root.len() as int
    } else {
        choose|j: int| #[trigger] is_joined_at(path, root, trail(b), j)
    };
    if a.len() == 0 {
        assert(path =~= root.take(k) + trail(a));
    }
    if b.len() == 0 {
        assert(path =~= root.take(j) + trail(b));
    }
    lemma_trails_differ(path, root, a, k, b, j);
}

proof fn lemma_trails_differ(
    path: Seq<char>,
    root: Seq<char>,
    a: Seq<Seq<char>>,
    k: int,
    b: Seq<Seq<char>>,
    j: int,
)
    requires
        is_joined_at(path, root, trail(a), k),
        is_joined_at(path, root, trail(b), j),
        all_plain(a),
        all_plain(b),
    ensures
        a == b,
    decreases a.len(),
{
    if a.len() > 0 && b.len() > 0 {
        let (x, y) = (a.last(), b.last());
        assert(is_plain(a[a.len() - 1]) && is_plain(b[b.len() - 1]));
        let m = path.len() - 1 - x.len();
        let n = path.len() - 1 - y.len();
        assert(path.skip(m + 1) =~= x);
        assert(path.skip(n + 1) =~= y);
        lemma_slash_before_plain(path, m, x);
        lemma_slash_before_plain(path, n, y);
        assert(x == y);
        let shorter = path.take(m);
        assert(shorter =~= root.take(k) + trail(a.drop_last()));
        assert(shorter =~= root.take(j) + trail(b.drop_last()));
        assert forall|i: int| 0 <= i < a.drop_last().len() implies is_plain(
            #[trigger] a.drop_last()[i],
        ) by {
            assert(is_plain(a[i]));
        }
        assert forall|i: int| 0 <= i < b.drop_last().len() implies is_plain(
            #[trigger] b.drop_last()[i],
        ) by {
            assert(is_plain(b[i]));
        }
        lemma_trails_differ(shorter, root, a.drop_last(), k, b.drop_last(), j);
        assert(a =~= a.drop_last().push(x));
        assert(b =~= b.drop_last().push(y));
    } else if a.len() > 0 {
        lemma_no_trail_within(path, root, a, k, j);
        assert(path =~= root.take(j));
    } else if b.len() > 0 {
        lemma_no_trail_within(path, root, b, j, k);
        assert(path =~= root.take(k));
    } else {
        assert(a =~= b);
    }
}

proof fn lemma_no_trail_within(
    path: Seq<char>,
    root: Seq<char>,
    a: Seq<Seq<char>>,
    k: int,
    j: int,
)
    requires
        a.len() > 0,
        all_plain(a),
        is_joined_at(path, root, trail(a), k),
        0 <= j <= root.len(),
    ensures
        path != root.take(j),
{
    let x = a.last();
    assert(is_plain(a[a.len() - 1]));
    assert(path.last() == x.last());
    assert(x.contains(x.last()));
    assert(trail(a).len() > 0);
    if path == root.take(j) {
        assert(root[path.len() - 1] == path.last());
    }
}

/// The last segment of a path that leads to a name is that name.
pub proof fn lemma_file_name_of_path(path: Seq<char>, dir: Seq<char>, name: Seq<char>)
    requires
        lies_in(path, dir, name),
        is_plain(name),
        name != seq!['.'],
        name != seq!['.', '.'],
    ensures
        file_name(path) == Some(name),
{
    lemma_lies_in_one_directory(path, dir, name, dir, name);
    assert(path.last() == name.last());
    assert(name.contains(name.last()));
    if path.last() == '.' && path[path.len() - 2] == '/' {
        if name.len() >= 2 {
            assert(path[path.len() - 2] == name[name.len() - 2]);
            assert(name.contains(name[name.len() - 2]));
        } else {
            assert(name =~= seq!['.']);
        }
    }
    assert(path_end(path) == path);
    assert(path.len() >= 2);
}

} // verus!
