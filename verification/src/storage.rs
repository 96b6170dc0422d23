//! Where the configuration is kept, and how it is written there.
use vstd::prelude::*;
use crate::error::{Error, ErrorView};
use crate::model::{Config, ConfigView};
use crate::paths::{
    file_name, join, join_local, lemma_double_extension_is_new, parent, parent_of, path_end,
    replace_extension, segment_start, with_extension,
};
use crate::ssh::{host_sections, save_ssh_config, ssh_config_in, ssh_saving};
use crate::text::lemma_last_position;

verus! {

/// The file that holds the configuration, below the directory for such files.
pub open spec fn config_file_in(dir: Seq<char>) -> Seq<char> {
    join(join(dir, "hosttui"@), "hosts.toml"@)
}

/// The file that holds the configuration, if there is a directory for it.
pub fn config_file(dir: Option<String>) -> (path: Result<String, Error>)
    ensures
        match dir {
            Some(dir) => path matches Ok(p) && p@ == config_file_in(dir@),
            None => path matches Err(e) && e@ == ErrorView::NoConfigDir,
        },
{
    match dir {
        Some(dir) => {
            let own = join_local(dir.as_str(), "hosttui");
            Ok(join_local(own.as_str(), "hosts.toml"))
        },
        None => Err(Error::NoConfigDir),
    }
}

/// Calls `dirs::config_dir`, which reads the environment.
///
/// A path that is no text is given with its undecodable parts replaced, as
/// `Path::to_string_lossy` does. Nothing is stated of the result.
#[verifier::external_body]
pub(crate) fn config_dir() -> Option<String> {
    dirs::config_dir().map(|p| p.to_string_lossy().into_owned())
}

/// The file that holds the user's configuration.
///
/// Which directory it is in, and whether there is one, is up to the environment.
pub fn config_path() -> (path: Result<String, Error>)
    ensures
        match path {
            Ok(p) => exists|dir: Seq<char>| p@ == #[trigger] config_file_in(dir),
            Err(e) => e@ == ErrorView::NoConfigDir,
        },
{
    config_file(config_dir())
}

/// What reading the configuration came to.
#[derive(Debug)]
pub enum Reading {
    /// There is no such file.
    Missing,
    /// The file could not be read, and what was said about it.
    Unreadable(String),
    /// The file holds no configuration, and what was said about it.
    Malformed(String),
    Found(Config),
}

/// The model of what reading the configuration came to.
#[verifier::ext_equal]
pub enum ReadingView {
    Missing,
    Unreadable(Seq<char>),
    Malformed(Seq<char>),
    Found(ConfigView),
}

impl View for Reading {
    type V = ReadingView;

    open spec fn view(&self) -> ReadingView {
        match self {
            Reading::Missing => ReadingView::Missing,
            Reading::Unreadable(source) => ReadingView::Unreadable(source@),
            Reading::Malformed(source) => ReadingView::Malformed(source@),
            Reading::Found(config) => ReadingView::Found(config@),
        }
    }
}

/// The configuration that a file holds, after it was read. Without a file it is
/// empty.
pub open spec fn loaded(path: Seq<char>, reading: ReadingView) -> Result<ConfigView, ErrorView> {
    match reading {
        ReadingView::Missing => Ok(ConfigView { hosts: seq![], groups: seq![] }),
        ReadingView::Unreadable(source) => Err(ErrorView::ReadConfig { path, source }),
        ReadingView::Malformed(source) => Err(ErrorView::ParseConfig { path, source }),
        ReadingView::Found(config) => Ok(config),
    }
}

/// The configuration that a file holds. Without a file it is empty.
pub fn load(path: &str, reading: Reading) -> (config: Result<Config, Error>)
    ensures
        match config {
            Ok(c) => loaded(path@, reading@) == Ok::<ConfigView, ErrorView>(c@),
            Err(e) => loaded(path@, reading@) == Err::<ConfigView, ErrorView>(e@),
        },
        reading matches Reading::Found(found) ==> config == Ok::<Config, Error>(found),
{
    match reading {
        Reading::Missing => {
            let config = Config::new(Vec::new(), Vec::new());
            assert(config@.hosts =~= seq![]);
            assert(config@.groups =~= seq![]);
            Ok(config)
        },
        Reading::Unreadable(source) => Err(Error::ReadConfig { path: path.to_string(), source }),
        Reading::Malformed(source) => Err(Error::ParseConfig { path: path.to_string(), source }),
        Reading::Found(config) => Ok(config),
    }
}

/// One step of writing a file.
#[derive(Debug)]
pub enum SaveStep {
    /// Create a directory, and those above it.
    CreateDir(String),
    Write { path: String, contents: String },
    Rename { from: String, to: String },
}

/// The model of a step.
#[verifier::ext_equal]
pub enum SaveStepView {
    CreateDir(Seq<char>),
    Write { path: Seq<char>, contents: Seq<char> },
    Rename { from: Seq<char>, to: Seq<char> },
}

impl View for SaveStep {
    type V = SaveStepView;

    open spec fn view(&self) -> SaveStepView {
        match self {
            SaveStep::CreateDir(path) => SaveStepView::CreateDir(path@),
            SaveStep::Write { path, contents } => SaveStepView::Write {
                path: path@,
                contents: contents@,
            },
            SaveStep::Rename { from, to } => SaveStepView::Rename { from: from@, to: to@ },
        }
    }
}

/// The models of some steps.
pub open spec fn step_views(steps: Seq<SaveStep>) -> Seq<SaveStepView> {
    steps.map_values(|s: SaveStep| s@)
}

/// The file that is written before it takes the place of another.
pub open spec fn temporary(path: Seq<char>) -> Seq<char> {
    with_extension(path, "toml.tmp"@)
}

/// How contents get into a file: its directory is created, the contents are
/// written beside it, and what was written takes its place.
pub open spec fn saving(path: Seq<char>, contents: Seq<char>) -> Seq<SaveStepView> {
    (match parent(path) {
        Some(dir) => seq![SaveStepView::CreateDir(dir)],
        None => seq![],
    }) + seq![
        SaveStepView::Write { path: temporary(path), contents },
        SaveStepView::Rename { from: temporary(path), to: path },
    ]
}

/// Plans how contents get into a file.
pub fn save(path: &str, contents: String) -> (steps: Vec<SaveStep>)
    ensures
        step_views(steps@) == saving(path@, contents@),
{
    let mut steps: Vec<SaveStep> = Vec::new();
    if let Some(dir) = parent_of(path) {
        steps.push(SaveStep::CreateDir(dir));
    }
    let beside = replace_extension(path, "toml.tmp");
    steps.push(SaveStep::Write { path: beside.clone(), contents });
    steps.push(SaveStep::Rename { from: beside, to: path.to_string() });
    assert(step_views(steps@) =~= saving(path@, contents@));
    steps
}

impl SaveStepView {
    /// The path that a step is about when it fails.
    pub open spec fn target(self) -> Seq<char> {
        match self {
            SaveStepView::CreateDir(path) => path,
            SaveStepView::Write { path, .. } => path,
            SaveStepView::Rename { to, .. } => to,
        }
    }
}

impl SaveStep {
    /// The error of a step that failed, with what was said about it.
    pub fn failed(&self, source: String) -> (error: Error)
        ensures
            error@ == (ErrorView::WriteConfig { path: self@.target(), source: source@ }),
    {
        let path = match self {
            SaveStep::CreateDir(path) => path.clone(),
            SaveStep::Write { path, .. } => path.clone(),
            SaveStep::Rename { to, .. } => to.clone(),
        };
        Error::WriteConfig { path, source }
    }
}

/// A file is never written in place: the only step that touches it comes last,
/// and puts there at once what was completely written elsewhere.
pub proof fn lemma_saving_is_atomic(path: Seq<char>, contents: Seq<char>)
    requires
        file_name(path) is Some,
    ensures
        saving(path, contents).len() >= 2,
        saving(path, contents).last() == (SaveStepView::Rename {
            from: temporary(path),
            to: path,
        }),
        saving(path, contents)[saving(path, contents).len() - 2] == (SaveStepView::Write {
            path: temporary(path),
            contents,
        }),
        forall|i: int|
            0 <= i < saving(path, contents).len() - 1 ==> match #[trigger] saving(
                path,
                contents,
            )[i] {
                SaveStepView::CreateDir(_) => true,
                SaveStepView::Write { path: written, .. } => written != path,
                SaveStepView::Rename { .. } => false,
            },
{
    reveal_strlit("toml.tmp");
    assert("toml.tmp"@[4] == '.');
    lemma_double_extension_is_new(path, "toml.tmp"@);
}

// ---------------------------------------------------------------------------
// What is in the files
// ---------------------------------------------------------------------------

/// The contents of some files after a step succeeded.
pub open spec fn performed(files: Map<Seq<char>, Seq<char>>, step: SaveStepView) -> Map<
    Seq<char>,
    Seq<char>,
> {
    match step {
        SaveStepView::CreateDir(_) => files,
        SaveStepView::Write { path, contents } => files.insert(path, contents),
        SaveStepView::Rename { from, to } => if files.contains_key(from) {
            files.remove(from).insert(to, files[from])
        } else {
            files
        },
    }
}

/// The contents of some files after all steps succeeded, in order.
pub open spec fn performed_all(
    files: Map<Seq<char>, Seq<char>>,
    steps: Seq<SaveStepView>,
) -> Map<Seq<char>, Seq<char>>
    decreases steps.len(),
{
    if steps.len() == 0 {
        files
    } else {
        performed(performed_all(files, steps.drop_last()), steps.last())
    }
}

/// What reading a file comes to, given what its contents mean.
pub open spec fn reading_of(
    files: Map<Seq<char>, Seq<char>>,
    path: Seq<char>,
    parse: spec_fn(Seq<char>) -> Result<ConfigView, Seq<char>>,
) -> ReadingView {
    if files.contains_key(path) {
        match parse(files[path]) {
            Ok(config) => ReadingView::Found(config),
            Err(source) => ReadingView::Malformed(source),
        }
    } else {
        ReadingView::Missing
    }
}

proof fn lemma_performed_all_add(
    files: Map<Seq<char>, Seq<char>>,
    a: Seq<SaveStepView>,
    b: Seq<SaveStepView>,
)
    ensures
        performed_all(files, a + b) == performed_all(performed_all(files, a), b),
    decreases b.len(),
{
    if b.len() == 0 {
        assert(a + b =~= a);
    } else {
        assert((a + b).drop_last() =~= a + b.drop_last());
        lemma_performed_all_add(files, a, b.drop_last());
    }
}

/// After a file was saved it holds the contents, and no other file has changed
/// but the one beside it. As long as not all steps are done, it holds what it
/// held before.
pub proof fn lemma_saved_file_holds_contents(
    files: Map<Seq<char>, Seq<char>>,
    path: Seq<char>,
    contents: Seq<char>,
    done: int,
    other: Seq<char>,
)
    requires
        file_name(path) is Some,
        0 <= done < saving(path, contents).len(),
        other != path,
        other != temporary(path),
    ensures
        ({
            let after = performed_all(files, saving(path, contents));
            &&& after.contains_key(path) && after[path] == contents
            &&& after.contains_key(other) == files.contains_key(other)
            &&& files.contains_key(other) ==> after[other] == files[other]
        }),
        ({
            let stopped = performed_all(files, saving(path, contents).take(done));
            &&& stopped.contains_key(path) == files.contains_key(path)
            &&& files.contains_key(path) ==> stopped[path] == files[path]
        }),
{
    lemma_saving_is_atomic(path, contents);
    let steps = saving(path, contents);
    let n = steps.len() as int;
    lemma_quiet_steps(files, steps, path, done);
    let before = performed_all(files, steps.take(n - 2));
    assert(steps.take(n - 2) =~= steps.drop_last().drop_last());
    assert(steps.drop_last().last() == steps[n - 2]);
    assert(n - 2 == 0 || steps[0] is CreateDir);
    assert(before == files) by {
        if n - 2 == 1 {
            assert(steps.take(1).drop_last() =~= seq![]);
            assert(steps.take(1).last() == steps[0]);
            assert(performed_all(files, steps.take(1).drop_last()) == files);
        }
    }
    let written = performed_all(files, steps.drop_last());
    assert(written == files.insert(temporary(path), contents));
    assert(performed_all(files, steps) == performed(written, steps.last()));
}

proof fn lemma_quiet_steps(
    files: Map<Seq<char>, Seq<char>>,
    steps: Seq<SaveStepView>,
    path: Seq<char>,
    done: int,
)
    requires
        0 <= done < steps.len(),
        forall|i: int|
            0 <= i < steps.len() - 1 ==> match #[trigger] steps[i] {
                SaveStepView::CreateDir(_) => true,
                SaveStepView::Write { path: written, .. } => written != path,
                SaveStepView::Rename { .. } => false,
            },
    ensures
        performed_all(files, steps.take(done)).contains_key(path) == files.contains_key(path),
        files.contains_key(path) ==> performed_all(files, steps.take(done))[path] == files[path],
    decreases done,
{
    if done > 0 {
        lemma_quiet_steps(files, steps, path, done - 1);
        assert(steps.take(done).drop_last() =~= steps.take(done - 1));
        assert(steps.take(done).last() == steps[done - 1]);
    }
}

/// What was saved is what is loaded: where the contents mean a configuration, a
/// load after the save returns it, whatever the file held before.
pub proof fn lemma_load_returns_what_was_saved(
    files: Map<Seq<char>, Seq<char>>,
    path: Seq<char>,
    contents: Seq<char>,
    parse: spec_fn(Seq<char>) -> Result<ConfigView, Seq<char>>,
    config: ConfigView,
)
    requires
        file_name(path) is Some,
        parse(contents) == Ok::<ConfigView, Seq<char>>(config),
    ensures
        loaded(path, reading_of(performed_all(files, saving(path, contents)), path, parse)) == Ok::<
            ConfigView,
            ErrorView,
        >(config),
{
    let other = path + temporary(path) + seq!['/'];
    assert(other.len() > path.len() && other.len() > temporary(path).len());
    lemma_saved_file_holds_contents(files, path, contents, 0, other);
}

// ---------------------------------------------------------------------------
// Both files
// ---------------------------------------------------------------------------

/// How a change is saved: the configuration gets into its file, and what `ssh`
/// reads about the hosts into the one below the home directory, if there is one.
pub open spec fn persisting(
    path: Seq<char>,
    contents: Seq<char>,
    home: Option<Seq<char>>,
    config: ConfigView,
) -> Seq<SaveStepView> {
    saving(path, contents) + (match home {
        Some(home) => ssh_saving(home, config),
        None => seq![],
    })
}

/// Plans how a change is saved. The contents are those of the configuration.
pub fn persist(path: &str, contents: String, home: Option<&str>, config: &Config) -> (steps: Vec<
    SaveStep,
>)
    ensures
        step_views(steps@) == persisting(
            path@,
            contents@,
            match home {
                Some(home) => Some(home@),
                None => None,
            },
            config@,
        ),
{
    let mut steps = save(path, contents);
    let ghost first = steps@;
    if let Some(home) = home {
        let mut more = save_ssh_config(home, config);
        let ghost second = more@;
        steps.append(&mut more);
        assert(step_views(steps@) =~= step_views(first) + step_views(second));
    }
    assert(step_views(steps@) =~= persisting(
        path@,
        contents@,
        match home {
            Some(home) => Some(home@),
            None => None,
        },
        config@,
    ));
    steps
}

/// After a change was saved, both files are up to date with it.
pub proof fn lemma_persisting_writes_both(
    files: Map<Seq<char>, Seq<char>>,
    path: Seq<char>,
    contents: Seq<char>,
    home: Seq<char>,
    config: ConfigView,
)
    requires
        file_name(path) is Some,
        path != ssh_config_in(home),
    ensures
        ({
            let after = performed_all(files, persisting(path, contents, Some(home), config));
            &&& after.contains_key(path) && after[path] == contents
            &&& after.contains_key(ssh_config_in(home)) && after[ssh_config_in(home)]
                == host_sections(config.hosts)
        }),
{
    let other = path + temporary(path) + seq!['/'];
    assert(other.len() > path.len() && other.len() > temporary(path).len());
    lemma_saved_file_holds_contents(files, path, contents, 0, other);
    let steps = ssh_saving(home, config);
    let saved = performed_all(files, saving(path, contents));
    lemma_performed_all_add(files, saving(path, contents), steps);
    assert(steps.drop_last() =~= seq![steps[0]]);
    assert(seq![steps[0]].drop_last() =~= seq![]);
    assert(performed_all(saved, seq![steps[0]].drop_last()) == saved);
    assert(performed_all(saved, seq![steps[0]]) == saved);
}

/// What a change was saved as is what is loaded: where the contents mean a
/// configuration, a load after both files were written returns it, whatever they
/// held before.
pub proof fn lemma_load_returns_what_was_persisted(
    files: Map<Seq<char>, Seq<char>>,
    path: Seq<char>,
    contents: Seq<char>,
    home: Option<Seq<char>>,
    saved: ConfigView,
    parse: spec_fn(Seq<char>) -> Result<ConfigView, Seq<char>>,
    config: ConfigView,
)
    requires
        file_name(path) is Some,
        home matches Some(h) ==> path != ssh_config_in(h),
        parse(contents) == Ok::<ConfigView, Seq<char>>(config),
    ensures
        loaded(
            path,
            reading_of(performed_all(files, persisting(path, contents, home, saved)), path, parse),
        ) == Ok::<ConfigView, ErrorView>(config),
{
    match home {
        Some(h) => {
            lemma_persisting_writes_both(files, path, contents, h, saved);
        },
        None => {
            assert(persisting(path, contents, home, saved) =~= saving(path, contents));
            lemma_load_returns_what_was_saved(files, path, contents, parse, config);
        },
    }
}

/// The file of the configuration has a name, and is not the one that `ssh` reads.
pub proof fn lemma_config_file_is_its_own(dir: Seq<char>, home: Seq<char>)
    ensures
        file_name(config_file_in(dir)) is Some,
        config_file_in(dir) != ssh_config_in(home),
{
    reveal_strlit("hosts.toml");
    reveal_strlit("config.hosttui");
    let path = config_file_in(dir);
    let other = ssh_config_in(home);
    assert(path.last() == 'l');
    assert(other.last() == 'i');
    assert(path_end(path) == path);
    lemma_last_position(path, '/');
    let name = path.skip(segment_start(path));
    assert(name.last() == path.last());
}

/// A configuration that was saved is there again when the program is next started,
/// with the same directories and where the contents mean that configuration.
pub proof fn lemma_configuration_is_there_again(
    files: Map<Seq<char>, Seq<char>>,
    dir: Seq<char>,
    contents: Seq<char>,
    home: Option<Seq<char>>,
    parse: spec_fn(Seq<char>) -> Result<ConfigView, Seq<char>>,
    config: ConfigView,
)
    requires
        parse(contents) == Ok::<ConfigView, Seq<char>>(config),
    ensures
        ({
            let path = config_file_in(dir);
            let after = performed_all(files, persisting(path, contents, home, config));
            loaded(path, reading_of(after, path, parse)) == Ok::<ConfigView, ErrorView>(config)
        }),
{
    lemma_config_file_is_its_own(
        dir,
        match home {
            Some(h) => h,
            None => seq![],
        },
    );
    lemma_load_returns_what_was_persisted(
        files,
        config_file_in(dir),
        contents,
        home,
        config,
        parse,
        config,
    );
}

} // verus!
