//! Directory entries, and the decisions of an SFTP connection.
use vstd::prelude::*;
use crate::model::{opt_text, Host};
use crate::order::{
    is_preorder, le_text, lemma_stable_sort_map, lemma_text_le_total, lemma_text_le_transitive,
    sort_by, stable_sort, text_le,
};
use crate::paths::{join, join_local};
use crate::text::{chars_of, concat, concat3, decimal, decimal_string, has_prefix, string_of};

verus! {

/// A single entry of a directory listing, local or remote.
#[derive(Debug, PartialEq, Eq)]
pub struct FileEntry {
    pub name: String,
    pub is_dir: bool,
    pub size: u64,
    pub modified: Option<u64>,
    pub permissions: Option<u32>,
}

/// The model of a directory entry.
#[verifier::ext_equal]
pub struct EntryView {
    pub name: Seq<char>,
    pub is_dir: bool,
    pub size: u64,
    pub modified: Option<u64>,
    pub permissions: Option<u32>,
}

impl View for FileEntry {
    type V = EntryView;

    open spec fn view(&self) -> EntryView {
        EntryView {
            name: self.name@,
            is_dir: self.is_dir,
            size: self.size,
            modified: self.modified,
            permissions: self.permissions,
        }
    }
}

impl Clone for FileEntry {
    fn clone(&self) -> (r: Self)
        ensures
            r@ == self@,
    {
        FileEntry {
            name: self.name.clone(),
            is_dir: self.is_dir,
            size: self.size,
            modified: self.modified,
            permissions: self.permissions,
        }
    }
}

/// The models of a list of entries.
pub open spec fn entry_views(entries: Seq<FileEntry>) -> Seq<EntryView> {
    entries.map_values(|e: FileEntry| e@)
}

/// Copies a list of entries.
pub fn clone_entries(entries: &Vec<FileEntry>) -> (r: Vec<FileEntry>)
    ensures
        entry_views(r@) == entry_views(entries@),
{
    let mut out: Vec<FileEntry> = Vec::new();
    for i in 0..entries.len()
        invariant
            out@.len() == i,
            forall|k: int| 0 <= k < i ==> (#[trigger] out@[k])@ == entries@[k]@,
    {
        out.push(entries[i].clone());
    }
    assert(entry_views(out@) =~= entry_views(entries@));
    out
}

/// One character of a permission triple.
pub open spec fn permission_char(mode: u32, bit: u32, letter: char) -> char {
    if mode & bit != 0 {
        letter
    } else {
        '-'
    }
}

/// The nine characters that show who may read, write and execute.
pub open spec fn permission_chars(mode: u32) -> Seq<char> {
    seq![
        permission_char(mode, 256, 'r'),
        permission_char(mode, 128, 'w'),
        permission_char(mode, 64, 'x'),
        permission_char(mode, 32, 'r'),
        permission_char(mode, 16, 'w'),
        permission_char(mode, 8, 'x'),
        permission_char(mode, 4, 'r'),
        permission_char(mode, 2, 'w'),
        permission_char(mode, 1, 'x'),
    ]
}

fn permission_letter(mode: u32, bit: u32, letter: char) -> (c: char)
    ensures
        c == permission_char(mode, bit, letter),
{
    if mode & bit != 0 {
        letter
    } else {
        '-'
    }
}

impl EntryView {
    /// Whether the mode bits mark a symbolic link.
    pub open spec fn is_symlink(self) -> bool {
        self.permissions is Some && self.permissions->0 & 61440 == 40960
    }

    /// The permissions as text, if they are known.
    pub open spec fn permissions_string(self) -> Option<Seq<char>> {
        match self.permissions {
            Some(mode) => Some(permission_chars(mode)),
            None => None,
        }
    }
}

impl FileEntry {
    /// Whether the mode bits mark a symbolic link.
    pub fn is_symlink(&self) -> (yes: bool)
        ensures
            yes == self@.is_symlink(),
    {
        match self.permissions {
            Some(mode) => mode & 61440 == 40960,
            None => false,
        }
    }

    /// The permissions as text such as `rwxr-xr-x`, if they are known.
    pub fn permissions_string(&self) -> (text: Option<String>)
        ensures
            opt_text(text) == self@.permissions_string(),
    {
        match self.permissions {
            Some(mode) => {
                let mut out = String::new();
                out.push(permission_letter(mode, 256, 'r'));
                out.push(permission_letter(mode, 128, 'w'));
                out.push(permission_letter(mode, 64, 'x'));
                out.push(permission_letter(mode, 32, 'r'));
                out.push(permission_letter(mode, 16, 'w'));
                out.push(permission_letter(mode, 8, 'x'));
                out.push(permission_letter(mode, 4, 'r'));
                out.push(permission_letter(mode, 2, 'w'));
                out.push(permission_letter(mode, 1, 'x'));
                assert(out@ =~= permission_chars(mode));
                Some(out)
            },
            None => None,
        }
    }
}

/// Directories come before files, and names in the order of their characters.
pub open spec fn name_order() -> spec_fn(EntryView, EntryView) -> bool {
    |a: EntryView, b: EntryView|
        if a.is_dir != b.is_dir {
            a.is_dir
        } else {
            text_le(a.name, b.name)
        }
}

/// The order of names is a preorder.
pub proof fn lemma_name_order()
    ensures
        is_preorder(name_order()),
{
    let le = name_order();
    assert forall|a: EntryView, b: EntryView| #[trigger] le(a, b) || le(b, a) by {
        lemma_text_le_total(a.name, b.name);
    }
    assert forall|a: EntryView, b: EntryView, c: EntryView| #[trigger]
        le(a, b) && #[trigger] le(b, c) implies le(a, c) by {
        if text_le(a.name, b.name) && text_le(b.name, c.name) {
            lemma_text_le_transitive(a.name, b.name, c.name);
        }
    }
}

/// An order of entries by their models.
pub open spec fn by_model(le: spec_fn(EntryView, EntryView) -> bool) -> spec_fn(
    FileEntry,
    FileEntry,
) -> bool {
    |a: FileEntry, b: FileEntry| le(a@, b@)
}

/// What holds of a preorder of models holds of the order of entries by it.
pub proof fn lemma_by_model(le: spec_fn(EntryView, EntryView) -> bool)
    requires
        is_preorder(le),
    ensures
        is_preorder(by_model(le)),
{
    let m = by_model(le);
    assert forall|a: FileEntry, b: FileEntry| #[trigger] m(a, b) || m(b, a) by {
        assert(le(a@, b@) || le(b@, a@));
    }
    assert forall|a: FileEntry, b: FileEntry, c: FileEntry| #[trigger]
        m(a, b) && #[trigger] m(b, c) implies m(a, c) by {
        assert(le(a@, b@) && le(b@, c@));
    }
}

/// Sorts entries with directories first, then alphabetically by name. Entries
/// that tie keep their order.
pub fn sort_entries_by_name(entries: &mut Vec<FileEntry>)
    ensures
        entry_views(final(entries)@) == stable_sort(entry_views(old(entries)@), name_order()),
{
    let ghost given = entries@;
    let le = |a: &FileEntry, b: &FileEntry| -> (r: bool)
        ensures
            r == by_model(name_order())(*a, *b),
        {
            if a.is_dir != b.is_dir {
                a.is_dir
            } else {
                le_text(a.name.as_str(), b.name.as_str())
            }
        };
    proof {
        lemma_name_order();
        lemma_by_model(name_order());
    }
    sort_by(entries, le, Ghost(by_model(name_order())));
    proof {
        lemma_stable_sort_map(
            given,
            by_model(name_order()),
            |e: FileEntry| e@,
            name_order(),
        );
    }
}

/// What a server says of one entry of a directory.
pub struct RemoteStat {
    /// The last segment of the entry's path, if it has one.
    pub name: Option<String>,
    pub is_dir: bool,
    pub size: Option<u64>,
    pub modified: Option<u64>,
    pub permissions: Option<u32>,
}

impl RemoteStat {
    /// The entry that a name and the attributes make.
    pub open spec fn entry(self, name: Seq<char>) -> EntryView {
        EntryView {
            name,
            is_dir: self.is_dir,
            size: match self.size {
                Some(n) => n,
                None => 0,
            },
            modified: self.modified,
            permissions: self.permissions,
        }
    }
}

/// The entries of those attributes that have a name, in their order.
pub open spec fn named_entries(stats: Seq<RemoteStat>) -> Seq<EntryView>
    decreases stats.len(),
{
    if stats.len() == 0 {
        seq![]
    } else {
        let rest = named_entries(stats.drop_last());
        match stats.last().name {
            Some(name) => rest.push(stats.last().entry(name@)),
            None => rest,
        }
    }
}

/// Turns the attributes of a directory's entries into a sorted listing.
///
/// An entry without a name is left out, and an unknown size counts as zero.
pub fn listing(stats: Vec<RemoteStat>) -> (entries: Vec<FileEntry>)
    ensures
        entry_views(entries@) == stable_sort(named_entries(stats@), name_order()),
{
    let mut out: Vec<FileEntry> = Vec::new();
    assert(entry_views(out@) =~= named_entries(stats@.take(0)));
    for i in 0..stats.len()
        invariant
            entry_views(out@) == named_entries(stats@.take(i as int)),
    {
        let ghost before = out@;
        assert(stats@.take(i + 1).drop_last() =~= stats@.take(i as int));
        assert(stats@.take(i + 1).last() == stats@[i as int]);
        let stat = &stats[i];
        if let Some(name) = &stat.name {
            out.push(stat_entry(name.clone(), stat));
            assert(entry_views(out@) =~= entry_views(before).push(
                stat.entry(name@),
            ));
        }
    }
    assert(stats@.take(stats@.len() as int) =~= stats@);
    sort_entries_by_name(&mut out);
    out
}

/// Makes an entry of a name and attributes.
pub fn stat_entry(name: String, stat: &RemoteStat) -> (entry: FileEntry)
    ensures
        entry@ == stat.entry(name@),
{
    let size: u64 = match stat.size {
        Some(n) => n,
        None => 0,
    };
    FileEntry {
        name,
        is_dir: stat.is_dir,
        size,
        modified: stat.modified,
        permissions: stat.permissions,
    }
}

// ---------------------------------------------------------------------------
// Connecting
// ---------------------------------------------------------------------------

/// Why a connection attempt did not succeed.
#[derive(Debug)]
pub enum ConnectOutcome {
    NeedsPassword,
    Failed(String),
}

/// The model of a failed attempt.
#[verifier::ext_equal]
pub enum OutcomeView {
    NeedsPassword,
    Failed(Seq<char>),
}

impl View for ConnectOutcome {
    type V = OutcomeView;

    open spec fn view(&self) -> OutcomeView {
        match self {
            ConnectOutcome::NeedsPassword => OutcomeView::NeedsPassword,
            ConnectOutcome::Failed(message) => OutcomeView::Failed(message@),
        }
    }
}

impl ConnectOutcome {
    /// The outcome as text.
    pub fn to_string(&self) -> (text: String)
        ensures
            text@ == (match self@ {
                OutcomeView::NeedsPassword => "password authentication required"@,
                OutcomeView::Failed(message) => message,
            }),
    {
        match self {
            ConnectOutcome::NeedsPassword => "password authentication required".to_string(),
            ConnectOutcome::Failed(message) => message.clone(),
        }
    }
}

/// The steps of a connection that can fail outright.
#[derive(Debug, Clone, Copy, PartialEq, Eq)]
pub enum ConnectStage {
    Resolve,
    Tcp,
    Session,
    Handshake,
    Subsystem,
}

impl ConnectStage {
    /// What a failure of this step is reported as.
    pub open spec fn prefix(self) -> Seq<char> {
        match self {
            ConnectStage::Resolve => "DNS resolution failed: "@,
            ConnectStage::Tcp => "TCP connect failed: "@,
            ConnectStage::Session => "SSH session init failed: "@,
            ConnectStage::Handshake => "SSH handshake failed: "@,
            ConnectStage::Subsystem => "Failed to open SFTP subsystem: "@,
        }
    }

    /// The outcome of an attempt that failed at this step.
    pub fn failure(self, message: &str) -> (outcome: ConnectOutcome)
        ensures
            outcome@ == OutcomeView::Failed(self.prefix() + message@),
    {
        let prefix = match self {
            ConnectStage::Resolve => "DNS resolution failed: ",
            ConnectStage::Tcp => "TCP connect failed: ",
            ConnectStage::Session => "SSH session init failed: ",
            ConnectStage::Handshake => "SSH handshake failed: ",
            ConnectStage::Subsystem => "Failed to open SFTP subsystem: ",
        };
        ConnectOutcome::Failed(concat(prefix, message))
    }
}

/// The address that a host is reached at.
pub fn host_address(host: &Host) -> (addr: String)
    ensures
        addr@ == host@.hostname + ":"@ + decimal(host@.port as nat),
{
    let port = decimal_string(host.port as u64);
    concat3(host.hostname.as_str(), ":", port.as_str())
}

/// A path with a leading `~` replaced by the home directory, where there is one.
pub open spec fn tilde_expanded(path: Seq<char>, home: Option<Seq<char>>) -> Seq<char> {
    match home {
        Some(home) => if has_prefix(path, seq!['~', '/']) {
            join(home, path.skip(2))
        } else if path == seq!['~'] {
            home
        } else {
            path
        },
        None => path,
    }
}

/// Replaces a leading `~` by a given home directory.
pub fn expand_tilde(path: &str, home: Option<&str>) -> (expanded: String)
    ensures
        expanded@ == tilde_expanded(
            path@,
            match home {
                Some(home) => Some(home@),
                None => None,
            },
        ),
{
    let chars = chars_of(path);
    if let Some(home) = home {
        if chars.len() >= 2 && chars[0] == '~' && chars[1] == '/' {
            assert(path@.take(2) =~= seq!['~', '/']);
            let rest = string_of(&chars, 2, chars.len());
            assert(rest@ =~= path@.skip(2));
            return join_local(home, rest.as_str());
        }
        proof {
            if has_prefix(path@, seq!['~', '/']) {
                assert(path@.take(2)[0] == '~' && path@.take(2)[1] == '/');
            }
        }
        if chars.len() == 1 && chars[0] == '~' {
            assert(path@ =~= seq!['~']);
            return home.to_string();
        }
    }
    path.to_string()
}

/// Calls `dirs::home_dir`, which reads the environment and the user database.
///
/// A path that is no text is given with its undecodable parts replaced, as
/// `Path::to_string_lossy` does. Nothing is stated of the result.
#[verifier::external_body]
pub(crate) fn home_dir() -> Option<String> {
    dirs::home_dir().map(|p| p.to_string_lossy().into_owned())
}

/// Expands a leading `~` to the user's home directory.
///
/// The result is the path unchanged, or the path expanded with whatever the
/// home directory is. A path without a leading `~` is always unchanged.
pub fn shellexpand_tilde(path: &str) -> (expanded: String)
    ensures
        exists|home: Option<Seq<char>>| #[trigger] tilde_expanded(path@, home) == expanded@,
        (path@.len() == 0 || path@[0] != '~') ==> expanded@ == path@,
{
    let home = home_dir();
    let expanded = match &home {
        Some(h) => expand_tilde(path, Some(h.as_str())),
        None => expand_tilde(path, None),
    };
    let ghost dir = opt_text(home);
    assert(tilde_expanded(path@, dir) == expanded@);
    proof {
        if has_prefix(path@, seq!['~', '/']) {
            assert(path@.take(2)[0] == '~');
        }
    }
    expanded
}

/// A way to prove who one is.
#[derive(Debug, PartialEq, Eq)]
pub enum AuthMethod {
    /// The key in a file, with the credential as its passphrase if there is one.
    KeyFile(String),
    /// The keys of the running agent.
    Agent,
    /// The credential as a password.
    Password,
}

/// The model of a method.
#[verifier::ext_equal]
pub enum MethodView {
    KeyFile(Seq<char>),
    Agent,
    Password,
}

impl View for AuthMethod {
    type V = MethodView;

    open spec fn view(&self) -> MethodView {
        match self {
            AuthMethod::KeyFile(path) => MethodView::KeyFile(path@),
            AuthMethod::Agent => MethodView::Agent,
            AuthMethod::Password => MethodView::Password,
        }
    }
}

/// The models of a list of methods.
pub open spec fn method_views(methods: Seq<AuthMethod>) -> Seq<MethodView> {
    methods.map_values(|m: AuthMethod| m@)
}

/// The key files to try: the host's own first, then the usual ones at home.
pub open spec fn key_methods(identity_file: Option<Seq<char>>, home: Option<Seq<char>>) -> Seq<
    MethodView,
> {
    let own = match identity_file {
        Some(path) => seq![MethodView::KeyFile(tilde_expanded(path, home))],
        None => seq![],
    };
    match home {
        Some(home) => {
            let dir = join(home, ".ssh"@);
            own + seq![
                MethodView::KeyFile(join(dir, "id_ed25519"@)),
                MethodView::KeyFile(join(dir, "id_rsa"@)),
                MethodView::KeyFile(join(dir, "id_ecdsa"@)),
            ]
        },
        None => own,
    }
}

/// All methods to try, in order.
///
/// Key files come first. Without a credential the agent is last, because each
/// of its keys counts against the attempts that a server allows. With a
/// credential the password is last.
pub open spec fn auth_plan(
    identity_file: Option<Seq<char>>,
    home: Option<Seq<char>>,
    credential: bool,
) -> Seq<MethodView> {
    key_methods(identity_file, home).push(
        if credential {
            MethodView::Password
        } else {
            MethodView::Agent
        },
    )
}

/// Lists the methods to try for a host, given the home directory.
pub fn auth_methods(host: &Host, home: Option<&str>, credential: bool) -> (methods: Vec<AuthMethod>)
    ensures
        method_views(methods@) == auth_plan(
            host@.identity_file,
            match home {
                Some(home) => Some(home@),
                None => None,
            },
            credential,
        ),
{
    let mut out: Vec<AuthMethod> = Vec::new();
    if let Some(path) = &host.identity_file {
        out.push(AuthMethod::KeyFile(expand_tilde(path.as_str(), home)));
    }
    if let Some(home) = home {
        let dir = join_local(home, ".ssh");
        out.push(AuthMethod::KeyFile(join_local(dir.as_str(), "id_ed25519")));
        out.push(AuthMethod::KeyFile(join_local(dir.as_str(), "id_rsa")));
        out.push(AuthMethod::KeyFile(join_local(dir.as_str(), "id_ecdsa")));
    }
    out.push(
        if credential {
            AuthMethod::Password
        } else {
            AuthMethod::Agent
        },
    );
    assert(method_views(out@) =~= auth_plan(
        host@.identity_file,
        match home {
            Some(home) => Some(home@),
            None => None,
        },
        credential,
    ));
    out
}

/// How a server answered one method.
#[derive(Debug)]
pub enum AuthReply {
    /// The session is authenticated.
    Accepted,
    /// It is not.
    Refused,
    /// The attempt itself failed.
    Error(String),
}

/// What to do after a method was tried.
#[derive(Debug)]
pub enum AuthDecision {
    /// Open the SFTP subsystem.
    Open,
    /// Try the next method.
    TryNext,
    /// Give up.
    Stop(ConnectOutcome),
}

/// The model of a decision.
#[verifier::ext_equal]
pub enum DecisionView {
    Open,
    TryNext,
    Stop(OutcomeView),
}

impl View for AuthDecision {
    type V = DecisionView;

    open spec fn view(&self) -> DecisionView {
        match self {
            AuthDecision::Open => DecisionView::Open,
            AuthDecision::TryNext => DecisionView::TryNext,
            AuthDecision::Stop(outcome) => DecisionView::Stop(outcome@),
        }
    }
}

/// What follows a reply to a method of the plan.
///
/// A refused key file leads on to the next method. A refused agent means that a
/// credential is needed. A refused password ends the attempt.
pub open spec fn auth_decision(method: MethodView, reply: AuthReply) -> DecisionView {
    match (method, reply) {
        (_, AuthReply::Accepted) => DecisionView::Open,
        (MethodView::KeyFile(_), _) => DecisionView::TryNext,
        (MethodView::Agent, _) => DecisionView::Stop(OutcomeView::NeedsPassword),
        (MethodView::Password, AuthReply::Refused) => DecisionView::Stop(
            OutcomeView::Failed("Authentication failed: invalid credentials"@),
        ),
        (MethodView::Password, AuthReply::Error(message)) => DecisionView::Stop(
            OutcomeView::Failed("Authentication failed: "@ + message@),
        ),
    }
}

/// Decides what follows a reply to a method.
pub fn after_auth(method: &AuthMethod, reply: AuthReply) -> (decision: AuthDecision)
    ensures
        decision@ == auth_decision(method@, reply),
{
    match reply {
        AuthReply::Accepted => AuthDecision::Open,
        AuthReply::Refused => match method {
            AuthMethod::KeyFile(_) => AuthDecision::TryNext,
            AuthMethod::Agent => AuthDecision::Stop(ConnectOutcome::NeedsPassword),
            AuthMethod::Password => AuthDecision::Stop(
                ConnectOutcome::Failed("Authentication failed: invalid credentials".to_string()),
            ),
        },
        AuthReply::Error(message) => match method {
            AuthMethod::KeyFile(_) => AuthDecision::TryNext,
            AuthMethod::Agent => AuthDecision::Stop(ConnectOutcome::NeedsPassword),
            AuthMethod::Password => AuthDecision::Stop(
                ConnectOutcome::Failed(concat("Authentication failed: ", message.as_str())),
            ),
        },
    }
}

/// Every plan ends with the only method whose refusal ends the attempt, so that
/// each attempt comes to a decision.
pub proof fn lemma_auth_plan_decides(
    identity_file: Option<Seq<char>>,
    home: Option<Seq<char>>,
    credential: bool,
    i: int,
    reply: AuthReply,
)
    requires
        0 <= i < auth_plan(identity_file, home, credential).len(),
    ensures
        ({
            let plan = auth_plan(identity_file, home, credential);
            auth_decision(plan[i], reply) is TryNext ==> i < plan.len() - 1
        }),
        !credential ==> ({
            let plan = auth_plan(identity_file, home, credential);
            auth_decision(plan[i], reply) is Stop ==> auth_decision(plan[i], reply)
                == DecisionView::Stop(OutcomeView::NeedsPassword)
        }),
{
    let plan = auth_plan(identity_file, home, credential);
    let keys = key_methods(identity_file, home);
    if i < keys.len() {
        assert(plan[i] == keys[i]);
        assert(keys[i] is KeyFile);
    }
}

// ---------------------------------------------------------------------------
// The state of a connection
// ---------------------------------------------------------------------------

/// The state of a connection attempt.
#[derive(Debug)]
pub enum SftpConnectionStatus {
    Connecting,
    NeedsPassword,
    Connected,
    /// The connection is up, and the first remote listing is waiting to be shown.
    ConnectedWithData { home_dir: String, entries: Vec<FileEntry> },
    Failed(String),
}

/// The model of a connection's state.
#[verifier::ext_equal]
pub enum StatusView {
    Connecting,
    NeedsPassword,
    Connected,
    ConnectedWithData { home_dir: Seq<char>, entries: Seq<EntryView> },
    Failed(Seq<char>),
}

impl View for SftpConnectionStatus {
    type V = StatusView;

    open spec fn view(&self) -> StatusView {
        match self {
            SftpConnectionStatus::Connecting => StatusView::Connecting,
            SftpConnectionStatus::NeedsPassword => StatusView::NeedsPassword,
            SftpConnectionStatus::Connected => StatusView::Connected,
            SftpConnectionStatus::ConnectedWithData { home_dir, entries } => {
                StatusView::ConnectedWithData {
                    home_dir: home_dir@,
                    entries: entry_views(entries@),
                }
            },
            SftpConnectionStatus::Failed(message) => StatusView::Failed(message@),
        }
    }
}

impl Clone for SftpConnectionStatus {
    fn clone(&self) -> (r: Self)
        ensures
            r@ == self@,
    {
        match self {
            SftpConnectionStatus::Connecting => SftpConnectionStatus::Connecting,
            SftpConnectionStatus::NeedsPassword => SftpConnectionStatus::NeedsPassword,
            SftpConnectionStatus::Connected => SftpConnectionStatus::Connected,
            SftpConnectionStatus::ConnectedWithData { home_dir, entries } => {
                SftpConnectionStatus::ConnectedWithData {
                    home_dir: home_dir.clone(),
                    entries: clone_entries(entries),
                }
            },
            SftpConnectionStatus::Failed(message) => SftpConnectionStatus::Failed(message.clone()),
        }
    }
}

/// What an attempt to connect came to.
pub enum ConnectReport {
    /// The home directory and its listing, each if it could be read.
    Up { home_dir: Option<String>, entries: Option<Vec<FileEntry>> },
    Down(ConnectOutcome),
}

/// The state that a report leads to.
///
/// An unknown home directory becomes the root, and an unreadable listing an
/// empty one. A demand for a password that answers a credential is a failure.
pub open spec fn reported_status(report: ConnectReport, credential: bool) -> StatusView {
    match report {
        ConnectReport::Up { home_dir, entries } => StatusView::ConnectedWithData {
            home_dir: match home_dir {
                Some(dir) => dir@,
                None => "/"@,
            },
            entries: match entries {
                Some(entries) => entry_views(entries@),
                None => seq![],
            },
        },
        ConnectReport::Down(outcome) => match outcome@ {
            OutcomeView::NeedsPassword => if credential {
                StatusView::Failed("Authentication failed"@)
            } else {
                StatusView::NeedsPassword
            },
            OutcomeView::Failed(message) => StatusView::Failed(message),
        },
    }
}

/// Turns the report of an attempt into the state to show.
pub fn status_after(report: ConnectReport, credential: bool) -> (status: SftpConnectionStatus)
    ensures
        status@ == reported_status(report, credential),
{
    match report {
        ConnectReport::Up { home_dir, entries } => {
            let home_dir = match home_dir {
                Some(dir) => dir,
                None => "/".to_string(),
            };
            let entries: Vec<FileEntry> = match entries {
                Some(entries) => entries,
                None => {
                    let none: Vec<FileEntry> = Vec::new();
                    assert(entry_views(none@) =~= seq![]);
                    none
                },
            };
            SftpConnectionStatus::ConnectedWithData { home_dir, entries }
        },
        ConnectReport::Down(outcome) => match outcome {
            ConnectOutcome::NeedsPassword => if credential {
                SftpConnectionStatus::Failed("Authentication failed".to_string())
            } else {
                SftpConnectionStatus::NeedsPassword
            },
            ConnectOutcome::Failed(message) => SftpConnectionStatus::Failed(message),
        },
    }
}

} // verus!
