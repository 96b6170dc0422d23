//! File transfers: what is asked of the file systems, and in which order.
use vstd::prelude::*;
use crate::paths::{
    after_last_slash, file_name, file_name_of, join, join_local, join_remote, last_part,
    remote_join,
};
use crate::sftp::{EntryView, FileEntry};
use crate::text::{concat, concat3};

verus! {

/// How many bytes are copied at a time.
pub const CHUNK_SIZE: usize = 32768;

/// What to transfer and in which direction.
#[derive(Debug)]
pub enum TransferRequest {
    Upload { local_path: String, remote_path: String },
    Download { remote_path: String, local_path: String },
    UploadDir { local_path: String, remote_path: String },
    DownloadDir { remote_path: String, local_path: String },
}

/// The model of a request.
#[verifier::ext_equal]
pub enum RequestView {
    Upload { local_path: Seq<char>, remote_path: Seq<char> },
    Download { remote_path: Seq<char>, local_path: Seq<char> },
    UploadDir { local_path: Seq<char>, remote_path: Seq<char> },
    DownloadDir { remote_path: Seq<char>, local_path: Seq<char> },
}

impl View for TransferRequest {
    type V = RequestView;

    open spec fn view(&self) -> RequestView {
        match self {
            TransferRequest::Upload { local_path, remote_path } => RequestView::Upload {
                local_path: local_path@,
                remote_path: remote_path@,
            },
            TransferRequest::Download { remote_path, local_path } => RequestView::Download {
                remote_path: remote_path@,
                local_path: local_path@,
            },
            TransferRequest::UploadDir { local_path, remote_path } => RequestView::UploadDir {
                local_path: local_path@,
                remote_path: remote_path@,
            },
            TransferRequest::DownloadDir { remote_path, local_path } => RequestView::DownloadDir {
                remote_path: remote_path@,
                local_path: local_path@,
            },
        }
    }
}

impl Clone for TransferRequest {
    fn clone(&self) -> (r: Self)
        ensures
            r@ == self@,
    {
        match self {
            TransferRequest::Upload { local_path, remote_path } => TransferRequest::Upload {
                local_path: local_path.clone(),
                remote_path: remote_path.clone(),
            },
            TransferRequest::Download { remote_path, local_path } => TransferRequest::Download {
                remote_path: remote_path.clone(),
                local_path: local_path.clone(),
            },
            TransferRequest::UploadDir { local_path, remote_path } => TransferRequest::UploadDir {
                local_path: local_path.clone(),
                remote_path: remote_path.clone(),
            },
            TransferRequest::DownloadDir { remote_path, local_path } => {
                TransferRequest::DownloadDir {
                    remote_path: remote_path.clone(),
                    local_path: local_path.clone(),
                }
            },
        }
    }
}

impl RequestView {
    /// Whether the transfer goes to the remote side.
    pub open spec fn is_upload(self) -> bool {
        self is Upload || self is UploadDir
    }

    /// Whether a whole directory is transferred.
    pub open spec fn is_tree(self) -> bool {
        self is UploadDir || self is DownloadDir
    }

    /// The path on the local side.
    pub open spec fn local(self) -> Seq<char> {
        match self {
            RequestView::Upload { local_path, .. } => local_path,
            RequestView::Download { local_path, .. } => local_path,
            RequestView::UploadDir { local_path, .. } => local_path,
            RequestView::DownloadDir { local_path, .. } => local_path,
        }
    }

    /// The path on the remote side.
    pub open spec fn remote(self) -> Seq<char> {
        match self {
            RequestView::Upload { remote_path, .. } => remote_path,
            RequestView::Download { remote_path, .. } => remote_path,
            RequestView::UploadDir { remote_path, .. } => remote_path,
            RequestView::DownloadDir { remote_path, .. } => remote_path,
        }
    }

    /// Where the transfer reads.
    pub open spec fn from(self) -> Seq<char> {
        if self.is_upload() {
            self.local()
        } else {
            self.remote()
        }
    }

    /// Where the transfer writes.
    pub open spec fn to(self) -> Seq<char> {
        if self.is_upload() {
            self.remote()
        } else {
            self.local()
        }
    }

    /// A name below a path on the side that is read.
    pub open spec fn child_from(self, dir: Seq<char>, name: Seq<char>) -> Seq<char> {
        if self.is_upload() {
            join(dir, name)
        } else {
            remote_join(dir, name)
        }
    }

    /// A name below a path on the side that is written.
    pub open spec fn child_to(self, dir: Seq<char>, name: Seq<char>) -> Seq<char> {
        if self.is_upload() {
            remote_join(dir, name)
        } else {
            join(dir, name)
        }
    }

    /// The name shown while the transfer runs.
    pub open spec fn file_name(self) -> Seq<char> {
        if self.is_upload() {
            match file_name(self.local()) {
                Some(name) => name,
                None => seq![],
            }
        } else {
            after_last_slash(self.remote())
        }
    }

    /// The label shown while the transfer runs.
    pub open spec fn label(self) -> Seq<char> {
        match self {
            RequestView::Upload { .. } => "Uploading"@,
            RequestView::Download { .. } => "Downloading"@,
            RequestView::UploadDir { .. } => "Uploading dir"@,
            RequestView::DownloadDir { .. } => "Downloading dir"@,
        }
    }

    /// What a source that cannot be opened is reported as.
    pub open spec fn open_prefix(self) -> Seq<char> {
        match self {
            RequestView::Upload { .. } => "open local file: "@,
            RequestView::Download { .. } => "open remote file failed: "@,
            RequestView::UploadDir { .. } => "open local: "@,
            RequestView::DownloadDir { .. } => "open remote: "@,
        }
    }

    /// What a target that cannot be created is reported as.
    pub open spec fn create_prefix(self) -> Seq<char> {
        match self {
            RequestView::Upload { .. } => "create remote file: "@,
            RequestView::Download { .. } => "create local file: "@,
            RequestView::UploadDir { .. } => "create remote: "@,
            RequestView::DownloadDir { .. } => "create local: "@,
        }
    }
}

impl TransferRequest {
    fn is_upload(&self) -> (yes: bool)
        ensures
            yes == self@.is_upload(),
    {
        matches!(self, TransferRequest::Upload { .. } | TransferRequest::UploadDir { .. })
    }

    fn local(&self) -> (path: String)
        ensures
            path@ == self@.local(),
    {
        match self {
            TransferRequest::Upload { local_path, .. } => local_path.clone(),
            TransferRequest::Download { local_path, .. } => local_path.clone(),
            TransferRequest::UploadDir { local_path, .. } => local_path.clone(),
            TransferRequest::DownloadDir { local_path, .. } => local_path.clone(),
        }
    }

    fn remote(&self) -> (path: String)
        ensures
            path@ == self@.remote(),
    {
        match self {
            TransferRequest::Upload { remote_path, .. } => remote_path.clone(),
            TransferRequest::Download { remote_path, .. } => remote_path.clone(),
            TransferRequest::UploadDir { remote_path, .. } => remote_path.clone(),
            TransferRequest::DownloadDir { remote_path, .. } => remote_path.clone(),
        }
    }

    fn from(&self) -> (path: String)
        ensures
            path@ == self@.from(),
    {
        if self.is_upload() {
            self.local()
        } else {
            self.remote()
        }
    }

    fn to(&self) -> (path: String)
        ensures
            path@ == self@.to(),
    {
        if self.is_upload() {
            self.remote()
        } else {
            self.local()
        }
    }

    fn child_from(&self, dir: &str, name: &str) -> (path: String)
        ensures
            path@ == self@.child_from(dir@, name@),
    {
        if self.is_upload() {
            join_local(dir, name)
        } else {
            join_remote(dir, name)
        }
    }

    fn child_to(&self, dir: &str, name: &str) -> (path: String)
        ensures
            path@ == self@.child_to(dir@, name@),
    {
        if self.is_upload() {
            join_remote(dir, name)
        } else {
            join_local(dir, name)
        }
    }

    fn open_error(&self, message: &str) -> (text: String)
        ensures
            text@ == self@.open_prefix() + message@,
    {
        let prefix = match self {
            TransferRequest::Upload { .. } => "open local file: ",
            TransferRequest::Download { .. } => "open remote file failed: ",
            TransferRequest::UploadDir { .. } => "open local: ",
            TransferRequest::DownloadDir { .. } => "open remote: ",
        };
        concat(prefix, message)
    }

    fn create_error(&self, message: &str) -> (text: String)
        ensures
            text@ == self@.create_prefix() + message@,
    {
        let prefix = match self {
            TransferRequest::Upload { .. } => "create remote file: ",
            TransferRequest::Download { .. } => "create local file: ",
            TransferRequest::UploadDir { .. } => "create remote: ",
            TransferRequest::DownloadDir { .. } => "create local: ",
        };
        concat(prefix, message)
    }
}

/// The state of a transfer. It leaves `InProgress` once and for all.
#[derive(Debug, PartialEq, Eq)]
pub enum TransferStatus {
    InProgress,
    Completed,
    Failed(String),
    Cancelled,
}

/// The model of a transfer's state.
#[verifier::ext_equal]
pub enum TransferStatusView {
    InProgress,
    Completed,
    Failed(Seq<char>),
    Cancelled,
}

impl View for TransferStatus {
    type V = TransferStatusView;

    open spec fn view(&self) -> TransferStatusView {
        match self {
            TransferStatus::InProgress => TransferStatusView::InProgress,
            TransferStatus::Completed => TransferStatusView::Completed,
            TransferStatus::Failed(message) => TransferStatusView::Failed(message@),
            TransferStatus::Cancelled => TransferStatusView::Cancelled,
        }
    }
}

impl Clone for TransferStatus {
    fn clone(&self) -> (r: Self)
        ensures
            r@ == self@,
    {
        match self {
            TransferStatus::InProgress => TransferStatus::InProgress,
            TransferStatus::Completed => TransferStatus::Completed,
            TransferStatus::Failed(message) => TransferStatus::Failed(message.clone()),
            TransferStatus::Cancelled => TransferStatus::Cancelled,
        }
    }
}

/// How far a transfer has come.
#[derive(Debug)]
pub struct TransferProgress {
    pub file_name: String,
    pub label: String,
    pub bytes_transferred: u64,
    pub total_bytes: u64,
    pub status: TransferStatus,
}

/// The model of a transfer's progress.
#[verifier::ext_equal]
pub struct ProgressView {
    pub file_name: Seq<char>,
    pub label: Seq<char>,
    pub bytes_transferred: u64,
    pub total_bytes: u64,
    pub status: TransferStatusView,
}

impl View for TransferProgress {
    type V = ProgressView;

    open spec fn view(&self) -> ProgressView {
        ProgressView {
            file_name: self.file_name@,
            label: self.label@,
            bytes_transferred: self.bytes_transferred,
            total_bytes: self.total_bytes,
            status: self.status@,
        }
    }
}

impl Clone for TransferProgress {
    fn clone(&self) -> (r: Self)
        ensures
            r@ == self@,
    {
        TransferProgress {
            file_name: self.file_name.clone(),
            label: self.label.clone(),
            bytes_transferred: self.bytes_transferred,
            total_bytes: self.total_bytes,
            status: self.status.clone(),
        }
    }
}

/// Something that a transfer asks of the file systems.
#[derive(Debug, PartialEq, Eq)]
pub enum TransferIo {
    /// Read the size of a local file.
    StatLocal(String),
    /// Read the size of a remote file.
    StatRemote(String),
    /// Open a local file to read from.
    OpenLocal(String),
    /// Open a remote file to read from.
    OpenRemote(String),
    /// Create a local file to write to.
    CreateLocal(String),
    /// Create a remote file to write to.
    CreateRemote(String),
    /// Copy one chunk between the two open files.
    CopyChunk,
    /// Create a local directory, with those above it.
    MakeLocalDirs(String),
    /// Create a remote directory.
    MakeRemoteDir(String),
    /// See whether a remote path exists.
    CheckRemote(String),
    /// List a local directory.
    ListLocal(String),
    /// List a remote directory.
    ListRemote(String),
    /// Remove a local file, if it is there.
    RemoveLocal(String),
    /// Close and remove a remote file, if it is there.
    RemoveRemote(String),
    /// Nothing is left to do.
    Finish,
}

/// The model of a question to the file systems.
#[verifier::ext_equal]
pub enum IoView {
    StatLocal(Seq<char>),
    StatRemote(Seq<char>),
    OpenLocal(Seq<char>),
    OpenRemote(Seq<char>),
    CreateLocal(Seq<char>),
    CreateRemote(Seq<char>),
    CopyChunk,
    MakeLocalDirs(Seq<char>),
    MakeRemoteDir(Seq<char>),
    CheckRemote(Seq<char>),
    ListLocal(Seq<char>),
    ListRemote(Seq<char>),
    RemoveLocal(Seq<char>),
    RemoveRemote(Seq<char>),
    Finish,
}

impl View for TransferIo {
    type V = IoView;

    open spec fn view(&self) -> IoView {
        match self {
            TransferIo::StatLocal(path) => IoView::StatLocal(path@),
            TransferIo::StatRemote(path) => IoView::StatRemote(path@),
            TransferIo::OpenLocal(path) => IoView::OpenLocal(path@),
            TransferIo::OpenRemote(path) => IoView::OpenRemote(path@),
            TransferIo::CreateLocal(path) => IoView::CreateLocal(path@),
            TransferIo::CreateRemote(path) => IoView::CreateRemote(path@),
            TransferIo::CopyChunk => IoView::CopyChunk,
            TransferIo::MakeLocalDirs(path) => IoView::MakeLocalDirs(path@),
            TransferIo::MakeRemoteDir(path) => IoView::MakeRemoteDir(path@),
            TransferIo::CheckRemote(path) => IoView::CheckRemote(path@),
            TransferIo::ListLocal(path) => IoView::ListLocal(path@),
            TransferIo::ListRemote(path) => IoView::ListRemote(path@),
            TransferIo::RemoveLocal(path) => IoView::RemoveLocal(path@),
            TransferIo::RemoveRemote(path) => IoView::RemoveRemote(path@),
            TransferIo::Finish => IoView::Finish,
        }
    }
}

/// One line of a listing: an entry, or why it could not be read.
#[derive(Debug)]
pub enum Listed {
    Entry(FileEntry),
    Unreadable(String),
}

/// The model of a line of a listing.
#[verifier::ext_equal]
pub enum ListedView {
    Entry(EntryView),
    Unreadable(Seq<char>),
}

impl View for Listed {
    type V = ListedView;

    open spec fn view(&self) -> ListedView {
        match self {
            Listed::Entry(entry) => ListedView::Entry(entry@),
            Listed::Unreadable(message) => ListedView::Unreadable(message@),
        }
    }
}

/// The models of a listing.
pub open spec fn listed_views(lines: Seq<Listed>) -> Seq<ListedView> {
    lines.map_values(|l: Listed| l@)
}

/// What the file systems answered.
#[derive(Debug)]
pub enum TransferReply {
    /// It was done.
    Done,
    /// The size of a file, if it is known.
    Size(Option<u64>),
    /// How many bytes were copied. Zero means that the source is at its end.
    Copied(u64),
    /// A listing.
    Listing(Vec<Listed>),
    /// The source could not be read.
    ReadFailed(String),
    /// The target could not be written.
    WriteFailed(String),
    /// It could not be done.
    Failed(String),
    /// There is no connection.
    NotConnected,
}

/// The model of an answer.
#[verifier::ext_equal]
pub enum ReplyView {
    Done,
    Size(Option<u64>),
    Copied(u64),
    Listing(Seq<ListedView>),
    ReadFailed(Seq<char>),
    WriteFailed(Seq<char>),
    Failed(Seq<char>),
    NotConnected,
}

impl View for TransferReply {
    type V = ReplyView;

    open spec fn view(&self) -> ReplyView {
        match self {
            TransferReply::Done => ReplyView::Done,
            TransferReply::Size(size) => ReplyView::Size(*size),
            TransferReply::Copied(n) => ReplyView::Copied(*n),
            TransferReply::Listing(lines) => ReplyView::Listing(listed_views(lines@)),
            TransferReply::ReadFailed(message) => ReplyView::ReadFailed(message@),
            TransferReply::WriteFailed(message) => ReplyView::WriteFailed(message@),
            TransferReply::Failed(message) => ReplyView::Failed(message@),
            TransferReply::NotConnected => ReplyView::NotConnected,
        }
    }
}

/// Part of a directory transfer that is still to be done.
#[derive(Debug)]
enum Job {
    Dir { from: String, to: String },
    File { from: String, to: String, name: String },
    Unreadable(String),
}

/// The model of a part.
#[verifier::ext_equal]
pub enum JobView {
    Dir { from: Seq<char>, to: Seq<char> },
    File { from: Seq<char>, to: Seq<char>, name: Seq<char> },
    Unreadable(Seq<char>),
}

impl View for Job {
    type V = JobView;

    closed spec fn view(&self) -> JobView {
        match self {
            Job::Dir { from, to } => JobView::Dir { from: from@, to: to@ },
            Job::File { from, to, name } => JobView::File { from: from@, to: to@, name: name@ },
            Job::Unreadable(message) => JobView::Unreadable(message@),
        }
    }
}

/// What a transfer is waiting for.
#[derive(Debug)]
enum Stage {
    Start,
    Sizing,
    Measuring(String),
    MakingDir { from: String, to: String },
    CheckingDir { from: String, to: String, message: String },
    Listing { from: String, to: String },
    Opening(String),
    Creating,
    Copying,
    Cleaning(TransferStatus),
    Ended,
}

/// The model of what a transfer is waiting for.
#[verifier::ext_equal]
pub enum StageView {
    Start,
    Sizing,
    Measuring(Seq<char>),
    MakingDir { from: Seq<char>, to: Seq<char> },
    CheckingDir { from: Seq<char>, to: Seq<char>, message: Seq<char> },
    Listing { from: Seq<char>, to: Seq<char> },
    Opening(Seq<char>),
    Creating,
    Copying,
    Cleaning(TransferStatusView),
    Ended,
}

impl View for Stage {
    type V = StageView;

    closed spec fn view(&self) -> StageView {
        match self {
            Stage::Start => StageView::Start,
            Stage::Sizing => StageView::Sizing,
            Stage::Measuring(path) => StageView::Measuring(path@),
            Stage::MakingDir { from, to } => StageView::MakingDir { from: from@, to: to@ },
            Stage::CheckingDir { from, to, message } => StageView::CheckingDir {
                from: from@,
                to: to@,
                message: message@,
            },
            Stage::Listing { from, to } => StageView::Listing { from: from@, to: to@ },
            Stage::Opening(to) => StageView::Opening(to@),
            Stage::Creating => StageView::Creating,
            Stage::Copying => StageView::Copying,
            Stage::Cleaning(status) => StageView::Cleaning(status@),
            Stage::Ended => StageView::Ended,
        }
    }
}

/// A transfer that is under way.
///
/// `step` takes the answer to the last question and returns the next one. Setting
/// `cancel` ends the transfer at the next chunk or entry.
#[derive(Debug)]
pub struct TransferHandle {
    pub progress: TransferProgress,
    pub cancel: bool,
    request: TransferRequest,
    stage: Stage,
    unmeasured: Vec<String>,
    total: u64,
    jobs: Vec<Job>,
}

/// The model of a transfer that is under way.
#[verifier::ext_equal]
pub struct HandleView {
    pub progress: ProgressView,
    pub cancel: bool,
    pub request: RequestView,
    pub stage: StageView,
    /// The directories whose sizes are still to be summed up.
    pub unmeasured: Seq<Seq<char>>,
    /// The sum of the sizes so far.
    pub total: u64,
    /// What is still to be done, the next part at the end.
    pub jobs: Seq<JobView>,
}

impl View for TransferHandle {
    type V = HandleView;

    closed spec fn view(&self) -> HandleView {
        HandleView {
            progress: self.progress@,
            cancel: self.cancel,
            request: self.request@,
            stage: self.stage@,
            unmeasured: self.unmeasured@.map_values(|p: String| p@),
            total: self.total,
            jobs: self.jobs@.map_values(|j: Job| j@),
        }
    }
}

/// A sum that stays at the largest number where it would pass it.
pub open spec fn plus(a: u64, b: u64) -> u64 {
    if a + b > u64::MAX {
        u64::MAX
    } else {
        (a + b) as u64
    }
}

/// The sizes of the files of a listing, added to a sum.
pub open spec fn plus_files(total: u64, lines: Seq<ListedView>) -> u64
    decreases lines.len(),
{
    if lines.len() == 0 {
        total
    } else {
        let rest = plus_files(total, lines.drop_last());
        match lines.last() {
            ListedView::Entry(entry) => if entry.is_dir {
                rest
            } else {
                plus(rest, entry.size)
            },
            ListedView::Unreadable(_) => rest,
        }
    }
}

/// The directories of a listing, below the directory that was listed.
pub open spec fn subdirs(request: RequestView, dir: Seq<char>, lines: Seq<ListedView>) -> Seq<
    Seq<char>,
>
    decreases lines.len(),
{
    if lines.len() == 0 {
        seq![]
    } else {
        let rest = subdirs(request, dir, lines.drop_last());
        match lines.last() {
            ListedView::Entry(entry) => if entry.is_dir {
                rest.push(request.child_from(dir, entry.name))
            } else {
                rest
            },
            ListedView::Unreadable(_) => rest,
        }
    }
}

/// What a line of a listing asks to be done.
pub open spec fn line_job(
    request: RequestView,
    from: Seq<char>,
    to: Seq<char>,
    line: ListedView,
) -> JobView {
    match line {
        ListedView::Entry(entry) => {
            let child_from = request.child_from(from, entry.name);
            let child_to = request.child_to(to, entry.name);
            if entry.is_dir {
                JobView::Dir { from: child_from, to: child_to }
            } else {
                JobView::File { from: child_from, to: child_to, name: entry.name }
            }
        },
        ListedView::Unreadable(message) => JobView::Unreadable(message),
    }
}

impl HandleView {
    /// The transfer ended with a status.
    pub open spec fn ended(self, status: TransferStatusView) -> (HandleView, IoView) {
        (
            HandleView {
                progress: ProgressView { status, ..self.progress },
                stage: StageView::Ended,
                ..self
            },
            IoView::Finish,
        )
    }

    /// The transfer failed. A partly transferred file is removed first: that of a
    /// download always, that of an upload once it was created.
    pub open spec fn failed(self, message: Seq<char>) -> (HandleView, IoView) {
        let cleaning = HandleView {
            stage: StageView::Cleaning(TransferStatusView::Failed(message)),
            ..self
        };
        if self.request is Download {
            (cleaning, IoView::RemoveLocal(self.request.local()))
        } else if self.request is Upload && self.stage is Copying {
            (cleaning, IoView::RemoveRemote(self.request.remote()))
        } else {
            self.ended(TransferStatusView::Failed(message))
        }
    }

    /// The transfer was cancelled. A partly transferred file is removed first.
    pub open spec fn cancelled(self) -> (HandleView, IoView) {
        let cleaning = HandleView {
            stage: StageView::Cleaning(TransferStatusView::Cancelled),
            ..self
        };
        if self.request is Download {
            (cleaning, IoView::RemoveLocal(self.request.local()))
        } else if self.request is Upload {
            (cleaning, IoView::RemoveRemote(self.request.remote()))
        } else {
            self.ended(TransferStatusView::Cancelled)
        }
    }

    /// A file is to be copied: its source is opened.
    pub open spec fn open_file(self, from: Seq<char>, to: Seq<char>) -> (HandleView, IoView) {
        (
            HandleView { stage: StageView::Opening(to), ..self },
            if self.request.is_upload() {
                IoView::OpenLocal(from)
            } else {
                IoView::OpenRemote(from)
            },
        )
    }

    /// A directory is to be created on the side that is written.
    pub open spec fn make_dir(self, from: Seq<char>, to: Seq<char>) -> (HandleView, IoView) {
        (
            HandleView { stage: StageView::MakingDir { from, to }, ..self },
            if self.request.is_upload() {
                IoView::MakeRemoteDir(to)
            } else {
                IoView::MakeLocalDirs(to)
            },
        )
    }

    /// A directory is to be listed on the side that is read.
    pub open spec fn list_io(self, from: Seq<char>) -> IoView {
        if self.request.is_upload() {
            IoView::ListLocal(from)
        } else {
            IoView::ListRemote(from)
        }
    }

    /// The next chunk, unless the transfer is to be cancelled.
    pub open spec fn next_chunk(self) -> (HandleView, IoView) {
        if self.cancel {
            self.cancelled()
        } else {
            (HandleView { stage: StageView::Copying, ..self }, IoView::CopyChunk)
        }
    }

    /// The next part, unless nothing is left or the transfer is to be cancelled.
    pub open spec fn next_job(self) -> (HandleView, IoView) {
        if self.jobs.len() == 0 {
            self.ended(TransferStatusView::Completed)
        } else if self.cancel {
            self.cancelled()
        } else {
            let rest = HandleView { jobs: self.jobs.drop_last(), ..self };
            match self.jobs.last() {
                JobView::Dir { from, to } => rest.make_dir(from, to),
                JobView::File { from, to, name } => (HandleView {
                    progress: ProgressView { file_name: name, ..rest.progress },
                    ..rest
                }).open_file(from, to),
                JobView::Unreadable(message) => rest.failed(message),
            }
        }
    }

    /// The next directory whose sizes are summed up, or the start of the copy.
    pub open spec fn next_measure(self) -> (HandleView, IoView) {
        if self.unmeasured.len() == 0 {
            (HandleView {
                progress: ProgressView { total_bytes: self.total, ..self.progress },
                ..self
            }).make_dir(self.request.from(), self.request.to())
        } else {
            let dir = self.unmeasured.last();
            (
                HandleView {
                    unmeasured: self.unmeasured.drop_last(),
                    stage: StageView::Measuring(dir),
                    ..self
                },
                self.list_io(dir),
            )
        }
    }

    /// A listing was read while sizes are summed up.
    pub open spec fn measured(self, dir: Seq<char>, lines: Seq<ListedView>) -> (HandleView, IoView) {
        (HandleView {
            total: plus_files(self.total, lines),
            unmeasured: self.unmeasured + subdirs(self.request, dir, lines),
            ..self
        }).next_measure()
    }

    /// A listing was read while files are copied: its lines come next, in order.
    pub open spec fn listed(self, from: Seq<char>, to: Seq<char>, lines: Seq<ListedView>) -> (
        HandleView,
        IoView,
    ) {
        (HandleView {
            jobs: self.jobs + lines.map_values(
                |l: ListedView| line_job(self.request, from, to, l),
            ).reverse(),
            ..self
        }).next_job()
    }

    /// The answer to the last question, and the next question.
    ///
    /// An answer that does not belong to the question ends the transfer.
    pub open spec fn step(self, reply: ReplyView) -> (HandleView, IoView) {
        let unexpected = self.failed("unexpected reply"@);
        match (self.stage, reply) {
            (StageView::Ended, _) => (self, IoView::Finish),
            (StageView::Cleaning(status), _) => self.ended(status),
            (StageView::Start, _) => if self.request.is_tree() {
                (HandleView { unmeasured: seq![self.request.from()], ..self }).next_measure()
            } else {
                (
                    HandleView { stage: StageView::Sizing, ..self },
                    if self.request.is_upload() {
                        IoView::StatLocal(self.request.from())
                    } else {
                        IoView::StatRemote(self.request.from())
                    },
                )
            },
            (_, ReplyView::NotConnected) => self.failed("Not connected"@),
            (StageView::Sizing, ReplyView::Size(size)) => (HandleView {
                progress: ProgressView {
                    total_bytes: match size {
                        Some(n) => n,
                        None => 0,
                    },
                    ..self.progress
                },
                ..self
            }).open_file(self.request.from(), self.request.to()),
            (StageView::Sizing, ReplyView::Failed(message)) => if self.request.is_upload() {
                (HandleView {
                    progress: ProgressView { total_bytes: 0, ..self.progress },
                    ..self
                }).open_file(self.request.from(), self.request.to())
            } else {
                self.failed("stat failed: "@ + message)
            },
            (StageView::Measuring(dir), ReplyView::Listing(lines)) => self.measured(dir, lines),
            (StageView::Measuring(dir), ReplyView::Failed(message)) => {
                if self.request.is_upload() {
                    self.measured(dir, seq![])
                } else {
                    self.failed(message)
                }
            },
            (StageView::MakingDir { from, to }, ReplyView::Done) => (
                HandleView { stage: StageView::Listing { from, to }, ..self },
                self.list_io(from),
            ),
            (StageView::MakingDir { from, to }, ReplyView::Failed(message)) => {
                if self.request.is_upload() {
                    (
                        HandleView { stage: StageView::CheckingDir { from, to, message }, ..self },
                        IoView::CheckRemote(to),
                    )
                } else {
                    self.failed("mkdir local: "@ + message)
                }
            },
            (StageView::CheckingDir { from, to, message }, ReplyView::Done) => (
                HandleView { stage: StageView::Listing { from, to }, ..self },
                self.list_io(from),
            ),
            (StageView::CheckingDir { from, to, message }, ReplyView::Failed(_)) => self.failed(
                "mkdir '"@ + to + "': "@ + message,
            ),
            (StageView::Listing { from, to }, ReplyView::Listing(lines)) => self.listed(
                from,
                to,
                lines,
            ),
            (StageView::Listing { from, to }, ReplyView::Failed(message)) => {
                if self.request.is_upload() {
                    self.failed("read local dir: "@ + message)
                } else {
                    self.failed(message)
                }
            },
            (StageView::Opening(to), ReplyView::Done) => (
                HandleView { stage: StageView::Creating, ..self },
                if self.request.is_upload() {
                    IoView::CreateRemote(to)
                } else {
                    IoView::CreateLocal(to)
                },
            ),
            (StageView::Opening(to), ReplyView::Failed(message)) => self.failed(
                self.request.open_prefix() + message,
            ),
            (StageView::Creating, ReplyView::Done) => self.next_chunk(),
            (StageView::Creating, ReplyView::Failed(message)) => self.failed(
                self.request.create_prefix() + message,
            ),
            (StageView::Copying, ReplyView::Copied(n)) => if n == 0 {
                self.next_job()
            } else {
                (HandleView {
                    progress: ProgressView {
                        bytes_transferred: plus(self.progress.bytes_transferred, n),
                        ..self.progress
                    },
                    ..self
                }).next_chunk()
            },
            (StageView::Copying, ReplyView::ReadFailed(message)) => self.failed(
                "read: "@ + message,
            ),
            (StageView::Copying, ReplyView::WriteFailed(message)) => self.failed(
                "write: "@ + message,
            ),
            _ => unexpected,
        }
    }

    /// Whether the status agrees with what the transfer is waiting for.
    pub open spec fn wf(self) -> bool {
        (self.progress.status is InProgress) == !(self.stage is Ended) && (
        self.stage matches StageView::Cleaning(status) ==> !(status is InProgress))
    }
}

/// The first question of a transfer that was just requested.
pub open spec fn requested(request: RequestView) -> HandleView {
    HandleView {
        progress: ProgressView {
            file_name: request.file_name(),
            label: request.label(),
            bytes_transferred: 0,
            total_bytes: 0,
            status: TransferStatusView::InProgress,
        },
        cancel: false,
        request,
        stage: StageView::Start,
        unmeasured: seq![],
        total: 0,
        jobs: seq![],
    }
}

/// Starts a transfer. The first `step` takes any reply and asks the first question.
pub fn spawn_transfer(request: TransferRequest) -> (handle: TransferHandle)
    ensures
        handle@ == requested(request@),
        handle@.wf(),
{
    let (file_name, label) = match &request {
        TransferRequest::Upload { local_path, .. } => (
            name_or_empty(local_path.as_str()),
            "Uploading".to_string(),
        ),
        TransferRequest::Download { remote_path, .. } => (
            last_part(remote_path.as_str()),
            "Downloading".to_string(),
        ),
        TransferRequest::UploadDir { local_path, .. } => (
            name_or_empty(local_path.as_str()),
            "Uploading dir".to_string(),
        ),
        TransferRequest::DownloadDir { remote_path, .. } => (
            last_part(remote_path.as_str()),
            "Downloading dir".to_string(),
        ),
    };
    let progress = TransferProgress {
        file_name,
        label,
        bytes_transferred: 0,
        total_bytes: 0,
        status: TransferStatus::InProgress,
    };
    let unmeasured: Vec<String> = Vec::new();
    let jobs: Vec<Job> = Vec::new();
    let handle = TransferHandle {
        progress,
        cancel: false,
        request,
        stage: Stage::Start,
        unmeasured,
        total: 0,
        jobs,
    };
    assert(handle@ =~= requested(request@));
    handle
}

fn name_or_empty(path: &str) -> (name: String)
    ensures
        name@ == (match file_name(path@) {
            Some(name) => name,
            None => seq![],
        }),
{
    match file_name_of(path) {
        Some(name) => name,
        None => String::new(),
    }
}

fn saturating_sum(a: u64, b: u64) -> (s: u64)
    ensures
        s == plus(a, b),
{
    if a > u64::MAX - b {
        u64::MAX
    } else {
        a + b
    }
}

impl TransferHandle {
    fn ended(&mut self, status: TransferStatus) -> (io: TransferIo)
        ensures
            (final(self)@, io@) == old(self)@.ended(status@),
    {
        self.progress.status = status;
        self.stage = Stage::Ended;
        TransferIo::Finish
    }

    fn failed(&mut self, message: String) -> (io: TransferIo)
        ensures
            (final(self)@, io@) == old(self)@.failed(message@),
    {
        if matches!(self.request, TransferRequest::Download { .. }) {
            self.stage = Stage::Cleaning(TransferStatus::Failed(message));
            TransferIo::RemoveLocal(self.request.local())
        } else if matches!(self.request, TransferRequest::Upload { .. }) && matches!(
            self.stage,
            Stage::Copying
        ) {
            self.stage = Stage::Cleaning(TransferStatus::Failed(message));
            TransferIo::RemoveRemote(self.request.remote())
        } else {
            self.ended(TransferStatus::Failed(message))
        }
    }

    fn cancelled(&mut self) -> (io: TransferIo)
        ensures
            (final(self)@, io@) == old(self)@.cancelled(),
    {
        if matches!(self.request, TransferRequest::Download { .. }) {
            self.stage = Stage::Cleaning(TransferStatus::Cancelled);
            TransferIo::RemoveLocal(self.request.local())
        } else if matches!(self.request, TransferRequest::Upload { .. }) {
            self.stage = Stage::Cleaning(TransferStatus::Cancelled);
            TransferIo::RemoveRemote(self.request.remote())
        } else {
            self.ended(TransferStatus::Cancelled)
        }
    }

    fn open_file(&mut self, from: String, to: String) -> (io: TransferIo)
        ensures
            (final(self)@, io@) == old(self)@.open_file(from@, to@),
    {
        self.stage = Stage::Opening(to);
        if self.request.is_upload() {
            TransferIo::OpenLocal(from)
        } else {
            TransferIo::OpenRemote(from)
        }
    }

    fn make_dir(&mut self, from: String, to: String) -> (io: TransferIo)
        ensures
            (final(self)@, io@) == old(self)@.make_dir(from@, to@),
    {
        let target = to.clone();
        self.stage = Stage::MakingDir { from, to };
        if self.request.is_upload() {
            TransferIo::MakeRemoteDir(target)
        } else {
            TransferIo::MakeLocalDirs(target)
        }
    }

    fn list_io(&self, from: String) -> (io: TransferIo)
        ensures
            io@ == self@.list_io(from@),
    {
        if self.request.is_upload() {
            TransferIo::ListLocal(from)
        } else {
            TransferIo::ListRemote(from)
        }
    }

    fn next_chunk(&mut self) -> (io: TransferIo)
        ensures
            (final(self)@, io@) == old(self)@.next_chunk(),
    {
        if self.cancel {
            self.cancelled()
        } else {
            self.stage = Stage::Copying;
            TransferIo::CopyChunk
        }
    }

    fn next_job(&mut self) -> (io: TransferIo)
        ensures
            (final(self)@, io@) == old(self)@.next_job(),
    {
        if self.jobs.len() == 0 {
            return self.ended(TransferStatus::Completed);
        }
        if self.cancel {
            return self.cancelled();
        }
        let ghost given = self@;
        let ghost all = self.jobs@;
        let job = self.jobs.pop().unwrap();
        assert(self@.jobs =~= given.jobs.drop_last());
        assert(job@ == given.jobs.last());
        match job {
            Job::Dir { from, to } => self.make_dir(from, to),
            Job::File { from, to, name } => {
                self.progress.file_name = name;
                self.open_file(from, to)
            },
            Job::Unreadable(message) => self.failed(message),
        }
    }

    fn next_measure(&mut self) -> (io: TransferIo)
        ensures
            (final(self)@, io@) == old(self)@.next_measure(),
    {
        if self.unmeasured.len() == 0 {
            self.progress.total_bytes = self.total;
            let from = self.request.from();
            let to = self.request.to();
            return self.make_dir(from, to);
        }
        let ghost given = self@;
        let dir = self.unmeasured.pop().unwrap();
        assert(self@.unmeasured =~= given.unmeasured.drop_last());
        assert(dir@ == given.unmeasured.last());
        self.stage = Stage::Measuring(dir.clone());
        self.list_io(dir)
    }

    fn measured(&mut self, dir: &str, lines: &Vec<Listed>) -> (io: TransferIo)
        ensures
            (final(self)@, io@) == old(self)@.measured(dir@, listed_views(lines@)),
    {
        let ghost given = self@;
        let ghost all = listed_views(lines@);
        assert(all.take(0) =~= seq![]);
        assert(given.unmeasured + subdirs(given.request, dir@, all.take(0)) =~= given.unmeasured);
        for i in 0..lines.len()
            invariant
                all == listed_views(lines@),
                self@ == (HandleView {
                    total: plus_files(given.total, all.take(i as int)),
                    unmeasured: given.unmeasured + subdirs(
                        given.request,
                        dir@,
                        all.take(i as int),
                    ),
                    ..given
                }),
        {
            let ghost before = self@;
            assert(all.take(i + 1).drop_last() =~= all.take(i as int));
            assert(all.take(i + 1).last() == lines@[i as int]@);
            if let Listed::Entry(entry) = &lines[i] {
                if entry.is_dir {
                    let child = self.request.child_from(dir, entry.name.as_str());
                    self.unmeasured.push(child);
                    assert(self@.unmeasured =~= before.unmeasured.push(child@));
                } else {
                    self.total = saturating_sum(self.total, entry.size);
                }
            }
            assert(self@ =~= (HandleView {
                total: plus_files(given.total, all.take(i + 1)),
                unmeasured: given.unmeasured + subdirs(given.request, dir@, all.take(i + 1)),
                ..given
            }));
        }
        assert(all.take(all.len() as int) =~= all);
        self.next_measure()
    }

    fn listed(&mut self, from: &str, to: &str, lines: Vec<Listed>) -> (io: TransferIo)
        ensures
            (final(self)@, io@) == old(self)@.listed(from@, to@, listed_views(lines@)),
    {
        let ghost given = self@;
        let ghost all = listed_views(lines@);
        let ghost parts = all.map_values(|l: ListedView| line_job(given.request, from@, to@, l));
        let n = lines.len();
        let mut i: usize = n;
        assert(given.jobs + parts.skip(n as int).reverse() =~= given.jobs);
        while i > 0
            invariant
                i <= n == lines@.len(),
                all == listed_views(lines@),
                parts == all.map_values(|l: ListedView| line_job(given.request, from@, to@, l)),
                self@ == (HandleView {
                    jobs: given.jobs + parts.skip(i as int).reverse(),
                    ..given
                }),
            decreases i,
        {
            let ghost before = self@;
            i = i - 1;
            let job = match &lines[i] {
                Listed::Entry(entry) => {
                    let child_from = self.request.child_from(from, entry.name.as_str());
                    let child_to = self.request.child_to(to, entry.name.as_str());
                    if entry.is_dir {
                        Job::Dir { from: child_from, to: child_to }
                    } else {
                        Job::File { from: child_from, to: child_to, name: entry.name.clone() }
                    }
                },
                Listed::Unreadable(message) => Job::Unreadable(message.clone()),
            };
            assert(job@ == parts[i as int]);
            self.jobs.push(job);
            assert(self@.jobs =~= before.jobs.push(job@));
            assert(parts.skip(i as int).reverse() =~= parts.skip(i + 1).reverse().push(
                parts[i as int],
            ));
            assert(self@ =~= (HandleView {
                jobs: given.jobs + parts.skip(i as int).reverse(),
                ..given
            }));
        }
        assert(parts.skip(0) =~= parts);
        self.next_job()
    }

    /// How far the transfer has come.
    pub fn progress(&self) -> (progress: &TransferProgress)
        ensures
            progress@ == self@.progress,
    {
        &self.progress
    }

    /// Whether the transfer is still under way.
    pub fn in_progress(&self) -> (yes: bool)
        ensures
            yes == (self@.progress.status is InProgress),
    {
        matches!(self.progress.status, TransferStatus::InProgress)
    }

    /// Asks for the transfer to be cancelled.
    pub fn request_cancel(&mut self)
        ensures
            final(self)@ == (HandleView { cancel: true, ..old(self)@ }),
    {
        self.cancel = true;
    }

    /// Takes the answer to the last question and returns the next one.
    pub fn step(&mut self, reply: TransferReply) -> (io: TransferIo)
        ensures
            (final(self)@, io@) == old(self)@.step(reply@),
    {
        if matches!(self.stage, Stage::Ended) {
            return TransferIo::Finish;
        }
        if let Stage::Cleaning(status) = &self.stage {
            let status = status.clone();
            return self.ended(status);
        }
        if matches!(self.stage, Stage::Start) {
            let from = self.request.from();
            if matches!(
                self.request,
                TransferRequest::UploadDir { .. } | TransferRequest::DownloadDir { .. }
            ) {
                self.unmeasured = vec![from];
                assert(self@.unmeasured =~= seq![from@]);
                return self.next_measure();
            }
            self.stage = Stage::Sizing;
            return if self.request.is_upload() {
                TransferIo::StatLocal(from)
            } else {
                TransferIo::StatRemote(from)
            };
        }
        match reply {
            TransferReply::NotConnected => self.failed("Not connected".to_string()),
            TransferReply::Size(size) => {
                if matches!(self.stage, Stage::Sizing) {
                    let total: u64 = match size {
                        Some(n) => n,
                        None => 0,
                    };
                    self.progress.total_bytes = total;
                    let from = self.request.from();
                    let to = self.request.to();
                    self.open_file(from, to)
                } else {
                    self.failed("unexpected reply".to_string())
                }
            },
            TransferReply::Copied(n) => {
                if !matches!(self.stage, Stage::Copying) {
                    self.failed("unexpected reply".to_string())
                } else if n == 0 {
                    self.next_job()
                } else {
                    self.progress.bytes_transferred = saturating_sum(
                        self.progress.bytes_transferred,
                        n,
                    );
                    self.next_chunk()
                }
            },
            TransferReply::Listing(lines) => {
                if let Stage::Measuring(dir) = &self.stage {
                    let dir = dir.clone();
                    self.measured(dir.as_str(), &lines)
                } else if let Stage::Listing { from, to } = &self.stage {
                    let from = from.clone();
                    let to = to.clone();
                    self.listed(from.as_str(), to.as_str(), lines)
                } else {
                    self.failed("unexpected reply".to_string())
                }
            },
            TransferReply::ReadFailed(message) => {
                if matches!(self.stage, Stage::Copying) {
                    self.failed(concat("read: ", message.as_str()))
                } else {
                    self.failed("unexpected reply".to_string())
                }
            },
            TransferReply::WriteFailed(message) => {
                if matches!(self.stage, Stage::Copying) {
                    self.failed(concat("write: ", message.as_str()))
                } else {
                    self.failed("unexpected reply".to_string())
                }
            },
            TransferReply::Done => self.step_done(),
            TransferReply::Failed(message) => self.step_failed(message),
        }
    }

    fn step_done(&mut self) -> (io: TransferIo)
        requires
            !(old(self)@.stage is Ended || old(self)@.stage is Cleaning || old(self)@.stage is Start),
        ensures
            (final(self)@, io@) == old(self)@.step(ReplyView::Done),
    {
        if let Stage::MakingDir { from, to } = &self.stage {
            let from = from.clone();
            let to = to.clone();
            let dir = from.clone();
            self.stage = Stage::Listing { from, to };
            self.list_io(dir)
        } else if let Stage::CheckingDir { from, to, message } = &self.stage {
            let from = from.clone();
            let to = to.clone();
            let dir = from.clone();
            self.stage = Stage::Listing { from, to };
            self.list_io(dir)
        } else if let Stage::Opening(to) = &self.stage {
            let to = to.clone();
            self.stage = Stage::Creating;
            if self.request.is_upload() {
                TransferIo::CreateRemote(to)
            } else {
                TransferIo::CreateLocal(to)
            }
        } else if matches!(self.stage, Stage::Creating) {
            self.next_chunk()
        } else {
            self.failed("unexpected reply".to_string())
        }
    }

    fn step_failed(&mut self, message: String) -> (io: TransferIo)
        requires
            !(old(self)@.stage is Ended || old(self)@.stage is Cleaning || old(self)@.stage is Start),
        ensures
            (final(self)@, io@) == old(self)@.step(ReplyView::Failed(message@)),
    {
        let upload = self.request.is_upload();
        if matches!(self.stage, Stage::Sizing) {
            if upload {
                self.progress.total_bytes = 0;
                let from = self.request.from();
                let to = self.request.to();
                self.open_file(from, to)
            } else {
                self.failed(concat("stat failed: ", message.as_str()))
            }
        } else if let Stage::Measuring(dir) = &self.stage {
            if upload {
                let dir = dir.clone();
                let none: Vec<Listed> = Vec::new();
                assert(listed_views(none@) =~= seq![]);
                self.measured(dir.as_str(), &none)
            } else {
                self.failed(message)
            }
        } else if let Stage::MakingDir { from, to } = &self.stage {
            if upload {
                let from = from.clone();
                let to = to.clone();
                let target = to.clone();
                self.stage = Stage::CheckingDir { from, to, message };
                TransferIo::CheckRemote(target)
            } else {
                self.failed(concat("mkdir local: ", message.as_str()))
            }
        } else if let Stage::CheckingDir { from, to, message } = &self.stage {
            let start = concat3("mkdir '", to.as_str(), "': ");
            let text = concat(start.as_str(), message.as_str());
            self.failed(text)
        } else if matches!(self.stage, Stage::Listing { .. }) {
            if upload {
                self.failed(concat("read local dir: ", message.as_str()))
            } else {
                self.failed(message)
            }
        } else if matches!(self.stage, Stage::Opening(_)) {
            let text = self.request.open_error(message.as_str());
            self.failed(text)
        } else if matches!(self.stage, Stage::Creating) {
            let text = self.request.create_error(message.as_str());
            self.failed(text)
        } else {
            self.failed("unexpected reply".to_string())
        }
    }
}

// ---------------------------------------------------------------------------
// What every transfer keeps
// ---------------------------------------------------------------------------

/// The status agrees with the stage after every step, and a transfer that has
/// left `InProgress` never changes again.
pub proof fn lemma_status_is_one_way(h: HandleView, reply: ReplyView)
    requires
        h.wf(),
    ensures
        h.step(reply).0.wf(),
        !(h.progress.status is InProgress) ==> h.step(reply) == (h, IoView::Finish),
{
}

/// Bytes are counted when a chunk was copied, and at no other time.
pub proof fn lemma_bytes_count_chunks(h: HandleView, reply: ReplyView)
    ensures
        h.step(reply).0.progress.bytes_transferred == (match (h.stage, reply) {
            (StageView::Copying, ReplyView::Copied(n)) => plus(h.progress.bytes_transferred, n),
            _ => h.progress.bytes_transferred,
        }),
        h.progress.bytes_transferred <= h.step(reply).0.progress.bytes_transferred,
{
}

/// A transfer asks for a chunk or starts the next part only while nobody wants
/// it cancelled.
pub proof fn lemma_cancel_is_honoured(h: HandleView, reply: ReplyView)
    requires
        h.cancel,
        h.stage is Copying || h.stage is Creating || h.stage is Listing,
    ensures
        !(h.step(reply).1 is CopyChunk),
        !(h.step(reply).1 is OpenLocal),
        !(h.step(reply).1 is OpenRemote),
        !(h.step(reply).1 is MakeLocalDirs),
        !(h.step(reply).1 is MakeRemoteDir),
{
}

/// A download that does not complete removes its file before it ends.
pub proof fn lemma_failed_download_is_removed(h: HandleView, reply: ReplyView)
    requires
        h.request is Download,
        !(h.stage is Ended),
        !(h.stage is Cleaning),
    ensures
        h.step(reply).0.stage is Ended ==> h.step(reply).0.progress.status is Completed,
        h.step(reply).0.stage is Cleaning ==> h.step(reply).1 == IoView::RemoveLocal(
            h.request.local(),
        ),
{
}

/// An upload that fails after its file was created removes the file, and has
/// failed whether or not that succeeds.
pub proof fn lemma_failed_upload_is_removed(h: HandleView, message: Seq<char>, reply: ReplyView)
    requires
        h.request is Upload,
        h.stage is Copying,
    ensures
        ({
            let read = h.step(ReplyView::ReadFailed(message));
            let write = h.step(ReplyView::WriteFailed(message));
            let removal = IoView::RemoveRemote(h.request.remote());
            &&& read.1 == removal
            &&& read.0.step(reply) == h.ended(TransferStatusView::Failed("read: "@ + message))
            &&& write.1 == removal
            &&& write.0.step(reply) == h.ended(TransferStatusView::Failed("write: "@ + message))
        }),
        h.step(reply).0.stage is Ended ==> h.step(reply).0.progress.status is Completed,
        h.step(reply).0.stage is Cleaning ==> h.step(reply).1 == IoView::RemoveRemote(
            h.request.remote(),
        ),
{
}

/// A cancelled upload removes its file before it ends.
pub proof fn lemma_cancelled_upload_is_removed(h: HandleView, reply: ReplyView)
    requires
        h.request is Upload,
        !(h.stage is Ended),
        !(h.stage is Cleaning),
    ensures
        !(h.step(reply).0.progress.status is Cancelled) || h.progress.status is Cancelled,
        h.step(reply).0.stage == StageView::Cleaning(TransferStatusView::Cancelled)
            ==> h.step(reply).1 == IoView::RemoveRemote(h.request.remote()),
{
}

/// The lines of a listing are taken up in their order, before anything that was
/// left to do.
pub proof fn lemma_lines_in_order(
    h: HandleView,
    from: Seq<char>,
    to: Seq<char>,
    lines: Seq<ListedView>,
)
    requires
        lines.len() > 0,
    ensures
        h.listed(from, to, lines) == (HandleView {
            jobs: (h.jobs + lines.skip(1).map_values(
                |l: ListedView| line_job(h.request, from, to, l),
            ).reverse()).push(line_job(h.request, from, to, lines[0])),
            ..h
        }).next_job(),
{
    let job = |l: ListedView| line_job(h.request, from, to, l);
    assert(h.jobs + lines.map_values(job).reverse() =~= (h.jobs + lines.skip(1).map_values(
        job,
    ).reverse()).push(job(lines[0])));
}

/// The sizes of the files below a directory of a file system, down to a depth.
pub open spec fn tree_bytes(
    files: spec_fn(Seq<char>) -> Seq<ListedView>,
    request: RequestView,
    dir: Seq<char>,
    depth: nat,
) -> int
    decreases depth, 1nat, 0nat,
{
    if depth == 0 {
        0
    } else {
        lines_bytes(files, request, dir, files(dir), (depth - 1) as nat)
    }
}

/// The sizes of some lines of a listing, with what is below them.
pub open spec fn lines_bytes(
    files: spec_fn(Seq<char>) -> Seq<ListedView>,
    request: RequestView,
    dir: Seq<char>,
    lines: Seq<ListedView>,
    depth: nat,
) -> int
    decreases depth, 2nat, lines.len(),
{
    if lines.len() == 0 {
        0
    } else {
        lines_bytes(files, request, dir, lines.drop_last(), depth) + match lines.last() {
            ListedView::Entry(entry) => if entry.is_dir {
                tree_bytes(files, request, request.child_from(dir, entry.name), depth)
            } else {
                entry.size as int
            },
            ListedView::Unreadable(_) => 0,
        }
    }
}

/// The sizes below several directories, each with its depth.
pub open spec fn trees_bytes(
    files: spec_fn(Seq<char>) -> Seq<ListedView>,
    request: RequestView,
    dirs: Seq<Seq<char>>,
    depth: nat,
) -> int
    decreases dirs.len(),
{
    if dirs.len() == 0 {
        0
    } else {
        trees_bytes(files, request, dirs.drop_last(), depth) + tree_bytes(
            files,
            request,
            dirs.last(),
            depth,
        )
    }
}

proof fn lemma_trees_concat(
    files: spec_fn(Seq<char>) -> Seq<ListedView>,
    request: RequestView,
    a: Seq<Seq<char>>,
    b: Seq<Seq<char>>,
    depth: nat,
)
    ensures
        trees_bytes(files, request, a + b, depth) == trees_bytes(files, request, a, depth)
            + trees_bytes(files, request, b, depth),
    decreases b.len(),
{
    if b.len() == 0 {
        assert(a + b =~= a);
    } else {
        assert((a + b).drop_last() =~= a + b.drop_last());
        lemma_trees_concat(files, request, a, b.drop_last(), depth);
    }
}

proof fn lemma_bytes_nonnegative(
    files: spec_fn(Seq<char>) -> Seq<ListedView>,
    request: RequestView,
    dir: Seq<char>,
    lines: Seq<ListedView>,
    depth: nat,
)
    ensures
        tree_bytes(files, request, dir, depth) >= 0,
        lines_bytes(files, request, dir, lines, depth) >= 0,
    decreases depth, lines.len(),
{
    if depth > 0 {
        lemma_bytes_nonnegative(files, request, dir, files(dir), (depth - 1) as nat);
    }
    if lines.len() > 0 {
        lemma_bytes_nonnegative(files, request, dir, lines.drop_last(), depth);
        if let ListedView::Entry(entry) = lines.last() {
            let child = request.child_from(dir, entry.name);
            if depth > 0 {
                lemma_bytes_nonnegative(files, request, child, files(child), (depth - 1) as nat);
            }
            assert(tree_bytes(files, request, child, depth) >= 0);
        }
        assert(lines_bytes(files, request, dir, lines, depth) >= 0);
    }
}

proof fn lemma_lines_split(
    files: spec_fn(Seq<char>) -> Seq<ListedView>,
    request: RequestView,
    dir: Seq<char>,
    lines: Seq<ListedView>,
    depth: nat,
    total: u64,
)
    requires
        total + lines_bytes(files, request, dir, lines, depth) <= u64::MAX,
    ensures
        plus_files(total, lines) + trees_bytes(files, request, subdirs(request, dir, lines), depth)
            == total + lines_bytes(files, request, dir, lines, depth),
    decreases lines.len(),
{
    if lines.len() > 0 {
        let rest = lines.drop_last();
        lemma_bytes_nonnegative(files, request, dir, rest, depth);
        if let ListedView::Entry(entry) = lines.last() {
            lemma_bytes_nonnegative(
                files,
                request,
                request.child_from(dir, entry.name),
                rest,
                depth,
            );
        }
        lemma_lines_split(files, request, dir, rest, depth, total);
        lemma_trees_nonnegative(files, request, subdirs(request, dir, rest), depth);
        let dirs = subdirs(request, dir, rest);
        if let ListedView::Entry(entry) = lines.last() {
            if entry.is_dir {
                let child = request.child_from(dir, entry.name);
                assert(dirs.push(child).drop_last() =~= dirs);
            }
        }
    }
}

proof fn lemma_trees_nonnegative(
    files: spec_fn(Seq<char>) -> Seq<ListedView>,
    request: RequestView,
    dirs: Seq<Seq<char>>,
    depth: nat,
)
    ensures
        trees_bytes(files, request, dirs, depth) >= 0,
    decreases dirs.len(),
{
    if dirs.len() > 0 {
        lemma_trees_nonnegative(files, request, dirs.drop_last(), depth);
        lemma_bytes_nonnegative(files, request, dirs.last(), seq![], depth);
    }
}

/// Whether no directory of a file system has anything below a depth.
pub open spec fn is_settled(
    files: spec_fn(Seq<char>) -> Seq<ListedView>,
    request: RequestView,
    depth: nat,
) -> bool {
    forall|dir: Seq<char>| #[trigger]
        tree_bytes(files, request, dir, depth + 1) == tree_bytes(files, request, dir, depth)
}

/// What a transfer has summed up so far, with what it has yet to sum up.
pub open spec fn measured_bytes(
    files: spec_fn(Seq<char>) -> Seq<ListedView>,
    h: HandleView,
    depth: nat,
) -> int {
    h.total + trees_bytes(files, h.request, h.unmeasured, depth) + match h.stage {
        StageView::Measuring(dir) => tree_bytes(files, h.request, dir, depth),
        _ => 0,
    }
}

/// Summing up the sizes of a directory tree loses nothing and counts nothing
/// twice: what has been summed and what is left stay the same with every
/// listing, and at the end they are the total of the transfer.
pub proof fn lemma_measuring_conserves_bytes(
    files: spec_fn(Seq<char>) -> Seq<ListedView>,
    h: HandleView,
    dir: Seq<char>,
    depth: nat,
)
    requires
        h.stage == StageView::Measuring(dir),
        is_settled(files, h.request, depth),
        measured_bytes(files, h, depth) <= u64::MAX,
    ensures
        ({
            let next = h.step(ReplyView::Listing(files(dir))).0;
            &&& next.stage is Measuring ==> measured_bytes(files, next, depth) == measured_bytes(
                files,
                h,
                depth,
            )
            &&& next.stage is MakingDir ==> next.progress.total_bytes == measured_bytes(
                files,
                h,
                depth,
            )
            &&& next.stage is Measuring || next.stage is MakingDir
        }),
{
    let request = h.request;
    let found = subdirs(request, dir, files(dir));
    assert(tree_bytes(files, request, dir, depth + 1) == lines_bytes(
        files,
        request,
        dir,
        files(dir),
        depth,
    ));
    lemma_trees_nonnegative(files, request, h.unmeasured, depth);
    lemma_lines_split(files, request, dir, files(dir), depth, h.total);
    lemma_trees_concat(files, request, h.unmeasured, found, depth);
    let all = h.unmeasured + found;
    assert(all.len() == 0 ==> trees_bytes(files, request, all, depth) == 0);
}

} // verus!
