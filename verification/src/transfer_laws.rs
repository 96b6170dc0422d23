//! What a transfer comes to, whatever the file systems answer.
use vstd::prelude::*;
use crate::paths::{
    all_plain, is_plain, join, lemma_join_lies_in, lemma_lies_one_further,
    lemma_paths_below_differ, lemma_remote_join_lies_in, lies_below, lies_in, remote_join, trail,
};
use crate::transfer::{
    requested, HandleView, IoView, JobView, ListedView, ReplyView, RequestView, StageView,
    TransferStatusView,
};

verus! {

// ---------------------------------------------------------------------------
// Directory trees
// ---------------------------------------------------------------------------

/// Whether two paths stand for the same names below the two directories of a
/// request: one on the side that is read, one on the side that is written.
pub open spec fn mirrors_names(
    request: RequestView,
    names: Seq<Seq<char>>,
    from: Seq<char>,
    to: Seq<char>,
) -> bool {
    all_plain(names) && match request {
        RequestView::UploadDir { local_path, remote_path } => lies_below(from, local_path, names)
            && lies_below(to, remote_path, names),
        RequestView::DownloadDir { remote_path, local_path } => lies_below(
            from,
            remote_path,
            names,
        ) && lies_below(to, local_path, names),
        _ => false,
    }
}

/// Whether two paths stand for the same place in the two trees of a request.
pub open spec fn mirrors(request: RequestView, from: Seq<char>, to: Seq<char>) -> bool {
    exists|names: Seq<Seq<char>>| #[trigger] mirrors_names(request, names, from, to)
}

/// Whether two paths stand for the same file in the two trees of a request.
pub open spec fn mirrors_file(
    request: RequestView,
    from: Seq<char>,
    to: Seq<char>,
    name: Seq<char>,
) -> bool {
    exists|names: Seq<Seq<char>>| #[trigger]
        mirrors_names(request, names, from, to) && names.len() > 0 && names.last() == name
}

/// Whether a part that is still to be done copies to where it is in the other tree.
pub open spec fn job_mirrors(request: RequestView, job: JobView) -> bool {
    match job {
        JobView::Dir { from, to } => mirrors(request, from, to),
        JobView::File { from, to, name } => mirrors_file(request, from, to, name),
        JobView::Unreadable(_) => true,
    }
}

/// Whether a path is where some file of the source is copied to.
pub open spec fn is_target(request: RequestView, to: Seq<char>) -> bool {
    exists|from: Seq<char>, name: Seq<char>| #[trigger] mirrors_file(request, from, to, name)
}

/// Whether what a transfer is waiting for is about the same place in both trees.
pub open spec fn stage_mirrors(request: RequestView, stage: StageView) -> bool {
    match stage {
        StageView::MakingDir { from, to } => mirrors(request, from, to),
        StageView::CheckingDir { from, to, .. } => mirrors(request, from, to),
        StageView::Listing { from, to } => mirrors(request, from, to),
        StageView::Opening(to) => is_target(request, to),
        StageView::Sizing => false,
        _ => true,
    }
}

/// Whether everything that a transfer is about copies to where it is in the other
/// tree.
pub open spec fn is_mirroring(h: HandleView) -> bool {
    &&& forall|i: int| 0 <= i < h.jobs.len() ==> job_mirrors(h.request, #[trigger] h.jobs[i])
    &&& stage_mirrors(h.request, h.stage)
}

/// Whether a directory tree is transferred, to or from a local path that is not
/// empty.
pub open spec fn is_tree_request(request: RequestView) -> bool {
    match request {
        RequestView::UploadDir { local_path, .. } => local_path.len() > 0,
        RequestView::DownloadDir { local_path, .. } => local_path.len() > 0,
        _ => false,
    }
}

/// Whether the names in an answer can be names of files.
pub open spec fn has_plain_names(reply: ReplyView) -> bool {
    reply matches ReplyView::Listing(lines) ==> forall|i: int|
        0 <= i < lines.len() ==> ((#[trigger] lines[i]) matches ListedView::Entry(entry)
            ==> is_plain(entry.name))
}

proof fn lemma_below_nonempty(path: Seq<char>, root: Seq<char>, names: Seq<Seq<char>>)
    requires
        lies_below(path, root, names),
        root.len() > 0,
    ensures
        path.len() > 0,
{
    if names.len() > 0 {
        assert(trail(names).len() > 0);
    }
}

proof fn lemma_child_mirrors(
    request: RequestView,
    names: Seq<Seq<char>>,
    from: Seq<char>,
    to: Seq<char>,
    name: Seq<char>,
)
    requires
        is_tree_request(request),
        mirrors_names(request, names, from, to),
        is_plain(name),
    ensures
        lies_in(request.child_from(from, name), from, name),
        lies_in(request.child_to(to, name), to, name),
        mirrors_names(
            request,
            names.push(name),
            request.child_from(from, name),
            request.child_to(to, name),
        ),
{
    assert(name[0] != '/') by {
        assert(name.contains(name[0]));
    }
    match request {
        RequestView::UploadDir { local_path, remote_path } => {
            lemma_below_nonempty(from, local_path, names);
            lemma_join_lies_in(from, name);
            lemma_remote_join_lies_in(to, name);
            lemma_lies_one_further(join(from, name), from, name, local_path, names);
            lemma_lies_one_further(remote_join(to, name), to, name, remote_path, names);
        },
        RequestView::DownloadDir { remote_path, local_path } => {
            lemma_below_nonempty(to, local_path, names);
            lemma_join_lies_in(to, name);
            lemma_remote_join_lies_in(from, name);
            lemma_lies_one_further(join(to, name), to, name, local_path, names);
            lemma_lies_one_further(remote_join(from, name), from, name, remote_path, names);
        },
        _ => {},
    }
}

proof fn lemma_roots_mirror(request: RequestView)
    requires
        is_tree_request(request),
    ensures
        mirrors(request, request.from(), request.to()),
{
    assert(mirrors_names(request, seq![], request.from(), request.to()));
}

proof fn lemma_next_job_mirrors(h: HandleView)
    requires
        is_tree_request(h.request),
        forall|i: int| 0 <= i < h.jobs.len() ==> job_mirrors(h.request, #[trigger] h.jobs[i]),
    ensures
        is_mirroring(h.next_job().0),
        asks_in_place(h, h.next_job().0, h.next_job().1),
{
    if h.jobs.len() > 0 {
        assert(job_mirrors(h.request, h.jobs[h.jobs.len() - 1]));
        assert forall|i: int| 0 <= i < h.jobs.drop_last().len() implies job_mirrors(
            h.request,
            #[trigger] h.jobs.drop_last()[i],
        ) by {
            assert(job_mirrors(h.request, h.jobs[i]));
        }
        let after = h.next_job().0;
        if let JobView::File { from, to, name } = h.jobs.last() {
            assert(mirrors_file(h.request, from, to, name));
        }
        if !h.cancel {
            assert(after.jobs == h.jobs.drop_last());
        } else {
            assert(after.jobs == h.jobs);
        }
        assert(after.request == h.request);
        assert forall|i: int| 0 <= i < after.jobs.len() implies job_mirrors(
            after.request,
            #[trigger] after.jobs[i],
        ) by {
            assert(job_mirrors(h.request, h.jobs[i]));
        }
        match h.jobs.last() {
            JobView::Dir { from, to } => {
                assert(mirrors(after.request, from, to));
                assert(!h.cancel ==> after.stage == (StageView::MakingDir { from, to }));
            },
            JobView::File { from, to, name } => {
                assert(mirrors_file(after.request, from, to, name));
                assert(is_target(after.request, to));
                assert(!h.cancel ==> after.stage == StageView::Opening(to));
            },
            JobView::Unreadable(_) => {
                assert(after.stage is Ended);
            },
        }
        assert(h.cancel ==> after.stage is Ended);
        assert(stage_mirrors(after.request, after.stage));
    }
}

proof fn lemma_lines_mirror(
    h: HandleView,
    from: Seq<char>,
    to: Seq<char>,
    lines: Seq<ListedView>,
)
    requires
        is_tree_request(h.request),
        is_mirroring(h),
        mirrors(h.request, from, to),
        has_plain_names(ReplyView::Listing(lines)),
    ensures
        is_mirroring(h.listed(from, to, lines).0),
        asks_in_place(h, h.listed(from, to, lines).0, h.listed(from, to, lines).1),
{
    let names = choose|names: Seq<Seq<char>>| #[trigger]
        mirrors_names(h.request, names, from, to);
    let parts = lines.map_values(
        |l: ListedView| crate::transfer::line_job(h.request, from, to, l),
    );
    let more = HandleView { jobs: h.jobs + parts.reverse(), ..h };
    assert forall|i: int| 0 <= i < more.jobs.len() implies job_mirrors(
        h.request,
        #[trigger] more.jobs[i],
    ) by {
        if i < h.jobs.len() {
            assert(job_mirrors(h.request, h.jobs[i]));
        } else {
            let at = parts.len() - 1 - (i - h.jobs.len());
            assert(more.jobs[i] == parts[at]);
            if let ListedView::Entry(entry) = lines[at] {
                lemma_child_mirrors(h.request, names, from, to, entry.name);
                assert(names.push(entry.name).last() == entry.name);
            }
        }
    }
    lemma_next_job_mirrors(more);
}

/// Whether what a directory transfer asks for is about the same place in the two
/// trees: what is opened is a file whose target has the same names below the
/// target directory, and what is created or listed is what was agreed on before.
pub open spec fn asks_in_place(before: HandleView, after: HandleView, io: IoView) -> bool {
    let upload = before.request is UploadDir;
    match io {
        IoView::OpenLocal(from) => upload && (after.stage matches StageView::Opening(to)
            && mirrors_file(before.request, from, to, after.progress.file_name)),
        IoView::OpenRemote(from) => !upload && (after.stage matches StageView::Opening(to)
            && mirrors_file(before.request, from, to, after.progress.file_name)),
        IoView::CreateRemote(to) => upload && before.stage == StageView::Opening(to),
        IoView::CreateLocal(to) => !upload && before.stage == StageView::Opening(to),
        IoView::MakeRemoteDir(dir) => upload && (after.stage matches StageView::MakingDir {
            from,
            to,
        } && to == dir && mirrors(before.request, from, to)),
        IoView::MakeLocalDirs(dir) => !upload && (after.stage matches StageView::MakingDir {
            from,
            to,
        } && to == dir && mirrors(before.request, from, to)),
        IoView::CheckRemote(dir) => upload && (before.stage matches StageView::MakingDir {
            from,
            to,
        } && to == dir && (after.stage matches StageView::CheckingDir { from: f, to: t, .. } && f
            == from && t == to)),
        IoView::ListLocal(dir) => upload && lists(before, after, dir),
        IoView::ListRemote(dir) => !upload && lists(before, after, dir),
        IoView::CopyChunk | IoView::Finish => true,
        _ => false,
    }
}

/// Whether a directory is listed to sum up its sizes, or because it was just
/// created on the other side.
pub open spec fn lists(before: HandleView, after: HandleView, dir: Seq<char>) -> bool {
    match after.stage {
        StageView::Measuring(measured) => measured == dir,
        StageView::Listing { from, to } => from == dir && (match before.stage {
            StageView::MakingDir { from: f, to: t } => f == from && t == to,
            StageView::CheckingDir { from: f, to: t, .. } => f == from && t == to,
            _ => false,
        }),
        _ => false,
    }
}

/// A directory transfer mirrors its source: every file that is opened and every
/// directory that is listed stands for some names below the directory that is
/// read, and what is created for it is the same names below the directory that is
/// written. That holds of all that is left to do after each answer.
pub proof fn lemma_trees_are_mirrored(h: HandleView, reply: ReplyView)
    requires
        is_tree_request(h.request),
        is_mirroring(h),
        has_plain_names(reply),
    ensures
        is_mirroring(h.step(reply).0),
        asks_in_place(h, h.step(reply).0, h.step(reply).1),
        h.step(reply).0.request == h.request,
{
    lemma_roots_mirror(h.request);
    match (h.stage, reply) {
        (StageView::Listing { from, to }, ReplyView::Listing(lines)) => {
            lemma_lines_mirror(h, from, to, lines);
        },
        (StageView::Copying, ReplyView::Copied(n)) => {
            lemma_next_job_mirrors(h);
        },
        _ => {},
    }
}

/// A directory transfer that was just requested has nothing in the wrong place.
pub proof fn lemma_new_trees_mirror(request: RequestView)
    ensures
        is_mirroring(requested(request)),
        requested(request).request == request,
{
}

/// Two different files of the source never get the same target, and a file never
/// gets the target of a directory.
pub proof fn lemma_targets_differ(
    request: RequestView,
    names: Seq<Seq<char>>,
    from: Seq<char>,
    other_names: Seq<Seq<char>>,
    other_from: Seq<char>,
    to: Seq<char>,
)
    requires
        mirrors_names(request, names, from, to),
        mirrors_names(request, other_names, other_from, to),
    ensures
        names == other_names,
{
    match request {
        RequestView::UploadDir { remote_path, .. } => {
            lemma_paths_below_differ(to, remote_path, names, other_names);
        },
        RequestView::DownloadDir { local_path, .. } => {
            lemma_paths_below_differ(to, local_path, names, other_names);
        },
        _ => {},
    }
}

/// Whether a part does for a line of a listing what it should: an entry in the
/// listed directory is copied to its name in the other directory.
pub open spec fn serves_line(
    job: JobView,
    from: Seq<char>,
    to: Seq<char>,
    line: ListedView,
) -> bool {
    match line {
        ListedView::Entry(entry) => match job {
            JobView::Dir { from: f, to: t } => entry.is_dir && lies_in(f, from, entry.name)
                && lies_in(t, to, entry.name),
            JobView::File { from: f, to: t, name } => !entry.is_dir && name == entry.name
                && lies_in(f, from, entry.name) && lies_in(t, to, entry.name),
            _ => false,
        },
        ListedView::Unreadable(message) => job == JobView::Unreadable(message),
    }
}

/// Each line of a listing is taken up once, in its order and before what was left
/// to do: the target of an entry is its name in the directory that the listed one
/// is copied to.
pub proof fn lemma_every_line_is_served(
    h: HandleView,
    from: Seq<char>,
    to: Seq<char>,
    lines: Seq<ListedView>,
    i: int,
)
    requires
        is_tree_request(h.request),
        h.stage == (StageView::Listing { from, to }),
        !h.cancel,
        from.len() > 0,
        to.len() > 0,
        has_plain_names(ReplyView::Listing(lines)),
        0 <= i < lines.len(),
    ensures
        ({
            let (after, io) = h.step(ReplyView::Listing(lines));
            &&& after.jobs.len() == h.jobs.len() + lines.len() - 1
            &&& after.jobs.take(h.jobs.len() as int) == h.jobs
            &&& i > 0 ==> serves_line(
                after.jobs[h.jobs.len() + lines.len() - 1 - i],
                from,
                to,
                lines[i],
            )
            &&& i == 0 ==> match lines[0] {
                ListedView::Entry(entry) => {
                    ||| entry.is_dir && (after.stage matches StageView::MakingDir {
                        from: f,
                        to: t,
                    } && serves_line(JobView::Dir { from: f, to: t }, from, to, lines[0]))
                    ||| !entry.is_dir && after.progress.file_name == entry.name && (
                    after.stage matches StageView::Opening(t) && lies_in(t, to, entry.name) && (
                    match io {
                        IoView::OpenLocal(f) => h.request is UploadDir && lies_in(
                            f,
                            from,
                            entry.name,
                        ),
                        IoView::OpenRemote(f) => h.request is DownloadDir && lies_in(
                            f,
                            from,
                            entry.name,
                        ),
                        _ => false,
                    }))
                },
                ListedView::Unreadable(message) => after.progress.status
                    == TransferStatusView::Failed(message),
            }
        }),
{
    let parts = lines.map_values(
        |l: ListedView| crate::transfer::line_job(h.request, from, to, l),
    );
    let all = h.jobs + parts.reverse();
    let after = h.step(ReplyView::Listing(lines)).0;
    assert(all.drop_last().take(h.jobs.len() as int) =~= h.jobs);
    assert(all[h.jobs.len() + lines.len() - 1 - i] == parts[i]);
    if let ListedView::Entry(entry) = lines[i] {
        assert(entry.name[0] != '/') by {
            assert(entry.name.contains(entry.name[0]));
        }
        if h.request is UploadDir {
            lemma_join_lies_in(from, entry.name);
            lemma_remote_join_lies_in(to, entry.name);
        } else {
            lemma_join_lies_in(to, entry.name);
            lemma_remote_join_lies_in(from, entry.name);
        }
    }
}

/// When a file is copied, the part that comes next is begun and no other is
/// dropped. Without any part left the transfer is complete.
pub proof fn lemma_parts_are_done_in_turn(h: HandleView)
    requires
        h.stage is Copying,
        h.progress.status is InProgress,
        !h.cancel,
    ensures
        ({
            let (after, io) = h.step(ReplyView::Copied(0));
            if h.jobs.len() == 0 {
                after.progress.status is Completed && io is Finish
            } else {
                &&& after.jobs == h.jobs.take(h.jobs.len() - 1)
                &&& match h.jobs[h.jobs.len() - 1] {
                    JobView::Dir { from, to } => after.stage == (StageView::MakingDir {
                        from,
                        to,
                    }) && (io == IoView::MakeRemoteDir(to) || io == IoView::MakeLocalDirs(to)),
                    JobView::File { from, to, name } => after.stage == StageView::Opening(to)
                        && after.progress.file_name == name && (io == IoView::OpenLocal(from) || io
                        == IoView::OpenRemote(from)),
                    JobView::Unreadable(_) => !(after.progress.status is Completed),
                }
            }
        }),
{
    if h.jobs.len() > 0 {
        assert(h.jobs.drop_last() =~= h.jobs.take(h.jobs.len() - 1));
    }
}

/// A transfer is complete only when everything was copied: when a file is at its
/// end, or a directory holds nothing, and no part is left.
pub proof fn lemma_complete_means_all_copied(h: HandleView, reply: ReplyView)
    requires
        h.progress.status is InProgress,
        !(h.stage is Ended),
        !(h.stage is Cleaning),
        h.step(reply).0.progress.status is Completed,
    ensures
        h.jobs.len() == 0,
        h.stage is Copying && reply == ReplyView::Copied(0) || h.stage is Listing && reply
            == ReplyView::Listing(seq![]),
{
    if let ReplyView::Listing(lines) = reply {
        if h.stage is Listing {
            assert(lines.len() == 0);
            assert(lines =~= seq![]);
        }
    }
}

// ---------------------------------------------------------------------------
// Single files
// ---------------------------------------------------------------------------

/// An upload reads the local file and writes the remote one, and a download the
/// other way round: the source is sized and opened, then the target is created,
/// and then chunks are copied until the source is at its end.
pub proof fn lemma_file_goes_to_its_target(
    request: RequestView,
    reply: ReplyView,
    size: Option<u64>,
    n: u64,
)
    requires
        n > 0,
    ensures
        ({
            let (sizing, stat) = requested(request).step(reply);
            let (opening, open) = sizing.step(ReplyView::Size(size));
            let (creating, create) = opening.step(ReplyView::Done);
            let (copying, copy) = creating.step(ReplyView::Done);
            let (more, again) = copying.step(ReplyView::Copied(n));
            let (done, last) = more.step(ReplyView::Copied(0));
            &&& request matches RequestView::Upload { local_path, remote_path } ==> stat
                == IoView::StatLocal(local_path) && open == IoView::OpenLocal(local_path) && create
                == IoView::CreateRemote(remote_path)
            &&& request matches RequestView::Download { remote_path, local_path } ==> stat
                == IoView::StatRemote(remote_path) && open == IoView::OpenRemote(remote_path)
                && create == IoView::CreateLocal(local_path)
            &&& request is Upload || request is Download ==> {
                &&& copy is CopyChunk
                &&& again is CopyChunk
                &&& last is Finish
                &&& (size matches Some(total) ==> done.progress.total_bytes == total)
                &&& done.progress.bytes_transferred == n
                &&& done.progress.status is Completed
            }
        }),
{
}

/// An upload whose source has no size that can be read is carried out all the same,
/// and a download whose source has none is not.
pub proof fn lemma_unknown_sizes(request: RequestView, reply: ReplyView, message: Seq<char>)
    requires
        request is Upload || request is Download,
    ensures
        ({
            let (sizing, _) = requested(request).step(reply);
            let (after, io) = sizing.step(ReplyView::Failed(message));
            &&& request matches RequestView::Upload { local_path, .. } ==> io == IoView::OpenLocal(
                local_path,
            ) && after.progress.status is InProgress
            &&& request matches RequestView::Download { local_path, .. } ==> io
                == IoView::RemoveLocal(local_path)
        }),
{
}

/// The bytes of every chunk are added up.
pub proof fn lemma_chunks_add_up(h: HandleView, n: u64)
    requires
        h.stage is Copying,
        h.progress.bytes_transferred + n <= u64::MAX,
    ensures
        h.step(ReplyView::Copied(n)).0.progress.bytes_transferred == h.progress.bytes_transferred
            + n,
{
}

// ---------------------------------------------------------------------------
// Ends
// ---------------------------------------------------------------------------

/// What a transfer has failed with, now or once it has cleaned up.
pub open spec fn failure_of(h: HandleView) -> Option<Seq<char>> {
    match h.stage {
        StageView::Cleaning(TransferStatusView::Failed(message)) => Some(message),
        StageView::Ended => match h.progress.status {
            TransferStatusView::Failed(message) => Some(message),
            _ => None,
        },
        _ => None,
    }
}

/// Whether a text ends in another.
pub open spec fn ends_in(text: Seq<char>, end: Seq<char>) -> bool {
    end.len() <= text.len() && text.skip(text.len() - end.len()) == end
}

proof fn lemma_sum_ends_in(start: Seq<char>, end: Seq<char>)
    ensures
        ends_in(start + end, end),
{
    assert((start + end).skip(start.len() as int) =~= end);
}

/// What goes wrong is reported with its reason at the end of the message. That a
/// directory cannot be created remotely is only a failure if it is not there, and
/// a directory that cannot be listed to sum up its sizes is passed over by an
/// upload.
pub proof fn lemma_failures_are_reported(h: HandleView, message: Seq<char>, later: Seq<char>)
    requires
        h.progress.status is InProgress,
    ensures
        h.stage is Copying ==> {
            &&& failure_of(h.step(ReplyView::ReadFailed(message)).0) matches Some(m) && ends_in(
                m,
                message,
            )
            &&& failure_of(h.step(ReplyView::WriteFailed(message)).0) matches Some(m) && ends_in(
                m,
                message,
            )
        },
        h.stage is Opening || h.stage is Creating || h.stage is Listing ==> (failure_of(
            h.step(ReplyView::Failed(message)).0,
        ) matches Some(m) && ends_in(m, message)),
        h.stage is Sizing && !h.request.is_upload() ==> (failure_of(
            h.step(ReplyView::Failed(message)).0,
        ) matches Some(m) && ends_in(m, message)),
        h.stage is Measuring && h.request is DownloadDir ==> failure_of(
            h.step(ReplyView::Failed(message)).0,
        ) == Some(message),
        h.stage is Measuring && h.request is UploadDir ==> failure_of(
            h.step(ReplyView::Failed(message)).0,
        ) is None,
        h.stage is MakingDir && h.request is DownloadDir ==> (failure_of(
            h.step(ReplyView::Failed(message)).0,
        ) matches Some(m) && ends_in(m, message)),
        h.stage is MakingDir && h.request is UploadDir ==> {
            let checking = h.step(ReplyView::Failed(message)).0;
            &&& failure_of(checking) is None
            &&& checking.step(ReplyView::Done).0.stage is Listing
            &&& failure_of(checking.step(ReplyView::Failed(later)).0) matches Some(m) && ends_in(
                m,
                message,
            )
        },
{
    lemma_sum_ends_in("read: "@, message);
    lemma_sum_ends_in("write: "@, message);
    lemma_sum_ends_in(h.request.open_prefix(), message);
    lemma_sum_ends_in(h.request.create_prefix(), message);
    lemma_sum_ends_in("read local dir: "@, message);
    lemma_sum_ends_in(seq![], message);
    assert(Seq::<char>::empty() + message =~= message);
    lemma_sum_ends_in("stat failed: "@, message);
    lemma_sum_ends_in("mkdir local: "@, message);
    if let StageView::MakingDir { to, .. } = h.stage {
        lemma_sum_ends_in("mkdir '"@ + to + "': "@, message);
    }
}

/// The message of a failure also tells at what it happened: which of both files could not be
/// opened or created, whether reading or writing failed, and which directory is missing.
pub proof fn lemma_failures_tell_where(h: HandleView, message: Seq<char>, later: Seq<char>)
    requires
        h.progress.status is InProgress,
    ensures
        h.stage is Copying ==> failure_of(h.step(ReplyView::ReadFailed(message)).0) == Some(
            "read: "@ + message,
        ) && failure_of(h.step(ReplyView::WriteFailed(message)).0) == Some("write: "@ + message),
        h.stage is Opening ==> failure_of(h.step(ReplyView::Failed(message)).0) == Some(
            (match h.request {
                RequestView::Upload { .. } => "open local file: "@,
                RequestView::Download { .. } => "open remote file failed: "@,
                RequestView::UploadDir { .. } => "open local: "@,
                RequestView::DownloadDir { .. } => "open remote: "@,
            }) + message,
        ),
        h.stage is Creating ==> failure_of(h.step(ReplyView::Failed(message)).0) == Some(
            (match h.request {
                RequestView::Upload { .. } => "create remote file: "@,
                RequestView::Download { .. } => "create local file: "@,
                RequestView::UploadDir { .. } => "create remote: "@,
                RequestView::DownloadDir { .. } => "create local: "@,
            }) + message,
        ),
        h.stage is Sizing && h.request is Download ==> failure_of(
            h.step(ReplyView::Failed(message)).0,
        ) == Some("stat failed: "@ + message),
        h.stage is MakingDir && h.request is DownloadDir ==> failure_of(
            h.step(ReplyView::Failed(message)).0,
        ) == Some("mkdir local: "@ + message),
        h.stage is Listing && h.request is UploadDir ==> failure_of(
            h.step(ReplyView::Failed(message)).0,
        ) == Some("read local dir: "@ + message),
        h.stage matches StageView::MakingDir { to, .. } ==> h.request is UploadDir ==> failure_of(
            h.step(ReplyView::Failed(message)).0.step(ReplyView::Failed(later)).0,
        ) == Some("mkdir '"@ + to + "': "@ + message),
{
}

/// Nothing is removed but what the transfer itself has written: the remote file of an upload
/// once it was created, and the local file of a download.
pub proof fn lemma_only_own_file_is_removed(h: HandleView, reply: ReplyView)
    requires
        h.request is Upload || h.request is Download ==> !(h.stage is Listing),
    ensures
        h.step(reply).1 matches IoView::RemoveRemote(path) ==> {
            &&& h.request matches RequestView::Upload { remote_path, .. } && path == remote_path
            &&& h.stage is Copying || h.stage is Creating && reply is Done && h.cancel
        },
        h.step(reply).1 matches IoView::RemoveLocal(path) ==> (h.request
            matches RequestView::Download { local_path, .. } && path == local_path),
{
}

/// A lost connection fails a transfer at every stage but the first, and never
/// completes it.
pub proof fn lemma_lost_connection_fails(h: HandleView)
    requires
        h.progress.status is InProgress,
        !(h.stage is Ended || h.stage is Cleaning || h.stage is Start),
    ensures
        failure_of(h.step(ReplyView::NotConnected).0) is Some,
{
}

/// A transfer that somebody wants cancelled ends as cancelled at the next chunk or
/// part, once what it has written of a single file is removed.
pub proof fn lemma_cancelled_transfers_end(h: HandleView, n: u64, reply: ReplyView)
    requires
        h.cancel,
        h.stage is Copying,
        n > 0,
    ensures
        ({
            let (after, io) = h.step(ReplyView::Copied(n));
            &&& h.request matches RequestView::Download { local_path, .. } ==> io
                == IoView::RemoveLocal(local_path) && after.step(
                reply,
            ).0.progress.status is Cancelled
            &&& h.request matches RequestView::Upload { remote_path, .. } ==> io
                == IoView::RemoveRemote(remote_path) && after.step(
                reply,
            ).0.progress.status is Cancelled
            &&& h.request is UploadDir || h.request is DownloadDir ==> io is Finish
                && after.progress.status is Cancelled
        }),
{
}

// ---------------------------------------------------------------------------
// What is shown
// ---------------------------------------------------------------------------

/// A transfer is called by its direction and by what is transferred.
pub proof fn lemma_transfers_are_called(request: RequestView)
    ensures
        requested(request).progress.label == (match request {
            RequestView::Upload { .. } => "Uploading"@,
            RequestView::UploadDir { .. } => "Uploading"@ + " dir"@,
            RequestView::Download { .. } => "Downloading"@,
            RequestView::DownloadDir { .. } => "Downloading"@ + " dir"@,
        }),
{
    reveal_strlit("Uploading");
    reveal_strlit("Downloading");
    reveal_strlit(" dir");
    reveal_strlit("Uploading dir");
    reveal_strlit("Downloading dir");
    assert("Uploading dir"@ =~= "Uploading"@ + " dir"@);
    assert("Downloading dir"@ =~= "Downloading"@ + " dir"@);
}

/// A transfer shows the name of what it transfers.
pub proof fn lemma_transfers_show_the_name(request: RequestView, dir: Seq<char>, name: Seq<char>)
    requires
        is_plain(name),
        name != seq!['.'],
        name != seq!['.', '.'],
        lies_in(
            match request {
                RequestView::Upload { local_path, .. } => local_path,
                RequestView::UploadDir { local_path, .. } => local_path,
                RequestView::Download { remote_path, .. } => remote_path,
                RequestView::DownloadDir { remote_path, .. } => remote_path,
            },
            dir,
            name,
        ),
    ensures
        requested(request).progress.file_name == name,
        requested(request).progress.bytes_transferred == 0,
        requested(request).progress.status is InProgress,
        !requested(request).cancel,
{
    let path = if request.is_upload() {
        request.local()
    } else {
        request.remote()
    };
    crate::paths::lemma_lies_in_one_directory(path, dir, name, dir, name);
    crate::paths::lemma_file_name_of_path(path, dir, name);
}

} // verus!
