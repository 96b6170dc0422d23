//! Transfers.
use hosttui::sftp::FileEntry;
use hosttui::transfer::{
    spawn_transfer, Listed, TransferHandle, TransferIo, TransferProgress, TransferReply,
    TransferRequest, TransferStatus,
};

fn line(name: &str, is_dir: bool, size: u64) -> Listed {
    Listed::Entry(FileEntry { name: name.into(), is_dir, size, modified: None, permissions: None })
}

fn download() -> TransferHandle {
    spawn_transfer(TransferRequest::Download {
        remote_path: "/home/user/file.txt".into(),
        local_path: "/tmp/test_transfer_no_conn.txt".into(),
    })
}

#[test]
fn transfer_progress_initial_state() {
    let progress = TransferProgress {
        file_name: "test.txt".into(),
        label: "Downloading".into(),
        bytes_transferred: 0,
        total_bytes: 1024,
        status: TransferStatus::InProgress,
    };
    assert_eq!(progress.status, TransferStatus::InProgress);
    assert_eq!(progress.bytes_transferred, 0);
    assert_eq!(progress.total_bytes, 1024);
}

#[test]
fn transfer_status_variants() {
    assert_eq!(TransferStatus::InProgress, TransferStatus::InProgress);
    assert_eq!(TransferStatus::Completed, TransferStatus::Completed);
    assert_eq!(TransferStatus::Cancelled, TransferStatus::Cancelled);

    let failed = TransferStatus::Failed("disk full".into());
    assert!(matches!(failed, TransferStatus::Failed(ref msg) if msg == "disk full"));
}

#[test]
fn cancel_flag_cooperative() {
    let mut handle = download();
    assert!(!handle.cancel);
    handle.request_cancel();
    assert!(handle.cancel);
}

#[test]
fn transfer_request_upload() {
    let req = TransferRequest::Upload {
        local_path: "/tmp/file.txt".into(),
        remote_path: "/home/user/file.txt".into(),
    };
    assert!(matches!(req, TransferRequest::Upload { .. }));
}

#[test]
fn transfer_request_download() {
    let req = TransferRequest::Download {
        remote_path: "/home/user/file.txt".into(),
        local_path: "/tmp/file.txt".into(),
    };
    assert!(matches!(req, TransferRequest::Download { .. }));
}

#[test]
fn spawn_transfer_sets_label_upload() {
    let handle = spawn_transfer(TransferRequest::Upload {
        local_path: "/tmp/readme.md".into(),
        remote_path: "/home/user/readme.md".into(),
    });
    assert_eq!(handle.progress.label, "Uploading");
    assert_eq!(handle.progress.file_name, "readme.md");
}

#[test]
fn spawn_transfer_sets_label_download() {
    let handle = spawn_transfer(TransferRequest::Download {
        remote_path: "/home/user/data.csv".into(),
        local_path: "/tmp/data.csv".into(),
    });
    assert_eq!(handle.progress.label, "Downloading");
    assert_eq!(handle.progress.file_name, "data.csv");
}

#[test]
fn transfer_fails_when_not_connected() {
    let mut handle = download();
    let first = handle.step(TransferReply::Done);
    assert_eq!(first, TransferIo::StatRemote("/home/user/file.txt".into()));
    let clean = handle.step(TransferReply::NotConnected);
    assert_eq!(clean, TransferIo::RemoveLocal("/tmp/test_transfer_no_conn.txt".into()));
    assert!(handle.in_progress());
    assert_eq!(handle.step(TransferReply::Done), TransferIo::Finish);
    assert!(
        matches!(handle.progress.status, TransferStatus::Failed(ref msg) if msg.contains("Not connected"))
    );
}

#[test]
fn dir_total_bytes_sums_files() {
    let mut handle = spawn_transfer(TransferRequest::UploadDir {
        local_path: "/tmp/d".into(),
        remote_path: "/srv/d".into(),
    });
    assert_eq!(handle.step(TransferReply::Done), TransferIo::ListLocal("/tmp/d".into()));
    let next = handle.step(TransferReply::Listing(vec![
        line("a.txt", false, 5),
        line("b.txt", false, 6),
        line("sub", true, 4096),
    ]));
    assert_eq!(next, TransferIo::ListLocal("/tmp/d/sub".into()));
    let make = handle.step(TransferReply::Listing(vec![line("c.txt", false, 1)]));
    assert_eq!(make, TransferIo::MakeRemoteDir("/srv/d".into()));
    assert_eq!(handle.progress.total_bytes, 5 + 6 + 1);
}

#[test]
fn dir_total_bytes_empty() {
    let mut handle = spawn_transfer(TransferRequest::UploadDir {
        local_path: "/tmp/d".into(),
        remote_path: "/srv/d".into(),
    });
    handle.step(TransferReply::Done);
    handle.step(TransferReply::Listing(vec![]));
    assert_eq!(handle.progress.total_bytes, 0);
}

#[test]
fn spawn_transfer_sets_label_upload_dir() {
    let handle = spawn_transfer(TransferRequest::UploadDir {
        local_path: "/tmp/mydir".into(),
        remote_path: "/home/user/mydir".into(),
    });
    assert_eq!(handle.progress.label, "Uploading dir");
    assert_eq!(handle.progress.file_name, "mydir");
}

#[test]
fn spawn_transfer_sets_label_download_dir() {
    let handle = spawn_transfer(TransferRequest::DownloadDir {
        remote_path: "/home/user/mydir".into(),
        local_path: "/tmp/mydir".into(),
    });
    assert_eq!(handle.progress.label, "Downloading dir");
    assert_eq!(handle.progress.file_name, "mydir");
}

#[test]
fn a_download_copies_chunks_to_its_end() {
    let mut handle = download();
    handle.step(TransferReply::Done);
    let open = handle.step(TransferReply::Size(Some(10)));
    assert_eq!(open, TransferIo::OpenRemote("/home/user/file.txt".into()));
    let create = handle.step(TransferReply::Done);
    assert_eq!(create, TransferIo::CreateLocal("/tmp/test_transfer_no_conn.txt".into()));
    assert_eq!(handle.step(TransferReply::Done), TransferIo::CopyChunk);
    assert_eq!(handle.step(TransferReply::Copied(6)), TransferIo::CopyChunk);
    assert_eq!(handle.step(TransferReply::Copied(4)), TransferIo::CopyChunk);
    assert_eq!(handle.step(TransferReply::Copied(0)), TransferIo::Finish);
    assert_eq!(handle.progress.bytes_transferred, 10);
    assert_eq!(handle.progress.total_bytes, 10);
    assert_eq!(handle.progress.status, TransferStatus::Completed);
    assert_eq!(handle.step(TransferReply::NotConnected), TransferIo::Finish);
    assert_eq!(handle.progress.status, TransferStatus::Completed);
}

#[test]
fn a_cancelled_upload_removes_the_remote_file() {
    let mut handle = spawn_transfer(TransferRequest::Upload {
        local_path: "/tmp/a".into(),
        remote_path: "/srv/a".into(),
    });
    assert_eq!(handle.step(TransferReply::Done), TransferIo::StatLocal("/tmp/a".into()));
    handle.step(TransferReply::Failed("no size".into()));
    assert_eq!(handle.progress.total_bytes, 0);
    handle.step(TransferReply::Done);
    handle.step(TransferReply::Done);
    handle.request_cancel();
    let clean = handle.step(TransferReply::Copied(3));
    assert_eq!(clean, TransferIo::RemoveRemote("/srv/a".into()));
    handle.step(TransferReply::Done);
    assert_eq!(handle.progress.status, TransferStatus::Cancelled);
    assert_eq!(handle.progress.bytes_transferred, 3);
}

#[test]
fn a_tree_is_copied_in_order() {
    let mut handle = spawn_transfer(TransferRequest::DownloadDir {
        remote_path: "/srv/d/".into(),
        local_path: "/tmp/d".into(),
    });
    assert_eq!(handle.step(TransferReply::Done), TransferIo::ListRemote("/srv/d/".into()));
    let sub = handle.step(TransferReply::Listing(vec![line("x", true, 0), line("y", false, 2)]));
    assert_eq!(sub, TransferIo::ListRemote("/srv/d/x".into()));
    let make = handle.step(TransferReply::Listing(vec![]));
    assert_eq!(make, TransferIo::MakeLocalDirs("/tmp/d".into()));
    assert_eq!(handle.step(TransferReply::Done), TransferIo::ListRemote("/srv/d/".into()));
    let first = handle.step(TransferReply::Listing(vec![line("x", true, 0), line("y", false, 2)]));
    assert_eq!(first, TransferIo::MakeLocalDirs("/tmp/d/x".into()));
    assert_eq!(handle.step(TransferReply::Done), TransferIo::ListRemote("/srv/d/x".into()));
    let second = handle.step(TransferReply::Listing(vec![]));
    assert_eq!(second, TransferIo::OpenRemote("/srv/d/y".into()));
    assert_eq!(handle.progress.file_name, "y");
    assert_eq!(handle.step(TransferReply::Done), TransferIo::CreateLocal("/tmp/d/y".into()));
    handle.step(TransferReply::Done);
    handle.step(TransferReply::Copied(2));
    assert_eq!(handle.step(TransferReply::Copied(0)), TransferIo::Finish);
    assert_eq!(handle.progress.status, TransferStatus::Completed);
}

#[test]
fn a_directory_that_exists_is_used() {
    let mut handle = spawn_transfer(TransferRequest::UploadDir {
        local_path: "/tmp/d".into(),
        remote_path: "/srv/d".into(),
    });
    handle.step(TransferReply::Done);
    handle.step(TransferReply::Failed("unreadable".into()));
    let check = handle.step(TransferReply::Failed("exists".into()));
    assert_eq!(check, TransferIo::CheckRemote("/srv/d".into()));
    assert_eq!(handle.step(TransferReply::Done), TransferIo::ListLocal("/tmp/d".into()));
    let end = handle.step(TransferReply::Listing(vec![Listed::Unreadable("metadata: x".into())]));
    assert_eq!(end, TransferIo::Finish);
    assert_eq!(handle.progress.status, TransferStatus::Failed("metadata: x".into()));

    let mut refused = spawn_transfer(TransferRequest::UploadDir {
        local_path: "/tmp/d".into(),
        remote_path: "/srv/d".into(),
    });
    refused.step(TransferReply::Done);
    refused.step(TransferReply::Listing(vec![]));
    refused.step(TransferReply::Failed("denied".into()));
    refused.step(TransferReply::Failed("missing".into()));
    assert_eq!(refused.progress.status, TransferStatus::Failed("mkdir '/srv/d': denied".into()));
}

#[test]
fn errors_name_their_step() {
    let mut handle = download();
    handle.step(TransferReply::Done);
    handle.step(TransferReply::Failed("gone".into()));
    handle.step(TransferReply::Done);
    assert_eq!(handle.progress.status, TransferStatus::Failed("stat failed: gone".into()));

    let mut handle = download();
    handle.step(TransferReply::Done);
    handle.step(TransferReply::Size(None));
    handle.step(TransferReply::Failed("locked".into()));
    handle.step(TransferReply::Done);
    assert_eq!(
        handle.progress.status,
        TransferStatus::Failed("open remote file failed: locked".into())
    );

    let mut handle = download();
    handle.step(TransferReply::Done);
    handle.step(TransferReply::Size(None));
    handle.step(TransferReply::Done);
    handle.step(TransferReply::Done);
    handle.step(TransferReply::WriteFailed("full".into()));
    handle.step(TransferReply::Done);
    assert_eq!(handle.progress.status, TransferStatus::Failed("write: full".into()));
}

#[test]
fn a_failed_download_removes_the_local_file() {
    let mut handle = download();
    handle.step(TransferReply::Done);
    handle.step(TransferReply::Size(Some(10)));
    handle.step(TransferReply::Done);
    handle.step(TransferReply::Done);
    handle.step(TransferReply::Copied(6));
    let clean = handle.step(TransferReply::ReadFailed("gone".into()));
    assert_eq!(clean, TransferIo::RemoveLocal("/tmp/test_transfer_no_conn.txt".into()));
    assert_eq!(handle.progress.status, TransferStatus::InProgress);
    assert_eq!(handle.step(TransferReply::Done), TransferIo::Finish);
    assert!(matches!(handle.progress.status, TransferStatus::Failed(_)));
}

#[test]
fn a_failed_upload_removes_the_remote_file() {
    let upload = || {
        spawn_transfer(TransferRequest::Upload {
            local_path: "/tmp/a".into(),
            remote_path: "/srv/a".into(),
        })
    };
    let mut handle = upload();
    handle.step(TransferReply::Done);
    handle.step(TransferReply::Size(Some(10)));
    handle.step(TransferReply::Done);
    handle.step(TransferReply::Done);
    handle.step(TransferReply::Copied(6));
    let clean = handle.step(TransferReply::WriteFailed("full".into()));
    assert_eq!(clean, TransferIo::RemoveRemote("/srv/a".into()));
    assert_eq!(handle.progress.status, TransferStatus::InProgress);
    assert_eq!(handle.step(TransferReply::Failed("gone".into())), TransferIo::Finish);
    assert_eq!(handle.progress.status, TransferStatus::Failed("write: full".into()));

    let mut handle = upload();
    handle.step(TransferReply::Done);
    handle.step(TransferReply::Size(Some(10)));
    handle.step(TransferReply::Done);
    let end = handle.step(TransferReply::Failed("denied".into()));
    assert_eq!(end, TransferIo::Finish);
    assert_eq!(
        handle.progress.status,
        TransferStatus::Failed("create remote file: denied".into())
    );
}
