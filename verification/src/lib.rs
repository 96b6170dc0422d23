//! Verified core of a terminal SSH host manager.
pub mod app;
pub mod browser_laws;
pub mod connect_laws;
pub mod dialogs;
pub mod error;
pub mod event_laws;
pub mod file_panes;
pub mod filebrowser;
pub mod form;
pub mod handlers;
pub mod host_laws;
pub mod input;
pub mod keys;
pub mod laws;
pub mod listing;
pub mod model;
pub mod order;
pub mod panes;
pub mod paths;
pub mod probe;
pub mod pty;
pub mod runtime;
pub mod scene;
pub mod screen;
pub mod screen_laws;
pub mod search;
pub mod seqs;
pub mod sftp;
pub mod sizes;
pub mod ssh;
pub mod storage;
pub mod storage_laws;
pub mod tab_laws;
pub mod terminal_widget;
pub mod text;
pub mod transfer;
pub mod transfer_laws;
pub mod ui;
pub mod window_laws;
