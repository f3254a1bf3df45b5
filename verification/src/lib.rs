//! Verified core logic of the Spacedrive file manager: the job system's
//! bookkeeping, the sync ingestion state machine, peer tracking, the indexer's
//! rule decisions, the custom URI response planning and several smaller
//! planning functions used by the media processor and library manager.
pub mod text;
pub mod job_report;
pub mod job_handle;
pub mod job_runner;
pub mod ingest;
pub mod p2p_sync;
pub mod p2p_manager;
pub mod custom_uri;
pub mod migrate;
pub mod walk;
pub mod file_identifier;
pub mod labeler;
pub mod thumbnail;
pub mod watcher;
pub mod desktop;
pub mod tags;
pub mod job_task;
pub mod library;
pub mod media;
pub mod fs_ops;
