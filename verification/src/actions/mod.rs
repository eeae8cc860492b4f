//! Actions that the server can perform: keeping track of contexts, waits and
//! analyses, reporting errors, watching files.
pub mod analysis;
pub mod context;
pub mod contexts;
pub mod waits;
pub mod compile_info;
pub mod jobs;
pub mod config_change;
pub mod report;
pub mod words;
pub mod versions;
pub mod file_watch;
pub mod client_requests;
pub mod init;
pub mod notifications;
pub mod laws;
pub mod context_laws;
pub mod config_laws;
pub mod report_laws;
pub mod wait_laws;
pub mod job_laws;
pub mod document_laws;
