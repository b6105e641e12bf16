//! A local cache for datasets that a remote service hosts as versioned archives.
//!
//! A dataset is named by a reference of the form `owner/dataset`, optionally pinned to
//! a version. It is downloaded on first use, extracted with care into a directory of
//! its own, recorded with a marker, and served from there ever after. The cache is
//! kept within a budget by removing the entries that were downloaded longest ago.
//!
//! This crate holds every decision of that engine and none of its input and output.
//! The caller reads the environment, talks to the network and touches the disk; it
//! tells the crate what it found and is told what to do next:
//!
//! * [`reference`]: references to datasets, parsed and validated.
//! * [`download`]: the names that belong to a download, and the table of downloads
//!   that are under way.
//! * [`session`]: the steps of one download, from the look for the marker to the
//!   release of the lock.
//! * [`extract`]: what becomes of each entry of an archive.
//! * [`cache`]: the metadata of the entries, their total size, and eviction.
//! * [`ondemand`]: a single file of a dataset, and the fallback to the whole of it.
//! * [`retry`]: bounded retries with exponential backoff, and rate limiting.
//! * [`metadata`]: what the remote service says about a dataset.
//! * [`json`]: what is read of JSON documents, by name.
//! * [`config`], [`credentials`]: the settings and the credentials of the process.
//! * [`error`]: the failures of the engine and their messages.
//! * [`text`], [`utils`]: the string handling that the rest is built on.

pub mod cache;
pub mod config;
pub mod credentials;
pub mod download;
pub mod error;
pub mod extract;
pub mod json;
pub mod metadata;
pub mod ondemand;
pub mod reference;
pub mod retry;
pub mod session;
pub mod text;
pub mod utils;
