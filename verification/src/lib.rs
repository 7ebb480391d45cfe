//! Core logic of a terminal dashboard that monitors and controls jobs on a
//! batch scheduler: parsing and merging of the two job-listing sources,
//! selection and navigation state, the single-file tail subscription, and the
//! serialization of cancel/requeue actions.

pub mod app;
pub mod file_watcher;
pub mod job_watcher;
pub mod slurm;
pub mod strutil;
