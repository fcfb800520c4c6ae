//! A registry for long-running background jobs.
//!
//! A caller enqueues a unit of background work and receives an opaque
//! numeric handle at once; it can later poll the handle for the job's
//! result or force the job's removal. The registry is the single source
//! of truth for in-flight jobs: it allocates handles, keeps one record
//! per live job, translates the job's one-shot result channel into a
//! small polling protocol, and supports forced removal of work that
//! never reports back.

pub mod config;
pub mod polling;
pub mod system;
pub mod trusted;
