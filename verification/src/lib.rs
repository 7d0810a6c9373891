//! The orchestration of analysis jobs: requests for analysis are read from
//! stored records, each gives rise to one job for every analysis it asks
//! for, the jobs are queued and run one after the other, and the stored
//! request is moved on as its jobs are.
//!
//! The library decides and leaves the doing to its caller. It reads no
//! store, starts no process and publishes nothing: it takes records and
//! the outputs of processes, and hands out updates for the store and
//! processes to run.

pub mod analysis;
pub mod aws;
pub mod error;
pub mod fresh;
pub mod job;
pub mod job_queue;
pub mod job_request;
pub mod job_response;
pub mod job_type;
pub mod numeral;
pub mod record;
pub mod retention;
pub mod series;
pub mod status;
pub mod tasks;
pub mod text;
