//! A newsletter backend: its settings and domain rules, and the pipeline that
//! admits a published issue once and delivers it once per confirmed
//! subscriber.
//!
//! The pipeline has four parts. The idempotency store remembers the response
//! that a request got, so that a repeated request gets it again. The delivery
//! queue holds one task per issue and subscriber and hands each to one worker
//! at a time. The publisher takes a request and stores the issue, its tasks
//! and the response together or not at all. The workers take tasks from the
//! queue, have the email gateway send the emails, and retry what failed a
//! bounded number of times.
//!
//! Nothing here waits, reads a clock or talks to a network: the caller passes
//! the time in and performs the actions that the workers name.

pub mod claims;
pub mod configuration;
pub mod domain;
pub mod gateway;
pub mod idempotency;
pub mod ids;
pub mod issue;
pub mod publisher;
pub mod queue;
pub mod retries;
pub mod routes;
pub mod seqs;
pub mod startup;
pub mod store;
pub mod subscribers;
pub mod text;
pub mod worker;
