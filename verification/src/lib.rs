//! Verified cores of a set of asynchronous service patterns: username
//! allocation and message relaying for a chat server, retry with exponential
//! backoff, a connection pool, a log-processing pipeline, HTTP error mapping,
//! an echo connection, a timer future's state, the rounds of a single-threaded
//! executor and a prime-summing workload.
//!
//! Each module holds the decisions of one pattern; the I/O around them (sockets,
//! channels, sleeps, HTTP serving) is done by the caller, which hands each
//! decision function the event it saw and performs the action it returns.

pub mod text;
pub mod chat;
pub mod retry;
mod rng;
pub mod primes;
pub mod app_error;
pub mod pool;
pub mod pipeline;
pub mod echo;
pub mod timer;
pub mod task_queue;
pub mod scheduler;
