//! Ordered start, supervision and stop of a group of processes.
//!
//! The library holds the decisions of the supervisor: the process and
//! supervisor specifications and their builders, the command line that
//! produces them, the restart rate limiter, and the supervision state
//! machine that tells its driver which outside action to perform next.
pub mod decimal;
pub mod specs;
pub mod limiter;
pub mod machine;
pub mod supervisor;
pub mod cli;
