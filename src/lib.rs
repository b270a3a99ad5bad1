pub mod error;
pub mod run_opts;
pub mod scheduler;
pub mod pools;
pub mod collector;
pub mod context;
