//! Ingestion-to-disk pipeline for captured packets: bounded hand-off queues,
//! the capture-file rotation and statistics state machine, and the drain
//! that empties the queues once capture has stopped.

pub mod record;
pub mod capture_file;
pub mod cli_config;
pub mod disk;
pub mod flusher;
pub mod queue;
pub mod stats;
