pub mod attrs;
pub mod binding;
pub mod builder;
pub mod chain;
pub mod channel;
pub mod control;
pub mod demux;
pub mod envelope;
pub mod error;
pub mod graph;
pub mod media;
pub mod scheduler;
pub mod stream;
pub mod worker;
