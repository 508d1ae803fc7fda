//! Verified core of FerroCopy: the decision logic of a parallel file copy
//! tool (copy planning, retry policy, progress bookkeeping, command
//! dispatch, pipelines and change tracking), kept apart from its I/O.

pub mod change_detection;
pub mod color_scheme;
pub mod config;
pub mod text;
pub mod plugin;
pub mod schedule;
pub mod ssh;
pub mod events;
pub mod standalone;
pub mod eventloop;
pub mod file_watcher;
pub mod message;
pub mod rpc;
pub mod engine;
pub mod hash;
pub mod progress;
pub mod session;
pub mod worker;
pub mod lua;
pub mod shell;
pub mod crash;
pub mod guid;
pub mod layers;
pub mod dot;
