//! A remote job-execution queue: clients submit command lines, workers pull
//! jobs and stream back output and exit status, and clients stream input to
//! a running job or signal it.
//!
//! The crate holds the per-stream byte buffers ([`FdTable`]), the life cycle
//! of one job ([`job::JobRecord`]), the first-come-first-served rendezvous of
//! jobs and workers ([`server::MatchingQueue`]), and the listener's book of
//! job ids with the text of its replies.

pub mod command;
pub mod fd_table;
pub mod job;
pub mod server;
pub mod status;
pub mod transport;
pub mod wire;

pub use crate::command::CommandLine;
pub use crate::command::ServerCommand;
pub use crate::fd_table::FdTable;
pub use crate::job::Job;
pub use crate::job::Run;
pub use crate::server::Server;
pub use crate::status::ExitStatus;
pub use crate::status::Interaction;
pub use crate::status::JobStatus;
pub use crate::status::Output;
pub use crate::status::Query;
pub use crate::status::RunStatus;
pub use crate::status::Signal;
pub use crate::transport::ZmqJob;
pub use crate::transport::ZmqRun;
