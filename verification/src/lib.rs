//! A resilient session engine for message-framed connections.
//!
//! The crate models the four pieces that carry all the lifecycle and
//! failure-handling logic of such a system: a connector that retries
//! transient failures with fixed-interval backoff, a per-connection
//! session loop that multiplexes inbound frames, outbound queue entries
//! and a shutdown notification, a shared registry counting live
//! connections, and an idempotent shutdown coordinator. The decisions of
//! each piece are verified here; the surrounding I/O (the transport, the
//! timers, the signal handler) is driven by an unverified host program.

pub mod connector;
pub mod queue;
pub mod registry;
pub mod session;
pub mod shutdown;

pub use connector::{ConnectDecision, ConnectError, Connector};
pub use queue::{OutboundQueue, QueueEntry};
pub use registry::{ConnectionRegistry, RegistryOp};
pub use session::{ExitReason, Role, Session, SessionAction, SessionEvent, SessionState};
pub use shutdown::ShutdownCoordinator;
