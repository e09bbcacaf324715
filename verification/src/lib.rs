//! A verified model of a fixed-tick frame scheduler that hosts background
//! network jobs: a task registry with a per-id lifecycle, the per-tick
//! lifecycle system that promotes requested jobs into running ones, a
//! bounded bridge channel carrying continuations from background tasks to
//! the frame-scheduler thread, and the request router of the built-in
//! HTTP handler.
//!
//! The surrounding process (the async executor, the HTTP transport, the
//! actual tick loop) lives outside this crate and drives these types; all
//! state transitions and their invariants are proved here.

pub mod bridge;
pub mod lifecycle;
pub mod registry;
pub mod router;
pub mod scheduler;

pub use bridge::Bridge;
pub use bridge::BridgeClosed;
pub use bridge::BridgeMsg;
pub use bridge::Continuation;
pub use lifecycle::SpawnOrder;
pub use lifecycle::TaskRuntime;
pub use registry::JobState;
pub use registry::Registry;
pub use registry::TaskHandle;
pub use router::HttpResponse;
pub use router::Method;
pub use router::RoutePlan;
pub use scheduler::Completion;
pub use scheduler::MainThreadContext;
pub use scheduler::TickReport;
