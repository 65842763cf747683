//! Seam-assembly decisions made while an engine is built: event-streaming store wrapping
//! and resolution of the final seams.

use vstd::prelude::*;

use crate::clock::TimeSpan;
use crate::error::EngineError;

verus! {

/// How the configured event store is used.
#[derive(Clone, Copy, Debug, PartialEq, Eq, Structural)]
pub enum EventStreaming {
    /// As it is.
    Plain,
    /// Wrapped, so that every append is published to a broadcast of this capacity.
    Publishing {
        /// Capacity of the broadcast.
        capacity: usize,
    },
}

/// Decides whether the configured store is wrapped for live event streaming.
///
/// # Errors
///
/// [`EngineError::ConflictingEventPublisher`] when streaming is asked for and the
/// event-publisher seam was set explicitly.
pub fn wrap_event_streaming(capacity: Option<usize>, event_publisher_overridden: bool) -> (result:
    Result<EventStreaming, EngineError>)
    ensures
        match capacity {
            None => result == Ok::<EventStreaming, EngineError>(EventStreaming::Plain),
            Some(capacity) => if event_publisher_overridden {
                result matches Err(EngineError::ConflictingEventPublisher)
            } else {
                result == Ok::<EventStreaming, EngineError>(EventStreaming::Publishing { capacity })
            },
        },
{
    match capacity {
        None => Ok(EventStreaming::Plain),
        Some(capacity) => {
            if event_publisher_overridden {
                return Err(EngineError::ConflictingEventPublisher);
            }
            Ok(EventStreaming::Publishing { capacity })
        },
    }
}

/// Where the signal-routing seam comes from.
#[derive(Clone, Copy, Debug, PartialEq, Eq, Structural)]
pub enum SignalSeam {
    /// The one that was configured, or the deferred one.
    Configured,
    /// The configured factory, applied to the assembled runtime.
    Factory,
}

/// Where the query-dispatch seam comes from.
#[derive(Clone, Copy, Debug, PartialEq, Eq, Structural)]
pub enum QuerySeam {
    /// The one that was configured, or the deferred one.
    Configured,
    /// The concrete service, with this reply timeout.
    Concrete {
        /// Reply timeout.
        timeout: TimeSpan,
    },
}

/// Where the event-publisher seam comes from.
#[derive(Clone, Copy, Debug, PartialEq, Eq, Structural)]
pub enum PublisherSeam {
    /// The one that was configured, or the deferred one.
    Configured,
    /// The broadcast publisher of the wrapped store.
    Broadcast,
}

/// The final seams of an engine.
#[derive(Clone, Copy, Debug, PartialEq, Eq, Structural)]
pub struct SeamPlan {
    /// Signal routing.
    pub signal: SignalSeam,
    /// Query dispatch.
    pub query: QuerySeam,
    /// Event publication.
    pub publisher: PublisherSeam,
}

/// What decides the final seams.
#[derive(Clone, Copy, Debug, PartialEq, Eq, Structural)]
pub struct SeamAssembly {
    /// A signal-router factory was configured.
    pub signal_router_factory: bool,
    /// How the event store is used.
    pub streaming: EventStreaming,
    /// The configured query reply timeout.
    pub query_timeout: Option<TimeSpan>,
    /// The query seam was set explicitly.
    pub query_service_overridden: bool,
}

/// Resolves the final seams. A query timeout installs the concrete service unless an
/// explicit one was set; without a timeout no concrete service is installed.
pub fn assemble_delegated_seams(assembly: SeamAssembly) -> (plan: SeamPlan)
    ensures
        plan.signal == if assembly.signal_router_factory {
            SignalSeam::Factory
        } else {
            SignalSeam::Configured
        },
        plan.publisher == if assembly.streaming is Publishing {
            PublisherSeam::Broadcast
        } else {
            PublisherSeam::Configured
        },
        plan.query == match assembly.query_timeout {
            Some(timeout) if !assembly.query_service_overridden => QuerySeam::Concrete { timeout },
            _ => QuerySeam::Configured,
        },
{
    let signal = if assembly.signal_router_factory {
        SignalSeam::Factory
    } else {
        SignalSeam::Configured
    };
    let publisher = match assembly.streaming {
        EventStreaming::Publishing { .. } => PublisherSeam::Broadcast,
        EventStreaming::Plain => PublisherSeam::Configured,
    };
    let query = match assembly.query_timeout {
        Some(timeout) => {
            if assembly.query_service_overridden {
                QuerySeam::Configured
            } else {
                QuerySeam::Concrete { timeout }
            }
        },
        None => QuerySeam::Configured,
    };
    SeamPlan { signal, query, publisher }
}

} // verus!
