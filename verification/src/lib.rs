//! Transport-agnostic core of the Aion workflow engine.
//!
//! The library holds what the engine decides: how durable histories project to
//! outcomes, which version of a package a start resolves, what a lifecycle
//! transition does next, and when an operation is refused. Reading and writing
//! the store, running workflow processes and waiting are left to the embedding
//! program, which performs the step that a decision asks for and hands back
//! what came of it.

/// Rendering and comparing text.
pub mod text;
/// Identifiers of workflows, runs, schedules, activities and timers.
pub mod ids;
/// Instants and spans of time.
pub mod clock;
/// Durable workflow history: payloads, errors and the events that record them.
pub mod event;
/// Projections of durable histories: run segments, terminal events and status.
pub mod history;
/// What projections of histories say, event by event and as a whole.
pub mod history_laws;
/// Durable timers as a history shows them.
pub mod time;
/// Content hashes that identify package versions.
pub mod content_hash;
/// Engine error taxonomy.
pub mod error;
/// What errors and refusals tell.
pub mod error_laws;
/// A small association table that keeps its entries in insertion order.
pub mod table;
/// Workflow packages as the loader reads them.
pub mod package;
/// Workflow package loading surfaces.
pub mod loader;
/// Sorting, with what it keeps and what it establishes.
pub mod sort;
/// Engine-facing seam for time, signal, query, child, and concurrency services.
pub mod engine_seam;
/// Active workflow registry and handle residency tracking.
pub mod registry;
/// Workflow lifecycle operations: start, terminate, suspend, and resume.
pub mod lifecycle;
/// Engine decisions: admission, seams, schedules, reload, startup and adoption.
pub mod engine;
/// The words in which errors and refusals are told.
pub mod message_laws;
