//! Workflow lifecycle operations: start, terminate, suspend, and resume.

/// Workflow completion: what a process exit records and sets off.
pub mod completion;
/// Continue-as-new lifecycle transition support.
pub mod continue_as_new;
/// Elapsed workflow deadlines.
pub mod deadline;
/// Durable operator pause and resume.
pub mod pause;
/// Reopening of failed and cancelled runs.
pub mod reopen;
/// What a reopened run gets back.
pub mod reopen_laws;
/// Workflow start: what is resolved, recorded, spawned and registered, in order.
pub mod start;
/// Terminal workflow transitions: complete, fail, and cancel.
pub mod terminate;
/// Suspend and resume residency transitions.
pub mod transition;
/// What ends, continues, holds and resumes a run.
pub mod transition_laws;
/// Visibility projection.
pub mod visibility;
/// What a visibility row shows.
pub mod visibility_laws;
