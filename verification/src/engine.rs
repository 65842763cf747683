//! Engine decisions: admission, seams, schedules, reload, startup and adoption.

/// Start, cancel, result, list, adoption and shutdown.
pub mod api;
/// What callers of a live engine are told, and what is done for them.
pub mod api_laws;
/// The durable-schedule surface.
pub mod api_schedule;
/// Engine construction.
pub mod builder;
/// Signal, query and subscription surface.
pub mod delegated;
/// The fence-ordering planner for shard adoption.
pub mod fence;
/// Unloading of workflow versions.
pub mod reload;
/// What a repair after a crash starts and retires.
pub mod repair_laws;
/// The engine's own side of the service seam.
pub mod seam_handle;
/// Seam assembly.
pub mod seams;
/// Shutdown gating.
pub mod shutdown_gate;
/// Startup and adoption recovery.
pub mod startup;
/// What recovery makes of a history.
pub mod startup_laws;
/// Crash-window repair sweeps.
pub mod startup_sweeps;
/// What sweeps do to the histories of a store.
pub mod sweep_laws;
