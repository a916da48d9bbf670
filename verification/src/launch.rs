//! Launch policy: what happens after the vault load, and which exit code
//! each kind of failure carries. The decrypted entries (or the load
//! failure) come in as plain values; spawning and waiting happen outside
//! the library, which receives their outcomes the same way.

use vstd::prelude::*;

use crate::envmap::build_overlay;
use crate::envmap::overlay_map;
use crate::envmap::Overlay;

verus! {

/// A fatal failure of the run, by stage.
#[derive(Debug)]
pub enum RunFailure {
    /// Configuration or argument resolution failed.
    Resolution,
    /// The vault could not be loaded or decrypted.
    VaultLoad,
    /// The target process could not be started.
    Spawn,
    /// Waiting on the target failed, or it ended without an exit code.
    Wait,
}

/// The exit code owed to each kind of fatal failure.
pub open spec fn exit_code_of(f: RunFailure) -> int {
    match f {
        RunFailure::Resolution => 1,
        RunFailure::VaultLoad => 2,
        RunFailure::Spawn => 3,
        RunFailure::Wait => 4,
    }
}

/// Maps a fatal failure to the program's exit code.
pub fn exit_code_for(f: &RunFailure) -> (c: i32)
    ensures
        c as int == exit_code_of(*f),
{
    match f {
        RunFailure::Resolution => 1,
        RunFailure::VaultLoad => 2,
        RunFailure::Spawn => 3,
        RunFailure::Wait => 4,
    }
}

/// What loading the vault produced: the decrypted entries that could be
/// read, or a failure (wrong key, unreadable or corrupt store).
pub enum VaultOutcome {
    Loaded(Vec<(String, String)>),
    LoadFailed,
}

/// What to do after the vault step.
pub enum LaunchDecision {
    /// Terminate with this exit code; the target is not started.
    Abort { exit_code: i32 },
    /// Start the target with the overlay attached, reporting how many
    /// secrets were processed.
    Run { overlay: Overlay, secret_count: usize },
}

/// Decides the run's continuation after the vault step. A load failure
/// aborts with its dedicated exit code and the target is never started;
/// otherwise the run proceeds — even with zero secrets — carrying the
/// overlay built from the decrypted entries.
pub fn decide_after_vault(outcome: VaultOutcome) -> (d: LaunchDecision)
    ensures
        match outcome {
            VaultOutcome::LoadFailed => d matches LaunchDecision::Abort { exit_code } && exit_code
                as int == exit_code_of(RunFailure::VaultLoad),
            VaultOutcome::Loaded(pairs) => d matches LaunchDecision::Run {
                overlay,
                secret_count,
            } && overlay@ == overlay_map(pairs.deep_view()) && secret_count == pairs@.len(),
        },
{
    match outcome {
        VaultOutcome::LoadFailed => LaunchDecision::Abort {
            exit_code: exit_code_for(&RunFailure::VaultLoad),
        },
        VaultOutcome::Loaded(pairs) => {
            let (overlay, secret_count) = build_overlay(&pairs);
            LaunchDecision::Run { overlay, secret_count }
        },
    }
}

} // verus!
