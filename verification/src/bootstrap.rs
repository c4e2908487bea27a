//! The one-time, irreversible transition from a firmware-service-backed
//! environment to a self-sufficient one, modeled as an explicit protocol:
//! probe the memory map's size, fetch the map, ask firmware to hand the
//! machine over, and retry a bounded number of times when the snapshot went
//! stale in between. The decisions live here as a pure step function from
//! state and event to next state and action; the surrounding runtime
//! performs each action against the platform and feeds the outcome back as
//! the next event.

use crate::memory::MemoryMapSnapshot;
use vstd::prelude::*;

verus! {

/// Who owns the machine's core services: firmware until the handoff
/// completes, the kernel afterwards. Once `KernelOwned`, firmware services
/// must be treated as permanently unavailable.
#[derive(Clone, Copy, Debug, PartialEq, Eq, Structural)]
pub enum OwnershipPhase {
    FirmwareOwned,
    KernelOwned,
}

/// The explicit retry bound of the probe/fetch cycle, a configuration
/// value, not a hidden loop constant.
#[derive(Clone, Copy, Debug, PartialEq, Eq, Structural)]
pub struct BootstrapConfig {
    pub max_retries: u32,
}

/// Where the handoff protocol stands. `attempts` counts the retries taken
/// so far after staleness or a rejected ownership transfer.
#[derive(Debug)]
pub enum BootstrapState {
    /// Waiting for firmware to report the memory map's current size.
    AwaitSize { attempts: u32 },
    /// Waiting for the map itself, fetched into a buffer of the probed
    /// size.
    AwaitMap { attempts: u32, size: usize },
    /// Holding a fetched snapshot, waiting for firmware to accept the
    /// ownership transfer.
    AwaitExit { attempts: u32, snapshot: MemoryMapSnapshot },
    /// The transfer succeeded: the snapshot is the final authoritative
    /// memory map for the whole boot, and firmware services are gone.
    Complete { snapshot: MemoryMapSnapshot },
    /// The retry bound was exhausted. There is no safe recovery once
    /// firmware services may be partially revoked; the machine must halt.
    Failed,
}

/// What the surrounding runtime must do next against the platform.
#[derive(Clone, Copy, Debug, PartialEq, Eq, Structural)]
pub enum BootAction {
    /// Ask firmware for the memory map's current size.
    ProbeSize,
    /// Allocate `size` bytes and fetch the map into them.
    FetchMap { size: usize },
    /// Ask firmware to transfer ownership of the machine, consuming the
    /// firmware handle.
    ExitFirmware,
    /// Continue the boot: the handoff is complete.
    Proceed,
    /// Park the processor forever; the boot has failed irrecoverably.
    Halt,
}

/// What the platform answered to the previous action.
#[derive(Debug)]
pub enum BootEvent {
    /// The probe reported the map's current size.
    SizeProbed { size: usize },
    /// The fetch produced a consistent snapshot.
    MapFetched { snapshot: MemoryMapSnapshot },
    /// The fetch found the map changed under it; the snapshot is stale.
    MapStale,
    /// Firmware accepted the ownership transfer.
    ExitAccepted,
    /// Firmware rejected the transfer because the map changed since the
    /// fetch.
    ExitRejected,
}

/// The ownership phase a protocol state implies: the kernel owns the
/// machine exactly when the handoff has completed.
pub open spec fn phase_of(state: BootstrapState) -> OwnershipPhase {
    match state {
        BootstrapState::Complete { .. } => OwnershipPhase::KernelOwned,
        _ => OwnershipPhase::FirmwareOwned,
    }
}

/// The protocol still expects an event: it has neither completed nor
/// failed. Stepping a finished protocol would mean calling firmware after
/// the transfer, so it is excluded by precondition rather than left
/// undefined.
pub open spec fn is_live(state: BootstrapState) -> bool {
    match state {
        BootstrapState::Complete { .. } => false,
        BootstrapState::Failed => false,
        _ => true,
    }
}

/// The event answers the action the state is waiting on.
pub open spec fn event_fits(state: BootstrapState, event: BootEvent) -> bool {
    match state {
        BootstrapState::AwaitSize { .. } => event is SizeProbed,
        BootstrapState::AwaitMap { .. } => event is MapFetched || event is MapStale,
        BootstrapState::AwaitExit { .. } => event is ExitAccepted || event is ExitRejected,
        _ => false,
    }
}

/// The retry count never exceeds the configured bound.
pub open spec fn state_wf(state: BootstrapState, config: BootstrapConfig) -> bool {
    match state {
        BootstrapState::AwaitSize { attempts } => attempts <= config.max_retries,
        BootstrapState::AwaitMap { attempts, .. } => attempts <= config.max_retries,
        BootstrapState::AwaitExit { attempts, .. } => attempts <= config.max_retries,
        _ => true,
    }
}

/// The state the protocol starts in, and the first action to perform.
pub fn initial(config: &BootstrapConfig) -> (r: (BootstrapState, BootAction))
    ensures
        r.0 matches BootstrapState::AwaitSize { attempts } && attempts == 0,
        r.1 == BootAction::ProbeSize,
        state_wf(r.0, *config),
        is_live(r.0),
        phase_of(r.0) == OwnershipPhase::FirmwareOwned,
{
    (BootstrapState::AwaitSize { attempts: 0 }, BootAction::ProbeSize)
}

/// One decision of the handoff protocol.
///
/// A probed size leads to a fetch of that size; a consistent fetch leads to
/// the ownership-transfer request; an accepted transfer completes the
/// handoff with the fetched snapshot as the final memory map. A stale fetch
/// or a rejected transfer re-probes from the start while retries remain,
/// and otherwise fails the boot, whose only remaining action is to halt.
/// The phase flips to `KernelOwned` exactly on acceptance, and a finished
/// protocol cannot be stepped again.
pub fn step(state: BootstrapState, event: BootEvent, config: &BootstrapConfig) -> (r: (
    BootstrapState,
    BootAction,
))
    requires
        is_live(state),
        event_fits(state, event),
        state_wf(state, *config),
    ensures
        state_wf(r.0, *config),
        state matches BootstrapState::AwaitSize { attempts } ==> event matches BootEvent::SizeProbed
            { size } && r.0 == (BootstrapState::AwaitMap { attempts, size }) && r.1 == (
        BootAction::FetchMap { size }),
        state matches BootstrapState::AwaitMap { attempts, size } ==> (match event {
            BootEvent::MapFetched { snapshot } => r.0 == (BootstrapState::AwaitExit {
                attempts,
                snapshot,
            }) && r.1 == BootAction::ExitFirmware,
            BootEvent::MapStale => r == retry_outcome(attempts, *config),
            _ => true,
        }),
        state matches BootstrapState::AwaitExit { attempts, snapshot } ==> (match event {
            BootEvent::ExitAccepted => r.0 == (BootstrapState::Complete { snapshot }) && r.1
                == BootAction::Proceed && phase_of(r.0) == OwnershipPhase::KernelOwned,
            BootEvent::ExitRejected => r == retry_outcome(attempts, *config),
            _ => true,
        }),
        is_live(r.0) <==> !(r.1 == BootAction::Proceed || r.1 == BootAction::Halt),
{
    match state {
        BootstrapState::AwaitSize { attempts } => {
            match event {
                BootEvent::SizeProbed { size } => (
                    BootstrapState::AwaitMap { attempts, size },
                    BootAction::FetchMap { size },
                ),
                _ => (BootstrapState::Failed, BootAction::Halt),
            }
        },
        BootstrapState::AwaitMap { attempts, size } => {
            match event {
                BootEvent::MapFetched { snapshot } => (
                    BootstrapState::AwaitExit { attempts, snapshot },
                    BootAction::ExitFirmware,
                ),
                BootEvent::MapStale => retry(attempts, config),
                _ => (BootstrapState::Failed, BootAction::Halt),
            }
        },
        BootstrapState::AwaitExit { attempts, snapshot } => {
            match event {
                BootEvent::ExitAccepted => (
                    BootstrapState::Complete { snapshot },
                    BootAction::Proceed,
                ),
                BootEvent::ExitRejected => retry(attempts, config),
                _ => (BootstrapState::Failed, BootAction::Halt),
            }
        },
        _ => (BootstrapState::Failed, BootAction::Halt),
    }
}

/// Where a stale snapshot or a rejected transfer leads: one more re-probe
/// while retries remain, otherwise the failed state whose action is to
/// halt.
pub open spec fn retry_outcome(attempts: u32, config: BootstrapConfig) -> (
    BootstrapState,
    BootAction,
) {
    if attempts < config.max_retries {
        (BootstrapState::AwaitSize { attempts: (attempts + 1) as u32 }, BootAction::ProbeSize)
    } else {
        (BootstrapState::Failed, BootAction::Halt)
    }
}

/// Takes one more retry if the bound allows, and fails the boot otherwise.
fn retry(attempts: u32, config: &BootstrapConfig) -> (r: (BootstrapState, BootAction))
    requires
        attempts <= config.max_retries,
    ensures
        r == retry_outcome(attempts, *config),
        state_wf(r.0, *config),
{
    if attempts < config.max_retries {
        (BootstrapState::AwaitSize { attempts: attempts + 1 }, BootAction::ProbeSize)
    } else {
        (BootstrapState::Failed, BootAction::Halt)
    }
}

/// Retries are bounded: every retry outcome either raises the attempt count
/// by exactly one, staying within the bound, or fails the boot. A run of
/// the protocol therefore re-probes at most `max_retries` times before it
/// either completes or halts.
pub proof fn lemma_retries_bounded(attempts: u32, config: BootstrapConfig)
    requires
        attempts <= config.max_retries,
    ensures
        retry_outcome(attempts, config).0 matches BootstrapState::AwaitSize { attempts: a } ==> a
            == attempts + 1 && a <= config.max_retries,
        attempts == config.max_retries ==> retry_outcome(attempts, config) == (
        BootstrapState::Failed, BootAction::Halt),
{
}

} // verus!
