//! The control plane's lifecycle: the classifier is loaded, attached to an
//! interface in the driver's accelerated mode or, where the driver lacks it,
//! in the generic mode, and detached on an interrupt. A rejected load or
//! attach is fatal to startup. The process around it performs each action
//! and reports what came of it.
use vstd::prelude::*;

verus! {

/// How the classifier is bound to the interface.
#[derive(Clone, Copy, Debug, PartialEq, Eq, Structural)]
pub enum AttachMode {
    /// Run inside the network driver.
    Driver,
    /// Run in the kernel's generic receive path.
    Generic,
}

/// Where the control plane stands.
#[derive(Clone, Copy, Debug, PartialEq, Eq, Structural)]
pub enum Stage {
    /// Nothing is installed.
    Unloaded,
    /// The classifier is validated and installed but sees no traffic.
    Loaded,
    /// The classifier sees the interface's traffic.
    Attached(AttachMode),
    /// The classifier was unbound and torn down on an interrupt.
    Detached,
    /// Startup failed; nothing is attached.
    Failed,
}

/// What came of the last action, or an outside interrupt.
#[derive(Clone, Copy, Debug, PartialEq, Eq, Structural)]
pub enum Event {
    /// The classifier was validated and installed.
    LoadSucceeded,
    /// Validation rejected the classifier, or its object could not be read.
    LoadRejected,
    /// The interface accepted the classifier in this mode.
    AttachSucceeded(AttachMode),
    /// The interface refused the classifier in this mode, or does not exist.
    AttachRejected(AttachMode),
    /// An interrupt signal arrived.
    Interrupted,
}

/// What the process does next.
#[derive(Clone, Copy, Debug, PartialEq, Eq, Structural)]
pub enum Action {
    /// Validate and install the classifier.
    Load,
    /// Bind the classifier to the interface in this mode.
    Attach(AttachMode),
    /// Seed the tables and serve the administrative API.
    Serve,
    /// Unbind the classifier and exit cleanly.
    Detach,
    /// Exit with a diagnostic and a failure status.
    Abort,
    /// Nothing; the event does not apply here.
    Wait,
}

/// The lifecycle's transitions: the next stage and the action that enters it.
pub open spec fn transition(stage: Stage, event: Event) -> (Stage, Action) {
    match (stage, event) {
        (Stage::Unloaded, Event::LoadSucceeded) => (Stage::Loaded, Action::Attach(AttachMode::Driver)),
        (Stage::Unloaded, Event::LoadRejected) => (Stage::Failed, Action::Abort),
        (Stage::Loaded, Event::AttachSucceeded(m)) => (Stage::Attached(m), Action::Serve),
        (Stage::Loaded, Event::AttachRejected(AttachMode::Driver)) => (
            Stage::Loaded,
            Action::Attach(AttachMode::Generic),
        ),
        (Stage::Loaded, Event::AttachRejected(AttachMode::Generic)) => (Stage::Failed, Action::Abort),
        (Stage::Attached(_), Event::Interrupted) => (Stage::Detached, Action::Detach),
        (Stage::Unloaded, Event::Interrupted) => (Stage::Failed, Action::Abort),
        (Stage::Loaded, Event::Interrupted) => (Stage::Failed, Action::Abort),
        _ => (stage, Action::Wait),
    }
}

/// The exit status of a process that stopped in `stage`: zero only after a
/// clean detach.
pub open spec fn spec_exit_code(stage: Stage) -> i32 {
    if stage == Stage::Detached {
        0
    } else {
        1
    }
}

/// The first action of a process that has not loaded anything yet.
pub fn start() -> (r: (Stage, Action))
    ensures
        r == (Stage::Unloaded, Action::Load),
{
    (Stage::Unloaded, Action::Load)
}

/// The next stage and action after `event` in `stage`.
pub fn step(stage: Stage, event: Event) -> (r: (Stage, Action))
    ensures
        r == transition(stage, event),
{
    match (stage, event) {
        (Stage::Unloaded, Event::LoadSucceeded) => (Stage::Loaded, Action::Attach(AttachMode::Driver)),
        (Stage::Unloaded, Event::LoadRejected) => (Stage::Failed, Action::Abort),
        (Stage::Loaded, Event::AttachSucceeded(m)) => (Stage::Attached(m), Action::Serve),
        (Stage::Loaded, Event::AttachRejected(AttachMode::Driver)) => (
            Stage::Loaded,
            Action::Attach(AttachMode::Generic),
        ),
        (Stage::Loaded, Event::AttachRejected(AttachMode::Generic)) => (Stage::Failed, Action::Abort),
        (Stage::Attached(_), Event::Interrupted) => (Stage::Detached, Action::Detach),
        (Stage::Unloaded, Event::Interrupted) => (Stage::Failed, Action::Abort),
        (Stage::Loaded, Event::Interrupted) => (Stage::Failed, Action::Abort),
        _ => (stage, Action::Wait),
    }
}

/// The process's exit status once it stops in `stage`.
pub fn exit_code(stage: Stage) -> (r: i32)
    ensures
        r == spec_exit_code(stage),
{
    match stage {
        Stage::Detached => 0,
        _ => 1,
    }
}

/// Detached and failed are final: no event leads out of them, and neither
/// asks for another action.
pub proof fn lemma_final_stages_absorb(stage: Stage, event: Event)
    requires
        stage == Stage::Detached || stage == Stage::Failed,
    ensures
        transition(stage, event) == (stage, Action::Wait),
{
}

/// Serving starts only on entering an attached stage, and a detach only
/// leaves one; the generic mode is tried only after the driver refused.
pub proof fn lemma_transitions_respect_order(stage: Stage, event: Event)
    ensures
        transition(stage, event).1 == Action::Serve ==> stage == Stage::Loaded
            && transition(stage, event).0 is Attached,
        transition(stage, event).1 == Action::Detach ==> stage is Attached
            && transition(stage, event).0 == Stage::Detached,
        transition(stage, event).1 == Action::Attach(AttachMode::Generic) ==> event
            == Event::AttachRejected(AttachMode::Driver),
        transition(stage, event).0 == Stage::Detached ==> stage is Attached || stage
            == Stage::Detached,
{
}

} // verus!
