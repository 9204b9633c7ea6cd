use vstd::prelude::*;
use crate::text::to_owned_string;

verus! {

/// Why the server shuts down.
#[derive(Debug, Clone, Copy, PartialEq, Eq, Structural)]
pub enum ShutdownReason {
    /// Asked for (SIGTERM, Ctrl+C).
    Graceful,
    /// A critical error.
    Emergency,
    /// The configuration is reloaded.
    Reload,
    /// Resources ran out.
    ResourceExhaustion,
}

/// Where a shutdown stands.
#[derive(Debug, Clone, Copy, PartialEq, Eq, Structural)]
pub enum ShutdownPhase {
    Running,
    Initiated,
    StoppingConnections,
    DrainingConnections,
    Cleanup,
    Complete,
    Failed,
}

/// Why a shutdown failed.
#[derive(Debug, Clone, PartialEq, Eq)]
pub enum ShutdownError {
    Timeout { timeout_secs: u64 },
    ComponentError { component: String, error: String },
    SignalError { error: String },
    AlreadyShuttingDown,
    CleanupError { resource: String, error: String },
}

/// A component's report that it has shut down.
#[derive(Debug)]
pub struct ComponentShutdown {
    pub component_name: String,
    pub shutdown_result: Result<(), String>,
    pub shutdown_duration_ms: u64,
}

/// Either of two values.
#[derive(Debug, Clone, Copy, PartialEq, Eq, Structural)]
pub enum Either<A, B> {
    /// The shutdown signal came first.
    Shutdown(A),
    /// The operation finished first.
    Completed(B),
}

/// The phase a successful shutdown moves to from `p`: initiated, stopping
/// connections, draining them, cleanup, complete; the end phases stay.
pub open spec fn spec_next_phase(p: ShutdownPhase) -> ShutdownPhase {
    match p {
        ShutdownPhase::Running => ShutdownPhase::Initiated,
        ShutdownPhase::Initiated => ShutdownPhase::StoppingConnections,
        ShutdownPhase::StoppingConnections => ShutdownPhase::DrainingConnections,
        ShutdownPhase::DrainingConnections => ShutdownPhase::Cleanup,
        ShutdownPhase::Cleanup => ShutdownPhase::Complete,
        ShutdownPhase::Complete => ShutdownPhase::Complete,
        ShutdownPhase::Failed => ShutdownPhase::Failed,
    }
}

/// The phase after `p` in a successful shutdown.
pub fn next_phase(p: ShutdownPhase) -> (r: ShutdownPhase)
    ensures
        r == spec_next_phase(p),
{
    match p {
        ShutdownPhase::Running => ShutdownPhase::Initiated,
        ShutdownPhase::Initiated => ShutdownPhase::StoppingConnections,
        ShutdownPhase::StoppingConnections => ShutdownPhase::DrainingConnections,
        ShutdownPhase::DrainingConnections => ShutdownPhase::Cleanup,
        ShutdownPhase::Cleanup => ShutdownPhase::Complete,
        ShutdownPhase::Complete => ShutdownPhase::Complete,
        ShutdownPhase::Failed => ShutdownPhase::Failed,
    }
}

/// The position of the first failed report, if any.
pub open spec fn first_failure(reports: Seq<ComponentShutdown>) -> Option<int> {
    if exists|i: int| 0 <= i < reports.len() && reports[i].shutdown_result is Err {
        Some(choose|i: int| 0 <= i < reports.len() && reports[i].shutdown_result is Err
            && forall|j: int| 0 <= j < i ==> reports[j].shutdown_result is Ok)
    } else {
        None
    }
}

/// What the reports of the components say of the shutdown: fine when all
/// succeeded, else the first failure.
pub fn components_outcome(reports: &Vec<ComponentShutdown>) -> (r: Result<(), ShutdownError>)
    ensures
        match first_failure(reports@) {
            None => r is Ok,
            Some(i) => r matches Err(ShutdownError::ComponentError { component, error })
                && component@ == reports@[i].component_name@
                && (reports@[i].shutdown_result matches Err(e) && error@ == e@),
        },
{
    let mut i: usize = 0;
    while i < reports.len()
        invariant
            i <= reports@.len(),
            forall|j: int| 0 <= j < i ==> reports@[j].shutdown_result is Ok,
        decreases reports@.len() - i,
    {
        match &reports[i].shutdown_result {
            Err(e) => {
                proof {
                    let s = reports@;
                    let w = choose|k: int| 0 <= k < s.len() && s[k].shutdown_result is Err
                        && forall|j: int| 0 <= j < k ==> s[j].shutdown_result is Ok;
                    if w < i {
                        assert(s[w].shutdown_result is Ok);
                    } else if w > i {
                        assert(s[i as int].shutdown_result is Err);
                    }
                }
                return Err(ShutdownError::ComponentError {
                    component: to_owned_string(reports[i].component_name.as_str()),
                    error: to_owned_string(e.as_str()),
                });
            },
            Ok(()) => {},
        }
        i = i + 1;
    }
    Ok(())
}

/// The shutdown state of the server: whether it is shutting down, its
/// phase and the components that must report.
#[derive(Debug)]
pub struct ShutdownCoordinator {
    pub shutting_down: bool,
    pub phase: ShutdownPhase,
    pub components: Vec<String>,
}

impl ShutdownCoordinator {
    /// Running, with no components.
    pub fn new() -> (r: Self)
        ensures
            !r.shutting_down,
            r.phase == ShutdownPhase::Running,
            r.components@.len() == 0,
    {
        ShutdownCoordinator { shutting_down: false, phase: ShutdownPhase::Running, components: Vec::new() }
    }

    /// Registers component `name`.
    pub fn register_component(&mut self, name: String)
        ensures
            final(self).components@ == old(self).components@.push(name),
            final(self).shutting_down == old(self).shutting_down,
            final(self).phase == old(self).phase,
    {
        self.components.push(name);
    }

    /// Starts a shutdown; refused when one is under way.
    pub fn begin_shutdown(&mut self) -> (r: Result<(), ShutdownError>)
        ensures
            old(self).shutting_down ==> r == Err::<(), ShutdownError>(ShutdownError::AlreadyShuttingDown),
            !old(self).shutting_down ==> r is Ok,
            final(self).shutting_down,
            final(self).phase == old(self).phase,
            final(self).components@ == old(self).components@,
    {
        if self.shutting_down {
            return Err(ShutdownError::AlreadyShuttingDown);
        }
        self.shutting_down = true;
        Ok(())
    }

    /// Moves to the next phase of a successful shutdown.
    pub fn advance(&mut self) -> (r: ShutdownPhase)
        ensures
            r == spec_next_phase(old(self).phase),
            final(self).phase == r,
            final(self).shutting_down == old(self).shutting_down,
            final(self).components@ == old(self).components@,
    {
        self.phase = next_phase(self.phase);
        self.phase
    }

    /// Marks the shutdown failed.
    pub fn fail(&mut self)
        ensures
            final(self).phase == ShutdownPhase::Failed,
            final(self).shutting_down == old(self).shutting_down,
            final(self).components@ == old(self).components@,
    {
        self.phase = ShutdownPhase::Failed;
    }

    /// The current phase.
    pub fn current_phase(&self) -> (r: ShutdownPhase)
        ensures
            r == self.phase,
    {
        self.phase
    }

    /// Whether a shutdown is under way.
    pub fn is_shutting_down(&self) -> (r: bool)
        ensures
            r == self.shutting_down,
    {
        self.shutting_down
    }
}

} // verus!
