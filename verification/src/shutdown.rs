use vstd::prelude::*;
use crate::clock::instant_now;
use crate::text::{to_owned_string, push_str};

verus! {

/// Why the system shuts down.
#[derive(Debug, PartialEq, Eq)]
pub enum ShutdownReason {
    /// Asked for by the user (SIGTERM, SIGINT, Ctrl+C).
    UserRequested,
    /// Another system signal; its name.
    SystemSignal(String),
    /// An application error.
    ApplicationError(String),
    /// The configuration is reloaded.
    ConfigReload,
    /// An administrative command.
    AdminCommand,
    /// A resource ran out; which one.
    ResourceExhaustion(String),
    /// An unexpected error.
    InternalError(String),
}

impl Clone for ShutdownReason {
    fn clone(&self) -> (r: Self)
        ensures
            r == *self,
    {
        match self {
            ShutdownReason::UserRequested => ShutdownReason::UserRequested,
            ShutdownReason::SystemSignal(s) => ShutdownReason::SystemSignal(s.clone()),
            ShutdownReason::ApplicationError(s) => ShutdownReason::ApplicationError(s.clone()),
            ShutdownReason::ConfigReload => ShutdownReason::ConfigReload,
            ShutdownReason::AdminCommand => ShutdownReason::AdminCommand,
            ShutdownReason::ResourceExhaustion(s) => ShutdownReason::ResourceExhaustion(s.clone()),
            ShutdownReason::InternalError(s) => ShutdownReason::InternalError(s.clone()),
        }
    }
}

/// The text a reason is shown as.
pub open spec fn reason_text(r: ShutdownReason) -> Seq<char> {
    match r {
        ShutdownReason::UserRequested => "User requested"@,
        ShutdownReason::SystemSignal(s) => "System signal: "@ + s@,
        ShutdownReason::ApplicationError(s) => "Application error: "@ + s@,
        ShutdownReason::ConfigReload => "Configuration reload"@,
        ShutdownReason::AdminCommand => "Administrative command"@,
        ShutdownReason::ResourceExhaustion(s) => "Resource exhaustion: "@ + s@,
        ShutdownReason::InternalError(s) => "Internal error: "@ + s@,
    }
}

fn labelled(label: &str, detail: &String) -> (r: String)
    ensures
        r@ == label@ + detail@,
{
    let mut t = to_owned_string(label);
    push_str(&mut t, detail.as_str());
    t
}

impl ShutdownReason {
    /// The reason as text.
    pub fn to_string(&self) -> (r: String)
        ensures
            r@ == reason_text(*self),
    {
        match self {
            ShutdownReason::UserRequested => to_owned_string("User requested"),
            ShutdownReason::SystemSignal(s) => labelled("System signal: ", s),
            ShutdownReason::ApplicationError(s) => labelled("Application error: ", s),
            ShutdownReason::ConfigReload => to_owned_string("Configuration reload"),
            ShutdownReason::AdminCommand => to_owned_string("Administrative command"),
            ShutdownReason::ResourceExhaustion(s) => labelled("Resource exhaustion: ", s),
            ShutdownReason::InternalError(s) => labelled("Internal error: ", s),
        }
    }
}

/// The signal sent to every part of the system when a shutdown starts.
#[derive(Debug)]
pub struct ShutdownSignal {
    pub reason: ShutdownReason,
    /// How long the parts have to stop gracefully.
    pub graceful_timeout: std::time::Duration,
    /// When the signal was made.
    pub timestamp: std::time::Instant,
}

impl ShutdownSignal {
    /// A signal for `reason`, stamped with the current time.
    pub fn new(reason: ShutdownReason, graceful_timeout: std::time::Duration) -> (r: Self)
        ensures
            r.reason == reason,
            r.graceful_timeout == graceful_timeout,
    {
        ShutdownSignal { reason, graceful_timeout, timestamp: instant_now() }
    }
}

/// A part of the system that can be shut down.
pub trait ShutdownComponent {
    /// The component's name, for reports.
    fn name(&self) -> &'static str;

    /// Shuts the component down gracefully.
    fn shutdown(&self) -> Result<(), String>;

    /// Shuts the component down at once; by default the same as `shutdown`.
    fn force_shutdown(&self) -> Result<(), String> {
        self.shutdown()
    }
}

/// A component made of a closure that shuts it down and, optionally, one
/// that forces it down.
pub struct ClosureComponent<F: Fn() -> Result<(), String>, G: Fn() -> Result<(), String>> {
    name: &'static str,
    shutdown_fn: F,
    force_shutdown_fn: Option<G>,
}

impl<F: Fn() -> Result<(), String>, G: Fn() -> Result<(), String>> ClosureComponent<F, G> {
    /// Both closures can always be called.
    #[verifier::type_invariant]
    spec fn callable(self) -> bool {
        &&& self.shutdown_fn.requires(())
        &&& match self.force_shutdown_fn {
            Some(g) => g.requires(()),
            None => true,
        }
    }

    /// The closure that shuts the component down.
    pub closed spec fn spec_shutdown_fn(&self) -> F {
        self.shutdown_fn
    }

    /// The closure that forces the component down, if there is one.
    pub closed spec fn spec_force_fn(&self) -> Option<G> {
        self.force_shutdown_fn
    }

    /// The component's name.
    pub closed spec fn spec_name(&self) -> &'static str {
        self.name
    }

    /// A component named `name` that `shutdown_fn` shuts down and
    /// `force_shutdown_fn` forces down.
    pub fn with_force_shutdown(name: &'static str, shutdown_fn: F, force_shutdown_fn: G) -> (r: Self)
        requires
            shutdown_fn.requires(()),
            force_shutdown_fn.requires(()),
        ensures
            r.spec_name() == name,
            r.spec_shutdown_fn() == shutdown_fn,
            r.spec_force_fn() == Some(force_shutdown_fn),
    {
        ClosureComponent { name, shutdown_fn, force_shutdown_fn: Some(force_shutdown_fn) }
    }
}

impl<F: Fn() -> Result<(), String>> ClosureComponent<F, F> {
    /// A component named `name` that `shutdown_fn` shuts down, forced or
    /// not.
    pub fn new(name: &'static str, shutdown_fn: F) -> (r: Self)
        requires
            shutdown_fn.requires(()),
        ensures
            r.spec_name() == name,
            r.spec_shutdown_fn() == shutdown_fn,
            r.spec_force_fn() is None,
    {
        ClosureComponent { name, shutdown_fn, force_shutdown_fn: None }
    }
}

impl<F: Fn() -> Result<(), String>, G: Fn() -> Result<(), String>> ShutdownComponent for ClosureComponent<F, G> {
    fn name(&self) -> (r: &'static str)
        ensures
            r == self.spec_name(),
    {
        self.name
    }

    fn shutdown(&self) -> (r: Result<(), String>)
        ensures
            self.spec_shutdown_fn().ensures((), r),
    {
        proof {
            use_type_invariant(self);
        }
        (self.shutdown_fn)()
    }

    fn force_shutdown(&self) -> (r: Result<(), String>)
        ensures
            match self.spec_force_fn() {
                Some(g) => g.ensures((), r),
                None => self.spec_shutdown_fn().ensures((), r),
            },
    {
        proof {
            use_type_invariant(self);
        }
        match &self.force_shutdown_fn {
            Some(g) => g(),
            None => (self.shutdown_fn)(),
        }
    }
}


/// How a stage of a shutdown ended.
#[derive(Debug, PartialEq, Eq)]
pub enum StageOutcome {
    /// The stage finished in time, with this result.
    Completed(Result<(), String>),
    /// The stage did not finish in time.
    TimedOut,
}

/// Whether a stage completed without an error.
pub open spec fn completed_cleanly(outcome: StageOutcome) -> bool {
    match outcome {
        StageOutcome::Completed(Ok(_)) => true,
        _ => false,
    }
}

/// Whether the forced stage has to run after the graceful one: unless the
/// graceful stage completed cleanly.
pub fn needs_force(graceful: &StageOutcome) -> (r: bool)
    ensures
        r == !completed_cleanly(*graceful),
{
    match graceful {
        StageOutcome::Completed(Ok(())) => false,
        _ => true,
    }
}

/// The error a graceful stage that did not complete cleanly stands for.
pub open spec fn graceful_error(graceful: StageOutcome) -> Seq<char> {
    match graceful {
        StageOutcome::Completed(Err(e)) => e@,
        _ => "Shutdown timed out"@,
    }
}

/// What a shutdown returns: success when the graceful stage completed
/// cleanly; otherwise the forced stage's error when it completed with one,
/// and else the graceful stage's error (the one it completed with, or
/// "Shutdown timed out"). A forced stage that times out is not an error of
/// its own.
pub open spec fn spec_shutdown_outcome(graceful: StageOutcome, forced: StageOutcome) -> Result<(), Seq<char>> {
    if completed_cleanly(graceful) {
        Ok(())
    } else {
        match forced {
            StageOutcome::Completed(Err(e)) => Err(e@),
            _ => Err(graceful_error(graceful)),
        }
    }
}

/// The result of a shutdown whose graceful stage ended as `graceful` and
/// whose forced stage, when it had to run, ended as `forced`.
pub fn shutdown_outcome(graceful: StageOutcome, forced: StageOutcome) -> (r: Result<(), String>)
    ensures
        match (r, spec_shutdown_outcome(graceful, forced)) {
            (Ok(()), Ok(())) => true,
            (Err(a), Err(b)) => a@ == b,
            _ => false,
        },
{
    proof {
        reveal_strlit("Shutdown timed out");
    }
    match graceful {
        StageOutcome::Completed(Ok(())) => Ok(()),
        StageOutcome::Completed(Err(e)) => match forced {
            StageOutcome::Completed(Err(f)) => Err(f),
            _ => Err(e),
        },
        StageOutcome::TimedOut => match forced {
            StageOutcome::Completed(Err(f)) => Err(f),
            _ => Err(to_owned_string("Shutdown timed out")),
        },
    }
}

/// The order in which `count` registered components are shut down: the
/// last registered first.
pub fn shutdown_order(count: usize) -> (r: Vec<usize>)
    ensures
        r@.len() == count,
        forall|i: int| 0 <= i < count ==> r@[i] == count - 1 - i,
{
    let mut order: Vec<usize> = Vec::new();
    let mut k: usize = count;
    while k > 0
        invariant
            k <= count,
            order@.len() == count - k,
            forall|i: int| 0 <= i < count - k ==> order@[i] == count - 1 - i,
        decreases k,
    {
        k = k - 1;
        order.push(k);
    }
    order
}

/// A boxed component is a component: calls go to the component inside.
impl ShutdownComponent for Box<dyn ShutdownComponent> {
    fn name(&self) -> &'static str {
        (**self).name()
    }

    fn shutdown(&self) -> Result<(), String> {
        (**self).shutdown()
    }

    fn force_shutdown(&self) -> Result<(), String> {
        (**self).force_shutdown()
    }
}

/// Shuts the registered components down, last registered first, once.
pub struct ShutdownManager<C: ShutdownComponent> {
    components: Vec<C>,
    graceful_timeout: std::time::Duration,
    force_timeout: std::time::Duration,
    is_shutting_down: bool,
    shutdown_reason: Option<ShutdownReason>,
}

impl<C: ShutdownComponent> ShutdownManager<C> {
    /// Whether a shutdown has started.
    pub closed spec fn spec_shutting_down(&self) -> bool {
        self.is_shutting_down
    }

    /// The reason of the shutdown that started, if one did.
    pub closed spec fn spec_reason(&self) -> Option<ShutdownReason> {
        self.shutdown_reason
    }

    /// How long components have to stop gracefully.
    pub closed spec fn spec_graceful_timeout(&self) -> std::time::Duration {
        self.graceful_timeout
    }

    /// How long components have to stop when forced.
    pub closed spec fn spec_force_timeout(&self) -> std::time::Duration {
        self.force_timeout
    }

    /// How many components are registered.
    pub closed spec fn spec_component_count(&self) -> nat {
        self.components@.len()
    }

    /// No components and no shutdown yet.
    pub fn new(graceful_timeout: std::time::Duration, force_timeout: std::time::Duration) -> (r: Self)
        ensures
            !r.spec_shutting_down(),
            r.spec_reason() is None,
            r.spec_component_count() == 0,
            r.spec_graceful_timeout() == graceful_timeout,
            r.spec_force_timeout() == force_timeout,
    {
        ShutdownManager {
            components: Vec::new(),
            graceful_timeout,
            force_timeout,
            is_shutting_down: false,
            shutdown_reason: None,
        }
    }

    /// Registers a component; it will be shut down before every component
    /// registered earlier.
    pub fn register_component(&mut self, component: C)
        ensures
            final(self).spec_component_count() == old(self).spec_component_count() + 1,
            final(self).spec_shutting_down() == old(self).spec_shutting_down(),
            final(self).spec_reason() == old(self).spec_reason(),
    {
        self.components.push(component);
    }

    /// How long components have to stop gracefully.
    pub fn graceful_timeout(&self) -> (r: std::time::Duration)
        ensures
            r == self.spec_graceful_timeout(),
    {
        self.graceful_timeout
    }

    /// How long components have to stop when forced.
    pub fn force_timeout(&self) -> (r: std::time::Duration)
        ensures
            r == self.spec_force_timeout(),
    {
        self.force_timeout
    }

    /// Shuts every component down gracefully, last registered first; a
    /// component that fails does not stop the others.
    fn shutdown_components(&self) -> (r: Result<(), String>)
        ensures
            r is Ok,
    {
        let order = shutdown_order(self.components.len());
        let mut i: usize = 0;
        while i < order.len()
            invariant
                i <= order@.len(),
                order@.len() == self.components@.len(),
                forall|k: int| 0 <= k < order@.len() ==> order@[k] == order@.len() - 1 - k,
            decreases order@.len() - i,
        {
            let k = order[i];
            match self.components[k].shutdown() {
                Ok(()) => {},
                Err(_) => {},
            }
            i = i + 1;
        }
        Ok(())
    }

    /// Forces every component down, last registered first; a component
    /// that fails does not stop the others.
    fn force_shutdown_components(&self) -> (r: Result<(), String>)
        ensures
            r is Ok,
    {
        let order = shutdown_order(self.components.len());
        let mut i: usize = 0;
        while i < order.len()
            invariant
                i <= order@.len(),
                order@.len() == self.components@.len(),
                forall|k: int| 0 <= k < order@.len() ==> order@[k] == order@.len() - 1 - k,
            decreases order@.len() - i,
        {
            let k = order[i];
            match self.components[k].force_shutdown() {
                Ok(()) => {},
                Err(_) => {},
            }
            i = i + 1;
        }
        Ok(())
    }

    /// Starts the shutdown for `reason` and shuts every component down,
    /// last registered first. A second call while one has started does
    /// nothing. Component failures are passed over, so the shutdown
    /// succeeds.
    pub fn shutdown(&mut self, reason: ShutdownReason) -> (r: Result<(), String>)
        ensures
            r is Ok,
            final(self).spec_shutting_down(),
            final(self).spec_component_count() == old(self).spec_component_count(),
            old(self).spec_shutting_down() ==> final(self).spec_reason() == old(self).spec_reason(),
            !old(self).spec_shutting_down() ==> final(self).spec_reason() == Some(reason),
    {
        if self.is_shutting_down {
            return Ok(());
        }
        self.is_shutting_down = true;
        self.shutdown_reason = Some(reason);
        let graceful = StageOutcome::Completed(self.shutdown_components());
        let forced = if needs_force(&graceful) {
            StageOutcome::Completed(self.force_shutdown_components())
        } else {
            StageOutcome::Completed(Ok(()))
        };
        shutdown_outcome(graceful, forced)
    }

    /// Whether a shutdown has started.
    pub fn is_shutting_down(&self) -> (r: bool)
        ensures
            r == self.spec_shutting_down(),
    {
        self.is_shutting_down
    }

    /// The reason of the shutdown that started, if one did.
    pub fn shutdown_reason(&self) -> (r: Option<ShutdownReason>)
        ensures
            r == self.spec_reason(),
    {
        match &self.shutdown_reason {
            Some(reason) => Some(reason.clone()),
            None => None,
        }
    }
}
} // verus!
