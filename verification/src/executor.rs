use vstd::prelude::*;

use crate::ctx::{FlameCache, FlameCluster, FlameContext, FlameExecutorLimits, FlameExecutors, Shim};
use crate::error::{text, FlameError};
use crate::keyed::{KeyedStore, Snapshot};

verus! {

/// The life cycle of an executor.
#[derive(Debug, Clone, Copy, PartialEq, Eq, Structural)]
pub enum ExecutorState {
    Unknown,
    Void,
    Idle,
    Binding,
    Bound,
    Unbinding,
    Releasing,
    Released,
}

impl View for ExecutorState {
    type V = ExecutorState;

    open spec fn view(&self) -> ExecutorState {
        *self
    }
}

impl Snapshot for ExecutorState {
    fn snapshot(&self) -> (r: Self) {
        *self
    }
}

/// Resources: CPUs and memory.
#[derive(Debug, Clone, Copy, PartialEq, Eq, Structural)]
pub struct ResourceRequirement {
    pub cpu: u64,
    pub memory: u64,
}

impl Default for ResourceRequirement {
    fn default() -> (r: Self)
        ensures
            r.cpu == 0 && r.memory == 0,
    {
        ResourceRequirement { cpu: 0, memory: 0 }
    }
}

#[derive(Debug, Clone, Copy, PartialEq, Eq, Structural)]
pub enum NodeState {
    Unknown,
    Ready,
    NotReady,
}

pub struct NodeInfo {
    pub arch: String,
    pub os: String,
}

/// A worker node and its resources.
pub struct Node {
    pub name: String,
    pub state: NodeState,
    pub capacity: ResourceRequirement,
    pub allocatable: ResourceRequirement,
    pub info: NodeInfo,
}

/// An executor as the manager tracks it.
pub struct Executor {
    pub id: String,
    pub node: String,
    pub resreq: ResourceRequirement,
    pub slots: u32,
    /// The session the executor is bound to.
    pub session: Option<String>,
    /// The task the executor runs.
    pub task: Option<String>,
    pub context: Option<FlameContext>,
    pub shim: Option<Shim>,
    pub state: ExecutorState,
}

/// Two configurations hold the same settings.
pub open spec fn same_context(a: FlameContext, b: FlameContext) -> bool {
    &&& a.cluster.name@ == b.cluster.name@
    &&& a.cluster.endpoint@ == b.cluster.endpoint@
    &&& a.cluster.slot@ == b.cluster.slot@
    &&& a.cluster.policy@ == b.cluster.policy@
    &&& a.cluster.storage@ == b.cluster.storage@
    &&& a.executors.shim == b.executors.shim
    &&& a.executors.limits.max_executors == b.executors.limits.max_executors
    &&& (a.cache is Some <==> b.cache is Some)
    &&& (b.cache matches Some(cc) ==> a.cache->0.endpoint@ == cc.endpoint@)
}

/// A copy of a configuration with the same settings.
pub fn copy_context(c: &FlameContext) -> (r: FlameContext)
    ensures
        same_context(r, *c),
{
    FlameContext {
        cluster: FlameCluster {
            name: c.cluster.name.clone(),
            endpoint: c.cluster.endpoint.clone(),
            slot: c.cluster.slot.clone(),
            policy: c.cluster.policy.clone(),
            storage: c.cluster.storage.clone(),
        },
        executors: FlameExecutors {
            shim: c.executors.shim,
            limits: FlameExecutorLimits { max_executors: c.executors.limits.max_executors },
        },
        cache: match &c.cache {
            Some(cc) => Some(FlameCache { endpoint: cc.endpoint.clone() }),
            None => None,
        },
    }
}

/// What the manager does with an executor update.
pub enum ExecutorAction {
    /// The executor was released: it is forgotten.
    Remove,
    /// A new executor: it is kept and its work starts.
    Start(Executor),
    /// A known executor: nothing to do.
    Keep,
}

/// The executors a node's manager tracks, by id, with their state when first seen.
pub struct ExecutorManager {
    ctx: FlameContext,
    executors: KeyedStore<String, ExecutorState>,
}

impl ExecutorManager {
    pub closed spec fn wf(&self) -> bool {
        self.executors.wf()
    }

    /// The executors the manager knows.
    pub closed spec fn known(&self) -> Map<Seq<char>, ExecutorState> {
        self.executors@
    }

    /// The configuration the manager runs with.
    pub closed spec fn config(&self) -> FlameContext {
        self.ctx
    }

    /// The shim the manager's configuration sets for its executors.
    pub closed spec fn configured_shim(&self) -> Shim {
        self.ctx.executors.shim
    }

    /// What handling an update does: a released executor is forgotten; one
    /// not seen before is kept and started with the manager's configuration
    /// and shim; a known one is left alone.
    pub open spec fn update_handled(
        before: Self,
        after: Self,
        executor: Executor,
        r: ExecutorAction,
    ) -> bool {
        let known = before.known().dom().contains(executor.id@);
        if executor.state == ExecutorState::Released {
            r is Remove && after.known() == before.known().remove(executor.id@)
        } else if !known {
            &&& after.known() == before.known().insert(executor.id@, executor.state)
            &&& r matches ExecutorAction::Start(e)
            &&& e.context matches Some(c) && same_context(c, before.config())
            &&& e.shim == Some(before.configured_shim())
            &&& e.id == executor.id
            &&& e.node == executor.node
            &&& e.resreq == executor.resreq
            &&& e.task == executor.task
            &&& e.state == executor.state
            &&& e.session == executor.session
            &&& e.slots == executor.slots
        } else {
            r is Keep && after.known() == before.known()
        }
    }

    /// A manager with no executors under the configuration `ctx`.
    pub fn new(ctx: FlameContext) -> (r: Self)
        ensures
            r.wf(),
            r.known() == Map::<Seq<char>, ExecutorState>::empty(),
            r.configured_shim() == ctx.executors.shim,
            r.config() == ctx,
    {
        ExecutorManager { ctx, executors: KeyedStore::new() }
    }

    /// Handles an executor update from the session manager: a released executor is
    /// forgotten; an executor not seen before is kept and started with the
    /// manager's configuration and shim; a known one is left alone.
    pub fn handle_executor_update(&mut self, executor: Executor) -> (r: ExecutorAction)
        requires
            old(self).wf(),
        ensures
            final(self).wf(),
            final(self).configured_shim() == old(self).configured_shim(),
            final(self).config() == old(self).config(),
            Self::update_handled(*old(self), *final(self), executor, r),
    {
        if executor.state == ExecutorState::Released {
            let sel = IdIs(executor.id.clone());
            self.executors.remove_selected(&sel);
            proof {
                assert(self.executors@ =~= old(self).executors@.remove(executor.id@));
            }
            return ExecutorAction::Remove;
        }
        if self.executors.get(&executor.id).is_none() {
            let mut e = executor;
            e.context = Some(copy_context(&self.ctx));
            e.shim = Some(self.ctx.executors.shim);
            self.executors.insert(e.id.clone(), e.state);
            return ExecutorAction::Start(e);
        }
        ExecutorAction::Keep
    }
}

/// Selects one key.
pub struct IdIs(pub String);

impl crate::keyed::KeySelector<String> for IdIs {
    open spec fn selects(&self, k: Seq<char>) -> bool {
        k == self.0@
    }

    fn select(&self, k: &String) -> (r: bool) {
        *k == self.0
    }
}

/// Once released, an executor is no longer known; an update for a new
/// executor that is not released makes it known.
pub proof fn law_release_forgets(m: Map<Seq<char>, ExecutorState>, id: Seq<char>)
    ensures
        !m.remove(id).dom().contains(id),
        !m.dom().contains(id) ==> forall|s: ExecutorState| #[trigger]
            m.insert(id, s).dom().contains(id),
{
}

/// How many times the manager asks an instance to enter a session before it
/// gives up.
pub const ON_SESSION_ENTER_MAX_RETRIES: u32 = 5;

/// The base of the wait between two attempts, in seconds.
pub const ON_SESSION_ENTER_RETRY_DELAY_SECS: u64 = 5;

/// The wait after a failed attempt: the attempt number squared times the base.
pub open spec fn spec_retry_delay(attempt: u32) -> int {
    attempt * attempt * ON_SESSION_ENTER_RETRY_DELAY_SECS
}

/// The wait after failed attempt `attempt`, in seconds.
pub fn retry_delay_secs(attempt: u32) -> (r: u64)
    requires
        attempt <= ON_SESSION_ENTER_MAX_RETRIES,
    ensures
        r == spec_retry_delay(attempt),
{
    assert(attempt * attempt <= 25) by (nonlinear_arith)
        requires
            attempt <= 5,
    ;
    (attempt as u64) * (attempt as u64) * ON_SESSION_ENTER_RETRY_DELAY_SECS
}

/// What an idle executor knows of the session it is offered.
pub struct OfferedSession {
    pub session_id: String,
    pub application: String,
    pub shim: Option<Shim>,
}

/// Where an idle executor is in binding to a session.
#[derive(Debug, Clone, Copy, PartialEq, Eq, Structural)]
pub enum IdlePhase {
    /// Waiting for the answer to the bind request.
    Binding,
    /// Waiting for the shim instance to be created.
    CreatingShim,
    /// Waiting for the answer to entering the session, at this attempt.
    Entering(u32),
    /// Waiting for the session manager to confirm the binding.
    Completing,
    Done,
}

/// What the outside world answered.
pub enum IdleEvent {
    /// The session manager offered a session, or none.
    BindAnswered(Option<OfferedSession>),
    /// The shim instance is ready.
    ShimReady,
    /// The instance entered the session, or failed to.
    EnterAnswered(bool),
    /// The binding is confirmed.
    Completed,
}

/// What to do next.
#[derive(Debug, Clone, Copy, PartialEq, Eq, Structural)]
pub enum IdleAction {
    /// No session: release the executor.
    Release,
    /// The session's application needs another shim: fail.
    RejectShim,
    /// Create the shim instance for the session's application.
    CreateShim,
    /// Ask the instance to enter the session.
    EnterSession,
    /// Wait this many seconds, then ask the instance to enter the session again.
    RetryAfter(u64),
    /// Every attempt failed: fail with the last error.
    GiveUp,
    /// Confirm the binding with the session manager.
    CompleteBinding,
    /// Mark the executor bound to the session.
    MarkBound,
    /// The event does not fit the phase: nothing to do.
    Ignore,
}

/// The next phase and action of an idle executor, given the event.
pub open spec fn spec_idle_step(executor_shim: Option<Shim>, phase: IdlePhase, event: IdleEvent) -> (
    IdlePhase,
    IdleAction,
) {
    match (phase, event) {
        (IdlePhase::Binding, IdleEvent::BindAnswered(None)) => (IdlePhase::Done, IdleAction::Release),
        (IdlePhase::Binding, IdleEvent::BindAnswered(Some(s))) => if executor_shim != s.shim {
            (IdlePhase::Done, IdleAction::RejectShim)
        } else {
            (IdlePhase::CreatingShim, IdleAction::CreateShim)
        },
        (IdlePhase::CreatingShim, IdleEvent::ShimReady) => (
            IdlePhase::Entering(1),
            IdleAction::EnterSession,
        ),
        (IdlePhase::Entering(a), IdleEvent::EnterAnswered(true)) => (
            IdlePhase::Completing,
            IdleAction::CompleteBinding,
        ),
        (IdlePhase::Entering(a), IdleEvent::EnterAnswered(false)) => if a
            < ON_SESSION_ENTER_MAX_RETRIES {
            (IdlePhase::Entering((a + 1) as u32), IdleAction::RetryAfter(spec_retry_delay(a) as u64))
        } else {
            (IdlePhase::Done, IdleAction::GiveUp)
        },
        (IdlePhase::Completing, IdleEvent::Completed) => (IdlePhase::Done, IdleAction::MarkBound),
        _ => (phase, IdleAction::Ignore),
    }
}

/// The phases an idle executor passes through are well formed: attempts count
/// from 1 to the maximum.
pub open spec fn phase_ok(p: IdlePhase) -> bool {
    match p {
        IdlePhase::Entering(a) => 1 <= a <= ON_SESSION_ENTER_MAX_RETRIES,
        _ => true,
    }
}

/// One step of an idle executor: binds to an offered session whose shim the
/// executor supports, releases it when there is none, and retries entering the
/// session up to five times with growing waits.
pub fn idle_step(executor_shim: Option<Shim>, phase: IdlePhase, event: &IdleEvent) -> (r: (
    IdlePhase,
    IdleAction,
))
    requires
        phase_ok(phase),
    ensures
        r == spec_idle_step(executor_shim, phase, *event),
        phase_ok(r.0),
        phase == IdlePhase::Binding ==> match *event {
            IdleEvent::BindAnswered(Some(s)) => if executor_shim == s.shim {
                r == (IdlePhase::CreatingShim, IdleAction::CreateShim)
            } else {
                r == (IdlePhase::Done, IdleAction::RejectShim)
            },
            IdleEvent::BindAnswered(None) => r == (IdlePhase::Done, IdleAction::Release),
            _ => r == (phase, IdleAction::Ignore),
        },
{
    proof {
        if *event is BindAnswered && (*event)->BindAnswered_0 is Some {
            let s = (*event)->BindAnswered_0->0;
            law_bind_outcomes(executor_shim, s);
            law_binding_path(executor_shim, s, 1);
        }
    }
    match (phase, event) {
        (IdlePhase::Binding, IdleEvent::BindAnswered(None)) => (IdlePhase::Done, IdleAction::Release),
        (IdlePhase::Binding, IdleEvent::BindAnswered(Some(s))) => {
            let same = match (executor_shim, s.shim) {
                (Some(a), Some(b)) => a == b,
                (None, None) => true,
                _ => false,
            };
            if !same {
                (IdlePhase::Done, IdleAction::RejectShim)
            } else {
                (IdlePhase::CreatingShim, IdleAction::CreateShim)
            }
        },
        (IdlePhase::CreatingShim, IdleEvent::ShimReady) => (
            IdlePhase::Entering(1),
            IdleAction::EnterSession,
        ),
        (IdlePhase::Entering(_), IdleEvent::EnterAnswered(true)) => (
            IdlePhase::Completing,
            IdleAction::CompleteBinding,
        ),
        (IdlePhase::Entering(a), IdleEvent::EnterAnswered(false)) => {
            if a < ON_SESSION_ENTER_MAX_RETRIES {
                (IdlePhase::Entering(a + 1), IdleAction::RetryAfter(retry_delay_secs(a)))
            } else {
                (IdlePhase::Done, IdleAction::GiveUp)
            }
        },
        (IdlePhase::Completing, IdleEvent::Completed) => (IdlePhase::Done, IdleAction::MarkBound),
        _ => (phase, IdleAction::Ignore),
    }
}

/// What the stream from the session manager hands to the executor manager.
pub enum ExecutorMessage {
    /// An executor was created or changed.
    Update(Executor),
}

impl ExecutorManager {
    /// Handles one message from the stream.
    pub fn handle_message(&mut self, msg: ExecutorMessage) -> (r: ExecutorAction)
        requires
            old(self).wf(),
        ensures
            final(self).wf(),
            final(self).configured_shim() == old(self).configured_shim(),
            final(self).config() == old(self).config(),
            msg matches ExecutorMessage::Update(e) && Self::update_handled(
                *old(self),
                *final(self),
                e,
                r,
            ),
    {
        match msg {
            ExecutorMessage::Update(e) => self.handle_executor_update(e),
        }
    }
}

fn copy_offer(s: &OfferedSession) -> (r: OfferedSession)
    ensures
        r.session_id@ == s.session_id@,
        r.application@ == s.application@,
        r.shim == s.shim,
{
    OfferedSession {
        session_id: s.session_id.clone(),
        application: s.application.clone(),
        shim: s.shim,
    }
}

/// One step of an idle executor as `IdleState::on_event` takes it: the phase
/// and action follow `spec_idle_step`; a release clears the session and a
/// bind marks the offered session, each keeping the executor's other fields;
/// any other action leaves the executor alone; only the bind answer that
/// leads to creating the shim sets the offered session.
pub open spec fn idle_transition(
    before: IdleState,
    event: IdleEvent,
    a: IdleAction,
    after: IdleState,
) -> bool {
    &&& (after.phase, a) == spec_idle_step(before.executor.shim, before.phase, event)
    &&& a == IdleAction::Release ==> {
        &&& after.executor.session is None
        &&& after.executor.state == ExecutorState::Releasing
        &&& same_but_binding(after.executor, before.executor)
    }
    &&& a == IdleAction::MarkBound ==> {
        &&& before.offered is Some
        &&& after.executor.session matches Some(sid) && sid@ == before.offered->0.session_id@
        &&& after.executor.state == ExecutorState::Bound
        &&& same_but_binding(after.executor, before.executor)
    }
    &&& a != IdleAction::Release && a != IdleAction::MarkBound ==> after.executor
        == before.executor
    &&& a == IdleAction::CreateShim ==> (event matches IdleEvent::BindAnswered(Some(s))
        && after.offered matches Some(o) && o.session_id@ == s.session_id@
        && o.application@ == s.application@ && o.shim == s.shim)
    &&& a != IdleAction::CreateShim ==> after.offered == before.offered
}

/// `e` is a bind answer that offers the session `sid`.
pub open spec fn offers(e: IdleEvent, sid: Seq<char>) -> bool {
    e matches IdleEvent::BindAnswered(Some(s)) && s.session_id@ == sid
}

/// Whatever events an idle executor goes through from the start, the session
/// it is marked bound to is one a bind answer offered before.
pub proof fn law_bound_session_was_offered(
    states: Seq<IdleState>,
    events: Seq<IdleEvent>,
    actions: Seq<IdleAction>,
    k: int,
)
    requires
        states.len() == events.len() + 1,
        actions.len() == events.len(),
        states[0].offered is None,
        forall|i: int|
            0 <= i < events.len() ==> #[trigger] idle_transition(
                states[i],
                events[i],
                actions[i],
                states[i + 1],
            ),
        0 <= k < actions.len(),
        actions[k] == IdleAction::MarkBound,
    ensures
        (states[k + 1].executor.session matches Some(sid) && exists|j: int|
            0 <= j < k && #[trigger] offers(events[j], sid@)),
{
    lemma_offered_came_from_bind(states, events, actions, k);
    assert(idle_transition(states[k], events[k], actions[k], states[k + 1]));
}

proof fn lemma_offered_came_from_bind(
    states: Seq<IdleState>,
    events: Seq<IdleEvent>,
    actions: Seq<IdleAction>,
    n: int,
)
    requires
        states.len() == events.len() + 1,
        actions.len() == events.len(),
        states[0].offered is None,
        forall|i: int|
            0 <= i < events.len() ==> #[trigger] idle_transition(
                states[i],
                events[i],
                actions[i],
                states[i + 1],
            ),
        0 <= n <= events.len(),
    ensures
        states[n].offered is Some ==> exists|j: int|
            0 <= j < n && #[trigger] offers(events[j], states[n].offered->0.session_id@),
    decreases n,
{
    if n > 0 {
        let i = n - 1;
        lemma_offered_came_from_bind(states, events, actions, i);
        assert(idle_transition(states[i], events[i], actions[i], states[i + 1]));
        assert(i + 1 == n);
        if actions[n - 1] == IdleAction::CreateShim {
            assert(offers(events[n - 1], states[n].offered->0.session_id@));
        } else if states[n].offered is Some {
            let j = choose|j: int|
                0 <= j < n - 1 && #[trigger] offers(events[j], states[n - 1].offered->0.session_id@);
            assert(offers(events[j], states[n].offered->0.session_id@));
        }
    }
}

/// An idle executor binding to a session: the executor, where it is in the
/// binding, and the session it was offered.
pub struct IdleState {
    pub executor: Executor,
    pub phase: IdlePhase,
    pub offered: Option<OfferedSession>,
}

impl IdleState {
    /// An idle executor about to ask for a session.
    pub fn new(executor: Executor) -> (r: Self)
        ensures
            r.executor == executor,
            r.phase == IdlePhase::Binding,
            r.offered is None,
    {
        IdleState { executor, phase: IdlePhase::Binding, offered: None }
    }

    /// An idle state is well formed: the attempt number is in range, and
    /// from the moment a session is accepted until the end, the offered
    /// session is kept.
    pub open spec fn wf(&self) -> bool {
        &&& phase_ok(self.phase)
        &&& (self.phase is CreatingShim || self.phase is Entering || self.phase is Completing)
            ==> self.offered is Some
    }

    /// Takes one answer of the outside world: moves to the next phase, and
    /// applies to the executor what the step decides. With no session
    /// offered, the executor leaves any session and is released; once the
    /// binding is confirmed it is bound to the offered session; in every
    /// other case, a refused shim and a session that could not be entered
    /// among them, the executor is left as it was.
    pub fn on_event(&mut self, event: &IdleEvent) -> (a: IdleAction)
        requires
            old(self).wf(),
        ensures
            final(self).wf(),
            idle_transition(*old(self), *event, a, *final(self)),
    {
        let (phase, action) = idle_step(self.executor.shim, self.phase, event);
        self.phase = phase;
        match action {
            IdleAction::Release => release(&mut self.executor),
            IdleAction::CreateShim => {
                match event {
                    IdleEvent::BindAnswered(Some(s)) => {
                        self.offered = Some(copy_offer(s));
                    },
                    _ => {},
                }
            },
            IdleAction::MarkBound => {
                match &self.offered {
                    Some(s) => mark_bound(&mut self.executor, s),
                    None => {},
                }
            },
            _ => {},
        }
        action
    }
}

/// Everything of two executors but their session and state is the same.
pub open spec fn same_but_binding(a: Executor, b: Executor) -> bool {
    &&& a.id == b.id
    &&& a.node == b.node
    &&& a.resreq == b.resreq
    &&& a.slots == b.slots
    &&& a.task == b.task
    &&& a.context == b.context
    &&& a.shim == b.shim
}

/// An executor with no session to bind: it leaves the session and is released.
pub fn release(executor: &mut Executor)
    ensures
        final(executor).session is None,
        final(executor).state == ExecutorState::Releasing,
        same_but_binding(*final(executor), *old(executor)),
{
    executor.session = None;
    executor.state = ExecutorState::Releasing;
}

/// An executor that entered `session`: it is bound to it.
pub fn mark_bound(executor: &mut Executor, session: &OfferedSession)
    ensures
        final(executor).session matches Some(s) && s@ == session.session_id@,
        final(executor).state == ExecutorState::Bound,
        same_but_binding(*final(executor), *old(executor)),
{
    executor.session = Some(session.session_id.clone());
    executor.state = ExecutorState::Bound;
}

/// The name a shim is written with.
pub open spec fn shim_text(s: Shim) -> Seq<char> {
    match s {
        Shim::Host => "Host"@,
        Shim::Wasm => "Wasm"@,
    }
}

/// An optional shim as it is written: `Some(..)` or `None`.
pub open spec fn opt_shim_text(s: Option<Shim>) -> Seq<char> {
    match s {
        Some(x) => "Some("@ + shim_text(x) + ")"@,
        None => "None"@,
    }
}

fn shim_name(s: Shim) -> (r: String)
    ensures
        r@ == shim_text(s),
{
    proof {
        reveal_strlit("Host");
        reveal_strlit("Wasm");
    }
    match s {
        Shim::Host => text("Host"),
        Shim::Wasm => text("Wasm"),
    }
}

fn opt_shim_name(s: Option<Shim>) -> (r: String)
    ensures
        r@ == opt_shim_text(s),
{
    proof {
        reveal_strlit("Some(");
        reveal_strlit(")");
        reveal_strlit("None");
    }
    match s {
        Some(x) => {
            let mut m = text("Some(");
            m.append(shim_name(x).as_str());
            m.append(")");
            m
        },
        None => text("None"),
    }
}

/// The message of a shim mismatch.
pub open spec fn mismatch_message(executor_shim: Option<Shim>, app_shim: Option<Shim>) -> Seq<
    char,
> {
    "Shim mismatch: executor supports "@ + opt_shim_text(executor_shim)
        + ", application requires "@ + opt_shim_text(app_shim)
}

/// The error of an executor offered a session whose application needs another shim.
pub fn shim_mismatch(executor_shim: Option<Shim>, app_shim: Option<Shim>) -> (r: FlameError)
    ensures
        r matches FlameError::InvalidConfig(m) && m@ == mismatch_message(executor_shim, app_shim),
{
    proof {
        reveal_strlit("Shim mismatch: executor supports ");
        reveal_strlit(", application requires ");
        reveal_strlit("Some(");
        reveal_strlit(")");
        reveal_strlit("None");
    }
    let mut m = text("Shim mismatch: executor supports ");
    m.append(opt_shim_name(executor_shim).as_str());
    m.append(", application requires ");
    m.append(opt_shim_name(app_shim).as_str());
    FlameError::InvalidConfig(m)
}

/// Failed attempts to enter a session end after five: each failure at an attempt
/// below five moves to the next attempt after a wait of 5, 20, 45 or 80 seconds,
/// and the failure at the fifth gives up.
pub proof fn law_enter_attempts_bounded(shim: Option<Shim>, a: u32)
    requires
        1 <= a <= ON_SESSION_ENTER_MAX_RETRIES,
    ensures
        a < ON_SESSION_ENTER_MAX_RETRIES ==> spec_idle_step(
            shim,
            IdlePhase::Entering(a),
            IdleEvent::EnterAnswered(false),
        ) == (IdlePhase::Entering((a + 1) as u32), IdleAction::RetryAfter((a * a * 5) as u64)),
        a == ON_SESSION_ENTER_MAX_RETRIES ==> spec_idle_step(
            shim,
            IdlePhase::Entering(a),
            IdleEvent::EnterAnswered(false),
        ) == (IdlePhase::Done, IdleAction::GiveUp),
{
}

/// An idle executor offered no session is released, and one offered a session
/// whose shim differs from its own is rejected, whatever the phase's history.
pub proof fn law_bind_outcomes(shim: Option<Shim>, s: OfferedSession)
    ensures
        spec_idle_step(shim, IdlePhase::Binding, IdleEvent::BindAnswered(None)) == (
            IdlePhase::Done,
            IdleAction::Release,
        ),
        shim != s.shim ==> spec_idle_step(
            shim,
            IdlePhase::Binding,
            IdleEvent::BindAnswered(Some(s)),
        ) == (IdlePhase::Done, IdleAction::RejectShim),
{
}

/// The way to a binding: an executor offered a session whose shim is its own
/// goes on to create the shim instance, whatever the shim; a ready instance
/// is asked to enter the session at its first attempt; an entered session
/// is confirmed with the session manager; a confirmation marks the executor
/// bound.
pub proof fn law_binding_path(shim: Option<Shim>, s: OfferedSession, a: u32)
    ensures
        shim == s.shim ==> spec_idle_step(shim, IdlePhase::Binding, IdleEvent::BindAnswered(Some(s)))
            == (IdlePhase::CreatingShim, IdleAction::CreateShim),
        spec_idle_step(shim, IdlePhase::CreatingShim, IdleEvent::ShimReady) == (
            IdlePhase::Entering(1),
            IdleAction::EnterSession,
        ),
        spec_idle_step(shim, IdlePhase::Entering(a), IdleEvent::EnterAnswered(true)) == (
            IdlePhase::Completing,
            IdleAction::CompleteBinding,
        ),
        spec_idle_step(shim, IdlePhase::Completing, IdleEvent::Completed) == (
            IdlePhase::Done,
            IdleAction::MarkBound,
        ),
{
}

/// Seconds between heartbeats.
pub const DEFAULT_HEARTBEAT_INTERVAL_SECS: u64 = 5;

/// Seconds before the first reconnection.
pub const DEFAULT_RECONNECT_INTERVAL_SECS: u64 = 1;

/// The longest wait between reconnections, in seconds.
pub const MAX_RECONNECT_INTERVAL_SECS: u64 = 30;

/// Seconds to wait for a response from the server.
pub const RESPONSE_TIMEOUT_SECS: u64 = 10;

/// Keeps the watch stream of a node alive.
pub struct StreamHandler {
    pub node: Node,
    pub reconnect_interval_secs: u64,
    pub heartbeat_interval_secs: u64,
}

impl StreamHandler {
    /// A handler for `node` with the default intervals.
    pub fn new(node: Node) -> (r: Self)
        ensures
            r.reconnect_interval_secs == DEFAULT_RECONNECT_INTERVAL_SECS,
            r.heartbeat_interval_secs == DEFAULT_HEARTBEAT_INTERVAL_SECS,
            r.node == node,
    {
        StreamHandler {
            node,
            reconnect_interval_secs: DEFAULT_RECONNECT_INTERVAL_SECS,
            heartbeat_interval_secs: DEFAULT_HEARTBEAT_INTERVAL_SECS,
        }
    }

    /// After a stream ends: how long to wait before reconnecting, and the wait
    /// after that. A stream that closed gracefully starts over from the initial
    /// interval; the wait doubles after every reconnection, up to the maximum.
    pub fn reconnect_plan(&self, current_secs: u64, closed_gracefully: bool) -> (r: (u64, u64))
        ensures
            r.0 == (if closed_gracefully {
                self.reconnect_interval_secs
            } else {
                current_secs
            }),
            r.1 == (if 2 * r.0 < MAX_RECONNECT_INTERVAL_SECS {
                2 * r.0
            } else {
                MAX_RECONNECT_INTERVAL_SECS as int
            }),
    {
        let wait = if closed_gracefully {
            self.reconnect_interval_secs
        } else {
            current_secs
        };
        let next = if wait < MAX_RECONNECT_INTERVAL_SECS && wait * 2 < MAX_RECONNECT_INTERVAL_SECS {
            wait * 2
        } else {
            MAX_RECONNECT_INTERVAL_SECS
        };
        (wait, next)
    }
}

/// The wait between reconnections never exceeds the maximum and never drops to
/// zero once it started positive.
pub proof fn law_backoff_bounded(wait: u64)
    requires
        1 <= wait <= MAX_RECONNECT_INTERVAL_SECS,
    ensures
        ({
            let next = if 2 * wait < MAX_RECONNECT_INTERVAL_SECS {
                2 * wait
            } else {
                MAX_RECONNECT_INTERVAL_SECS as int
            };
            1 <= next <= MAX_RECONNECT_INTERVAL_SECS && next >= wait
        }),
{
}

/// The wire code of a node state: 0 unknown, 1 ready, 2 not ready.
pub open spec fn spec_node_state_code(s: NodeState) -> i32 {
    match s {
        NodeState::Unknown => 0,
        NodeState::Ready => 1,
        NodeState::NotReady => 2,
    }
}

impl NodeState {
    pub fn code(&self) -> (r: i32)
        ensures
            r == spec_node_state_code(*self),
    {
        match self {
            NodeState::Unknown => 0,
            NodeState::Ready => 1,
            NodeState::NotReady => 2,
        }
    }
}

/// What a heartbeat reports of a node.
pub struct NodeStatus {
    pub state: i32,
    pub capacity: ResourceRequirement,
    pub allocatable: ResourceRequirement,
    pub info: NodeInfo,
}

impl Node {
    /// The status a heartbeat reports: the node's state, capacity, what it
    /// can still allocate, and its platform.
    pub fn status(&self) -> (r: NodeStatus)
        ensures
            r.state == spec_node_state_code(self.state),
            r.capacity == self.capacity,
            r.allocatable == self.allocatable,
            r.info.arch@ == self.info.arch@,
            r.info.os@ == self.info.os@,
    {
        NodeStatus {
            state: self.state.code(),
            capacity: self.capacity,
            allocatable: self.allocatable,
            info: NodeInfo { arch: self.info.arch.clone(), os: self.info.os.clone() },
        }
    }
}

/// How long a stream may stay silent, in seconds: three response timeouts,
/// so that missed heartbeats are allowed for.
pub fn stream_timeout_secs() -> (r: u64)
    ensures
        r == 3 * RESPONSE_TIMEOUT_SECS,
{
    3 * RESPONSE_TIMEOUT_SECS
}

/// What the session manager sends on a node's watch stream.
pub enum WatchNodeResponse {
    /// An executor of the node, created or changed.
    Executor(Executor),
    /// An acknowledgement, with the server's time.
    Ack(i64),
}

/// What one read of the watch stream gave.
pub enum StreamRead {
    /// A message, possibly empty.
    Message(Option<WatchNodeResponse>),
    /// The server closed the stream.
    Closed,
    /// The stream broke, with the transport's words.
    Failed(String),
    /// Nothing came within the timeout.
    TimedOut,
}

/// What the handler does after a read.
pub enum StreamStep {
    /// Hand the executor to the manager, and read on.
    Forward(Executor),
    /// Read on.
    Continue,
    /// The stream is over, gracefully or not.
    Finished(Result<(), FlameError>),
}

pub open spec fn stream_error_message(m: Seq<char>) -> Seq<char> {
    "Stream error: "@ + m
}

/// The step after a read: executors go to the manager; acknowledgements and
/// empty messages are passed over; a closed stream ends well; a broken or
/// silent one ends with a `Network` error.
pub fn handle_read(read: StreamRead) -> (r: StreamStep)
    ensures
        match read {
            StreamRead::Message(Some(WatchNodeResponse::Executor(e))) => r == StreamStep::Forward(e),
            StreamRead::Message(_) => r is Continue,
            StreamRead::Closed => r matches StreamStep::Finished(Ok(_)),
            StreamRead::Failed(m) => r matches StreamStep::Finished(Err(FlameError::Network(e)))
                && e@ == stream_error_message(m@),
            StreamRead::TimedOut => r matches StreamStep::Finished(Err(FlameError::Network(e)))
                && e@ == "Response timeout"@,
        },
{
    match read {
        StreamRead::Message(Some(WatchNodeResponse::Executor(e))) => StreamStep::Forward(e),
        StreamRead::Message(_) => StreamStep::Continue,
        StreamRead::Closed => StreamStep::Finished(Ok(())),
        StreamRead::Failed(m) => {
            let mut e = text("Stream error: ");
            e.append(m.as_str());
            proof {
                reveal_strlit("Stream error: ");
            }
            StreamStep::Finished(Err(FlameError::Network(e)))
        },
        StreamRead::TimedOut => {
            proof {
                reveal_strlit("Response timeout");
            }
            StreamStep::Finished(Err(FlameError::Network(text("Response timeout"))))
        },
    }
}

/// How many threads the executor manager's runtimes get.
pub struct ThreadPlan {
    /// For the object cache: none without a cache, else two, or one on a
    /// single processor.
    pub cache: usize,
    /// For the manager: one per executor the node may run, and one more.
    pub manager: usize,
}

/// The threads for a node with `num_cpus` processors that may run
/// `max_executors` executors, with or without an object cache.
pub fn thread_plan(num_cpus: usize, has_cache: bool, max_executors: u32) -> (r: ThreadPlan)
    requires
        max_executors + 1 <= usize::MAX,
    ensures
        r.cache == (if !has_cache {
            0usize
        } else if num_cpus > 1 {
            2usize
        } else {
            1usize
        }),
        r.manager == max_executors + 1,
{
    let cache: usize = if has_cache {
        if num_cpus > 1 {
            2
        } else {
            1
        }
    } else {
        0
    };
    ThreadPlan { cache, manager: max_executors as usize + 1 }
}

} // verus!
