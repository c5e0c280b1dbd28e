//! The probe orchestration engine: which step comes next in a run.
//!
//! The engine decides; its driver acts. The driver performs each [`Action`]
//! (probe every handler, notify one consumer, sleep) and hands the outcome
//! back as an [`Event`]. A run is one cycle where no consumer is continuous,
//! and cycle after cycle where one is.

use crate::config::Config;
use crate::probe_result::{HandlerInfo, ProbeResult, ResultModel};
use crate::ranking::{build_and_sort_probe_results, cycle_results, ranked, results_model};
use crate::reporter::ProbeReporter;
use vstd::prelude::*;
use vstd::string::StringExecFns;

verus! {

/// How many checks a driver may have in flight at once, whatever the number
/// of handlers.
pub const FAN_OUT_LIMIT: usize = 10;

/// What the engine keeps of a registered consumer.
#[derive(Debug, Clone, PartialEq, Eq)]
pub struct ConsumerInfo {
    pub name: String,
    pub continuous: bool,
}

/// Where a run stands.
#[derive(Debug, Clone, Copy, PartialEq, Eq, Structural)]
pub enum Phase {
    /// No run has started.
    Idle,
    /// The checks of a cycle are under way.
    Probing,
    /// The consumer at this position is being notified.
    Notifying(usize),
    /// The run waits for the next cycle.
    Sleeping,
    /// A single-shot run has ended.
    Finished,
}

/// What the driver has to do next.
#[derive(Debug, Clone, Copy, PartialEq, Eq, Structural)]
pub enum Action {
    /// Check every handler, then report the outcomes.
    Probe,
    /// Hand the current results to the consumer at this position.
    Notify(usize),
    /// Wait this many seconds.
    Sleep(u64),
    /// The run is over.
    Stop,
    /// The event does not belong to the current phase; nothing changed.
    Ignore,
}

/// What the driver reports back.
#[derive(Debug)]
pub enum Event {
    /// The checks are done; the outcome at each position belongs to the
    /// handler at that position: the delay in milliseconds, or the reason of
    /// the failure.
    ProbeDone(Vec<Result<u64, String>>),
    /// A consumer was notified; `true` where it took the results.
    Notified(bool),
    /// The wait is over.
    Woke,
}

/// The mathematical model of an [`Event`].
pub enum EventModel {
    ProbeDone(Seq<Result<u64, String>>),
    Notified(bool),
    Woke,
}

impl View for Event {
    type V = EventModel;

    open spec fn view(&self) -> EventModel {
        match self {
            Event::ProbeDone(outcomes) => EventModel::ProbeDone(outcomes@),
            Event::Notified(delivered) => EventModel::Notified(*delivered),
            Event::Woke => EventModel::Woke,
        }
    }
}

/// Why a run did not start.
#[derive(Debug, Clone, Copy, PartialEq, Eq, Structural)]
pub enum EngineError {
    /// No consumer is registered.
    NoConsumers,
    /// A run is under way.
    AlreadyRunning,
}

/// The state of an engine.
pub struct EngineModel {
    pub handlers: Seq<HandlerInfo>,
    /// The consumers, in registration order.
    pub consumers: Seq<ConsumerInfo>,
    /// The configuration; its probe interval is the number of seconds between
    /// two cycles of a continuous run.
    pub config: Config,
    pub phase: Phase,
    /// Whether the current run is continuous.
    pub continuous: bool,
    /// How many consumers take part in the current cycle.
    pub active: nat,
    /// The ranked results of the most recent cycle.
    pub results: Seq<ResultModel>,
}

/// Whether one of the consumers is continuous.
pub open spec fn any_continuous(consumers: Seq<ConsumerInfo>) -> bool {
    exists|i: int| 0 <= i < consumers.len() && consumers[i].continuous
}

impl EngineModel {
    /// The phase fits the consumers: a cycle under way has at least one consumer,
    /// the consumer being notified takes part in the cycle, only a continuous
    /// run sleeps and only a single-shot run finishes.
    pub open spec fn wf(self) -> bool {
        &&& self.active <= self.consumers.len()
        &&& self.consumers.len() <= usize::MAX
        &&& match self.phase {
            Phase::Idle => true,
            Phase::Probing => self.active >= 1,
            Phase::Notifying(i) => i < self.active,
            Phase::Sleeping => self.active >= 1 && self.continuous,
            Phase::Finished => !self.continuous,
        }
    }

    /// Whether a run is under way.
    pub open spec fn running(self) -> bool {
        self.phase != Phase::Idle && self.phase != Phase::Finished
    }
}

/// The start of a run: refused without consumers and during a run; otherwise
/// the first cycle begins, for all consumers registered so far, and the run
/// is continuous exactly where one of them is.
pub open spec fn start(m: EngineModel) -> Result<EngineModel, EngineError> {
    if m.consumers.len() == 0 {
        Err(EngineError::NoConsumers)
    } else if m.running() {
        Err(EngineError::AlreadyRunning)
    } else {
        Ok(
            EngineModel {
                phase: Phase::Probing,
                continuous: any_continuous(m.consumers),
                active: m.consumers.len(),
                ..m
            },
        )
    }
}

/// The step that an event causes: the next state and what the driver has to
/// do.
pub open spec fn transition(m: EngineModel, e: EventModel) -> (EngineModel, Action) {
    match (m.phase, e) {
        (Phase::Probing, EventModel::ProbeDone(outcomes)) => (
            EngineModel {
                phase: Phase::Notifying(0),
                results: ranked(cycle_results(m.handlers, outcomes)),
                ..m
            },
            Action::Notify(0),
        ),
        (Phase::Notifying(i), EventModel::Notified(_)) => if i + 1 < m.active {
            (EngineModel { phase: Phase::Notifying((i + 1) as usize), ..m }, Action::Notify((i + 1) as usize))
        } else if m.continuous {
            (EngineModel { phase: Phase::Sleeping, ..m }, Action::Sleep(m.config.main.probe_interval))
        } else {
            (EngineModel { phase: Phase::Finished, ..m }, Action::Stop)
        },
        (Phase::Sleeping, EventModel::Woke) => (
            EngineModel { phase: Phase::Probing, active: m.consumers.len(), ..m },
            Action::Probe,
        ),
        (Phase::Finished, _) => (m, Action::Stop),
        _ => (m, Action::Ignore),
    }
}

/// The outcome that a list of finished checks holds for a position: that of
/// its first pair with this position.
pub open spec fn first_outcome(finished: Seq<(usize, Result<u64, String>)>, position: int) -> Option<
    Result<u64, String>,
>
    decreases finished.len(),
{
    if finished.len() == 0 {
        None
    } else if finished.first().0 == position {
        Some(finished.first().1)
    } else {
        first_outcome(finished.drop_first(), position)
    }
}

/// The reason that stands for a check of which nothing was heard.
pub open spec fn unfinished_reason() -> Seq<char> {
    "the check did not finish"@
}

/// Whether `outcome` is what a cycle holds for a position: the outcome of the
/// first finished check with this position, or a failure for the fixed reason
/// where there is none.
pub open spec fn is_outcome_at(
    finished: Seq<(usize, Result<u64, String>)>,
    position: int,
    outcome: Result<u64, String>,
) -> bool {
    match first_outcome(finished, position) {
        Some(found) => outcome == found,
        None => outcome matches Err(reason) && reason@ == unfinished_reason(),
    }
}

fn find_outcome(finished: &Vec<(usize, Result<u64, String>)>, position: usize) -> (r: Option<
    &Result<u64, String>,
>)
    ensures
        match r {
            Some(found) => first_outcome(finished@, position as int) == Some(*found),
            None => first_outcome(finished@, position as int) is None,
        },
{
    let mut k: usize = 0;
    assert(finished@.skip(0) =~= finished@);
    while k < finished.len()
        invariant
            k <= finished@.len(),
            first_outcome(finished@, position as int) == first_outcome(
                finished@.skip(k as int),
                position as int,
            ),
        decreases finished@.len() - k,
    {
        assert(finished@.skip(k as int).first() == finished@[k as int]);
        assert(finished@.skip(k as int).drop_first() =~= finished@.skip(k + 1));
        if finished[k].0 == position {
            return Some(&finished[k].1);
        }
        k = k + 1;
    }
    None
}

/// Puts the outcomes of checks that finished in any order into handler
/// order: for each of the `n` positions the outcome of the first finished
/// check with this position, and a failure where none has it. Pairs with a
/// position of `n` or more have no part in the result.
pub fn outcomes_in_handler_order(n: usize, finished: &Vec<(usize, Result<u64, String>)>) -> (r:
    Vec<Result<u64, String>>)
    ensures
        r@.len() == n,
        forall|i: int| 0 <= i < n ==> is_outcome_at(finished@, i, #[trigger] r@[i]),
{
    let mut outcomes: Vec<Result<u64, String>> = Vec::new();
    let mut i: usize = 0;
    while i < n
        invariant
            i <= n,
            outcomes@.len() == i,
            forall|j: int| 0 <= j < i ==> is_outcome_at(finished@, j, #[trigger] outcomes@[j]),
        decreases n - i,
    {
        let outcome: Result<u64, String> = match find_outcome(finished, i) {
            Some(Ok(delay_ms)) => Ok(*delay_ms),
            Some(Err(reason)) => Err(reason.clone()),
            None => Err(String::from_str("the check did not finish")),
        };
        assert(is_outcome_at(finished@, i as int, outcome));
        outcomes.push(outcome);
        i = i + 1;
    }
    outcomes
}

/// The engine: the handlers of one subscription fetch, the registered
/// consumers, and the state of the run.
pub struct ProbeEngine {
    config: Config,
    handlers: Vec<HandlerInfo>,
    consumers: Vec<ConsumerInfo>,
    phase: Phase,
    continuous: bool,
    active: usize,
    results: Vec<ProbeResult>,
}

impl View for ProbeEngine {
    type V = EngineModel;

    closed spec fn view(&self) -> EngineModel {
        EngineModel {
            handlers: self.handlers@,
            consumers: self.consumers@,
            config: self.config,
            phase: self.phase,
            continuous: self.continuous,
            active: self.active as nat,
            results: results_model(self.results@),
        }
    }
}

impl ProbeEngine {
    #[verifier::type_invariant]
    spec fn inv(&self) -> bool {
        self@.wf()
    }

    /// An idle engine for these handlers, without consumers.
    pub fn new(config: Config, handlers: Vec<HandlerInfo>) -> (r: ProbeEngine)
        ensures
            r@ == (EngineModel {
                handlers: handlers@,
                consumers: Seq::empty(),
                config: config,
                phase: Phase::Idle,
                continuous: false,
                active: 0,
                results: Seq::empty(),
            }),
            r@.wf(),
    {
        let r = ProbeEngine {
            config,
            handlers,
            consumers: Vec::new(),
            phase: Phase::Idle,
            continuous: false,
            active: 0,
            results: Vec::new(),
        };
        assert(r@.consumers =~= Seq::empty());
        assert(r@.results =~= Seq::empty());
        r
    }

    /// Registers a consumer by what the engine needs of it. It takes part
    /// from the next cycle that starts.
    pub fn register_consumer(&mut self, consumer: ConsumerInfo)
        ensures
            final(self)@ == (EngineModel {
                consumers: old(self)@.consumers.push(consumer),
                ..old(self)@
            }),
            final(self)@.wf(),
    {
        proof {
            use_type_invariant(&*self);
        }
        let ghost before = self.consumers@;
        let mut consumers: Vec<ConsumerInfo> = Vec::new();
        let mut i: usize = 0;
        while i < self.consumers.len()
            invariant
                i <= self.consumers@.len(),
                consumers@ == self.consumers@.take(i as int),
            decreases self.consumers@.len() - i,
        {
            let known = &self.consumers[i];
            consumers.push(ConsumerInfo { name: known.name.clone(), continuous: known.continuous });
            i = i + 1;
            assert(consumers@ =~= self.consumers@.take(i as int));
        }
        assert(self.consumers@.take(i as int) =~= before);
        consumers.push(consumer);
        assert(consumers@ =~= before.push(consumer));
        assert(consumers@.len() == consumers.len() <= usize::MAX);
        self.consumers = consumers;
    }

    /// Registers a consumer, asking it for its name and whether it is
    /// continuous: the consumer that is appended carries what the reporter's
    /// own `name` and `is_continuous` answer. The engine is handed back, so
    /// that registrations can follow one another.
    pub fn register_reporter<R: ProbeReporter>(&mut self, reporter: &R) -> (r: &mut Self)
        ensures
            r@.consumers.len() == old(self)@.consumers.len() + 1,
            r@ == (EngineModel {
                consumers: old(self)@.consumers.push(r@.consumers.last()),
                ..old(self)@
            }),
            call_ensures(R::name, (reporter,), r@.consumers.last().name),
            call_ensures(R::is_continuous, (reporter,), r@.consumers.last().continuous),
            r@.wf(),
            *final(self) == *final(r),
    {
        let consumer = ConsumerInfo {
            name: reporter.name(),
            continuous: reporter.is_continuous(),
        };
        self.register_consumer(consumer);
        self
    }

    /// Whether a consumer is registered that needs cycle after cycle.
    pub fn has_continuous_reporters(&self) -> (r: bool)
        ensures
            r == any_continuous(self@.consumers),
    {
        let mut i: usize = 0;
        while i < self.consumers.len()
            invariant
                i <= self.consumers@.len(),
                forall|j: int| 0 <= j < i ==> !self.consumers@[j].continuous,
            decreases self.consumers@.len() - i,
        {
            if self.consumers[i].continuous {
                return true;
            }
            i = i + 1;
        }
        false
    }

    /// Starts a run. The action is `Probe`: the first cycle begins.
    pub fn run(&mut self) -> (r: Result<Action, EngineError>)
        ensures
            match r {
                Ok(action) => action == Action::Probe && start(old(self)@) == Ok::<
                    EngineModel,
                    EngineError,
                >(final(self)@),
                Err(e) => start(old(self)@) == Err::<EngineModel, EngineError>(e) && final(self)@
                    == old(self)@,
            },
            final(self)@.wf(),
    {
        proof {
            use_type_invariant(&*self);
        }
        if self.consumers.len() == 0 {
            return Err(EngineError::NoConsumers);
        }
        match self.phase {
            Phase::Idle | Phase::Finished => {},
            _ => {
                return Err(EngineError::AlreadyRunning);
            },
        }
        let continuous = self.has_continuous_reporters();
        self.active = self.consumers.len();
        self.phase = Phase::Probing;
        self.continuous = continuous;
        Ok(Action::Probe)
    }

    /// Takes an event and says what to do next.
    pub fn step(&mut self, event: Event) -> (action: Action)
        ensures
            (final(self)@, action) == transition(old(self)@, event@),
            final(self)@.wf(),
    {
        proof {
            use_type_invariant(&*self);
        }
        match (self.phase, event) {
            (Phase::Probing, Event::ProbeDone(outcomes)) => {
                let ranked_results = build_and_sort_probe_results(&self.handlers, &outcomes);
                self.results = ranked_results;
                self.phase = Phase::Notifying(0);
                Action::Notify(0)
            },
            (Phase::Notifying(i), Event::Notified(_)) => {
                if i + 1 < self.active {
                    self.phase = Phase::Notifying(i + 1);
                    Action::Notify(i + 1)
                } else if self.continuous {
                    self.phase = Phase::Sleeping;
                    Action::Sleep(self.config.main.probe_interval)
                } else {
                    self.phase = Phase::Finished;
                    Action::Stop
                }
            },
            (Phase::Sleeping, Event::Woke) => {
                self.active = self.consumers.len();
                self.phase = Phase::Probing;
                Action::Probe
            },
            (Phase::Finished, _) => Action::Stop,
            _ => Action::Ignore,
        }
    }

    /// Where the run stands.
    pub fn phase(&self) -> (r: Phase)
        ensures
            r == self@.phase,
    {
        self.phase
    }

    /// The ranked results of the most recent cycle.
    pub fn results(&self) -> (r: &Vec<ProbeResult>)
        ensures
            results_model(r@) == self@.results,
    {
        &self.results
    }

    /// The configuration that the engine was made with.
    pub fn config(&self) -> (r: &Config)
        ensures
            *r == self@.config,
    {
        &self.config
    }

    /// The handlers, in the order in which outcomes are expected.
    pub fn handlers(&self) -> (r: &Vec<HandlerInfo>)
        ensures
            r@ == self@.handlers,
    {
        &self.handlers
    }

    /// The consumers, in registration order.
    pub fn consumers(&self) -> (r: &Vec<ConsumerInfo>)
        ensures
            r@ == self@.consumers,
    {
        &self.consumers
    }
}

// ---------------------------------------------------------------------------
// Laws
// ---------------------------------------------------------------------------
/// Every step leaves a well-formed state.
pub proof fn lemma_transition_keeps_wf(m: EngineModel, e: EventModel)
    requires
        m.wf(),
    ensures
        transition(m, e).0.wf(),
{
}

/// A start leaves a well-formed state, and a started run is under way.
pub proof fn lemma_start_keeps_wf(m: EngineModel)
    requires
        m.wf(),
        start(m) is Ok,
    ensures
        start(m)->Ok_0.wf(),
        start(m)->Ok_0.phase == Phase::Probing,
{
}

/// Consumer isolation: what follows a notification does not depend on
/// whether the consumer took the results. A failing consumer changes neither
/// the next step nor the state, so neither the consumers after it nor the
/// cycles after this one.
pub proof fn lemma_failure_is_isolated(m: EngineModel)
    ensures
        transition(m, EventModel::Notified(false)) == transition(m, EventModel::Notified(true)),
{
}

/// The state after the notifications whose outcomes are `outcomes`.
pub open spec fn after_notifications(m: EngineModel, outcomes: Seq<bool>) -> EngineModel
    decreases outcomes.len(),
{
    if outcomes.len() == 0 {
        m
    } else {
        transition(
            after_notifications(m, outcomes.drop_last()),
            EventModel::Notified(outcomes.last()),
        ).0
    }
}

/// Fan-out: once the results of a cycle are ranked, every consumer of the
/// cycle is notified in turn, with the same results, whatever became of the
/// notifications before it.
pub proof fn lemma_every_consumer_is_notified(m: EngineModel, outcomes: Seq<bool>)
    requires
        m.wf(),
        m.phase == Phase::Notifying(0),
        outcomes.len() < m.active,
    ensures
        after_notifications(m, outcomes) == (EngineModel {
            phase: Phase::Notifying(outcomes.len() as usize),
            ..m
        }),
        outcomes.len() > 0 ==> transition(
            after_notifications(m, outcomes.drop_last()),
            EventModel::Notified(outcomes.last()),
        ).1 == Action::Notify(outcomes.len() as usize),
    decreases outcomes.len(),
{
    if outcomes.len() > 0 {
        lemma_every_consumer_is_notified(m, outcomes.drop_last());
    }
}

/// A cycle ends after its last consumer, whatever became of the
/// notifications: a continuous run sleeps, a single-shot run stops.
pub proof fn lemma_cycle_end(m: EngineModel, outcomes: Seq<bool>)
    requires
        m.wf(),
        m.phase == Phase::Notifying(0),
        outcomes.len() == m.active,
    ensures
        after_notifications(m, outcomes) == (EngineModel {
            phase: if m.continuous {
                Phase::Sleeping
            } else {
                Phase::Finished
            },
            ..m
        }),
        transition(
            after_notifications(m, outcomes.drop_last()),
            EventModel::Notified(outcomes.last()),
        ).1 == if m.continuous {
            Action::Sleep(m.config.main.probe_interval)
        } else {
            Action::Stop
        },
{
    lemma_every_consumer_is_notified(m, outcomes.drop_last());
}

/// Single shot: in a run without a continuous consumer no step starts
/// another cycle or waits for one. The one cycle is the one that the start
/// began.
pub proof fn lemma_single_shot_runs_one_cycle(m: EngineModel, e: EventModel)
    requires
        m.wf(),
        !m.continuous,
    ensures
        transition(m, e).1 != Action::Probe,
        !(transition(m, e).1 is Sleep),
        !transition(m, e).0.continuous,
{
}

/// Once a single-shot run has stopped, it stays stopped.
pub proof fn lemma_finished_stays_finished(m: EngineModel, e: EventModel)
    requires
        m.phase == Phase::Finished,
    ensures
        transition(m, e) == (m, Action::Stop),
{
}

/// Continuous: a run with a continuous consumer never stops. Whatever
/// happens, it stays under way and stays continuous.
pub proof fn lemma_continuous_never_stops(m: EngineModel, e: EventModel)
    requires
        m.wf(),
        m.continuous,
        m.running(),
    ensures
        transition(m, e).1 != Action::Stop,
        transition(m, e).0.running(),
        transition(m, e).0.continuous,
{
}

/// A run is continuous exactly where a consumer registered before its start
/// is continuous.
pub proof fn lemma_mode_is_fixed_at_start(m: EngineModel)
    requires
        start(m) is Ok,
    ensures
        start(m)->Ok_0.continuous == any_continuous(m.consumers),
        start(m)->Ok_0.active == m.consumers.len(),
{
}

} // verus!
