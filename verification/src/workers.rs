//! The execution models, and what happens when a worker fails.
use vstd::prelude::*;

use crate::cpu::CortexM0Plus;
use crate::emulator::{Emulator, EmulatorState};
use crate::host::saturated;

verus! {

/// Workers that a threaded chip needs: one for each core and a coordinator.
pub const MIN_WORKERS: usize = 3;

#[derive(Clone, Copy, Debug, PartialEq, Eq, Structural)]
pub enum ExecutionModel {
    /// Everything on the caller's thread, a step at a time.
    Serial,
    /// Workers that meet after each quantum.
    Threaded,
}

#[derive(Clone, Copy, Debug, PartialEq, Eq, Structural)]
pub enum WorkerName {
    Core0,
    Core1,
    Coord,
}

#[derive(Debug, PartialEq, Eq)]
pub enum EmulatorError {
    /// A threaded chip runs whole quanta only.
    NotSupportedInThreadedMode,
    WorkerPanicked { which: WorkerName, message: String },
    BarrierTimeout { which: WorkerName, elapsed_ms: u64 },
}

/// An error as the contracts speak of it.
#[verifier::ext_equal]
pub enum Failure {
    NotSupported,
    Panicked { which: WorkerName, message: Seq<char> },
    TimedOut { which: WorkerName, elapsed_ms: u64 },
}

impl View for EmulatorError {
    type V = Failure;

    open spec fn view(&self) -> Failure {
        match *self {
            EmulatorError::NotSupportedInThreadedMode => Failure::NotSupported,
            EmulatorError::WorkerPanicked { which, message } => Failure::Panicked { which, message: message@ },
            EmulatorError::BarrierTimeout { which, elapsed_ms } => Failure::TimedOut { which, elapsed_ms },
        }
    }
}

/// How a chip is run, and what its workers have come to.
#[verifier::ext_equal]
pub struct Crew {
    pub model: ExecutionModel,
    /// The worker that panicked, with its message.
    pub panicked: Option<(WorkerName, Seq<char>)>,
    /// The worker that did not reach the barrier, with the milliseconds
    /// waited.
    pub timed_out: Option<(WorkerName, u64)>,
    /// The worker that is to panic in the next quantum.
    pub injected: Option<WorkerName>,
}

impl Crew {
    /// A crew to which nothing has happened.
    pub open spec fn fresh(model: ExecutionModel) -> Crew {
        Crew { model, panicked: None, timed_out: None, injected: None }
    }

    /// The failure on record: a panic before a timeout.
    pub open spec fn failure(self) -> Option<Failure> {
        match self.panicked {
            Some((which, message)) => Some(Failure::Panicked { which, message }),
            None => match self.timed_out {
                Some((which, elapsed_ms)) => Some(Failure::TimedOut { which, elapsed_ms }),
                None => None,
            },
        }
    }

    /// The crew once `which` has panicked.
    pub open spec fn after_panic(self, which: WorkerName, message: Seq<char>) -> Crew {
        Crew { panicked: Some((which, message)), injected: None, ..self }
    }
}

/// The message of a panic that was asked for.
pub open spec fn injected_message() -> Seq<char> {
    "injected panic"@
}

impl EmulatorState {
    /// What a step comes to: a serial chip steps, a threaded one refuses,
    /// with the failure on record where there is one.
    pub open spec fn after_step(self) -> (EmulatorState, Result<nat, Failure>) {
        if self.crew.model == ExecutionModel::Serial {
            (self.stepped().0, Ok(self.stepped().1))
        } else {
            match self.crew.failure() {
                Some(f) => (self, Err(f)),
                None => (self, Err(Failure::NotSupported)),
            }
        }
    }

    /// What keeps a threaded chip from running: a failure on record, or a
    /// panic that was asked for, which then goes on record.
    pub open spec fn stopped(self) -> Option<(EmulatorState, Failure)> {
        if self.crew.model == ExecutionModel::Serial {
            None
        } else {
            match self.crew.failure() {
                Some(f) => Some((self, f)),
                None => match self.crew.injected {
                    Some(which) => Some(
                        (
                            EmulatorState { crew: self.crew.after_panic(which, injected_message()), ..self },
                            Failure::Panicked { which, message: injected_message() },
                        ),
                    ),
                    None => None,
                },
            }
        }
    }

    /// What a quantum comes to. The workers of a threaded chip take their
    /// turns in the order of the serial one.
    pub open spec fn after_quantum(self) -> (EmulatorState, Result<nat, Failure>) {
        match self.stopped() {
            Some((e, f)) => (e, Err(f)),
            None => (self.stepped().0, Ok(self.stepped().1)),
        }
    }

    /// What a run of `goal` cycles comes to. A failure on record ends it
    /// before it begins; a panic that was asked for ends its first quantum.
    pub open spec fn after_run(self, goal: nat) -> (EmulatorState, Result<nat, Failure>) {
        if self.crew.model == ExecutionModel::Threaded && self.crew.failure() is Some {
            (self, Err(self.crew.failure()->0))
        } else if goal == 0 {
            (self, Ok(0))
        } else {
            match self.stopped() {
                Some((e, f)) => (e, Err(f)),
                None => (self.ran_for(0, goal).0, Ok(self.ran_for(0, goal).1)),
            }
        }
    }
}

/// A result reports an outcome: its cycles, as far as a word holds them, or
/// its failure.
pub open spec fn reports(out: Result<u64, EmulatorError>, r: Result<nat, Failure>) -> bool {
    match (out, r) {
        (Ok(cycles), Ok(n)) => cycles == saturated(n),
        (Err(e), Err(f)) => e@ == f,
        _ => false,
    }
}

impl Emulator {
    pub open spec fn crew(&self) -> Crew {
        Crew {
            model: self.model,
            panicked: match self.panic_info {
                Some((which, message)) => Some((which, message@)),
                None => None,
            },
            timed_out: self.timeout_info,
            injected: self.panic_inject,
        }
    }

    pub fn execution_model(&self) -> (out: ExecutionModel)
        ensures
            out == self@.crew.model,
    {
        self.model
    }

    /// The error that the failure on record calls for.
    fn recorded_failure(&self) -> (out: Option<EmulatorError>)
        ensures
            out is Some == self@.crew.failure() is Some,
            out matches Some(e) ==> self@.crew.failure() == Some(e@),
    {
        match &self.panic_info {
            Some((which, message)) => Some(
                EmulatorError::WorkerPanicked { which: *which, message: message.clone() },
            ),
            None => match self.timeout_info {
                Some((which, elapsed_ms)) => Some(EmulatorError::BarrierTimeout { which, elapsed_ms }),
                None => None,
            },
        }
    }

    /// Runs one quantum and returns the cycles that passed. A threaded chip
    /// does not step.
    pub fn step(&mut self) -> (out: Result<u64, EmulatorError>)
        ensures
            final(self)@ == old(self)@.after_step().0,
            reports(out, old(self)@.after_step().1),
    {
        match self.model {
            ExecutionModel::Serial => {
                proof {
                    crate::quantum::law_step_is_short(self@);
                }
                Ok(self.advance())
            },
            ExecutionModel::Threaded => match self.recorded_failure() {
                Some(e) => Err(e),
                None => Err(EmulatorError::NotSupportedInThreadedMode),
            },
        }
    }

    /// Whether the chip may run a quantum.
    fn admit_quantum(&mut self) -> (out: Result<(), EmulatorError>)
        ensures
            match old(self)@.stopped() {
                Some((e, f)) => final(self)@ == e && (out matches Err(error) && error@ == f),
                None => final(self)@ == old(self)@ && out is Ok,
            },
    {
        match self.model {
            ExecutionModel::Serial => Ok(()),
            ExecutionModel::Threaded => match self.recorded_failure() {
                Some(e) => Err(e),
                None => match self.panic_inject {
                    Some(which) => {
                        self.panic_inject = None;
                        self.panic_info = Some((which, "injected panic".to_owned()));
                        Err(EmulatorError::WorkerPanicked { which, message: "injected panic".to_owned() })
                    },
                    None => Ok(()),
                },
            },
        }
    }

    /// Runs one quantum in either model.
    pub fn run_quantum(&mut self) -> (out: Result<u64, EmulatorError>)
        ensures
            final(self)@ == old(self)@.after_quantum().0,
            reports(out, old(self)@.after_quantum().1),
    {
        match self.admit_quantum() {
            Err(e) => Err(e),
            Ok(()) => {
                proof {
                    crate::quantum::law_step_is_short(self@);
                }
                Ok(self.advance())
            },
        }
    }

    /// Runs until at least `goal` cycles have passed, or until a quantum
    /// passes none, and returns how many did.
    pub fn run(&mut self, goal: u64) -> (out: Result<u64, EmulatorError>)
        ensures
            final(self)@ == old(self)@.after_run(goal as nat).0,
            reports(out, old(self)@.after_run(goal as nat).1),
    {
        match self.model {
            ExecutionModel::Serial => {},
            ExecutionModel::Threaded => {
                match self.recorded_failure() {
                    Some(e) => {
                        return Err(e);
                    },
                    None => {},
                }
            },
        }
        if goal == 0 {
            return Ok(0);
        }
        match self.admit_quantum() {
            Err(e) => Err(e),
            Ok(()) => Ok(self.run_for(goal)),
        }
    }

    /// Asks for a panic of a worker in the next quantum of a threaded chip.
    pub fn inject_panic_for_testing(&mut self, which: WorkerName)
        ensures
            final(self)@ == (EmulatorState {
                crew: Crew { injected: Some(which), ..old(self)@.crew },
                ..old(self)@
            }),
    {
        self.panic_inject = Some(which);
    }

    /// Puts on record that a worker panicked.
    pub fn record_panic(&mut self, which: WorkerName, message: String)
        ensures
            final(self)@ == (EmulatorState {
                crew: old(self)@.crew.after_panic(which, message@),
                ..old(self)@
            }),
    {
        self.panic_inject = None;
        self.panic_info = Some((which, message));
    }

    /// Puts on record that a worker did not reach the barrier.
    pub fn record_timeout(&mut self, which: WorkerName, elapsed_ms: u64)
        ensures
            final(self)@ == (EmulatorState {
                crew: Crew { timed_out: Some((which, elapsed_ms)), ..old(self)@.crew },
                ..old(self)@
            }),
    {
        self.timeout_info = Some((which, elapsed_ms));
    }

    /// One of the two cores.
    pub fn core_at(&self, n: usize) -> (cpu: &CortexM0Plus)
        requires
            n < 2,
        ensures
            *cpu == (if n == 0 {
                self@.core0
            } else {
                self@.core1
            }),
    {
        &self.cores[n]
    }

    /// One of the two cores, to be changed.
    pub fn core_mut(&mut self, n: usize) -> (cpu: &mut CortexM0Plus)
        requires
            n < 2,
        ensures
            *cpu == (if n == 0 {
                old(self)@.core0
            } else {
                old(self)@.core1
            }),
            final(self)@ == (if n == 0 {
                EmulatorState { core0: *final(cpu), ..old(self)@ }
            } else {
                EmulatorState { core1: *final(cpu), ..old(self)@ }
            }),
    {
        &mut self.cores[n]
    }
}

/// A failure on record sticks: from then on every step, every quantum and
/// every run of a threaded chip reports it and changes nothing.
pub proof fn law_failure_is_sticky(e: EmulatorState, goal: nat)
    requires
        e.crew.model == ExecutionModel::Threaded,
        e.crew.failure() is Some,
    ensures
        e.after_step() == (e, Err::<nat, Failure>(e.crew.failure()->0)),
        e.after_quantum() == (e, Err::<nat, Failure>(e.crew.failure()->0)),
        e.after_run(goal) == (e, Err::<nat, Failure>(e.crew.failure()->0)),
{
}

/// A panic that was asked for surfaces in the next quantum under its
/// worker's name, and is on record from then on.
pub proof fn law_injected_panic_surfaces(e: EmulatorState, which: WorkerName)
    requires
        e.crew.model == ExecutionModel::Threaded,
        e.crew.failure() is None,
        e.crew.injected == Some(which),
    ensures
        e.after_quantum().1 == Err::<nat, Failure>(
            Failure::Panicked { which, message: injected_message() },
        ),
        e.after_quantum().0.crew.failure() == Some(
            Failure::Panicked { which, message: injected_message() },
        ),
{
}

/// How a chip is run plays no part in what its cores do.
proof fn lemma_crew_rides_along(e: EmulatorState, crew: Crew, spent: nat, budget: nat)
    ensures
        (EmulatorState { crew, ..e }).ran(spent, budget).0 == (EmulatorState { crew, ..e.ran(spent, budget).0 }),
        (EmulatorState { crew, ..e }).ran(spent, budget).1 == e.ran(spent, budget).1,
    decreases
            if spent < budget {
                budget - spent
            } else {
                0
            },
{
    if spent < budget {
        let f = EmulatorState { crew, ..e };
        assert(f.pair_stepped().0 == (EmulatorState { crew, ..e.pair_stepped().0 }) && f.pair_stepped().1
            == e.pair_stepped().1) by {
            reveal(EmulatorState::pair_stepped);
        }
        let (next, cycles) = e.pair_stepped();
        if cycles > 0 {
            lemma_crew_rides_along(next, crew, spent + cycles as nat, budget);
        }
    }
}

proof fn lemma_crew_is_left_alone(e: EmulatorState, crew: Crew, cycles: u64)
    ensures
        (EmulatorState { crew, ..e }).serviced(cycles) == (EmulatorState { crew, ..e.serviced(cycles) }),
{
    reveal(EmulatorState::serviced);
}

/// Without a failure a quantum comes to the same in both models.
pub proof fn law_models_agree(e: EmulatorState)
    requires
        e.crew == Crew::fresh(ExecutionModel::Serial),
    ensures
        ({
            let crew = Crew::fresh(ExecutionModel::Threaded);
            let threaded = (EmulatorState { crew, ..e }).after_quantum();
            let serial = e.after_quantum();
            threaded.0 == (EmulatorState { crew, ..serial.0 }) && threaded.1 == serial.1
        }),
{
    let crew = Crew::fresh(ExecutionModel::Threaded);
    let f = EmulatorState { crew, ..e };
    let start = EmulatorState {
        bus: crate::bus::model::BusState { master_cycle: e.clock, ..e.bus },
        ..e
    };
    lemma_crew_rides_along(start, crew, 0, e.budget());
    let (ran, spent) = start.ran(0, e.budget());
    lemma_crew_is_left_alone(ran, crew, e.stepped().1 as u64);
    assert(f.stepped().1 == e.stepped().1);
    assert(f.stepped().0 == (EmulatorState { crew, ..e.stepped().0 }));
}

} // verus!
