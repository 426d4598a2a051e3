//! Runs of strategies. The caller makes the calls, sleeps and reads the clock; what to do next and
//! what the outcome is are decided here.

use crate::cec::session::{audio_mode_command, CecCall, Connection};
use crate::cec::types::{
    cec_error_text, copy_bytes, is_invalid_params, transmit_fault, CecError, Command, CommandV,
    LogicalAddress, Opcode,
};
use crate::strategies::{
    action_text, clamp_ms, clamped, classify, expected_reply, expected_reply_opcode,
    step_kind_text, step_result_views, strategy_views, verdict_from, with_verdict, Action, Registry,
    RunOptions, Step, StepKind, StepResult, StepResultV, StepV, StratResult, StratResultV,
    StratStatus, Strategy, StrategyV, MAX_DELAY_MS, MAX_HOLD_MS, MAX_OBSERVE_MS,
};
use crate::text;
use crate::time::{Duration, NANOS_PER_SEC};
use crate::types::{frame_views, BusFrameEntry, FrameV};
use vstd::prelude::*;

verus! {

// ---------------------------------------------------------------------------
// One step
// ---------------------------------------------------------------------------

/// The frame that a transmit step sends.
pub open spec fn step_command(st: StepV, target: LogicalAddress, first: Option<LogicalAddress>) -> CommandV {
    CommandV {
        initiator: match first {
            Some(a) => a.0,
            None => LogicalAddress::FREE_USE,
        },
        destination: target.0,
        opcode: st.opcode,
        opcode_set: true,
        parameters: st.params,
        ack: false,
        eom: true,
    }
}

/// `r` is the call that a step makes on a session, or the reason why it is refused.
pub open spec fn step_call(
    conn: Connection,
    st: StepV,
    target: LogicalAddress,
    first: Option<LogicalAddress>,
    r: Result<Option<CecCall>, CecError>,
) -> bool {
    match st.kind {
        StepKind::SendUserControl => match conn.send_fault(target) {
            Some(e) => r == Err::<Option<CecCall>, CecError>(e),
            None => r == Ok::<Option<CecCall>, CecError>(
                Some(CecCall::SendKeypress { address: target.0, key: st.key, wait: st.wait }),
            ),
        },
        StepKind::Transmit => match transmit_fault(step_command(st, target, first)) {
            Some(m) => r matches Err(e) && is_invalid_params(e, m),
            None => if conn.monitor_only {
                r == Err::<Option<CecCall>, CecError>(CecError::MonitorOnly)
            } else {
                match conn.bus_fault() {
                    Some(e) => r == Err::<Option<CecCall>, CecError>(e),
                    None => r matches Ok(Some(CecCall::Transmit { command })) && command@
                        == step_command(st, target, first),
                }
            },
        },
        StepKind::LibcecVolumeUp => match conn.bus_fault() {
            Some(e) => r == Err::<Option<CecCall>, CecError>(e),
            None => r == Ok::<Option<CecCall>, CecError>(
                Some(CecCall::VolumeUp { send_release: true }),
            ),
        },
        StepKind::LibcecVolumeDown => match conn.bus_fault() {
            Some(e) => r == Err::<Option<CecCall>, CecError>(e),
            None => r == Ok::<Option<CecCall>, CecError>(
                Some(CecCall::VolumeDown { send_release: true }),
            ),
        },
        StepKind::LibcecMute => match conn.bus_fault() {
            Some(e) => r == Err::<Option<CecCall>, CecError>(e),
            None => r == Ok::<Option<CecCall>, CecError>(Some(CecCall::AudioToggleMute)),
        },
        StepKind::LibcecPowerOn => match conn.device_fault(target) {
            Some(e) => r == Err::<Option<CecCall>, CecError>(e),
            None => r == Ok::<Option<CecCall>, CecError>(
                Some(CecCall::PowerOn { address: target.0 }),
            ),
        },
        StepKind::LibcecStandby => match conn.device_fault(target) {
            Some(e) => r == Err::<Option<CecCall>, CecError>(e),
            None => r == Ok::<Option<CecCall>, CecError>(
                Some(CecCall::Standby { address: target.0 }),
            ),
        },
        StepKind::EnableSam => if conn.monitor_only {
            r == Err::<Option<CecCall>, CecError>(CecError::MonitorOnly)
        } else {
            match conn.bus_fault() {
                Some(e) => r == Err::<Option<CecCall>, CecError>(e),
                None => r matches Ok(Some(CecCall::Transmit { command })) && command@
                    == audio_mode_command(true, first),
            }
        },
        StepKind::Wait => r == Ok::<Option<CecCall>, CecError>(None),
    }
}

fn some_call(r: Result<CecCall, CecError>) -> (o: Result<Option<CecCall>, CecError>)
    ensures
        match r {
            Ok(c) => o == Ok::<Option<CecCall>, CecError>(Some(c)),
            Err(e) => o == Err::<Option<CecCall>, CecError>(e),
        },
{
    match r {
        Ok(c) => Ok(Some(c)),
        Err(e) => Err(e),
    }
}

/// The call that a step makes; `first` is the adapter's primary address.
pub fn execute_step(
    conn: &Connection,
    st: &Step,
    target: LogicalAddress,
    first: Option<LogicalAddress>,
) -> (r: Result<Option<CecCall>, CecError>)
    requires
        first matches Some(a) ==> a.0 <= 15,
    ensures
        step_call(*conn, st@, target, first, r),
{
    match st.kind {
        StepKind::SendUserControl => some_call(conn.send_keypress(target, st.key, st.wait)),
        StepKind::Transmit => {
            let initiator = match first {
                Some(a) => a,
                None => LogicalAddress(LogicalAddress::FREE_USE),
            };
            let cmd = Command {
                initiator,
                destination: target,
                opcode: st.opcode,
                opcode_set: true,
                parameters: copy_bytes(&st.params),
                ack: false,
                eom: true,
            };
            assert(cmd@ == step_command(st@, target, first));
            some_call(conn.transmit(&cmd))
        },
        StepKind::LibcecVolumeUp => some_call(conn.volume_up(true)),
        StepKind::LibcecVolumeDown => some_call(conn.volume_down(true)),
        StepKind::LibcecMute => some_call(conn.audio_toggle_mute()),
        StepKind::LibcecPowerOn => some_call(conn.power_on(target)),
        StepKind::LibcecStandby => some_call(conn.standby(target)),
        StepKind::EnableSam => some_call(conn.set_system_audio_mode(true, first)),
        StepKind::Wait => Ok(None),
    }
}

/// How long the key of a step is held before it is released, in milliseconds: `None` for a step
/// that releases no key.
pub fn hold_time(st: &Step) -> (r: Option<u64>)
    ensures
        match r {
            Some(ms) => st.kind == StepKind::SendUserControl && st.hold_ms > 0 && ms == clamped(
                st.hold_ms as int,
                MAX_HOLD_MS as int,
            ) && ms <= MAX_HOLD_MS,
            None => st.kind != StepKind::SendUserControl || st.hold_ms <= 0,
        },
{
    match st.kind {
        StepKind::SendUserControl => if st.hold_ms > 0 {
            Some(clamp_ms(st.hold_ms, MAX_HOLD_MS) as u64)
        } else {
            None
        },
        _ => None,
    }
}

/// What is done after the call of a step was made.
#[derive(Debug)]
pub enum FollowUp {
    /// The step is over.
    Finished { outcome: Result<(), CecError> },
    /// The key is held, then released; the step is over with what comes of the release.
    Release { hold_ms: u64, address: LogicalAddress, wait: bool },
}

/// What is done after the call of a step: a key that is held is released, unless the press failed.
pub fn after_call(st: &Step, target: LogicalAddress, outcome: Result<(), CecError>) -> (r: FollowUp)
    ensures
        match outcome {
            Err(_) => r == (FollowUp::Finished { outcome }),
            Ok(()) => if st.kind == StepKind::SendUserControl && st.hold_ms > 0 {
                r == (FollowUp::Release {
                    hold_ms: clamped(st.hold_ms as int, MAX_HOLD_MS as int) as u64,
                    address: target,
                    wait: st.wait,
                })
            } else {
                r == (FollowUp::Finished { outcome })
            },
        },
{
    if outcome.is_ok() {
        if let Some(hold_ms) = hold_time(st) {
            return FollowUp::Release { hold_ms, address: target, wait: st.wait };
        }
    }
    FollowUp::Finished { outcome }
}

// ---------------------------------------------------------------------------
// One strategy
// ---------------------------------------------------------------------------

/// Where a run of a strategy stands.
#[derive(Debug, Clone, Copy, PartialEq, Eq, Structural)]
pub enum Phase {
    /// The next step is due.
    Step,
    /// The delay after the next step is due; the step itself has been made.
    Delay,
    /// All steps have been made; the bus is to be watched.
    Observe,
    /// The result is final.
    Done,
}

/// What a run of a strategy asks for.
#[derive(Debug, Clone, Copy, PartialEq, Eq, Structural)]
pub enum RunAction {
    /// Make a step (see [`execute_step`]) and report how it went.
    Step { index: usize, target: LogicalAddress },
    /// Sleep, unless the deadline comes first, and report which.
    Sleep { ms: u64 },
    /// Sleep, unless the deadline comes first, and report the frames that came meanwhile.
    Observe { ms: u64 },
    /// The result is final.
    Done,
}

/// A run of one strategy.
#[derive(Debug)]
pub struct StrategyRun {
    pub strategy: Strategy,
    pub target: Option<LogicalAddress>,
    pub observe_override_ms: i64,
    pub next: usize,
    pub phase: Phase,
    pub expected: Option<Opcode>,
    pub result: StratResult,
}

/// What a [`StrategyRun`] holds.
pub struct RunV {
    pub strategy: StrategyV,
    pub target: Option<u8>,
    pub observe_override_ms: int,
    pub next: int,
    pub phase: Phase,
    pub expected: Option<u8>,
    pub result: StratResultV,
}

impl View for StrategyRun {
    type V = RunV;

    open spec fn view(&self) -> RunV {
        RunV {
            strategy: self.strategy@,
            target: match self.target {
                Some(a) => Some(a.0),
                None => None,
            },
            observe_override_ms: self.observe_override_ms as int,
            next: self.next as int,
            phase: self.phase,
            expected: match self.expected {
                Some(op) => Some(op.0),
                None => None,
            },
            result: self.result@,
        }
    }
}

/// The device that a step addresses: its own target, or the chosen one where it names none.
pub open spec fn step_target(st: StepV, chosen: Option<u8>) -> u8 {
    if st.target == LogicalAddress::UNKNOWN && chosen is Some {
        chosen->0
    } else {
        st.target
    }
}

/// How long a run watches the bus, in milliseconds.
pub open spec fn observe_time(run: RunV) -> int {
    if run.observe_override_ms > 0 {
        clamped(run.observe_override_ms, MAX_OBSERVE_MS as int)
    } else if run.strategy.observe_ms > 0 {
        clamped(run.strategy.observe_ms, MAX_OBSERVE_MS as int)
    } else {
        500
    }
}

/// The result that a run starts with.
pub open spec fn initial_result(name: Seq<char>) -> StratResultV {
    StratResultV {
        strategy: name,
        status: StratStatus::AckedNoReply,
        acked: true,
        reply_opcode: 0,
        reply_name: Seq::empty(),
        abort_opcode: 0,
        elapsed_ms: 0,
        error: Seq::empty(),
        steps: Seq::empty(),
    }
}

/// A step result that records no acknowledgement and no error.
pub open spec fn unanswered(st: StepV, chosen: Option<u8>) -> StepResultV {
    StepResultV {
        kind: step_kind_text(st.kind),
        target: step_target(st, chosen) as int,
        acked: false,
        error: Seq::empty(),
    }
}

/// Every step on record that is no wait was acknowledged.
pub open spec fn all_acked(record: Seq<StepResultV>, steps: Seq<StepV>) -> bool {
    forall|i: int|
        0 <= i < record.len() ==> (#[trigger] record[i]).acked || steps[i].kind == StepKind::Wait
}

impl RunV {
    /// A run is consistent: the steps made so far are on record, it is acknowledged as long as
    /// every one of them that is no wait was, and the result has the name of the strategy.
    pub open spec fn wf(self) -> bool {
        let n = self.strategy.steps.len();
        &&& 0 <= self.next <= n
        &&& self.phase == Phase::Step || self.phase == Phase::Delay ==> self.next < n
        &&& self.phase == Phase::Observe ==> self.next == n
        &&& self.phase != Phase::Done ==> self.result.steps.len() == self.next + (if self.phase
            == Phase::Delay {
            1int
        } else {
            0int
        })
        &&& self.result.acked == all_acked(self.result.steps, self.strategy.steps)
        &&& self.result.steps.len() <= n
        &&& self.result.strategy == self.strategy.name
    }

    /// How much is left to do.
    pub open spec fn left(self) -> int {
        match self.phase {
            Phase::Done => 0,
            Phase::Observe => 1,
            Phase::Delay => 2 * (self.strategy.steps.len() - self.next),
            Phase::Step => 2 * (self.strategy.steps.len() - self.next) + 1,
        }
    }

    /// The step that is due.
    pub open spec fn step(self) -> StepV {
        self.strategy.steps[self.next]
    }

    /// The run after the step that is due is over.
    pub open spec fn advanced(self) -> RunV {
        RunV {
            next: self.next + 1,
            phase: if self.next + 1 == self.strategy.steps.len() {
                Phase::Observe
            } else {
                Phase::Step
            },
            ..self
        }
    }

    /// The run after the deadline came.
    pub open spec fn timed_out(self, elapsed_ms: int) -> RunV {
        RunV {
            phase: Phase::Done,
            result: StratResultV {
                status: StratStatus::Error,
                error: "deadline exceeded"@,
                elapsed_ms,
                ..self.result
            },
            ..self
        }
    }

    /// The run after the step that is due was made; `error` is what went wrong.
    pub open spec fn stepped(self, error: Option<Seq<char>>) -> RunV {
        let record = StepResultV {
            acked: error is None,
            error: match error {
                Some(e) => e,
                None => Seq::empty(),
            },
            ..unanswered(self.step(), self.target)
        };
        let after = RunV {
            expected: if error is None && expected_reply(self.step()) is Some {
                expected_reply(self.step())
            } else {
                self.expected
            },
            result: StratResultV {
                acked: self.result.acked && error is None,
                steps: self.result.steps.push(record),
                ..self.result
            },
            ..self
        };
        if self.step().delay_ms > 0 {
            RunV { phase: Phase::Delay, ..after }
        } else {
            after.advanced()
        }
    }

    /// The run after a sleep, which the deadline may have cut.
    pub open spec fn slept(self, in_time: bool, elapsed_ms: int) -> RunV {
        if !in_time {
            self.timed_out(elapsed_ms)
        } else if self.phase == Phase::Delay {
            self.advanced()
        } else {
            RunV {
                result: StratResultV {
                    steps: self.result.steps.push(unanswered(self.step(), self.target)),
                    ..self.result
                },
                ..self
            }.advanced()
        }
    }

    /// The run after the bus was watched, which the deadline may have cut.
    pub open spec fn observed(
        self,
        in_time: bool,
        frames: Seq<FrameV>,
        own_la: int,
        elapsed_ms: int,
    ) -> RunV {
        if !in_time {
            self.timed_out(elapsed_ms)
        } else {
            RunV {
                phase: Phase::Done,
                result: StratResultV {
                    elapsed_ms,
                    ..with_verdict(self.result, verdict_from(frames, self.expected, own_la, 0))
                },
                ..self
            }
        }
    }

    /// What the run asks for.
    pub open spec fn action(self) -> RunAction {
        match self.phase {
            Phase::Step => if self.step().kind == StepKind::Wait {
                RunAction::Sleep { ms: clamped(self.step().delay_ms, MAX_DELAY_MS as int) as u64 }
            } else {
                RunAction::Step {
                    index: self.next as usize,
                    target: LogicalAddress(step_target(self.step(), self.target)),
                }
            },
            Phase::Delay => RunAction::Sleep {
                ms: clamped(self.step().delay_ms, MAX_DELAY_MS as int) as u64,
            },
            Phase::Observe => RunAction::Observe { ms: observe_time(self) as u64 },
            Phase::Done => RunAction::Done,
        }
    }
}

/// A run of a strategy before its first step.
pub open spec fn begun(
    strategy: StrategyV,
    target: Option<LogicalAddress>,
    observe_override_ms: int,
) -> RunV {
    RunV {
        strategy,
        target: match target {
            Some(a) => Some(a.0),
            None => None,
        },
        observe_override_ms,
        next: 0,
        phase: if strategy.steps.len() == 0 {
            Phase::Observe
        } else {
            Phase::Step
        },
        expected: None,
        result: initial_result(strategy.name),
    }
}

impl StrategyRun {
    /// A run that has not begun.
    pub fn start(strategy: Strategy, opts: &RunOptions) -> (r: StrategyRun)
        ensures
            r@.wf(),
            r@ == begun(strategy@, opts.target, opts.observe_override_ms as int),
    {
        StrategyRun::begin(strategy, opts.target, opts.observe_override_ms)
    }

    fn begin(strategy: Strategy, target: Option<LogicalAddress>, observe_override_ms: i64) -> (r:
        StrategyRun)
        ensures
            r@.wf(),
            r@ == begun(strategy@, target, observe_override_ms as int),
    {
        let result = StratResult {
            strategy: strategy.name.clone(),
            status: StratStatus::AckedNoReply,
            acked: true,
            reply_opcode: 0,
            reply_name: String::new(),
            abort_opcode: 0,
            elapsed_ms: 0,
            error: String::new(),
            steps: Vec::new(),
        };
        assert(result@.steps =~= Seq::empty());
        let phase = if strategy.steps.len() == 0 {
            Phase::Observe
        } else {
            Phase::Step
        };
        StrategyRun {
            strategy,
            target,
            observe_override_ms,
            next: 0,
            phase,
            expected: None,
            result,
        }
    }

    /// What to do next. No sleep is longer than the caps allow.
    pub fn next_action(&self) -> (r: RunAction)
        requires
            self@.wf(),
        ensures
            r == self@.action(),
            r matches RunAction::Sleep { ms } ==> ms <= MAX_DELAY_MS,
            r matches RunAction::Observe { ms } ==> ms <= MAX_OBSERVE_MS,
    {
        match self.phase {
            Phase::Step => {
                let st = &self.strategy.steps[self.next];
                assert(self@.step() == st@);
                if let StepKind::Wait = st.kind {
                    RunAction::Sleep { ms: clamp_ms(st.delay_ms, MAX_DELAY_MS) as u64 }
                } else {
                    RunAction::Step { index: self.next, target: self.target_of(self.next) }
                }
            },
            Phase::Delay => {
                let st = &self.strategy.steps[self.next];
                assert(self@.step() == st@);
                RunAction::Sleep { ms: clamp_ms(st.delay_ms, MAX_DELAY_MS) as u64 }
            },
            Phase::Observe => {
                let ms: i64 = if self.observe_override_ms > 0 {
                    clamp_ms(self.observe_override_ms, MAX_OBSERVE_MS)
                } else if self.strategy.observe_ms > 0 {
                    clamp_ms(self.strategy.observe_ms, MAX_OBSERVE_MS)
                } else {
                    500
                };
                RunAction::Observe { ms: ms as u64 }
            },
            Phase::Done => RunAction::Done,
        }
    }

    fn target_of(&self, i: usize) -> (r: LogicalAddress)
        requires
            i < self.strategy.steps@.len(),
        ensures
            r.0 == step_target(self@.strategy.steps[i as int], self@.target),
    {
        let st = &self.strategy.steps[i];
        assert(self@.strategy.steps[i as int] == st@);
        if st.target.0 == LogicalAddress::UNKNOWN {
            match self.target {
                Some(t) => t,
                None => st.target,
            }
        } else {
            st.target
        }
    }

    fn advance(&mut self)
        requires
            old(self)@.next < old(self)@.strategy.steps.len(),
        ensures
            final(self)@ == old(self)@.advanced(),
    {
        assert(self.next < self.strategy.steps.len());
        self.next = self.next + 1;
        self.phase = if self.next == self.strategy.steps.len() {
            Phase::Observe
        } else {
            Phase::Step
        };
    }

    fn record(&mut self, acked: bool, error: String)
        requires
            old(self)@.next < old(self)@.strategy.steps.len(),
        ensures
            final(self)@ == (RunV {
                result: StratResultV {
                    steps: old(self)@.result.steps.push(
                        StepResultV {
                            acked,
                            error: error@,
                            ..unanswered(old(self)@.step(), old(self)@.target)
                        },
                    ),
                    ..old(self)@.result
                },
                ..old(self)@
            }),
    {
        assert(self@.step() == self.strategy.steps@[self.next as int]@);
        let target = self.target_of(self.next);
        let kind = self.strategy.steps[self.next].kind;
        let ghost before = self.result.steps@;
        let rec = StepResult {
            kind: kind.as_str().to_owned(),
            target: target.0 as i32,
            acked,
            error,
        };
        let ghost rv = rec@;
        self.result.steps.push(rec);
        assert(step_result_views(self.result.steps@) =~= step_result_views(before).push(rv));
    }

    fn time_out(&mut self, elapsed_ms: i64)
        ensures
            final(self)@ == old(self)@.timed_out(elapsed_ms as int),
    {
        self.result.status = StratStatus::Error;
        self.result.error = "deadline exceeded".to_owned();
        self.result.elapsed_ms = elapsed_ms;
        self.phase = Phase::Done;
    }

    /// Takes in how the step went that was asked for.
    pub fn on_step(&mut self, outcome: Result<(), CecError>)
        requires
            old(self)@.wf(),
            old(self)@.action() is Step,
        ensures
            final(self)@.wf(),
            final(self)@.left() < old(self)@.left(),
            final(self)@ == old(self)@.stepped(
                match outcome {
                    Ok(()) => None,
                    Err(e) => Some(cec_error_text(e)),
                },
            ),
    {
        let ghost start = self@;
        assert(self@.step() == self.strategy.steps@[self.next as int]@);
        let delay: i64 = self.strategy.steps[self.next].delay_ms;
        match outcome {
            Ok(()) => {
                if let Some(op) = expected_reply_opcode(&self.strategy.steps[self.next]) {
                    self.expected = Some(op);
                }
                self.record(true, String::new());
            },
            Err(e) => {
                self.record(false, e.to_string());
                self.result.acked = false;
            },
        }
        if delay > 0 {
            self.phase = Phase::Delay;
        } else {
            self.advance();
        }
        proof {
            let n = start.result.steps.len() as int;
            let rs = self@.result.steps;
            assert(rs.len() == n + 1);
            assert forall|i: int| 0 <= i < n implies rs[i] == start.result.steps[i] by {}
            if start.result.acked && rs[n].acked {
                assert forall|i: int| 0 <= i < rs.len() implies (#[trigger] rs[i]).acked
                    || self@.strategy.steps[i].kind == StepKind::Wait by {
                    if i < n {
                        assert(start.result.steps[i].acked || start.strategy.steps[i].kind
                            == StepKind::Wait);
                    }
                }
            } else if !start.result.acked {
                let i = choose|i: int|
                    0 <= i < n && !((#[trigger] start.result.steps[i]).acked
                        || start.strategy.steps[i].kind == StepKind::Wait);
                assert(!(rs[i].acked || self@.strategy.steps[i].kind == StepKind::Wait));
            } else {
                assert(!(rs[n].acked || self@.strategy.steps[n].kind == StepKind::Wait));
            }
        }
    }

    /// Takes in whether the sleep that was asked for was over before the deadline.
    pub fn on_slept(&mut self, in_time: bool, elapsed_ms: i64)
        requires
            old(self)@.wf(),
            old(self)@.action() is Sleep,
        ensures
            final(self)@.wf(),
            final(self)@.left() < old(self)@.left(),
            final(self)@ == old(self)@.slept(in_time, elapsed_ms as int),
    {
        let ghost start = self@;
        if !in_time {
            self.time_out(elapsed_ms);
            return;
        }
        if let Phase::Delay = self.phase {
            self.advance();
            return;
        }
        self.record(false, String::new());
        self.advance();
        proof {
            let n = start.result.steps.len() as int;
            let rs = self@.result.steps;
            assert forall|i: int| 0 <= i < n implies rs[i] == start.result.steps[i] by {}
            if start.result.acked {
                assert forall|i: int| 0 <= i < rs.len() implies (#[trigger] rs[i]).acked
                    || self@.strategy.steps[i].kind == StepKind::Wait by {
                    if i < n {
                        assert(start.result.steps[i].acked || start.strategy.steps[i].kind
                            == StepKind::Wait);
                    }
                }
            } else {
                let i = choose|i: int|
                    0 <= i < n && !((#[trigger] start.result.steps[i]).acked
                        || start.strategy.steps[i].kind == StepKind::Wait);
                assert(!(rs[i].acked || self@.strategy.steps[i].kind == StepKind::Wait));
            }
        }
    }

    /// Takes in the frames that came while the bus was watched; `own_la` is this adapter's address.
    pub fn on_observed(
        &mut self,
        in_time: bool,
        frames: &Vec<BusFrameEntry>,
        own_la: i32,
        elapsed_ms: i64,
    )
        requires
            old(self)@.wf(),
            old(self)@.action() is Observe,
        ensures
            final(self)@.wf(),
            final(self)@.left() < old(self)@.left(),
            final(self)@ == old(self)@.observed(
                in_time,
                frame_views(frames@),
                own_la as int,
                elapsed_ms as int,
            ),
    {
        if !in_time {
            self.time_out(elapsed_ms);
            return;
        }
        classify(&mut self.result, frames, self.expected, own_la);
        self.result.elapsed_ms = elapsed_ms;
        self.phase = Phase::Done;
    }
}

// ---------------------------------------------------------------------------
// A chain of strategies
// ---------------------------------------------------------------------------

/// What a list of strategy results holds.
pub open spec fn strat_result_views(v: Seq<StratResult>) -> Seq<StratResultV> {
    v.map_values(|r: StratResult| r@)
}

/// A run of the chain of an action.
#[derive(Debug)]
pub struct ChainRun {
    pub chain: Vec<Strategy>,
    /// The device for the steps that name none.
    pub target: Option<LogicalAddress>,
    pub observe_override_ms: i64,
    /// How long the run may take.
    pub limit_secs: u64,
    pub all_strategies: bool,
    pub results: Vec<StratResult>,
}

/// A result that stands for a run that was not made.
pub open spec fn skipped(name: Seq<char>, error: Seq<char>) -> StratResultV {
    StratResultV {
        status: StratStatus::Skipped,
        acked: false,
        error,
        ..initial_result(name)
    }
}

fn skipped_result(name: &str, error: String) -> (r: Vec<StratResult>)
    ensures
        strat_result_views(r@) == seq![skipped(name@, error@)],
{
    let res = StratResult {
        strategy: name.to_owned(),
        status: StratStatus::Skipped,
        acked: false,
        reply_opcode: 0,
        reply_name: String::new(),
        abort_opcode: 0,
        elapsed_ms: 0,
        error,
        steps: Vec::new(),
    };
    assert(res@.steps =~= Seq::empty());
    let ghost rv = res@;
    let mut v: Vec<StratResult> = Vec::new();
    v.push(res);
    assert(strat_result_views(v@) =~= seq![rv]);
    v
}

impl Registry {
    /// Begins a run of the chain of an action that may take `limit_secs`. A session that listens
    /// only refuses, and an action without strategies is skipped: the results say so.
    pub fn run(&self, monitor_only: bool, action: Action, opts: &RunOptions, limit_secs: u64) -> (r:
        Result<ChainRun, Vec<StratResult>>)
        requires
            self.wf(),
        ensures
            match r {
                Ok(c) => !monitor_only && self.chain_for(opts.vendor@, action).len() > 0
                    && strategy_views(c.chain@) == self.chain_for(opts.vendor@, action)
                    && c.target == opts.target && c.observe_override_ms
                    == opts.observe_override_ms && c.limit_secs == limit_secs && c.all_strategies
                    == opts.all_strategies && c.results@.len() == 0,
                Err(v) => if monitor_only {
                    strat_result_views(v@) == seq![
                        skipped("monitor-only"@, "connection is monitor-only"@),
                    ]
                } else {
                    self.chain_for(opts.vendor@, action).len() == 0 && strat_result_views(v@)
                        == seq![
                        skipped(
                            action_text(action),
                            "no strategies registered for "@ + action_text(action),
                        ),
                    ]
                },
            },
    {
        if monitor_only {
            return Err(skipped_result("monitor-only", "connection is monitor-only".to_owned()));
        }
        let chain = self.strategies_for(opts.vendor.as_str(), action);
        if chain.len() == 0 {
            assert(strategy_views(chain@).len() == 0);
            let name = action.as_str();
            return Err(skipped_result(name, text::concat("no strategies registered for ", name)));
        }
        assert(strategy_views(chain@).len() > 0);
        Ok(
            ChainRun {
                chain,
                target: opts.target,
                observe_override_ms: opts.observe_override_ms,
                limit_secs,
                all_strategies: opts.all_strategies,
                results: Vec::new(),
            },
        )
    }
}

impl ChainRun {
    /// The results so far.
    pub open spec fn outcome(&self) -> Seq<StratResultV> {
        strat_result_views(self.results@)
    }

    /// One result at most for each strategy, in order and under its name; unless all are wanted,
    /// none after the first that worked.
    pub open spec fn wf(&self) -> bool {
        &&& self.results@.len() <= self.chain@.len()
        &&& forall|i: int|
            0 <= i < self.results@.len() ==> (#[trigger] self.outcome()[i]).strategy
                == self.chain@[i]@.name
        &&& !self.all_strategies ==> forall|i: int|
            0 <= i < self.results@.len() - 1 ==> (#[trigger] self.outcome()[i]).status
                != StratStatus::Confirmed
    }

    /// Whether a strategy is still to be run.
    pub open spec fn more(&self, past_deadline: bool) -> bool {
        &&& !past_deadline
        &&& self.results@.len() < self.chain@.len()
        &&& self.all_strategies || self.results@.len() == 0 || self.outcome().last().status
            != StratStatus::Confirmed
    }

    /// Whether the deadline has passed when the run has taken `elapsed`.
    pub open spec fn past_deadline(&self, elapsed: Duration) -> bool {
        elapsed@ >= self.limit_secs * NANOS_PER_SEC
    }

    /// Whether a sleep of `ms` that begins when the run has taken `elapsed` ends by the deadline.
    /// One that does not is not begun.
    pub fn in_time(&self, elapsed: Duration, ms: u64) -> (r: bool)
        requires
            elapsed.wf(),
        ensures
            r == (elapsed@ + ms * 1_000_000 <= self.limit_secs * NANOS_PER_SEC),
    {
        let end: u128 = elapsed.secs as u128 * 1_000_000_000 + elapsed.nanos as u128 + ms as u128
            * 1_000_000;
        end <= self.limit_secs as u128 * 1_000_000_000
    }

    /// The run of the strategy that is next, when the run of the chain has taken `elapsed`: none
    /// once the deadline has passed, the chain is at its end, or a strategy has worked (unless all
    /// are wanted).
    pub fn next_run(&self, elapsed: Duration) -> (r: Option<StrategyRun>)
        requires
            self.wf(),
            elapsed.wf(),
        ensures
            match r {
                Some(run) => self.more(self.past_deadline(elapsed)) && run@.wf() && run@ == begun(
                    self.chain@[self.results@.len() as int]@,
                    self.target,
                    self.observe_override_ms as int,
                ),
                None => !self.more(self.past_deadline(elapsed)),
            },
    {
        let n: usize = self.results.len();
        if elapsed.at_least(Duration::from_secs(self.limit_secs)) || n >= self.chain.len() {
            return None;
        }
        if !self.all_strategies && n > 0 {
            assert(self.outcome().last() == self.results@[n - 1]@);
            if let StratStatus::Confirmed = self.results[n - 1].status {
                return None;
            }
        }
        Some(
            StrategyRun::begin(self.chain[n].clone(), self.target, self.observe_override_ms),
        )
    }

    /// Takes in the result of the strategy that was run.
    pub fn record(&mut self, res: StratResult)
        requires
            old(self).wf(),
            old(self).more(false),
            res@.strategy == old(self).chain@[old(self).results@.len() as int]@.name,
        ensures
            final(self).wf(),
            final(self).chain == old(self).chain,
            final(self).target == old(self).target,
            final(self).observe_override_ms == old(self).observe_override_ms,
            final(self).limit_secs == old(self).limit_secs,
            final(self).all_strategies == old(self).all_strategies,
            final(self).outcome() == old(self).outcome().push(res@),
    {
        let ghost before = self.results@;
        let ghost rv = res@;
        self.results.push(res);
        proof {
            assert(self.outcome() =~= strat_result_views(before).push(rv));
            assert forall|i: int| 0 <= i < self.results@.len() implies (
            #[trigger] self.outcome()[i]).strategy == self.chain@[i]@.name by {
                if i < before.len() {
                    assert(self.outcome()[i] == old(self).outcome()[i]);
                }
            }
            assert forall|i: int| !self.all_strategies && 0 <= i < self.results@.len() - 1 implies (
            #[trigger] self.outcome()[i]).status != StratStatus::Confirmed by {
                if i < before.len() - 1 {
                    assert(self.outcome()[i] == strat_result_views(before)[i]);
                } else {
                    assert(self.outcome()[i] == strat_result_views(before).last());
                }
            }
        }
    }
}

/// A chain ends for one of three reasons: the deadline has passed, every strategy was run, or one
/// has worked and not all are wanted. Its results are named after the strategies, in order.
pub proof fn law_chain_ends_for_a_reason(c: ChainRun, past_deadline: bool)
    requires
        c.wf(),
        !c.more(past_deadline),
    ensures
        past_deadline || c.results@.len() == c.chain@.len() || (!c.all_strategies
            && c.outcome().last().status == StratStatus::Confirmed),
        c.results@.len() <= c.chain@.len(),
        forall|i: int|
            0 <= i < c.results@.len() ==> (#[trigger] c.outcome()[i]).strategy
                == c.chain@[i]@.name,
{
}

/// A run that was not cut by the deadline has a record of every step of the strategy.
pub proof fn law_finished_run_records_every_step(
    run: RunV,
    frames: Seq<FrameV>,
    own_la: int,
    elapsed_ms: int,
)
    requires
        run.wf(),
        run.phase == Phase::Observe,
    ensures
        run.observed(true, frames, own_la, elapsed_ms).result.steps.len()
            == run.strategy.steps.len(),
        run.observed(true, frames, own_la, elapsed_ms).result.steps == run.result.steps,
{
}

/// A run that saw neither a refusal nor the expected answer is acknowledged without reply exactly
/// if every step that is no wait was acknowledged.
pub proof fn law_silent_run_status(run: RunV, frames: Seq<FrameV>, own_la: int, elapsed_ms: int)
    requires
        run.wf(),
        run.phase == Phase::Observe,
        verdict_from(frames, run.expected, own_la, 0) is Silent,
    ensures
        run.observed(true, frames, own_la, elapsed_ms).result.status == (if all_acked(
            run.result.steps,
            run.strategy.steps,
        ) {
            StratStatus::AckedNoReply
        } else {
            StratStatus::NoAck
        }),
{
}

/// A chain goes on until a strategy is confirmed: after any other result the next strategy is tried,
/// while there is one and time is left. Where all are wanted, it goes on after a confirmed one too.
pub proof fn law_chain_goes_on_until_confirmed(c: ChainRun, elapsed: Duration)
    requires
        c.wf(),
        c.results@.len() < c.chain@.len(),
        elapsed@ < c.limit_secs * 1_000_000_000,
    ensures
        c.results@.len() == 0 ==> c.more(c.past_deadline(elapsed)),
        c.results@.len() > 0 && c.outcome().last().status != StratStatus::Confirmed ==> c.more(
            c.past_deadline(elapsed),
        ),
        c.results@.len() > 0 && c.outcome().last().status == StratStatus::Confirmed ==> c.more(
            c.past_deadline(elapsed),
        ) == c.all_strategies,
{
}

/// When the time of a chain is over, nothing more is tried.
pub proof fn law_no_strategy_after_the_deadline(c: ChainRun, elapsed: Duration)
    requires
        elapsed@ >= c.limit_secs * 1_000_000_000,
    ensures
        !c.more(c.past_deadline(elapsed)),
{
}

/// A step that names a device goes to it, whatever was chosen; one that names none goes to the
/// chosen device.
pub proof fn law_steps_reach_their_device(st: StepV, chosen: Option<u8>)
    ensures
        st.target <= 15 ==> step_target(st, chosen) == st.target,
        st.target == LogicalAddress::UNKNOWN ==> match chosen {
            Some(a) => step_target(st, chosen) == a,
            None => step_target(st, chosen) == LogicalAddress::UNKNOWN,
        },
{
}

/// The steps of a strategy are made one after the other, each once, from the first: making one
/// leaves the next one due, or the watching of the bus after the last.
pub proof fn law_steps_are_made_in_order(run: RunV, error: Option<Seq<char>>)
    requires
        run.wf(),
        run.phase == Phase::Step,
        run.next < run.strategy.steps.len(),
        run.strategy.steps[run.next].kind != StepKind::Wait,
    ensures
        run.action() == (RunAction::Step {
            index: run.next as usize,
            target: LogicalAddress(step_target(run.strategy.steps[run.next], run.target)),
        }),
        ({
            let after = run.stepped(error);
            &&& after.strategy == run.strategy && after.target == run.target
            &&& after.result.steps.len() == run.result.steps.len() + 1
            &&& after.result.steps.last().acked == (error is None)
            &&& after.result.acked == (run.result.acked && error is None)
            &&& if run.strategy.steps[run.next].delay_ms > 0 {
                after.phase == Phase::Delay && after.next == run.next
            } else if run.next + 1 < run.strategy.steps.len() {
                after.phase == Phase::Step && after.next == run.next + 1
            } else {
                after.phase == Phase::Observe
            }
        }),
{
}

/// A run expects the answer to the last step that went through and has one: a step that failed
/// expects nothing.
pub proof fn law_answers_to_made_steps_are_expected(run: RunV, error: Option<Seq<char>>)
    requires
        run.wf(),
        run.phase == Phase::Step,
        run.next < run.strategy.steps.len(),
    ensures
        error is Some ==> run.stepped(error).expected == run.expected,
        error is None && expected_reply(run.strategy.steps[run.next]) is Some ==> run.stepped(
            error,
        ).expected == expected_reply(run.strategy.steps[run.next]),
        error is None && expected_reply(run.strategy.steps[run.next]) is None ==> run.stepped(
            error,
        ).expected == run.expected,
{
}

/// A run watches the bus for as long as the caller wishes, else as the strategy says, else half a
/// second, and never for longer than five seconds or not at all.
pub proof fn law_the_bus_is_watched(run: RunV)
    ensures
        0 < observe_time(run) <= 5000,
        0 < run.observe_override_ms <= 5000 ==> observe_time(run) == run.observe_override_ms,
        run.observe_override_ms <= 0 && 0 < run.strategy.observe_ms <= 5000 ==> observe_time(run)
            == run.strategy.observe_ms,
        run.observe_override_ms <= 0 && run.strategy.observe_ms <= 0 ==> observe_time(run) == 500,
{
}

/// A run that the deadline cuts is an error that says so, and keeps what was recorded.
pub proof fn law_late_runs_are_errors(run: RunV, frames: Seq<FrameV>, own_la: int, elapsed_ms: int)
    ensures
        ({
            let cut = run.observed(false, frames, own_la, elapsed_ms);
            &&& cut.phase == Phase::Done && cut == run.slept(false, elapsed_ms)
            &&& cut.result.status == StratStatus::Error && cut.result.error.len() > 0
            &&& cut.result.elapsed_ms == elapsed_ms
            &&& cut.result.steps == run.result.steps && cut.result.strategy == run.result.strategy
        }),
{
    reveal_strlit("deadline exceeded");
}

/// A step puts on the bus what it is for, on the device it addresses: a key press its key, a frame
/// its opcode and parameters, power on and standby never one for the other.
pub proof fn law_steps_call_what_they_are_for(
    conn: Connection,
    st: StepV,
    target: LogicalAddress,
    first: Option<LogicalAddress>,
    call: CecCall,
)
    requires
        step_call(conn, st, target, first, Ok(Some(call))),
    ensures
        match call {
            CecCall::SendKeypress { address, key, wait } => st.kind == StepKind::SendUserControl
                && address == target.0 && key == st.key && wait == st.wait,
            CecCall::PowerOn { address } => st.kind == StepKind::LibcecPowerOn && address
                == target.0,
            CecCall::Standby { address } => st.kind == StepKind::LibcecStandby && address
                == target.0,
            CecCall::VolumeUp { send_release } => st.kind == StepKind::LibcecVolumeUp
                && send_release,
            CecCall::VolumeDown { send_release } => st.kind == StepKind::LibcecVolumeDown
                && send_release,
            CecCall::AudioToggleMute => st.kind == StepKind::LibcecMute,
            CecCall::Transmit { command } => match st.kind {
                StepKind::Transmit => command@.destination == target.0 && command@.opcode
                    == st.opcode && command@.opcode_set && command@.parameters == st.params,
                _ => st.kind == StepKind::EnableSam,
            },
            _ => false,
        },
        st.kind == StepKind::SendUserControl ==> call is SendKeypress,
        st.kind == StepKind::Transmit ==> call is Transmit,
        st.kind == StepKind::LibcecPowerOn ==> call is PowerOn,
        st.kind == StepKind::LibcecStandby ==> call is Standby,
        st.kind == StepKind::LibcecVolumeUp ==> call is VolumeUp,
        st.kind == StepKind::LibcecVolumeDown ==> call is VolumeDown,
        st.kind == StepKind::LibcecMute ==> call is AudioToggleMute,
        !conn.monitor_only || !(call is Transmit || call is SendKeypress),
{
}

/// A run begins at its first step, unanswered; one without steps only watches the bus.
pub proof fn law_runs_begin_unanswered(
    strategy: StrategyV,
    target: Option<LogicalAddress>,
    observe_override_ms: int,
)
    ensures
        ({
            let run = begun(strategy, target, observe_override_ms);
            &&& run.strategy == strategy
            &&& run.next == 0
            &&& run.observe_override_ms == observe_override_ms
            &&& target is None <==> run.target is None
            &&& target matches Some(a) ==> run.target == Some(a.0)
            &&& strategy.steps.len() > 0 ==> run.phase == Phase::Step
            &&& strategy.steps.len() == 0 ==> run.phase == Phase::Observe
            &&& run.expected is None
            &&& run.result.strategy == strategy.name
            &&& run.result.status == StratStatus::AckedNoReply
            &&& run.result.acked
            &&& run.result.steps.len() == 0
            &&& run.result.error.len() == 0
            &&& run.result.reply_opcode == 0 && run.result.abort_opcode == 0
        }),
{
}

/// What was skipped is reported under its name with the reason, as not acknowledged and without
/// steps.
pub proof fn law_skipped_runs_tell_why(name: Seq<char>, error: Seq<char>)
    ensures
        skipped(name, error).strategy == name,
        skipped(name, error).error == error,
        skipped(name, error).status == StratStatus::Skipped,
        !skipped(name, error).acked,
        skipped(name, error).steps.len() == 0,
        skipped(name, error).reply_opcode == 0,
        skipped(name, error).abort_opcode == 0,
        skipped(name, error).elapsed_ms == 0,
{
}

/// After a pause that ended in time the next step is due, or the bus is watched where there is
/// none. The pause behind a step adds nothing to the report; a step that is a pause is reported
/// like any other, without an acknowledgement or an error.
pub proof fn law_pauses_lead_to_the_next_step(run: RunV, elapsed_ms: int)
    requires
        run.next < run.strategy.steps.len(),
    ensures
        ({
            let after = run.slept(true, elapsed_ms);
            &&& after.next == run.next + 1
            &&& after.strategy == run.strategy && after.target == run.target
            &&& run.next + 1 < run.strategy.steps.len() ==> after.phase == Phase::Step
            &&& run.next + 1 == run.strategy.steps.len() ==> after.phase == Phase::Observe
            &&& run.phase == Phase::Delay ==> after.result == run.result
            &&& run.phase == Phase::Step ==> after.result.steps.len() == run.result.steps.len() + 1
                && !after.result.steps.last().acked && after.result.steps.last().error.len() == 0
                && after.result.acked == run.result.acked && after.result.status
                == run.result.status
        }),
{
}

/// A frame that a step sends is whole and not yet acknowledged, and comes from the adapter or,
/// where that has no address, from the address for free use.
pub proof fn law_sent_frames_come_from_the_adapter(
    st: StepV,
    target: LogicalAddress,
    own: LogicalAddress,
)
    ensures
        step_command(st, target, Some(own)).initiator == own.0,
        step_command(st, target, None).initiator == 14,
        step_command(st, target, Some(own)).destination == target.0,
        step_command(st, target, Some(own)).opcode == st.opcode,
        step_command(st, target, Some(own)).parameters == st.params,
        step_command(st, target, Some(own)).eom,
        !step_command(st, target, Some(own)).ack,
{
}

} // verus!
