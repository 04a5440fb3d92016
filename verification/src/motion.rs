//! The motion controller: recording joint trajectories from the bus and
//! replaying them, as a state machine. The controller decides; its caller
//! performs each action on the link and hands back what came of it.

use crate::joints::{
    absorb_reply, absorb_reports, addressable, all_distinct, distinct, lemma_absorb_reply_len,
};
use crate::link::EXCHANGE_WAIT_MS;
use crate::packet::{
    build_sync_current_request, build_sync_write_position, build_sync_write_torque,
    decode_status, position_packet, read_packet, torque_packet, DecodeError, StatusReport,
    POSITION_WIDTH, PRESENT_POSITION_ADDR, STATUS_PACKET_LEN,
};
use vstd::prelude::*;
use vstd::slice::slice_to_vec;

verus! {

/// Pause after each recorded frame, in milliseconds.
pub const RECORD_PAUSE_MS: u32 = 10;

/// Pause after each replayed frame, in milliseconds.
pub const REPLAY_PAUSE_MS: u32 = 20;

/// Where the controller stands.
#[derive(Clone, Copy, Debug, PartialEq, Eq, Structural)]
pub enum Phase {
    /// No link.
    Idle,
    /// A link is there and no loop runs.
    Connected,
    /// Recording: a position request is out.
    Polling,
    /// Recording: the pause after a frame.
    Settling,
    /// Replaying: the torque-on write is out.
    Engaging,
    /// Replaying: the position write of the frame at the cursor is out.
    Streaming,
    /// Replaying: the pause after the frame at the cursor.
    Spacing,
    /// Replaying: the torque-off write is out.
    Releasing,
}

/// Why an operation was not started.
#[derive(Clone, Copy, Debug, PartialEq, Eq, Structural)]
pub enum ControlError {
    /// There is no link.
    NotConnected,
    /// A recording or a replay is running.
    Busy,
}

/// What the caller is to do next on the link.
#[derive(Debug, PartialEq, Eq)]
pub enum Action {
    /// Write the packet, wait `settle_ms`, read once.
    Exchange { packet: Vec<u8>, settle_ms: u32 },
    /// Write the packet.
    Transmit { packet: Vec<u8> },
    /// Wait.
    Pause { ms: u32 },
    /// The operation is over.
    Finished,
}

/// What came of the last action.
#[derive(Debug, PartialEq, Eq)]
pub enum Event {
    /// The read of an exchange returned these bytes.
    Reply(Vec<u8>),
    /// A write or a pause went through.
    Completed,
    /// The link reported an error.
    Failed,
}

/// An action, with its packet as a sequence of bytes.
pub enum Step {
    Exchange(Seq<u8>, u32),
    Transmit(Seq<u8>),
    Pause(u32),
    Finished,
}

/// An event, with its bytes as a sequence.
pub enum Outcome {
    Reply(Seq<u8>),
    Completed,
    Failed,
}

impl View for Action {
    type V = Step;

    open spec fn view(&self) -> Step {
        match *self {
            Action::Exchange { packet, settle_ms } => Step::Exchange(packet@, settle_ms),
            Action::Transmit { packet } => Step::Transmit(packet@),
            Action::Pause { ms } => Step::Pause(ms),
            Action::Finished => Step::Finished,
        }
    }
}

impl View for Event {
    type V = Outcome;

    open spec fn view(&self) -> Outcome {
        match *self {
            Event::Reply(bytes) => Outcome::Reply(bytes@),
            Event::Completed => Outcome::Completed,
            Event::Failed => Outcome::Failed,
        }
    }
}

/// The controller as a mathematical value.
pub struct ControllerState {
    /// The motor ids, in the order of the joint vector.
    pub ids: Seq<u8>,
    pub phase: Phase,
    /// The last known raw position of each motor.
    pub joints: Seq<i32>,
    /// What each region of the last reply held.
    pub reports: Seq<Result<StatusReport, DecodeError>>,
    /// The recording buffer.
    pub frames: Seq<Seq<i32>>,
    /// Index of the frame that a replay is at.
    pub cursor: nat,
    /// Whether a stop was asked for since the running loop began.
    pub stop: bool,
    /// Clock reading at which the recording began, in milliseconds.
    pub started_ms: u64,
    /// How long the recording may last, if bounded.
    pub limit_ms: Option<u64>,
}

impl ControllerState {
    /// No motor id occurs twice, the motors can be addressed by one packet,
    /// the joint vector and every frame have one position per motor, and a
    /// replay in progress points at a frame of the buffer.
    pub open spec fn wf(self) -> bool {
        &&& distinct(self.ids)
        &&& addressable(self.ids)
        &&& self.joints.len() == self.ids.len()
        &&& forall|k: int|
            0 <= k < self.frames.len() ==> (#[trigger] self.frames[k]).len() == self.ids.len()
        &&& (self.phase == Phase::Streaming || self.phase == Phase::Spacing) ==> self.cursor
            < self.frames.len()
    }

    /// Whether a recording runs.
    pub open spec fn recording(self) -> bool {
        self.phase == Phase::Polling || self.phase == Phase::Settling
    }

    /// Whether a replay runs.
    pub open spec fn replaying(self) -> bool {
        self.phase == Phase::Engaging || self.phase == Phase::Streaming || self.phase
            == Phase::Spacing || self.phase == Phase::Releasing
    }

    /// Whether a bounded recording has used up its time at `now_ms`.
    pub open spec fn time_is_up(self, now_ms: u64) -> bool {
        match self.limit_ms {
            Some(limit) => now_ms - self.started_ms >= limit,
            None => false,
        }
    }

    /// What each of the regions of `reply`, one per motor, holds.
    pub open spec fn reports_of(self, reply: Seq<u8>) -> Seq<Result<StatusReport, DecodeError>> {
        Seq::new(self.ids.len(), |k: int| decode_status(reply, k * STATUS_PACKET_LEN))
    }

    /// The request for the present position of every motor.
    pub open spec fn poll(self) -> Step {
        Step::Exchange(
            read_packet(self.ids, PRESENT_POSITION_ADDR, POSITION_WIDTH),
            EXCHANGE_WAIT_MS,
        )
    }

    /// The write that ends every replay.
    pub open spec fn release(self) -> Step {
        Step::Transmit(torque_packet(self.ids, false))
    }

    /// The state after a stop was asked for.
    pub open spec fn halted(self) -> ControllerState {
        ControllerState { stop: true, ..self }
    }

    /// The state and the action with which a recording begins.
    pub open spec fn begin_record(self, limit_ms: Option<u64>, now_ms: u64) -> (
        ControllerState,
        Step,
    ) {
        (
            ControllerState {
                phase: Phase::Polling,
                frames: Seq::empty(),
                stop: false,
                started_ms: now_ms,
                limit_ms,
                ..self
            },
            self.poll(),
        )
    }

    /// The state and the action with which a replay begins.
    pub open spec fn begin_replay(self) -> (ControllerState, Step) {
        (
            ControllerState { phase: Phase::Engaging, stop: false, cursor: 0, ..self },
            Step::Transmit(torque_packet(self.ids, true)),
        )
    }

    /// The transition: the next state and the next action, given what came
    /// of the last action and the clock.
    ///
    /// Recording. A reply is read region by region and the joint vector
    /// updated from the reports that decode; if the time is up the
    /// recording ends, else the joint vector is appended to the buffer and
    /// a pause follows. An exchange that brought no reply is skipped: the
    /// recording ends if a stop was asked for or the time is up, else the
    /// request is made again. After the pause the recording ends if a stop
    /// was asked for, else the next request is made.
    ///
    /// Replaying. After the torque-on write comes the position write of the
    /// first frame, after each position write a pause, and after the pause
    /// the position write of the next frame. When the buffer is used up, or
    /// a stop was asked for at the end of a pause, the torque-off write
    /// follows, and after it the replay is over. A failed write is skipped.
    pub open spec fn step(self, outcome: Outcome, now_ms: u64) -> (ControllerState, Step) {
        match self.phase {
            Phase::Idle | Phase::Connected => (self, Step::Finished),
            Phase::Polling => match outcome {
                Outcome::Reply(bytes) => {
                    let joints = absorb_reply(self.joints, self.ids, bytes, self.ids.len());
                    let reports = self.reports_of(bytes);
                    if self.time_is_up(now_ms) {
                        (
                            ControllerState { joints, reports, phase: Phase::Connected, ..self },
                            Step::Finished,
                        )
                    } else {
                        (
                            ControllerState {
                                joints,
                                reports,
                                frames: self.frames.push(joints),
                                phase: Phase::Settling,
                                ..self
                            },
                            Step::Pause(RECORD_PAUSE_MS),
                        )
                    }
                },
                _ => if self.stop || self.time_is_up(now_ms) {
                    (ControllerState { phase: Phase::Connected, ..self }, Step::Finished)
                } else {
                    (self, self.poll())
                },
            },
            Phase::Settling => if self.stop {
                (ControllerState { phase: Phase::Connected, ..self }, Step::Finished)
            } else {
                (ControllerState { phase: Phase::Polling, ..self }, self.poll())
            },
            Phase::Engaging => if self.frames.len() == 0 {
                (ControllerState { phase: Phase::Releasing, ..self }, self.release())
            } else {
                (
                    ControllerState { phase: Phase::Streaming, cursor: 0, ..self },
                    Step::Transmit(position_packet(self.ids, self.frames[0])),
                )
            },
            Phase::Streaming => (
                ControllerState { phase: Phase::Spacing, ..self },
                Step::Pause(REPLAY_PAUSE_MS),
            ),
            Phase::Spacing => if self.stop || self.cursor + 1 >= self.frames.len() {
                (ControllerState { phase: Phase::Releasing, ..self }, self.release())
            } else {
                (
                    ControllerState { phase: Phase::Streaming, cursor: self.cursor + 1, ..self },
                    Step::Transmit(
                        position_packet(self.ids, self.frames[self.cursor as int + 1]),
                    ),
                )
            },
            Phase::Releasing => (
                ControllerState { phase: Phase::Connected, ..self },
                Step::Finished,
            ),
        }
    }
}

/// The controller: the motor ids, the phase, the latest joint vector, the
/// recording buffer and the stop flag.
pub struct Controller {
    ids: Vec<u8>,
    phase: Phase,
    joints: Vec<i32>,
    reports: Vec<Result<StatusReport, DecodeError>>,
    frames: Vec<Vec<i32>>,
    cursor: usize,
    stop: bool,
    started_ms: u64,
    limit_ms: Option<u64>,
}

impl View for Controller {
    type V = ControllerState;

    closed spec fn view(&self) -> ControllerState {
        ControllerState {
            ids: self.ids@,
            phase: self.phase,
            joints: self.joints@,
            reports: self.reports@,
            frames: Seq::new(self.frames@.len(), |k: int| self.frames@[k]@),
            cursor: self.cursor as nat,
            stop: self.stop,
            started_ms: self.started_ms,
            limit_ms: self.limit_ms,
        }
    }
}

impl Controller {
    /// A controller without a link for the motors `ids`, every joint at
    /// `rest`, with an empty recording buffer. `None` where an id occurs
    /// twice or one packet cannot address that many motors.
    pub fn new(ids: Vec<u8>, rest: i32) -> (r: Option<Controller>)
        ensures
            r is Some <==> addressable(ids@) && distinct(ids@),
            r is Some ==> r->0@ == (ControllerState {
                ids: ids@,
                phase: Phase::Idle,
                joints: Seq::new(ids@.len(), |k: int| rest),
                reports: Seq::empty(),
                frames: Seq::empty(),
                cursor: 0,
                stop: false,
                started_ms: 0,
                limit_ms: None,
            }) && r->0@.wf(),
    {
        if ids.len() > 13105 || !all_distinct(ids.as_slice()) {
            return None;
        }
        let mut joints: Vec<i32> = Vec::new();
        let mut k: usize = 0;
        while k < ids.len()
            invariant
                k <= ids@.len(),
                joints@ =~= Seq::new(k as nat, |j: int| rest),
            decreases ids@.len() - k,
        {
            joints.push(rest);
            k = k + 1;
        }
        let c = Controller {
            ids,
            phase: Phase::Idle,
            joints,
            reports: Vec::new(),
            frames: Vec::new(),
            cursor: 0,
            stop: false,
            started_ms: 0,
            limit_ms: None,
        };
        assert(c@.frames =~= Seq::empty());
        Some(c)
    }

    /// Where the controller stands.
    pub fn phase(&self) -> (r: Phase)
        ensures
            r == self@.phase,
    {
        self.phase
    }

    /// The motor ids, in the order of the joint vector.
    pub fn ids(&self) -> (r: &Vec<u8>)
        ensures
            r@ == self@.ids,
    {
        &self.ids
    }

    /// The last known raw position of each motor.
    pub fn joints(&self) -> (r: &Vec<i32>)
        ensures
            r@ == self@.joints,
    {
        &self.joints
    }

    /// What each region of the last reply held: a report, or why it is
    /// none.
    pub fn reports(&self) -> (r: &Vec<Result<StatusReport, DecodeError>>)
        ensures
            r@ == self@.reports,
    {
        &self.reports
    }

    /// The number of frames in the recording buffer.
    pub fn frame_count(&self) -> (r: usize)
        ensures
            r == self@.frames.len(),
    {
        self.frames.len()
    }

    /// The frame at index `k` of the recording buffer, if it has that
    /// many.
    pub fn frame(&self, k: usize) -> (r: Option<&Vec<i32>>)
        ensures
            r is Some <==> k < self@.frames.len(),
            r is Some ==> r->0@ == self@.frames[k as int],
    {
        if k < self.frames.len() {
            Some(&self.frames[k])
        } else {
            None
        }
    }

    /// Whether a stop was asked for since the running loop began.
    pub fn stop_requested(&self) -> (r: bool)
        ensures
            r == self@.stop,
    {
        self.stop
    }

    /// Notes that a link was opened. A controller that has one stays as it
    /// is.
    pub fn connect(&mut self)
        requires
            old(self)@.wf(),
        ensures
            final(self)@.wf(),
            final(self)@ == (if old(self)@.phase == Phase::Idle {
                ControllerState { phase: Phase::Connected, ..old(self)@ }
            } else {
                old(self)@
            }),
    {
        if self.phase == Phase::Idle {
            self.phase = Phase::Connected;
        }
    }

    /// Notes that the link is gone. Whatever ran is over.
    pub fn disconnect(&mut self)
        requires
            old(self)@.wf(),
        ensures
            final(self)@.wf(),
            final(self)@ == (ControllerState { phase: Phase::Idle, ..old(self)@ }),
    {
        self.phase = Phase::Idle;
    }

    /// Asks the running loop to end. The loop sees it at its next pause.
    pub fn stop(&mut self)
        requires
            old(self)@.wf(),
        ensures
            final(self)@.wf(),
            final(self)@ == old(self)@.halted(),
    {
        self.stop = true;
    }

    /// The packet that switches the torque of every motor on. Without a
    /// link there is nothing to write.
    pub fn torque_on(&self) -> (r: Result<Vec<u8>, ControlError>)
        requires
            self@.wf(),
        ensures
            self@.phase == Phase::Idle ==> r == Err::<Vec<u8>, ControlError>(
                ControlError::NotConnected,
            ),
            self@.phase != Phase::Idle ==> r is Ok && r->Ok_0@ == torque_packet(self@.ids, true),
    {
        if self.phase == Phase::Idle {
            return Err(ControlError::NotConnected);
        }
        Ok(build_sync_write_torque(self.ids.as_slice(), true))
    }

    /// The packet that switches the torque of every motor off. Without a
    /// link there is nothing to write.
    pub fn torque_off(&self) -> (r: Result<Vec<u8>, ControlError>)
        requires
            self@.wf(),
        ensures
            self@.phase == Phase::Idle ==> r == Err::<Vec<u8>, ControlError>(
                ControlError::NotConnected,
            ),
            self@.phase != Phase::Idle ==> r is Ok && r->Ok_0@ == torque_packet(self@.ids, false),
    {
        if self.phase == Phase::Idle {
            return Err(ControlError::NotConnected);
        }
        Ok(build_sync_write_torque(self.ids.as_slice(), false))
    }

    /// Begins a recording at clock reading `now_ms`, for `limit_ms`
    /// milliseconds or, without a limit, until a stop is asked for. The
    /// buffer is emptied and the first position request is handed out.
    /// Without a link, or while a loop runs, nothing changes.
    pub fn record(&mut self, limit_ms: Option<u64>, now_ms: u64) -> (r: Result<
        Action,
        ControlError,
    >)
        requires
            old(self)@.wf(),
        ensures
            final(self)@.wf(),
            old(self)@.phase == Phase::Idle ==> r == Err::<Action, ControlError>(
                ControlError::NotConnected,
            ) && final(self)@ == old(self)@,
            old(self)@.phase != Phase::Idle && old(self)@.phase != Phase::Connected ==> r == Err::<
                Action,
                ControlError,
            >(ControlError::Busy) && final(self)@ == old(self)@,
            old(self)@.phase == Phase::Connected ==> r is Ok && (final(self)@, r->Ok_0@) == old(
                self,
            )@.begin_record(limit_ms, now_ms),
    {
        if self.phase == Phase::Idle {
            return Err(ControlError::NotConnected);
        }
        if self.phase != Phase::Connected {
            return Err(ControlError::Busy);
        }
        self.frames.clear();
        self.stop = false;
        self.started_ms = now_ms;
        self.limit_ms = limit_ms;
        self.phase = Phase::Polling;
        assert(self@.frames =~= Seq::empty());
        Ok(self.poll_action())
    }

    /// Begins a replay of the buffer: the torque-on write is handed out.
    /// Without a link, or while a loop runs, nothing changes.
    pub fn replay(&mut self) -> (r: Result<Action, ControlError>)
        requires
            old(self)@.wf(),
        ensures
            final(self)@.wf(),
            old(self)@.phase == Phase::Idle ==> r == Err::<Action, ControlError>(
                ControlError::NotConnected,
            ) && final(self)@ == old(self)@,
            old(self)@.phase != Phase::Idle && old(self)@.phase != Phase::Connected ==> r == Err::<
                Action,
                ControlError,
            >(ControlError::Busy) && final(self)@ == old(self)@,
            old(self)@.phase == Phase::Connected ==> r is Ok && (final(self)@, r->Ok_0@) == old(
                self,
            )@.begin_replay(),
    {
        if self.phase == Phase::Idle {
            return Err(ControlError::NotConnected);
        }
        if self.phase != Phase::Connected {
            return Err(ControlError::Busy);
        }
        self.stop = false;
        self.cursor = 0;
        self.phase = Phase::Engaging;
        assert(self@.frames =~= old(self)@.frames);
        Ok(Action::Transmit { packet: build_sync_write_torque(self.ids.as_slice(), true) })
    }

    fn poll_action(&self) -> (a: Action)
        requires
            self@.wf(),
        ensures
            a@ == self@.poll(),
    {
        Action::Exchange {
            packet: build_sync_current_request(self.ids.as_slice()),
            settle_ms: EXCHANGE_WAIT_MS,
        }
    }

    fn release_action(&self) -> (a: Action)
        requires
            self@.wf(),
        ensures
            a@ == self@.release(),
    {
        Action::Transmit { packet: build_sync_write_torque(self.ids.as_slice(), false) }
    }

    fn frame_action(&self, k: usize) -> (a: Action)
        requires
            self@.wf(),
            k < self@.frames.len(),
        ensures
            a@ == Step::Transmit(position_packet(self@.ids, self@.frames[k as int])),
    {
        assert(self@.frames[k as int].len() == self@.ids.len());
        Action::Transmit {
            packet: build_sync_write_position(self.ids.as_slice(), self.frames[k].as_slice()),
        }
    }

    fn time_is_up(&self, now_ms: u64) -> (r: bool)
        ensures
            r == self@.time_is_up(now_ms),
    {
        match self.limit_ms {
            Some(limit) => now_ms >= self.started_ms && now_ms - self.started_ms >= limit,
            None => false,
        }
    }

    /// Takes what came of the last action and decides the next one.
    pub fn advance(&mut self, event: Event, now_ms: u64) -> (action: Action)
        requires
            old(self)@.wf(),
        ensures
            final(self)@.wf(),
            (final(self)@, action@) == old(self)@.step(event@, now_ms),
    {
        match self.phase {
            Phase::Idle | Phase::Connected => Action::Finished,
            Phase::Polling => match event {
                Event::Reply(bytes) => {
                    proof {
                        lemma_absorb_reply_len(
                            self@.joints,
                            self@.ids,
                            bytes@,
                            self@.ids.len(),
                        );
                    }
                    self.reports = absorb_reports(
                        &mut self.joints,
                        self.ids.as_slice(),
                        bytes.as_slice(),
                    );
                    assert(self@.reports =~= old(self)@.reports_of(bytes@));
                    if self.time_is_up(now_ms) {
                        self.phase = Phase::Connected;
                        Action::Finished
                    } else {
                        let frame: Vec<i32> = slice_to_vec(self.joints.as_slice());
                        self.frames.push(frame);
                        self.phase = Phase::Settling;
                        assert(self@.frames =~= old(self)@.frames.push(self@.joints));
                        Action::Pause { ms: RECORD_PAUSE_MS }
                    }
                },
                _ => {
                    if self.stop || self.time_is_up(now_ms) {
                        self.phase = Phase::Connected;
                        Action::Finished
                    } else {
                        self.poll_action()
                    }
                },
            },
            Phase::Settling => {
                if self.stop {
                    self.phase = Phase::Connected;
                    Action::Finished
                } else {
                    self.phase = Phase::Polling;
                    self.poll_action()
                }
            },
            Phase::Engaging => {
                if self.frames.len() == 0 {
                    self.phase = Phase::Releasing;
                    self.release_action()
                } else {
                    self.cursor = 0;
                    self.phase = Phase::Streaming;
                    self.frame_action(0)
                }
            },
            Phase::Streaming => {
                self.phase = Phase::Spacing;
                Action::Pause { ms: REPLAY_PAUSE_MS }
            },
            Phase::Spacing => {
                let total: usize = self.frames.len();
                if self.stop || self.cursor + 1 >= total {
                    self.phase = Phase::Releasing;
                    self.release_action()
                } else {
                    self.cursor = self.cursor + 1;
                    self.phase = Phase::Streaming;
                    self.frame_action(self.cursor)
                }
            },
            Phase::Releasing => {
                self.phase = Phase::Connected;
                Action::Finished
            },
        }
    }
}

/// Every transition keeps the state well formed. It changes neither the
/// motor ids nor the stop flag; outside a recording it changes neither the
/// joint vector nor the buffer; and a recording only ever appends to the
/// buffer.
pub proof fn lemma_step_preserves(s: ControllerState, outcome: Outcome, now_ms: u64)
    requires
        s.wf(),
    ensures
        ({
            let next = s.step(outcome, now_ms).0;
            &&& next.wf()
            &&& next.ids == s.ids
            &&& next.stop == s.stop
            &&& !s.recording() ==> next.joints == s.joints && next.frames == s.frames
            &&& next.frames == s.frames || next.frames.drop_last() == s.frames
            &&& s.phase == Phase::Idle ==> next == s
        }),
{
    match outcome {
        Outcome::Reply(bytes) => {
            lemma_absorb_reply_len(s.joints, s.ids, bytes, s.ids.len());
            let joints = absorb_reply(s.joints, s.ids, bytes, s.ids.len());
            assert(s.frames.push(joints).drop_last() =~= s.frames);
        },
        _ => {},
    }
}

/// One turn of the caller's loop: what came of the last action, the clock
/// reading, and whether a stop was asked for before the controller was
/// told.
pub struct Tick {
    pub outcome: Outcome,
    pub now_ms: u64,
    pub halt: bool,
}

/// One turn from `s`: the stop, where one was asked for, and then the
/// transition.
pub open spec fn turn(s: ControllerState, tick: Tick) -> (ControllerState, Step) {
    (if tick.halt {
        s.halted()
    } else {
        s
    }).step(tick.outcome, tick.now_ms)
}

/// The state that a run of turns leads to from `s`, and the actions that
/// the controller handed out on the way.
pub open spec fn run(s: ControllerState, ticks: Seq<Tick>) -> (ControllerState, Seq<Step>)
    decreases ticks.len(),
{
    if ticks.len() == 0 {
        (s, Seq::empty())
    } else {
        let (mid, steps) = run(s, ticks.drop_last());
        let (next, step) = turn(mid, ticks.last());
        (next, steps.push(step))
    }
}

/// The packets that a sequence of actions puts on the bus, in order.
pub open spec fn writes(steps: Seq<Step>) -> Seq<Seq<u8>>
    decreases steps.len(),
{
    if steps.len() == 0 {
        Seq::empty()
    } else {
        let earlier = writes(steps.drop_last());
        match steps.last() {
            Step::Exchange(packet, _) => earlier.push(packet),
            Step::Transmit(packet) => earlier.push(packet),
            _ => earlier,
        }
    }
}

/// The position writes of the first `n` frames.
pub open spec fn frame_writes(ids: Seq<u8>, frames: Seq<Seq<i32>>, n: nat) -> Seq<Seq<u8>> {
    Seq::new(n, |k: int| position_packet(ids, frames[k]))
}

/// Whether a stop was asked for in any of the turns.
pub open spec fn any_halt(ticks: Seq<Tick>) -> bool {
    exists|k: int| 0 <= k < ticks.len() && (#[trigger] ticks[k]).halt
}

/// How many frames a replay that stands at `s` has written.
pub open spec fn frames_sent(s: ControllerState) -> nat {
    if s.phase == Phase::Engaging || s.frames.len() == 0 {
        0
    } else {
        s.cursor + 1
    }
}

/// What holds between the state of a replay and what it has written.
spec fn replay_inv(origin: ControllerState, s: ControllerState, steps: Seq<Step>, halted: bool)
    -> bool
{
    &&& s.wf()
    &&& s.ids == origin.ids
    &&& s.frames == origin.frames
    &&& s.replaying() || s.phase == Phase::Connected
    &&& frames_sent(s) <= s.frames.len()
    &&& s.phase == Phase::Engaging ==> s.cursor == 0
    &&& s.replaying() && !halted ==> !s.stop
    &&& if s.phase == Phase::Releasing || s.phase == Phase::Connected {
        &&& writes(steps) == frame_writes(s.ids, s.frames, frames_sent(s)).push(
            torque_packet(s.ids, false),
        )
        &&& !halted ==> frames_sent(s) == s.frames.len()
    } else {
        writes(steps) == frame_writes(s.ids, s.frames, frames_sent(s))
    }
}

/// That relation holds at the start of a replay and after every turn.
proof fn lemma_replay_inv(origin: ControllerState, ticks: Seq<Tick>)
    requires
        origin.wf(),
        origin.phase == Phase::Connected,
    ensures
        replay_inv(
            origin,
            run(origin.begin_replay().0, ticks).0,
            run(origin.begin_replay().0, ticks).1,
            any_halt(ticks),
        ),
    decreases ticks.len(),
{
    let start = origin.begin_replay().0;
    if ticks.len() == 0 {
        assert(writes(Seq::<Step>::empty()) =~= frame_writes(start.ids, start.frames, 0));
    } else {
        let head = ticks.drop_last();
        let tick = ticks.last();
        lemma_replay_inv(origin, head);
        let (mid, steps) = run(start, head);
        let all = steps.push(turn(mid, tick).1);
        assert(all.drop_last() =~= steps);
        if any_halt(head) {
            let k = choose|k: int| 0 <= k < head.len() && (#[trigger] head[k]).halt;
            assert(ticks[k].halt);
        }
        if tick.halt {
            assert(ticks[ticks.len() - 1].halt);
        }
        if mid.phase == Phase::Engaging && mid.frames.len() > 0 {
            assert(writes(all) =~= frame_writes(mid.ids, mid.frames, 1));
        }
        if mid.phase == Phase::Spacing && turn(mid, tick).0.phase == Phase::Streaming {
            assert(writes(all) =~= frame_writes(mid.ids, mid.frames, frames_sent(mid) + 1));
        }
    }
}

/// A replay, whatever comes of its writes and whenever a stop is asked for,
/// writes after its torque-on packet the position packets of the frames of
/// the buffer, in order, from the first one on, and ends with the
/// torque-off packet: once the replay is over, that packet is the last
/// thing written. Without a stop every frame of the buffer is written.
pub proof fn lemma_replay_ends_with_release(origin: ControllerState, ticks: Seq<Tick>)
    requires
        origin.wf(),
        origin.phase == Phase::Connected,
    ensures
        ({
            let (start, first) = origin.begin_replay();
            let (end, steps) = run(start, ticks);
            &&& first == Step::Transmit(torque_packet(origin.ids, true))
            &&& end.wf()
            &&& end.frames == origin.frames
            &&& frames_sent(end) <= origin.frames.len()
            &&& end.replaying() || end.phase == Phase::Connected
            &&& end.phase == Phase::Connected ==> {
                &&& writes(steps) == frame_writes(origin.ids, origin.frames, frames_sent(end)).push(
                    torque_packet(origin.ids, false),
                )
                &&& writes(steps).last() == torque_packet(origin.ids, false)
                &&& !any_halt(ticks) ==> frames_sent(end) == origin.frames.len()
            }
            &&& end.phase != Phase::Connected && end.phase != Phase::Releasing ==> writes(steps)
                == frame_writes(origin.ids, origin.frames, frames_sent(end))
        }),
{
    lemma_replay_inv(origin, ticks);
}

/// The earliest clock reading of the turn that follows the turns `head`
/// of a run from `s` begun at `began_ms`, for a caller that waits out each
/// pause: the reading of the last turn, plus the pause where the
/// controller asked for one.
pub open spec fn due(s: ControllerState, began_ms: u64, head: Seq<Tick>) -> int {
    if head.len() == 0 {
        began_ms as int
    } else {
        head.last().now_ms + match run(s, head).1.last() {
            Step::Pause(ms) => ms as int,
            _ => 0,
        }
    }
}

/// Whether the clock of a run never goes back and every pause is waited
/// out.
pub open spec fn paced(s: ControllerState, began_ms: u64, ticks: Seq<Tick>) -> bool
    decreases ticks.len(),
{
    if ticks.len() == 0 {
        true
    } else {
        &&& paced(s, began_ms, ticks.drop_last())
        &&& ticks.last().now_ms >= due(s, began_ms, ticks.drop_last())
    }
}

/// What holds of a bounded recording that began at `began_ms`, where the
/// next turn comes no earlier than `next_ms`.
spec fn record_inv(
    origin: ControllerState,
    limit_ms: u64,
    began_ms: u64,
    s: ControllerState,
    next_ms: int,
) -> bool {
    &&& s.wf()
    &&& s.ids == origin.ids
    &&& s.started_ms == began_ms
    &&& s.limit_ms == Some(limit_ms)
    &&& s.recording() || s.phase == Phase::Connected
    &&& s.recording() ==> next_ms >= began_ms + RECORD_PAUSE_MS * s.frames.len()
    &&& s.phase == Phase::Settling ==> s.frames.len() > 0
    &&& s.frames.len() > 0 ==> RECORD_PAUSE_MS * (s.frames.len() - 1) < limit_ms
}

/// That holds at the start of a bounded recording and after every turn of
/// a caller that waits out each pause.
proof fn lemma_record_inv(origin: ControllerState, limit_ms: u64, began_ms: u64, ticks: Seq<Tick>)
    requires
        origin.wf(),
        origin.phase == Phase::Connected,
        paced(origin.begin_record(Some(limit_ms), began_ms).0, began_ms, ticks),
    ensures
        record_inv(
            origin,
            limit_ms,
            began_ms,
            run(origin.begin_record(Some(limit_ms), began_ms).0, ticks).0,
            due(origin.begin_record(Some(limit_ms), began_ms).0, began_ms, ticks),
        ),
    decreases ticks.len(),
{
    let start = origin.begin_record(Some(limit_ms), began_ms).0;
    if ticks.len() > 0 {
        let head = ticks.drop_last();
        lemma_record_inv(origin, limit_ms, began_ms, head);
        let mid = run(start, head).0;
        match ticks.last().outcome {
            Outcome::Reply(bytes) => {
                lemma_absorb_reply_len(mid.joints, mid.ids, bytes, mid.ids.len());
            },
            _ => {},
        }
    }
}

/// A recording that may last `limit_ms` milliseconds, run by a caller that
/// waits out each pause, holds at most one frame for each pause that fits
/// in that time, and one more: with a second of time and the pause of ten
/// milliseconds, at most a hundred frames. Failed exchanges, damaged
/// replies and requests to stop do not change that. Every frame has one
/// position per motor.
pub proof fn lemma_record_length_bounded(
    origin: ControllerState,
    limit_ms: u64,
    began_ms: u64,
    ticks: Seq<Tick>,
)
    requires
        origin.wf(),
        origin.phase == Phase::Connected,
        paced(origin.begin_record(Some(limit_ms), began_ms).0, began_ms, ticks),
    ensures
        ({
            let end = run(origin.begin_record(Some(limit_ms), began_ms).0, ticks).0;
            &&& end.wf()
            &&& end.recording() || end.phase == Phase::Connected
            &&& end.frames.len() > 0 ==> RECORD_PAUSE_MS * (end.frames.len() - 1) < limit_ms
        }),
{
    lemma_record_inv(origin, limit_ms, began_ms, ticks);
}

/// A stop is seen at the next pause. Once a stop was asked for, whatever
/// comes of the actions, a recording is over after two turns and takes at
/// most one more frame; a replay is over after four turns, writes at most
/// one more frame, and leaves the buffer as it was.
pub proof fn lemma_stop_ends_the_loop(s: ControllerState, t1: Tick, t2: Tick, t3: Tick, t4: Tick)
    requires
        s.wf(),
        s.stop,
        s.recording() || s.replaying(),
    ensures
        ({
            let s2 = turn(turn(s, t1).0, t2).0;
            let s4 = turn(turn(s2, t3).0, t4).0;
            &&& s4.phase == Phase::Connected
            &&& s.recording() ==> s2.phase == Phase::Connected && s2.frames.len() <= s.frames.len()
                + 1
            &&& s.replaying() ==> s4.frames == s.frames && frames_sent(s4) <= frames_sent(s) + 1
        }),
{
}

/// A bounded recording ends when its time is up: from the clock reading at
/// which the limit is reached on, whatever comes of the actions, the
/// recording is over after two turns and takes no more frame.
pub proof fn lemma_time_ends_the_recording(s: ControllerState, t1: Tick, t2: Tick)
    requires
        s.wf(),
        s.recording(),
        s.time_is_up(t1.now_ms),
        s.time_is_up(t2.now_ms),
    ensures
        ({
            let s2 = turn(turn(s, t1).0, t2).0;
            &&& s2.phase == Phase::Connected
            &&& s2.frames == s.frames
        }),
{
}

} // verus!
