use vstd::prelude::*;

use crate::cmd::{CMD_BUF_FULL, CMD_CHECK_DEVICE, CMD_INQUIRY_STA, CMD_NEXT_ZIPPEDBULK, CMD_START_PRINT, CMD_STOP_PRINT};
use crate::status::PrinterStatus;
use crate::transport::TransportKind;

verus! {

/// Status polls while waiting for the device to become idle.
pub const READY_ATTEMPTS: u32 = 60;
/// Status polls while waiting for the printing station.
pub const PRINTING_ATTEMPTS: u32 = 60;
/// Status polls while waiting for buffer space.
pub const BUFFER_ATTEMPTS: u32 = 200;
/// Status polls while waiting for the page to finish.
pub const COMPLETE_ATTEMPTS: u32 = 300;
/// Pause between lifecycle polls, in milliseconds.
pub const POLL_MS: u32 = 100;
/// Pause before each buffer-space poll, in milliseconds.
pub const BUFFER_POLL_MS: u32 = 20;
/// Pause between the last data frame and the end-of-transfer command.
pub const SETTLE_MS: u32 = 20;
/// Block size announced before a bulk transfer.
pub const BULK_BLOCK_SIZE: u16 = 512;

/// Where a page is in its print flow.
#[derive(Clone, Copy, Debug, PartialEq, Eq, Structural)]
pub enum Phase {
    /// The presence probe is out.
    Checking,
    /// A status poll is out; waiting for an idle device.
    WaitingReady,
    /// Pausing before the next idle poll.
    PausingReady,
    /// The start-print command is out.
    StartingPrint,
    /// A status poll is out; waiting for the printing station.
    WaitingPrinting,
    /// Pausing before the next printing-station poll.
    PausingPrinting,
    /// Pausing before the next buffer-space poll.
    PausingBuffer,
    /// A status poll is out; waiting for buffer space.
    WaitingBuffer,
    /// The stop command is out after the printer reported an error.
    Stopping,
    /// The bulk announcement is out.
    Announcing,
    /// The data frames are being sent.
    Transferring,
    /// Pausing after the last data frame.
    Settling,
    /// The end-of-transfer command is out.
    Finishing,
    /// Pausing before the next completion poll.
    PausingComplete,
    /// A status poll is out; waiting for the page to finish.
    WaitingComplete,
    /// The page is done.
    Done,
    /// The page was abandoned.
    Failed,
}

/// Why a page was abandoned.
#[derive(Clone, Copy, Debug, PartialEq, Eq, Structural)]
pub enum Failure {
    /// The compressed stream is longer than the length field can carry.
    TooLarge,
    /// The presence probe got no valid answer.
    CheckDevice,
    /// The device never became idle.
    ReadyTimeout,
    /// The printer reported an error flag.
    PrinterError,
    /// The printing station never came up.
    PrintingTimeout,
    /// The printer's buffer never had room.
    BufferTimeout,
    /// The bulk announcement got no answer.
    NoBulkResponse,
    /// An event arrived that the current phase does not expect.
    UnexpectedEvent,
}

/// What the caller must do next for the print flow.
#[derive(Clone, Copy, Debug, PartialEq, Eq, Structural)]
pub enum Action {
    /// Send a one-parameter command and report the response.
    Command { cmd: u8, param: u16 },
    /// Send a two-parameter command and report the response.
    CommandTwo { cmd: u8, param1: u16, param2: u16 },
    /// Send the compressed stream in order; over Bluetooth read a response
    /// after the final frame only when asked to.
    SendBulk { read_final_response: bool },
    /// Sleep, then report `Event::Slept`.
    Sleep { millis: u32 },
    /// The page is finished; `completed` is false when the completion poll
    /// ran out, which is not an error.
    Finished { completed: bool },
    /// The page is abandoned.
    Abort { reason: Failure },
}

/// What came back from the last action.
pub enum Event {
    /// The response of a command or bulk transfer; `None` when nothing came.
    Response(Option<Vec<u8>>),
    /// The requested sleep is over.
    Slept,
}

/// The print flow of one page: probe, wait for an idle device, start,
/// wait for the printing station, wait for buffer space, transfer, and wait
/// for completion.
#[derive(Clone, Copy, Debug)]
pub struct PrintFlow {
    pub kind: TransportKind,
    pub phase: Phase,
    /// Polls made in the current wait.
    pub attempts: u32,
    /// Set while the transfer is under way; status queries from elsewhere
    /// must stay off the channel meanwhile.
    pub printing: bool,
    pub compressed_len: u16,
    pub speed: u16,
    pub failure: Option<Failure>,
    /// The status that reported an error, when that ended the page.
    pub error_status: Option<PrinterStatus>,
}

/// Number of 500-byte data packets for `len` bytes.
pub open spec fn packets_for(len: u16) -> u16 {
    ((len as int + 499) / 500) as u16
}

/// Phases in which the transfer is under way and the printing flag is set.
pub open spec fn transfer_phase(p: Phase) -> bool {
    match p {
        Phase::PausingBuffer | Phase::WaitingBuffer | Phase::Stopping | Phase::Announcing | Phase::Transferring
        | Phase::Settling | Phase::Finishing | Phase::PausingComplete | Phase::WaitingComplete => true,
        _ => false,
    }
}

/// The poll count stays within the budget of the wait it belongs to.
pub open spec fn attempts_ok(p: Phase, a: u32) -> bool {
    match p {
        Phase::WaitingReady => a < READY_ATTEMPTS,
        Phase::PausingReady => a <= READY_ATTEMPTS,
        Phase::WaitingPrinting => a < PRINTING_ATTEMPTS,
        Phase::PausingPrinting => a <= PRINTING_ATTEMPTS,
        Phase::PausingBuffer | Phase::WaitingBuffer => a < BUFFER_ATTEMPTS,
        Phase::PausingComplete | Phase::WaitingComplete => a < COMPLETE_ATTEMPTS,
        _ => a <= COMPLETE_ATTEMPTS,
    }
}

impl PrintFlow {
    /// The flow is consistent: the poll count is within its budget, the
    /// printing flag is set exactly during the transfer, and a failure is
    /// recorded exactly when the page was abandoned.
    pub open spec fn wf(self) -> bool {
        &&& attempts_ok(self.phase, self.attempts)
        &&& self.printing == transfer_phase(self.phase)
        &&& (self.phase == Phase::Failed <==> self.failure is Some)
    }

    /// Whether the flow is consistent.
    pub fn is_consistent(&self) -> (r: bool)
        ensures
            r == self.wf(),
    {
        let ok = match self.phase {
            Phase::WaitingReady => self.attempts < READY_ATTEMPTS,
            Phase::PausingReady => self.attempts <= READY_ATTEMPTS,
            Phase::WaitingPrinting => self.attempts < PRINTING_ATTEMPTS,
            Phase::PausingPrinting => self.attempts <= PRINTING_ATTEMPTS,
            Phase::PausingBuffer | Phase::WaitingBuffer => self.attempts < BUFFER_ATTEMPTS,
            Phase::PausingComplete | Phase::WaitingComplete => self.attempts < COMPLETE_ATTEMPTS,
            _ => self.attempts <= COMPLETE_ATTEMPTS,
        };
        let transfer = match self.phase {
            Phase::PausingBuffer | Phase::WaitingBuffer | Phase::Stopping | Phase::Announcing | Phase::Transferring
            | Phase::Settling | Phase::Finishing | Phase::PausingComplete | Phase::WaitingComplete => true,
            _ => false,
        };
        let failed = match self.phase {
            Phase::Failed => true,
            _ => false,
        };
        ok && self.printing == transfer && failed == self.failure.is_some()
    }

    /// The flow with the given phase, poll count and printing flag.
    pub open spec fn with(self, phase: Phase, attempts: u32, printing: bool) -> PrintFlow {
        PrintFlow { phase, attempts, printing, ..self }
    }

    /// The flow abandoned for `reason`, with the printing flag cleared.
    pub open spec fn failed(self, reason: Failure) -> PrintFlow {
        PrintFlow { phase: Phase::Failed, printing: false, failure: Some(reason), ..self }
    }

    /// The status a response carries, if any.
    pub open spec fn polled(self, resp: Option<Vec<u8>>) -> Option<PrinterStatus> {
        match resp {
            Some(r) => self.kind.status_of(r@),
            None => None,
        }
    }

    /// The status poll.
    pub open spec fn query() -> Action {
        Action::Command { cmd: CMD_INQUIRY_STA, param: 0 }
    }

    /// The next state and action of the flow after `ev`.
    pub open spec fn next(self, ev: Event) -> (PrintFlow, Action) {
        let a = self.attempts;
        match (self.phase, ev) {
            (Phase::Checking, Event::Response(r)) => if r matches Some(v) && self.kind.acknowledges(v@, CMD_CHECK_DEVICE) {
                (self.with(Phase::WaitingReady, 0, false), Self::query())
            } else {
                (self.failed(Failure::CheckDevice), Action::Abort { reason: Failure::CheckDevice })
            },
            (Phase::WaitingReady, Event::Response(r)) => match self.polled(r) {
                Some(s) if !s.device_busy && !s.printing => if s.any_error() {
                    (
                        PrintFlow { error_status: Some(s), ..self.failed(Failure::PrinterError) },
                        Action::Abort { reason: Failure::PrinterError },
                    )
                } else {
                    (self.with(Phase::StartingPrint, 0, false), Action::Command { cmd: CMD_START_PRINT, param: 0 })
                },
                _ => (self.with(Phase::PausingReady, (a + 1) as u32, false), Action::Sleep { millis: POLL_MS }),
            },
            (Phase::PausingReady, Event::Slept) => if a >= READY_ATTEMPTS {
                (self.failed(Failure::ReadyTimeout), Action::Abort { reason: Failure::ReadyTimeout })
            } else {
                (self.with(Phase::WaitingReady, a, false), Self::query())
            },
            (Phase::StartingPrint, Event::Response(_)) => (self.with(Phase::WaitingPrinting, 0, false), Self::query()),
            (Phase::WaitingPrinting, Event::Response(r)) => match self.polled(r) {
                Some(s) if s.printing => (self.with(Phase::PausingBuffer, 0, true), Action::Sleep { millis: BUFFER_POLL_MS }),
                _ => (self.with(Phase::PausingPrinting, (a + 1) as u32, false), Action::Sleep { millis: POLL_MS }),
            },
            (Phase::PausingPrinting, Event::Slept) => if a >= PRINTING_ATTEMPTS {
                (self.failed(Failure::PrintingTimeout), Action::Abort { reason: Failure::PrintingTimeout })
            } else {
                (self.with(Phase::WaitingPrinting, a, false), Self::query())
            },
            (Phase::PausingBuffer, Event::Slept) => (self.with(Phase::WaitingBuffer, a, true), Self::query()),
            (Phase::WaitingBuffer, Event::Response(r)) => match self.polled(r) {
                Some(s) if !s.buf_full => if s.any_error() {
                    (
                        PrintFlow { error_status: Some(s), ..self.with(Phase::Stopping, 0, true) },
                        Action::Command { cmd: CMD_STOP_PRINT, param: 0 },
                    )
                } else {
                    (
                        self.with(Phase::Announcing, 0, true),
                        Action::CommandTwo {
                            cmd: CMD_NEXT_ZIPPEDBULK,
                            param1: BULK_BLOCK_SIZE,
                            param2: packets_for(self.compressed_len),
                        },
                    )
                },
                _ => if a + 1 >= BUFFER_ATTEMPTS {
                    (self.failed(Failure::BufferTimeout), Action::Abort { reason: Failure::BufferTimeout })
                } else {
                    (self.with(Phase::PausingBuffer, (a + 1) as u32, true), Action::Sleep { millis: BUFFER_POLL_MS })
                },
            },
            (Phase::Stopping, Event::Response(_)) => (
                self.failed(Failure::PrinterError),
                Action::Abort { reason: Failure::PrinterError },
            ),
            (Phase::Announcing, Event::Response(r)) => if r is Some {
                (self.with(Phase::Transferring, 0, true), Action::SendBulk { read_final_response: true })
            } else {
                (self.failed(Failure::NoBulkResponse), Action::Abort { reason: Failure::NoBulkResponse })
            },
            (Phase::Transferring, Event::Response(_)) => (
                self.with(Phase::Settling, 0, true),
                Action::Sleep { millis: SETTLE_MS },
            ),
            (Phase::Settling, Event::Slept) => (
                self.with(Phase::Finishing, 0, true),
                Action::CommandTwo { cmd: CMD_BUF_FULL, param1: self.compressed_len, param2: self.speed },
            ),
            (Phase::Finishing, Event::Response(_)) => (
                self.with(Phase::PausingComplete, 0, true),
                Action::Sleep { millis: POLL_MS },
            ),
            (Phase::PausingComplete, Event::Slept) => (self.with(Phase::WaitingComplete, a, true), Self::query()),
            (Phase::WaitingComplete, Event::Response(r)) => match self.polled(r) {
                Some(s) if !s.printing && !s.device_busy => (
                    self.with(Phase::Done, 0, false),
                    Action::Finished { completed: true },
                ),
                _ => if a + 1 >= COMPLETE_ATTEMPTS {
                    (self.with(Phase::Done, 0, false), Action::Finished { completed: false })
                } else {
                    (self.with(Phase::PausingComplete, (a + 1) as u32, true), Action::Sleep { millis: POLL_MS })
                },
            },
            (Phase::Done, _) => (self, Action::Finished { completed: true }),
            (Phase::Failed, _) => (
                self,
                Action::Abort {
                    reason: match self.failure {
                        Some(f) => f,
                        None => Failure::UnexpectedEvent,
                    },
                },
            ),
            _ => (self.failed(Failure::UnexpectedEvent), Action::Abort { reason: Failure::UnexpectedEvent }),
        }
    }

    /// The initial state of a page's flow and its first action: the presence
    /// probe, or an abort when the stream is too long for the 16-bit length
    /// field of the end-of-transfer command.
    pub open spec fn start(kind: TransportKind, compressed_len: usize, speed: u16) -> (PrintFlow, Action) {
        let f = PrintFlow {
            kind,
            phase: Phase::Checking,
            attempts: 0,
            printing: false,
            compressed_len: if compressed_len <= 0xFFFF { compressed_len as u16 } else { 0 },
            speed,
            failure: None,
            error_status: None,
        };
        if compressed_len > 0xFFFF {
            (f.failed(Failure::TooLarge), Action::Abort { reason: Failure::TooLarge })
        } else {
            (f, Action::Command { cmd: CMD_CHECK_DEVICE, param: 0 })
        }
    }

    /// Begin the flow of one page whose compressed stream is
    /// `compressed_len` bytes long, to be printed at `speed`.
    pub fn new(kind: TransportKind, compressed_len: usize, speed: u16) -> (r: (PrintFlow, Action))
        ensures
            r == Self::start(kind, compressed_len, speed),
            r.0.wf(),
    {
        let f = PrintFlow {
            kind,
            phase: Phase::Checking,
            attempts: 0,
            printing: false,
            compressed_len: if compressed_len <= 0xFFFF {
                compressed_len as u16
            } else {
                0
            },
            speed,
            failure: None,
            error_status: None,
        };
        if compressed_len > 0xFFFF {
            (
                PrintFlow { phase: Phase::Failed, printing: false, failure: Some(Failure::TooLarge), ..f },
                Action::Abort { reason: Failure::TooLarge },
            )
        } else {
            (f, Action::Command { cmd: CMD_CHECK_DEVICE, param: 0 })
        }
    }

    fn poll(&self, r: &Option<Vec<u8>>) -> (s: Option<PrinterStatus>)
        ensures
            s == self.polled(*r),
    {
        match r {
            Some(v) => self.kind.parse_status_response(v.as_slice()),
            None => None,
        }
    }

    fn fail(&mut self, reason: Failure) -> (a: Action)
        ensures
            *final(self) == old(self).failed(reason),
            a == (Action::Abort { reason }),
    {
        self.phase = Phase::Failed;
        self.printing = false;
        self.failure = Some(reason);
        Action::Abort { reason }
    }

    fn enter(&mut self, phase: Phase, attempts: u32, printing: bool)
        ensures
            *final(self) == old(self).with(phase, attempts, printing),
    {
        self.phase = phase;
        self.attempts = attempts;
        self.printing = printing;
    }

    /// Advance the flow by what came back from the last action, and return
    /// the next action.
    pub fn step(&mut self, ev: Event) -> (a: Action)
        requires
            old(self).wf(),
        ensures
            (*final(self), a) == old(self).next(ev),
            final(self).wf(),
    {
        let att = self.attempts;
        match (self.phase, ev) {
            (Phase::Checking, Event::Response(r)) => {
                let ok = match &r {
                    Some(v) => self.kind.validate_response(v.as_slice(), CMD_CHECK_DEVICE),
                    None => false,
                };
                if ok {
                    self.enter(Phase::WaitingReady, 0, false);
                    Action::Command { cmd: CMD_INQUIRY_STA, param: 0 }
                } else {
                    self.fail(Failure::CheckDevice)
                }
            },
            (Phase::WaitingReady, Event::Response(r)) => {
                let st = self.poll(&r);
                match st {
                    Some(s) if !s.device_busy && !s.printing => if s.has_error() {
                        let a = self.fail(Failure::PrinterError);
                        self.error_status = Some(s);
                        a
                    } else {
                        self.enter(Phase::StartingPrint, 0, false);
                        Action::Command { cmd: CMD_START_PRINT, param: 0 }
                    },
                    _ => {
                        self.enter(Phase::PausingReady, att + 1, false);
                        Action::Sleep { millis: POLL_MS }
                    },
                }
            },
            (Phase::PausingReady, Event::Slept) => if att >= READY_ATTEMPTS {
                self.fail(Failure::ReadyTimeout)
            } else {
                self.enter(Phase::WaitingReady, att, false);
                Action::Command { cmd: CMD_INQUIRY_STA, param: 0 }
            },
            (Phase::StartingPrint, Event::Response(_)) => {
                self.enter(Phase::WaitingPrinting, 0, false);
                Action::Command { cmd: CMD_INQUIRY_STA, param: 0 }
            },
            (Phase::WaitingPrinting, Event::Response(r)) => {
                let st = self.poll(&r);
                match st {
                    Some(s) if s.printing => {
                        self.enter(Phase::PausingBuffer, 0, true);
                        Action::Sleep { millis: BUFFER_POLL_MS }
                    },
                    _ => {
                        self.enter(Phase::PausingPrinting, att + 1, false);
                        Action::Sleep { millis: POLL_MS }
                    },
                }
            },
            (Phase::PausingPrinting, Event::Slept) => if att >= PRINTING_ATTEMPTS {
                self.fail(Failure::PrintingTimeout)
            } else {
                self.enter(Phase::WaitingPrinting, att, false);
                Action::Command { cmd: CMD_INQUIRY_STA, param: 0 }
            },
            (Phase::PausingBuffer, Event::Slept) => {
                self.enter(Phase::WaitingBuffer, att, true);
                Action::Command { cmd: CMD_INQUIRY_STA, param: 0 }
            },
            (Phase::WaitingBuffer, Event::Response(r)) => {
                let st = self.poll(&r);
                match st {
                    Some(s) if !s.buf_full => if s.has_error() {
                        self.enter(Phase::Stopping, 0, true);
                        self.error_status = Some(s);
                        Action::Command { cmd: CMD_STOP_PRINT, param: 0 }
                    } else {
                        self.enter(Phase::Announcing, 0, true);
                        let packets: u16 = ((self.compressed_len as u32 + 499) / 500) as u16;
                        Action::CommandTwo { cmd: CMD_NEXT_ZIPPEDBULK, param1: BULK_BLOCK_SIZE, param2: packets }
                    },
                    _ => if att + 1 >= BUFFER_ATTEMPTS {
                        self.fail(Failure::BufferTimeout)
                    } else {
                        self.enter(Phase::PausingBuffer, att + 1, true);
                        Action::Sleep { millis: BUFFER_POLL_MS }
                    },
                }
            },
            (Phase::Stopping, Event::Response(_)) => self.fail(Failure::PrinterError),
            (Phase::Announcing, Event::Response(r)) => if r.is_some() {
                self.enter(Phase::Transferring, 0, true);
                Action::SendBulk { read_final_response: true }
            } else {
                self.fail(Failure::NoBulkResponse)
            },
            (Phase::Transferring, Event::Response(_)) => {
                self.enter(Phase::Settling, 0, true);
                Action::Sleep { millis: SETTLE_MS }
            },
            (Phase::Settling, Event::Slept) => {
                self.enter(Phase::Finishing, 0, true);
                Action::CommandTwo { cmd: CMD_BUF_FULL, param1: self.compressed_len, param2: self.speed }
            },
            (Phase::Finishing, Event::Response(_)) => {
                self.enter(Phase::PausingComplete, 0, true);
                Action::Sleep { millis: POLL_MS }
            },
            (Phase::PausingComplete, Event::Slept) => {
                self.enter(Phase::WaitingComplete, att, true);
                Action::Command { cmd: CMD_INQUIRY_STA, param: 0 }
            },
            (Phase::WaitingComplete, Event::Response(r)) => {
                let st = self.poll(&r);
                match st {
                    Some(s) if !s.printing && !s.device_busy => {
                        self.enter(Phase::Done, 0, false);
                        Action::Finished { completed: true }
                    },
                    _ => if att + 1 >= COMPLETE_ATTEMPTS {
                        self.enter(Phase::Done, 0, false);
                        Action::Finished { completed: false }
                    } else {
                        self.enter(Phase::PausingComplete, att + 1, true);
                        Action::Sleep { millis: POLL_MS }
                    },
                }
            },
            (Phase::Done, _) => Action::Finished { completed: true },
            (Phase::Failed, _) => Action::Abort {
                reason: match self.failure {
                    Some(f) => f,
                    None => Failure::UnexpectedEvent,
                },
            },
            _ => self.fail(Failure::UnexpectedEvent),
        }
    }
}

/// Steps the flow can still take at most: each wait is counted with its
/// remaining polls, and each later phase ranks below every earlier one.
pub open spec fn remaining_steps(f: PrintFlow) -> int {
    let a = f.attempts as int;
    match f.phase {
        Phase::Done | Phase::Failed => 0,
        Phase::Stopping => 1,
        Phase::WaitingComplete => 2 * (COMPLETE_ATTEMPTS - a),
        Phase::PausingComplete => 2 * (COMPLETE_ATTEMPTS - a) + 1,
        Phase::Finishing => 602,
        Phase::Settling => 603,
        Phase::Transferring => 604,
        Phase::Announcing => 605,
        Phase::WaitingBuffer => 606 + 2 * (BUFFER_ATTEMPTS - a),
        Phase::PausingBuffer => 606 + 2 * (BUFFER_ATTEMPTS - a) + 1,
        Phase::WaitingPrinting => 1008 + 2 * (PRINTING_ATTEMPTS - a),
        Phase::PausingPrinting => 1008 + 2 * (PRINTING_ATTEMPTS - a) + 1,
        Phase::StartingPrint => 1130,
        Phase::WaitingReady => 1131 + 2 * (READY_ATTEMPTS - a),
        Phase::PausingReady => 1131 + 2 * (READY_ATTEMPTS - a) + 1,
        Phase::Checking => 1253,
    }
}

/// Whatever the printer answers, every step of an unfinished flow brings it
/// closer to its end: a page ends, done or failed, within a bounded number
/// of steps, since every wait has a poll budget.
pub proof fn lemma_flow_progress(f: PrintFlow, ev: Event)
    requires
        f.wf(),
        f.phase != Phase::Done,
        f.phase != Phase::Failed,
    ensures
        0 <= remaining_steps(f.next(ev).0) < remaining_steps(f),
        f.next(ev).0.wf(),
{
}

/// A flow that has ended stays where it is.
pub proof fn lemma_flow_ended(f: PrintFlow, ev: Event)
    requires
        f.phase == Phase::Done || f.phase == Phase::Failed,
    ensures
        f.next(ev).0 == f,
{
}

} // verus!
