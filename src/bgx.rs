use vstd::prelude::*;
use vstd::slice::*;
use vstd::string::*;
use vstd::utf8::*;
use crate::command::{
    Cmd,
    settings,
    setting,
    settings_count,
    wire,
    BREAK_GUARD_MS,
    SCAN_WINDOW_MS,
    SETTING_PAUSE_MS,
    TIMEOUT_COMMON_MS,
    TIMEOUT_CONNECT_MS,
    TIMEOUT_DISCONNECT_MS,
    TIMEOUT_SETTINGS_MS,
};
use crate::con_param::addr_word;
use crate::fw::{fw_version_of, has_version, is_known_good, known_good_marker, lemma_version_text, version_text};
use crate::mac::Mac;
use crate::response::{
    BgxResponse,
    Errors,
    ResponseCodes,
    ResponseHeader,
    ResponseView,
    parse_response,
    response_of,
    utf8_string,
};
use crate::scan::{DeviceView, ScanResult, scan_table, span_of};
use crate::text::{bytes_equal, contains, lemma_lines_in_bounds, lines, occurs_in, split_lines};

verus! {

/// How often the mode probe runs before mode recovery gives up.
pub const MAX_PROBES: u8 = 3;

/// Why a connect did not leave the module connected.
#[derive(Debug, Clone, Copy, PartialEq, Eq, Structural)]
pub enum ConnectCause {
    /// The module refused while still connected; it has been disconnected since.
    CommandFailedButCleared,
    /// The bonding did not match; the bondings were cleared, so a retry may succeed.
    SecurityMismatchBondingsCleared,
    /// The bonding did not match, and clearing the bondings failed too.
    SecurityMismatchUnrecoverable,
    /// The module did not connect in time.
    ConnectTimeout,
}

/// What went wrong in an operation of the driver.
#[derive(Debug, Clone, Copy, PartialEq, Eq, Structural)]
pub enum DriverError {
    /// The transport failed.
    Io,
    /// The transport reported an event that the driver was not waiting for.
    UnexpectedEvent,
    /// A reply could not be decoded.
    Framing(Errors),
    /// A framed reply carried a code that the operation cannot act on.
    UnexpectedResponse(ResponseCodes),
    /// A framed reply came where passthrough data was expected.
    UnexpectedFramed(ResponseHeader),
    /// Raw bytes came where a framed reply was expected.
    UnexpectedRaw,
    /// A reply that must be text was not UTF-8.
    InvalidText,
    /// No firmware version could be read from the reply to `ver`.
    FirmwareUnknown,
    /// The number of `Success` lines after provisioning was not one per setting.
    SettingsApplicationFailed { got: usize, expected: usize },
    /// The module did not answer in command mode after repeated break sequences.
    ModeRecoveryExhausted,
    /// A connect failed; the cause says what was done about it.
    ConnectFailure(ConnectCause),
}

/// What the driver is waiting for.
#[derive(Debug, Clone, Copy, PartialEq, Eq, Structural)]
pub enum Stage {
    Idle,
    AwaitFlush,
    AwaitLine1,
    AwaitLine2,
    AwaitListen,
    AwaitGuardBefore,
    AwaitBreak,
    AwaitGuardAfter,
    AwaitBreakFlush,
    AwaitConParamsSent,
    AwaitConParams,
    AwaitDctSent,
    AwaitDct,
    AwaitConnectSent,
    AwaitConnect,
    AwaitClrbSent,
    AwaitClrb,
    AwaitScanSent,
    AwaitScanAck,
    AwaitScanWindow,
    AwaitResultsSent,
    AwaitResults,
    AwaitVersionSent,
    AwaitVersion,
    AwaitSettingSent,
    AwaitSettingPause,
    AwaitSettingReplies,
    AwaitVerifySent,
    AwaitVerify,
    AwaitPassthrough,
    AwaitPassthroughSent,
}

/// What follows once the module is known to be in command mode.
#[derive(Debug, Clone, Copy, PartialEq, Eq, Structural)]
pub enum Resume {
    /// Begin a disconnect, which probes the mode again first.
    StartDisconnect,
    /// Ask for the connection parameters.
    QueryConParams,
    /// Ask for the firmware version.
    QueryVersion,
    /// Apply the default settings.
    ApplySettings,
}

/// What follows once a disconnect is through.
#[derive(Debug, Clone, Copy, PartialEq, Eq, Structural)]
pub enum AfterDisconnect {
    Finish,
    Connect,
    Scan,
    FailCleared,
}

/// What the transport reports back for the last action.
pub enum Event {
    /// The bytes read until the line went idle; possibly none.
    Drained(Vec<u8>),
    /// A write or a pause is over.
    Done,
    /// The transport failed.
    Failed,
}

/// The mathematical value of an event.
pub enum EventView {
    Drained(Seq<u8>),
    Done,
    Failed,
}

impl View for Event {
    type V = EventView;

    open spec fn view(&self) -> EventView {
        match self {
            Event::Drained(b) => EventView::Drained(b@),
            Event::Done => EventView::Done,
            Event::Failed => EventView::Failed,
        }
    }
}

/// How an operation ended.
#[derive(Debug, PartialEq, Eq)]
pub enum Outcome {
    Done,
    Scanned(ScanResult),
    Received(Vec<u8>),
    Failed(DriverError),
}

/// The mathematical value of an outcome.
pub enum OutcomeView {
    Done,
    Scanned(Seq<DeviceView>),
    Received(Seq<u8>),
    Failed(DriverError),
}

impl View for Outcome {
    type V = OutcomeView;

    open spec fn view(&self) -> OutcomeView {
        match self {
            Outcome::Done => OutcomeView::Done,
            Outcome::Scanned(r) => OutcomeView::Scanned(r@),
            Outcome::Received(b) => OutcomeView::Received(b@),
            Outcome::Failed(e) => OutcomeView::Failed(*e),
        }
    }
}

/// What the transport is to do next. Before a drain or a write it sets both its
/// read and its write timeout to the given value.
#[derive(Debug, PartialEq, Eq)]
pub enum Action {
    /// Read until the line stays idle for the timeout; report `Drained`.
    Drain { timeout_ms: u64 },
    /// Write all the bytes; report `Done`.
    Write { bytes: Vec<u8>, timeout_ms: u64 },
    /// Keep the line silent for a while; report `Done`.
    Pause { ms: u64 },
    /// The operation is over.
    Finish(Outcome),
}

/// The mathematical value of an action.
pub enum ActionView {
    Drain { timeout_ms: u64 },
    Write { bytes: Seq<u8>, timeout_ms: u64 },
    Pause { ms: u64 },
    Finish(OutcomeView),
}

impl View for Action {
    type V = ActionView;

    open spec fn view(&self) -> ActionView {
        match self {
            Action::Drain { timeout_ms } => ActionView::Drain { timeout_ms: *timeout_ms },
            Action::Write { bytes, timeout_ms } => ActionView::Write {
                bytes: bytes@,
                timeout_ms: *timeout_ms,
            },
            Action::Pause { ms } => ActionView::Pause { ms: *ms },
            Action::Finish(o) => ActionView::Finish(o@),
        }
    }
}

/// The driver of one module: the protocol's decisions, apart from the transport.
/// Each operation starts with a call that returns the first action; the caller
/// performs it and hands the result to [`Bgx13p::step`], until an action
/// `Finish` ends the operation.
#[derive(Debug)]
pub struct Bgx13p {
    /// Set once the well-known state has been reached; never cleared.
    pub default_settings_applied: bool,
    pub stage: Stage,
    pub resume: Resume,
    pub after: AfterDisconnect,
    /// The number of the mode probe under way.
    pub attempt: u8,
    /// The device that a connect is for.
    pub target: Mac,
    /// Whether the firmware is not of the line that takes every setting.
    pub other_fw: bool,
    /// The setting being applied.
    pub setting: usize,
}

/// `Success`, the line that acknowledges a setting.
pub open spec fn success_word() -> Seq<u8> {
    seq![83u8, 117u8, 99u8, 99u8, 101u8, 115u8, 115u8]
}

/// How many of the rows `ls` of `s` are exactly `w`.
pub open spec fn count_rows(s: Seq<u8>, ls: Seq<(int, int)>, w: Seq<u8>) -> nat
    decreases ls.len(),
{
    if ls.len() == 0 {
        0
    } else {
        count_rows(s, ls.drop_last(), w) + if span_of(s, ls.last()) == w {
            1nat
        } else {
            0nat
        }
    }
}

/// How many lines of `s` read `Success`.
pub open spec fn success_lines(s: Seq<u8>) -> nat {
    count_rows(s, lines(s), success_word())
}

pub open spec fn drain(t: u64) -> ActionView {
    ActionView::Drain { timeout_ms: t }
}

pub open spec fn send(c: Cmd, t: u64) -> ActionView {
    ActionView::Write { bytes: wire(c), timeout_ms: t }
}

pub open spec fn pause(ms: u64) -> ActionView {
    ActionView::Pause { ms }
}

pub open spec fn finish_done() -> ActionView {
    ActionView::Finish(OutcomeView::Done)
}

pub open spec fn fail(e: DriverError) -> ActionView {
    ActionView::Finish(OutcomeView::Failed(e))
}

/// The machine moved to stage `s`, all else kept.
pub open spec fn at(m: Bgx13p, s: Stage) -> Bgx13p {
    Bgx13p { stage: s, ..m }
}

/// The operation ends with `e`.
pub open spec fn failing(m: Bgx13p, e: DriverError) -> (Bgx13p, ActionView) {
    (at(m, Stage::Idle), fail(e))
}

/// The mode probe begins: flush whatever is pending.
pub open spec fn begin_probe(m: Bgx13p, resume: Resume, after: AfterDisconnect) -> (
    Bgx13p,
    ActionView,
) {
    (
        Bgx13p { stage: Stage::AwaitFlush, resume, after, attempt: 1, ..m },
        drain(TIMEOUT_COMMON_MS),
    )
}

/// The module answered in command mode: go on where the operation left off.
pub open spec fn resumed(m: Bgx13p) -> (Bgx13p, ActionView) {
    match m.resume {
        Resume::StartDisconnect => begin_probe(m, Resume::QueryConParams, m.after),
        Resume::QueryConParams => (
            at(m, Stage::AwaitConParamsSent),
            send(Cmd::ConParams, TIMEOUT_COMMON_MS),
        ),
        Resume::QueryVersion => (
            at(m, Stage::AwaitVersionSent),
            send(Cmd::GetVersion, TIMEOUT_COMMON_MS),
        ),
        Resume::ApplySettings => (
            Bgx13p { stage: Stage::AwaitSettingSent, setting: 0, ..m },
            send(settings(m.other_fw)[0], TIMEOUT_SETTINGS_MS),
        ),
    }
}

/// The disconnect is through: go on with what it was a part of.
pub open spec fn disconnected(m: Bgx13p) -> (Bgx13p, ActionView) {
    match m.after {
        AfterDisconnect::Finish => (at(m, Stage::Idle), finish_done()),
        AfterDisconnect::Connect => (
            at(m, Stage::AwaitConnectSent),
            send(Cmd::Connect(m.target), TIMEOUT_CONNECT_MS),
        ),
        AfterDisconnect::Scan => (at(m, Stage::AwaitScanSent), send(Cmd::Scan, TIMEOUT_COMMON_MS)),
        AfterDisconnect::FailCleared => failing(
            m,
            DriverError::ConnectFailure(ConnectCause::CommandFailedButCleared),
        ),
    }
}

/// The next step after a write or a pause is over.
pub open spec fn after_done(m: Bgx13p) -> (Bgx13p, ActionView) {
    match m.stage {
        Stage::AwaitLine1 => (at(m, Stage::AwaitLine2), send(Cmd::Linebreak, TIMEOUT_COMMON_MS)),
        Stage::AwaitLine2 => (at(m, Stage::AwaitListen), drain(TIMEOUT_COMMON_MS)),
        Stage::AwaitGuardBefore => (
            at(m, Stage::AwaitBreak),
            send(Cmd::BreakSequence, TIMEOUT_COMMON_MS),
        ),
        Stage::AwaitBreak => (at(m, Stage::AwaitGuardAfter), pause(BREAK_GUARD_MS)),
        Stage::AwaitGuardAfter => (at(m, Stage::AwaitBreakFlush), drain(TIMEOUT_COMMON_MS)),
        Stage::AwaitConParamsSent => (at(m, Stage::AwaitConParams), drain(TIMEOUT_COMMON_MS)),
        Stage::AwaitDctSent => (at(m, Stage::AwaitDct), drain(TIMEOUT_DISCONNECT_MS)),
        Stage::AwaitConnectSent => (at(m, Stage::AwaitConnect), drain(TIMEOUT_CONNECT_MS)),
        Stage::AwaitClrbSent => (at(m, Stage::AwaitClrb), drain(TIMEOUT_COMMON_MS)),
        Stage::AwaitScanSent => (at(m, Stage::AwaitScanAck), drain(TIMEOUT_COMMON_MS)),
        Stage::AwaitScanWindow => (
            at(m, Stage::AwaitResultsSent),
            send(Cmd::ScanResults, TIMEOUT_COMMON_MS),
        ),
        Stage::AwaitResultsSent => (at(m, Stage::AwaitResults), drain(TIMEOUT_COMMON_MS)),
        Stage::AwaitVersionSent => (at(m, Stage::AwaitVersion), drain(TIMEOUT_COMMON_MS)),
        Stage::AwaitSettingSent => (at(m, Stage::AwaitSettingPause), pause(SETTING_PAUSE_MS)),
        Stage::AwaitSettingPause => if m.setting + 1 < settings(m.other_fw).len() {
            (
                Bgx13p { stage: Stage::AwaitSettingSent, setting: (m.setting + 1) as usize, ..m },
                send(settings(m.other_fw)[m.setting + 1], TIMEOUT_SETTINGS_MS),
            )
        } else {
            (at(m, Stage::AwaitSettingReplies), drain(TIMEOUT_SETTINGS_MS))
        },
        Stage::AwaitVerifySent => (at(m, Stage::AwaitVerify), drain(TIMEOUT_COMMON_MS)),
        Stage::AwaitPassthroughSent => (at(m, Stage::Idle), finish_done()),
        _ => failing(m, DriverError::UnexpectedEvent),
    }
}

/// The reply to `con params`: disconnect where a peer is named, else the
/// disconnect is through.
pub open spec fn after_con_params(m: Bgx13p, b: Seq<u8>) -> (Bgx13p, ActionView) {
    match response_of(b) {
        Err(e) => failing(m, DriverError::Framing(e)),
        Ok(ResponseView::Raw(_)) => failing(m, DriverError::UnexpectedRaw),
        Ok(ResponseView::Framed(h, body)) => if h.response_code != ResponseCodes::Success {
            failing(m, DriverError::UnexpectedResponse(h.response_code))
        } else if occurs_in(encode_utf8(body), addr_word()) {
            (at(m, Stage::AwaitDctSent), send(Cmd::Disconnect, TIMEOUT_COMMON_MS))
        } else {
            disconnected(m)
        },
    }
}

/// The reply to a connect.
pub open spec fn after_connect(m: Bgx13p, b: Seq<u8>) -> (Bgx13p, ActionView) {
    match response_of(b) {
        Err(e) => failing(m, DriverError::Framing(e)),
        Ok(ResponseView::Raw(_)) => failing(m, DriverError::UnexpectedRaw),
        Ok(ResponseView::Framed(h, _)) => match h.response_code {
            ResponseCodes::Success => (at(m, Stage::Idle), finish_done()),
            ResponseCodes::CommandFailed => begin_probe(
                m,
                Resume::QueryConParams,
                AfterDisconnect::FailCleared,
            ),
            ResponseCodes::SecurityMismatch => (
                at(m, Stage::AwaitClrbSent),
                send(Cmd::ClearAllBondings, TIMEOUT_COMMON_MS),
            ),
            ResponseCodes::Timeout => failing(
                m,
                DriverError::ConnectFailure(ConnectCause::ConnectTimeout),
            ),
            c => failing(m, DriverError::UnexpectedResponse(c)),
        },
    }
}

/// The reply to `clrb` after a security mismatch.
pub open spec fn after_clear_bondings(m: Bgx13p, b: Seq<u8>) -> (Bgx13p, ActionView) {
    match response_of(b) {
        Ok(ResponseView::Framed(h, _)) => if h.response_code == ResponseCodes::Success {
            failing(m, DriverError::ConnectFailure(ConnectCause::SecurityMismatchBondingsCleared))
        } else {
            failing(m, DriverError::ConnectFailure(ConnectCause::SecurityMismatchUnrecoverable))
        },
        _ => failing(m, DriverError::ConnectFailure(ConnectCause::SecurityMismatchUnrecoverable)),
    }
}

/// The reply to `ver`: classify the firmware, then probe the mode again and
/// apply the settings.
pub open spec fn after_version(m: Bgx13p, b: Seq<u8>) -> (Bgx13p, ActionView) {
    if !valid_utf8(b) {
        failing(m, DriverError::InvalidText)
    } else if !has_version(b) {
        failing(m, DriverError::FirmwareUnknown)
    } else {
        begin_probe(
            Bgx13p { other_fw: !occurs_in(version_text(b), known_good_marker()), ..m },
            Resume::ApplySettings,
            m.after,
        )
    }
}

/// The echoes of the settings: one `Success` line for each setting is required.
pub open spec fn after_settings(m: Bgx13p, b: Seq<u8>) -> (Bgx13p, ActionView) {
    if !valid_utf8(b) {
        failing(m, DriverError::InvalidText)
    } else if success_lines(b) != settings(m.other_fw).len() {
        failing(
            m,
            DriverError::SettingsApplicationFailed {
                got: success_lines(b) as usize,
                expected: settings(m.other_fw).len() as usize,
            },
        )
    } else {
        (at(m, Stage::AwaitVerifySent), send(Cmd::Linebreak, TIMEOUT_COMMON_MS))
    }
}

/// The framed reply to an empty line that ends provisioning.
pub open spec fn after_verify(m: Bgx13p, b: Seq<u8>) -> (Bgx13p, ActionView) {
    match response_of(b) {
        Err(e) => failing(m, DriverError::Framing(e)),
        Ok(ResponseView::Raw(_)) => failing(m, DriverError::UnexpectedRaw),
        Ok(ResponseView::Framed(h, _)) => if h.response_code == ResponseCodes::Success {
            (Bgx13p { stage: Stage::Idle, default_settings_applied: true, ..m }, finish_done())
        } else {
            failing(m, DriverError::UnexpectedResponse(h.response_code))
        },
    }
}

/// The next step after bytes were drained.
pub open spec fn after_drained(m: Bgx13p, b: Seq<u8>) -> (Bgx13p, ActionView) {
    match m.stage {
        Stage::AwaitFlush => (at(m, Stage::AwaitLine1), send(Cmd::Linebreak, TIMEOUT_COMMON_MS)),
        Stage::AwaitListen => if b.len() > 0 {
            resumed(m)
        } else if m.attempt >= MAX_PROBES {
            failing(m, DriverError::ModeRecoveryExhausted)
        } else {
            (at(m, Stage::AwaitGuardBefore), pause(BREAK_GUARD_MS))
        },
        Stage::AwaitBreakFlush => (
            Bgx13p {
                stage: Stage::AwaitFlush,
                attempt: if m.attempt < MAX_PROBES {
                    (m.attempt + 1) as u8
                } else {
                    m.attempt
                },
                ..m
            },
            drain(TIMEOUT_COMMON_MS),
        ),
        Stage::AwaitConParams => after_con_params(m, b),
        Stage::AwaitDct => match response_of(b) {
            Err(e) => failing(m, DriverError::Framing(e)),
            Ok(_) => disconnected(m),
        },
        Stage::AwaitConnect => after_connect(m, b),
        Stage::AwaitClrb => after_clear_bondings(m, b),
        Stage::AwaitScanAck => match response_of(b) {
            Err(e) => failing(m, DriverError::Framing(e)),
            Ok(_) => (at(m, Stage::AwaitScanWindow), pause(SCAN_WINDOW_MS)),
        },
        Stage::AwaitResults => match response_of(b) {
            Err(e) => failing(m, DriverError::Framing(e)),
            Ok(ResponseView::Raw(_)) => failing(m, DriverError::UnexpectedRaw),
            Ok(ResponseView::Framed(_, body)) => (
                at(m, Stage::Idle),
                ActionView::Finish(OutcomeView::Scanned(scan_table(encode_utf8(body)))),
            ),
        },
        Stage::AwaitVersion => after_version(m, b),
        Stage::AwaitSettingReplies => after_settings(m, b),
        Stage::AwaitVerify => after_verify(m, b),
        Stage::AwaitPassthrough => match response_of(b) {
            Err(e) => failing(m, DriverError::Framing(e)),
            Ok(ResponseView::Framed(h, _)) => failing(m, DriverError::UnexpectedFramed(h)),
            Ok(ResponseView::Raw(x)) => (
                at(m, Stage::Idle),
                ActionView::Finish(OutcomeView::Received(x)),
            ),
        },
        _ => failing(m, DriverError::UnexpectedEvent),
    }
}

/// The driver's transition: the next state and action for what the transport reported.
pub open spec fn next(m: Bgx13p, e: EventView) -> (Bgx13p, ActionView) {
    match e {
        EventView::Failed => failing(m, DriverError::Io),
        EventView::Done => after_done(m),
        EventView::Drained(b) => after_drained(m, b),
    }
}

/// How many lines of the bytes read `Success`.
pub fn count_success_lines(s: &[u8]) -> (r: usize)
    ensures
        r == success_lines(s@),
{
    let ls = split_lines(s);
    let w: Vec<u8> = vec![83u8, 117u8, 99u8, 99u8, 101u8, 115u8, 115u8];
    assert(w@ =~= success_word());
    let ghost all = lines(s@);
    proof {
        lemma_lines_in_bounds(s@);
    }
    let mut count: usize = 0;
    let mut k: usize = 0;
    while k < ls.len()
        invariant
            0 <= k <= ls@.len(),
            count <= k,
            w@ == success_word(),
            ls@.len() == all.len(),
            all == lines(s@),
            forall|j: int|
                0 <= j < ls@.len() ==> (ls@[j].0 as int, ls@[j].1 as int) == #[trigger] all[j],
            forall|j: int| 0 <= j < all.len() ==> 0 <= (#[trigger] all[j]).0 <= all[j].1 <= s@.len(),
            count == count_rows(s@, all.subrange(0, k as int), success_word()),
        decreases ls@.len() - k,
    {
        let (a, b) = ls[k];
        assert((a as int, b as int) == all[k as int]);
        if bytes_equal(slice_subrange(s, a, b), w.as_slice()) {
            count = count + 1;
        }
        k = k + 1;
        assert(all.subrange(0, k as int).drop_last() =~= all.subrange(0, k - 1));
    }
    assert(all.subrange(0, ls@.len() as int) =~= all);
    count
}

fn send_cmd(c: Cmd, t: u64) -> (a: Action)
    ensures
        a@ == send(c, t),
{
    Action::Write { bytes: c.wire_bytes(), timeout_ms: t }
}

impl Bgx13p {
    /// A driver for a module in an unknown state.
    pub fn new() -> (r: Bgx13p)
        ensures
            r.stage == Stage::Idle,
            !r.default_settings_applied,
    {
        Bgx13p {
            default_settings_applied: false,
            stage: Stage::Idle,
            resume: Resume::QueryConParams,
            after: AfterDisconnect::Finish,
            attempt: 0,
            target: Mac([0u8; 6]),
            other_fw: false,
            setting: 0,
        }
    }

    fn fail_with(&mut self, e: DriverError) -> (a: Action)
        ensures
            (*final(self), a@) == failing(*old(self), e),
    {
        self.stage = Stage::Idle;
        Action::Finish(Outcome::Failed(e))
    }

    fn start_probe(&mut self, resume: Resume, after: AfterDisconnect) -> (a: Action)
        ensures
            (*final(self), a@) == begin_probe(*old(self), resume, after),
    {
        self.stage = Stage::AwaitFlush;
        self.resume = resume;
        self.after = after;
        self.attempt = 1;
        Action::Drain { timeout_ms: TIMEOUT_COMMON_MS }
    }

    fn go(&mut self, s: Stage, a: Action) -> (r: Action)
        ensures
            *final(self) == at(*old(self), s),
            r == a,
    {
        self.stage = s;
        a
    }

    fn resume_operation(&mut self) -> (a: Action)
        ensures
            (*final(self), a@) == resumed(*old(self)),
    {
        match self.resume {
            Resume::StartDisconnect => {
                let after = self.after;
                self.start_probe(Resume::QueryConParams, after)
            },
            Resume::QueryConParams => self.go(
                Stage::AwaitConParamsSent,
                send_cmd(Cmd::ConParams, TIMEOUT_COMMON_MS),
            ),
            Resume::QueryVersion => self.go(
                Stage::AwaitVersionSent,
                send_cmd(Cmd::GetVersion, TIMEOUT_COMMON_MS),
            ),
            Resume::ApplySettings => {
                self.stage = Stage::AwaitSettingSent;
                self.setting = 0;
                send_cmd(setting(self.other_fw, 0), TIMEOUT_SETTINGS_MS)
            },
        }
    }

    fn finish_disconnect(&mut self) -> (a: Action)
        ensures
            (*final(self), a@) == disconnected(*old(self)),
    {
        match self.after {
            AfterDisconnect::Finish => self.go(Stage::Idle, Action::Finish(Outcome::Done)),
            AfterDisconnect::Connect => {
                let t = self.target;
                self.go(Stage::AwaitConnectSent, send_cmd(Cmd::Connect(t), TIMEOUT_CONNECT_MS))
            },
            AfterDisconnect::Scan => self.go(
                Stage::AwaitScanSent,
                send_cmd(Cmd::Scan, TIMEOUT_COMMON_MS),
            ),
            AfterDisconnect::FailCleared => self.fail_with(
                DriverError::ConnectFailure(ConnectCause::CommandFailedButCleared),
            ),
        }
    }

    fn on_done(&mut self) -> (a: Action)
        ensures
            (*final(self), a@) == after_done(*old(self)),
    {
        match self.stage {
            Stage::AwaitLine1 => self.go(
                Stage::AwaitLine2,
                send_cmd(Cmd::Linebreak, TIMEOUT_COMMON_MS),
            ),
            Stage::AwaitLine2 => self.go(
                Stage::AwaitListen,
                Action::Drain { timeout_ms: TIMEOUT_COMMON_MS },
            ),
            Stage::AwaitGuardBefore => self.go(
                Stage::AwaitBreak,
                send_cmd(Cmd::BreakSequence, TIMEOUT_COMMON_MS),
            ),
            Stage::AwaitBreak => self.go(
                Stage::AwaitGuardAfter,
                Action::Pause { ms: BREAK_GUARD_MS },
            ),
            Stage::AwaitGuardAfter => self.go(
                Stage::AwaitBreakFlush,
                Action::Drain { timeout_ms: TIMEOUT_COMMON_MS },
            ),
            Stage::AwaitConParamsSent => self.go(
                Stage::AwaitConParams,
                Action::Drain { timeout_ms: TIMEOUT_COMMON_MS },
            ),
            Stage::AwaitDctSent => self.go(
                Stage::AwaitDct,
                Action::Drain { timeout_ms: TIMEOUT_DISCONNECT_MS },
            ),
            Stage::AwaitConnectSent => self.go(
                Stage::AwaitConnect,
                Action::Drain { timeout_ms: TIMEOUT_CONNECT_MS },
            ),
            Stage::AwaitClrbSent => self.go(
                Stage::AwaitClrb,
                Action::Drain { timeout_ms: TIMEOUT_COMMON_MS },
            ),
            Stage::AwaitScanSent => self.go(
                Stage::AwaitScanAck,
                Action::Drain { timeout_ms: TIMEOUT_COMMON_MS },
            ),
            Stage::AwaitScanWindow => self.go(
                Stage::AwaitResultsSent,
                send_cmd(Cmd::ScanResults, TIMEOUT_COMMON_MS),
            ),
            Stage::AwaitResultsSent => self.go(
                Stage::AwaitResults,
                Action::Drain { timeout_ms: TIMEOUT_COMMON_MS },
            ),
            Stage::AwaitVersionSent => self.go(
                Stage::AwaitVersion,
                Action::Drain { timeout_ms: TIMEOUT_COMMON_MS },
            ),
            Stage::AwaitSettingSent => self.go(
                Stage::AwaitSettingPause,
                Action::Pause { ms: SETTING_PAUSE_MS },
            ),
            Stage::AwaitSettingPause => {
                let n = settings_count(self.other_fw);
                if self.setting < n - 1 {
                    self.stage = Stage::AwaitSettingSent;
                    self.setting = self.setting + 1;
                    send_cmd(setting(self.other_fw, self.setting), TIMEOUT_SETTINGS_MS)
                } else {
                    self.go(
                        Stage::AwaitSettingReplies,
                        Action::Drain { timeout_ms: TIMEOUT_SETTINGS_MS },
                    )
                }
            },
            Stage::AwaitVerifySent => self.go(
                Stage::AwaitVerify,
                Action::Drain { timeout_ms: TIMEOUT_COMMON_MS },
            ),
            Stage::AwaitPassthroughSent => self.go(Stage::Idle, Action::Finish(Outcome::Done)),
            _ => self.fail_with(DriverError::UnexpectedEvent),
        }
    }

    fn on_con_params(&mut self, b: &[u8]) -> (a: Action)
        ensures
            (*final(self), a@) == after_con_params(*old(self), b@),
    {
        match parse_response(b) {
            Err(e) => self.fail_with(DriverError::Framing(e)),
            Ok(BgxResponse::DataWithoutHeader(_)) => self.fail_with(DriverError::UnexpectedRaw),
            Ok(BgxResponse::DataWithHeader(h, body)) => {
                match h.response_code {
                    ResponseCodes::Success => {},
                    c => {
                        return self.fail_with(DriverError::UnexpectedResponse(c));
                    },
                }
                let addr: Vec<u8> = vec![65u8, 100u8, 100u8, 114u8];
                assert(addr@ =~= addr_word());
                if contains(body.as_str().as_bytes(), addr.as_slice()) {
                    self.go(Stage::AwaitDctSent, send_cmd(Cmd::Disconnect, TIMEOUT_COMMON_MS))
                } else {
                    self.finish_disconnect()
                }
            },
        }
    }

    fn on_connect(&mut self, b: &[u8]) -> (a: Action)
        ensures
            (*final(self), a@) == after_connect(*old(self), b@),
    {
        match parse_response(b) {
            Err(e) => self.fail_with(DriverError::Framing(e)),
            Ok(BgxResponse::DataWithoutHeader(_)) => self.fail_with(DriverError::UnexpectedRaw),
            Ok(BgxResponse::DataWithHeader(h, _)) => match h.response_code {
                ResponseCodes::Success => self.go(Stage::Idle, Action::Finish(Outcome::Done)),
                ResponseCodes::CommandFailed => self.start_probe(
                    Resume::QueryConParams,
                    AfterDisconnect::FailCleared,
                ),
                ResponseCodes::SecurityMismatch => self.go(
                    Stage::AwaitClrbSent,
                    send_cmd(Cmd::ClearAllBondings, TIMEOUT_COMMON_MS),
                ),
                ResponseCodes::Timeout => self.fail_with(
                    DriverError::ConnectFailure(ConnectCause::ConnectTimeout),
                ),
                c => self.fail_with(DriverError::UnexpectedResponse(c)),
            },
        }
    }

    fn on_clear_bondings(&mut self, b: &[u8]) -> (a: Action)
        ensures
            (*final(self), a@) == after_clear_bondings(*old(self), b@),
    {
        match parse_response(b) {
            Ok(BgxResponse::DataWithHeader(h, _)) => match h.response_code {
                ResponseCodes::Success => self.fail_with(
                    DriverError::ConnectFailure(ConnectCause::SecurityMismatchBondingsCleared),
                ),
                _ => self.fail_with(
                    DriverError::ConnectFailure(ConnectCause::SecurityMismatchUnrecoverable),
                ),
            },
            _ => self.fail_with(
                DriverError::ConnectFailure(ConnectCause::SecurityMismatchUnrecoverable),
            ),
        }
    }

    fn on_version(&mut self, b: &[u8]) -> (a: Action)
        ensures
            (*final(self), a@) == after_version(*old(self), b@),
    {
        match utf8_string(b) {
            None => self.fail_with(DriverError::InvalidText),
            Some(_) => match fw_version_of(b) {
                None => self.fail_with(DriverError::FirmwareUnknown),
                Some(v) => {
                    proof {
                        lemma_version_text(b@, v@);
                    }
                    self.other_fw = !is_known_good(v.as_slice());
                    let after = self.after;
                    self.start_probe(Resume::ApplySettings, after)
                },
            },
        }
    }

    fn on_setting_replies(&mut self, b: &[u8]) -> (a: Action)
        ensures
            (*final(self), a@) == after_settings(*old(self), b@),
    {
        match utf8_string(b) {
            None => self.fail_with(DriverError::InvalidText),
            Some(_) => {
                let got = count_success_lines(b);
                let expected = settings_count(self.other_fw);
                if got != expected {
                    self.fail_with(DriverError::SettingsApplicationFailed { got, expected })
                } else {
                    self.go(Stage::AwaitVerifySent, send_cmd(Cmd::Linebreak, TIMEOUT_COMMON_MS))
                }
            },
        }
    }

    fn on_verify(&mut self, b: &[u8]) -> (a: Action)
        ensures
            (*final(self), a@) == after_verify(*old(self), b@),
    {
        match parse_response(b) {
            Err(e) => self.fail_with(DriverError::Framing(e)),
            Ok(BgxResponse::DataWithoutHeader(_)) => self.fail_with(DriverError::UnexpectedRaw),
            Ok(BgxResponse::DataWithHeader(h, _)) => match h.response_code {
                ResponseCodes::Success => {
                    self.default_settings_applied = true;
                    self.go(Stage::Idle, Action::Finish(Outcome::Done))
                },
                c => self.fail_with(DriverError::UnexpectedResponse(c)),
            },
        }
    }

    fn on_drained(&mut self, b: &[u8]) -> (a: Action)
        ensures
            (*final(self), a@) == after_drained(*old(self), b@),
    {
        match self.stage {
            Stage::AwaitFlush => self.go(
                Stage::AwaitLine1,
                send_cmd(Cmd::Linebreak, TIMEOUT_COMMON_MS),
            ),
            Stage::AwaitListen => {
                if b.len() > 0 {
                    self.resume_operation()
                } else if self.attempt >= MAX_PROBES {
                    self.fail_with(DriverError::ModeRecoveryExhausted)
                } else {
                    self.go(Stage::AwaitGuardBefore, Action::Pause { ms: BREAK_GUARD_MS })
                }
            },
            Stage::AwaitBreakFlush => {
                self.stage = Stage::AwaitFlush;
                if self.attempt < MAX_PROBES {
                    self.attempt = self.attempt + 1;
                }
                Action::Drain { timeout_ms: TIMEOUT_COMMON_MS }
            },
            Stage::AwaitConParams => self.on_con_params(b),
            Stage::AwaitDct => match parse_response(b) {
                Err(e) => self.fail_with(DriverError::Framing(e)),
                Ok(_) => self.finish_disconnect(),
            },
            Stage::AwaitConnect => self.on_connect(b),
            Stage::AwaitClrb => self.on_clear_bondings(b),
            Stage::AwaitScanAck => match parse_response(b) {
                Err(e) => self.fail_with(DriverError::Framing(e)),
                Ok(_) => self.go(Stage::AwaitScanWindow, Action::Pause { ms: SCAN_WINDOW_MS }),
            },
            Stage::AwaitResults => match parse_response(b) {
                Err(e) => self.fail_with(DriverError::Framing(e)),
                Ok(BgxResponse::DataWithoutHeader(_)) => self.fail_with(DriverError::UnexpectedRaw),
                Ok(BgxResponse::DataWithHeader(_, body)) => {
                    let found = ScanResult::from_table(body.as_str().as_bytes());
                    self.go(Stage::Idle, Action::Finish(Outcome::Scanned(found)))
                },
            },
            Stage::AwaitVersion => self.on_version(b),
            Stage::AwaitSettingReplies => self.on_setting_replies(b),
            Stage::AwaitVerify => self.on_verify(b),
            Stage::AwaitPassthrough => match parse_response(b) {
                Err(e) => self.fail_with(DriverError::Framing(e)),
                Ok(BgxResponse::DataWithHeader(h, _)) => self.fail_with(
                    DriverError::UnexpectedFramed(h),
                ),
                Ok(BgxResponse::DataWithoutHeader(x)) => self.go(
                    Stage::Idle,
                    Action::Finish(Outcome::Received(x)),
                ),
            },
            _ => self.fail_with(DriverError::UnexpectedEvent),
        }
    }

    /// Hands the driver what the transport reported for the last action, and
    /// returns the next action.
    pub fn step(&mut self, ev: Event) -> (a: Action)
        ensures
            (*final(self), a@) == next(*old(self), ev@),
    {
        match ev {
            Event::Failed => self.fail_with(DriverError::Io),
            Event::Done => self.on_done(),
            Event::Drained(b) => self.on_drained(b.as_slice()),
        }
    }

    /// Starts bringing the module into the well-known state: command mode, a
    /// known firmware, the default settings saved. Once reached, it is not
    /// provisioned again.
    pub fn reach_well_known_state(&mut self) -> (a: Action)
        ensures
            (*final(self), a@) == start_well_known(*old(self)),
    {
        if self.default_settings_applied {
            return self.go(Stage::Idle, Action::Finish(Outcome::Done));
        }
        let after = self.after;
        self.start_probe(Resume::QueryVersion, after)
    }

    /// Starts a scan for nearby modules: command mode, a disconnect, then the
    /// scan itself.
    pub fn scan(&mut self) -> (a: Action)
        ensures
            (*final(self), a@) == begin_probe(
                *old(self),
                Resume::StartDisconnect,
                AfterDisconnect::Scan,
            ),
    {
        self.start_probe(Resume::StartDisconnect, AfterDisconnect::Scan)
    }

    /// Starts a connect to the device with the address: command mode, a
    /// disconnect, then the connect itself.
    pub fn connect(&mut self, mac: &Mac) -> (a: Action)
        ensures
            (*final(self), a@) == begin_probe(
                Bgx13p { target: *mac, ..*old(self) },
                Resume::StartDisconnect,
                AfterDisconnect::Connect,
            ),
    {
        self.target = *mac;
        self.start_probe(Resume::StartDisconnect, AfterDisconnect::Connect)
    }

    /// Starts a disconnect: command mode, then `dct` if the connection
    /// parameters name a peer.
    pub fn disconnect(&mut self) -> (a: Action)
        ensures
            (*final(self), a@) == start_disconnect(*old(self)),
    {
        self.start_probe(Resume::QueryConParams, AfterDisconnect::Finish)
    }

    /// Starts a read of the peer's data while connected.
    pub fn read_all_with_timeout(&mut self, timeout_ms: Option<u64>) -> (a: Action)
        ensures
            (*final(self), a@) == (
                at(*old(self), Stage::AwaitPassthrough),
                drain(
                    match timeout_ms {
                        Some(t) => t,
                        None => TIMEOUT_COMMON_MS,
                    },
                ),
            ),
    {
        let t = match timeout_ms {
            Some(t) => t,
            None => TIMEOUT_COMMON_MS,
        };
        self.go(Stage::AwaitPassthrough, Action::Drain { timeout_ms: t })
    }

    /// Starts a write of data for the peer while connected.
    pub fn write_all_with_timeout(&mut self, payload: &[u8], timeout_ms: Option<u64>) -> (a: Action)
        ensures
            (*final(self), a@) == (
                at(*old(self), Stage::AwaitPassthroughSent),
                ActionView::Write {
                    bytes: payload@,
                    timeout_ms: match timeout_ms {
                        Some(t) => t,
                        None => TIMEOUT_COMMON_MS,
                    },
                },
            ),
    {
        let t = match timeout_ms {
            Some(t) => t,
            None => TIMEOUT_COMMON_MS,
        };
        self.go(
            Stage::AwaitPassthroughSent,
            Action::Write { bytes: slice_to_vec(payload), timeout_ms: t },
        )
    }
}

/// Where reaching the well-known state begins: nothing to do where it was
/// reached before, else the mode probe ahead of the version query.
pub open spec fn start_well_known(m: Bgx13p) -> (Bgx13p, ActionView) {
    if m.default_settings_applied {
        (at(m, Stage::Idle), finish_done())
    } else {
        begin_probe(m, Resume::QueryVersion, m.after)
    }
}

/// Where a disconnect begins: the mode probe ahead of the parameters query.
pub open spec fn start_disconnect(m: Bgx13p) -> (Bgx13p, ActionView) {
    begin_probe(m, Resume::QueryConParams, AfterDisconnect::Finish)
}

/// The state after the events `evs`, one transition each, and the actions they
/// gave, in order.
pub open spec fn run(m: Bgx13p, evs: Seq<EventView>) -> (Bgx13p, Seq<ActionView>)
    decreases evs.len(),
{
    if evs.len() == 0 {
        (m, Seq::empty())
    } else {
        let prev = run(m, evs.drop_last());
        let step = next(prev.0, evs.last());
        (step.0, prev.1.push(step.1))
    }
}

/// The machine is idle or in a stage that reaching the well-known state passes.
pub open spec fn provisioning(m: Bgx13p) -> bool {
    match m.stage {
        Stage::Idle => true,
        Stage::AwaitFlush | Stage::AwaitLine1 | Stage::AwaitLine2 | Stage::AwaitListen
        | Stage::AwaitGuardBefore | Stage::AwaitBreak | Stage::AwaitGuardAfter
        | Stage::AwaitBreakFlush => m.resume == Resume::QueryVersion || m.resume
            == Resume::ApplySettings,
        Stage::AwaitVersionSent | Stage::AwaitVersion | Stage::AwaitSettingSent
        | Stage::AwaitSettingPause | Stage::AwaitSettingReplies | Stage::AwaitVerifySent
        | Stage::AwaitVerify => true,
        _ => false,
    }
}

proof fn lemma_provisioning_step(m: Bgx13p, e: EventView)
    requires
        provisioning(m),
    ensures
        provisioning(next(m, e).0),
        m.default_settings_applied ==> next(m, e).0.default_settings_applied,
        next(m, e).1 == finish_done() ==> next(m, e).0.default_settings_applied,
{
}

proof fn lemma_provisioning_run(m: Bgx13p, evs: Seq<EventView>)
    requires
        provisioning(m),
    ensures
        provisioning(run(m, evs).0),
        m.default_settings_applied ==> run(m, evs).0.default_settings_applied,
        run(m, evs).1.contains(finish_done()) ==> run(m, evs).0.default_settings_applied,
    decreases evs.len(),
{
    if evs.len() > 0 {
        let p = evs.drop_last();
        lemma_provisioning_run(m, p);
        let prev = run(m, p);
        lemma_provisioning_step(prev.0, evs.last());
        let acts = run(m, evs).1;
        if acts.contains(finish_done()) {
            let k = choose|k: int| 0 <= k < acts.len() && acts[k] == finish_done();
            if k < prev.1.len() {
                assert(prev.1[k] == finish_done());
                assert(prev.1.contains(finish_done()));
            }
        }
    }
}

/// Reaching the well-known state twice in a row provisions the module at most
/// once: whatever the transport reports, once the first call has ended in
/// success the second call ends at once, with no action on the transport.
pub proof fn lemma_well_known_idempotent(m: Bgx13p, evs: Seq<EventView>)
    ensures
        ({
            let first = start_well_known(m);
            let after = run(first.0, evs);
            (first.1 == finish_done() || after.1.contains(finish_done())) ==> (
            after.0.default_settings_applied && start_well_known(after.0) == (
                at(after.0, Stage::Idle),
                finish_done(),
            ))
        }),
{
    let first = start_well_known(m);
    assert(provisioning(first.0));
    lemma_provisioning_run(first.0, evs);
}

/// Against a module that is not connected (it answers the mode probe, and its
/// connection parameters name no peer) a disconnect ends in success and writes
/// two empty lines and one `con params`: no `dct`.
pub proof fn lemma_disconnect_idempotent(
    m: Bgx13p,
    pending: Seq<u8>,
    answer: Seq<u8>,
    reply: Seq<u8>,
    h: ResponseHeader,
    body: Seq<char>,
)
    requires
        answer.len() > 0,
        response_of(reply) == Ok::<ResponseView, Errors>(ResponseView::Framed(h, body)),
        h.response_code == ResponseCodes::Success,
        !occurs_in(encode_utf8(body), addr_word()),
    ensures
        ({
            let first = start_disconnect(m);
            let evs = seq![
                EventView::Drained(pending),
                EventView::Done,
                EventView::Done,
                EventView::Drained(answer),
                EventView::Done,
                EventView::Drained(reply),
            ];
            let after = run(first.0, evs);
            &&& first.1 == drain(TIMEOUT_COMMON_MS)
            &&& after.1 == seq![
                send(Cmd::Linebreak, TIMEOUT_COMMON_MS),
                send(Cmd::Linebreak, TIMEOUT_COMMON_MS),
                drain(TIMEOUT_COMMON_MS),
                send(Cmd::ConParams, TIMEOUT_COMMON_MS),
                drain(TIMEOUT_COMMON_MS),
                finish_done(),
            ]
            &&& after.0.stage == Stage::Idle
        }),
{
    let first = start_disconnect(m);
    let e = seq![
        EventView::Drained(pending),
        EventView::Done,
        EventView::Done,
        EventView::Drained(answer),
        EventView::Done,
        EventView::Drained(reply),
    ];
    let m0 = first.0;
    assert(e.subrange(0, 0).len() == 0);
    assert(run(m0, e.subrange(0, 0)).0 == m0);
    let r1 = run(m0, e.subrange(0, 1));
    assert(e.subrange(0, 1).last() == e[0]);
    assert(e.subrange(0, 1).drop_last() =~= e.subrange(0, 0));
    let r2 = run(m0, e.subrange(0, 2));
    assert(e.subrange(0, 2).last() == e[1]);
    assert(e.subrange(0, 2).drop_last() =~= e.subrange(0, 1));
    let r3 = run(m0, e.subrange(0, 3));
    assert(e.subrange(0, 3).last() == e[2]);
    assert(e.subrange(0, 3).drop_last() =~= e.subrange(0, 2));
    let r4 = run(m0, e.subrange(0, 4));
    assert(e.subrange(0, 4).last() == e[3]);
    assert(e.subrange(0, 4).drop_last() =~= e.subrange(0, 3));
    let r5 = run(m0, e.subrange(0, 5));
    assert(e.subrange(0, 5).last() == e[4]);
    assert(e.subrange(0, 5).drop_last() =~= e.subrange(0, 4));
    let r6 = run(m0, e.subrange(0, 6));
    assert(e.subrange(0, 6).last() == e[5]);
    assert(e.subrange(0, 6).drop_last() =~= e.subrange(0, 5));
    assert(e.subrange(0, 6) =~= e);
    assert(r1.0.stage == Stage::AwaitLine1);
    assert(r2.0.stage == Stage::AwaitLine2);
    assert(r3.0.stage == Stage::AwaitListen);
    assert(r3.0.resume == Resume::QueryConParams);
    assert(r4.0.stage == Stage::AwaitConParamsSent);
    assert(r5.0.stage == Stage::AwaitConParams);
    assert(r6.0.stage == Stage::Idle);
    assert(r6.1 =~= seq![
        send(Cmd::Linebreak, TIMEOUT_COMMON_MS),
        send(Cmd::Linebreak, TIMEOUT_COMMON_MS),
        drain(TIMEOUT_COMMON_MS),
        send(Cmd::ConParams, TIMEOUT_COMMON_MS),
        drain(TIMEOUT_COMMON_MS),
        finish_done(),
    ]);
}

proof fn lemma_run_push(m: Bgx13p, evs: Seq<EventView>, e: EventView)
    ensures
        run(m, evs.push(e)) == (
            next(run(m, evs).0, e).0,
            run(m, evs).1.push(next(run(m, evs).0, e).1),
        ),
{
    assert(evs.push(e).drop_last() =~= evs);
}

proof fn lemma_run_empty(m: Bgx13p)
    ensures
        run(m, Seq::empty()) == (m, Seq::<ActionView>::empty()),
{
}

/// A reply that decodes as a framed `Success`.
pub open spec fn acknowledged(b: Seq<u8>) -> bool {
    match response_of(b) {
        Ok(ResponseView::Framed(h, _)) => h.response_code == ResponseCodes::Success,
        _ => false,
    }
}

/// Where the connection parameters name a peer, a disconnect writes `dct`,
/// drains its reply with the disconnect timeout, and then ends in success.
pub proof fn lemma_disconnect_when_connected(
    m: Bgx13p,
    reply: Seq<u8>,
    h: ResponseHeader,
    body: Seq<char>,
    dct_reply: Seq<u8>,
)
    requires
        m.stage == Stage::AwaitConParams,
        m.after == AfterDisconnect::Finish,
        response_of(reply) == Ok::<ResponseView, Errors>(ResponseView::Framed(h, body)),
        h.response_code == ResponseCodes::Success,
        occurs_in(encode_utf8(body), addr_word()),
        response_of(dct_reply) is Ok,
    ensures
        ({
            let r = run(
                m,
                seq![EventView::Drained(reply), EventView::Done, EventView::Drained(dct_reply)],
            );
            &&& r.1 == seq![
                send(Cmd::Disconnect, TIMEOUT_COMMON_MS),
                drain(TIMEOUT_DISCONNECT_MS),
                finish_done(),
            ]
            &&& r.0.stage == Stage::Idle
        }),
{
    let e0 = Seq::<EventView>::empty();
    let e1 = e0.push(EventView::Drained(reply));
    let e2 = e1.push(EventView::Done);
    let e3 = e2.push(EventView::Drained(dct_reply));
    lemma_run_empty(m);
    lemma_run_push(m, e0, EventView::Drained(reply));
    lemma_run_push(m, e1, EventView::Done);
    lemma_run_push(m, e2, EventView::Drained(dct_reply));
    assert(e3 =~= seq![EventView::Drained(reply), EventView::Done, EventView::Drained(dct_reply)]);
    assert(run(m, e3).1 =~= seq![
        send(Cmd::Disconnect, TIMEOUT_COMMON_MS),
        drain(TIMEOUT_DISCONNECT_MS),
        finish_done(),
    ]);
}

/// Where the connection parameters name no peer, a disconnect ends in success
/// at once: no `dct` is written and nothing more is read.
pub proof fn lemma_disconnect_when_not_connected(
    m: Bgx13p,
    reply: Seq<u8>,
    h: ResponseHeader,
    body: Seq<char>,
)
    requires
        m.stage == Stage::AwaitConParams,
        m.after == AfterDisconnect::Finish,
        response_of(reply) == Ok::<ResponseView, Errors>(ResponseView::Framed(h, body)),
        h.response_code == ResponseCodes::Success,
        !occurs_in(encode_utf8(body), addr_word()),
    ensures
        next(m, EventView::Drained(reply)) == (at(m, Stage::Idle), finish_done()),
{
}

/// A connect refused for a security mismatch writes `clrb` next, and then
/// fails: with `SecurityMismatchBondingsCleared` where `clrb` was acknowledged
/// with a framed `Success`, else with `SecurityMismatchUnrecoverable`.
pub proof fn lemma_connect_security_mismatch(
    m: Bgx13p,
    reply: Seq<u8>,
    h: ResponseHeader,
    body: Seq<char>,
    clrb_reply: Seq<u8>,
)
    requires
        m.stage == Stage::AwaitConnect,
        response_of(reply) == Ok::<ResponseView, Errors>(ResponseView::Framed(h, body)),
        h.response_code == ResponseCodes::SecurityMismatch,
    ensures
        ({
            let r = run(
                m,
                seq![EventView::Drained(reply), EventView::Done, EventView::Drained(clrb_reply)],
            );
            &&& r.1 == seq![
                send(Cmd::ClearAllBondings, TIMEOUT_COMMON_MS),
                drain(TIMEOUT_COMMON_MS),
                fail(
                    DriverError::ConnectFailure(
                        if acknowledged(clrb_reply) {
                            ConnectCause::SecurityMismatchBondingsCleared
                        } else {
                            ConnectCause::SecurityMismatchUnrecoverable
                        },
                    ),
                ),
            ]
            &&& r.0.stage == Stage::Idle
        }),
{
    let e0 = Seq::<EventView>::empty();
    let e1 = e0.push(EventView::Drained(reply));
    let e2 = e1.push(EventView::Done);
    let e3 = e2.push(EventView::Drained(clrb_reply));
    lemma_run_empty(m);
    lemma_run_push(m, e0, EventView::Drained(reply));
    lemma_run_push(m, e1, EventView::Done);
    lemma_run_push(m, e2, EventView::Drained(clrb_reply));
    assert(e3 =~= seq![EventView::Drained(reply), EventView::Done, EventView::Drained(clrb_reply)]);
    assert(run(m, e3).1 =~= seq![
        send(Cmd::ClearAllBondings, TIMEOUT_COMMON_MS),
        drain(TIMEOUT_COMMON_MS),
        fail(
            DriverError::ConnectFailure(
                if acknowledged(clrb_reply) {
                    ConnectCause::SecurityMismatchBondingsCleared
                } else {
                    ConnectCause::SecurityMismatchUnrecoverable
                },
            ),
        ),
    ]);
}

/// Mode recovery from stream mode: where the two empty lines of the first probe
/// get no answer and the probe after the break sequence does, the driver goes
/// on in command mode after exactly one `$$$`, with the guard pauses around it.
pub proof fn lemma_mode_recovery_one_break(
    m: Bgx13p,
    pending: Seq<u8>,
    after_break: Seq<u8>,
    flushed: Seq<u8>,
    ready: Seq<u8>,
)
    requires
        m.stage == Stage::AwaitFlush,
        m.attempt == 1,
        ready.len() > 0,
    ensures
        ({
            let evs = seq![
                EventView::Drained(pending),
                EventView::Done,
                EventView::Done,
                EventView::Drained(Seq::empty()),
                EventView::Done,
                EventView::Done,
                EventView::Done,
                EventView::Drained(after_break),
                EventView::Drained(flushed),
                EventView::Done,
                EventView::Done,
                EventView::Drained(ready),
            ];
            let r = run(m, evs);
            let probed = Bgx13p { stage: Stage::AwaitListen, attempt: 2, ..m };
            &&& r.1 == seq![
                send(Cmd::Linebreak, TIMEOUT_COMMON_MS),
                send(Cmd::Linebreak, TIMEOUT_COMMON_MS),
                drain(TIMEOUT_COMMON_MS),
                pause(BREAK_GUARD_MS),
                send(Cmd::BreakSequence, TIMEOUT_COMMON_MS),
                pause(BREAK_GUARD_MS),
                drain(TIMEOUT_COMMON_MS),
                drain(TIMEOUT_COMMON_MS),
                send(Cmd::Linebreak, TIMEOUT_COMMON_MS),
                send(Cmd::Linebreak, TIMEOUT_COMMON_MS),
                drain(TIMEOUT_COMMON_MS),
                resumed(probed).1,
            ]
            &&& r.0 == resumed(probed).0
        }),
{
    let ev = seq![
        EventView::Drained(pending),
        EventView::Done,
        EventView::Done,
        EventView::Drained(Seq::empty()),
        EventView::Done,
        EventView::Done,
        EventView::Done,
        EventView::Drained(after_break),
        EventView::Drained(flushed),
        EventView::Done,
        EventView::Done,
        EventView::Drained(ready),
    ];
    lemma_run_empty(m);
    let p0 = Seq::<EventView>::empty();
    lemma_run_push(m, p0, EventView::Drained(pending));
    let p1 = p0.push(EventView::Drained(pending));
    lemma_run_push(m, p1, EventView::Done);
    let p2 = p1.push(EventView::Done);
    lemma_run_push(m, p2, EventView::Done);
    let p3 = p2.push(EventView::Done);
    lemma_run_push(m, p3, EventView::Drained(Seq::empty()));
    let p4 = p3.push(EventView::Drained(Seq::empty()));
    lemma_run_push(m, p4, EventView::Done);
    let p5 = p4.push(EventView::Done);
    lemma_run_push(m, p5, EventView::Done);
    let p6 = p5.push(EventView::Done);
    lemma_run_push(m, p6, EventView::Done);
    let p7 = p6.push(EventView::Done);
    lemma_run_push(m, p7, EventView::Drained(after_break));
    let p8 = p7.push(EventView::Drained(after_break));
    lemma_run_push(m, p8, EventView::Drained(flushed));
    let p9 = p8.push(EventView::Drained(flushed));
    lemma_run_push(m, p9, EventView::Done);
    let p10 = p9.push(EventView::Done);
    lemma_run_push(m, p10, EventView::Done);
    let p11 = p10.push(EventView::Done);
    lemma_run_push(m, p11, EventView::Drained(ready));
    let p12 = p11.push(EventView::Drained(ready));
    assert(p12 =~= ev);
    assert(p11 =~= ev.subrange(0, 11));
    let r = run(m, ev);
    let probed = Bgx13p { stage: Stage::AwaitListen, attempt: 2, ..m };
    assert(run(m, p11).0 == probed);
    assert(r.1 =~= seq![
        send(Cmd::Linebreak, TIMEOUT_COMMON_MS),
        send(Cmd::Linebreak, TIMEOUT_COMMON_MS),
        drain(TIMEOUT_COMMON_MS),
        pause(BREAK_GUARD_MS),
        send(Cmd::BreakSequence, TIMEOUT_COMMON_MS),
        pause(BREAK_GUARD_MS),
        drain(TIMEOUT_COMMON_MS),
        drain(TIMEOUT_COMMON_MS),
        send(Cmd::Linebreak, TIMEOUT_COMMON_MS),
        send(Cmd::Linebreak, TIMEOUT_COMMON_MS),
        drain(TIMEOUT_COMMON_MS),
        resumed(probed).1,
    ]);
}

/// A version reply of the firmware line that takes every setting selects the
/// list of nine settings, in order, with `save` last; after them nine `Success`
/// lines are required.
pub proof fn lemma_known_good_firmware_settings(m: Bgx13p, reply: Seq<u8>, echoes: Seq<u8>)
    requires
        m.stage == Stage::AwaitVersion,
        valid_utf8(reply),
        has_version(reply),
        occurs_in(version_text(reply), known_good_marker()),
    ensures
        !next(m, EventView::Drained(reply)).0.other_fw,
        next(m, EventView::Drained(reply)).0.resume == Resume::ApplySettings,
        settings(false) == seq![
            Cmd::SetModuleToMachineMode,
            Cmd::SystemRemoteCommandingFalse,
            Cmd::AdvertiseHighDuration,
            Cmd::BLEEncryptionPairingAny,
            Cmd::BLEPHYMultiplexFalse,
            Cmd::BLEPHYPreference1M,
            Cmd::SetDeviceName,
            Cmd::ClearAllBondings,
            Cmd::Save,
        ],
        ({
            let m2 = Bgx13p {
                stage: Stage::AwaitSettingReplies,
                ..next(m, EventView::Drained(reply)).0
            };
            valid_utf8(echoes) ==> (next(m2, EventView::Drained(echoes)).1 == send(
                Cmd::Linebreak,
                TIMEOUT_COMMON_MS,
            ) <==> success_lines(echoes) == 9)
        }),
{
}

} // verus!
