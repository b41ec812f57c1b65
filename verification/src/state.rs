//! The printer's state as the library tracks it: the machine and print
//! status, the connection, and the event log with its rules (duplicates of
//! the last event are dropped, at most 100 events are kept, and every event
//! that enters the log is queued for broadcast).

use vstd::prelude::*;
use vstd::string::StringExecFns;
use vstd::string::StringSliceAdditionalSpecFns;
use vstd::utf8::{decode_utf8, encode_utf8, is_char_boundary};

use std::collections::VecDeque;

use crate::models::{
    opt_text, DeviceInfo, ExceptionEntry, ExceptionView, MachineStatus, MachineStatusView, PrintStatus,
    PrintStatusView,
};
use crate::phase::{build_phase_info, phase_of, PhaseView};
use crate::status_map::{active_print, normalize_machine_status, normalized_of, NormalizedStatus};
use crate::text::{dec, digits, as_u64_bits, push_hex_i64, push_i64, push_str, str_eq};

verus! {

#[verifier::external_type_specification]
#[verifier::external_body]
pub struct ExSystemTime(std::time::SystemTime);

/// The current time. Nothing is stated of the value: it is the machine's
/// clock.
pub assume_specification[ std::time::SystemTime::now ]() -> std::time::SystemTime;

/// `SystemTime` is `Copy`; its `clone` returns the same instant.
pub assume_specification[ <std::time::SystemTime as Clone>::clone ](t: &std::time::SystemTime) -> (r:
    std::time::SystemTime)
    ensures
        r == *t,
;

/// The most events the log keeps.
pub const EVENT_CAP: usize = 100;

/// Whether a print job is running, paused, or neither.
#[derive(Debug, Clone, Copy, PartialEq, Eq, Structural)]
pub enum PrintState {
    Idle,
    Printing,
    Paused,
}

/// What an event records.
#[derive(Debug, Clone)]
pub enum EventKind {
    Connected,
    Disconnected,
    PrintStarted,
    PrintPaused,
    PrintResumed,
    PrintStopped,
    PrintFinished,
    FailureNotifyThreshold,
    FailurePauseThreshold,
    AutoPaused,
    CommandPause,
    CommandResume,
    CommandStop,
    CommandLed,
    CommandFan,
    CommandSpeedMode,
    CommandTemp,
    CommandStartPrint,
    DetectionLogged,
    CameraLost,
    CameraRestored,
    ErrorOccurred,
    PhaseChanged(i64, String),
    DetectionEngineError,
    /// An event read back from storage, with its stored kind.
    Loaded(String),
}

pub enum KindView {
    Connected,
    Disconnected,
    PrintStarted,
    PrintPaused,
    PrintResumed,
    PrintStopped,
    PrintFinished,
    FailureNotifyThreshold,
    FailurePauseThreshold,
    AutoPaused,
    CommandPause,
    CommandResume,
    CommandStop,
    CommandLed,
    CommandFan,
    CommandSpeedMode,
    CommandTemp,
    CommandStartPrint,
    DetectionLogged,
    CameraLost,
    CameraRestored,
    ErrorOccurred,
    PhaseChanged(i64, Seq<char>),
    DetectionEngineError,
    Loaded(Seq<char>),
}

impl View for EventKind {
    type V = KindView;

    open spec fn view(&self) -> KindView {
        match self {
            EventKind::Connected => KindView::Connected,
            EventKind::Disconnected => KindView::Disconnected,
            EventKind::PrintStarted => KindView::PrintStarted,
            EventKind::PrintPaused => KindView::PrintPaused,
            EventKind::PrintResumed => KindView::PrintResumed,
            EventKind::PrintStopped => KindView::PrintStopped,
            EventKind::PrintFinished => KindView::PrintFinished,
            EventKind::FailureNotifyThreshold => KindView::FailureNotifyThreshold,
            EventKind::FailurePauseThreshold => KindView::FailurePauseThreshold,
            EventKind::AutoPaused => KindView::AutoPaused,
            EventKind::CommandPause => KindView::CommandPause,
            EventKind::CommandResume => KindView::CommandResume,
            EventKind::CommandStop => KindView::CommandStop,
            EventKind::CommandLed => KindView::CommandLed,
            EventKind::CommandFan => KindView::CommandFan,
            EventKind::CommandSpeedMode => KindView::CommandSpeedMode,
            EventKind::CommandTemp => KindView::CommandTemp,
            EventKind::CommandStartPrint => KindView::CommandStartPrint,
            EventKind::DetectionLogged => KindView::DetectionLogged,
            EventKind::CameraLost => KindView::CameraLost,
            EventKind::CameraRestored => KindView::CameraRestored,
            EventKind::ErrorOccurred => KindView::ErrorOccurred,
            EventKind::PhaseChanged(code, label) => KindView::PhaseChanged(*code, label@),
            EventKind::DetectionEngineError => KindView::DetectionEngineError,
            EventKind::Loaded(s) => KindView::Loaded(s@),
        }
    }
}

/// The variant of a kind, as a number: kinds with the same variant count as
/// the same kind, whatever they carry.
pub open spec fn kind_index(k: KindView) -> int {
    match k {
        KindView::Connected => 0,
        KindView::Disconnected => 1,
        KindView::PrintStarted => 2,
        KindView::PrintPaused => 3,
        KindView::PrintResumed => 4,
        KindView::PrintStopped => 5,
        KindView::PrintFinished => 6,
        KindView::FailureNotifyThreshold => 7,
        KindView::FailurePauseThreshold => 8,
        KindView::AutoPaused => 9,
        KindView::CommandPause => 10,
        KindView::CommandResume => 11,
        KindView::CommandStop => 12,
        KindView::CommandLed => 13,
        KindView::CommandFan => 14,
        KindView::CommandSpeedMode => 15,
        KindView::CommandTemp => 16,
        KindView::CommandStartPrint => 17,
        KindView::DetectionLogged => 18,
        KindView::CameraLost => 19,
        KindView::CameraRestored => 20,
        KindView::ErrorOccurred => 21,
        KindView::PhaseChanged(..) => 22,
        KindView::DetectionEngineError => 23,
        KindView::Loaded(..) => 24,
    }
}

impl EventKind {
    /// The variant as a number.
    pub fn variant_index(&self) -> (r: u8)
        ensures
            r as int == kind_index(self@),
    {
        match self {
            EventKind::Connected => 0,
            EventKind::Disconnected => 1,
            EventKind::PrintStarted => 2,
            EventKind::PrintPaused => 3,
            EventKind::PrintResumed => 4,
            EventKind::PrintStopped => 5,
            EventKind::PrintFinished => 6,
            EventKind::FailureNotifyThreshold => 7,
            EventKind::FailurePauseThreshold => 8,
            EventKind::AutoPaused => 9,
            EventKind::CommandPause => 10,
            EventKind::CommandResume => 11,
            EventKind::CommandStop => 12,
            EventKind::CommandLed => 13,
            EventKind::CommandFan => 14,
            EventKind::CommandSpeedMode => 15,
            EventKind::CommandTemp => 16,
            EventKind::CommandStartPrint => 17,
            EventKind::DetectionLogged => 18,
            EventKind::CameraLost => 19,
            EventKind::CameraRestored => 20,
            EventKind::ErrorOccurred => 21,
            EventKind::PhaseChanged(..) => 22,
            EventKind::DetectionEngineError => 23,
            EventKind::Loaded(..) => 24,
        }
    }

    /// A copy of the kind.
    pub fn duplicate(&self) -> (r: EventKind)
        ensures
            r@ == self@,
    {
        match self {
            EventKind::Connected => EventKind::Connected,
            EventKind::Disconnected => EventKind::Disconnected,
            EventKind::PrintStarted => EventKind::PrintStarted,
            EventKind::PrintPaused => EventKind::PrintPaused,
            EventKind::PrintResumed => EventKind::PrintResumed,
            EventKind::PrintStopped => EventKind::PrintStopped,
            EventKind::PrintFinished => EventKind::PrintFinished,
            EventKind::FailureNotifyThreshold => EventKind::FailureNotifyThreshold,
            EventKind::FailurePauseThreshold => EventKind::FailurePauseThreshold,
            EventKind::AutoPaused => EventKind::AutoPaused,
            EventKind::CommandPause => EventKind::CommandPause,
            EventKind::CommandResume => EventKind::CommandResume,
            EventKind::CommandStop => EventKind::CommandStop,
            EventKind::CommandLed => EventKind::CommandLed,
            EventKind::CommandFan => EventKind::CommandFan,
            EventKind::CommandSpeedMode => EventKind::CommandSpeedMode,
            EventKind::CommandTemp => EventKind::CommandTemp,
            EventKind::CommandStartPrint => EventKind::CommandStartPrint,
            EventKind::DetectionLogged => EventKind::DetectionLogged,
            EventKind::CameraLost => EventKind::CameraLost,
            EventKind::CameraRestored => EventKind::CameraRestored,
            EventKind::ErrorOccurred => EventKind::ErrorOccurred,
            EventKind::PhaseChanged(code, label) => EventKind::PhaseChanged(*code, label.clone()),
            EventKind::DetectionEngineError => EventKind::DetectionEngineError,
            EventKind::Loaded(s) => EventKind::Loaded(s.clone()),
        }
    }
}
/// An entry of the event log.
#[derive(Debug, Clone)]
pub struct PrinterEvent {
    pub timestamp: std::time::SystemTime,
    pub kind: EventKind,
    pub description: String,
    pub snapshot: Option<String>,
}

/// An event without its time stamp.
pub struct EventView {
    pub kind: KindView,
    pub description: Seq<char>,
    pub snapshot: Option<Seq<char>>,
}

impl View for PrinterEvent {
    type V = EventView;

    open spec fn view(&self) -> EventView {
        EventView {
            kind: self.kind@,
            description: self.description@,
            snapshot: opt_text(self.snapshot),
        }
    }
}

fn clone_text(o: &Option<String>) -> (r: Option<String>)
    ensures
        opt_text(r) == opt_text(*o),
{
    match o {
        Some(s) => Some(s.clone()),
        None => None,
    }
}

impl PrinterEvent {
    /// A copy of the event.
    pub fn duplicate(&self) -> (r: PrinterEvent)
        ensures
            r@ == self@,
            r.timestamp == self.timestamp,
    {
        PrinterEvent {
            timestamp: self.timestamp,
            kind: self.kind.duplicate(),
            description: self.description.clone(),
            snapshot: clone_text(&self.snapshot),
        }
    }
}

/// An event of a kind with a description and no snapshot.
pub open spec fn event(kind: KindView, description: Seq<char>) -> EventView {
    EventView { kind, description, snapshot: None }
}

/// The event log: the kept events, how many events ever entered, and the
/// events waiting to be broadcast.
pub struct LogView {
    pub events: Seq<EventView>,
    pub total: int,
    pub outbox: Seq<EventView>,
}

/// Whether an event repeats the last one: same kind and same description.
pub open spec fn repeats_last(events: Seq<EventView>, e: EventView) -> bool {
    events.len() > 0 && kind_index(events.last().kind) == kind_index(e.kind)
        && events.last().description == e.description
}

/// The kept events after one more: the oldest goes when there are more
/// than the cap.
pub open spec fn push_capped(events: Seq<EventView>, e: EventView) -> Seq<EventView> {
    let p = events.push(e);
    if p.len() > EVENT_CAP {
        p.drop_first()
    } else {
        p
    }
}

/// The log after an event enters it.
pub open spec fn log_append(log: LogView, e: EventView) -> LogView {
    LogView { events: push_capped(log.events, e), total: log.total + 1, outbox: log.outbox.push(e) }
}

/// The log after an event is offered to it: a repeat of the last event is
/// dropped.
pub open spec fn log_add(log: LogView, e: EventView) -> LogView {
    if repeats_last(log.events, e) {
        log
    } else {
        log_append(log, e)
    }
}

/// The log after events are offered to it in order.
pub open spec fn log_add_all(log: LogView, es: Seq<EventView>) -> LogView
    decreases es.len(),
{
    if es.len() == 0 {
        log
    } else {
        log_add(log_add_all(log, es.drop_last()), es.last())
    }
}

/// The event log keeps at most `EVENT_CAP` events, whatever is offered to
/// it: an event that is not a repeat of the last one becomes the last kept
/// event, and the count of events ever logged grows by one for it; when
/// the log is full, the oldest kept event goes.
pub proof fn lemma_log_capped(log: LogView, es: Seq<EventView>)
    requires
        log.events.len() <= EVENT_CAP,
    ensures
        log_add_all(log, es).events.len() <= EVENT_CAP,
        es.len() > 0 && !repeats_last(log_add_all(log, es.drop_last()).events, es.last()) ==> ({
            let before = log_add_all(log, es.drop_last());
            let after = log_add_all(log, es);
            &&& after.events.last() == es.last()
            &&& after.total == before.total + 1
            &&& before.events.len() == EVENT_CAP ==> after.events == before.events.drop_first().push(
                es.last(),
            )
        }),
    decreases es.len(),
{
    if es.len() > 0 {
        lemma_log_capped(log, es.drop_last());
    }
}

/// The print state that a status report means: a completed or stopped
/// machine is idle; otherwise the print status state "printing" or
/// "paused" decides.
pub open spec fn print_state_of(m: MachineStatusView, p: PrintStatusView) -> PrintState {
    let n = normalized_of(m.status);
    if n is PrintCompleted || n is Stopped {
        PrintState::Idle
    } else if p.state == "printing"@ {
        PrintState::Printing
    } else if p.state == "paused"@ {
        PrintState::Paused
    } else {
        PrintState::Idle
    }
}

/// Whether the print job fields are stale: the machine is not in a print
/// job, and either it reports completion or stop, or the print status does
/// not say that a job is printing or paused.
pub open spec fn should_clear(m: MachineStatusView, p: PrintStatusView) -> bool {
    let n = normalized_of(m.status);
    !active_print(n) && ((n is PrintCompleted || n is Stopped) || !(p.state == "printing"@
        || p.state == "paused"@))
}

/// The print status with the job fields cleared.
pub open spec fn cleared_task(p: PrintStatusView) -> PrintStatusView {
    PrintStatusView {
        filename: Seq::empty(),
        state: Seq::empty(),
        current_layer: None,
        remaining_time_sec: None,
        print_duration: None,
        uuid: Seq::empty(),
        ..p
    }
}

/// The file name as shown in events: names longer than 40 bytes keep their
/// last 37 bytes, moved forward to a character boundary, after "...".
pub open spec fn truncated(name: Seq<char>) -> Seq<char> {
    let b = encode_utf8(name);
    if b.len() <= 40 {
        name
    } else {
        "..."@ + decode_utf8(b.subrange(boundary_from(b, b.len() - 37), b.len() as int))
    }
}

/// The first character boundary at or after `i`.
pub open spec fn boundary_from(b: Seq<u8>, i: int) -> int
    decreases b.len() - i,
{
    if i >= b.len() {
        b.len() as int
    } else if i >= 0 && is_char_boundary(b, i) {
        i
    } else {
        boundary_from(b, i + 1)
    }
}

/// The event that a change of print state records, if any.
pub open spec fn transition_events(from: PrintState, to: PrintState, filename: Seq<char>) -> Seq<
    EventView,
> {
    match (from, to) {
        (PrintState::Idle, PrintState::Printing) => seq![
            event(KindView::PrintStarted, "Print started: "@ + truncated(filename)),
        ],
        (PrintState::Printing, PrintState::Paused) => seq![
            event(KindView::PrintPaused, "Print paused"@),
        ],
        (PrintState::Paused, PrintState::Printing) => seq![
            event(KindView::PrintResumed, "Print resumed"@),
        ],
        (PrintState::Printing, PrintState::Idle) => seq![
            event(KindView::PrintFinished, "Print finished"@),
        ],
        (PrintState::Paused, PrintState::Idle) => seq![
            event(KindView::PrintStopped, "Print stopped"@),
        ],
        _ => seq![],
    }
}

/// What each change of print state logs: a print that starts logs
/// "Print started: " and the (shortened) file name, a pause "Print paused",
/// a resumption "Print resumed", a print that ends while printing
/// "Print finished", and one that ends while paused "Print stopped"; no
/// other change, and no change at all, logs anything.
pub proof fn lemma_transition_events(filename: Seq<char>, from: PrintState, to: PrintState)
    ensures
        transition_events(PrintState::Idle, PrintState::Printing, filename) == seq![
            EventView {
                kind: KindView::PrintStarted,
                description: "Print started: "@ + truncated(filename),
                snapshot: None,
            },
        ],
        transition_events(PrintState::Printing, PrintState::Paused, filename) == seq![
            EventView { kind: KindView::PrintPaused, description: "Print paused"@, snapshot: None },
        ],
        transition_events(PrintState::Paused, PrintState::Printing, filename) == seq![
            EventView { kind: KindView::PrintResumed, description: "Print resumed"@, snapshot: None },
        ],
        transition_events(PrintState::Printing, PrintState::Idle, filename) == seq![
            EventView { kind: KindView::PrintFinished, description: "Print finished"@, snapshot: None },
        ],
        transition_events(PrintState::Paused, PrintState::Idle, filename) == seq![
            EventView { kind: KindView::PrintStopped, description: "Print stopped"@, snapshot: None },
        ],
        from == to ==> transition_events(from, to, filename).len() == 0,
        from is Idle && to is Paused ==> transition_events(from, to, filename).len() == 0,
{
}

/// The description of a phase change event.
pub open spec fn phase_description(ph: PhaseView, code: i64, sub_status: i64) -> Seq<char> {
    let codes = " (code "@ + dec(code as int) + ", sub-status "@ + dec(sub_status as int) + ")"@;
    match ph.detail {
        Some(d) => "Phase: "@ + ph.label + " - "@ + d + codes,
        None => "Phase: "@ + ph.label + codes,
    }
}

/// The phase change event, recorded when the phase was known before and
/// the status or sub-status changed.
pub open spec fn phase_events(
    prev: Option<(i64, i64)>,
    old_phase: (i64, i64),
    new_phase: (i64, i64),
    print_state: Seq<char>,
) -> Seq<EventView> {
    if prev is Some && new_phase != old_phase {
        let ph = phase_of(new_phase.0, new_phase.1, print_state);
        seq![
            event(
                KindView::PhaseChanged(new_phase.0, ph.label),
                phase_description(ph, new_phase.0, new_phase.1),
            ),
        ]
    } else {
        seq![]
    }
}

/// The errors a machine status reports.
pub open spec fn exception_list(m: MachineStatusView) -> Seq<ExceptionView> {
    match m.exception_status {
        Some(v) => v,
        None => seq![],
    }
}

/// The error codes a machine status reports.
pub open spec fn exception_codes(m: MachineStatusView) -> Seq<i64> {
    exception_list(m).map_values(|e: ExceptionView| e.code)
}

/// The description of an error event: the code in hexadecimal and the
/// printer's description when it gives one.
pub open spec fn exception_message(e: ExceptionView) -> Seq<char> {
    match e.description {
        Some(d) => "Error "@ + seq!['0', 'x'] + digits(as_u64_bits(e.code), 16) + ": "@ + d,
        None => "Error code "@ + seq!['0', 'x'] + digits(as_u64_bits(e.code), 16),
    }
}

/// One error event for each reported error whose code was not reported
/// before, in order.
pub open spec fn new_exception_events(old_codes: Seq<i64>, entries: Seq<ExceptionView>) -> Seq<
    EventView,
>
    decreases entries.len(),
{
    if entries.len() == 0 {
        seq![]
    } else {
        new_exception_events(old_codes, entries.drop_last()) + if old_codes.contains(
            entries.last().code,
        ) {
            seq![]
        } else {
            seq![event(KindView::ErrorOccurred, exception_message(entries.last()))]
        }
    }
}

/// The canvas information after a full status report: the report's own
/// when it carries some, else what was known before, which a report
/// without canvas information keeps.
pub fn keep_canvas<T>(before: Option<T>, reported: Option<T>) -> (r: Option<T>)
    ensures
        r == if reported is Some {
            reported
        } else {
            before
        },
{
    match reported {
        Some(c) => Some(c),
        None => before,
    }
}

/// The tracked state of the printer.
pub struct PrinterState {
    pub machine_status: MachineStatus,
    pub print_status: PrintStatus,
    pub device_info: Option<DeviceInfo>,
    pub printer_ip: String,
    /// Raw and WebSocket connected.
    pub connected: bool,
    pub connected_raw: bool,
    pub connected_ws: bool,
    pub printer_ws_status: String,
    pub camera_connected: bool,
    pub events: VecDeque<PrinterEvent>,
    /// How many events ever entered the log.
    pub events_total: u64,
    /// The status and sub-status last seen; `None` until the first report
    /// after a (re)connection, so that no phase change is recorded for it.
    pub prev_machine_phase: Option<(i64, i64)>,
    /// Events that entered the log and have not been broadcast yet.
    pub outbox: Vec<PrinterEvent>,
}

/// Whether two states agree on everything but the event log.
pub open spec fn same_but_log(a: PrinterState, b: PrinterState) -> bool {
    &&& a.machine_status == b.machine_status
    &&& a.print_status == b.print_status
    &&& a.device_info == b.device_info
    &&& a.printer_ip == b.printer_ip
    &&& a.connected == b.connected
    &&& a.connected_raw == b.connected_raw
    &&& a.connected_ws == b.connected_ws
    &&& a.printer_ws_status == b.printer_ws_status
    &&& a.camera_connected == b.camera_connected
    &&& a.prev_machine_phase == b.prev_machine_phase
}

/// Whether two states agree on the connection fields.
pub open spec fn same_connection(a: PrinterState, b: PrinterState) -> bool {
    &&& a.device_info == b.device_info
    &&& a.printer_ip == b.printer_ip
    &&& a.connected == b.connected
    &&& a.connected_raw == b.connected_raw
    &&& a.connected_ws == b.connected_ws
    &&& a.printer_ws_status == b.printer_ws_status
    &&& a.camera_connected == b.camera_connected
}

/// Adding two runs of events one after the other adds their concatenation.
proof fn lemma_log_add_all_concat(log: LogView, a: Seq<EventView>, b: Seq<EventView>)
    ensures
        log_add_all(log, a + b) == log_add_all(log_add_all(log, a), b),
    decreases b.len(),
{
    if b.len() == 0 {
        assert(a + b =~= a);
    } else {
        assert((a + b).drop_last() =~= a + b.drop_last());
        assert((a + b).last() == b.last());
        lemma_log_add_all_concat(log, a, b.drop_last());
    }
}

/// Adding events raises the count of logged events by at most their number.
proof fn lemma_log_add_all_total(log: LogView, es: Seq<EventView>)
    ensures
        log.total <= log_add_all(log, es).total <= log.total + es.len(),
    decreases es.len(),
{
    if es.len() > 0 {
        lemma_log_add_all_total(log, es.drop_last());
    }
}

proof fn lemma_new_exception_events_len(old_codes: Seq<i64>, entries: Seq<ExceptionView>)
    ensures
        new_exception_events(old_codes, entries).len() <= entries.len(),
    decreases entries.len(),
{
    if entries.len() > 0 {
        lemma_new_exception_events_len(old_codes, entries.drop_last());
    }
}

/// Shortens a file name for an event description.
pub fn truncate_filename(name: &str) -> (r: String)
    ensures
        r@ == truncated(name@),
{
    let len = name.as_bytes().len();
    if len <= 40 {
        return String::from_str(name);
    }
    let ghost b = name.spec_bytes();
    proof {
        vstd::utf8::encode_utf8_valid_utf8(name@);
        vstd::utf8::is_char_boundary_start_end_of_seq(b);
    }
    let mut cut = len - 37;
    while !name.is_char_boundary(cut)
        invariant
            b == name.spec_bytes(),
            len == b.len(),
            vstd::utf8::valid_utf8(b),
            is_char_boundary(b, b.len() as int),
            len - 37 <= cut <= len,
            boundary_from(b, len - 37) == boundary_from(b, cut as int),
        decreases len - cut,
    {
        cut = cut + 1;
    }
    let (_head, tail) = name.split_at(cut);
    proof {
        vstd::utf8::encode_utf8_decode_utf8(tail@);
    }
    let mut r = String::from_str("...");
    push_str(&mut r, tail);
    r
}

impl PrinterState {
    /// The event log of this state.
    pub open spec fn log(&self) -> LogView {
        LogView {
            events: self.events@.map_values(|e: PrinterEvent| e@),
            total: self.events_total as int,
            outbox: self.outbox@.map_values(|e: PrinterEvent| e@),
        }
    }

    /// The state before any report: unknown machine (status 0), no job,
    /// not connected, connecting, and an empty log.
    pub fn new() -> (s: PrinterState)
        ensures
            s.machine_status@ == (MachineStatusView {
                exception_status: None,
                progress: 0,
                status: 0,
                sub_status: 0,
                sub_status_reason_code: None,
            }),
            s.print_status@ == cleared_task(s.print_status@),
            s.print_status.bed_mesh_detect is None,
            s.print_status.enable is None,
            s.print_status.filament_detect is None,
            s.print_status.total_duration is None,
            s.device_info is None,
            s.printer_ip@.len() == 0,
            !s.connected && !s.connected_raw && !s.connected_ws,
            s.printer_ws_status@ == "connecting"@,
            !s.camera_connected,
            s.log() == (LogView { events: seq![], total: 0, outbox: seq![] }),
            (s.prev_machine_phase is None),
    {
        let s = PrinterState {
            machine_status: MachineStatus::default(),
            print_status: PrintStatus::default(),
            device_info: None,
            printer_ip: String::new(),
            connected: false,
            connected_raw: false,
            connected_ws: false,
            printer_ws_status: String::from_str("connecting"),
            camera_connected: false,
            events: VecDeque::new(),
            events_total: 0,
            prev_machine_phase: None,
            outbox: Vec::new(),
        };
        assert(s.log().events =~= seq![]);
        assert(s.log().outbox =~= seq![]);
        assert(s.print_status.filename@ =~= Seq::<char>::empty());
        assert(s.print_status.state@ =~= Seq::<char>::empty());
        assert(s.print_status.uuid@ =~= Seq::<char>::empty());
        s
    }

    /// What the status reports say of the print job.
    pub fn print_state(&self) -> (r: PrintState)
        ensures
            r == print_state_of(self.machine_status@, self.print_status@),
    {
        let norm = normalize_machine_status(self.machine_status.status);
        match norm {
            NormalizedStatus::PrintCompleted | NormalizedStatus::Stopped => {
                return PrintState::Idle;
            },
            _ => {},
        }
        if str_eq(self.print_status.state.as_str(), "printing") {
            PrintState::Printing
        } else if str_eq(self.print_status.state.as_str(), "paused") {
            PrintState::Paused
        } else {
            PrintState::Idle
        }
    }

    fn append_event(&mut self, e: PrinterEvent)
        requires
            old(self).events_total < u64::MAX,
        ensures
            final(self).log() == log_append(old(self).log(), e@),
            same_but_log(*old(self), *final(self)),
    {
        let ghost old_log = self.log();
        self.outbox.push(e.duplicate());
        self.events.push_back(e);
        self.events_total = self.events_total + 1;
        let ghost pushed = old_log.events.push(e@);
        assert(self.events@.map_values(|e: PrinterEvent| e@) =~= pushed);
        if self.events.len() > EVENT_CAP {
            self.events.pop_front();
            assert(self.events@.map_values(|e: PrinterEvent| e@) =~= pushed.drop_first());
        }
        assert(self.log().outbox =~= old_log.outbox.push(e@));
    }

    /// Offers an event to the log; it is dropped when it repeats the last
    /// event's kind and description.
    pub fn add_event(&mut self, kind: EventKind, description: String)
        requires
            old(self).events_total < u64::MAX,
        ensures
            final(self).log() == log_add(old(self).log(), event(kind@, description@)),
            old(self).log().events.len() <= EVENT_CAP ==> final(self).log().events.len() <= EVENT_CAP,
            same_but_log(*old(self), *final(self)),
    {
        let n = self.events.len();
        if n > 0 {
            let last = &self.events[n - 1];
            if last.kind.variant_index() == kind.variant_index() && str_eq(
                last.description.as_str(),
                description.as_str(),
            ) {
                assert(self.log().events.last() == last@);
                return;
            }
            assert(self.log().events.last() == last@);
        }
        let e = PrinterEvent {
            timestamp: std::time::SystemTime::now(),
            kind,
            description,
            snapshot: None,
        };
        self.append_event(e);
    }

    /// Adds an event with a snapshot to the log, repeat or not.
    pub fn add_event_with_snapshot(
        &mut self,
        kind: EventKind,
        description: String,
        snapshot: Option<String>,
    )
        requires
            old(self).events_total < u64::MAX,
        ensures
            final(self).log() == log_append(
                old(self).log(),
                EventView { kind: kind@, description: description@, snapshot: opt_text(snapshot) },
            ),
            old(self).log().events.len() <= EVENT_CAP ==> final(self).log().events.len() <= EVENT_CAP,
            same_but_log(*old(self), *final(self)),
    {
        let e = PrinterEvent {
            timestamp: std::time::SystemTime::now(),
            kind,
            description,
            snapshot,
        };
        self.append_event(e);
    }

    /// Hands out the events waiting to be broadcast and empties the queue.
    pub fn take_outbox(&mut self) -> (out: Vec<PrinterEvent>)
        ensures
            out@.map_values(|e: PrinterEvent| e@) == old(self).log().outbox,
            final(self).log() == (LogView { outbox: seq![], ..old(self).log() }),
            same_but_log(*old(self), *final(self)),
    {
        let mut out: Vec<PrinterEvent> = Vec::new();
        std::mem::swap(&mut out, &mut self.outbox);
        assert(self.log().outbox =~= seq![]);
        out
    }

    /// Marks the machine as offline after a disconnection and forgets the
    /// last phase.
    pub fn clear_on_disconnect(&mut self)
        ensures
            final(self).machine_status@ == (MachineStatusView {
                status: -1i64,
                sub_status: 0i64,
                ..old(self).machine_status@
            }),
            final(self).prev_machine_phase is None,
            final(self).print_status == old(self).print_status,
            final(self).log() == old(self).log(),
            same_connection(*old(self), *final(self)),
    {
        self.machine_status.status = -1;
        self.machine_status.sub_status = 0;
        self.prev_machine_phase = None;
    }

    /// Clears the print job fields when they are stale; says whether it did.
    fn clear_print_task_if_idle(&mut self) -> (cleared: bool)
        ensures
            cleared == should_clear(old(self).machine_status@, old(self).print_status@),
            final(self).print_status@ == if cleared {
                cleared_task(old(self).print_status@)
            } else {
                old(self).print_status@
            },
            final(self).machine_status == old(self).machine_status,
            final(self).prev_machine_phase == old(self).prev_machine_phase,
            final(self).log() == old(self).log(),
            same_connection(*old(self), *final(self)),
    {
        let norm = normalize_machine_status(self.machine_status.status);
        if norm.is_active_print() {
            return false;
        }
        let terminal = match norm {
            NormalizedStatus::PrintCompleted | NormalizedStatus::Stopped => true,
            _ => false,
        };
        if !terminal {
            let pstate = self.print_status.state.as_str();
            if str_eq(pstate, "printing") || str_eq(pstate, "paused") {
                return false;
            }
        }
        self.print_status.filename = String::new();
        self.print_status.state = String::new();
        self.print_status.current_layer = None;
        self.print_status.remaining_time_sec = None;
        self.print_status.print_duration = None;
        self.print_status.uuid = String::new();
        true
    }

    fn record_state_transition(&mut self, from: PrintState, to: PrintState)
        requires
            old(self).events_total < u64::MAX,
        ensures
            final(self).log() == log_add_all(
                old(self).log(),
                transition_events(from, to, old(self).print_status.filename@),
            ),
            same_but_log(*old(self), *final(self)),
    {
        let ghost es = transition_events(from, to, self.print_status.filename@);
        let ghost log0 = self.log();
        match (from, to) {
            (PrintState::Idle, PrintState::Printing) => {
                let mut d = String::from_str("Print started: ");
                let t = truncate_filename(self.print_status.filename.as_str());
                push_str(&mut d, t.as_str());
                assert(es == seq![event(KindView::PrintStarted, d@)]);
                self.add_event(EventKind::PrintStarted, d);
            },
            (PrintState::Printing, PrintState::Paused) => {
                let d = String::from_str("Print paused");
                assert(es == seq![event(KindView::PrintPaused, d@)]);
                self.add_event(EventKind::PrintPaused, d);
            },
            (PrintState::Paused, PrintState::Printing) => {
                let d = String::from_str("Print resumed");
                assert(es == seq![event(KindView::PrintResumed, d@)]);
                self.add_event(EventKind::PrintResumed, d);
            },
            (PrintState::Printing, PrintState::Idle) => {
                let d = String::from_str("Print finished");
                assert(es == seq![event(KindView::PrintFinished, d@)]);
                self.add_event(EventKind::PrintFinished, d);
            },
            (PrintState::Paused, PrintState::Idle) => {
                let d = String::from_str("Print stopped");
                assert(es == seq![event(KindView::PrintStopped, d@)]);
                self.add_event(EventKind::PrintStopped, d);
            },
            _ => {
                assert(es == Seq::<EventView>::empty());
            },
        }
        proof {
            if es.len() == 1 {
                assert(es.drop_last() =~= seq![]);
                assert(log_add_all(log0, es.drop_last()) == log0);
            }
        }
    }

    /// Takes a full status report: the phase it reports becomes the last
    /// seen phase (without a phase event), stale job fields are cleared,
    /// and a change of print state is recorded. Says whether the job fields
    /// were cleared.
    pub fn seed(&mut self, machine_status: MachineStatus, print_status: PrintStatus) -> (cleared:
        bool)
        requires
            old(self).events_total < u64::MAX,
        ensures
            cleared == should_clear(machine_status@, print_status@),
            final(self).machine_status == machine_status,
            final(self).print_status@ == if cleared {
                cleared_task(print_status@)
            } else {
                print_status@
            },
            final(self).prev_machine_phase == Some((machine_status.status, machine_status.sub_status)),
            final(self).log() == log_add_all(
                old(self).log(),
                transition_events(
                    print_state_of(old(self).machine_status@, old(self).print_status@),
                    print_state_of(machine_status@, final(self).print_status@),
                    final(self).print_status.filename@,
                ),
            ),
            same_connection(*old(self), *final(self)),
    {
        let old_state = self.print_state();
        self.prev_machine_phase = Some((machine_status.status, machine_status.sub_status));
        self.machine_status = machine_status;
        self.print_status = print_status;
        let cleared = self.clear_print_task_if_idle();
        let new_state = self.print_state();
        if old_state != new_state {
            self.record_state_transition(old_state, new_state);
        }
        cleared
    }

    /// Takes the status that a pushed delta produced once merged into the
    /// last report: stale job fields are cleared, then a change of print
    /// state, a change of phase (when the last phase is known) and each
    /// newly reported error are recorded, in that order. Says whether the
    /// job fields were cleared.
    pub fn merge_delta(&mut self, machine_status: MachineStatus, print_status: PrintStatus) -> (cleared:
        bool)
        requires
            old(self).events_total + 2 + exception_list(machine_status@).len() <= u64::MAX,
        ensures
            cleared == should_clear(machine_status@, print_status@),
            final(self).machine_status == machine_status,
            final(self).print_status@ == if cleared {
                cleared_task(print_status@)
            } else {
                print_status@
            },
            final(self).prev_machine_phase == Some((machine_status.status, machine_status.sub_status)),
            final(self).log() == log_add_all(
                old(self).log(),
                transition_events(
                    print_state_of(old(self).machine_status@, old(self).print_status@),
                    print_state_of(machine_status@, final(self).print_status@),
                    final(self).print_status.filename@,
                ) + phase_events(
                    old(self).prev_machine_phase,
                    (old(self).machine_status.status, old(self).machine_status.sub_status),
                    (machine_status.status, machine_status.sub_status),
                    final(self).print_status.state@,
                ) + new_exception_events(
                    exception_codes(old(self).machine_status@),
                    exception_list(machine_status@),
                ),
            ),
            same_connection(*old(self), *final(self)),
    {
        let ghost log0 = self.log();
        let old_state = self.print_state();
        let old_phase = (self.machine_status.status, self.machine_status.sub_status);
        let old_codes = exception_code_list(&self.machine_status);
        let ghost prev0 = self.prev_machine_phase;
        self.machine_status = machine_status;
        self.print_status = print_status;
        let cleared = self.clear_print_task_if_idle();
        let new_state = self.print_state();
        let ghost t_events = transition_events(old_state, new_state, self.print_status.filename@);
        let ghost e_events = new_exception_events(old_codes@, exception_list(self.machine_status@));
        proof {
            lemma_new_exception_events_len(old_codes@, exception_list(self.machine_status@));
        }
        if old_state != new_state {
            self.record_state_transition(old_state, new_state);
        } else {
            assert(t_events =~= seq![]);
        }
        let ghost log1 = self.log();
        proof {
            lemma_log_add_all_total(log0, t_events);
        }
        let new_phase = (self.machine_status.status, self.machine_status.sub_status);
        let ghost p_events = phase_events(prev0, old_phase, new_phase, self.print_status.state@);
        self.record_phase_change(old_phase);
        let ghost log2 = self.log();
        proof {
            lemma_log_add_all_total(log1, p_events);
        }
        self.record_new_exceptions(&old_codes);
        proof {
            lemma_log_add_all_concat(log0, t_events, p_events);
            lemma_log_add_all_concat(log0, t_events + p_events, e_events);
        }
        cleared
    }

    fn record_phase_change(&mut self, old_phase: (i64, i64))
        requires
            old(self).events_total < u64::MAX,
        ensures
            final(self).log() == log_add_all(
                old(self).log(),
                phase_events(
                    old(self).prev_machine_phase,
                    old_phase,
                    (old(self).machine_status.status, old(self).machine_status.sub_status),
                    old(self).print_status.state@,
                ),
            ),
            final(self).prev_machine_phase == Some(
                (old(self).machine_status.status, old(self).machine_status.sub_status),
            ),
            final(self).machine_status == old(self).machine_status,
            final(self).print_status == old(self).print_status,
            same_connection(*old(self), *final(self)),
    {
        let new_phase = (self.machine_status.status, self.machine_status.sub_status);
        let ghost p_events = phase_events(
            self.prev_machine_phase,
            old_phase,
            new_phase,
            self.print_status.state@,
        );
        let ghost log0 = self.log();
        if self.prev_machine_phase.is_some() && (new_phase.0 != old_phase.0 || new_phase.1
            != old_phase.1) {
            self.prev_machine_phase = Some(new_phase);
            let phase = build_phase_info(new_phase.0, new_phase.1, self.print_status.state.as_str());
            let mut description = String::from_str("Phase: ");
            push_str(&mut description, phase.label);
            match phase.detail {
                Some(detail) => {
                    push_str(&mut description, " - ");
                    push_str(&mut description, detail);
                },
                None => {},
            }
            push_str(&mut description, " (code ");
            push_i64(&mut description, new_phase.0);
            push_str(&mut description, ", sub-status ");
            push_i64(&mut description, new_phase.1);
            push_str(&mut description, ")");
            let label = String::from_str(phase.label);
            proof {
                let ph = phase_of(new_phase.0, new_phase.1, self.print_status.state@);
                assert(description@ =~= phase_description(ph, new_phase.0, new_phase.1));
                assert(p_events == seq![
                    event(KindView::PhaseChanged(new_phase.0, label@), description@),
                ]);
                assert(p_events.drop_last() =~= seq![]);
            }
            self.add_event(EventKind::PhaseChanged(new_phase.0, label), description);
            assert(log_add_all(log0, p_events.drop_last()) == log0);
            assert(p_events.last() == event(
                KindView::PhaseChanged(new_phase.0, phase_of(new_phase.0, new_phase.1, old(self).print_status.state@).label),
                phase_description(phase_of(new_phase.0, new_phase.1, old(self).print_status.state@), new_phase.0, new_phase.1),
            ));
        } else {
            self.prev_machine_phase = Some(new_phase);
            assert(p_events =~= seq![]);
            assert(self.log() == log0);
        }
    }

    fn record_new_exceptions(&mut self, old_codes: &Vec<i64>)
        requires
            old(self).events_total + new_exception_events(
                old_codes@,
                exception_list(old(self).machine_status@),
            ).len() <= u64::MAX,
        ensures
            final(self).log() == log_add_all(
                old(self).log(),
                new_exception_events(old_codes@, exception_list(old(self).machine_status@)),
            ),
            final(self).machine_status == old(self).machine_status,
            final(self).print_status == old(self).print_status,
            final(self).prev_machine_phase == old(self).prev_machine_phase,
            same_connection(*old(self), *final(self)),
    {
        let messages = new_exception_messages(old_codes, &self.machine_status);
        let ghost e_events = new_exception_events(old_codes@, exception_list(self.machine_status@));
        let ghost log0 = self.log();
        let mut i: usize = 0;
        while i < messages.len()
            invariant
                i <= messages@.len(),
                messages@.len() == e_events.len(),
                forall|k: int|
                    0 <= k < messages@.len() ==> #[trigger] event(
                        KindView::ErrorOccurred,
                        messages@[k]@,
                    ) == e_events[k],
                self.log() == log_add_all(log0, e_events.subrange(0, i as int)),
                log0.total + e_events.len() <= u64::MAX,
                same_but_log(*old(self), *self),
            decreases messages@.len() - i,
        {
            proof {
                lemma_log_add_all_total(log0, e_events.subrange(0, i as int));
                assert(e_events.subrange(0, i + 1).drop_last() =~= e_events.subrange(0, i as int));
                assert(e_events.subrange(0, i + 1).last() == e_events[i as int]);
            }
            let m = messages[i].clone();
            self.add_event(EventKind::ErrorOccurred, m);
            i += 1;
        }
        assert(e_events.subrange(0, e_events.len() as int) =~= e_events);
    }
}

fn exception_code_list(m: &MachineStatus) -> (codes: Vec<i64>)
    ensures
        codes@ == exception_codes(m@),
{
    let mut codes: Vec<i64> = Vec::new();
    match &m.exception_status {
        Some(v) => {
            let mut i: usize = 0;
            while i < v.len()
                invariant
                    i <= v@.len(),
                    codes@ == v@.subrange(0, i as int).map_values(|e: ExceptionEntry| e.code),
                decreases v@.len() - i,
            {
                codes.push(v[i].code);
                i += 1;
                assert(codes@ =~= v@.subrange(0, i as int).map_values(|e: ExceptionEntry| e.code));
            }
            assert(codes@ =~= exception_codes(m@));
        },
        None => {
            assert(codes@ =~= exception_codes(m@));
        },
    }
    codes
}

fn i64_slice_contains(s: &Vec<i64>, x: i64) -> (r: bool)
    ensures
        r == s@.contains(x),
{
    let mut i: usize = 0;
    while i < s.len()
        invariant
            i <= s@.len(),
            forall|j: int| 0 <= j < i ==> s@[j] != x,
        decreases s@.len() - i,
    {
        if s[i] == x {
            assert(s@[i as int] == x);
            return true;
        }
        i += 1;
    }
    false
}

fn exception_message_of(e: &ExceptionEntry) -> (msg: String)
    ensures
        msg@ == exception_message(e@),
{
    match &e.description {
        Some(d) => {
            let mut msg = String::from_str("Error ");
            push_hex_i64(&mut msg, e.code);
            push_str(&mut msg, ": ");
            push_str(&mut msg, d.as_str());
            assert(msg@ =~= exception_message(e@));
            msg
        },
        None => {
            let mut msg = String::from_str("Error code ");
            push_hex_i64(&mut msg, e.code);
            assert(msg@ =~= exception_message(e@));
            msg
        },
    }
}

fn new_exception_messages(old_codes: &Vec<i64>, m: &MachineStatus) -> (msgs: Vec<String>)
    ensures
        msgs@.len() == new_exception_events(old_codes@, exception_list(m@)).len(),
        forall|k: int|
            0 <= k < msgs@.len() ==> #[trigger] event(KindView::ErrorOccurred, msgs@[k]@)
                == new_exception_events(old_codes@, exception_list(m@))[k],
{
    let mut msgs: Vec<String> = Vec::new();
    match &m.exception_status {
        Some(v) => {
            let ghost entries = exception_list(m@);
            let mut i: usize = 0;
            while i < v.len()
                invariant
                    i <= v@.len(),
                    entries == v@.map_values(|e: ExceptionEntry| e@),
                    msgs@.len() == new_exception_events(
                        old_codes@,
                        entries.subrange(0, i as int),
                    ).len(),
                    forall|k: int|
                        0 <= k < msgs@.len() ==> #[trigger] event(
                            KindView::ErrorOccurred,
                            msgs@[k]@,
                        ) == new_exception_events(old_codes@, entries.subrange(0, i as int))[k],
                decreases v@.len() - i,
            {
                let ghost pre = entries.subrange(0, i as int);
                let ghost next = entries.subrange(0, i + 1);
                assert(next.drop_last() =~= pre);
                assert(next.last() == v@[i as int]@);
                if !i64_slice_contains(old_codes, v[i].code) {
                    let msg = exception_message_of(&v[i]);
                    msgs.push(msg);
                } else {
                }
                i += 1;
                assert(new_exception_events(old_codes@, next) == new_exception_events(
                    old_codes@,
                    pre,
                ) + if old_codes@.contains(next.last().code) {
                    seq![]
                } else {
                    seq![event(KindView::ErrorOccurred, exception_message(next.last()))]
                });
            }
            assert(entries.subrange(0, v@.len() as int) =~= entries);
        },
        None => {},
    }
    msgs
}

} // verus!
