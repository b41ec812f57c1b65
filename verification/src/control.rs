//! The decisions of the printer manager: what the connection state means for
//! the printer state, how long to wait before reconnecting, which request
//! carries each command, and how the printer's reply is read.

use vstd::prelude::*;

use crate::discovery::{all_digits, random_id};
use crate::error::PrinterError;
use crate::json::{Json, JsonNumber, JsonView, NumberView, entries_view, field_view, jv, lemma_object_view};
use crate::models::{
    METHOD_GET_AMS_INFO, METHOD_GET_FILE_INFO, METHOD_GET_FILE_LIST, METHOD_GET_FILE_THUMBNAIL,
    METHOD_GET_PRINT_HISTORY, METHOD_HOME_AXES, METHOD_PAUSE_PRINT, METHOD_RESUME_PRINT,
    METHOD_SET_AMS_AUTO_REFILL, METHOD_SET_FAN, METHOD_SET_LED, METHOD_SET_SPEED_MODE,
    METHOD_START_PRINT, METHOD_STOP_PRINT, MachineStatusView,
};
use crate::session::opt_jv;
use crate::state::{EventKind, EventView, KindView, LogView, PrinterEvent, PrinterState, event, log_add, same_but_log, same_connection};
use std::collections::{HashMap, VecDeque};
use crate::text::{digits, push_digits, push_str, str_eq};

verus! {

/// What the connection watcher remembers between changes.
pub struct ConnectionWatch {
    /// Whether the printer was connected at the last change.
    pub was_connected: bool,
    /// Whether the WebSocket session was ever up.
    pub was_ws_connected: bool,
}

impl ConnectionWatch {
    pub fn new() -> (w: ConnectionWatch)
        ensures
            !w.was_connected,
            !w.was_ws_connected,
    {
        ConnectionWatch { was_connected: false, was_ws_connected: false }
    }
}

/// The text shown for the WebSocket session.
pub open spec fn ws_status_view(ws: bool, was_ws_connected: bool) -> Seq<char> {
    if ws {
        "connected"@
    } else if was_ws_connected {
        "reconnecting"@
    } else {
        "connecting"@
    }
}

impl PrinterState {
    /// Takes in the state of the two connections. The printer counts as
    /// connected while its WebSocket session is up. Losing the connection
    /// marks the machine offline and logs "Printer disconnected"; gaining it
    /// logs "Printer connected", and the result asks for a fresh full status.
    pub fn apply_connection(&mut self, watch: &mut ConnectionWatch, raw: bool, ws: bool) -> (reseed:
        bool)
        requires
            old(self).events_total < u64::MAX,
        ensures
            reseed == (!old(watch).was_connected && ws),
            final(watch).was_connected == ws,
            final(watch).was_ws_connected == (old(watch).was_ws_connected || ws),
            final(self).connected == ws,
            final(self).connected_raw == raw,
            final(self).connected_ws == ws,
            final(self).printer_ws_status@ == ws_status_view(ws, old(watch).was_ws_connected),
            final(self).device_info == old(self).device_info,
            final(self).printer_ip == old(self).printer_ip,
            final(self).camera_connected == old(self).camera_connected,
            final(self).print_status == old(self).print_status,
            old(watch).was_connected && !ws ==> final(self).machine_status@ == (MachineStatusView {
                status: -1i64,
                sub_status: 0i64,
                ..old(self).machine_status@
            }) && final(self).prev_machine_phase is None && final(self).log() == log_add(
                old(self).log(),
                event(KindView::Disconnected, "Printer disconnected"@),
            ),
            !old(watch).was_connected && ws ==> final(self).machine_status == old(
                self,
            ).machine_status && final(self).prev_machine_phase == old(self).prev_machine_phase
                && final(self).log() == log_add(
                old(self).log(),
                event(KindView::Connected, "Printer connected"@),
            ),
            old(watch).was_connected == ws ==> final(self).machine_status == old(
                self,
            ).machine_status && final(self).prev_machine_phase == old(self).prev_machine_phase
                && final(self).log() == old(self).log(),
    {
        let status = if ws {
            "connected"
        } else if watch.was_ws_connected {
            "reconnecting"
        } else {
            "connecting"
        };
        if ws {
            watch.was_ws_connected = true;
        }
        self.connected = ws;
        self.connected_raw = raw;
        self.connected_ws = ws;
        self.printer_ws_status = status.to_owned();
        if watch.was_connected && !ws {
            self.clear_on_disconnect();
            self.add_event(EventKind::Disconnected, "Printer disconnected".to_owned());
        } else if !watch.was_connected && ws {
            self.add_event(EventKind::Connected, "Printer connected".to_owned());
        }
        let reseed = !watch.was_connected && ws;
        watch.was_connected = ws;
        reseed
    }
}

/// The first wait before reconnecting, and the longest, in seconds.
pub const BACKOFF_START_SECS: u64 = 2;

pub const BACKOFF_MAX_SECS: u64 = 30;

/// The wait between reconnection attempts.
pub struct Backoff {
    /// The next wait after a failure, in seconds.
    pub delay_secs: u64,
    /// The number of the current attempt.
    pub attempt: u32,
}

impl Backoff {
    pub open spec fn wf(&self) -> bool {
        BACKOFF_START_SECS <= self.delay_secs <= BACKOFF_MAX_SECS
    }

    pub fn new() -> (b: Backoff)
        ensures
            b.wf(),
            b.delay_secs == BACKOFF_START_SECS,
            b.attempt == 1,
    {
        Backoff { delay_secs: BACKOFF_START_SECS, attempt: 1 }
    }

    /// After an attempt ended: how long to wait before the next one. An
    /// attempt that lasted long resets the wait; after a long attempt that
    /// ended cleanly the wait is one second. Each other outcome doubles the
    /// wait, up to the limit.
    pub fn next_wait(&mut self, clean: bool, was_long: bool) -> (wait_secs: u64)
        requires
            old(self).wf(),
        ensures
            final(self).wf(),
            1 <= wait_secs <= BACKOFF_MAX_SECS,
            ({
                let base = if was_long {
                    BACKOFF_START_SECS
                } else {
                    old(self).delay_secs
                };
                &&& wait_secs == if clean && was_long {
                    1
                } else {
                    base
                }
                &&& final(self).delay_secs == if !clean || !was_long {
                    if base * 2 < BACKOFF_MAX_SECS {
                        base * 2
                    } else {
                        BACKOFF_MAX_SECS as int
                    }
                } else {
                    base as int
                }
                &&& final(self).attempt == if was_long {
                    2
                } else {
                    old(self).attempt.wrapping_add(1)
                }
            }),
    {
        if was_long {
            self.delay_secs = BACKOFF_START_SECS;
            self.attempt = 1;
        }
        let wait = if clean && was_long {
            1
        } else {
            self.delay_secs
        };
        if !clean || !was_long {
            let doubled = self.delay_secs * 2;
            self.delay_secs = if doubled < BACKOFF_MAX_SECS {
                doubled
            } else {
                BACKOFF_MAX_SECS
            };
        }
        self.attempt = self.attempt.wrapping_add(1);
        wait
    }
}

/// The client id of the raw MQTT session: `cc2_` and four decimal digits.
pub fn raw_client_id() -> (s: String)
    ensures
        s@.len() == "cc2_"@.len() + 4,
        s@.subrange(0, "cc2_"@.len() as int) == "cc2_"@,
        all_digits(s@.skip("cc2_"@.len() as int), 10),
{
    random_id("cc2_", 4, 10)
}

/// The client id of a WebSocket session, new for each attempt so that the
/// printer holds no stale registration: `webIF_` and six hexadecimal digits.
pub fn ws_client_id() -> (s: String)
    ensures
        s@.len() == "webIF_"@.len() + 6,
        s@.subrange(0, "webIF_"@.len() as int) == "webIF_"@,
        all_digits(s@.skip("webIF_"@.len() as int), 16),
{
    random_id("webIF_", 6, 16)
}

/// The error code of a reply: its `error_code` field when that is an
/// unsigned integer, cut to 16 bits; zero otherwise.
pub open spec fn reply_code_view(reply: JsonView) -> u16 {
    match field_view(reply, "error_code"@) {
        Some(JsonView::Number(NumberView::PosInt(n))) => (n % 65536) as u16,
        _ => 0,
    }
}

/// The error code of a reply.
pub fn reply_code(reply: &Json) -> (c: u16)
    ensures
        c == reply_code_view(jv(*reply)),
{
    match reply.get("error_code") {
        Some(Json::Number(JsonNumber::PosInt(n))) => (*n % 65536) as u16,
        _ => 0,
    }
}

/// The outcome of a command: an error when the reply carries a nonzero code.
pub fn command_result(method: u16, reply: &Json) -> (r: Result<(), PrinterError>)
    ensures
        reply_code_view(jv(*reply)) == 0 ==> r is Ok,
        reply_code_view(jv(*reply)) != 0 ==> (r matches Err(
            PrinterError::CommandFailed { method: m, error_code: c },
        ) && m == method && c == reply_code_view(jv(*reply))),
{
    let code = reply_code(reply);
    if code != 0 {
        return Err(PrinterError::CommandFailed { method, error_code: code });
    }
    Ok(())
}

/// The files in a file-list reply: its `file_list` when that is an array,
/// else none; an error when the reply carries a nonzero code.
pub fn file_list_result(reply: &Json) -> (r: Result<Vec<Json>, PrinterError>)
    ensures
        reply_code_view(jv(*reply)) != 0 ==> (r matches Err(
            PrinterError::CommandFailed { method: m, error_code: c },
        ) && m == METHOD_GET_FILE_LIST && c == reply_code_view(jv(*reply))),
        reply_code_view(jv(*reply)) == 0 ==> r is Ok && match field_view(
            jv(*reply),
            "file_list"@,
        ) {
            Some(JsonView::Array(a)) => r->Ok_0@.len() == a.len() && forall|i: int|
                0 <= i < a.len() ==> jv(#[trigger] r->Ok_0@[i]) == a[i],
            _ => r->Ok_0@.len() == 0,
        },
{
    let code = reply_code(reply);
    if code != 0 {
        return Err(PrinterError::CommandFailed { method: METHOD_GET_FILE_LIST, error_code: code });
    }
    match reply.get("file_list") {
        Some(Json::Array(a)) => {
            let mut out: Vec<Json> = Vec::new();
            let mut i: usize = 0;
            while i < a.len()
                invariant
                    i <= a@.len(),
                    out@.len() == i,
                    forall|x: int| 0 <= x < i ==> jv(#[trigger] out@[x]) == jv(a@[x]),
                decreases a@.len() - i,
            {
                out.push(crate::json::clone_json(&a[i]));
                i += 1;
            }
            proof {
                let ghost av = field_view(jv(*reply), "file_list"@)->0->Array_0;
                assert(jv(Json::Array(*a)) == JsonView::Array(av));
                assert forall|x: int| 0 <= x < av.len() implies jv(#[trigger] out@[x]) == av[x] by {
                    assert(jv(out@[x]) == jv(a@[x]));
                }
            }
            Ok(out)
        },
        _ => Ok(Vec::new()),
    }
}

/// A request of the manager to the printer.
#[derive(Debug)]
pub enum PrinterRequest {
    Pause,
    Resume,
    Stop,
    SetLed(bool),
    /// A fan by name, and its speed.
    SetFan(String, u8),
    SetSpeedMode(u8),
    /// The axes to home, such as "XYZ".
    HomeAxes(String),
    StartPrint {
        filename: String,
        storage_media: String,
        /// "smooth" selects the smooth plate's layout.
        plate: String,
        tray_id: Option<i64>,
        tray_slot: Option<i64>,
        canvas_id: i64,
        timelapse: bool,
        bedlevel_force: bool,
    },
    SetAutoRefill(bool),
    FileList { storage: String, page_number: i64, page_size: i64 },
    FileInfo { storage_media: String, file_name: String },
    Thumbnail { storage_media: String, file_name: String },
    PrintHistory,
    CanvasRefresh,
}

/// How a request goes to the printer, and the event it logs once the
/// printer accepted it.
pub struct RequestPlan {
    pub method: u16,
    pub params: Option<Json>,
    pub timeout_secs: u64,
    pub event: Option<(EventKind, String)>,
}

pub open spec fn int_view(i: i64) -> JsonView {
    if i >= 0 {
        JsonView::Number(NumberView::PosInt(i as u64))
    } else {
        JsonView::Number(NumberView::NegInt(i))
    }
}

pub open spec fn obj1(k: Seq<char>, v: JsonView) -> JsonView {
    JsonView::Object(seq![(k, v)])
}

pub open spec fn opt_or_zero(o: Option<i64>) -> i64 {
    match o {
        Some(v) => v,
        None => 0,
    }
}

/// The layout the printer uses for a plate.
pub open spec fn layout_view(plate: Seq<char>) -> Seq<char> {
    if plate == "smooth"@ {
        "B"@
    } else {
        "A"@
    }
}

/// The parameters of a start-print request.
pub open spec fn start_params_view(
    filename: Seq<char>,
    storage_media: Seq<char>,
    plate: Seq<char>,
    tray_id: Option<i64>,
    tray_slot: Option<i64>,
    canvas_id: i64,
    timelapse: bool,
    bedlevel_force: bool,
) -> JsonView {
    JsonView::Object(
        seq![
            ("filename"@, JsonView::Text(filename)),
            ("storage_media"@, JsonView::Text(storage_media)),
            (
                "config"@,
                JsonView::Object(
                    seq![
                        ("bedlevel_force"@, JsonView::Bool(bedlevel_force)),
                        ("delay_video"@, JsonView::Bool(timelapse)),
                        ("print_layout"@, JsonView::Text(layout_view(plate))),
                        ("printer_check"@, JsonView::Bool(true)),
                        (
                            "slot_map"@,
                            JsonView::Array(
                                seq![
                                    JsonView::Object(
                                        seq![
                                            ("canvas_id"@, int_view(canvas_id)),
                                            ("t"@, int_view(opt_or_zero(tray_slot))),
                                            ("tray_id"@, int_view(opt_or_zero(tray_id))),
                                        ],
                                    ),
                                ],
                            ),
                        ),
                    ],
                ),
            ),
        ],
    )
}

/// `{"storage_media": storage, "file_name": name}`.
pub open spec fn file_params_view(storage_media: Seq<char>, file_name: Seq<char>) -> JsonView {
    JsonView::Object(
        seq![("storage_media"@, JsonView::Text(storage_media)), ("file_name"@, JsonView::Text(file_name))],
    )
}

/// Method, parameters and timeout of each request.
pub open spec fn call_view(r: PrinterRequest) -> (u16, Option<JsonView>, u64) {
    match r {
        PrinterRequest::Pause => (METHOD_PAUSE_PRINT, None, 8),
        PrinterRequest::Resume => (METHOD_RESUME_PRINT, None, 8),
        PrinterRequest::Stop => (METHOD_STOP_PRINT, None, 8),
        PrinterRequest::SetLed(on) => (
            METHOD_SET_LED,
            Some(obj1("power"@, int_view(if on { 1 } else { 0 }))),
            5,
        ),
        PrinterRequest::SetFan(name, speed) => (
            METHOD_SET_FAN,
            Some(obj1(name@, int_view(speed as i64))),
            5,
        ),
        PrinterRequest::SetSpeedMode(mode) => (
            METHOD_SET_SPEED_MODE,
            Some(obj1("mode"@, int_view(mode as i64))),
            5,
        ),
        PrinterRequest::HomeAxes(axes) => (
            METHOD_HOME_AXES,
            Some(obj1("homed_axes"@, JsonView::Text(axes@))),
            15,
        ),
        PrinterRequest::StartPrint {
            filename,
            storage_media,
            plate,
            tray_id,
            tray_slot,
            canvas_id,
            timelapse,
            bedlevel_force,
        } => (
            METHOD_START_PRINT,
            Some(
                start_params_view(
                    filename@,
                    storage_media@,
                    plate@,
                    tray_id,
                    tray_slot,
                    canvas_id,
                    timelapse,
                    bedlevel_force,
                ),
            ),
            15,
        ),
        PrinterRequest::SetAutoRefill(on) => (
            METHOD_SET_AMS_AUTO_REFILL,
            Some(obj1("auto_refill"@, JsonView::Bool(on))),
            5,
        ),
        PrinterRequest::FileList { storage, page_number, page_size } => (
            METHOD_GET_FILE_LIST,
            Some(
                JsonView::Object(
                    seq![
                        ("storage_media"@, JsonView::Text(storage@)),
                        ("pageNumber"@, int_view(page_number)),
                        ("pageSize"@, int_view(page_size)),
                    ],
                ),
            ),
            15,
        ),
        PrinterRequest::FileInfo { storage_media, file_name } => (
            METHOD_GET_FILE_INFO,
            Some(file_params_view(storage_media@, file_name@)),
            10,
        ),
        PrinterRequest::Thumbnail { storage_media, file_name } => (
            METHOD_GET_FILE_THUMBNAIL,
            Some(file_params_view(storage_media@, file_name@)),
            10,
        ),
        PrinterRequest::PrintHistory => (METHOD_GET_PRINT_HISTORY, None, 10),
        PrinterRequest::CanvasRefresh => (
            METHOD_GET_AMS_INFO,
            Some(JsonView::Object(Seq::empty())),
            10,
        ),
    }
}

/// The LED request carries `{"power": 1}` to turn the LED on and
/// `{"power": 0}` to turn it off, so the two requests differ; it logs
/// "LED on" or "LED off" to match.
pub proof fn lemma_led_power(on: bool)
    ensures
        call_view(PrinterRequest::SetLed(on)).1 == Some(
            JsonView::Object(
                seq![
                    ("power"@, JsonView::Number(NumberView::PosInt(if on { 1u64 } else { 0u64 }))),
                ],
            ),
        ),
        call_view(PrinterRequest::SetLed(true)) != call_view(PrinterRequest::SetLed(false)),
        event_view(PrinterRequest::SetLed(on)) == Some(
            (KindView::CommandLed, if on { "LED on"@ } else { "LED off"@ }),
        ),
{
    let a = call_view(PrinterRequest::SetLed(true)).1->0->Object_0;
    let b = call_view(PrinterRequest::SetLed(false)).1->0->Object_0;
    assert(a[0].1 != b[0].1);
}

/// The printer's method numbers and the waits for its replies: pause 1021,
/// resume 1023 and stop 1022 wait 8 s; LED 1029, fan 1030, speed mode 1031
/// and auto-refill 2004 wait 5 s; homing 1026 and starting a print 1020
/// wait 15 s, as does the file list 1044; file details 1046, thumbnails
/// 1045, the history 1036 and the Canvas refresh 2005 wait 10 s. The
/// smooth plate prints with layout "B", every other plate with "A".
pub proof fn lemma_request_methods(r: PrinterRequest)
    ensures
        r is Pause ==> call_view(r) == (1021u16, None::<JsonView>, 8u64),
        r is Resume ==> call_view(r) == (1023u16, None::<JsonView>, 8u64),
        r is Stop ==> call_view(r) == (1022u16, None::<JsonView>, 8u64),
        r is SetLed ==> call_view(r).0 == 1029 && call_view(r).2 == 5,
        r is SetFan ==> call_view(r).0 == 1030 && call_view(r).2 == 5,
        r is SetSpeedMode ==> call_view(r).0 == 1031 && call_view(r).2 == 5,
        r is SetAutoRefill ==> call_view(r).0 == 2004 && call_view(r).2 == 5,
        r is HomeAxes ==> call_view(r).0 == 1026 && call_view(r).2 == 15,
        r is StartPrint ==> call_view(r).0 == 1020 && call_view(r).2 == 15,
        r is FileList ==> call_view(r).0 == 1044 && call_view(r).2 == 15,
        r is FileInfo ==> call_view(r).0 == 1046 && call_view(r).2 == 10,
        r is Thumbnail ==> call_view(r).0 == 1045 && call_view(r).2 == 10,
        r is PrintHistory ==> call_view(r) == (1036u16, None::<JsonView>, 10u64),
        r is CanvasRefresh ==> call_view(r).0 == 2005 && call_view(r).2 == 10,
        layout_view("smooth"@) == "B"@,
        forall|p: Seq<char>| p != "smooth"@ ==> layout_view(p) == "A"@,
{
}

/// The event a request logs once the printer accepted it.
pub open spec fn event_view(r: PrinterRequest) -> Option<(KindView, Seq<char>)> {
    match r {
        PrinterRequest::Pause => Some((KindView::CommandPause, "Print paused"@)),
        PrinterRequest::Resume => Some((KindView::CommandResume, "Print resumed"@)),
        PrinterRequest::Stop => Some((KindView::CommandStop, "Print stopped"@)),
        PrinterRequest::SetLed(on) => Some(
            (
                KindView::CommandLed,
                if on {
                    "LED on"@
                } else {
                    "LED off"@
                },
            ),
        ),
        PrinterRequest::SetFan(name, speed) => Some(
            (
                KindView::CommandFan,
                "Fan '"@ + name@ + "' \u{2192} "@ + digits(speed as nat, 10),
            ),
        ),
        PrinterRequest::SetSpeedMode(mode) => Some(
            (KindView::CommandSpeedMode, "Speed mode \u{2192} "@ + digits(mode as nat, 10)),
        ),
        PrinterRequest::StartPrint { filename, .. } => Some(
            (KindView::CommandStartPrint, "Start print: "@ + filename@),
        ),
        _ => None,
    }
}

pub open spec fn opt_event_view(e: Option<(EventKind, String)>) -> Option<(KindView, Seq<char>)> {
    match e {
        Some((k, d)) => Some((k@, d@)),
        None => None,
    }
}

fn int_json(i: i64) -> (r: Json)
    ensures
        jv(r) == int_view(i),
{
    if i >= 0 {
        Json::Number(JsonNumber::PosInt(i as u64))
    } else {
        Json::Number(JsonNumber::NegInt(i))
    }
}

fn object_of(entries: Vec<(String, Json)>) -> (r: Json)
    ensures
        jv(r) == JsonView::Object(entries_view(entries@)),
{
    proof {
        lemma_object_view(entries);
    }
    Json::Object(entries)
}

fn single(key: &str, v: Json) -> (r: Json)
    ensures
        jv(r) == obj1(key@, jv(v)),
{
    let mut e: Vec<(String, Json)> = Vec::new();
    e.push((key.to_owned(), v));
    let r = object_of(e);
    assert(entries_view(e@) =~= seq![(key@, jv(v))]);
    r
}

fn text_json(s: &str) -> (r: Json)
    ensures
        jv(r) == JsonView::Text(s@),
{
    Json::Text(s.to_owned())
}

fn file_params(storage_media: &str, file_name: &str) -> (r: Json)
    ensures
        jv(r) == file_params_view(storage_media@, file_name@),
{
    let mut e: Vec<(String, Json)> = Vec::new();
    e.push(("storage_media".to_owned(), text_json(storage_media)));
    e.push(("file_name".to_owned(), text_json(file_name)));
    let r = object_of(e);
    assert(entries_view(e@) =~= file_params_view(storage_media@, file_name@)->Object_0);
    r
}

fn start_params(
    filename: &str,
    storage_media: &str,
    plate: &str,
    tray_id: Option<i64>,
    tray_slot: Option<i64>,
    canvas_id: i64,
    timelapse: bool,
    bedlevel_force: bool,
) -> (r: Json)
    ensures
        jv(r) == start_params_view(
            filename@,
            storage_media@,
            plate@,
            tray_id,
            tray_slot,
            canvas_id,
            timelapse,
            bedlevel_force,
        ),
{
    let tray: i64 = match tray_id {
        Some(v) => v,
        None => 0,
    };
    let t: i64 = match tray_slot {
        Some(v) => v,
        None => 0,
    };
    let layout = if str_eq(plate, "smooth") {
        "B"
    } else {
        "A"
    };
    let mut slot: Vec<(String, Json)> = Vec::new();
    slot.push(("canvas_id".to_owned(), int_json(canvas_id)));
    slot.push(("t".to_owned(), int_json(t)));
    slot.push(("tray_id".to_owned(), int_json(tray)));
    let ghost slot_v = entries_view(slot@);
    let slot_obj = object_of(slot);
    let mut slots: Vec<Json> = Vec::new();
    slots.push(slot_obj);
    let ghost slots_v = slots@;
    let slot_map = Json::Array(slots);
    assert(jv(slot_map) == JsonView::Array(seq![jv(slots_v[0])])) by {
        assert(jv(slot_map)->Array_0 =~= seq![jv(slots_v[0])]);
    }
    let mut config: Vec<(String, Json)> = Vec::new();
    config.push(("bedlevel_force".to_owned(), Json::Bool(bedlevel_force)));
    config.push(("delay_video".to_owned(), Json::Bool(timelapse)));
    config.push(("print_layout".to_owned(), text_json(layout)));
    config.push(("printer_check".to_owned(), Json::Bool(true)));
    config.push(("slot_map".to_owned(), slot_map));
    let ghost config_v = entries_view(config@);
    let config_obj = object_of(config);
    let mut top: Vec<(String, Json)> = Vec::new();
    top.push(("filename".to_owned(), text_json(filename)));
    top.push(("storage_media".to_owned(), text_json(storage_media)));
    top.push(("config".to_owned(), config_obj));
    let ghost top_v = entries_view(top@);
    let r = object_of(top);
    let ghost want = start_params_view(
        filename@,
        storage_media@,
        plate@,
        tray_id,
        tray_slot,
        canvas_id,
        timelapse,
        bedlevel_force,
    );
    assert(slot_v =~= want->Object_0[2].1->Object_0[4].1->Array_0[0]->Object_0);
    assert(config_v =~= want->Object_0[2].1->Object_0);
    assert(top_v =~= want->Object_0);
    r
}

fn push_u8(s: &mut String, n: u8)
    ensures
        final(s)@ == old(s)@ + digits(n as nat, 10),
{
    push_digits(s, n as u64, 10);
}

impl PrinterRequest {
    /// How this request goes to the printer.
    pub fn plan(&self) -> (p: RequestPlan)
        ensures
            (p.method, opt_jv(p.params), p.timeout_secs) == call_view(*self),
            opt_event_view(p.event) == event_view(*self),
    {
        match self {
            PrinterRequest::Pause => RequestPlan {
                method: METHOD_PAUSE_PRINT,
                params: None,
                timeout_secs: 8,
                event: Some((EventKind::CommandPause, "Print paused".to_owned())),
            },
            PrinterRequest::Resume => RequestPlan {
                method: METHOD_RESUME_PRINT,
                params: None,
                timeout_secs: 8,
                event: Some((EventKind::CommandResume, "Print resumed".to_owned())),
            },
            PrinterRequest::Stop => RequestPlan {
                method: METHOD_STOP_PRINT,
                params: None,
                timeout_secs: 8,
                event: Some((EventKind::CommandStop, "Print stopped".to_owned())),
            },
            PrinterRequest::SetLed(on) => RequestPlan {
                method: METHOD_SET_LED,
                params: Some(single("power", int_json(if *on { 1 } else { 0 }))),
                timeout_secs: 5,
                event: Some(
                    (
                        EventKind::CommandLed,
                        if *on {
                            "LED on".to_owned()
                        } else {
                            "LED off".to_owned()
                        },
                    ),
                ),
            },
            PrinterRequest::SetFan(name, speed) => {
                let mut d = "Fan '".to_owned();
                push_str(&mut d, name.as_str());
                push_str(&mut d, "' \u{2192} ");
                push_u8(&mut d, *speed);
                RequestPlan {
                    method: METHOD_SET_FAN,
                    params: Some(single(name.as_str(), int_json(*speed as i64))),
                    timeout_secs: 5,
                    event: Some((EventKind::CommandFan, d)),
                }
            },
            PrinterRequest::SetSpeedMode(mode) => {
                let mut d = "Speed mode \u{2192} ".to_owned();
                push_u8(&mut d, *mode);
                RequestPlan {
                    method: METHOD_SET_SPEED_MODE,
                    params: Some(single("mode", int_json(*mode as i64))),
                    timeout_secs: 5,
                    event: Some((EventKind::CommandSpeedMode, d)),
                }
            },
            PrinterRequest::HomeAxes(axes) => RequestPlan {
                method: METHOD_HOME_AXES,
                params: Some(single("homed_axes", text_json(axes.as_str()))),
                timeout_secs: 15,
                event: None,
            },
            PrinterRequest::StartPrint {
                filename,
                storage_media,
                plate,
                tray_id,
                tray_slot,
                canvas_id,
                timelapse,
                bedlevel_force,
            } => {
                let mut d = "Start print: ".to_owned();
                push_str(&mut d, filename.as_str());
                RequestPlan {
                    method: METHOD_START_PRINT,
                    params: Some(
                        start_params(
                            filename.as_str(),
                            storage_media.as_str(),
                            plate.as_str(),
                            *tray_id,
                            *tray_slot,
                            *canvas_id,
                            *timelapse,
                            *bedlevel_force,
                        ),
                    ),
                    timeout_secs: 15,
                    event: Some((EventKind::CommandStartPrint, d)),
                }
            },
            PrinterRequest::SetAutoRefill(on) => RequestPlan {
                method: METHOD_SET_AMS_AUTO_REFILL,
                params: Some(single("auto_refill", Json::Bool(*on))),
                timeout_secs: 5,
                event: None,
            },
            PrinterRequest::FileList { storage, page_number, page_size } => {
                let mut e: Vec<(String, Json)> = Vec::new();
                e.push(("storage_media".to_owned(), text_json(storage.as_str())));
                e.push(("pageNumber".to_owned(), int_json(*page_number)));
                e.push(("pageSize".to_owned(), int_json(*page_size)));
                let ghost ev = entries_view(e@);
                let params = object_of(e);
                assert(ev =~= call_view(*self).1->0->Object_0);
                RequestPlan {
                    method: METHOD_GET_FILE_LIST,
                    params: Some(params),
                    timeout_secs: 15,
                    event: None,
                }
            },
            PrinterRequest::FileInfo { storage_media, file_name } => RequestPlan {
                method: METHOD_GET_FILE_INFO,
                params: Some(file_params(storage_media.as_str(), file_name.as_str())),
                timeout_secs: 10,
                event: None,
            },
            PrinterRequest::Thumbnail { storage_media, file_name } => RequestPlan {
                method: METHOD_GET_FILE_THUMBNAIL,
                params: Some(file_params(storage_media.as_str(), file_name.as_str())),
                timeout_secs: 10,
                event: None,
            },
            PrinterRequest::PrintHistory => RequestPlan {
                method: METHOD_GET_PRINT_HISTORY,
                params: None,
                timeout_secs: 10,
                event: None,
            },
            PrinterRequest::CanvasRefresh => {
                let e: Vec<(String, Json)> = Vec::new();
                let ghost ev = entries_view(e@);
                let params = object_of(e);
                assert(ev =~= Seq::empty());
                RequestPlan {
                    method: METHOD_GET_AMS_INFO,
                    params: Some(params),
                    timeout_secs: 10,
                    event: None,
                }
            },
        }
    }
}

/// Whether a request is a command, whose reply only tells whether the
/// printer carried it out, rather than a query, whose reply is the answer.
pub open spec fn is_command_view(r: PrinterRequest) -> bool {
    match r {
        PrinterRequest::FileList { .. } => false,
        PrinterRequest::FileInfo { .. } => false,
        PrinterRequest::Thumbnail { .. } => false,
        PrinterRequest::PrintHistory => false,
        PrinterRequest::CanvasRefresh => false,
        _ => true,
    }
}

impl PrinterRequest {
    /// Whether this request is a command, whose reply is checked for a
    /// nonzero error code and then dropped.
    pub fn is_command(&self) -> (b: bool)
        ensures
            b == is_command_view(*self),
    {
        match self {
            PrinterRequest::FileList { .. } => false,
            PrinterRequest::FileInfo { .. } => false,
            PrinterRequest::Thumbnail { .. } => false,
            PrinterRequest::PrintHistory => false,
            PrinterRequest::CanvasRefresh => false,
            _ => true,
        }
    }
}

impl PrinterState {
    /// Takes in whether the camera feed is up, and logs its loss or return.
    pub fn apply_camera(&mut self, connected: bool)
        requires
            old(self).events_total < u64::MAX,
        ensures
            final(self).camera_connected == connected,
            final(self).log() == log_add(
                old(self).log(),
                if connected {
                    event(KindView::CameraRestored, "Camera feed restored"@)
                } else {
                    event(KindView::CameraLost, "Camera feed lost"@)
                },
            ),
            final(self).machine_status == old(self).machine_status,
            final(self).print_status == old(self).print_status,
            final(self).connected == old(self).connected,
            final(self).prev_machine_phase == old(self).prev_machine_phase,
    {
        self.camera_connected = connected;
        if connected {
            self.add_event(EventKind::CameraRestored, "Camera feed restored".to_owned());
        } else {
            self.add_event(EventKind::CameraLost, "Camera feed lost".to_owned());
        }
    }

    /// Takes in the events read back from storage, oldest first, and how many
    /// were ever stored: the log holds them, and counts at least as many
    /// events as it holds. Nothing changes when storage holds nothing.
    pub fn restore_events(&mut self, past: Vec<PrinterEvent>, stored_total: u64)
        ensures
            past@.len() > 0 || stored_total > 0 ==> final(self).log() == (LogView {
                events: past@.map_values(|e: PrinterEvent| e@),
                total: if stored_total >= past@.len() {
                    stored_total as int
                } else {
                    past@.len() as int
                },
                outbox: old(self).log().outbox,
            }),
            !(past@.len() > 0 || stored_total > 0) ==> final(self).log() == old(self).log(),
            same_but_log(*old(self), *final(self)),
    {
        if past.len() == 0 && stored_total == 0 {
            return;
        }
        let n = past.len() as u64;
        let total = if stored_total >= n {
            stored_total
        } else {
            n
        };
        let mut events: VecDeque<PrinterEvent> = VecDeque::new();
        let mut i: usize = 0;
        while i < past.len()
            invariant
                i <= past@.len(),
                events@.len() == i,
                forall|k: int| 0 <= k < i ==> (#[trigger] events@[k])@ == past@[k]@,
            decreases past@.len() - i,
        {
            events.push_back(past[i].duplicate());
            i += 1;
        }
        assert(events@.map_values(|e: PrinterEvent| e@) =~= past@.map_values(|e: PrinterEvent| e@));
        self.events_total = total;
        self.events = events;
    }
}

impl PrinterState {
    /// Empties the kept events; the count of events ever logged stays.
    pub fn clear_events(&mut self)
        ensures
            final(self).log() == (LogView { events: Seq::empty(), ..old(self).log() }),
            same_but_log(*old(self), *final(self)),
    {
        self.events.clear();
        assert(self.events@.map_values(|e: PrinterEvent| e@) =~= Seq::<EventView>::empty());
    }
}

/// The requests that wait for the printer's reply, each under its id, with
/// what the reply is to be handed to.
pub struct PendingReplies<T> {
    waiting: HashMap<u64, T>,
}

impl<T> View for PendingReplies<T> {
    type V = Map<u64, T>;

    closed spec fn view(&self) -> Map<u64, T> {
        self.waiting@
    }
}

impl<T> PendingReplies<T> {
    /// No request waits.
    pub fn new() -> (p: PendingReplies<T>)
        ensures
            p@ == Map::<u64, T>::empty(),
    {
        PendingReplies { waiting: HashMap::new() }
    }

    /// How many requests wait.
    pub fn len(&self) -> (n: usize)
        ensures
            n == self@.len(),
    {
        broadcast use vstd::std_specs::hash::group_hash_axioms;

        self.waiting.len()
    }

    /// A request waits under `id`, in place of any earlier one under it.
    pub fn register(&mut self, id: u64, waiter: T)
        ensures
            final(self)@ == old(self)@.insert(id, waiter),
    {
        broadcast use vstd::std_specs::hash::group_hash_axioms;

        let _ = self.waiting.insert(id, waiter);
    }

    /// The reply with `id` came, or its request was given up: the waiter
    /// registered under the id, which no longer waits; none for an id under
    /// which nothing waits, and then nothing changes.
    pub fn take(&mut self, id: u64) -> (r: Option<T>)
        ensures
            final(self)@ == old(self)@.remove(id),
            old(self)@.contains_key(id) ==> r == Some(old(self)@[id]),
            !old(self)@.contains_key(id) ==> r is None && final(self)@ == old(self)@,
    {
        broadcast use vstd::std_specs::hash::group_hash_axioms;

        let r = self.waiting.remove(&id);
        proof {
            if !old(self)@.contains_key(id) {
                assert(old(self)@.remove(id) =~= old(self)@);
            }
        }
        r
    }

    /// The session ended: no request waits any longer.
    pub fn clear(&mut self)
        ensures
            final(self)@ == Map::<u64, T>::empty(),
    {
        self.waiting.clear();
    }
}

/// A reply goes to the waiter registered under its id, once: right after a
/// request registers, taking its id gives its waiter back and leaves the
/// other waiting requests as they were, and a second take of the id finds
/// nothing.
pub proof fn lemma_reply_reaches_waiter<T>(waiting: Map<u64, T>, id: u64, waiter: T)
    ensures
        waiting.insert(id, waiter).contains_key(id),
        waiting.insert(id, waiter)[id] == waiter,
        waiting.insert(id, waiter).remove(id) == waiting.remove(id),
        !waiting.insert(id, waiter).remove(id).contains_key(id),
{
    assert(waiting.insert(id, waiter).remove(id) =~= waiting.remove(id));
}

/// The id of the manager's first request; later ones count up from it.
pub const FIRST_RPC_ID: u64 = 10000;

/// How waiting for the printer's reply to a request ended.
pub enum RpcWait {
    /// The request could not be handed to a session.
    NotSent,
    /// The reply came.
    Replied(Json),
    /// The session ended before the reply came.
    SenderDropped,
    /// No reply came in time.
    TimedOut,
}

/// The outcome of a request: the reply, or why there is none.
pub fn rpc_outcome(w: RpcWait) -> (r: Result<Json, PrinterError>)
    ensures
        match w {
            RpcWait::Replied(j) => r matches Ok(v) && jv(v) == jv(j),
            RpcWait::TimedOut => r matches Err(PrinterError::RpcTimeout),
            _ => r matches Err(PrinterError::NotConnected),
        },
{
    match w {
        RpcWait::Replied(j) => Ok(j),
        RpcWait::TimedOut => Err(PrinterError::RpcTimeout),
        _ => Err(PrinterError::NotConnected),
    }
}

} // verus!
