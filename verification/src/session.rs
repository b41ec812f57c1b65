//! The decisions of one MQTT-over-WebSocket session with the printer: the
//! topics it uses, the requests it publishes, and what it does with each
//! heartbeat, command and message. The caller owns the socket and the clock;
//! it hands each event to the session and publishes what comes back.

use vstd::prelude::*;

use crate::json::{
    Json, JsonNumber, JsonView, NumberView, entries_view, entry_view, field_view, jv, key_index,
    lemma_key_index, lemma_object_view, lookup,
};
use crate::models::{
    METHOD_GET_AMS_INFO, METHOD_GET_FILE_LIST, METHOD_GET_FILE_THUMBNAIL, METHOD_GET_FULL_STATUS,
    METHOD_STATUS_PUSH,
};
use crate::error::PrinterError;
use crate::text::{push_str, str_eq};

verus! {

/// How many commands wait for the registration to complete; later ones are dropped.
pub const PRE_REGISTRATION_CAP: usize = 4;

/// After this long without a status push, each heartbeat asks for a full status.
pub const STATUS_QUIET_MS: u64 = 60000;

/// A thumbnail is asked for again at most this often.
pub const THUMBNAIL_RETRY_MS: u64 = 30000;

/// The id of the session's first own request.
pub const FIRST_REQUEST_ID: u64 = 70;

/// A request for the printer, as handed to the session by the rest of the program.
#[derive(Debug)]
pub struct Command {
    pub id: u64,
    pub method: u16,
    pub params: Option<Json>,
}

pub open spec fn opt_jv(p: Option<Json>) -> Option<JsonView> {
    match p {
        Some(j) => Some(jv(j)),
        None => None,
    }
}

/// The request object `{"id", "method"}`, with `"params"` when there are any.
pub open spec fn request_view(id: u64, method: u16, params: Option<JsonView>) -> JsonView {
    JsonView::Object(
        seq![
            ("id"@, JsonView::Number(NumberView::PosInt(id))),
            ("method"@, JsonView::Number(NumberView::PosInt(method as u64))),
        ] + match params {
            Some(p) => seq![("params"@, p)],
            None => Seq::empty(),
        },
    )
}

/// The heartbeat `{"type": "PING"}`.
pub open spec fn ping_view() -> JsonView {
    JsonView::Object(seq![("type"@, JsonView::Text("PING"@))])
}

/// The registration `{"client_id": id, "request_id": id + "_req"}`.
pub open spec fn registration_view(client_id: Seq<char>) -> JsonView {
    JsonView::Object(
        seq![
            ("client_id"@, JsonView::Text(client_id)),
            ("request_id"@, JsonView::Text(client_id + "_req"@)),
        ],
    )
}

/// The parameters of the file-list request sent on registration.
pub open spec fn file_list_params_view() -> JsonView {
    JsonView::Object(
        seq![
            ("storage_media"@, JsonView::Text("local"@)),
            ("pageNumber"@, JsonView::Number(NumberView::PosInt(1))),
            ("pageSize"@, JsonView::Number(NumberView::PosInt(50))),
        ],
    )
}

/// The parameters of a thumbnail request.
pub open spec fn thumbnail_params_view(file_name: Seq<char>) -> JsonView {
    JsonView::Object(
        seq![
            ("storage_media"@, JsonView::Text("local"@)),
            ("file_name"@, JsonView::Text(file_name)),
        ],
    )
}

fn text(s: &str) -> (r: Json)
    ensures
        jv(r) == JsonView::Text(s@),
{
    Json::Text(s.to_owned())
}

fn uint(n: u64) -> (r: Json)
    ensures
        jv(r) == JsonView::Number(NumberView::PosInt(n)),
{
    Json::Number(JsonNumber::PosInt(n))
}

fn entry(k: &str, v: Json) -> (r: (String, Json))
    ensures
        r.0@ == k@,
        r.1 == v,
{
    (k.to_owned(), v)
}

fn object(entries: Vec<(String, Json)>) -> (r: Json)
    ensures
        jv(r) == JsonView::Object(entries_view(entries@)),
{
    proof {
        lemma_object_view(entries);
    }
    Json::Object(entries)
}

/// The request that carries a command.
pub fn request(id: u64, method: u16, params: Option<Json>) -> (r: Json)
    ensures
        jv(r) == request_view(id, method, opt_jv(params)),
{
    let ghost p = opt_jv(params);
    let mut v: Vec<(String, Json)> = Vec::new();
    v.push(entry("id", uint(id)));
    v.push(entry("method", uint(method as u64)));
    match params {
        Some(p) => {
            v.push(entry("params", p));
        },
        None => {},
    }
    let r = object(v);
    assert(entries_view(v@) =~= request_view(id, method, p)->Object_0);
    r
}

/// The heartbeat message.
pub fn ping() -> (r: Json)
    ensures
        jv(r) == ping_view(),
{
    let mut v: Vec<(String, Json)> = Vec::new();
    v.push(entry("type", text("PING")));
    let r = object(v);
    assert(entries_view(v@) =~= ping_view()->Object_0);
    r
}

/// The registration message of a client.
pub fn registration(client_id: &str) -> (r: Json)
    ensures
        jv(r) == registration_view(client_id@),
{
    let mut request_id = client_id.to_owned();
    push_str(&mut request_id, "_req");
    let mut v: Vec<(String, Json)> = Vec::new();
    v.push(entry("client_id", text(client_id)));
    v.push(entry("request_id", Json::Text(request_id)));
    let r = object(v);
    assert(entries_view(v@) =~= registration_view(client_id@)->Object_0);
    r
}

fn file_list_params() -> (r: Json)
    ensures
        jv(r) == file_list_params_view(),
{
    let mut v: Vec<(String, Json)> = Vec::new();
    v.push(entry("storage_media", text("local")));
    v.push(entry("pageNumber", uint(1)));
    v.push(entry("pageSize", uint(50)));
    let r = object(v);
    assert(entries_view(v@) =~= file_list_params_view()->Object_0);
    r
}

fn thumbnail_params(file_name: &str) -> (r: Json)
    ensures
        jv(r) == thumbnail_params_view(file_name@),
{
    let mut v: Vec<(String, Json)> = Vec::new();
    v.push(entry("storage_media", text("local")));
    v.push(entry("file_name", text(file_name)));
    let r = object(v);
    assert(entries_view(v@) =~= thumbnail_params_view(file_name@)->Object_0);
    r
}

fn empty_object() -> (r: Json)
    ensures
        jv(r) == JsonView::Object(Seq::empty()),
{
    let v: Vec<(String, Json)> = Vec::new();
    let r = object(v);
    assert(entries_view(v@) =~= Seq::empty());
    r
}

/// The five topics of a session.
pub struct SessionTopics {
    /// Replies to this client's requests.
    pub api_response: String,
    /// Status pushes and heartbeats from the printer.
    pub api_status: String,
    /// Where this client publishes its requests.
    pub api_request: String,
    /// The reply to this client's registration.
    pub register_response: String,
    /// Where this client publishes its registration.
    pub api_register: String,
}

/// `elegoo/<printer>/` followed by a tail.
pub open spec fn topic_view(printer_id: Seq<char>, tail: Seq<char>) -> Seq<char> {
    "elegoo/"@ + printer_id + "/"@ + tail
}

/// The topics of a session between a printer and a client.
pub fn session_topics(printer_id: &str, client_id: &str) -> (t: SessionTopics)
    ensures
        t.api_response@ == topic_view(printer_id@, client_id@ + "/api_response"@),
        t.api_status@ == topic_view(printer_id@, "api_status"@),
        t.api_request@ == topic_view(printer_id@, client_id@ + "/api_request"@),
        t.register_response@ == topic_view(printer_id@, client_id@ + "_req/register_response"@),
        t.api_register@ == topic_view(printer_id@, "api_register"@),
{
    let mut base = "elegoo/".to_owned();
    push_str(&mut base, printer_id);
    push_str(&mut base, "/");
    let mut api_response = base.clone();
    push_str(&mut api_response, client_id);
    push_str(&mut api_response, "/api_response");
    let mut api_status = base.clone();
    push_str(&mut api_status, "api_status");
    let mut api_request = base.clone();
    push_str(&mut api_request, client_id);
    push_str(&mut api_request, "/api_request");
    let mut register_response = base.clone();
    push_str(&mut register_response, client_id);
    push_str(&mut register_response, "_req/register_response");
    let mut api_register = base;
    push_str(&mut api_register, "api_register");
    assert(api_response@ =~= topic_view(printer_id@, client_id@ + "/api_response"@));
    assert(api_request@ =~= topic_view(printer_id@, client_id@ + "/api_request"@));
    assert(register_response@ =~= topic_view(printer_id@, client_id@ + "_req/register_response"@));
    SessionTopics { api_response, api_status, api_request, register_response, api_register }
}

pub open spec fn opt_str(o: Option<String>) -> Option<Seq<char>> {
    match o {
        Some(s) => Some(s@),
        None => None,
    }
}

/// The queue of a session that has not registered after each of `cmds`
/// came in turn, as `on_command` keeps it.
pub open spec fn queued_after(q: Seq<Command>, cmds: Seq<Command>) -> Seq<Command>
    decreases cmds.len(),
{
    if cmds.len() == 0 {
        q
    } else {
        let before = queued_after(q, cmds.drop_last());
        if before.len() < PRE_REGISTRATION_CAP {
            before.push(cmds.last())
        } else {
            before
        }
    }
}

/// Of the commands that come before the registration, a fresh session keeps
/// the first four, in the order they came, and drops the rest; once the
/// registration is accepted, `on_register_reply` sends exactly those.
pub proof fn lemma_first_commands_kept(cmds: Seq<Command>)
    ensures
        queued_after(Seq::empty(), cmds) == cmds.take(
            if cmds.len() < PRE_REGISTRATION_CAP {
                cmds.len() as int
            } else {
                PRE_REGISTRATION_CAP as int
            },
        ),
    decreases cmds.len(),
{
    if cmds.len() > 0 {
        let p = cmds.drop_last();
        lemma_first_commands_kept(p);
        if p.len() < PRE_REGISTRATION_CAP {
            assert(p.take(p.len() as int) =~= p);
            assert(p.push(cmds.last()) =~= cmds.take(cmds.len() as int));
        } else {
            assert(p.take(PRE_REGISTRATION_CAP as int) =~= cmds.take(PRE_REGISTRATION_CAP as int));
        }
    } else {
        assert(cmds.take(0) =~= Seq::<Command>::empty());
    }
}

/// What a message on the status topic is.
#[derive(Debug, Clone, Copy, PartialEq, Eq, Structural)]
pub enum StatusKind {
    /// A `PING` or `PONG` heartbeat.
    Heartbeat,
    /// A status push, whose `result` is merged into the printer state.
    Push,
    /// Anything else.
    Other,
}

/// The state of a session between events.
pub struct WsSession {
    /// Whether the printer accepted the registration.
    pub registered: bool,
    /// The id of the session's next own request.
    pub next_id: u64,
    /// Commands that came before the registration, oldest first.
    pub queue: Vec<Command>,
    /// When the last status push came, in milliseconds of the caller's clock.
    pub last_status_push_ms: u64,
    /// The file whose thumbnail was last asked for.
    pub pending_thumb: Option<String>,
    /// When that thumbnail was last asked for.
    pub last_thumb_request_ms: Option<u64>,
}

/// Whether a status push is overdue at `now`.
pub open spec fn status_quiet(last_ms: u64, now_ms: u64) -> bool {
    now_ms >= last_ms + STATUS_QUIET_MS
}

/// Whether a thumbnail may be asked for again at `now`.
pub open spec fn thumbnail_due(last_ms: Option<u64>, now_ms: u64) -> bool {
    match last_ms {
        Some(t) => now_ms >= t + THUMBNAIL_RETRY_MS,
        None => true,
    }
}

/// Whether a registration reply is `{"error": "ok", ...}`.
pub open spec fn accepted_view(reply: JsonView) -> bool {
    match reply {
        JsonView::Object(e) => lookup(e, "error"@) == Some(JsonView::Text("ok"@)),
        _ => false,
    }
}

/// The kind of a message on the status topic.
pub open spec fn status_kind_view(msg: JsonView) -> StatusKind {
    match msg {
        JsonView::Object(e) => if lookup(e, "type"@) == Some(JsonView::Text("PING"@)) || lookup(
            e,
            "type"@,
        ) == Some(JsonView::Text("PONG"@)) {
            StatusKind::Heartbeat
        } else if is_push_view(msg) {
            StatusKind::Push
        } else {
            StatusKind::Other
        },
        _ => StatusKind::Other,
    }
}

/// Whether a message carries the status-push method.
pub open spec fn is_push_view(msg: JsonView) -> bool {
    match msg {
        JsonView::Object(e) => lookup(e, "method"@) == Some(
            JsonView::Number(NumberView::PosInt(METHOD_STATUS_PUSH as u64)),
        ),
        _ => false,
    }
}

fn field_is_text(msg: &Json, key: &str, expected: &str) -> (r: bool)
    ensures
        r == match jv(*msg) {
            JsonView::Object(e) => lookup(e, key@) == Some(JsonView::Text(expected@)),
            _ => false,
        },
{
    match msg.get(key) {
        Some(v) => match v {
            Json::Text(t) => str_eq(t.as_str(), expected),
            _ => false,
        },
        None => false,
    }
}

fn field_is_uint(msg: &Json, key: &str, expected: u64) -> (r: bool)
    ensures
        r == match jv(*msg) {
            JsonView::Object(e) => lookup(e, key@) == Some(
                JsonView::Number(NumberView::PosInt(expected)),
            ),
            _ => false,
        },
{
    match msg.get(key) {
        Some(v) => match v {
            Json::Number(JsonNumber::PosInt(n)) => *n == expected,
            _ => false,
        },
        None => false,
    }
}

fn clone_opt(p: &Option<Json>) -> (r: Option<Json>)
    ensures
        opt_jv(r) == opt_jv(*p),
{
    match p {
        Some(j) => Some(crate::json::clone_json(j)),
        None => None,
    }
}

/// Whether the printer accepted a registration.
pub fn register_accepted(reply: &Json) -> (r: bool)
    ensures
        r == accepted_view(jv(*reply)),
{
    field_is_text(reply, "error", "ok")
}

/// What a message on the status topic is.
pub fn classify_status(msg: &Json) -> (k: StatusKind)
    ensures
        k == status_kind_view(jv(*msg)),
{
    if field_is_text(msg, "type", "PING") || field_is_text(msg, "type", "PONG") {
        StatusKind::Heartbeat
    } else if field_is_uint(msg, "method", METHOD_STATUS_PUSH as u64) {
        StatusKind::Push
    } else {
        StatusKind::Other
    }
}

impl WsSession {
    /// A session that has not registered yet, started at `now_ms`.
    pub fn new(now_ms: u64) -> (s: WsSession)
        ensures
            !s.registered,
            s.next_id == FIRST_REQUEST_ID,
            s.queue@.len() == 0,
            s.last_status_push_ms == now_ms,
            s.pending_thumb is None,
            s.last_thumb_request_ms is None,
    {
        WsSession {
            registered: false,
            next_id: FIRST_REQUEST_ID,
            queue: Vec::new(),
            last_status_push_ms: now_ms,
            pending_thumb: None,
            last_thumb_request_ms: None,
        }
    }

    fn take_id(&mut self) -> (id: u64)
        requires
            old(self).next_id < u64::MAX,
        ensures
            id == old(self).next_id,
            final(self).next_id == old(self).next_id + 1,
            final(self).registered == old(self).registered,
            final(self).queue == old(self).queue,
            final(self).last_status_push_ms == old(self).last_status_push_ms,
            final(self).pending_thumb == old(self).pending_thumb,
            final(self).last_thumb_request_ms == old(self).last_thumb_request_ms,
    {
        let id = self.next_id;
        self.next_id = id + 1;
        id
    }

    /// The heartbeat: once registered, a `PING`, and a full-status request
    /// while status pushes have been quiet for too long.
    pub fn on_heartbeat(&mut self, now_ms: u64) -> (out: Vec<Json>)
        requires
            old(self).next_id < u64::MAX,
        ensures
            !old(self).registered ==> out@.len() == 0 && final(self).next_id == old(self).next_id,
            old(self).registered ==> out@.len() >= 1 && jv(out@[0]) == ping_view(),
            old(self).registered && status_quiet(old(self).last_status_push_ms, now_ms) ==> out@.len()
                == 2 && jv(out@[1]) == request_view(old(self).next_id, METHOD_GET_FULL_STATUS, None)
                && final(self).next_id == old(self).next_id + 1,
            old(self).registered && !status_quiet(old(self).last_status_push_ms, now_ms) ==> out@.len()
                == 1 && final(self).next_id == old(self).next_id,
            final(self).registered == old(self).registered,
            final(self).queue == old(self).queue,
            final(self).last_status_push_ms == old(self).last_status_push_ms,
            final(self).pending_thumb == old(self).pending_thumb,
            final(self).last_thumb_request_ms == old(self).last_thumb_request_ms,
    {
        let mut out: Vec<Json> = Vec::new();
        if self.registered {
            out.push(ping());
            if now_ms >= self.last_status_push_ms && now_ms - self.last_status_push_ms
                >= STATUS_QUIET_MS {
                let id = self.take_id();
                out.push(request(id, METHOD_GET_FULL_STATUS, None));
            }
        }
        out
    }

    /// A command: sent at once when registered, else queued while the queue
    /// has room and dropped when it has none.
    pub fn on_command(&mut self, cmd: Command) -> (out: Option<Json>)
        ensures
            old(self).registered ==> out is Some && jv(out->0) == request_view(
                cmd.id,
                cmd.method,
                opt_jv(cmd.params),
            ) && final(self).queue@ == old(self).queue@,
            !old(self).registered ==> out is None && final(self).queue@ == if old(self).queue@.len()
                < PRE_REGISTRATION_CAP {
                old(self).queue@.push(cmd)
            } else {
                old(self).queue@
            },
            final(self).registered == old(self).registered,
            final(self).next_id == old(self).next_id,
            final(self).last_status_push_ms == old(self).last_status_push_ms,
            final(self).pending_thumb == old(self).pending_thumb,
            final(self).last_thumb_request_ms == old(self).last_thumb_request_ms,
    {
        if self.registered {
            Some(request(cmd.id, cmd.method, cmd.params))
        } else {
            if self.queue.len() < PRE_REGISTRATION_CAP {
                self.queue.push(cmd);
            }
            None
        }
    }

    /// A registration reply. When the printer accepted, the session is
    /// registered and sends, in order: a full-status request, an AMS-info
    /// request, a file-list request, and every queued command; the queue is
    /// then empty. Otherwise the session ends with "registration rejected".
    pub fn on_register_reply(&mut self, reply: &Json) -> (r: Result<Vec<Json>, PrinterError>)
        requires
            old(self).next_id <= u64::MAX - 3,
        ensures
            accepted_view(jv(*reply)) ==> r is Ok && final(self).registered && final(self).queue@.len()
                == 0 && final(self).next_id == old(self).next_id + 3,
            accepted_view(jv(*reply)) ==> ({
                let out = r->Ok_0@;
                let id = old(self).next_id;
                let q = old(self).queue@;
                &&& out.len() == 3 + q.len()
                &&& jv(out[0]) == request_view(id, METHOD_GET_FULL_STATUS, None)
                &&& jv(out[1]) == request_view(
                    (id + 1) as u64,
                    METHOD_GET_AMS_INFO,
                    Some(JsonView::Object(Seq::empty())),
                )
                &&& jv(out[2]) == request_view(
                    (id + 2) as u64,
                    METHOD_GET_FILE_LIST,
                    Some(file_list_params_view()),
                )
                &&& forall|x: int|
                    0 <= x < q.len() ==> jv(#[trigger] out[3 + x]) == request_view(
                        q[x].id,
                        q[x].method,
                        opt_jv(q[x].params),
                    )
            }),
            !accepted_view(jv(*reply)) ==> (r matches Err(PrinterError::WebSocket(m)) && m@
                == "registration rejected"@) && final(self).registered == old(self).registered && final(self).queue == old(
                self,
            ).queue && final(self).next_id == old(self).next_id,
            final(self).last_status_push_ms == old(self).last_status_push_ms,
            final(self).pending_thumb == old(self).pending_thumb,
            final(self).last_thumb_request_ms == old(self).last_thumb_request_ms,
    {
        if !register_accepted(reply) {
            return Err(PrinterError::WebSocket("registration rejected".to_owned()));
        }
        self.registered = true;
        let mut out: Vec<Json> = Vec::new();
        let id0 = self.take_id();
        out.push(request(id0, METHOD_GET_FULL_STATUS, None));
        let id1 = self.take_id();
        out.push(request(id1, METHOD_GET_AMS_INFO, Some(empty_object())));
        let id2 = self.take_id();
        out.push(request(id2, METHOD_GET_FILE_LIST, Some(file_list_params())));
        let mut queued: Vec<Command> = Vec::new();
        std::mem::swap(&mut queued, &mut self.queue);
        let ghost q = queued@;
        let mut i: usize = 0;
        while i < queued.len()
            invariant
                q == queued@,
                i <= q.len(),
                out@.len() == 3 + i,
                jv(out@[0]) == request_view(id0, METHOD_GET_FULL_STATUS, None),
                jv(out@[1]) == request_view(
                    id1,
                    METHOD_GET_AMS_INFO,
                    Some(JsonView::Object(Seq::empty())),
                ),
                jv(out@[2]) == request_view(id2, METHOD_GET_FILE_LIST, Some(file_list_params_view())),
                forall|x: int|
                    0 <= x < i ==> jv(#[trigger] out@[3 + x]) == request_view(
                        q[x].id,
                        q[x].method,
                        opt_jv(q[x].params),
                    ),
            decreases q.len() - i,
        {
            let c = &queued[i];
            out.push(request(c.id, c.method, clone_opt(&c.params)));
            i += 1;
        }
        Ok(out)
    }

    /// A message on the status topic: a status push is noted as the last one.
    pub fn on_status_message(&mut self, msg: &Json, now_ms: u64) -> (k: StatusKind)
        ensures
            k == status_kind_view(jv(*msg)),
            final(self).last_status_push_ms == if is_push_view(jv(*msg)) {
                now_ms
            } else {
                old(self).last_status_push_ms
            },
            final(self).registered == old(self).registered,
            final(self).next_id == old(self).next_id,
            final(self).queue == old(self).queue,
            final(self).pending_thumb == old(self).pending_thumb,
            final(self).last_thumb_request_ms == old(self).last_thumb_request_ms,
    {
        if field_is_uint(msg, "method", METHOD_STATUS_PUSH as u64) {
            self.last_status_push_ms = now_ms;
        }
        classify_status(msg)
    }

    /// After a status message: while a print is active and the current file
    /// has no cached thumbnail, ask for it, at most once per retry interval;
    /// a new file starts its interval afresh.
    pub fn thumbnail_request(&mut self, file_name: &str, is_active: bool, cached: bool, now_ms: u64) -> (out:
        Option<Json>)
        requires
            old(self).next_id < u64::MAX,
        ensures
            !(is_active && file_name@.len() > 0 && !cached) ==> out is None && final(self).next_id
                == old(self).next_id && final(self).pending_thumb == old(self).pending_thumb
                && final(self).last_thumb_request_ms == old(self).last_thumb_request_ms,
            is_active && file_name@.len() > 0 && !cached ==> ({
                let last = if opt_str(old(self).pending_thumb) == Some(file_name@) {
                    old(self).last_thumb_request_ms
                } else {
                    None
                };
                &&& opt_str(final(self).pending_thumb) == Some(file_name@)
                &&& thumbnail_due(last, now_ms) ==> out is Some && jv(out->0) == request_view(
                    old(self).next_id,
                    METHOD_GET_FILE_THUMBNAIL,
                    Some(thumbnail_params_view(file_name@)),
                ) && final(self).next_id == old(self).next_id + 1
                    && final(self).last_thumb_request_ms == Some(now_ms)
                &&& !thumbnail_due(last, now_ms) ==> out is None && final(self).next_id == old(
                    self,
                ).next_id && final(self).last_thumb_request_ms == last
            }),
            final(self).registered == old(self).registered,
            final(self).queue == old(self).queue,
            final(self).last_status_push_ms == old(self).last_status_push_ms,
    {
        if !(is_active && !file_name.is_empty() && !cached) {
            return None;
        }
        let same = match &self.pending_thumb {
            Some(p) => str_eq(p.as_str(), file_name),
            None => false,
        };
        if !same {
            self.pending_thumb = Some(file_name.to_owned());
            self.last_thumb_request_ms = None;
        }
        let due = match self.last_thumb_request_ms {
            Some(t) => now_ms >= t && now_ms - t >= THUMBNAIL_RETRY_MS,
            None => true,
        };
        if due {
            self.last_thumb_request_ms = Some(now_ms);
            let id = self.take_id();
            Some(request(id, METHOD_GET_FILE_THUMBNAIL, Some(thumbnail_params(file_name))))
        } else {
            None
        }
    }

    /// After a full status was loaded: while a print is active and the
    /// current file has no cached thumbnail, ask for it at once.
    pub fn thumbnail_after_seed(&mut self, file_name: &str, is_active: bool, cached: bool, now_ms: u64) -> (out:
        Option<Json>)
        requires
            old(self).next_id < u64::MAX,
        ensures
            !(is_active && file_name@.len() > 0 && !cached) ==> out is None && final(self).next_id
                == old(self).next_id && final(self).pending_thumb == old(self).pending_thumb
                && final(self).last_thumb_request_ms == old(self).last_thumb_request_ms,
            is_active && file_name@.len() > 0 && !cached ==> out is Some && jv(out->0)
                == request_view(
                old(self).next_id,
                METHOD_GET_FILE_THUMBNAIL,
                Some(thumbnail_params_view(file_name@)),
            ) && final(self).next_id == old(self).next_id + 1 && opt_str(final(self).pending_thumb)
                == Some(file_name@) && final(self).last_thumb_request_ms == Some(now_ms),
            final(self).registered == old(self).registered,
            final(self).queue == old(self).queue,
            final(self).last_status_push_ms == old(self).last_status_push_ms,
    {
        if !(is_active && !file_name.is_empty() && !cached) {
            return None;
        }
        self.pending_thumb = Some(file_name.to_owned());
        self.last_thumb_request_ms = Some(now_ms);
        let id = self.take_id();
        Some(request(id, METHOD_GET_FILE_THUMBNAIL, Some(thumbnail_params(file_name))))
    }

    /// The file a thumbnail reply belongs to: the one asked for, when there
    /// is one, else the current file.
    pub fn thumbnail_file(&self, current: &str) -> (f: String)
        ensures
            f@ == match opt_str(self.pending_thumb) {
                Some(p) => if p.len() > 0 {
                    p
                } else {
                    current@
                },
                None => current@,
            },
    {
        match &self.pending_thumb {
            Some(p) => if !p.as_str().is_empty() {
                p.clone()
            } else {
                current.to_owned()
            },
            None => current.to_owned(),
        }
    }
}

/// The value handed to the caller waiting on a reply: the reply's data with
/// its `error_code` added when it is an object that lacks one, else an
/// object `{"error_code", "value"}` around it.
pub open spec fn reply_view(data: JsonView, error_code: u16) -> JsonView {
    match data {
        JsonView::Object(e) => if key_index(e, "error_code"@) >= 0 {
            data
        } else {
            JsonView::Object(
                e.push(("error_code"@, JsonView::Number(NumberView::PosInt(error_code as u64)))),
            )
        },
        _ => JsonView::Object(
            seq![
                ("error_code"@, JsonView::Number(NumberView::PosInt(error_code as u64))),
                ("value"@, data),
            ],
        ),
    }
}

/// The value for the caller that waits on a reply.
pub fn rpc_reply_payload(data: Json, error_code: u16) -> (r: Json)
    ensures
        jv(r) == reply_view(jv(data), error_code),
{
    let ghost d = jv(data);
    let present = data.get("error_code").is_some();
    match data {
        Json::Object(mut e) => {
            proof {
                lemma_object_view(e);
                lemma_key_index(entries_view(e@), "error_code"@);
            }
            if !present {
                let ghost e0 = e@;
                e.push(entry("error_code", uint(error_code as u64)));
                assert(entries_view(e@) =~= entries_view(e0).push(
                    ("error_code"@, JsonView::Number(NumberView::PosInt(error_code as u64))),
                ));
            }
            object(e)
        },
        other => {
            let mut v: Vec<(String, Json)> = Vec::new();
            v.push(entry("error_code", uint(error_code as u64)));
            v.push(entry("value", other));
            let r = object(v);
            assert(entries_view(v@) =~= reply_view(d, error_code)->Object_0);
            r
        },
    }
}

/// What to do with a reply on the response topic.
#[derive(Debug)]
pub enum ResponseAction {
    /// Load the data as the full status.
    SeedFullStatus,
    /// Cache this thumbnail for the file it was asked for.
    CacheThumbnail(String),
    /// The thumbnail reply was empty; the retry interval stays.
    EmptyThumbnail,
    /// Replace the cached file list with the data's `file_list`.
    ReplaceFileList,
    /// The printer sent an empty file list, as it does while busy; keep the cached one.
    KeepFileList,
    /// Store the data's `canvas_info`.
    LoadCanvasInfo,
    /// Nothing to do.
    Ignore,
}

pub enum ResponseActionView {
    SeedFullStatus,
    CacheThumbnail(Seq<char>),
    EmptyThumbnail,
    ReplaceFileList,
    KeepFileList,
    LoadCanvasInfo,
    Ignore,
}

pub open spec fn action_view(a: ResponseAction) -> ResponseActionView {
    match a {
        ResponseAction::SeedFullStatus => ResponseActionView::SeedFullStatus,
        ResponseAction::CacheThumbnail(s) => ResponseActionView::CacheThumbnail(s@),
        ResponseAction::EmptyThumbnail => ResponseActionView::EmptyThumbnail,
        ResponseAction::ReplaceFileList => ResponseActionView::ReplaceFileList,
        ResponseAction::KeepFileList => ResponseActionView::KeepFileList,
        ResponseAction::LoadCanvasInfo => ResponseActionView::LoadCanvasInfo,
        ResponseAction::Ignore => ResponseActionView::Ignore,
    }
}

/// What a reply with this method, error code and data calls for.
pub open spec fn response_action_view(method: u16, error_code: u16, data: JsonView) -> ResponseActionView {
    if method == METHOD_GET_FULL_STATUS && error_code == 0 {
        ResponseActionView::SeedFullStatus
    } else if method == METHOD_GET_FILE_THUMBNAIL {
        match field_view(data, "thumbnail"@) {
            Some(JsonView::Text(t)) => if t.len() > 0 {
                ResponseActionView::CacheThumbnail(t)
            } else {
                ResponseActionView::EmptyThumbnail
            },
            _ => ResponseActionView::EmptyThumbnail,
        }
    } else if method == METHOD_GET_FILE_LIST && error_code == 0 {
        match field_view(data, "file_list"@) {
            Some(JsonView::Array(a)) => if a.len() > 0 {
                ResponseActionView::ReplaceFileList
            } else {
                ResponseActionView::KeepFileList
            },
            _ => ResponseActionView::Ignore,
        }
    } else if method == METHOD_GET_AMS_INFO && error_code == 0 {
        if field_view(data, "canvas_info"@) is Some {
            ResponseActionView::LoadCanvasInfo
        } else {
            ResponseActionView::Ignore
        }
    } else {
        ResponseActionView::Ignore
    }
}

/// What to do with a reply on the response topic.
pub fn response_action(method: u16, error_code: u16, data: &Json) -> (a: ResponseAction)
    ensures
        action_view(a) == response_action_view(method, error_code, jv(*data)),
{
    if method == METHOD_GET_FULL_STATUS && error_code == 0 {
        ResponseAction::SeedFullStatus
    } else if method == METHOD_GET_FILE_THUMBNAIL {
        match data.get("thumbnail") {
            Some(Json::Text(t)) => if !t.as_str().is_empty() {
                ResponseAction::CacheThumbnail(t.clone())
            } else {
                ResponseAction::EmptyThumbnail
            },
            _ => ResponseAction::EmptyThumbnail,
        }
    } else if method == METHOD_GET_FILE_LIST && error_code == 0 {
        match data.get("file_list") {
            Some(Json::Array(a)) => if a.len() > 0 {
                ResponseAction::ReplaceFileList
            } else {
                ResponseAction::KeepFileList
            },
            _ => ResponseAction::Ignore,
        }
    } else if method == METHOD_GET_AMS_INFO && error_code == 0 {
        if data.get("canvas_info").is_some() {
            ResponseAction::LoadCanvasInfo
        } else {
            ResponseAction::Ignore
        }
    } else {
        ResponseAction::Ignore
    }
}

} // verus!
