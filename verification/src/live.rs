//! What the live view's socket sends: state snapshots, debounced, and
//! events as they happen, and answers to its pings.

use vstd::prelude::*;

use crate::json::{Json, JsonNumber, JsonView, NumberView, entries_view, field_view, jv, lemma_object_view};
use crate::notify::{event_kind_str, live_name_view};
use crate::state::EventKind;

verus! {

/// How long the live view waits for more changes before it sends a state.
pub const DEBOUNCE_MS: u64 = 200;

/// How often the live view sends a state when nothing changes.
pub const FALLBACK_SECS: u64 = 30;

/// An event as the live view shows it.
pub open spec fn entry_view(kind: Seq<char>, description: Seq<char>, ts: u64) -> JsonView {
    JsonView::Object(
        seq![
            ("kind"@, JsonView::Text(kind)),
            ("description"@, JsonView::Text(description)),
            ("ts"@, JsonView::Number(NumberView::PosInt(ts))),
        ],
    )
}

fn object_of(entries: Vec<(String, Json)>) -> (r: Json)
    ensures
        jv(r) == JsonView::Object(entries_view(entries@)),
{
    proof {
        lemma_object_view(entries);
    }
    Json::Object(entries)
}

/// An event as the live view shows it: its kind's name, its description
/// and its time in Unix seconds.
pub fn event_entry(kind: &EventKind, description: &str, ts: u64) -> (r: Json)
    ensures
        jv(r) == entry_view(live_name_view(kind@), description@, ts),
{
    let mut e: Vec<(String, Json)> = Vec::new();
    e.push(("kind".to_owned(), Json::Text(event_kind_str(kind).to_owned())));
    e.push(("description".to_owned(), Json::Text(description.to_owned())));
    e.push(("ts".to_owned(), Json::Number(JsonNumber::PosInt(ts))));
    let ghost ev = entries_view(e@);
    let r = object_of(e);
    assert(ev =~= entry_view(live_name_view(kind@), description@, ts)->Object_0);
    r
}

/// The message that carries an event: `{"type": "event", "data": <entry>}`.
pub fn event_message(kind: &EventKind, description: &str, ts: u64) -> (r: Json)
    ensures
        jv(r) == JsonView::Object(
            seq![
                ("type"@, JsonView::Text("event"@)),
                ("data"@, entry_view(live_name_view(kind@), description@, ts)),
            ],
        ),
{
    let data = event_entry(kind, description, ts);
    let mut e: Vec<(String, Json)> = Vec::new();
    e.push(("type".to_owned(), Json::Text("event".to_owned())));
    e.push(("data".to_owned(), data));
    let ghost ev = entries_view(e@);
    let r = object_of(e);
    assert(ev =~= seq![
        ("type"@, JsonView::Text("event"@)),
        ("data"@, entry_view(live_name_view(kind@), description@, ts)),
    ]);
    r
}

/// Whether a message from the browser is `{"type": "ping", ...}`.
pub fn is_ping(msg: &Json) -> (b: bool)
    ensures
        b == (field_view(jv(*msg), "type"@) == Some(JsonView::Text("ping"@))),
{
    match msg.get("type") {
        Some(Json::Text(t)) => crate::text::str_eq(t.as_str(), "ping"),
        _ => false,
    }
}

/// The answer to a ping: `{"type": "pong"}`.
pub fn pong() -> (r: Json)
    ensures
        jv(r) == JsonView::Object(seq![("type"@, JsonView::Text("pong"@))]),
{
    let mut e: Vec<(String, Json)> = Vec::new();
    e.push(("type".to_owned(), Json::Text("pong".to_owned())));
    let ghost ev = entries_view(e@);
    let r = object_of(e);
    assert(ev =~= seq![("type"@, JsonView::Text("pong"@))]);
    r
}

/// Whether the live view owes the browser a new state.
pub struct LiveFeed {
    pub state_dirty: bool,
}

impl LiveFeed {
    pub fn new() -> (f: LiveFeed)
        ensures
            !f.state_dirty,
    {
        LiveFeed { state_dirty: false }
    }

    /// The state changed: a state is owed once the debounce delay passes
    /// without further change.
    pub fn on_state_changed(&mut self)
        ensures
            final(self).state_dirty,
    {
        self.state_dirty = true;
    }

    /// The debounce delay passed: whether to send a state now.
    pub fn on_debounce(&mut self) -> (send: bool)
        ensures
            send == old(self).state_dirty,
            !final(self).state_dirty,
    {
        let send = self.state_dirty;
        self.state_dirty = false;
        send
    }

    /// The fallback interval passed: a state is sent in any case.
    pub fn on_fallback(&mut self) -> (send: bool)
        ensures
            send,
            !final(self).state_dirty,
    {
        self.state_dirty = false;
        true
    }
}

} // verus!
