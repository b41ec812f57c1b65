//! How stored values read back: flags and counts kept as 64-bit integers,
//! and lines of the older event log.

use vstd::prelude::*;

use crate::json::{Json, JsonNumber, JsonView, NumberView, field_view, jv};

verus! {

/// A stored flag: any nonzero value is on.
pub fn stored_flag(v: i64) -> (b: bool)
    ensures
        b == (v != 0),
{
    v != 0
}

/// A stored count read as a `u32`: its low 32 bits.
pub fn stored_u32(v: i64) -> (r: u32)
    ensures
        r == (v % 4294967296) as u32,
{
    let m: i64 = v % 4294967296;
    let m2: i64 = if m < 0 {
        m + 4294967296
    } else {
        m
    };
    m2 as u32
}

/// A stored port read as a `u16`: its low 16 bits.
pub fn stored_u16(v: i64) -> (r: u16)
    ensures
        r == (v % 65536) as u16,
{
    let m: i64 = v % 65536;
    let m2: i64 = if m < 0 {
        m + 65536
    } else {
        m
    };
    m2 as u16
}

/// An event of the older log: time, kind, message and snapshot.
pub struct LegacyEvent {
    pub ts: u64,
    pub kind: String,
    pub msg: String,
    pub snapshot: Option<String>,
}

/// The fields of a line of the older event log, when it has a time, a kind
/// and a message of the right types.
pub open spec fn legacy_view(v: JsonView) -> Option<(u64, Seq<char>, Seq<char>, Option<Seq<char>>)> {
    match (field_view(v, "ts"@), field_view(v, "kind"@), field_view(v, "msg"@)) {
        (
            Some(JsonView::Number(NumberView::PosInt(ts))),
            Some(JsonView::Text(kind)),
            Some(JsonView::Text(msg)),
        ) => Some(
            (
                ts,
                kind,
                msg,
                match field_view(v, "snap"@) {
                    Some(JsonView::Text(s)) => Some(s),
                    _ => None,
                },
            ),
        ),
        _ => None,
    }
}

/// Reads a line of the older event log.
pub fn legacy_event(v: &Json) -> (r: Option<LegacyEvent>)
    ensures
        match r {
            Some(e) => legacy_view(jv(*v)) == Some(
                (
                    e.ts,
                    e.kind@,
                    e.msg@,
                    match e.snapshot {
                        Some(s) => Some(s@),
                        None => None,
                    },
                ),
            ),
            None => legacy_view(jv(*v)) is None,
        },
{
    let ts = match v.get("ts") {
        Some(Json::Number(JsonNumber::PosInt(t))) => *t,
        _ => {
            return None;
        },
    };
    let kind = match v.get("kind") {
        Some(Json::Text(k)) => k.clone(),
        _ => {
            return None;
        },
    };
    let msg = match v.get("msg") {
        Some(Json::Text(m)) => m.clone(),
        _ => {
            return None;
        },
    };
    let snapshot = match v.get("snap") {
        Some(Json::Text(s)) => Some(s.clone()),
        _ => None,
    };
    Some(LegacyEvent { ts, kind, msg, snapshot })
}

} // verus!
