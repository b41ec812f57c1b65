//! Which events go to which notification destination, with a cooldown per
//! destination and kind of event, and the names under which events are shown
//! and stored.

use vstd::prelude::*;

use crate::config::{EventToggles, NotificationDestination};
use crate::error::NotificationError;
use crate::json::{Json, JsonView, entries_view, jv, lemma_object_view};
use crate::state::{EventKind, KindView};
use crate::text::{chars_of, dec, push_i64, push_str, str_eq, string_of_prefix};

verus! {

/// The cooldown between two notifications of one kind to one destination.
pub const COOLDOWN_MS: u64 = 120000;

/// The name of an event kind in notification settings and cooldowns.
pub open spec fn label_view(k: KindView) -> Seq<char> {
    match k {
        KindView::PrintStarted => "print_started"@,
        KindView::PrintFinished => "print_finished_ok"@,
        KindView::PrintPaused => "print_paused"@,
        KindView::PrintResumed => "print_resumed"@,
        KindView::PrintStopped => "print_stopped"@,
        KindView::FailureNotifyThreshold => "failure_notify"@,
        KindView::FailurePauseThreshold => "failure_pause"@,
        KindView::AutoPaused => "auto_paused"@,
        KindView::CameraLost => "camera_lost"@,
        KindView::CameraRestored => "camera_restored"@,
        KindView::Connected => "connected"@,
        KindView::Disconnected => "disconnected"@,
        KindView::PhaseChanged(code, _) => if code == 19 {
            "emergency_stop"@
        } else if code == 999 {
            "machine_error"@
        } else if code == 1000 {
            "id_not_match"@
        } else if code == 1001 {
            "auth_error"@
        } else {
            "other"@
        },
        KindView::DetectionEngineError => "detection_engine_error"@,
        _ => "other"@,
    }
}

/// Whether a destination with these toggles is told about an event kind.
pub open spec fn matches_view(k: KindView, t: EventToggles) -> bool {
    match k {
        KindView::PrintStarted => t.print_started,
        KindView::PrintFinished => t.print_finished_ok,
        KindView::PrintPaused => t.print_paused,
        KindView::PrintResumed => t.print_resumed,
        KindView::PrintStopped => t.print_stopped,
        KindView::FailureNotifyThreshold => t.failure_notify,
        KindView::FailurePauseThreshold => t.failure_pause,
        KindView::AutoPaused => t.auto_paused,
        KindView::CameraLost => t.camera_lost,
        KindView::CameraRestored => t.camera_restored,
        KindView::Connected => t.connected,
        KindView::Disconnected => t.disconnected,
        KindView::PhaseChanged(code, _) => if code == 19 {
            t.emergency_stop
        } else if code == 999 {
            t.machine_error
        } else if code == 1000 {
            t.id_not_match
        } else if code == 1001 {
            t.auth_error
        } else {
            false
        },
        KindView::DetectionEngineError => t.detection_engine_error,
        _ => false,
    }
}

/// The toggle of a destination's settings with a name, if any has it.
pub open spec fn toggle_named(t: EventToggles, name: Seq<char>) -> Option<bool> {
    if name == "print_started"@ {
        Some(t.print_started)
    } else if name == "print_finished"@ {
        Some(t.print_finished)
    } else if name == "print_paused"@ {
        Some(t.print_paused)
    } else if name == "failure_notify"@ {
        Some(t.failure_notify)
    } else if name == "failure_pause"@ {
        Some(t.failure_pause)
    } else if name == "auto_paused"@ {
        Some(t.auto_paused)
    } else if name == "camera_lost"@ {
        Some(t.camera_lost)
    } else if name == "camera_restored"@ {
        Some(t.camera_restored)
    } else if name == "emergency_stop"@ {
        Some(t.emergency_stop)
    } else if name == "machine_error"@ {
        Some(t.machine_error)
    } else if name == "id_not_match"@ {
        Some(t.id_not_match)
    } else if name == "auth_error"@ {
        Some(t.auth_error)
    } else if name == "print_resumed"@ {
        Some(t.print_resumed)
    } else if name == "print_stopped"@ {
        Some(t.print_stopped)
    } else if name == "print_finished_ok"@ {
        Some(t.print_finished_ok)
    } else if name == "connected"@ {
        Some(t.connected)
    } else if name == "disconnected"@ {
        Some(t.disconnected)
    } else if name == "detection_engine_error"@ {
        Some(t.detection_engine_error)
    } else {
        None
    }
}

/// Each toggle is found under its own name, and none under "other".
proof fn lemma_toggle_names(t: EventToggles)
    ensures
        toggle_named(t, "print_started"@) == Some(t.print_started),
        toggle_named(t, "print_finished"@) == Some(t.print_finished),
        toggle_named(t, "print_paused"@) == Some(t.print_paused),
        toggle_named(t, "failure_notify"@) == Some(t.failure_notify),
        toggle_named(t, "failure_pause"@) == Some(t.failure_pause),
        toggle_named(t, "auto_paused"@) == Some(t.auto_paused),
        toggle_named(t, "camera_lost"@) == Some(t.camera_lost),
        toggle_named(t, "camera_restored"@) == Some(t.camera_restored),
        toggle_named(t, "emergency_stop"@) == Some(t.emergency_stop),
        toggle_named(t, "machine_error"@) == Some(t.machine_error),
        toggle_named(t, "id_not_match"@) == Some(t.id_not_match),
        toggle_named(t, "auth_error"@) == Some(t.auth_error),
        toggle_named(t, "print_resumed"@) == Some(t.print_resumed),
        toggle_named(t, "print_stopped"@) == Some(t.print_stopped),
        toggle_named(t, "print_finished_ok"@) == Some(t.print_finished_ok),
        toggle_named(t, "connected"@) == Some(t.connected),
        toggle_named(t, "disconnected"@) == Some(t.disconnected),
        toggle_named(t, "detection_engine_error"@) == Some(t.detection_engine_error),
        toggle_named(t, "other"@) is None,
{
    reveal_strlit("print_started");
    reveal_strlit("print_finished");
    reveal_strlit("print_paused");
    reveal_strlit("failure_notify");
    reveal_strlit("failure_pause");
    reveal_strlit("auto_paused");
    reveal_strlit("camera_lost");
    reveal_strlit("camera_restored");
    reveal_strlit("emergency_stop");
    reveal_strlit("machine_error");
    reveal_strlit("id_not_match");
    reveal_strlit("auth_error");
    reveal_strlit("print_resumed");
    reveal_strlit("print_stopped");
    reveal_strlit("print_finished_ok");
    reveal_strlit("connected");
    reveal_strlit("disconnected");
    reveal_strlit("detection_engine_error");
    reveal_strlit("other");
    assert("print_started"@.len() == 13 && "print_started"@[0] == 'p' && "print_started"@[6] == 's' && "print_started"@[8] == 'a');
    assert("print_finished"@.len() == 14 && "print_finished"@[0] == 'p' && "print_finished"@[6] == 'f' && "print_finished"@[8] == 'n');
    assert("print_paused"@.len() == 12 && "print_paused"@[0] == 'p' && "print_paused"@[6] == 'p' && "print_paused"@[8] == 'u');
    assert("failure_notify"@.len() == 14 && "failure_notify"@[0] == 'f' && "failure_notify"@[6] == 'e' && "failure_notify"@[8] == 'n');
    assert("failure_pause"@.len() == 13 && "failure_pause"@[0] == 'f' && "failure_pause"@[6] == 'e' && "failure_pause"@[8] == 'p');
    assert("auto_paused"@.len() == 11 && "auto_paused"@[0] == 'a' && "auto_paused"@[6] == 'a' && "auto_paused"@[8] == 's');
    assert("camera_lost"@.len() == 11 && "camera_lost"@[0] == 'c' && "camera_lost"@[6] == '_' && "camera_lost"@[8] == 'o');
    assert("camera_restored"@.len() == 15 && "camera_restored"@[0] == 'c' && "camera_restored"@[6] == '_' && "camera_restored"@[8] == 'e');
    assert("emergency_stop"@.len() == 14 && "emergency_stop"@[0] == 'e' && "emergency_stop"@[6] == 'n' && "emergency_stop"@[8] == 'y');
    assert("machine_error"@.len() == 13 && "machine_error"@[0] == 'm' && "machine_error"@[6] == 'e' && "machine_error"@[8] == 'e');
    assert("id_not_match"@.len() == 12 && "id_not_match"@[0] == 'i' && "id_not_match"@[6] == '_' && "id_not_match"@[8] == 'a');
    assert("auth_error"@.len() == 10 && "auth_error"@[0] == 'a' && "auth_error"@[6] == 'r' && "auth_error"@[8] == 'o');
    assert("print_resumed"@.len() == 13 && "print_resumed"@[0] == 'p' && "print_resumed"@[6] == 'r' && "print_resumed"@[8] == 's');
    assert("print_stopped"@.len() == 13 && "print_stopped"@[0] == 'p' && "print_stopped"@[6] == 's' && "print_stopped"@[8] == 'o');
    assert("print_finished_ok"@.len() == 17 && "print_finished_ok"@[0] == 'p' && "print_finished_ok"@[6] == 'f' && "print_finished_ok"@[8] == 'n');
    assert("connected"@.len() == 9 && "connected"@[0] == 'c' && "connected"@[6] == 't' && "connected"@[8] == 'd');
    assert("disconnected"@.len() == 12 && "disconnected"@[0] == 'd' && "disconnected"@[6] == 'n' && "disconnected"@[8] == 'c');
    assert("detection_engine_error"@.len() == 22 && "detection_engine_error"@[0] == 'd' && "detection_engine_error"@[6] == 'i' && "detection_engine_error"@[8] == 'n');
    assert("other"@.len() == 5 && "other"@[0] == 'o');
}

/// Each notification label names the toggle that decides the event: a
/// destination is told about an event exactly when its label is not
/// "other" and the toggle of that name is on.
pub proof fn lemma_label_names_toggle(k: KindView, t: EventToggles)
    ensures
        matches_view(k, t) == (label_view(k) != "other"@ && toggle_named(t, label_view(k)) == Some(true)),
{
    lemma_toggle_names(t);
}

/// The name of an event kind in the live view.
pub open spec fn live_name_view(k: KindView) -> Seq<char> {
    match k {
        KindView::PrintStarted => "print_started"@,
        KindView::PrintFinished => "print_finished"@,
        KindView::PrintPaused => "print_paused"@,
        KindView::PrintResumed => "print_resumed"@,
        KindView::PrintStopped => "print_stopped"@,
        KindView::FailureNotifyThreshold => "failure_notify"@,
        KindView::FailurePauseThreshold => "failure_pause"@,
        KindView::AutoPaused => "auto_paused"@,
        KindView::CameraLost => "camera_lost"@,
        KindView::CameraRestored => "camera_restored"@,
        KindView::Connected => "connected"@,
        KindView::Disconnected => "disconnected"@,
        KindView::ErrorOccurred => "error"@,
        _ => "other"@,
    }
}

/// The name of an event kind in notification settings and cooldowns.
pub fn event_kind_label(kind: &EventKind) -> (s: &'static str)
    ensures
        s@ == label_view(kind@),
{
    match kind {
        EventKind::PrintStarted => "print_started",
        EventKind::PrintFinished => "print_finished_ok",
        EventKind::PrintPaused => "print_paused",
        EventKind::PrintResumed => "print_resumed",
        EventKind::PrintStopped => "print_stopped",
        EventKind::FailureNotifyThreshold => "failure_notify",
        EventKind::FailurePauseThreshold => "failure_pause",
        EventKind::AutoPaused => "auto_paused",
        EventKind::CameraLost => "camera_lost",
        EventKind::CameraRestored => "camera_restored",
        EventKind::Connected => "connected",
        EventKind::Disconnected => "disconnected",
        EventKind::PhaseChanged(code, _) => if *code == 19 {
            "emergency_stop"
        } else if *code == 999 {
            "machine_error"
        } else if *code == 1000 {
            "id_not_match"
        } else if *code == 1001 {
            "auth_error"
        } else {
            "other"
        },
        EventKind::DetectionEngineError => "detection_engine_error",
        _ => "other",
    }
}

/// Whether a destination with these toggles is told about an event kind.
pub fn event_matches_toggles(kind: &EventKind, t: &EventToggles) -> (b: bool)
    ensures
        b == matches_view(kind@, *t),
{
    match kind {
        EventKind::PrintStarted => t.print_started,
        EventKind::PrintFinished => t.print_finished_ok,
        EventKind::PrintPaused => t.print_paused,
        EventKind::PrintResumed => t.print_resumed,
        EventKind::PrintStopped => t.print_stopped,
        EventKind::FailureNotifyThreshold => t.failure_notify,
        EventKind::FailurePauseThreshold => t.failure_pause,
        EventKind::AutoPaused => t.auto_paused,
        EventKind::CameraLost => t.camera_lost,
        EventKind::CameraRestored => t.camera_restored,
        EventKind::Connected => t.connected,
        EventKind::Disconnected => t.disconnected,
        EventKind::PhaseChanged(code, _) => if *code == 19 {
            t.emergency_stop
        } else if *code == 999 {
            t.machine_error
        } else if *code == 1000 {
            t.id_not_match
        } else if *code == 1001 {
            t.auth_error
        } else {
            false
        },
        EventKind::DetectionEngineError => t.detection_engine_error,
        _ => false,
    }
}

/// The name of an event kind in the live view.
pub fn event_kind_str(kind: &EventKind) -> (s: &'static str)
    ensures
        s@ == live_name_view(kind@),
{
    match kind {
        EventKind::PrintStarted => "print_started",
        EventKind::PrintFinished => "print_finished",
        EventKind::PrintPaused => "print_paused",
        EventKind::PrintResumed => "print_resumed",
        EventKind::PrintStopped => "print_stopped",
        EventKind::FailureNotifyThreshold => "failure_notify",
        EventKind::FailurePauseThreshold => "failure_pause",
        EventKind::AutoPaused => "auto_paused",
        EventKind::CameraLost => "camera_lost",
        EventKind::CameraRestored => "camera_restored",
        EventKind::Connected => "connected",
        EventKind::Disconnected => "disconnected",
        EventKind::ErrorOccurred => "error",
        _ => "other",
    }
}

// ---------------------------------------------------------------------------
// Cooldowns and deliveries

/// The position of the first entry with a key, or -1.
pub open spec fn cd_index(cd: Seq<(Seq<char>, u64)>, k: Seq<char>) -> int
    decreases cd.len(),
{
    if cd.len() == 0 {
        -1
    } else {
        let p = cd_index(cd.drop_last(), k);
        if p >= 0 {
            p
        } else if cd.last().0 == k {
            cd.len() - 1
        } else {
            -1
        }
    }
}

/// When a key last got a notification.
pub open spec fn cd_lookup(cd: Seq<(Seq<char>, u64)>, k: Seq<char>) -> Option<u64> {
    let p = cd_index(cd, k);
    if 0 <= p < cd.len() {
        Some(cd[p].1)
    } else {
        None
    }
}

/// The cooldown table after a notification under a key at `now`.
pub open spec fn cd_set(cd: Seq<(Seq<char>, u64)>, k: Seq<char>, now: u64) -> Seq<(Seq<char>, u64)> {
    let p = cd_index(cd, k);
    if 0 <= p < cd.len() {
        cd.update(p, (k, now))
    } else {
        cd.push((k, now))
    }
}

proof fn lemma_cd_index(cd: Seq<(Seq<char>, u64)>, k: Seq<char>)
    ensures
        -1 <= cd_index(cd, k) < cd.len(),
        cd_index(cd, k) >= 0 ==> cd[cd_index(cd, k)].0 == k,
        cd_index(cd, k) >= 0 ==> forall|i: int| 0 <= i < cd_index(cd, k) ==> cd[i].0 != k,
        cd_index(cd, k) < 0 ==> forall|i: int| 0 <= i < cd.len() ==> cd[i].0 != k,
    decreases cd.len(),
{
    if cd.len() > 0 {
        let d = cd.drop_last();
        lemma_cd_index(d, k);
        assert forall|i: int| 0 <= i < d.len() implies cd[i] == d[i] by {}
    }
}

/// Whether a key is still cooling down at `now`.
pub open spec fn cooling(cd: Seq<(Seq<char>, u64)>, k: Seq<char>, now: u64) -> bool {
    match cd_lookup(cd, k) {
        Some(t) => now < t + COOLDOWN_MS,
        None => false,
    }
}

/// The cooldown key of a destination and an event kind: `<id>:<label>`.
pub open spec fn key_view(dest_id: Seq<char>, k: KindView) -> Seq<char> {
    dest_id + ":"@ + label_view(k)
}

/// Cooldowns are kept per destination and event label: two kinds with
/// different labels never share a destination's cooldown key, and two
/// kinds with the same label always do.
pub proof fn lemma_key_per_label(dest_id: Seq<char>, k1: KindView, k2: KindView)
    ensures
        (key_view(dest_id, k1) == key_view(dest_id, k2)) == (label_view(k1) == label_view(k2)),
        key_view(dest_id, k1).take(dest_id.len() as int) == dest_id,
{
    let a = key_view(dest_id, k1);
    let b = key_view(dest_id, k2);
    reveal_strlit(":");
    let n: int = dest_id.len() as int + 1;
    if a == b {
        assert(a.skip(n) =~= label_view(k1));
        assert(b.skip(n) =~= label_view(k2));
    }
    assert(a.take(dest_id.len() as int) =~= dest_id);
}

/// Whether a destination wants an event at all.
pub open spec fn wants(d: NotificationDestination, k: KindView) -> bool {
    d.enabled && matches_view(k, d.toggles)
}

/// Offering one event to the first `n` destinations, in order: the pairs
/// (event, destination) that are delivered, and the cooldowns after.
pub open spec fn offer_dests(
    cd: Seq<(Seq<char>, u64)>,
    k: KindView,
    ei: int,
    dests: Seq<NotificationDestination>,
    n: int,
    now: u64,
) -> (Seq<(Seq<char>, u64)>, Seq<(int, int)>)
    decreases n,
{
    if n <= 0 {
        (cd, Seq::empty())
    } else {
        let (cd1, out1) = offer_dests(cd, k, ei, dests, n - 1, now);
        let d = dests[n - 1];
        let key = key_view(d.id@, k);
        if wants(d, k) && !cooling(cd1, key, now) {
            (cd_set(cd1, key, now), out1.push((ei, n - 1)))
        } else {
            (cd1, out1)
        }
    }
}

/// Offering the first `n` events, in order, to every destination.
pub open spec fn offer_events(
    cd: Seq<(Seq<char>, u64)>,
    kinds: Seq<KindView>,
    n: int,
    dests: Seq<NotificationDestination>,
    now: u64,
) -> (Seq<(Seq<char>, u64)>, Seq<(int, int)>)
    decreases n,
{
    if n <= 0 {
        (cd, Seq::empty())
    } else {
        let (cd1, out1) = offer_events(cd, kinds, n - 1, dests, now);
        let (cd2, out2) = offer_dests(cd1, kinds[n - 1], n - 1, dests, dests.len() as int, now);
        (cd2, out1 + out2)
    }
}

proof fn lemma_cd_index_same_keys(a: Seq<(Seq<char>, u64)>, b: Seq<(Seq<char>, u64)>, k: Seq<char>)
    requires
        a.len() == b.len(),
        forall|x: int| 0 <= x < a.len() ==> a[x].0 == b[x].0,
    ensures
        cd_index(a, k) == cd_index(b, k),
    decreases a.len(),
{
    if a.len() > 0 {
        lemma_cd_index_same_keys(a.drop_last(), b.drop_last(), k);
    }
}

/// Reading the cooldown table after a write: the key written reads the new
/// time, every other key what it read before.
pub proof fn lemma_cd_set_lookup(cd: Seq<(Seq<char>, u64)>, k: Seq<char>, t: u64, k2: Seq<char>)
    ensures
        cd_lookup(cd_set(cd, k, t), k2) == if k2 == k {
            Some(t)
        } else {
            cd_lookup(cd, k2)
        },
{
    lemma_cd_index(cd, k);
    lemma_cd_index(cd, k2);
    let p = cd_index(cd, k);
    let n = cd_set(cd, k, t);
    if 0 <= p {
        lemma_cd_index_same_keys(n, cd, k2);
        if k2 != k {
            let q = cd_index(cd, k2);
            if q >= 0 {
                assert(q != p);
            }
        }
    } else {
        assert(n.drop_last() =~= cd);
        lemma_cd_index(n, k2);
    }
}

/// The key of a delivery (event, destination).
pub open spec fn delivery_key(kinds: Seq<KindView>, dests: Seq<NotificationDestination>, p: (int, int)) -> Seq<char> {
    key_view(dests[p.1].id@, kinds[p.0])
}

proof fn lemma_offer_dests(
    cd: Seq<(Seq<char>, u64)>,
    kinds: Seq<KindView>,
    ei: int,
    dests: Seq<NotificationDestination>,
    n: int,
    now: u64,
)
    requires
        0 <= ei < kinds.len(),
        0 <= n <= dests.len(),
    ensures
        ({
            let (cd1, out) = offer_dests(cd, kinds[ei], ei, dests, n, now);
            &&& forall|i: int|
                0 <= i < out.len() ==> (#[trigger] out[i]).0 == ei && 0 <= out[i].1 < n && wants(
                    dests[out[i].1],
                    kinds[ei],
                ) && cd_lookup(cd1, delivery_key(kinds, dests, out[i])) == Some(now) && !cooling(
                    cd,
                    delivery_key(kinds, dests, out[i]),
                    now,
                )
            &&& forall|i: int, j: int|
                0 <= i < j < out.len() ==> delivery_key(kinds, dests, out[i]) != delivery_key(
                    kinds,
                    dests,
                    out[j],
                )
            &&& forall|key: Seq<char>|
                #[trigger] cd_lookup(cd1, key) == cd_lookup(cd, key) || cd_lookup(cd1, key) == Some(
                    now,
                )
        }),
    decreases n,
{
    if n > 0 {
        lemma_offer_dests(cd, kinds, ei, dests, n - 1, now);
        let (cd1, out1) = offer_dests(cd, kinds[ei], ei, dests, n - 1, now);
        let d = dests[n - 1];
        let key = key_view(d.id@, kinds[ei]);
        if wants(d, kinds[ei]) && !cooling(cd1, key, now) {
            let cd2 = cd_set(cd1, key, now);
            let out2 = out1.push((ei, n - 1));
            assert(delivery_key(kinds, dests, (ei, n - 1)) == key);
            assert forall|k2: Seq<char>| #[trigger] cd_lookup(cd2, k2) == if k2 == key {
                Some(now)
            } else {
                cd_lookup(cd1, k2)
            } by {
                lemma_cd_set_lookup(cd1, key, now, k2);
            }
            assert forall|i: int| 0 <= i < out1.len() implies delivery_key(kinds, dests, out1[i]) != key by {
                assert(cd_lookup(cd1, delivery_key(kinds, dests, out1[i])) == Some(now));
            }
            assert(!cooling(cd, key, now)) by {
                assert(cd_lookup(cd1, key) == cd_lookup(cd, key) || cd_lookup(cd1, key) == Some(
                    now,
                ));
            }
            assert forall|i: int| 0 <= i < out2.len() implies (#[trigger] out2[i]).0 == ei && 0
                <= out2[i].1 < n && wants(dests[out2[i].1], kinds[ei]) && cd_lookup(
                cd2,
                delivery_key(kinds, dests, out2[i]),
            ) == Some(now) && !cooling(cd, delivery_key(kinds, dests, out2[i]), now) by {
                if i < out1.len() {
                    assert(out2[i] == out1[i]);
                }
            }
            assert forall|i: int, j: int| 0 <= i < j < out2.len() implies delivery_key(
                kinds,
                dests,
                out2[i],
            ) != delivery_key(kinds, dests, out2[j]) by {
                if j < out1.len() {
                    assert(out2[i] == out1[i] && out2[j] == out1[j]);
                } else {
                    assert(out2[i] == out1[i]);
                }
            }
        }
    }
}

/// In one run of the notifier, at one time: each delivery goes to a
/// destination that wants that kind of event, under a key that was not
/// cooling down when the run began; no key is delivered twice; and every
/// delivered key starts a cooldown at that time.
pub proof fn lemma_one_delivery_per_key(
    cd: Seq<(Seq<char>, u64)>,
    kinds: Seq<KindView>,
    n: int,
    dests: Seq<NotificationDestination>,
    now: u64,
)
    requires
        0 <= n <= kinds.len(),
    ensures
        ({
            let (cd2, pairs) = offer_events(cd, kinds, n, dests, now);
            &&& forall|i: int|
                0 <= i < pairs.len() ==> 0 <= (#[trigger] pairs[i]).0 < n && 0 <= pairs[i].1
                    < dests.len() && wants(dests[pairs[i].1], kinds[pairs[i].0]) && !cooling(
                    cd,
                    delivery_key(kinds, dests, pairs[i]),
                    now,
                ) && cd_lookup(cd2, delivery_key(kinds, dests, pairs[i])) == Some(now)
            &&& forall|i: int, j: int|
                0 <= i < j < pairs.len() ==> delivery_key(kinds, dests, pairs[i]) != delivery_key(
                    kinds,
                    dests,
                    pairs[j],
                )
            &&& forall|key: Seq<char>|
                #[trigger] cd_lookup(cd2, key) == cd_lookup(cd, key) || cd_lookup(cd2, key) == Some(
                    now,
                )
        }),
    decreases n,
{
    if n > 0 {
        lemma_one_delivery_per_key(cd, kinds, n - 1, dests, now);
        let (cd1, out1) = offer_events(cd, kinds, n - 1, dests, now);
        lemma_offer_dests(cd1, kinds, n - 1, dests, dests.len() as int, now);
        let (cd2, out2) = offer_dests(cd1, kinds[n - 1], n - 1, dests, dests.len() as int, now);
        let all = out1 + out2;
        assert forall|i: int| 0 <= i < all.len() implies 0 <= (#[trigger] all[i]).0 < n && 0
            <= all[i].1 < dests.len() && wants(dests[all[i].1], kinds[all[i].0]) && !cooling(
            cd,
            delivery_key(kinds, dests, all[i]),
            now,
        ) && cd_lookup(cd2, delivery_key(kinds, dests, all[i])) == Some(now) by {
            if i < out1.len() {
                assert(all[i] == out1[i]);
            } else {
                let o = out2[i - out1.len()];
                assert(all[i] == o);
                let key = delivery_key(kinds, dests, o);
                assert(!cooling(cd1, key, now));
                assert(cd_lookup(cd1, key) == cd_lookup(cd, key) || cd_lookup(cd1, key) == Some(
                    now,
                ));
            }
        }
        assert forall|key: Seq<char>| #[trigger] cd_lookup(cd2, key) == cd_lookup(cd, key)
            || cd_lookup(cd2, key) == Some(now) by {
            assert(cd_lookup(cd2, key) == cd_lookup(cd1, key) || cd_lookup(cd2, key) == Some(now));
            assert(cd_lookup(cd1, key) == cd_lookup(cd, key) || cd_lookup(cd1, key) == Some(now));
        }
        assert forall|i: int, j: int| 0 <= i < j < all.len() implies delivery_key(kinds, dests, all[i])
            != delivery_key(kinds, dests, all[j]) by {
            if j < out1.len() {
                assert(all[i] == out1[i] && all[j] == out1[j]);
            } else if i < out1.len() {
                assert(all[i] == out1[i] && all[j] == out2[j - out1.len()]);
                let ki = delivery_key(kinds, dests, out1[i]);
                assert(cd_lookup(cd1, ki) == Some(now));
                let o = out2[j - out1.len()];
                assert(!cooling(cd1, delivery_key(kinds, dests, o), now));
            } else {
                assert(all[i] == out2[i - out1.len()] && all[j] == out2[j - out1.len()]);
            }
        }
    }
}

/// What the notifier remembers between runs.
pub struct NotificationTracker {
    /// The event count up to which events were handled.
    pub last_processed_total: u64,
    /// When each destination last got each kind of event, oldest first.
    pub cooldowns: Vec<(String, u64)>,
}

pub open spec fn cd_view(cd: Seq<(String, u64)>) -> Seq<(Seq<char>, u64)> {
    cd.map_values(|e: (String, u64)| (e.0@, e.1))
}

pub open spec fn kinds_view(kinds: Seq<EventKind>) -> Seq<KindView> {
    kinds.map_values(|k: EventKind| k@)
}

/// The first of the last `len` log entries that are new since `last`:
/// the log holds `len` entries, of `total` ever logged.
pub open spec fn first_new(total: u64, last: u64, len: nat) -> int {
    let unprocessed: int = if total > last {
        total - last
    } else {
        0
    };
    if unprocessed < len {
        len - unprocessed
    } else {
        0
    }
}

impl NotificationTracker {
    /// A tracker that treats the events logged so far as handled.
    pub fn new(events_total: u64) -> (t: NotificationTracker)
        ensures
            t.last_processed_total == events_total,
            t.cooldowns@.len() == 0,
    {
        NotificationTracker { last_processed_total: events_total, cooldowns: Vec::new() }
    }

    /// The position in the log of the first event not handled yet, given the
    /// log's length and the count of events ever logged; these count as
    /// handled from now on.
    pub fn take_new(&mut self, events_total: u64, log_len: usize) -> (start: usize)
        ensures
            start == first_new(events_total, old(self).last_processed_total, log_len as nat),
            start <= log_len,
            final(self).last_processed_total == events_total,
            final(self).cooldowns == old(self).cooldowns,
    {
        let unprocessed: u64 = if events_total > self.last_processed_total {
            events_total - self.last_processed_total
        } else {
            0
        };
        self.last_processed_total = events_total;
        if unprocessed < log_len as u64 {
            log_len - unprocessed as usize
        } else {
            0
        }
    }

    fn find_key(&self, key: &str) -> (r: Option<usize>)
        ensures
            match r {
                Some(p) => p as int == cd_index(cd_view(self.cooldowns@), key@),
                None => cd_index(cd_view(self.cooldowns@), key@) < 0,
            },
    {
        let ghost cd = cd_view(self.cooldowns@);
        proof {
            lemma_cd_index(cd, key@);
        }
        let mut i: usize = 0;
        while i < self.cooldowns.len()
            invariant
                i <= self.cooldowns@.len(),
                cd == cd_view(self.cooldowns@),
                -1 <= cd_index(cd, key@) < cd.len(),
                cd_index(cd, key@) >= 0 ==> cd[cd_index(cd, key@)].0 == key@,
                cd_index(cd, key@) >= 0 ==> forall|x: int| 0 <= x < cd_index(cd, key@) ==> cd[x].0 != key@,
                cd_index(cd, key@) < 0 ==> forall|x: int| 0 <= x < cd.len() ==> cd[x].0 != key@,
                forall|x: int| 0 <= x < i ==> cd[x].0 != key@,
            decreases self.cooldowns@.len() - i,
        {
            assert(cd[i as int] == (self.cooldowns@[i as int].0@, self.cooldowns@[i as int].1));
            if str_eq(self.cooldowns[i].0.as_str(), key) {
                return Some(i);
            }
            i += 1;
        }
        None
    }

    /// Offers each event, oldest first, to each destination in order. A
    /// destination gets an event when it is enabled, wants that kind, and
    /// did not get that kind within the cooldown; each delivery restarts the
    /// cooldown. The result lists the deliveries as (event, destination)
    /// positions, in the order they are to be sent.
    pub fn plan_deliveries(
        &mut self,
        kinds: &[EventKind],
        dests: &[NotificationDestination],
        now_ms: u64,
    ) -> (out: Vec<(usize, usize)>)
        ensures
            ({
                let (cd, pairs) = offer_events(
                    cd_view(old(self).cooldowns@),
                    kinds_view(kinds@),
                    kinds@.len() as int,
                    dests@,
                    now_ms,
                );
                &&& cd_view(final(self).cooldowns@) == cd
                &&& out@.len() == pairs.len()
                &&& forall|i: int|
                    0 <= i < out@.len() ==> (#[trigger] out@[i]).0 as int == pairs[i].0
                        && out@[i].1 as int == pairs[i].1
            }),
            final(self).last_processed_total == old(self).last_processed_total,
    {
        let ghost cd0 = cd_view(self.cooldowns@);
        let ghost kv = kinds_view(kinds@);
        let mut out: Vec<(usize, usize)> = Vec::new();
        let mut ei: usize = 0;
        while ei < kinds.len()
            invariant
                ei <= kinds@.len(),
                kv == kinds_view(kinds@),
                self.last_processed_total == old(self).last_processed_total,
                ({
                    let (cd, pairs) = offer_events(cd0, kv, ei as int, dests@, now_ms);
                    &&& cd_view(self.cooldowns@) == cd
                    &&& out@.len() == pairs.len()
                    &&& forall|i: int|
                        0 <= i < out@.len() ==> (#[trigger] out@[i]).0 as int == pairs[i].0
                            && out@[i].1 as int == pairs[i].1
                }),
            decreases kinds@.len() - ei,
        {
            let kind = &kinds[ei];
            assert(kv[ei as int] == kind@);
            let ghost cd_e = cd_view(self.cooldowns@);
            let ghost out_e = out@;
            let ghost pairs_e = offer_events(cd0, kv, ei as int, dests@, now_ms).1;
            let label = event_kind_label(kind);
            let mut di: usize = 0;
            while di < dests.len()
                invariant
                    ei < kinds@.len(),
                    di <= dests@.len(),
                    kind@ == kv[ei as int],
                    label@ == label_view(kind@),
                    self.last_processed_total == old(self).last_processed_total,
                    out_e.len() == pairs_e.len(),
                    forall|i: int|
                        0 <= i < out_e.len() ==> (#[trigger] out_e[i]).0 as int == pairs_e[i].0
                            && out_e[i].1 as int == pairs_e[i].1,
                    ({
                        let (cd, pairs) = offer_dests(cd_e, kind@, ei as int, dests@, di as int, now_ms);
                        &&& cd_view(self.cooldowns@) == cd
                        &&& out@.len() == out_e.len() + pairs.len()
                        &&& out@.subrange(0, out_e.len() as int) == out_e
                        &&& forall|i: int|
                            0 <= i < pairs.len() ==> (#[trigger] out@[out_e.len() + i]).0 as int
                                == pairs[i].0 && out@[out_e.len() + i].1 as int == pairs[i].1
                    }),
                decreases dests@.len() - di,
            {
                let d = &dests[di];
                let ghost before = out@;
                let ghost cd_before = cd_view(self.cooldowns@);
                let ghost pairs_before = offer_dests(cd_e, kind@, ei as int, dests@, di as int, now_ms).1;
                if d.enabled && event_matches_toggles(kind, &d.toggles) {
                    let mut key = d.id.clone();
                    push_str(&mut key, ":");
                    push_str(&mut key, label);
                    assert(key@ == key_view(d.id@, kind@));
                    let found = self.find_key(key.as_str());
                    proof {
                        lemma_cd_index(cd_view(self.cooldowns@), key@);
                        assert(cd_view(self.cooldowns@).len() == self.cooldowns@.len());
                    }
                    let cooling_now = match found {
                        Some(p) => {
                            assert(cd_view(self.cooldowns@)[p as int] == (
                                self.cooldowns@[p as int].0@,
                                self.cooldowns@[p as int].1,
                            ));
                            let t = self.cooldowns[p].1;
                            now_ms < t || now_ms - t < COOLDOWN_MS
                        },
                        None => false,
                    };
                    if !cooling_now {
                        let ghost cdv = self.cooldowns@;
                        match found {
                            Some(p) => {
                                self.cooldowns.set(p, (key, now_ms));
                                assert(cd_view(self.cooldowns@) =~= cd_view(cdv).update(
                                    p as int,
                                    (key_view(d.id@, kind@), now_ms),
                                ));
                            },
                            None => {
                                self.cooldowns.push((key, now_ms));
                                assert(cd_view(self.cooldowns@) =~= cd_view(cdv).push(
                                    (key_view(d.id@, kind@), now_ms),
                                ));
                            },
                        }
                        out.push((ei, di));
                        assert(out@.subrange(0, out_e.len() as int) =~= before.subrange(0, out_e.len() as int));
                    }
                }
                di += 1;
            }
            proof {
                assert(out@.subrange(0, out_e.len() as int) == out_e);
                let pairs_d = offer_dests(cd_e, kind@, ei as int, dests@, dests@.len() as int, now_ms).1;
                assert forall|i: int|
                    0 <= i < out@.len() implies (#[trigger] out@[i]).0 as int == (pairs_e + pairs_d)[i].0
                        && out@[i].1 as int == (pairs_e + pairs_d)[i].1 by {
                    if i < out_e.len() {
                        assert(out@[i] == out@.subrange(0, out_e.len() as int)[i]);
                    } else {
                        assert(out@[out_e.len() + (i - out_e.len())] == out@[i]);
                    }
                }
            }
            ei += 1;
        }
        out
    }
}

/// A text without its trailing slashes.
pub open spec fn trim_slashes(s: Seq<char>) -> Seq<char>
    decreases s.len(),
{
    if s.len() > 0 && s.last() == '/' {
        trim_slashes(s.drop_last())
    } else {
        s
    }
}

/// A text without its trailing slashes, as `str::trim_end_matches('/')` gives it.
pub fn trim_end_slashes(s: &str) -> (r: String)
    ensures
        r@ == trim_slashes(s@),
{
    let chars = chars_of(s);
    let mut n = chars.len();
    assert(chars@.take(n as int) =~= chars@);
    while n > 0 && chars[n - 1] == '/'
        invariant
            n <= chars@.len(),
            chars@ == s@,
            trim_slashes(chars@.take(n as int)) == trim_slashes(s@),
        decreases n,
    {
        assert(chars@.take(n as int).drop_last() =~= chars@.take(n - 1));
        n -= 1;
    }
    assert(trim_slashes(chars@.take(n as int)) == chars@.take(n as int));
    let out = string_of_prefix(chars.as_slice(), n);
    out
}

/// Where and how an ntfy notification is sent.
pub struct NtfyTarget {
    pub url: String,
    /// The address opened when the notification is tapped, if any.
    pub click: Option<String>,
}

pub open spec fn opt_text(o: Option<String>) -> Option<Seq<char>> {
    match o {
        Some(s) => Some(s@),
        None => None,
    }
}

/// The server that takes ntfy notifications when none is configured.
pub open spec fn default_ntfy_server() -> Seq<char> {
    "https://ntfy.sh"@
}

/// The ntfy address of a destination: its server without trailing
/// slashes, a slash and its topic; no address without a topic.
pub fn ntfy_target(dest: &NotificationDestination) -> (r: Result<NtfyTarget, NotificationError>)
    ensures
        ({
            let server = match opt_text(dest.ntfy_server) {
                Some(s) => s,
                None => default_ntfy_server(),
            };
            let topic = match opt_text(dest.ntfy_topic) {
                Some(t) => t,
                None => Seq::empty(),
            };
            &&& topic.len() == 0 ==> (r matches Err(NotificationError::NtfyFailed(m)) && m@
                == "topic is not configured"@)
            &&& topic.len() > 0 ==> r is Ok && r->Ok_0.url@ == trim_slashes(server) + "/"@ + topic
                && opt_text(r->Ok_0.click) == match opt_text(dest.ntfy_tap_url) {
                Some(u) => if u.len() > 0 {
                    Some(u)
                } else {
                    None
                },
                None => None,
            }
        }),
{
    let server: &str = match &dest.ntfy_server {
        Some(s) => s.as_str(),
        None => "https://ntfy.sh",
    };
    let topic: &str = match &dest.ntfy_topic {
        Some(t) => t.as_str(),
        None => "",
    };
    if topic.is_empty() {
        return Err(NotificationError::NtfyFailed("topic is not configured".to_owned()));
    }
    proof {
        reveal_strlit("");
    }
    let mut url = trim_end_slashes(server);
    push_str(&mut url, "/");
    push_str(&mut url, topic);
    let click = match &dest.ntfy_tap_url {
        Some(u) => if !u.as_str().is_empty() {
            Some(u.clone())
        } else {
            None
        },
        None => None,
    };
    Ok(NtfyTarget { url, click })
}

/// The body of a webhook notification.
pub open spec fn webhook_payload_view(title: Seq<char>, body: Seq<char>) -> JsonView {
    JsonView::Object(
        seq![
            ("title"@, JsonView::Text(title)),
            ("body"@, JsonView::Text(body)),
            ("source"@, JsonView::Text("cc2-monitor"@)),
        ],
    )
}

/// The address and body of a webhook notification; none without an address.
pub fn webhook_request(dest: &NotificationDestination, title: &str, body: &str) -> (r: Result<
    (String, Json),
    NotificationError,
>)
    ensures
        match opt_text(dest.webhook_url) {
            Some(u) if u.len() > 0 => r is Ok && r->Ok_0.0@ == u && jv(r->Ok_0.1)
                == webhook_payload_view(title@, body@),
            _ => r matches Err(NotificationError::WebhookFailed(m)) && m@
                == "webhook URL is not configured"@,
        },
{
    let url = match &dest.webhook_url {
        Some(u) => if !u.as_str().is_empty() {
            u.clone()
        } else {
            return Err(NotificationError::WebhookFailed("webhook URL is not configured".to_owned()));
        },
        None => {
            return Err(NotificationError::WebhookFailed("webhook URL is not configured".to_owned()));
        },
    };
    let mut e: Vec<(String, Json)> = Vec::new();
    e.push(("title".to_owned(), Json::Text(title.to_owned())));
    e.push(("body".to_owned(), Json::Text(body.to_owned())));
    e.push(("source".to_owned(), Json::Text("cc2-monitor".to_owned())));
    proof {
        lemma_object_view(e);
    }
    assert(entries_view(e@) =~= webhook_payload_view(title@, body@)->Object_0);
    Ok((url, Json::Object(e)))
}

/// The name of an event kind's variant, as its debug form starts.
pub open spec fn variant_name(k: KindView) -> Seq<char> {
    match k {
        KindView::Connected => "Connected"@,
        KindView::Disconnected => "Disconnected"@,
        KindView::PrintStarted => "PrintStarted"@,
        KindView::PrintPaused => "PrintPaused"@,
        KindView::PrintResumed => "PrintResumed"@,
        KindView::PrintStopped => "PrintStopped"@,
        KindView::PrintFinished => "PrintFinished"@,
        KindView::FailureNotifyThreshold => "FailureNotifyThreshold"@,
        KindView::FailurePauseThreshold => "FailurePauseThreshold"@,
        KindView::AutoPaused => "AutoPaused"@,
        KindView::CommandPause => "CommandPause"@,
        KindView::CommandResume => "CommandResume"@,
        KindView::CommandStop => "CommandStop"@,
        KindView::CommandLed => "CommandLed"@,
        KindView::CommandFan => "CommandFan"@,
        KindView::CommandSpeedMode => "CommandSpeedMode"@,
        KindView::CommandTemp => "CommandTemp"@,
        KindView::CommandStartPrint => "CommandStartPrint"@,
        KindView::DetectionLogged => "DetectionLogged"@,
        KindView::CameraLost => "CameraLost"@,
        KindView::CameraRestored => "CameraRestored"@,
        KindView::ErrorOccurred => "ErrorOccurred"@,
        KindView::PhaseChanged(..) => "PhaseChanged"@,
        KindView::DetectionEngineError => "DetectionEngineError"@,
        KindView::Loaded(..) => "Loaded"@,
    }
}

fn variant_str(kind: &EventKind) -> (s: &'static str)
    ensures
        s@ == variant_name(kind@),
{
    match kind {
        EventKind::Connected => "Connected",
        EventKind::Disconnected => "Disconnected",
        EventKind::PrintStarted => "PrintStarted",
        EventKind::PrintPaused => "PrintPaused",
        EventKind::PrintResumed => "PrintResumed",
        EventKind::PrintStopped => "PrintStopped",
        EventKind::PrintFinished => "PrintFinished",
        EventKind::FailureNotifyThreshold => "FailureNotifyThreshold",
        EventKind::FailurePauseThreshold => "FailurePauseThreshold",
        EventKind::AutoPaused => "AutoPaused",
        EventKind::CommandPause => "CommandPause",
        EventKind::CommandResume => "CommandResume",
        EventKind::CommandStop => "CommandStop",
        EventKind::CommandLed => "CommandLed",
        EventKind::CommandFan => "CommandFan",
        EventKind::CommandSpeedMode => "CommandSpeedMode",
        EventKind::CommandTemp => "CommandTemp",
        EventKind::CommandStartPrint => "CommandStartPrint",
        EventKind::DetectionLogged => "DetectionLogged",
        EventKind::CameraLost => "CameraLost",
        EventKind::CameraRestored => "CameraRestored",
        EventKind::ErrorOccurred => "ErrorOccurred",
        EventKind::PhaseChanged(..) => "PhaseChanged",
        EventKind::DetectionEngineError => "DetectionEngineError",
        EventKind::Loaded(..) => "Loaded",
    }
}

/// The name under which an event kind is stored: a kind read back from
/// storage keeps its stored name; a phase change is `PhaseChanged(<code>,<label>)`;
/// any other kind is its variant's name.
pub open spec fn db_name_view(k: KindView) -> Seq<char> {
    match k {
        KindView::Loaded(s) => s,
        KindView::PhaseChanged(code, label) => "PhaseChanged("@ + dec(code as int) + ","@ + label
            + ")"@,
        _ => variant_name(k),
    }
}

/// The name under which an event kind is stored.
pub fn event_kind_str_for_db(kind: &EventKind) -> (s: String)
    ensures
        s@ == db_name_view(kind@),
{
    match kind {
        EventKind::Loaded(s) => s.clone(),
        EventKind::PhaseChanged(code, label) => {
            let mut s = "PhaseChanged(".to_owned();
            push_i64(&mut s, *code);
            push_str(&mut s, ",");
            push_str(&mut s, label.as_str());
            push_str(&mut s, ")");
            s
        },
        _ => variant_str(kind).to_owned(),
    }
}

/// What the debug form of a string is: the string in quotes, escaped.
pub uninterp spec fn debug_text(s: Seq<char>) -> Seq<char>;

/// Calls the `Debug` formatting of `str`, which quotes and escapes the text;
/// its result depends on the text alone.
#[verifier::external_body]
fn debug_quoted(s: &str) -> (r: String)
    ensures
        r@ == debug_text(s@),
{
    format!("{:?}", s)
}

/// The name of an event kind in the log listing: a kind read back from
/// storage keeps its stored name; any other kind is its debug form.
pub open spec fn log_name_view(k: KindView) -> Seq<char> {
    match k {
        KindView::Loaded(s) => s,
        KindView::PhaseChanged(code, label) => "PhaseChanged("@ + dec(code as int) + ", "@
            + debug_text(label) + ")"@,
        _ => variant_name(k),
    }
}

/// The name of an event kind in the log listing.
pub fn event_kind_str_for_log(kind: &EventKind) -> (s: String)
    ensures
        s@ == log_name_view(kind@),
{
    match kind {
        EventKind::Loaded(s) => s.clone(),
        EventKind::PhaseChanged(code, label) => {
            let mut s = "PhaseChanged(".to_owned();
            push_i64(&mut s, *code);
            push_str(&mut s, ", ");
            let q = debug_quoted(label.as_str());
            push_str(&mut s, q.as_str());
            push_str(&mut s, ")");
            s
        },
        _ => variant_str(kind).to_owned(),
    }
}

/// Which of the events still in memory the log listing adds after the
/// stored ones: those later than the last stored event's time (zero when
/// nothing is stored), in order; the result holds their positions.
pub fn events_after(last_stored_ts: Option<u64>, mem_ts: &[u64]) -> (idx: Vec<usize>)
    ensures
        ({
            let cut = match last_stored_ts {
                Some(t) => t,
                None => 0,
            };
            &&& forall|i: int| 0 <= i < idx@.len() ==> (#[trigger] idx@[i]) < mem_ts@.len() && mem_ts@[idx@[i] as int] > cut
            &&& forall|i: int, j: int| 0 <= i < j < idx@.len() ==> idx@[i] < idx@[j]
            &&& forall|k: int| 0 <= k < mem_ts@.len() && mem_ts@[k] > cut ==> idx@.contains(k as usize)
        }),
{
    let cut: u64 = match last_stored_ts {
        Some(t) => t,
        None => 0,
    };
    let mut idx: Vec<usize> = Vec::new();
    let mut k: usize = 0;
    while k < mem_ts.len()
        invariant
            k <= mem_ts@.len(),
            forall|i: int| 0 <= i < idx@.len() ==> (#[trigger] idx@[i]) < k && mem_ts@[idx@[i] as int] > cut,
            forall|i: int, j: int| 0 <= i < j < idx@.len() ==> idx@[i] < idx@[j],
            forall|m: int| 0 <= m < k && mem_ts@[m] > cut ==> idx@.contains(m as usize),
        decreases mem_ts@.len() - k,
    {
        if mem_ts[k] > cut {
            let ghost before = idx@;
            idx.push(k);
            assert forall|m: int| 0 <= m < k + 1 && mem_ts@[m] > cut implies idx@.contains(m as usize) by {
                if m < k {
                    let w = choose|w: int| 0 <= w < before.len() && before[w] == m as usize;
                    assert(idx@[w] == m as usize);
                } else {
                    assert(idx@[idx@.len() - 1] == k);
                }
            }
        }
        k += 1;
    }
    idx
}

} // verus!
