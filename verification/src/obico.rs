//! The state of the local failure-detection service's container, and the
//! progress lines shown while its image is pulled.

use vstd::prelude::*;
use vstd::string::StringSliceAdditionalSpecFns;

use crate::text::{chars_of, lowercased, push_str, str_eq, to_lowercase};

verus! {

/// The port the detection service listens on.
pub const OBICO_PORT: u16 = 3333;

/// The state of the detection service's container.
#[derive(Debug, Clone, Copy, PartialEq, Eq, Structural)]
pub enum ObicoStatus {
    /// No container runtime is reachable.
    Unavailable,
    /// The container does not exist.
    NotCreated,
    /// The container exists and is not running.
    Stopped,
    /// The container is running.
    Running,
}

/// The state of the container from what the runtime reports: whether the
/// runtime is reachable, and, when the container exists, whether it runs.
pub fn obico_status(runtime_available: bool, container_running: Option<bool>) -> (s: ObicoStatus)
    ensures
        s == if !runtime_available {
            ObicoStatus::Unavailable
        } else {
            match container_running {
                None => ObicoStatus::NotCreated,
                Some(true) => ObicoStatus::Running,
                Some(false) => ObicoStatus::Stopped,
            }
        },
{
    if !runtime_available {
        return ObicoStatus::Unavailable;
    }
    match container_running {
        None => ObicoStatus::NotCreated,
        Some(true) => ObicoStatus::Running,
        Some(false) => ObicoStatus::Stopped,
    }
}

/// The stored name of a container state.
pub fn status_name(s: ObicoStatus) -> (n: &'static str)
    ensures
        n@ == match s {
            ObicoStatus::Unavailable => "unavailable"@,
            ObicoStatus::NotCreated => "not_created"@,
            ObicoStatus::Stopped => "stopped"@,
            ObicoStatus::Running => "running"@,
        },
{
    match s {
        ObicoStatus::Unavailable => "unavailable",
        ObicoStatus::NotCreated => "not_created",
        ObicoStatus::Stopped => "stopped",
        ObicoStatus::Running => "running",
    }
}

/// The first twelve bytes of a layer id, when they end on a character
/// boundary; else the whole id.
pub open spec fn short_id_bytes(id: &str) -> Seq<u8> {
    if vstd::utf8::is_char_boundary(id.spec_bytes(), 12) {
        id.spec_bytes().subrange(0, 12)
    } else {
        id.spec_bytes()
    }
}

fn short_id(id: &str) -> (r: &str)
    ensures
        r.spec_bytes() == short_id_bytes(id),
{
    proof {
        vstd::utf8::encode_utf8_valid_utf8(id@);
    }
    if id.is_char_boundary(12) {
        let (head, _) = id.split_at(12);
        head
    } else {
        id
    }
}

/// What has been shown of an image pull: the last layer and status shown.
pub struct PullLog {
    pub last_key: String,
}

impl PullLog {
    pub fn new() -> (l: PullLog)
        ensures
            l.last_key@.len() == 0,
    {
        PullLog { last_key: String::new() }
    }

    /// A progress report of the pull, by layer id and status: the line to
    /// show, if any. Download and extraction ticks are not shown, nor a
    /// report that repeats the last one shown.
    pub fn line(&mut self, id: Option<&str>, status: &str) -> (r: Option<String>)
        ensures
            ({
                let key = match id {
                    Some(i) => i@,
                    None => Seq::empty(),
                } + ":"@ + status@;
                &&& (status@ == "Downloading"@ || status@ == "Extracting"@) ==> r is None
                    && final(self).last_key == old(self).last_key
                &&& !(status@ == "Downloading"@ || status@ == "Extracting"@) && key
                    == old(self).last_key@ ==> r is None && final(self).last_key == old(
                    self,
                ).last_key
                &&& !(status@ == "Downloading"@ || status@ == "Extracting"@) && key != old(
                    self,
                ).last_key@ ==> final(self).last_key@ == key && r is Some && match id {
                    Some(i) => r->0@ == vstd::utf8::decode_utf8(short_id_bytes(i)) + ": "@ + status@,
                    None => r->0@ == status@,
                }
            }),
    {
        if str_eq(status, "Downloading") || str_eq(status, "Extracting") {
            return None;
        }
        let mut key = match id {
            Some(i) => i.to_owned(),
            None => String::new(),
        };
        proof {
            reveal_strlit("");
        }
        push_str(&mut key, ":");
        push_str(&mut key, status);
        if str_eq(key.as_str(), self.last_key.as_str()) {
            return None;
        }
        self.last_key = key;
        match id {
            Some(i) => {
                let head = short_id(i);
                proof {
                    vstd::utf8::encode_utf8_decode_utf8(head@);
                }
                let mut m = head.to_owned();
                push_str(&mut m, ": ");
                push_str(&mut m, status);
                Some(m)
            },
            None => Some(status.to_owned()),
        }
    }
}

/// Whether a text holds another at a position.
pub open spec fn holds_at(h: Seq<char>, n: Seq<char>, i: int) -> bool {
    0 <= i && i + n.len() <= h.len() && h.subrange(i, i + n.len()) == n
}

/// Whether a failure to start the container only says that it already runs.
pub fn start_error_ignorable(message: &str) -> (b: bool)
    ensures
        b == exists|i: int| holds_at(lowercased(message@), "already"@, i),
{
    let lower = to_lowercase(message);
    let chars = chars_of(lower.as_str());
    let needle = chars_of("already");
    proof {
        reveal_strlit("already");
    }
    let n = chars.len();
    if n < 7 {
        assert forall|j: int| !holds_at(chars@, "already"@, j) by {}
        return false;
    }
    let mut i: usize = 0;
    while i <= n - 7
        invariant
            chars@ == lowercased(message@),
            needle@ == "already"@,
            needle@.len() == 7,
            n == chars@.len(),
            n >= 7,
            i <= n - 6,
            forall|j: int| 0 <= j < i ==> !holds_at(chars@, "already"@, j),
        decreases n - i,
    {
        let mut k: usize = 0;
        let mut same = true;
        while k < 7
            invariant
                i <= n - 7,
                n == chars@.len(),
                needle@.len() == 7,
                k <= 7,
                same == forall|m: int| 0 <= m < k ==> chars@[i + m] == needle@[m],
            decreases 7 - k,
        {
            if chars[i + k] != needle[k] {
                same = false;
            }
            k += 1;
        }
        if same {
            assert(chars@.subrange(i as int, i + 7) =~= needle@);
            assert(holds_at(chars@, "already"@, i as int));
            return true;
        }
        assert(!holds_at(chars@, "already"@, i as int)) by {
            if chars@.subrange(i as int, i + 7) == "already"@ {
                assert forall|m: int| 0 <= m < 7 implies chars@[i + m] == needle@[m] by {
                    assert(chars@.subrange(i as int, i + 7)[m] == chars@[i + m]);
                }
            }
        }
        i += 1;
    }
    assert forall|j: int| !holds_at(chars@, "already"@, j) by {
        if 0 <= j && j < i {
        }
    }
    false
}

} // verus!
