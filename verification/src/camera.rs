//! Cutting JPEG frames out of the camera's MJPEG stream, the state the
//! grabber reports, and its waits between reconnections.

use vstd::prelude::*;

use crate::text::push_str;

verus! {

/// The marker that starts a JPEG image.
pub open spec fn soi() -> Seq<u8> {
    seq![0xFFu8, 0xD8u8]
}

/// The marker that ends a JPEG image.
pub open spec fn eoi() -> Seq<u8> {
    seq![0xFFu8, 0xD9u8]
}

/// The buffer is dropped when it grows past this many bytes without a frame.
pub const MAX_BUFFER_BYTES: usize = 4194304;

/// Whether the needle occurs at a position of the haystack.
pub open spec fn occurs_at(h: Seq<u8>, n: Seq<u8>, i: int) -> bool {
    0 <= i && i + n.len() <= h.len() && h.subrange(i, i + n.len()) == n
}

/// The first position where the needle occurs, if any.
pub open spec fn first_occurrence(h: Seq<u8>, n: Seq<u8>) -> Option<int> {
    if exists|i: int| occurs_at(h, n, i) {
        Some(choose|i: int| occurs_at(h, n, i) && forall|j: int| 0 <= j < i ==> !occurs_at(h, n, j))
    } else {
        None
    }
}

/// Where a needle first occurs in a haystack.
pub fn find_seq(haystack: &[u8], needle: &[u8]) -> (r: Option<usize>)
    requires
        needle@.len() > 0,
    ensures
        match r {
            Some(i) => occurs_at(haystack@, needle@, i as int) && forall|j: int|
                0 <= j < i ==> !occurs_at(haystack@, needle@, j),
            None => forall|j: int| !occurs_at(haystack@, needle@, j),
        },
{
    let n = needle.len();
    if haystack.len() < n {
        return None;
    }
    let hl = haystack.len();
    let mut i: usize = 0;
    while i <= haystack.len() - n
        invariant
            n == needle@.len(),
            n <= haystack@.len(),
            haystack@.len() == hl,
            i <= haystack@.len() - n + 1,
            forall|j: int| 0 <= j < i ==> !occurs_at(haystack@, needle@, j),
        decreases haystack@.len() - i,
    {
        let mut k: usize = 0;
        let mut same = true;
        while k < n
            invariant
                n == needle@.len(),
                n <= haystack@.len(),
                haystack@.len() == hl,
                i <= haystack@.len() - n,
                k <= n,
                same == forall|m: int| 0 <= m < k ==> haystack@[i + m] == needle@[m],
            decreases n - k,
        {
            if haystack[i + k] != needle[k] {
                same = false;
            }
            k += 1;
        }
        if same {
            assert(haystack@.subrange(i as int, i + n) =~= needle@);
            return Some(i);
        }
        assert(!occurs_at(haystack@, needle@, i as int)) by {
            if occurs_at(haystack@, needle@, i as int) {
                assert forall|m: int| 0 <= m < n implies haystack@[i + m] == needle@[m] by {
                    assert(haystack@.subrange(i as int, i + n)[m] == haystack@[i + m]);
                }
            }
        }
        i += 1;
    }
    None
}

/// The first frame in a buffer and what follows it: from the first start
/// marker through the first end marker after it.
#[verifier::opaque]
pub open spec fn frame_bounds(buf: Seq<u8>) -> Option<(int, int)> {
    match first_occurrence(buf, soi()) {
        Some(s) => match first_occurrence(buf.skip(s), eoi()) {
            Some(e) => Some((s, s + e + 2)),
            None => None,
        },
        None => None,
    }
}

/// Takes the first complete frame out of the buffer, with everything
/// before it.
pub fn try_extract_frame(buf: &mut Vec<u8>) -> (r: Option<Vec<u8>>)
    ensures
        match frame_bounds(old(buf)@) {
            Some((s, e)) => r is Some && r->0@ == old(buf)@.subrange(s, e) && final(buf)@
                == old(buf)@.skip(e),
            None => r is None && final(buf)@ == old(buf)@,
        },
{
    proof {
        reveal(frame_bounds);
    }
    let mut soi_marker: Vec<u8> = Vec::new();
    soi_marker.push(0xFF);
    soi_marker.push(0xD8);
    let mut eoi_marker: Vec<u8> = Vec::new();
    eoi_marker.push(0xFF);
    eoi_marker.push(0xD9);
    assert(soi_marker@ =~= soi());
    assert(eoi_marker@ =~= eoi());
    let start = match find_seq(buf.as_slice(), soi_marker.as_slice()) {
        Some(s) => s,
        None => {
            return None;
        },
    };
    let ghost b = buf@;
    proof {
        assert(exists|i: int| occurs_at(b, soi(), i));
        let c = first_occurrence(b, soi())->0;
        assert(c == start) by {
            if c < start {
                assert(!occurs_at(b, soi(), c));
            } else if start < c {
            }
        }
    }
    let mut tail: Vec<u8> = Vec::new();
    let mut i: usize = start;
    while i < buf.len()
        invariant
            b == buf@,
            start <= i <= buf@.len(),
            tail@ == buf@.subrange(start as int, i as int),
        decreases buf@.len() - i,
    {
        tail.push(buf[i]);
        i += 1;
        assert(tail@ =~= buf@.subrange(start as int, i as int));
    }
    assert(tail@ =~= b.skip(start as int));
    let rel = match find_seq(tail.as_slice(), eoi_marker.as_slice()) {
        Some(e) => e,
        None => {
            return None;
        },
    };
    proof {
        let t = b.skip(start as int);
        assert(exists|x: int| occurs_at(t, eoi(), x));
        let c = first_occurrence(t, eoi())->0;
        assert(c == rel) by {
            if c < rel {
                assert(!occurs_at(t, eoi(), c));
            } else if rel < c {
            }
        }
    }
    let end = start + rel + 2;
    let mut frame: Vec<u8> = Vec::new();
    let mut rest: Vec<u8> = Vec::new();
    let mut j: usize = 0;
    while j < buf.len()
        invariant
            b == buf@,
            start <= end <= buf@.len(),
            j <= buf@.len(),
            frame@ == buf@.subrange(start as int, if j < start {
                start as int
            } else if j < end {
                j as int
            } else {
                end as int
            }),
            rest@ == buf@.subrange(end as int, if j < end {
                end as int
            } else {
                j as int
            }),
        decreases buf@.len() - j,
    {
        if j >= start && j < end {
            frame.push(buf[j]);
        } else if j >= end {
            rest.push(buf[j]);
        }
        j += 1;
        assert(frame@ =~= buf@.subrange(start as int, if j < start {
            start as int
        } else if j < end {
            j as int
        } else {
            end as int
        }));
        assert(rest@ =~= buf@.subrange(end as int, if j < end {
            end as int
        } else {
            j as int
        }));
    }
    *buf = rest;
    assert(buf@ =~= b.skip(end as int));
    Some(frame)
}

proof fn lemma_first_occurrence(h: Seq<u8>, n: Seq<u8>)
    ensures
        first_occurrence(h, n) matches Some(i) ==> occurs_at(h, n, i) && forall|j: int|
            0 <= j < i ==> !occurs_at(h, n, j),
{
    if exists|i: int| occurs_at(h, n, i) {
        let w = choose|i: int| occurs_at(h, n, i);
        lemma_least_occurrence(h, n, w);
    }
}

proof fn lemma_least_occurrence(h: Seq<u8>, n: Seq<u8>, w: int)
    requires
        occurs_at(h, n, w),
    ensures
        exists|i: int| occurs_at(h, n, i) && forall|j: int| 0 <= j < i ==> !occurs_at(h, n, j),
    decreases w,
{
    if exists|j: int| 0 <= j < w && occurs_at(h, n, j) {
        let j = choose|j: int| 0 <= j < w && occurs_at(h, n, j);
        lemma_least_occurrence(h, n, j);
    }
}

/// A frame found in a buffer lies inside it and holds both markers.
pub proof fn lemma_frame_bounds(buf: Seq<u8>)
    ensures
        frame_bounds(buf) matches Some((s, e)) ==> 0 <= s && s + 2 <= e <= buf.len(),
{
    reveal(frame_bounds);
    lemma_first_occurrence(buf, soi());
    if let Some(s) = first_occurrence(buf, soi()) {
        lemma_first_occurrence(buf.skip(s), eoi());
    }
}

/// All complete frames in a buffer, in order, and what is left after the last.
#[verifier::opaque]
pub open spec fn all_frames(buf: Seq<u8>) -> (Seq<Seq<u8>>, Seq<u8>)
    decreases buf.len(),
{
    match frame_bounds(buf) {
        Some((s, e)) => {
            proof {
                lemma_frame_bounds(buf);
            }
            if 0 <= s && s + 2 <= e <= buf.len() {
                let (fs, rest) = all_frames(buf.skip(e));
                (seq![buf.subrange(s, e)] + fs, rest)
            } else {
                (Seq::empty(), buf)
            }
        },
        None => (Seq::empty(), buf),
    }
}

/// The frames of a buffer: the first one, then those of what follows it;
/// none when the buffer holds no complete frame.
pub proof fn lemma_all_frames_step(buf: Seq<u8>)
    ensures
        frame_bounds(buf) matches Some((s, e)) ==> all_frames(buf) == (
            seq![buf.subrange(s, e)] + all_frames(buf.skip(e)).0,
            all_frames(buf.skip(e)).1,
        ),
        frame_bounds(buf) is None ==> all_frames(buf) == (Seq::<Seq<u8>>::empty(), buf),
{
    lemma_frame_bounds(buf);
    reveal(all_frames);
}

/// Adds a chunk of the stream to the buffer and takes out every complete
/// frame, in order. What is left stays for the next chunk, unless it has
/// grown past the limit, in which case it is dropped.
pub fn take_frames(buf: &mut Vec<u8>, chunk: &[u8]) -> (frames: Vec<Vec<u8>>)
    ensures
        ({
            let (fs, rest) = all_frames(old(buf)@ + chunk@);
            &&& frames@.len() == fs.len()
            &&& forall|i: int| 0 <= i < fs.len() ==> (#[trigger] frames@[i])@ == fs[i]
            &&& final(buf)@ == if rest.len() > MAX_BUFFER_BYTES {
                Seq::<u8>::empty()
            } else {
                rest
            }
        }),
{
    let mut i: usize = 0;
    while i < chunk.len()
        invariant
            i <= chunk@.len(),
            buf@ == old(buf)@ + chunk@.take(i as int),
        decreases chunk@.len() - i,
    {
        buf.push(chunk[i]);
        i += 1;
        assert(buf@ =~= old(buf)@ + chunk@.take(i as int));
    }
    assert(chunk@.take(chunk@.len() as int) =~= chunk@);
    let ghost whole = buf@;
    let ghost fs = all_frames(whole).0;
    let ghost rest = all_frames(whole).1;
    let mut frames: Vec<Vec<u8>> = Vec::new();
    assert(fs.skip(0) =~= fs);
    loop
        invariant
            fs == all_frames(whole).0,
            rest == all_frames(whole).1,
            frames@.len() <= fs.len(),
            forall|k: int| 0 <= k < frames@.len() ==> (#[trigger] frames@[k])@ == fs[k],
            all_frames(buf@).0 == fs.skip(frames@.len() as int),
            all_frames(buf@).1 == rest,
        ensures
            frames@.len() == fs.len(),
            forall|k: int| 0 <= k < frames@.len() ==> (#[trigger] frames@[k])@ == fs[k],
            buf@ == rest,
        decreases buf@.len(),
    {
        let ghost before = buf@;
        proof {
            lemma_frame_bounds(before);
            lemma_all_frames_step(before);
        }
        match try_extract_frame(buf) {
            Some(f) => {
                proof {
                    let k = frames@.len() as int;
                    assert(fs.skip(k)[0] == f@);
                    assert(fs.skip(k + 1) =~= fs.skip(k).drop_first());
                    assert(all_frames(buf@).0 =~= fs.skip(k).drop_first());
                }
                frames.push(f);
            },
            None => {
                proof {
                    assert(fs.skip(frames@.len() as int).len() == 0);
                }
                break;
            },
        }
    }
    if buf.len() > MAX_BUFFER_BYTES {
        buf.clear();
    }
    frames
}

/// The grabber's state, as the rest of the program sees it.
pub struct CameraStatus {
    pub connected: bool,
    /// Frames seen since start, wrapping past the largest count.
    pub frame_count: u64,
    /// When the last frame came, in Unix milliseconds; -1 before the first.
    pub last_frame_ms: i64,
}

impl CameraStatus {
    pub fn new() -> (s: CameraStatus)
        ensures
            !s.connected,
            s.frame_count == 0,
            s.last_frame_ms == -1,
    {
        CameraStatus { connected: false, frame_count: 0, last_frame_ms: -1 }
    }

    /// Notes a frame that came at `now_ms`.
    pub fn record_frame(&mut self, now_ms: i64)
        ensures
            final(self).frame_count == old(self).frame_count.wrapping_add(1),
            final(self).last_frame_ms == now_ms,
            final(self).connected == old(self).connected,
    {
        self.frame_count = self.frame_count.wrapping_add(1);
        self.last_frame_ms = now_ms;
    }
}

/// The address of the camera's MJPEG stream.
pub fn stream_url(camera_ip: &str) -> (u: String)
    ensures
        u@ == "http://"@ + camera_ip@ + ":8080/?action=stream"@,
{
    let mut u = "http://".to_owned();
    push_str(&mut u, camera_ip);
    push_str(&mut u, ":8080/?action=stream");
    u
}

/// The grabber's wait before the next connection, and the wait after it:
/// a stream that lasted ten seconds or more resets the wait to two seconds;
/// each wait doubles the next one, up to thirty seconds.
pub fn grabber_wait(backoff: u64, stream_secs: Option<u64>) -> (r: (u64, u64))
    requires
        backoff <= 30,
    ensures
        ({
            let w = match stream_secs {
                Some(t) => if t >= 10 {
                    2
                } else {
                    backoff as int
                },
                None => backoff as int,
            };
            &&& r.0 == w
            &&& r.1 == if 2 * w < 30 {
                2 * w
            } else {
                30
            }
        }),
{
    let w = match stream_secs {
        Some(t) => if t >= 10 {
            2
        } else {
            backoff
        },
        None => backoff,
    };
    let next = if 2 * w < 30 {
        2 * w
    } else {
        30
    };
    (w, next)
}

} // verus!
