//! The requests of the web interface and how each is checked and read
//! before it reaches the printer.

use vstd::prelude::*;

use crate::error::AppError;
use crate::json::{Json, JsonView, field_view, jv};
use crate::text::{chars_of, digits, lowercased, push_digits, push_str, str_eq, to_lowercase, trim, trimmed};

verus! {

/// A request to start printing a file.
#[derive(Debug, Clone)]
pub struct PrintRequest {
    pub filename: String,
    pub storage_media: String,
    /// "textured" unless given.
    pub plate: String,
    pub tray_id: Option<i64>,
    /// The canvas slot, counted from zero.
    pub tray_slot: Option<i64>,
    pub canvas_id: i64,
    pub timelapse: bool,
    /// On unless given.
    pub bedlevel_force: bool,
}

/// The plate when a print request names none.
pub fn default_plate() -> (s: String)
    ensures
        s@ == "textured"@,
{
    "textured".to_owned()
}

/// A request to home some axes, such as "xy".
#[derive(Debug, Clone)]
pub struct HomeRequest {
    pub axes: String,
}

#[derive(Debug, Clone, Copy)]
pub struct LedRequest {
    pub power: i64,
}

#[derive(Debug, Clone)]
pub struct FanRequest {
    pub name: String,
    pub speed: u8,
}

#[derive(Debug, Clone, Copy)]
pub struct SpeedModeRequest {
    pub mode: u8,
}

#[derive(Debug, Clone, Copy)]
pub struct AutoRefillRequest {
    pub enabled: bool,
}

/// Which page of the printer's file list to show: by page (counted from
/// one), or by offset and limit.
#[derive(Debug, Clone)]
pub struct FileListQuery {
    pub storage: Option<String>,
    pub page_number: Option<i64>,
    pub page_size: Option<i64>,
    pub offset: Option<i64>,
    pub limit: Option<i64>,
}

#[derive(Debug, Clone)]
pub struct FileDetailQuery {
    pub storage: Option<String>,
    pub filename: String,
}

#[derive(Debug, Clone)]
pub struct ThumbnailQuery {
    pub storage: Option<String>,
    pub filename: String,
}

/// The axes text of a homing request: trimmed and in lower case.
pub open spec fn axes_text(axes: Seq<char>) -> Seq<char> {
    lowercased(trimmed(axes))
}

pub open spec fn is_axis(c: char) -> bool {
    c == 'x' || c == 'y' || c == 'z'
}

/// The axes to home: the request's text, trimmed and in lower case, which
/// must be a nonempty combination of x, y and z.
pub fn home_axes_arg(req: &HomeRequest) -> (r: Result<String, AppError>)
    ensures
        ({
            let a = axes_text(req.axes@);
            &&& (a.len() > 0 && forall|i: int| 0 <= i < a.len() ==> is_axis(#[trigger] a[i]))
                ==> r is Ok && r->Ok_0@ == a
            &&& !(a.len() > 0 && forall|i: int| 0 <= i < a.len() ==> is_axis(#[trigger] a[i]))
                ==> (r matches Err(AppError::Validation(m)) && m@
                == "axes must be a non-empty combination of x, y, z"@)
        }),
{
    let t = trim(req.axes.as_str());
    let axes = to_lowercase(t.as_str());
    let chars = chars_of(axes.as_str());
    let mut ok = chars.len() > 0;
    let mut i: usize = 0;
    while i < chars.len()
        invariant
            chars@ == axes@,
            i <= chars@.len(),
            ok == (chars@.len() > 0 && forall|k: int| 0 <= k < i ==> is_axis(#[trigger] chars@[k])),
        decreases chars@.len() - i,
    {
        let c = chars[i];
        if !(c == 'x' || c == 'y' || c == 'z') {
            ok = false;
        }
        i += 1;
    }
    if !ok {
        return Err(AppError::Validation("axes must be a non-empty combination of x, y, z".to_owned()));
    }
    Ok(axes)
}

/// The axis to jog: the request's text, trimmed and in lower case, which
/// must be x, y or z.
pub fn jog_axis_arg(axis: &str) -> (r: Result<String, AppError>)
    ensures
        ({
            let a = axes_text(axis@);
            &&& (a == "x"@ || a == "y"@ || a == "z"@) ==> r is Ok && r->Ok_0@ == a
            &&& !(a == "x"@ || a == "y"@ || a == "z"@) ==> (r matches Err(AppError::Validation(m))
                && m@ == "axis must be x, y, or z"@)
        }),
{
    let t = trim(axis);
    let a = to_lowercase(t.as_str());
    if str_eq(a.as_str(), "x") || str_eq(a.as_str(), "y") || str_eq(a.as_str(), "z") {
        Ok(a)
    } else {
        Err(AppError::Validation("axis must be x, y, or z".to_owned()))
    }
}

/// Whether a LED request turns the light on.
pub fn led_on(req: &LedRequest) -> (b: bool)
    ensures
        b == (req.power != 0),
{
    req.power != 0
}

/// The storage a query names, "local" when it names none.
pub fn storage_or_local(storage: &Option<String>) -> (s: String)
    ensures
        s@ == match storage {
            Some(v) => v@,
            None => "local"@,
        },
{
    match storage {
        Some(v) => v.clone(),
        None => "local".to_owned(),
    }
}

/// Whether reading a query by offset would overflow the page number.
pub open spec fn page_overflows(q: FileListQuery) -> bool {
    !(q.page_number is Some && q.page_size is Some) && ({
        let size: int = match q.limit {
            Some(l) => if l < 1 { 1 } else { l as int },
            None => 50,
        };
        let off: int = match q.offset {
            Some(o) => if o < 0 { 0 } else { o as int },
            None => 0,
        };
        off / size >= i64::MAX
    })
}

/// The page of the file list a query asks for, as (page number, page size):
/// the page and size when both are given, each at least one; else pages of
/// `limit` (50 by default, at least one) and the page that holds `offset`
/// (zero by default, at least zero).
pub open spec fn page_of_query(q: FileListQuery) -> (int, int) {
    match (q.page_number, q.page_size) {
        (Some(pn), Some(ps)) => (
            if pn < 1 {
                1
            } else {
                pn as int
            },
            if ps < 1 {
                1
            } else {
                ps as int
            },
        ),
        _ => {
            let size: int = match q.limit {
                Some(l) => if l < 1 { 1 } else { l as int },
                None => 50,
            };
            let off: int = match q.offset {
                Some(o) => if o < 0 { 0 } else { o as int },
                None => 0,
            };
            (off / size + 1, size)
        },
    }
}

/// Whether the page a query asks for can be numbered: false only for an
/// offset so large, with a limit of one, that its page number overflows.
pub fn page_in_range(q: &FileListQuery) -> (b: bool)
    ensures
        b == !page_overflows(*q),
{
    match (q.page_number, q.page_size) {
        (Some(_), Some(_)) => true,
        _ => {
            let size: i64 = match q.limit {
                Some(l) => if l < 1 {
                    1
                } else {
                    l
                },
                None => 50,
            };
            let off: i64 = match q.offset {
                Some(o) => if o < 0 {
                    0
                } else {
                    o
                },
                None => 0,
            };
            off / size < i64::MAX
        },
    }
}

/// The page of the file list a query asks for.
pub fn file_list_page(q: &FileListQuery) -> (r: (i64, i64))
    requires
        !page_overflows(*q),
    ensures
        (r.0 as int, r.1 as int) == page_of_query(*q),
{
    match (q.page_number, q.page_size) {
        (Some(pn), Some(ps)) => (
            if pn < 1 {
                1
            } else {
                pn
            },
            if ps < 1 {
                1
            } else {
                ps
            },
        ),
        _ => {
            let size: i64 = match q.limit {
                Some(l) => if l < 1 {
                    1
                } else {
                    l
                },
                None => 50,
            };
            let off: i64 = match q.offset {
                Some(o) => if o < 0 {
                    0
                } else {
                    o
                },
                None => 0,
            };
            (off / size + 1, size)
        },
    }
}

/// Checks that a file query names a file.
pub fn require_filename(filename: &str) -> (r: Result<(), AppError>)
    ensures
        filename@.len() > 0 ==> r is Ok,
        filename@.len() == 0 ==> (r matches Err(AppError::Validation(m)) && m@
            == "filename is required"@),
{
    if filename.is_empty() {
        return Err(AppError::Validation("filename is required".to_owned()));
    }
    Ok(())
}

/// The print history in the printer's reply: its `history_task_list` when
/// that is an array, else none.
pub fn history_list(data: &Json) -> (r: Vec<Json>)
    ensures
        match field_view(jv(*data), "history_task_list"@) {
            Some(JsonView::Array(a)) => r@.len() == a.len() && forall|i: int|
                0 <= i < a.len() ==> jv(#[trigger] r@[i]) == a[i],
            _ => r@.len() == 0,
        },
{
    match data.get("history_task_list") {
        Some(Json::Array(a)) => {
            let mut out: Vec<Json> = Vec::new();
            let mut i: usize = 0;
            while i < a.len()
                invariant
                    i <= a@.len(),
                    out@.len() == i,
                    forall|x: int| 0 <= x < i ==> jv(#[trigger] out@[x]) == jv(a@[x]),
                decreases a@.len() - i,
            {
                out.push(crate::json::clone_json(&a[i]));
                i += 1;
            }
            proof {
                let av = field_view(jv(*data), "history_task_list"@)->0->Array_0;
                assert(jv(Json::Array(*a)) == JsonView::Array(av));
                assert forall|x: int| 0 <= x < av.len() implies jv(#[trigger] out@[x]) == av[x] by {
                    assert(jv(out@[x]) == jv(a@[x]));
                }
            }
            out
        },
        _ => Vec::new(),
    }
}

/// The thumbnail in the printer's reply: its `thumbnail` text, else empty.
pub fn thumbnail_of(data: &Json) -> (t: String)
    ensures
        t@ == match field_view(jv(*data), "thumbnail"@) {
            Some(JsonView::Text(s)) => s,
            _ => Seq::empty(),
        },
{
    match data.get("thumbnail") {
        Some(Json::Text(s)) => s.clone(),
        _ => String::new(),
    }
}

/// The most points a detection graph shows, and how many stored points it
/// is drawn from: 20000 for one file, 5000 otherwise.
pub fn history_limits(filename_given: bool, limit: Option<usize>) -> (r: (usize, usize))
    ensures
        r.0 == match limit {
            Some(l) => if l < 300 {
                l
            } else {
                300
            },
            None => 300,
        },
        r.1 == if filename_given {
            20000usize
        } else {
            5000usize
        },
{
    let max_pts: usize = match limit {
        Some(l) => if l < 300 {
            l
        } else {
            300
        },
        None => 300,
    };
    (max_pts, if filename_given {
        20000
    } else {
        5000
    })
}

/// The number of stored points a grouping reads (20000 at most and by
/// default) and the window that joins them (300 seconds by default).
pub fn grouped_limits(limit: Option<usize>, window_secs: Option<u64>) -> (r: (usize, u64))
    ensures
        r.0 == match limit {
            Some(l) => if l < 20000 {
                l
            } else {
                20000
            },
            None => 20000,
        },
        r.1 == match window_secs {
            Some(w) => w,
            None => 300,
        },
{
    let l: usize = match limit {
        Some(l) => if l < 20000 {
            l
        } else {
            20000
        },
        None => 20000,
    };
    let w: u64 = match window_secs {
        Some(w) => w,
        None => 300,
    };
    (l, w)
}

/// How many of the latest events the live view shows.
pub const LIVE_EVENTS: usize = 20;

/// The first of the events the live view shows: the last twenty.
pub fn live_events_start(len: usize) -> (start: usize)
    ensures
        start == if len > LIVE_EVENTS {
            len - LIVE_EVENTS
        } else {
            0
        },
{
    if len > LIVE_EVENTS {
        len - LIVE_EVENTS
    } else {
        0
    }
}

/// The address under which the detection service fetches the camera's
/// snapshot from this server.
pub fn snapshot_proxy_url(port: u16) -> (u: String)
    ensures
        u@ == "http://127.0.0.1:"@ + digits(port as nat, 10) + "/api/camera/snapshot"@,
{
    let mut u = "http://127.0.0.1:".to_owned();
    push_digits(&mut u, port as u64, 10);
    push_str(&mut u, "/api/camera/snapshot");
    u
}

/// The least number of frames that confirm a detection.
pub fn confirmation_frames_min(v: u32) -> (r: u32)
    ensures
        r == if v < 1 {
            1
        } else {
            v
        },
{
    if v < 1 {
        1
    } else {
        v
    }
}

/// The web interface's directory given on the command line, reading the
/// arguments from `i` on: `--webif-dir <dir>` or `--webif-dir=<dir>`, the
/// first that occurs.
pub open spec fn webif_dir_view(args: Seq<Seq<char>>, i: int) -> Option<Seq<char>>
    decreases args.len() - i,
{
    if i < 0 || i >= args.len() {
        None
    } else if args[i] == "--webif-dir"@ && i + 1 < args.len() {
        Some(args[i + 1])
    } else if args[i].len() >= 12 && args[i].take(12) == "--webif-dir="@ {
        Some(args[i].skip(12))
    } else {
        webif_dir_view(args, i + 1)
    }
}

pub open spec fn args_view(args: Seq<String>) -> Seq<Seq<char>> {
    args.map_values(|a: String| a@)
}

/// The web interface's directory given on the command line, if any; the
/// arguments are those after the program's name.
pub fn webif_dir_arg(args: &[String]) -> (r: Option<String>)
    ensures
        match r {
            Some(d) => webif_dir_view(args_view(args@), 0) == Some(d@),
            None => webif_dir_view(args_view(args@), 0) is None,
        },
{
    let ghost av = args_view(args@);
    let flag = chars_of("--webif-dir");
    let prefix = chars_of("--webif-dir=");
    proof {
        reveal_strlit("--webif-dir=");
    }
    let mut i: usize = 0;
    while i < args.len()
        invariant
            av == args_view(args@),
            flag@ == "--webif-dir"@,
            prefix@ == "--webif-dir="@,
            prefix@.len() == 12,
            i <= args@.len(),
            webif_dir_view(av, 0) == webif_dir_view(av, i as int),
        decreases args@.len() - i,
    {
        let a = chars_of(args[i].as_str());
        assert(av[i as int] == args@[i as int]@);
        if crate::text::chars_eq(a.as_slice(), flag.as_slice()) && i + 1 < args.len() {
            assert(av[i + 1] == args@[i + 1]@);
            return Some(args[i + 1].clone());
        }
        if a.len() >= 12 {
            let mut k: usize = 0;
            let mut same = true;
            while k < 12
                invariant
                    a@.len() >= 12,
                    prefix@.len() == 12,
                    k <= 12,
                    same == forall|m: int| 0 <= m < k ==> a@[m] == prefix@[m],
                decreases 12 - k,
            {
                if a[k] != prefix[k] {
                    same = false;
                }
                k += 1;
            }
            if same {
                assert(a@.take(12) =~= prefix@);
                let mut rest = String::new();
                let mut m: usize = 12;
                while m < a.len()
                    invariant
                        12 <= m <= a@.len(),
                        rest@ == a@.subrange(12, m as int),
                    decreases a@.len() - m,
                {
                    crate::text::push_char(&mut rest, a[m]);
                    m += 1;
                    assert(rest@ =~= a@.subrange(12, m as int));
                }
                assert(rest@ =~= a@.skip(12));
                return Some(rest);
            }
            assert(a@.take(12) != "--webif-dir="@) by {
                if a@.take(12) == "--webif-dir="@ {
                    assert forall|m: int| 0 <= m < 12 implies a@[m] == prefix@[m] by {
                        assert(a@.take(12)[m] == a@[m]);
                    }
                }
            }
        }
        i += 1;
    }
    None
}

} // verus!
