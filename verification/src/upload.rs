//! Sending a file to the printer in chunks: the chunk boundaries, the
//! `Content-Range` of each, the file's MD5 and name, and how the printer's
//! answer to a chunk is read.

use vstd::prelude::*;

use crate::error::AppError;
use crate::json::{Json, JsonNumber, JsonView, NumberView, field_view, jv};
use crate::text::{chars_of, digit_char, digit_of, digits, push_char, push_digits, push_i64, push_str, dec, string_of_prefix};

verus! {

/// The size of a chunk: the slicer's, so that the printer's
/// acknowledgements stay in step.
pub const CHUNK_SIZE: usize = 1048576;

/// The last byte of the chunk that starts at `start`.
pub open spec fn chunk_end_view(start: int, total: int) -> int {
    if start + CHUNK_SIZE - 1 < total - 1 {
        start + CHUNK_SIZE - 1
    } else {
        total - 1
    }
}

/// The last byte of the chunk that starts at `start`, of a file of `total` bytes.
pub fn chunk_end(start: usize, total: usize) -> (end: usize)
    requires
        start < total,
    ensures
        end == chunk_end_view(start as int, total as int),
        start <= end < total,
{
    if total - 1 - start < CHUNK_SIZE - 1 {
        total - 1
    } else {
        start + CHUNK_SIZE - 1
    }
}

/// The chunks of a file, as (first byte, last byte), in order.
pub fn chunk_plan(total: usize) -> (chunks: Vec<(usize, usize)>)
    ensures
        total == 0 ==> chunks@.len() == 0,
        total > 0 ==> chunks@.len() > 0 && chunks@[0].0 == 0 && chunks@.last().1 == total - 1,
        forall|i: int|
            0 <= i < chunks@.len() ==> (#[trigger] chunks@[i]).0 <= chunks@[i].1 < total
                && chunks@[i].1 == chunk_end_view(chunks@[i].0 as int, total as int),
        forall|i: int| 0 <= i < chunks@.len() - 1 ==> #[trigger] chunks@[i + 1].0 == chunks@[i].1 + 1,
        forall|i: int|
            0 <= i < chunks@.len() - 1 ==> (#[trigger] chunks@[i]).1 - chunks@[i].0 + 1 == CHUNK_SIZE,
{
    let mut chunks: Vec<(usize, usize)> = Vec::new();
    let mut start: usize = 0;
    while start < total
        invariant
            start <= total,
            chunks@.len() == 0 ==> start == 0,
            chunks@.len() > 0 ==> chunks@[0].0 == 0 && start == chunks@.last().1 + 1,
            forall|i: int|
                0 <= i < chunks@.len() ==> (#[trigger] chunks@[i]).0 <= chunks@[i].1 < total
                    && chunks@[i].1 == chunk_end_view(chunks@[i].0 as int, total as int),
            forall|i: int| 0 <= i < chunks@.len() - 1 ==> #[trigger] chunks@[i + 1].0 == chunks@[i].1 + 1,
            forall|i: int|
                0 <= i < chunks@.len() - 1 ==> (#[trigger] chunks@[i]).1 - chunks@[i].0 + 1
                    == CHUNK_SIZE,
        decreases total - start,
    {
        let end = chunk_end(start, total);
        let ghost before = chunks@;
        chunks.push((start, end));
        proof {
            if before.len() > 0 {
                let l = before.len() - 1;
                assert(chunks@[l] == before[l]);
                assert(before[l].1 < total - 1);
                assert(before[l].1 - before[l].0 + 1 == CHUNK_SIZE);
            }
        }
        start = end + 1;
    }
    chunks
}

/// `bytes <start>-<end>/<total>`.
pub open spec fn content_range_view(start: nat, end: nat, total: nat) -> Seq<char> {
    "bytes "@ + digits(start, 10) + "-"@ + digits(end, 10) + "/"@ + digits(total, 10)
}

/// The `Content-Range` of a chunk.
pub fn content_range(start: usize, end: usize, total: usize) -> (s: String)
    ensures
        s@ == content_range_view(start as nat, end as nat, total as nat),
{
    let mut s = "bytes ".to_owned();
    push_digits(&mut s, start as u64, 10);
    push_str(&mut s, "-");
    push_digits(&mut s, end as u64, 10);
    push_str(&mut s, "/");
    push_digits(&mut s, total as u64, 10);
    s
}

/// The MD5 digest of some bytes.
pub uninterp spec fn md5_of(data: Seq<u8>) -> Seq<u8>;

/// Calls `md5::compute`, which returns the 16-byte MD5 digest of its input;
/// the digest depends on the input alone.
#[verifier::external_body]
fn md5_digest(data: &[u8]) -> (d: Vec<u8>)
    ensures
        d@ == md5_of(data@),
        d@.len() == 16,
{
    md5::compute(data).0.to_vec()
}

/// Two lower-case hexadecimal digits per byte, as the digest's `{:x}` writes them.
pub open spec fn hex_view(bytes: Seq<u8>) -> Seq<char>
    decreases bytes.len(),
{
    if bytes.len() == 0 {
        Seq::empty()
    } else {
        hex_view(bytes.drop_last()) + seq![
            digit_char((bytes.last() / 16) as nat),
            digit_char((bytes.last() % 16) as nat),
        ]
    }
}

/// Lower-case hexadecimal text of some bytes.
pub fn to_hex(bytes: &[u8]) -> (s: String)
    ensures
        s@ == hex_view(bytes@),
        s@.len() == 2 * bytes@.len(),
{
    let mut s = String::new();
    let mut i: usize = 0;
    while i < bytes.len()
        invariant
            i <= bytes@.len(),
            s@ == hex_view(bytes@.take(i as int)),
            s@.len() == 2 * i,
        decreases bytes@.len() - i,
    {
        let b = bytes[i];
        push_char(&mut s, digit_of((b / 16) as u64));
        push_char(&mut s, digit_of((b % 16) as u64));
        assert(bytes@.take(i + 1).drop_last() =~= bytes@.take(i as int));
        i += 1;
    }
    assert(bytes@.take(bytes@.len() as int) =~= bytes@);
    s
}

/// The MD5 of some bytes, as 32 lower-case hexadecimal digits.
pub fn md5_hex(data: &[u8]) -> (s: String)
    ensures
        s@ == hex_view(md5_of(data@)),
        s@.len() == 32,
{
    let d = md5_digest(data);
    to_hex(d.as_slice())
}

/// The name of an uploaded file when none was given: the MD5 of its first
/// 4096 bytes in hexadecimal, then `.gcode`, which the printer requires.
pub open spec fn fallback_name_view(body: Seq<u8>) -> Seq<char> {
    hex_view(md5_of(body.take(if body.len() < 4096 { body.len() as int } else { 4096 }))) + ".gcode"@
}

/// The name of an uploaded file: the given one when it is not empty, else
/// a name made from the file's first bytes.
pub fn extract_filename(header_name: Option<&str>, body: &[u8]) -> (name: String)
    ensures
        name@ == match header_name {
            Some(h) => if h@.len() > 0 {
                h@
            } else {
                fallback_name_view(body@)
            },
            None => fallback_name_view(body@),
        },
{
    match header_name {
        Some(h) => if !h.is_empty() {
            return h.to_owned();
        },
        None => {},
    }
    let n: usize = if body.len() < 4096 {
        body.len()
    } else {
        4096
    };
    let mut head: Vec<u8> = Vec::new();
    let mut i: usize = 0;
    while i < n
        invariant
            n <= body@.len(),
            i <= n,
            head@ == body@.take(i as int),
        decreases n - i,
    {
        head.push(body[i]);
        i += 1;
        assert(head@ =~= body@.take(i as int));
    }
    let mut name = md5_hex(head.as_slice());
    push_str(&mut name, ".gcode");
    name
}

/// Checks that an upload can start: the printer has an address and the file
/// is not empty.
pub fn upload_preflight(printer_ip: &str, total: usize) -> (r: Result<(), AppError>)
    ensures
        printer_ip@.len() == 0 ==> (r matches Err(AppError::Validation(m)) && m@
            == "printer IP not configured"@),
        printer_ip@.len() > 0 && total == 0 ==> (r matches Err(AppError::Validation(m)) && m@
            == "empty file"@),
        printer_ip@.len() > 0 && total > 0 ==> r is Ok,
{
    if printer_ip.is_empty() {
        return Err(AppError::Validation("printer IP not configured".to_owned()));
    }
    if total == 0 {
        return Err(AppError::Validation("empty file".to_owned()));
    }
    Ok(())
}

/// The error code in the printer's answer to a chunk: its `error_code` when
/// that is an integer that fits 64 signed bits, else zero.
pub open spec fn ack_code_view(ack: JsonView) -> i64 {
    match field_view(ack, "error_code"@) {
        Some(JsonView::Number(NumberView::PosInt(n))) => if n <= i64::MAX {
            n as i64
        } else {
            0
        },
        Some(JsonView::Number(NumberView::NegInt(i))) => i,
        _ => 0,
    }
}

/// Reads the printer's answer to a chunk: an error when it carries a
/// nonzero code.
pub fn check_ack(ack: &Json, start: usize, end: usize) -> (r: Result<(), AppError>)
    ensures
        ack_code_view(jv(*ack)) == 0 ==> r is Ok,
        ack_code_view(jv(*ack)) != 0 ==> (r matches Err(AppError::Validation(m)) && m@
            == "printer upload error on chunk "@ + digits(start as nat, 10) + "-"@ + digits(
            end as nat,
            10,
        ) + ": error_code="@ + dec(ack_code_view(jv(*ack)) as int)),
{
    let code: i64 = match ack.get("error_code") {
        Some(Json::Number(JsonNumber::PosInt(n))) => if *n <= 9223372036854775807u64 {
            *n as i64
        } else {
            0
        },
        Some(Json::Number(JsonNumber::NegInt(i))) => *i,
        _ => 0,
    };
    if code != 0 {
        let mut m = "printer upload error on chunk ".to_owned();
        push_digits(&mut m, start as u64, 10);
        push_str(&mut m, "-");
        push_digits(&mut m, end as u64, 10);
        push_str(&mut m, ": error_code=");
        push_i64(&mut m, code);
        return Err(AppError::Validation(m));
    }
    Ok(())
}

/// What follows the status in the message about a refused chunk: nothing
/// when the printer said nothing, else a dash and the first 200 characters
/// of what it said.
pub fn rejection_detail(snippet: &str) -> (d: String)
    ensures
        d@ == if snippet@.len() == 0 {
            Seq::<char>::empty()
        } else {
            "  -  "@ + snippet@.take(if snippet@.len() < 200 { snippet@.len() as int } else { 200 })
        },
{
    if snippet.is_empty() {
        return String::new();
    }
    let chars = chars_of(snippet);
    let n: usize = if chars.len() < 200 {
        chars.len()
    } else {
        200
    };
    let head = string_of_prefix(chars.as_slice(), n);
    let mut d = "  -  ".to_owned();
    push_str(&mut d, head.as_str());
    d
}

} // verus!
