//! Finding the printer's id from the topics it publishes on, and the random
//! client ids a session presents to the printer.

use vstd::prelude::*;

use rand::Rng;

use crate::text::{chars_eq, chars_of, digit_char, digit_of, push_char, push_str, split_chars, split_view, string_of};

verus! {

/// Calls `rand::Rng::gen_range(0..bound)` on the thread's generator, which
/// returns a value below `bound` and panics when the range is empty.
#[verifier::external_body]
fn random_below(bound: u8) -> (r: u8)
    requires
        bound > 0,
    ensures
        r < bound,
{
    rand::thread_rng().gen_range(0..bound)
}

/// Calls `rand::Rng::gen::<u32>()` on the thread's generator, which returns
/// any `u32`.
#[verifier::external_body]
pub(crate) fn random_u32() -> (r: u32) {
    rand::thread_rng().gen::<u32>()
}

/// Whether every character is a digit of the base.
pub open spec fn all_digits(s: Seq<char>, base: nat) -> bool {
    forall|i: int| 0 <= i < s.len() ==> exists|d: nat| d < base && #[trigger] s[i] == digit_char(d)
}

/// `n` random characters, each a digit of `base`.
pub fn random_text(n: usize, base: u8) -> (s: String)
    requires
        2 <= base <= 16,
    ensures
        s@.len() == n,
        all_digits(s@, base as nat),
{
    let mut s = String::new();
    let mut i: usize = 0;
    while i < n
        invariant
            i <= n,
            s@.len() == i,
            2 <= base <= 16,
            all_digits(s@, base as nat),
        decreases n - i,
    {
        let d = random_below(base);
        let c = digit_of(d as u64);
        let ghost old_s = s@;
        push_char(&mut s, c);
        assert forall|j: int| 0 <= j < s@.len() implies exists|e: nat|
            e < base && #[trigger] s@[j] == digit_char(e) by {
            if j < old_s.len() {
                assert(s@[j] == old_s[j]);
            } else {
                assert(s@[j] == digit_char(d as nat));
            }
        }
        i += 1;
    }
    s
}

/// A prefix followed by `n` random digits of `base`.
pub fn random_id(prefix: &str, n: usize, base: u8) -> (s: String)
    requires
        2 <= base <= 16,
    ensures
        s@.len() == prefix@.len() + n,
        s@.subrange(0, prefix@.len() as int) == prefix@,
        all_digits(s@.skip(prefix@.len() as int), base as nat),
{
    let mut s = prefix.to_owned();
    let tail = random_text(n, base);
    push_str(&mut s, tail.as_str());
    assert(s@.subrange(0, prefix@.len() as int) =~= prefix@);
    assert(s@.skip(prefix@.len() as int) =~= tail@);
    s
}

/// The client id of a discovery session: `cc2_disc_` and four decimal digits.
pub fn discovery_client_id() -> (s: String)
    ensures
        s@.len() == "cc2_disc_"@.len() + 4,
        s@.subrange(0, "cc2_disc_"@.len() as int) == "cc2_disc_"@,
        all_digits(s@.skip("cc2_disc_"@.len() as int), 10),
{
    random_id("cc2_disc_", 4, 10)
}

/// The printer id in a topic the printer publishes on:
/// `elegoo/<id>/api_status`, `elegoo/<id>/<client>/api_request` or
/// `elegoo/<id>/<client>/api_response`, with a nonempty id.
pub open spec fn printer_id_view(topic: Seq<char>) -> Option<Seq<char>> {
    let p = split_view(topic, '/');
    if p.len() == 3 && p[0] == "elegoo"@ && p[1].len() > 0 && p[2] == "api_status"@ {
        Some(p[1])
    } else if p.len() == 4 && p[0] == "elegoo"@ && p[1].len() > 0 && (p[3] == "api_request"@
        || p[3] == "api_response"@) {
        Some(p[1])
    } else {
        None
    }
}

/// The printer id in a topic, if the topic is one the printer publishes on.
pub fn extract_printer_id_from_topic(topic: &str) -> (r: Option<String>)
    ensures
        match r {
            Some(id) => printer_id_view(topic@) == Some(id@),
            None => printer_id_view(topic@) is None,
        },
{
    let chars = chars_of(topic);
    let parts = split_chars(chars.as_slice(), '/');
    let ghost p = split_view(topic@, '/');
    let elegoo = chars_of("elegoo");
    let api_status = chars_of("api_status");
    let api_request = chars_of("api_request");
    let api_response = chars_of("api_response");
    if parts.len() == 3 {
        assert(parts@[0]@ == p[0] && parts@[1]@ == p[1] && parts@[2]@ == p[2]);
        if chars_eq(parts[0].as_slice(), elegoo.as_slice()) && parts[1].len() > 0 && chars_eq(
            parts[2].as_slice(),
            api_status.as_slice(),
        ) {
            return Some(string_of(parts[1].as_slice()));
        }
    } else if parts.len() == 4 {
        assert(parts@[0]@ == p[0] && parts@[1]@ == p[1] && parts@[3]@ == p[3]);
        if chars_eq(parts[0].as_slice(), elegoo.as_slice()) && parts[1].len() > 0 && (chars_eq(
            parts[3].as_slice(),
            api_request.as_slice(),
        ) || chars_eq(parts[3].as_slice(), api_response.as_slice())) {
            return Some(string_of(parts[1].as_slice()));
        }
    }
    None
}

} // verus!
