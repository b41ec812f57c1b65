//! Whether a newer build of the program is published.

use vstd::prelude::*;

use crate::text::{str_eq, trim, trimmed};

verus! {

/// What the update check last found.
#[derive(Debug, Clone)]
pub struct UpdateStatus {
    pub current_sha: String,
    pub latest_sha: Option<String>,
    pub up_to_date: bool,
}

/// Whether a build is current: builds without a known commit always are;
/// others when the published commit is theirs.
pub open spec fn current_view(current: Seq<char>, latest: Seq<char>) -> bool {
    current.len() == 0 || current == "unknown"@ || latest == current
}

impl UpdateStatus {
    /// Before any check: current, with no published commit known.
    pub fn initial(current_sha: &str) -> (s: UpdateStatus)
        ensures
            s.current_sha@ == current_sha@,
            s.latest_sha is None,
            s.up_to_date,
    {
        UpdateStatus { current_sha: current_sha.to_owned(), latest_sha: None, up_to_date: true }
    }

    /// Takes in the published commit, as the server's text.
    pub fn apply_check(&mut self, body: &str)
        ensures
            final(self).current_sha == old(self).current_sha,
            final(self).latest_sha is Some,
            final(self).latest_sha->0@ == trimmed(body@),
            final(self).up_to_date == current_view(old(self).current_sha@, trimmed(body@)),
    {
        let latest = trim(body);
        let cur = self.current_sha.as_str();
        let up = cur.is_empty() || str_eq(cur, "unknown") || str_eq(latest.as_str(), cur);
        self.latest_sha = Some(latest);
        self.up_to_date = up;
    }
}

} // verus!
