//! The decisions around MusicBrainz requests: when an existing output is kept, how browsing pages through the releases of
//! a release group, and when a failed request is retried.
use crate::collect_musicbrainz::{browse_releases_url, browse_url_text};
use crate::fetch_models::{FetchPlan, OverwriteMode};
use crate::json::Json;
use vstd::prelude::*;

verus! {

/// Releases asked for per browse page.
pub const BROWSE_LIMIT: usize = 100;

/// The fetcher does nothing when the output file exists and may not be replaced.
pub fn should_skip(plan: &FetchPlan, output_exists: bool) -> (skip: bool)
    ensures
        skip == (plan.output_path is Some && plan.overwrite == OverwriteMode::Preserve
            && output_exists),
{
    plan.output_path.is_some() && plan.overwrite == OverwriteMode::Preserve && output_exists
}

/// The `releases` array of a browse page.
pub open spec fn page_releases(page: Json) -> Option<Seq<Json>> {
    match page.field("releases"@) {
        Some(r) => r.items(),
        None => None,
    }
}

/// The `release-count` of a browse page, or 0 when it is missing or does not
/// fit in a `usize`.
pub open spec fn page_total(page: Json) -> nat {
    match page.field("release-count"@) {
        Some(c) => match c.unsigned() {
            Some(n) => if n <= usize::MAX {
                n as nat
            } else {
                0
            },
            None => 0,
        },
        None => 0,
    }
}

/// Where browsing stands: how many releases were gathered so far.
#[derive(Debug)]
pub struct BrowseState {
    pub offset: usize,
}

/// What to do with a page just read: whether its releases are gathered, and
/// whether another page is to be asked for.
#[derive(Debug)]
pub struct PageStep {
    pub append: bool,
    pub more: bool,
}

/// Browsing after one page: a page without releases ends it; otherwise the
/// releases are gathered, and browsing goes on while fewer than the announced
/// total were gathered.
pub open spec fn browse_step(offset: nat, page: Json) -> (nat, bool, bool) {
    match page_releases(page) {
        Some(rs) => if rs.len() > 0 {
            (offset + rs.len(), true, offset + rs.len() < page_total(page))
        } else {
            (offset, false, false)
        },
        None => (offset, false, false),
    }
}

impl BrowseState {
    /// Browsing from the first release.
    pub fn new() -> (s: BrowseState)
        ensures
            s.offset == 0,
    {
        BrowseState { offset: 0 }
    }

    /// The URL of the next page.
    pub fn page_url(&self, rg_id: &str) -> (u: String)
        ensures
            u@ == browse_url_text(rg_id@, BROWSE_LIMIT as nat, self.offset as nat),
    {
        browse_releases_url(rg_id, BROWSE_LIMIT as u64, self.offset as u64)
    }

    /// Takes in one page.
    pub fn take_page(&mut self, page: &Json) -> (step: PageStep)
        requires
            page_releases(*page) matches Some(rs) ==> old(self).offset + rs.len() <= usize::MAX,
        ensures
            (final(self).offset as nat, step.append, step.more) == browse_step(
                old(self).offset as nat,
                *page,
            ),
    {
        let total: usize = match page.get("release-count") {
            Some(c) => match c.as_u64() {
                Some(n) => if n <= usize::MAX as u64 {
                    n as usize
                } else {
                    0
                },
                None => 0,
            },
            None => 0,
        };
        let releases = match page.get("releases") {
            Some(r) => match r.as_array() {
                Some(a) => a,
                None => return PageStep { append: false, more: false },
            },
            None => return PageStep { append: false, more: false },
        };
        if releases.len() == 0 {
            return PageStep { append: false, more: false };
        }
        self.offset = self.offset + releases.len();
        PageStep { append: true, more: self.offset < total }
    }
}

/// What a request came back with: an HTTP status, or no response at all.
#[derive(Debug, Clone, Copy)]
pub enum Attempt {
    Response(u16),
    Failed,
}

/// What to do after a request.
#[derive(Debug, Clone, Copy, PartialEq, Eq, Structural)]
pub enum RetryAction {
    /// The response succeeded: read its body.
    ReadBody,
    /// Wait, then send the request again.
    RetryLater,
    /// Report the status of the response.
    GiveUpStatus,
    /// Report the failure of the request.
    GiveUpRequest,
}

/// A 2xx status.
pub open spec fn is_success(status: u16) -> bool {
    200 <= status <= 299
}

/// A status worth retrying: a server error (5xx) or 429 Too Many Requests.
pub open spec fn is_retryable(status: u16) -> bool {
    (500 <= status <= 599) || status == 429
}

/// How many retries were spent, out of how many allowed.
#[derive(Debug, Clone, Copy)]
pub struct RetryState {
    pub attempts: usize,
    pub retry_count: usize,
}

/// The retry policy: a success is read; a retryable status or a failed request is
/// retried while retries remain; anything else is given up.
pub open spec fn retry_step(s: RetryState, a: Attempt) -> (RetryState, RetryAction) {
    match a {
        Attempt::Response(status) => if is_success(status) {
            (s, RetryAction::ReadBody)
        } else if s.attempts < s.retry_count && is_retryable(status) {
            (RetryState { attempts: (s.attempts + 1) as usize, ..s }, RetryAction::RetryLater)
        } else {
            (s, RetryAction::GiveUpStatus)
        },
        Attempt::Failed => if s.attempts < s.retry_count {
            (RetryState { attempts: (s.attempts + 1) as usize, ..s }, RetryAction::RetryLater)
        } else {
            (s, RetryAction::GiveUpRequest)
        },
    }
}

/// A 2xx status.
pub fn status_is_success(status: u16) -> (b: bool)
    ensures
        b == is_success(status),
{
    200 <= status && status <= 299
}

/// A retryable status.
pub fn status_is_retryable(status: u16) -> (b: bool)
    ensures
        b == is_retryable(status),
{
    (500 <= status && status <= 599) || status == 429
}

impl RetryState {
    /// No retry spent yet.
    pub fn new(retry_count: usize) -> (s: RetryState)
        ensures
            s.attempts == 0,
            s.retry_count == retry_count,
    {
        RetryState { attempts: 0, retry_count }
    }

    /// Decides what follows a request.
    pub fn on_attempt(&mut self, a: Attempt) -> (act: RetryAction)
        ensures
            (*final(self), act) == retry_step(*old(self), a),
    {
        match a {
            Attempt::Response(status) => {
                if status_is_success(status) {
                    RetryAction::ReadBody
                } else if self.attempts < self.retry_count && status_is_retryable(status) {
                    self.attempts = self.attempts + 1;
                    RetryAction::RetryLater
                } else {
                    RetryAction::GiveUpStatus
                }
            },
            Attempt::Failed => {
                if self.attempts < self.retry_count {
                    self.attempts = self.attempts + 1;
                    RetryAction::RetryLater
                } else {
                    RetryAction::GiveUpRequest
                }
            },
        }
    }
}

} // verus!
