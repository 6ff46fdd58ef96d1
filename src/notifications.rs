//! Desktop notices for repository events: what each says and how long it
//! stays. Showing them is up to the caller.

use vstd::prelude::*;
use crate::text::{decimal, decimal_string, join, join3};

verus! {

/// A desktop notice.
#[derive(Debug, Clone)]
pub struct Notice {
    pub summary: String,
    pub body: String,
    pub timeout_ms: u32,
}

/// A repository changed.
pub fn notify_repo_change(repo_path: &str, change_type: &str) -> (r: Notice)
    ensures
        r.summary@ == "git-nexus"@,
        r.body@ == repo_path@ + ": "@ + change_type@,
        r.timeout_ms == 5000,
{
    Notice { summary: "git-nexus".to_owned(), body: join3(repo_path, ": ", change_type), timeout_ms: 5000 }
}

/// Several repositories changed.
pub fn notify_multiple_changes(count: usize) -> (r: Notice)
    ensures
        r.summary@ == "git-nexus"@,
        r.body@ == decimal(count as nat) + " repositories have changed"@,
        r.timeout_ms == 5000,
{
    Notice {
        summary: "git-nexus".to_owned(),
        body: join(decimal_string(count).as_str(), " repositories have changed"),
        timeout_ms: 5000,
    }
}

/// Issues were found in a repository.
pub fn notify_issues(repo_path: &str, issue_count: usize) -> (r: Notice)
    ensures
        r.summary@ == "git-nexus - Issues Detected"@,
        r.body@ == repo_path@ + ": "@ + decimal(issue_count as nat) + " issues found"@,
        r.timeout_ms == 7000,
{
    let head = join3(repo_path, ": ", decimal_string(issue_count).as_str());
    Notice {
        summary: "git-nexus - Issues Detected".to_owned(),
        body: join(head.as_str(), " issues found"),
        timeout_ms: 7000,
    }
}

/// An operation succeeded.
pub fn notify_success(message: &str) -> (r: Notice)
    ensures
        r.summary@ == "git-nexus - Success"@,
        r.body@ == message@,
        r.timeout_ms == 4000,
{
    Notice { summary: "git-nexus - Success".to_owned(), body: message.to_owned(), timeout_ms: 4000 }
}

/// An operation failed.
pub fn notify_error(message: &str) -> (r: Notice)
    ensures
        r.summary@ == "git-nexus - Error"@,
        r.body@ == message@,
        r.timeout_ms == 7000,
{
    Notice { summary: "git-nexus - Error".to_owned(), body: message.to_owned(), timeout_ms: 7000 }
}

} // verus!
