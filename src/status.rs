//! The status record of one repository, assembled from what the Git backend
//! reports about it.

use vstd::prelude::*;
use crate::hooks::GitHooks;
use crate::resolution::{short_id, short_id_of};
use crate::text::{
    chars_of, ends_with, find_from, find_from_exec, join, lemma_find_from, occurs_at, slice_chars,
    starts_with, starts_with_exec, string_of,
};

verus! {

/// The last commit of a repository.
#[derive(Debug, Clone)]
pub struct CommitInfo {
    /// First line of the commit message.
    pub message: String,
    /// Author name.
    pub author: String,
    /// Local time, `YYYY-MM-DD HH:MM:SS`.
    pub timestamp: String,
    /// Short commit hash (seven characters).
    pub hash: String,
}

/// The details that only a verbose scan gathers; present or absent together.
#[derive(Debug, Clone)]
pub struct VerboseStatus {
    pub stash_count: usize,
    pub modified_count: usize,
    pub untracked_count: usize,
    pub last_commit: Option<CommitInfo>,
}

/// The status of one repository.
#[derive(Debug, Clone)]
pub struct RepoStatus {
    /// Repository root.
    pub path: String,
    /// No modified and no untracked files.
    pub is_clean: bool,
    /// Commits on the local branch that its upstream lacks.
    pub ahead: usize,
    /// Commits on the upstream that the local branch lacks.
    pub behind: usize,
    /// Branch name, `detached@<hash>`, `<name> (no commits)`, or unknown.
    pub branch: Option<String>,
    /// Verbose details.
    pub verbose: Option<VerboseStatus>,
    /// Hooks, when asked for.
    pub hooks: Option<GitHooks>,
}

/// What HEAD is, as the backend reports it.
#[derive(Debug, Clone)]
pub enum HeadState {
    /// HEAD is the named local branch.
    Branch { name: String },
    /// HEAD points at this commit id.
    Detached { target: String },
    /// The branch has no commits yet; `head_ref` is HEAD's symbolic target if readable.
    Unborn { head_ref: Option<String> },
    /// HEAD cannot be resolved.
    Unreadable,
}

/// The kind of one working-tree or index entry.
#[derive(Debug, Clone, Copy, PartialEq, Eq, Structural)]
pub struct ChangeKind {
    pub index_new: bool,
    pub index_modified: bool,
    pub index_deleted: bool,
    pub index_renamed: bool,
    pub index_typechange: bool,
    pub wt_new: bool,
    pub wt_modified: bool,
    pub wt_deleted: bool,
    pub wt_renamed: bool,
    pub wt_typechange: bool,
    /// The file has unresolved merge conflicts.
    pub conflicted: bool,
    /// Reported with none of the kinds above (an unreadable file, for example).
    pub unrecognized: bool,
}

/// Everything the backend reported about one repository.
#[derive(Debug, Clone)]
pub struct RepoFacts {
    pub path: String,
    pub head: HeadState,
    /// Working-tree and index entries, untracked files included, ignored ones not.
    pub changes: Vec<ChangeKind>,
    /// Commits ahead and behind the upstream, when there is one.
    pub divergence: Option<(usize, usize)>,
    pub stash_count: usize,
    pub last_commit: Option<CommitInfo>,
    pub hooks: Option<GitHooks>,
}

pub open spec fn opt_view(s: Option<String>) -> Option<Seq<char>> {
    match s {
        Some(x) => Some(x@),
        None => None,
    }
}

/// A new file that is not yet staged.
pub open spec fn is_untracked(c: ChangeKind) -> bool {
    c.wt_new
}

/// Any change to a tracked file, staged or not; a conflicted entry, or one
/// of no recognized kind, counts too.
pub open spec fn is_tracked_change(c: ChangeKind) -> bool {
    !c.wt_new && (c.wt_modified || c.wt_deleted || c.wt_renamed || c.wt_typechange || c.index_new
        || c.index_modified || c.index_deleted || c.index_renamed || c.index_typechange
        || c.conflicted || c.unrecognized)
}

pub open spec fn count_untracked(cs: Seq<ChangeKind>) -> nat
    decreases cs.len(),
{
    if cs.len() == 0 {
        0
    } else {
        count_untracked(cs.drop_last()) + if is_untracked(cs.last()) { 1nat } else { 0nat }
    }
}

pub open spec fn count_modified(cs: Seq<ChangeKind>) -> nat
    decreases cs.len(),
{
    if cs.len() == 0 {
        0
    } else {
        count_modified(cs.drop_last()) + if is_tracked_change(cs.last()) { 1nat } else { 0nat }
    }
}

pub proof fn lemma_counts_bounded(cs: Seq<ChangeKind>)
    ensures
        count_untracked(cs) + count_modified(cs) <= cs.len(),
    decreases cs.len(),
{
    if cs.len() > 0 {
        lemma_counts_bounded(cs.drop_last());
    }
}

/// Counts (modified, untracked) entries; no entry is counted twice.
pub fn count_file_changes(changes: &Vec<ChangeKind>) -> (r: (usize, usize))
    ensures
        r.0 == count_modified(changes@),
        r.1 == count_untracked(changes@),
{
    let mut modified: usize = 0;
    let mut untracked: usize = 0;
    let mut i: usize = 0;
    while i < changes.len()
        invariant
            i <= changes@.len(),
            modified == count_modified(changes@.subrange(0, i as int)),
            untracked == count_untracked(changes@.subrange(0, i as int)),
        decreases changes@.len() - i,
    {
        let ghost next = changes@.subrange(0, i + 1);
        assert(next.drop_last() =~= changes@.subrange(0, i as int));
        proof {
            lemma_counts_bounded(next);
        }
        let c = changes[i];
        if c.wt_new {
            untracked = untracked + 1;
        } else if c.wt_modified || c.wt_deleted || c.wt_renamed || c.wt_typechange || c.index_new
            || c.index_modified || c.index_deleted || c.index_renamed || c.index_typechange
            || c.conflicted || c.unrecognized {
            modified = modified + 1;
        }
        i = i + 1;
    }
    assert(changes@.subrange(0, changes@.len() as int) =~= changes@);
    (modified, untracked)
}

/// `s` without the prefix `p`, when it has it.
pub open spec fn strip_prefix(s: Seq<char>, p: Seq<char>) -> Seq<char> {
    if starts_with(s, p) { s.subrange(p.len() as int, s.len() as int) } else { s }
}

/// The branch label for a HEAD state.
pub open spec fn branch_label_of(h: HeadState) -> Option<Seq<char>> {
    match h {
        HeadState::Branch { name } => Some(name@),
        HeadState::Detached { target } => Some("detached@"@ + short_id(target@)),
        HeadState::Unborn { head_ref } => match head_ref {
            Some(t) => Some(strip_prefix(t@, "refs/heads/"@) + " (no commits)"@),
            None => Some("(no commits)"@),
        },
        HeadState::Unreadable => None,
    }
}

/// Ahead/behind counts: only a named branch with an upstream has any.
pub open spec fn divergence_of(h: HeadState, d: Option<(usize, usize)>) -> (usize, usize) {
    match h {
        HeadState::Branch { .. } => match d {
            Some(ab) => ab,
            None => (0, 0),
        },
        _ => (0, 0),
    }
}

/// The verbose group of a status record.
pub open spec fn verbose_of(facts: RepoFacts, verbose: bool) -> Option<VerboseStatus> {
    if verbose {
        Some(VerboseStatus {
            stash_count: facts.stash_count,
            modified_count: count_modified(facts.changes@) as usize,
            untracked_count: count_untracked(facts.changes@) as usize,
            last_commit: facts.last_commit,
        })
    } else {
        None
    }
}

/// The label of the current branch.
pub fn current_branch(head: &HeadState) -> (r: Option<String>)
    ensures
        opt_view(r) == branch_label_of(*head),
{
    match head {
        HeadState::Branch { name } => Some(name.clone()),
        HeadState::Detached { target } => Some(join("detached@", short_id_of(target.as_str()).as_str())),
        HeadState::Unborn { head_ref } => match head_ref {
            Some(t) => {
                let cs = chars_of(t.as_str());
                let pre = chars_of("refs/heads/");
                let name = if starts_with_exec(&cs, &pre) {
                    slice_chars(&cs, pre.len(), cs.len())
                } else {
                    cs
                };
                assert(name@ == strip_prefix(t@, "refs/heads/"@));
                Some(join(string_of(&name).as_str(), " (no commits)"))
            },
            None => Some("(no commits)".to_owned()),
        },
        HeadState::Unreadable => None,
    }
}

/// The status record for what the backend reported. The repository is clean
/// exactly when it has no modified and no untracked files; divergence counts
/// only on a named branch; the verbose group is gathered whole or not at all.
pub fn analyze_repository(facts: RepoFacts, verbose: bool, show_hooks: bool) -> (r: RepoStatus)
    ensures
        r.path == facts.path,
        r.is_clean == (count_modified(facts.changes@) == 0 && count_untracked(facts.changes@) == 0),
        opt_view(r.branch) == branch_label_of(facts.head),
        (r.ahead, r.behind) == divergence_of(facts.head, facts.divergence),
        r.verbose == verbose_of(facts, verbose),
        r.hooks == (if show_hooks { facts.hooks } else { None }),
{
    let branch = current_branch(&facts.head);
    let (ahead, behind) = match facts.head {
        HeadState::Branch { .. } => match facts.divergence {
            Some(ab) => ab,
            None => (0, 0),
        },
        _ => (0, 0),
    };
    let (modified, untracked) = count_file_changes(&facts.changes);
    let is_clean = modified == 0 && untracked == 0;
    let RepoFacts { path, head, changes, divergence, stash_count, last_commit, hooks } = facts;
    let details = if verbose {
        Some(VerboseStatus { stash_count, modified_count: modified, untracked_count: untracked, last_commit })
    } else {
        None
    };
    RepoStatus {
        path,
        is_clean,
        ahead,
        behind,
        branch,
        verbose: details,
        hooks: if show_hooks { hooks } else { None },
    }
}

/// The first line of a commit message (a `\r` before the line break dropped).
pub open spec fn first_line(m: Seq<char>) -> Seq<char> {
    match find_from(m, 0, seq!['\n']) {
        Some(k) => {
            let line = m.subrange(0, k);
            if ends_with(line, seq!['\r']) { line.drop_last() } else { line }
        },
        None => m,
    }
}

/// The first line of a commit message.
pub fn first_line_of(m: &str) -> (r: String)
    ensures
        r@ == first_line(m@),
{
    let cs = chars_of(m);
    let nl = vec!['\n'];
    assert(nl@ =~= seq!['\n']);
    let f = find_from_exec(&cs, 0, &nl);
    proof {
        lemma_find_from(cs@, 0, nl@);
    }
    match f {
        Some(k) => {
            assert(occurs_at(cs@, k as int, nl@));
            let line = slice_chars(&cs, 0, k);
            if k > 0 && line[k - 1] == '\r' {
                let cut = slice_chars(&line, 0, k - 1);
                assert(cut@ =~= line@.drop_last());
                assert(ends_with(line@, seq!['\r'])) by {
                    assert(line@.subrange(k - 1, k as int) =~= seq!['\r']);
                }
                string_of(&cut)
            } else {
                assert(!ends_with(line@, seq!['\r'])) by {
                    if ends_with(line@, seq!['\r']) {
                        assert(line@.subrange(k - 1, k as int)[0] == '\r');
                    }
                }
                string_of(&line)
            }
        },
        None => m.to_owned(),
    }
}

/// Relies on chrono: `DateTime::from_timestamp(seconds, 0)` converted to the
/// machine's local time zone and formatted as `%Y-%m-%d %H:%M:%S`; `None` when
/// chrono rejects the timestamp, which it does only for dates beyond about
/// 262,000 years from the epoch. The text depends on the time zone.
#[verifier::external_body]
fn local_timestamp(seconds: i64) -> (r: Option<String>)
    ensures
        -0x20_0000_0000 <= seconds <= 0x20_0000_0000 ==> r is Some,
{
    let utc = chrono::DateTime::from_timestamp(seconds, 0)?;
    let local: chrono::DateTime<chrono::Local> = utc.into();
    Some(local.format("%Y-%m-%d %H:%M:%S").to_string())
}

pub open spec fn author_or_unknown(author: Option<&str>) -> Seq<char> {
    match author {
        Some(a) => a@,
        None => "Unknown"@,
    }
}

pub open spec fn message_or_empty(message: Option<&str>) -> Seq<char> {
    match message {
        Some(m) => m@,
        None => Seq::<char>::empty(),
    }
}

impl CommitInfo {
    /// Commit details from the raw commit: the message's first line, the
    /// author (`Unknown` when unreadable), the formatted time, and the short id.
    /// Absent when the time could not be formatted.
    pub fn from_parts(message: Option<&str>, author: Option<&str>, timestamp: Option<String>, id: &str) -> (r: Option<CommitInfo>)
        ensures
            r is Some <==> timestamp is Some,
            r is Some ==> r->0.message@ == first_line(message_or_empty(message))
                && r->0.author@ == author_or_unknown(author)
                && r->0.timestamp == timestamp->0
                && r->0.hash@ == short_id(id@),
    {
        let ts = match timestamp {
            Some(t) => t,
            None => return None,
        };
        let msg = match message {
            Some(m) => first_line_of(m),
            None => String::new(),
        };
        proof {
            if message is None {
                assert(first_line(Seq::<char>::empty()) =~= Seq::<char>::empty()) by {
                    assert(find_from(Seq::<char>::empty(), 0, seq!['\n']) is None);
                }
            }
        }
        let who = match author {
            Some(a) => a.to_owned(),
            None => "Unknown".to_owned(),
        };
        Some(CommitInfo { message: msg, author: who, timestamp: ts, hash: short_id_of(id) })
    }

    /// Commit details from the raw commit, its time given in seconds since the
    /// epoch and formatted in the local time zone.
    pub fn from_commit(message: Option<&str>, author: Option<&str>, seconds: i64, id: &str) -> (r: Option<CommitInfo>)
        ensures
            -0x20_0000_0000 <= seconds <= 0x20_0000_0000 ==> r is Some,
            r is Some ==> r->0.message@ == first_line(message_or_empty(message))
                && r->0.author@ == author_or_unknown(author)
                && r->0.hash@ == short_id(id@),
    {
        let ts = local_timestamp(seconds);
        CommitInfo::from_parts(message, author, ts, id)
    }
}

/// Where no branch is known or HEAD is detached, nothing is ahead or behind.
pub proof fn lemma_no_divergence_off_branch(head: HeadState, d: Option<(usize, usize)>)
    ensures
        (head is Detached || branch_label_of(head) is None) ==> divergence_of(head, d) == (0usize, 0usize),
        head is Detached ==> starts_with(branch_label_of(head)->0, "detached@"@),
{
    if let HeadState::Detached { target } = head {
        let l = "detached@"@ + short_id(target@);
        assert(l.subrange(0, "detached@"@.len() as int) =~= "detached@"@);
    }
}

/// A status record gathered without verbose mode has no verbose details; with
/// it, stash count, modified and untracked counts are all present, and so is
/// the last commit whenever the repository has one.
pub proof fn lemma_verbose_fields_together(facts: RepoFacts)
    ensures
        verbose_of(facts, false) is None,
        verbose_of(facts, true) is Some,
        facts.last_commit is Some ==> verbose_of(facts, true)->0.last_commit is Some,
{
}

} // verus!
