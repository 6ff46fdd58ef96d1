//! Recognized Git hooks of a repository.

use vstd::prelude::*;
use crate::text::{includes, names_include};

verus! {

/// Which of the recognized hooks are present and executable.
#[derive(Debug, Clone, Copy, PartialEq, Eq, Structural)]
pub struct GitHooks {
    pub pre_commit: bool,
    pub pre_push: bool,
    pub post_commit: bool,
    pub post_merge: bool,
    pub prepare_commit_msg: bool,
    pub commit_msg: bool,
}

/// The recognized hook names, in reporting order.
pub open spec fn hook_names() -> Seq<Seq<char>> {
    seq![
        "pre-commit"@,
        "pre-push"@,
        "post-commit"@,
        "post-merge"@,
        "prepare-commit-msg"@,
        "commit-msg"@,
    ]
}

/// The names of the hooks that are present, in reporting order.
pub open spec fn active_names(h: GitHooks) -> Seq<Seq<char>> {
    let s0 = Seq::<Seq<char>>::empty();
    let s1 = if h.pre_commit { s0.push(hook_names()[0]) } else { s0 };
    let s2 = if h.pre_push { s1.push(hook_names()[1]) } else { s1 };
    let s3 = if h.post_commit { s2.push(hook_names()[2]) } else { s2 };
    let s4 = if h.post_merge { s3.push(hook_names()[3]) } else { s3 };
    let s5 = if h.prepare_commit_msg { s4.push(hook_names()[4]) } else { s4 };
    if h.commit_msg { s5.push(hook_names()[5]) } else { s5 }
}

impl GitHooks {
    /// The hooks found in a repository's hooks directory, given the names of
    /// the executable files there; `None` when the directory does not exist.
    pub fn detect(hooks_dir_exists: bool, executables: &Vec<String>) -> (r: Option<GitHooks>)
        ensures
            !hooks_dir_exists ==> r is None,
            hooks_dir_exists ==> r == Some(GitHooks {
                pre_commit: names_include(executables@, hook_names()[0]),
                pre_push: names_include(executables@, hook_names()[1]),
                post_commit: names_include(executables@, hook_names()[2]),
                post_merge: names_include(executables@, hook_names()[3]),
                prepare_commit_msg: names_include(executables@, hook_names()[4]),
                commit_msg: names_include(executables@, hook_names()[5]),
            }),
    {
        if !hooks_dir_exists {
            return None;
        }
        Some(GitHooks {
            pre_commit: includes(executables, "pre-commit"),
            pre_push: includes(executables, "pre-push"),
            post_commit: includes(executables, "post-commit"),
            post_merge: includes(executables, "post-merge"),
            prepare_commit_msg: includes(executables, "prepare-commit-msg"),
            commit_msg: includes(executables, "commit-msg"),
        })
    }

    /// Whether any recognized hook is present.
    pub fn has_any(&self) -> (r: bool)
        ensures
            r == (active_names(*self).len() > 0),
    {
        self.pre_commit || self.pre_push || self.post_commit || self.post_merge
            || self.prepare_commit_msg || self.commit_msg
    }

    /// The names of the present hooks, in reporting order.
    pub fn active_hooks(&self) -> (r: Vec<&'static str>)
        ensures
            r@.map_values(|s: &str| s@) == active_names(*self),
    {
        let mut hooks: Vec<&'static str> = Vec::new();
        if self.pre_commit {
            hooks.push("pre-commit");
        }
        if self.pre_push {
            hooks.push("pre-push");
        }
        if self.post_commit {
            hooks.push("post-commit");
        }
        if self.post_merge {
            hooks.push("post-merge");
        }
        if self.prepare_commit_msg {
            hooks.push("prepare-commit-msg");
        }
        if self.commit_msg {
            hooks.push("commit-msg");
        }
        assert(hooks@.map_values(|s: &str| s@) =~= active_names(*self));
        hooks
    }
}

} // verus!
