//! Best-effort run metadata from the current shell and git working tree:
//! the decisions made on what git and the environment report.
use vstd::prelude::*;

use crate::text::{join, push_str, str_eq, string_from, trim, trimmed};

verus! {

/// Best-effort metadata pulled from the current shell + git working tree.
/// Each field is `None` when detection fails or isn't applicable. Used to
/// fill in `--branch`, `--commit`, and `--workdir` when the agent didn't
/// pass them explicitly.
#[derive(Debug, Default)]
pub struct AutoMeta {
    pub branch: Option<String>,
    pub commit: Option<String>,
    pub workdir: Option<String>,
}

/// What the shell reported, gathered before any decision is made.
#[derive(Debug, Default)]
pub struct GitProbe {
    /// `git rev-parse --abbrev-ref HEAD`, as `git_output` keeps it.
    pub abbrev_ref: Option<String>,
    /// `git rev-parse --short HEAD`, as `git_output` keeps it.
    pub short_sha: Option<String>,
    /// The directory name of the linked worktree, when the checkout is one.
    pub linked_worktree: Option<String>,
    /// The raw value of `ZELLIJ_SESSION_NAME`, when set.
    pub zellij_session_name: Option<String>,
}

pub open spec fn opt_view(o: Option<String>) -> Option<Seq<char>> {
    match o {
        Some(s) => Some(s@),
        None => None,
    }
}

/// A git command's output as kept: nothing when git failed or printed
/// nothing but whitespace (or non-UTF-8), else the trimmed text.
pub open spec fn git_output_of(success: bool, stdout: Option<Seq<char>>) -> Option<Seq<char>> {
    if !success {
        None
    } else {
        match stdout {
            None => None,
            Some(s) => if trimmed(s).len() == 0 {
                None
            } else {
                Some(trimmed(s))
            },
        }
    }
}

/// Post-processing of one git call: `success` is the exit status, `stdout`
/// its output when that is UTF-8.
pub fn git_output(success: bool, stdout: Option<String>) -> (r: Option<String>)
    ensures
        opt_view(r) == git_output_of(success, opt_view(stdout)),
{
    if !success {
        return None;
    }
    match stdout {
        None => None,
        Some(s) => {
            let t = trim(s.as_str());
            if t.as_str().is_empty() {
                None
            } else {
                Some(t)
            }
        },
    }
}

/// A detached HEAD reports literally `HEAD`, which is no branch.
pub open spec fn branch_of(abbrev_ref: Option<Seq<char>>) -> Option<Seq<char>> {
    match abbrev_ref {
        Some(b) => if b == "HEAD"@ {
            None
        } else {
            Some(b)
        },
        None => None,
    }
}

pub fn git_branch(abbrev_ref: Option<String>) -> (r: Option<String>)
    ensures
        opt_view(r) == branch_of(opt_view(abbrev_ref)),
{
    match abbrev_ref {
        Some(b) => if str_eq(b.as_str(), "HEAD") {
            None
        } else {
            Some(b)
        },
        None => None,
    }
}

/// The zellij session name, trimmed; nothing when unset or blank.
pub open spec fn zellij_of(raw: Option<Seq<char>>) -> Option<Seq<char>> {
    match raw {
        Some(s) => if trimmed(s).len() == 0 {
            None
        } else {
            Some(trimmed(s))
        },
        None => None,
    }
}

pub fn zellij_session(raw: Option<String>) -> (r: Option<String>)
    ensures
        opt_view(r) == zellij_of(opt_view(raw)),
{
    match raw {
        Some(s) => {
            let t = trim(s.as_str());
            if t.as_str().is_empty() {
                None
            } else {
                Some(t)
            }
        },
        None => None,
    }
}

/// The worktree name and `zellij:<session>`, each when present, joined
/// with ` · `; nothing when neither is available.
pub open spec fn workdir_label_of(worktree: Option<Seq<char>>, zellij: Option<Seq<char>>) -> Option<Seq<char>> {
    let w: Seq<Seq<char>> = match worktree {
        Some(x) => seq![x],
        None => Seq::empty(),
    };
    let z: Seq<Seq<char>> = match zellij {
        Some(x) => seq!["zellij:"@ + x],
        None => Seq::empty(),
    };
    let parts = w + z;
    if parts.len() == 0 {
        None
    } else {
        Some(join(parts, " · "@))
    }
}

pub fn workdir_label(worktree: Option<String>, zellij: Option<String>) -> (r: Option<String>)
    ensures
        opt_view(r) == workdir_label_of(opt_view(worktree), opt_view(zellij)),
{
    let ghost wv = opt_view(worktree);
    let ghost zv = opt_view(zellij);
    match (worktree, zellij) {
        (None, None) => {
            assert(Seq::<Seq<char>>::empty() + Seq::<Seq<char>>::empty() =~= Seq::<Seq<char>>::empty());
            None
        },
        (Some(w), None) => {
            let ghost parts: Seq<Seq<char>> = seq![w@] + Seq::<Seq<char>>::empty();
            assert(parts =~= seq![w@]);
            Some(w)
        },
        (None, Some(z)) => {
            let mut s = string_from("zellij:");
            push_str(&mut s, z.as_str());
            let ghost parts: Seq<Seq<char>> = Seq::<Seq<char>>::empty() + seq!["zellij:"@ + z@];
            assert(parts =~= seq!["zellij:"@ + z@]);
            Some(s)
        },
        (Some(w), Some(z)) => {
            let mut s = w;
            push_str(&mut s, " · ");
            push_str(&mut s, "zellij:");
            push_str(&mut s, z.as_str());
            proof {
                let parts: Seq<Seq<char>> = seq![w@] + seq!["zellij:"@ + z@];
                assert(parts.len() == 2);
                assert(parts.drop_last() =~= seq![w@]);
                assert(parts.last() == "zellij:"@ + z@);
                assert(join(parts, " · "@) == join(parts.drop_last(), " · "@) + " · "@ + parts.last());
                assert(s@ =~= w@ + " · "@ + ("zellij:"@ + z@));
            }
            Some(s)
        },
    }
}

/// The metadata detected from what the shell reported.
pub fn detect(probe: GitProbe) -> (m: AutoMeta)
    ensures
        opt_view(m.branch) == branch_of(opt_view(probe.abbrev_ref)),
        opt_view(m.commit) == opt_view(probe.short_sha),
        opt_view(m.workdir) == workdir_label_of(
            opt_view(probe.linked_worktree),
            zellij_of(opt_view(probe.zellij_session_name)),
        ),
{
    let z = zellij_session(probe.zellij_session_name);
    AutoMeta {
        branch: git_branch(probe.abbrev_ref),
        commit: probe.short_sha,
        workdir: workdir_label(probe.linked_worktree, z),
    }
}

} // verus!
