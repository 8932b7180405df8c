//! The per-invocation snapshot of shell state, and its construction from
//! raw process inputs.
//!
//! `Context::init` is pure: the binary hands it the raw standard output of
//! the two git commands and the decoded current and home directories, and
//! every parsing and shortening decision made here is verified.

use vstd::prelude::*;

use crate::cli::PromptArgs;
use crate::text::{
    chars_of, find_char, first_index_of, has_sub, has_sub_chars, last_index_of,
    lemma_last_index_of_none, remove_crlf_chars, remove_crlf_spec, remove_lf_chars,
    remove_lf_spec, replace_first_chars, replace_first_spec, rfind_char, slice_chars,
    split_lines_chars, split_lines_spec, str_eq, string_of, trim_chars, trim_spec,
};
use crate::traits::NoneIfEmpty;

verus! {

/// The vi editing mode of the shell's line editor.
#[derive(Clone, Copy, Debug, PartialEq, Eq, Structural)]
pub enum ViMode {
    Normal,
    Insert,
    Replace,
    ReplaceOne,
    Visual,
}

/// Which mode a free-text token resolves to; unrecognized tokens mean
/// Insert.
pub open spec fn vi_mode_of(t: Seq<char>) -> ViMode {
    if t == "normal"@ || t == "default"@ {
        ViMode::Normal
    } else if t == "insert"@ {
        ViMode::Insert
    } else if t == "replace"@ {
        ViMode::Replace
    } else if t == "replace_one"@ {
        ViMode::ReplaceOne
    } else if t == "visual"@ {
        ViMode::Visual
    } else {
        ViMode::Insert
    }
}

/// Resolve a mode token by exact, case-sensitive match.
pub fn resolve_vi_mode(token: &str) -> (m: ViMode)
    ensures
        m == vi_mode_of(token@),
{
    if str_eq(token, "normal") || str_eq(token, "default") {
        ViMode::Normal
    } else if str_eq(token, "insert") {
        ViMode::Insert
    } else if str_eq(token, "replace") {
        ViMode::Replace
    } else if str_eq(token, "replace_one") {
        ViMode::ReplaceOne
    } else if str_eq(token, "visual") {
        ViMode::Visual
    } else {
        ViMode::Insert
    }
}

/// The six independent flags derived from git's short status output.
#[derive(Clone, Copy, Debug, PartialEq, Eq, Structural)]
pub struct GitStatus {
    pub ahead: bool,
    pub behind: bool,
    pub added: bool,
    pub modified: bool,
    pub deleted: bool,
    pub untracked: bool,
}

/// The lines a raw `git status -sb` output is scanned as: the whole output
/// trimmed, split at newlines, each line trimmed.
pub open spec fn status_lines_of(raw: Seq<char>) -> Seq<Seq<char>> {
    split_lines_spec(trim_spec(raw)).map_values(|l: Seq<char>| trim_spec(l))
}

/// The branch-summary line: starts with `##`, holds a `[`, ends with `]`.
pub open spec fn is_summary_line(l: Seq<char>) -> bool {
    l.len() >= 2 && l[0] == '#' && l[1] == '#' && (exists|j: int|
        0 <= j < l.len() && l[j] == '[') && l[l.len() - 1] == ']'
}

/// The text of a summary line from its first `[` onward.
pub open spec fn bracket_suffix(l: Seq<char>) -> Seq<char> {
    l.skip(first_index_of(l, '['))
}

pub open spec fn ahead_word() -> Seq<char> {
    seq!['a', 'h', 'e', 'a', 'd']
}

pub open spec fn behind_word() -> Seq<char> {
    seq!['b', 'e', 'h', 'i', 'n', 'd']
}

pub open spec fn line_sets_ahead(l: Seq<char>) -> bool {
    is_summary_line(l) && has_sub(bracket_suffix(l), ahead_word())
}

pub open spec fn line_sets_behind(l: Seq<char>) -> bool {
    is_summary_line(l) && has_sub(bracket_suffix(l), behind_word())
}

/// The flags observed over a set of status lines.  Each flag is true when
/// at least one line shows the matching marker; no line ever clears a flag.
pub open spec fn git_status_of(lines: Seq<Seq<char>>) -> GitStatus {
    GitStatus {
        ahead: exists|i: int| 0 <= i < lines.len() && line_sets_ahead(#[trigger] lines[i]),
        behind: exists|i: int| 0 <= i < lines.len() && line_sets_behind(#[trigger] lines[i]),
        added: exists|i: int|
            0 <= i < lines.len() && (#[trigger] lines[i]).len() > 0 && lines[i][0] == 'A',
        modified: exists|i: int|
            0 <= i < lines.len() && (#[trigger] lines[i]).len() > 0 && lines[i][0] == 'M',
        deleted: exists|i: int|
            0 <= i < lines.len() && (#[trigger] lines[i]).len() > 0 && lines[i][0] == 'D',
        untracked: exists|i: int|
            0 <= i < lines.len() && (#[trigger] lines[i]).len() > 0 && lines[i][0] == '?',
    }
}

/// What the status parser returns: absent when the command produced
/// nothing, else the flags observed over the trimmed lines.
pub open spec fn git_status_spec(raw: Option<Seq<char>>) -> Option<GitStatus> {
    match raw {
        None => None,
        Some(s) => if trim_spec(s).len() == 0 {
            None
        } else {
            Some(git_status_of(status_lines_of(s)))
        },
    }
}

/// Whether one trimmed status line is a summary line, and the text from its
/// first `[` onward.
fn summary_suffix(line: &Vec<char>) -> (r: Option<Vec<char>>)
    ensures
        match r {
            Some(sfx) => is_summary_line(line@) && sfx@ == bracket_suffix(line@),
            None => !is_summary_line(line@),
        },
{
    if line.len() < 2 || line[0] != '#' || line[1] != '#' {
        return None;
    }
    if line[line.len() - 1] != ']' {
        return None;
    }
    match find_char(line, '[') {
        None => None,
        Some(k) => Some(slice_chars(line, k, line.len())),
    }
}

/// Derive the six flags from a raw `git status -sb` output, when there is
/// one and it is not blank.
pub fn parse_git_status(raw: &Option<String>) -> (r: Option<GitStatus>)
    ensures
        r == git_status_spec(raw.deep_view()),
{
    let s = match raw {
        None => {
            return None;
        },
        Some(s) => s,
    };
    let t = trim_chars(&chars_of(s.as_str()));
    if t.len() == 0 {
        return None;
    }
    let ls = split_lines_chars(&t);
    let mut lines: Vec<Vec<char>> = Vec::new();
    let mut i: usize = 0;
    while i < ls.len()
        invariant
            i <= ls@.len(),
            lines.deep_view() =~~= ls.deep_view().take(i as int).map_values(
                |l: Seq<char>| trim_spec(l),
            ),
        decreases ls.len() - i,
    {
        let ghost old_lines = lines.deep_view();
        let t = trim_chars(&ls[i]);
        proof {
            assert(ls.deep_view()[i as int] == ls@[i as int]@);
        }
        lines.push(t);
        proof {
            assert(lines.deep_view() =~~= old_lines + seq![trim_spec(ls.deep_view()[i as int])]);
            assert(ls.deep_view().take(i + 1).map_values(|l: Seq<char>| trim_spec(l))
                =~~= ls.deep_view().take(i as int).map_values(|l: Seq<char>| trim_spec(l)) + seq![
                trim_spec(ls.deep_view()[i as int]),
            ]);
        }
        i += 1;
    }
    proof {
        assert(lines.deep_view() =~~= status_lines_of(s@));
    }
    let ghost speclines = lines.deep_view();
    let mut ahead = false;
    let mut behind = false;
    let mut added = false;
    let mut modified = false;
    let mut deleted = false;
    let mut untracked = false;
    let ahead_w = chars_of("ahead");
    let behind_w = chars_of("behind");
    proof {
        reveal_strlit("ahead");
        reveal_strlit("behind");
        assert(ahead_w@ =~= ahead_word());
        assert(behind_w@ =~= behind_word());
    }
    let mut j: usize = 0;
    while j < lines.len()
        invariant
            j <= lines@.len(),
            speclines == lines.deep_view(),
            ahead_w@ == ahead_word(),
            behind_w@ == behind_word(),
            ahead == exists|k: int| 0 <= k < j && line_sets_ahead(#[trigger] speclines[k]),
            behind == exists|k: int| 0 <= k < j && line_sets_behind(#[trigger] speclines[k]),
            added == exists|k: int|
                0 <= k < j && (#[trigger] speclines[k]).len() > 0 && speclines[k][0] == 'A',
            modified == exists|k: int|
                0 <= k < j && (#[trigger] speclines[k]).len() > 0 && speclines[k][0] == 'M',
            deleted == exists|k: int|
                0 <= k < j && (#[trigger] speclines[k]).len() > 0 && speclines[k][0] == 'D',
            untracked == exists|k: int|
                0 <= k < j && (#[trigger] speclines[k]).len() > 0 && speclines[k][0] == '?',
        decreases lines.len() - j,
    {
        let line = &lines[j];
        proof {
            assert(speclines[j as int] == line@);
        }
        if line.len() > 0 {
            let c0 = line[0];
            if c0 == '?' {
                untracked = true;
            }
            if c0 == 'M' {
                modified = true;
            }
            if c0 == 'D' {
                deleted = true;
            }
            if c0 == 'A' {
                added = true;
            }
        }
        match summary_suffix(line) {
            Some(sfx) => {
                if has_sub_chars(&sfx, &ahead_w) {
                    ahead = true;
                }
                if has_sub_chars(&sfx, &behind_w) {
                    behind = true;
                }
            },
            None => {},
        }
        j += 1;
    }
    Some(GitStatus { ahead, behind, added, modified, deleted, untracked })
}

/// What the branch lookup returns: the raw `git branch --show-current`
/// output trimmed and stripped of line endings, absent when the command
/// failed or nothing is left.
pub open spec fn branch_name_spec(raw: Option<Seq<char>>) -> Option<Seq<char>> {
    match raw {
        None => None,
        Some(s) => {
            let c = remove_lf_spec(remove_crlf_spec(trim_spec(s)));
            if c.len() == 0 {
                None
            } else {
                Some(c)
            }
        },
    }
}

/// Clean a raw branch-command output into an optional branch name.
pub fn clean_branch(raw: &Option<String>) -> (r: Option<String>)
    ensures
        r.deep_view() == branch_name_spec(raw.deep_view()),
{
    match raw {
        None => None,
        Some(s) => {
            let t = trim_chars(&chars_of(s.as_str()));
            let c = remove_lf_chars(&remove_crlf_chars(&t));
            let cand = Some(string_of(&c));
            cand.none_if_empty()
        },
    }
}

/// The marker shown when a path cannot be resolved or decoded.
pub open spec fn unknown_marker() -> Seq<char> {
    seq!['[', 'u', 'n', 'k', 'n', 'o', 'w', 'n', ']']
}

/// The final component of an absolute path; the root path keeps itself.
pub open spec fn leaf_of(s: Seq<char>) -> Seq<char> {
    if s.len() == 1 && s[0] == '/' {
        s
    } else {
        s.skip(last_index_of(s, '/') + 1)
    }
}

/// The string shown for the working directory before home shortening: the
/// leaf alone when a branch is present, else the whole path.
pub open spec fn display_dir_spec(cur: Option<Seq<char>>, has_branch: bool) -> Seq<char> {
    match cur {
        None => unknown_marker(),
        Some(p) => if has_branch {
            if p.len() == 0 {
                unknown_marker()
            } else {
                leaf_of(p)
            }
        } else {
            p
        },
    }
}

/// The working-directory display: home-shortened when a home directory is
/// known, the unknown marker when none is.
pub open spec fn work_dir_spec(
    cur: Option<Seq<char>>,
    has_branch: bool,
    home: Option<Seq<char>>,
) -> Seq<char> {
    match home {
        None => unknown_marker(),
        Some(h) => replace_first_spec(display_dir_spec(cur, has_branch), h, seq!['~']),
    }
}

fn unknown_chars() -> (r: Vec<char>)
    ensures
        r@ == unknown_marker(),
{
    let r = chars_of("[unknown]");
    proof {
        reveal_strlit("[unknown]");
        assert(r@ =~= unknown_marker());
    }
    r
}

fn leaf_chars(p: &Vec<char>) -> (r: Vec<char>)
    ensures
        r@ == leaf_of(p@),
{
    if p.len() == 1 && p[0] == '/' {
        return slice_chars(p, 0, 1);
    }
    match rfind_char(p, '/') {
        Some(i) => slice_chars(p, i + 1, p.len()),
        None => {
            proof {
                lemma_last_index_of_none(p@, '/');
                assert(p@.skip(0) =~= p@);
            }
            slice_chars(p, 0, p.len())
        },
    }
}

/// Compute the working-directory display string.
pub fn work_dir_display(
    current_dir: &Option<String>,
    has_branch: bool,
    home_dir: &Option<String>,
) -> (r: String)
    ensures
        r@ == work_dir_spec(current_dir.deep_view(), has_branch, home_dir.deep_view()),
{
    let home = match home_dir {
        None => {
            return string_of(&unknown_chars());
        },
        Some(h) => h,
    };
    let display: Vec<char> = match current_dir {
        None => unknown_chars(),
        Some(p) => {
            let pc = chars_of(p.as_str());
            if has_branch {
                if pc.len() == 0 {
                    unknown_chars()
                } else {
                    leaf_chars(&pc)
                }
            } else {
                pc
            }
        },
    };
    let mut tilde: Vec<char> = Vec::new();
    tilde.push('~');
    proof {
        assert(tilde@ =~= seq!['~']);
    }
    let shortened = replace_first_chars(&display, &chars_of(home.as_str()), &tilde);
    string_of(&shortened)
}

/// The snapshot a prompt is rendered from.
#[derive(Debug)]
pub struct Context {
    /// The home-shortened working-directory display string.
    pub work_dir: String,
    /// Exit status of the previous command.
    pub last_status: i16,
    /// Current git branch, when inside a repository and on a named branch.
    pub git_branch: Option<String>,
    /// Flags from git's short status, when it could be obtained.
    pub git_status: Option<GitStatus>,
    /// The resolved vi editing mode.
    pub vi_mode: ViMode,
}

impl Context {
    /// Assemble the snapshot from the request arguments and the raw
    /// process state: the decoded standard output of `git branch
    /// --show-current` and `git status -sb` (absent when a command failed
    /// or its output was not UTF-8), and the decoded current and home
    /// directories (absent when unresolvable or undecodable).
    pub fn init(
        args: PromptArgs,
        git_branch_raw: Option<String>,
        git_status_raw: Option<String>,
        current_dir: Option<String>,
        home_dir: Option<String>,
    ) -> (ctx: Context)
        ensures
            ctx.last_status == args.status,
            ctx.vi_mode == vi_mode_of(args.vi_mode@),
            ctx.git_branch.deep_view() == branch_name_spec(git_branch_raw.deep_view()),
            ctx.git_status == git_status_spec(git_status_raw.deep_view()),
            ctx.work_dir@ == work_dir_spec(
                current_dir.deep_view(),
                branch_name_spec(git_branch_raw.deep_view()) is Some,
                home_dir.deep_view(),
            ),
    {
        let last_status = args.status;
        let vi_mode = resolve_vi_mode(args.vi_mode.as_str());
        let git_branch = clean_branch(&git_branch_raw);
        let git_status = parse_git_status(&git_status_raw);
        let work_dir = work_dir_display(&current_dir, git_branch.is_some(), &home_dir);
        Context { work_dir, last_status, git_branch, git_status, vi_mode }
    }
}

} // verus!
