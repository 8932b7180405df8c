use vifi::cli::PromptArgs;
use vifi::context::{parse_git_status, resolve_vi_mode, work_dir_display, Context, GitStatus,
    ViMode};
use vifi::traits::NoneIfEmpty;

fn some(s: &str) -> Option<String> {
    Some(s.to_string())
}

#[test]
fn vi_mode_tokens_resolve_exactly() {
    assert_eq!(resolve_vi_mode("normal"), ViMode::Normal);
    assert_eq!(resolve_vi_mode("default"), ViMode::Normal);
    assert_eq!(resolve_vi_mode("insert"), ViMode::Insert);
    assert_eq!(resolve_vi_mode("replace"), ViMode::Replace);
    assert_eq!(resolve_vi_mode("replace_one"), ViMode::ReplaceOne);
    assert_eq!(resolve_vi_mode("visual"), ViMode::Visual);
}

#[test]
fn vi_mode_defaults_to_insert() {
    assert_eq!(resolve_vi_mode("whatever"), ViMode::Insert);
    assert_eq!(resolve_vi_mode(""), ViMode::Insert);
    assert_eq!(resolve_vi_mode("Normal"), ViMode::Insert);
    assert_eq!(resolve_vi_mode("INSERT"), ViMode::Insert);
}

#[test]
fn workdir_home_shortening_without_branch() {
    let shown = work_dir_display(&some("/home/alice/proj"), false, &some("/home/alice"));
    assert_eq!(shown, "~/proj");
}

#[test]
fn workdir_leaf_only_with_branch() {
    let shown = work_dir_display(&some("/home/alice/proj/sub"), true, &some("/home/alice"));
    assert_eq!(shown, "sub");
}

#[test]
fn workdir_unknown_when_home_unresolvable() {
    let shown = work_dir_display(&some("/home/alice/proj"), false, &None);
    assert_eq!(shown, "[unknown]");
}

#[test]
fn workdir_unknown_when_current_dir_unresolvable() {
    let shown = work_dir_display(&None, false, &some("/home/alice"));
    assert_eq!(shown, "[unknown]");
}

#[test]
fn workdir_replaces_only_first_home_occurrence() {
    let shown = work_dir_display(&some("/home/alice/home/alice"), false, &some("/home/alice"));
    assert_eq!(shown, "~/home/alice");
}

#[test]
fn workdir_empty_home_prefixes_tilde() {
    // replacing the first occurrence of an empty home string inserts the
    // tilde at the front, as `str::replacen` does
    let shown = work_dir_display(&some("/a"), false, &some(""));
    assert_eq!(shown, "~/a");
}

#[test]
fn workdir_root_keeps_itself_with_branch() {
    let shown = work_dir_display(&some("/"), true, &some("/root"));
    assert_eq!(shown, "/");
}

#[test]
fn context_init_assembles_snapshot() {
    let args = PromptArgs {
        status: 3,
        vi_mode: "visual".to_string(),
    };
    let ctx = Context::init(
        args,
        some("main\n"),
        some("## main...origin/main [ahead 1]\nM file.rs"),
        some("/home/alice/proj/sub"),
        some("/home/alice"),
    );
    assert_eq!(ctx.last_status, 3);
    assert_eq!(ctx.vi_mode, ViMode::Visual);
    assert_eq!(ctx.git_branch, some("main"));
    assert_eq!(ctx.work_dir, "sub");
    let st = ctx.git_status.unwrap();
    assert!(st.ahead && st.modified);
    assert!(!st.behind && !st.added && !st.deleted && !st.untracked);
}

#[test]
fn context_init_defaults_vi_mode() {
    let args = PromptArgs {
        status: 0,
        vi_mode: "whatever".to_string(),
    };
    let ctx = Context::init(args, None, None, some("/home/alice"), some("/home/alice"));
    assert_eq!(ctx.vi_mode, ViMode::Insert);
    assert_eq!(ctx.git_branch, None);
    assert_eq!(ctx.git_status, None);
    assert_eq!(ctx.work_dir, "~");
}

#[test]
fn branch_cleaning_via_init() {
    let args = PromptArgs {
        status: 0,
        vi_mode: "insert".to_string(),
    };
    let ctx = Context::init(args, some("  main  \n"), None, None, some("/h"));
    assert_eq!(ctx.git_branch, some("main"));
}

#[test]
fn branch_line_endings_are_stripped() {
    let args = PromptArgs {
        status: 0,
        vi_mode: "insert".to_string(),
    };
    let ctx = Context::init(args, some("dev\r\n"), None, None, some("/h"));
    assert_eq!(ctx.git_branch, some("dev"));
}

#[test]
fn blank_branch_means_no_branch() {
    let args = PromptArgs {
        status: 0,
        vi_mode: "insert".to_string(),
    };
    let ctx = Context::init(
        args,
        some("\n"),
        None,
        some("/home/alice/proj"),
        some("/home/alice"),
    );
    assert_eq!(ctx.git_branch, None);
    // without a branch the full, home-shortened path is shown
    assert_eq!(ctx.work_dir, "~/proj");
}

#[test]
fn git_status_all_markers() {
    let raw = some("## dev...origin/dev [ahead 2, behind 1]\nM a.rs\nA b.rs\nD c.rs\n?? d.rs");
    let st = parse_git_status(&raw).unwrap();
    assert!(st.ahead);
    assert!(st.behind);
    assert!(st.modified);
    assert!(st.added);
    assert!(st.deleted);
    assert!(st.untracked);
}

#[test]
fn git_status_absent_or_blank() {
    assert_eq!(parse_git_status(&None), None);
    assert_eq!(parse_git_status(&some("")), None);
    assert_eq!(parse_git_status(&some("  \n  ")), None);
}

#[test]
fn git_status_summary_without_brackets_sets_nothing() {
    let st = parse_git_status(&some("## main...origin/main")).unwrap();
    assert!(!st.ahead && !st.behind);
    assert!(!st.added && !st.modified && !st.deleted && !st.untracked);
}

#[test]
fn git_status_markers_require_line_start() {
    let st = parse_git_status(&some("## main\n x M D A ?")).unwrap();
    assert!(!st.modified && !st.deleted && !st.added && !st.untracked);
}

#[test]
fn none_if_empty_collapses_empty_strings() {
    assert_eq!(Some(String::new()).none_if_empty(), None);
    assert_eq!(some("x").none_if_empty(), some("x"));
    let absent: Option<String> = None;
    assert_eq!(absent.none_if_empty(), None);
}
