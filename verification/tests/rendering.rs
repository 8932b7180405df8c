use ansi_term::Colour;
use vifi::context::{Context, GitStatus, ViMode};
use vifi::render::{render_prompt, render_right_prompt};

fn cyan_bold(s: &str) -> String {
    Colour::Cyan.bold().paint(s).to_string()
}

fn orange_bold(s: &str) -> String {
    Colour::RGB(247, 78, 39).bold().paint(s).to_string()
}

fn orange(s: &str) -> String {
    Colour::RGB(247, 78, 39).paint(s).to_string()
}

fn muted(s: &str) -> String {
    Colour::RGB(88, 96, 104).paint(s).to_string()
}

fn ctx(
    work_dir: &str,
    status: i16,
    branch: Option<&str>,
    git: Option<GitStatus>,
    mode: ViMode,
) -> Context {
    Context {
        work_dir: work_dir.to_string(),
        last_status: status,
        git_branch: branch.map(|b| b.to_string()),
        git_status: git,
        vi_mode: mode,
    }
}

fn flags(
    ahead: bool,
    behind: bool,
    added: bool,
    modified: bool,
    deleted: bool,
    untracked: bool,
) -> GitStatus {
    GitStatus {
        ahead,
        behind,
        added,
        modified,
        deleted,
        untracked,
    }
}

#[test]
fn status_decoration_all_combinations() {
    for bits in 0..64u32 {
        let g = flags(
            bits & 1 != 0,
            bits & 2 != 0,
            bits & 4 != 0,
            bits & 8 != 0,
            bits & 16 != 0,
            bits & 32 != 0,
        );
        let rendered = render_prompt(&ctx("w", 0, None, Some(g), ViMode::Insert));
        let mut glyphs = String::new();
        if g.ahead {
            glyphs.push('\u{21e1}');
        }
        if g.behind {
            glyphs.push('\u{21e3}');
        }
        if g.untracked {
            glyphs.push('?');
        }
        if g.modified {
            glyphs.push('!');
        }
        if g.added {
            glyphs.push('+');
        }
        if g.deleted {
            glyphs.push('\u{2718}');
        }
        let dec = if glyphs.is_empty() {
            String::new()
        } else {
            format!(" [{}]", glyphs)
        };
        let expected = format!(
            "\n {}{}{}\n {} ",
            cyan_bold("w"),
            orange_bold(""),
            orange(&dec),
            cyan_bold("\u{1f178} ")
        );
        assert_eq!(rendered, expected);
    }
}

#[test]
fn branch_decoration_rendered() {
    let rendered = render_prompt(&ctx("proj", 0, Some("main"), None, ViMode::Insert));
    let expected = format!(
        "\n {}{}{}\n {} ",
        cyan_bold("proj"),
        orange_bold(" \u{e702} main"),
        orange(""),
        cyan_bold("\u{1f178} ")
    );
    assert_eq!(rendered, expected);
}

#[test]
fn render_is_idempotent() {
    let c = ctx(
        "~/proj",
        1,
        Some("dev"),
        Some(flags(true, false, true, false, false, true)),
        ViMode::Normal,
    );
    let first = render_prompt(&c);
    let second = render_prompt(&c);
    assert_eq!(first, second);
}

#[test]
fn exit_status_selects_insert_color() {
    let ok = render_prompt(&ctx("w", 0, None, None, ViMode::Insert));
    let failed = render_prompt(&ctx("w", 1, None, None, ViMode::Insert));
    assert!(ok.ends_with(&format!(" {} ", cyan_bold("\u{1f178} "))));
    assert!(failed.ends_with(&format!(" {} ", Colour::Red.bold().paint("\u{1f178} "))));
}

#[test]
fn exit_status_coloring_independent_of_git_state() {
    let with_git = render_prompt(&ctx(
        "w",
        1,
        Some("main"),
        Some(flags(true, true, true, true, true, true)),
        ViMode::Insert,
    ));
    let without_git = render_prompt(&ctx("w", 1, None, None, ViMode::Insert));
    let symbol_segment = format!(" {} ", Colour::Red.bold().paint("\u{1f178} "));
    assert!(with_git.ends_with(&symbol_segment));
    assert!(without_git.ends_with(&symbol_segment));
}

#[test]
fn vi_mode_symbols_and_colors() {
    let normal = render_prompt(&ctx("w", 0, None, None, ViMode::Normal));
    assert!(normal.ends_with(&format!(
        " {} ",
        Colour::RGB(67, 179, 115).bold().paint("\u{1f17d} ")
    )));
    let replace = render_prompt(&ctx("w", 0, None, None, ViMode::Replace));
    let replace_one = render_prompt(&ctx("w", 0, None, None, ViMode::ReplaceOne));
    let replace_segment = format!(" {} ", Colour::Purple.bold().paint("\u{1f181} "));
    assert!(replace.ends_with(&replace_segment));
    assert!(replace_one.ends_with(&replace_segment));
    let visual = render_prompt(&ctx("w", 0, None, None, ViMode::Visual));
    assert!(visual.ends_with(&format!(
        " {} ",
        Colour::RGB(249, 249, 5).bold().paint("\u{1f185} ")
    )));
}

#[test]
fn exactly_one_newline_before_symbol_segment() {
    let cases = [
        ctx("w", 0, None, None, ViMode::Insert),
        ctx("w", 0, Some("main"), None, ViMode::Insert),
        ctx(
            "w",
            0,
            Some("main"),
            Some(flags(true, true, true, true, true, true)),
            ViMode::Visual,
        ),
        ctx("~", 2, None, Some(flags(false, false, false, false, false, false)), ViMode::Normal),
    ];
    for c in cases {
        let rendered = render_prompt(&c);
        assert!(rendered.starts_with('\n'));
        // one leading newline plus exactly one forced line-ending newline
        assert_eq!(rendered.matches('\n').count(), 2);
        assert!(!rendered.contains("\n\n"));
    }
}

#[test]
fn right_prompt_suppressed_below_threshold() {
    assert_eq!(render_right_prompt(2500, "ls", &None), None);
    assert_eq!(render_right_prompt(0, "sleep 10", &None), None);
}

#[test]
fn right_prompt_suppressed_for_editors() {
    assert_eq!(render_right_prompt(5000, "vim file.txt", &None), None);
    assert_eq!(render_right_prompt(5000, "  NVIM notes.md", &None), None);
    assert_eq!(render_right_prompt(5000, "hx src/main.rs", &None), None);
    assert_eq!(render_right_prompt(5000, "Emacs -nw", &None), None);
}

#[test]
fn right_prompt_trims_unicode_whitespace_before_matching() {
    // an em space is whitespace, so the command still starts with "vim"
    assert_eq!(render_right_prompt(5000, "\u{2003}vim notes", &None), None);
}

#[test]
fn right_prompt_suppressed_for_preferred_editor() {
    let editor = Some("CODE".to_string());
    assert_eq!(render_right_prompt(5000, "code .", &editor), None);
    assert_eq!(render_right_prompt(5000, "Code .", &editor), None);
    let other = Some("kak".to_string());
    assert!(render_right_prompt(5000, "code .", &other).is_some());
}

#[test]
fn right_prompt_minutes_and_seconds() {
    let rendered = render_right_prompt(65000, "make", &None);
    assert_eq!(rendered, Some(muted("\u{f64f} 1m 5s")));
}

#[test]
fn right_prompt_hours_minutes_seconds() {
    let rendered = render_right_prompt(3_665_000, "make", &None);
    assert_eq!(rendered, Some(muted("\u{f64f} 1h 1m 5s")));
}

#[test]
fn right_prompt_at_threshold_shows_seconds() {
    let rendered = render_right_prompt(2999, "make", &None);
    assert_eq!(rendered, Some(muted("\u{f64f} 2s")));
}

#[test]
fn right_prompt_skips_zero_units() {
    let rendered = render_right_prompt(3_600_000, "make", &None);
    assert_eq!(rendered, Some(muted("\u{f64f} 1h")));
    let rendered = render_right_prompt(7_205_000, "make", &None);
    assert_eq!(rendered, Some(muted("\u{f64f} 2h 5s")));
}
