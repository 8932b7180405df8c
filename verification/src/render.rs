//! Rendering: from a context snapshot to the styled left-prompt string,
//! and from duration and command text to the optional right-prompt
//! annotation.
//!
//! Both renderers are pure functions of their inputs, and their contracts
//! pin the whole output string.

use vstd::prelude::*;
use vstd::string::StrSliceExecFns;
use vstd::string::StringExecFns;

use crate::context::{Context, GitStatus, ViMode};
use crate::style::{paint, painted, StyleRole};
use crate::text::{
    chars_of, count_char, join_spaced, join_spaced_chars, lemma_count_char_concat, push_char,
    starts_with_chars, starts_with_spec, string_of, trim_chars, trim_spec,
};

verus! {

/// The symbol shown for each vi mode, with its trailing space; Replace and
/// ReplaceOne share one glyph.
pub open spec fn vi_symbol_spec(m: ViMode) -> Seq<char> {
    match m {
        ViMode::Normal => seq!['\u{1f17d}', ' '],
        ViMode::Insert => seq!['\u{1f178}', ' '],
        ViMode::Replace => seq!['\u{1f181}', ' '],
        ViMode::ReplaceOne => seq!['\u{1f181}', ' '],
        ViMode::Visual => seq!['\u{1f185}', ' '],
    }
}

/// The colour of the vi symbol: insert mode shows the success accent on
/// exit status zero and the error colour otherwise; every other mode has
/// its own fixed accent.
pub open spec fn vi_style_spec(m: ViMode, last_status: i16) -> StyleRole {
    match m {
        ViMode::Insert => if last_status == 0 {
            StyleRole::AccentPrimary
        } else {
            StyleRole::Error
        },
        ViMode::Normal => StyleRole::NormalAccent,
        ViMode::Replace => StyleRole::ReplaceAccent,
        ViMode::ReplaceOne => StyleRole::ReplaceAccent,
        ViMode::Visual => StyleRole::VisualAccent,
    }
}

/// The branch decoration: empty without a branch, else a space, the branch
/// glyph, a space and the branch name.
pub open spec fn branch_decoration(b: Option<Seq<char>>) -> Seq<char> {
    match b {
        None => Seq::empty(),
        Some(name) => seq![' ', '\u{e702}', ' '] + name,
    }
}

/// One glyph per set flag, in the fixed order ahead, behind, untracked,
/// modified, added, deleted.
pub open spec fn status_glyph_seq(g: GitStatus) -> Seq<char> {
    (if g.ahead {
        seq!['\u{21e1}']
    } else {
        Seq::<char>::empty()
    }) + (if g.behind {
        seq!['\u{21e3}']
    } else {
        Seq::<char>::empty()
    }) + (if g.untracked {
        seq!['?']
    } else {
        Seq::<char>::empty()
    }) + (if g.modified {
        seq!['!']
    } else {
        Seq::<char>::empty()
    }) + (if g.added {
        seq!['+']
    } else {
        Seq::<char>::empty()
    }) + (if g.deleted {
        seq!['\u{2718}']
    } else {
        Seq::<char>::empty()
    })
}

/// The status decoration: the glyphs wrapped in a leading space and square
/// brackets, or nothing at all when no flag is set or no status is known.
pub open spec fn status_decoration(st: Option<GitStatus>) -> Seq<char> {
    let inner = match st {
        None => Seq::<char>::empty(),
        Some(g) => status_glyph_seq(g),
    };
    if inner.len() == 0 {
        Seq::<char>::empty()
    } else {
        seq![' ', '['] + inner + seq![']']
    }
}

/// The main prompt line: newline, space, the styled working directory,
/// branch decoration and status decoration, with exactly one trailing
/// newline guaranteed.
pub open spec fn prompt_line_spec(ctx: Context) -> Seq<char> {
    let line = seq!['\n', ' '] + painted(StyleRole::AccentPrimary, ctx.work_dir@) + painted(
        StyleRole::AccentSecondaryBold,
        branch_decoration(ctx.git_branch.deep_view()),
    ) + painted(StyleRole::AccentSecondary, status_decoration(ctx.git_status));
    if line.len() > 0 && line[line.len() - 1] == '\n' {
        line
    } else {
        line + seq!['\n']
    }
}

/// The whole left prompt: the main line, then a space, the coloured vi
/// symbol and a trailing space.
pub open spec fn prompt_spec(ctx: Context) -> Seq<char> {
    prompt_line_spec(ctx) + seq![' '] + painted(
        vi_style_spec(ctx.vi_mode, ctx.last_status),
        vi_symbol_spec(ctx.vi_mode),
    ) + seq![' ']
}

fn vi_symbol_str(m: ViMode) -> (r: &'static str)
    ensures
        r@ == vi_symbol_spec(m),
{
    match m {
        ViMode::Normal => {
            let s = "\u{1f17d} ";
            proof {
                reveal_strlit("\u{1f17d} ");
                assert(s@ =~= seq!['\u{1f17d}', ' ']);
            }
            s
        },
        ViMode::Insert => {
            let s = "\u{1f178} ";
            proof {
                reveal_strlit("\u{1f178} ");
                assert(s@ =~= seq!['\u{1f178}', ' ']);
            }
            s
        },
        ViMode::Replace => {
            let s = "\u{1f181} ";
            proof {
                reveal_strlit("\u{1f181} ");
                assert(s@ =~= seq!['\u{1f181}', ' ']);
            }
            s
        },
        ViMode::ReplaceOne => {
            let s = "\u{1f181} ";
            proof {
                reveal_strlit("\u{1f181} ");
                assert(s@ =~= seq!['\u{1f181}', ' ']);
            }
            s
        },
        ViMode::Visual => {
            let s = "\u{1f185} ";
            proof {
                reveal_strlit("\u{1f185} ");
                assert(s@ =~= seq!['\u{1f185}', ' ']);
            }
            s
        },
    }
}

/// Render the left prompt for a snapshot.
pub fn render_prompt(ctx: &Context) -> (r: String)
    ensures
        r@ == prompt_spec(*ctx),
{
    let branch_dec: String = match &ctx.git_branch {
        None => String::new(),
        Some(b) => {
            let mut d = String::from_str(" \u{e702} ");
            proof {
                reveal_strlit(" \u{e702} ");
                assert(d@ =~= seq![' ', '\u{e702}', ' ']);
            }
            d.append(b.as_str());
            d
        },
    };
    proof {
        assert(branch_dec@ == branch_decoration(ctx.git_branch.deep_view()));
    }
    let mut sym = String::new();
    match ctx.git_status {
        Some(g) => {
            if g.ahead {
                push_char(&mut sym, '\u{21e1}');
            }
            if g.behind {
                push_char(&mut sym, '\u{21e3}');
            }
            if g.untracked {
                push_char(&mut sym, '?');
            }
            if g.modified {
                push_char(&mut sym, '!');
            }
            if g.added {
                push_char(&mut sym, '+');
            }
            if g.deleted {
                push_char(&mut sym, '\u{2718}');
            }
            proof {
                assert(sym@ =~= status_glyph_seq(g));
            }
        },
        None => {},
    }
    let status_dec: String = if sym.as_str().is_empty() {
        String::new()
    } else {
        let mut d = String::from_str(" [");
        proof {
            reveal_strlit(" [");
            assert(d@ =~= seq![' ', '[']);
        }
        d.append(sym.as_str());
        d.append("]");
        proof {
            reveal_strlit("]");
            assert("]"@ =~= seq![']']);
        }
        d
    };
    proof {
        assert(status_dec@ == status_decoration(ctx.git_status));
    }
    let mut out = String::from_str("\n ");
    proof {
        reveal_strlit("\n ");
        assert(out@ =~= seq!['\n', ' ']);
    }
    let wd = paint(StyleRole::AccentPrimary, ctx.work_dir.as_str());
    out.append(wd.as_str());
    let bd = paint(StyleRole::AccentSecondaryBold, branch_dec.as_str());
    out.append(bd.as_str());
    let sd = paint(StyleRole::AccentSecondary, status_dec.as_str());
    out.append(sd.as_str());
    let ghost line = out@;
    let n = out.as_str().unicode_len();
    if n == 0 || out.as_str().get_char(n - 1) != '\n' {
        push_char(&mut out, '\n');
        proof {
            assert(out@ =~= line + seq!['\n']);
        }
    }
    proof {
        assert(out@ == prompt_line_spec(*ctx));
    }
    push_char(&mut out, ' ');
    let style = match ctx.vi_mode {
        ViMode::Insert => if ctx.last_status == 0 {
            StyleRole::AccentPrimary
        } else {
            StyleRole::Error
        },
        ViMode::Normal => StyleRole::NormalAccent,
        ViMode::Replace => StyleRole::ReplaceAccent,
        ViMode::ReplaceOne => StyleRole::ReplaceAccent,
        ViMode::Visual => StyleRole::VisualAccent,
    };
    let vs = paint(style, vi_symbol_str(ctx.vi_mode));
    out.append(vs.as_str());
    push_char(&mut out, ' ');
    proof {
        assert(out@ =~= prompt_spec(*ctx));
    }
    out
}

/// What `str::to_lowercase` returns for a given character sequence.
pub uninterp spec fn lower_of(s: Seq<char>) -> Seq<char>;

/// Relies on `str::to_lowercase`: the result is a function of the
/// characters alone, and an empty string stays empty.
#[verifier::external_body]
fn to_lowercase(s: &str) -> (r: String)
    ensures
        r@ == lower_of(s@),
        s@.len() == 0 ==> r@.len() == 0,
{
    s.to_lowercase()
}

/// The decimal digits of `n`, most significant first, no leading zeros
/// (a single `'0'` for zero).
pub open spec fn dec_spec(n: nat) -> Seq<char>
    decreases n,
{
    if n < 10 {
        seq![dec_digit(n as int)]
    } else {
        dec_spec(n / 10) + seq![dec_digit((n % 10) as int)]
    }
}

pub open spec fn dec_digit(d: int) -> char {
    if d == 0 {
        '0'
    } else if d == 1 {
        '1'
    } else if d == 2 {
        '2'
    } else if d == 3 {
        '3'
    } else if d == 4 {
        '4'
    } else if d == 5 {
        '5'
    } else if d == 6 {
        '6'
    } else if d == 7 {
        '7'
    } else if d == 8 {
        '8'
    } else {
        '9'
    }
}

fn dec_digit_exec(d: u64) -> (c: char)
    requires
        d < 10,
    ensures
        c == dec_digit(d as int),
{
    if d == 0 {
        '0'
    } else if d == 1 {
        '1'
    } else if d == 2 {
        '2'
    } else if d == 3 {
        '3'
    } else if d == 4 {
        '4'
    } else if d == 5 {
        '5'
    } else if d == 6 {
        '6'
    } else if d == 7 {
        '7'
    } else if d == 8 {
        '8'
    } else {
        '9'
    }
}

/// The decimal digits of `n`.
fn u64_dec(n: u64) -> (r: Vec<char>)
    ensures
        r@ == dec_spec(n as nat),
{
    let mut digits: Vec<char> = Vec::new();
    let mut m = n;
    while m >= 10
        invariant
            dec_spec(n as nat) =~= dec_spec(m as nat) + digits@.reverse(),
        decreases m,
    {
        let ghost old_digits = digits@;
        let ghost old_m = m;
        digits.push(dec_digit_exec(m % 10));
        m = m / 10;
        proof {
            assert(digits@.reverse() =~= seq![dec_digit((old_m as nat % 10) as int)]
                + old_digits.reverse());
            assert(dec_spec(old_m as nat) == dec_spec(old_m as nat / 10) + seq![
                dec_digit((old_m as nat % 10) as int),
            ]);
            assert(dec_spec(m as nat) + digits@.reverse() =~= dec_spec(old_m as nat)
                + old_digits.reverse());
        }
    }
    let ghost old_digits = digits@;
    digits.push(dec_digit_exec(m));
    proof {
        assert(digits@.reverse() =~= seq![dec_digit(m as int)] + old_digits.reverse());
        assert(dec_spec(n as nat) =~= digits@.reverse());
    }
    let mut r: Vec<char> = Vec::new();
    let mut i: usize = digits.len();
    while i > 0
        invariant
            i <= digits@.len(),
            r@ =~= digits@.skip(i as int).reverse(),
        decreases i,
    {
        i -= 1;
        r.push(digits[i]);
        proof {
            assert(r@ =~= digits@.skip(i as int).reverse());
        }
    }
    proof {
        assert(digits@.skip(0) =~= digits@);
    }
    r
}

/// The duration units: whole hours, minutes and seconds, each included
/// only when nonzero, as digit strings with their unit letters.
pub open spec fn duration_parts(ms: u64) -> Seq<Seq<char>> {
    let total = ms as nat / 1000;
    let h = total / 3600;
    let rem = total % 3600;
    let m = rem / 60;
    let s = rem % 60;
    (if h > 0 {
        seq![dec_spec(h) + seq!['h']]
    } else {
        Seq::<Seq<char>>::empty()
    }) + (if m > 0 {
        seq![dec_spec(m) + seq!['m']]
    } else {
        Seq::<Seq<char>>::empty()
    }) + (if s > 0 {
        seq![dec_spec(s) + seq!['s']]
    } else {
        Seq::<Seq<char>>::empty()
    })
}

/// The space-joined duration text, such as `1m 5s`.
pub open spec fn duration_text(ms: u64) -> Seq<char> {
    join_spaced(duration_parts(ms))
}

/// When the right prompt stays silent: a duration under the threshold, or
/// a previous command that starts (after trimming and lowercasing) with a
/// known editor name or with the lowercased preferred editor.
pub open spec fn suppressed_spec(duration_ms: u64, cmd: Seq<char>, editor: Option<Seq<char>>) -> bool {
    let cl = lower_of(trim_spec(cmd));
    duration_ms < 2999 || starts_with_spec(cl, seq!['v', 'i', 'm']) || starts_with_spec(
        cl,
        seq!['n', 'v', 'i', 'm'],
    ) || starts_with_spec(cl, seq!['h', 'x']) || starts_with_spec(cl, seq!['e', 'm', 'a', 'c', 's'])
        || (match editor {
        Some(e) => starts_with_spec(cl, lower_of(e)),
        None => false,
    })
}

/// The right prompt: absent under the suppression rules or when no unit is
/// nonzero, else the muted-styled glyph and duration text.
pub open spec fn right_prompt_spec(ms: u64, cmd: Seq<char>, editor: Option<Seq<char>>) -> Option<
    Seq<char>,
> {
    if suppressed_spec(ms, cmd, editor) {
        None
    } else if duration_text(ms).len() == 0 {
        None
    } else {
        Some(painted(StyleRole::Muted, seq!['\u{f64f}', ' '] + duration_text(ms)))
    }
}

/// Render the right-prompt duration annotation, when policy shows one.
pub fn render_right_prompt(last_duration: u64, last_command: &str, editor: &Option<String>) -> (r:
    Option<String>)
    ensures
        r.deep_view() == right_prompt_spec(last_duration, last_command@, editor.deep_view()),
{
    let t = trim_chars(&chars_of(last_command));
    let tl = to_lowercase(string_of(&t).as_str());
    let cl = chars_of(tl.as_str());
    let vim_w = chars_of("vim");
    let nvim_w = chars_of("nvim");
    let hx_w = chars_of("hx");
    let emacs_w = chars_of("emacs");
    proof {
        reveal_strlit("vim");
        reveal_strlit("nvim");
        reveal_strlit("hx");
        reveal_strlit("emacs");
        assert(vim_w@ =~= seq!['v', 'i', 'm']);
        assert(nvim_w@ =~= seq!['n', 'v', 'i', 'm']);
        assert(hx_w@ =~= seq!['h', 'x']);
        assert(emacs_w@ =~= seq!['e', 'm', 'a', 'c', 's']);
    }
    let editor_matched = match editor {
        Some(e) => {
            let el = to_lowercase(e.as_str());
            starts_with_chars(&cl, &chars_of(el.as_str()))
        },
        None => false,
    };
    if last_duration < 2999 || starts_with_chars(&cl, &vim_w) || starts_with_chars(&cl, &nvim_w)
        || starts_with_chars(&cl, &hx_w) || starts_with_chars(&cl, &emacs_w) || editor_matched {
        return None;
    }
    let total = last_duration / 1000;
    let h = total / 3600;
    let rem = total % 3600;
    let m = rem / 60;
    let s = rem % 60;
    let mut parts: Vec<Vec<char>> = Vec::new();
    if h > 0 {
        let mut u = u64_dec(h);
        u.push('h');
        proof {
            assert(u@ =~= dec_spec(h as nat) + seq!['h']);
        }
        parts.push(u);
    }
    if m > 0 {
        let mut u = u64_dec(m);
        u.push('m');
        proof {
            assert(u@ =~= dec_spec(m as nat) + seq!['m']);
        }
        parts.push(u);
    }
    if s > 0 {
        let mut u = u64_dec(s);
        u.push('s');
        proof {
            assert(u@ =~= dec_spec(s as nat) + seq!['s']);
        }
        parts.push(u);
    }
    proof {
        assert(parts.deep_view() =~~= duration_parts(last_duration));
    }
    let body = join_spaced_chars(&parts);
    if body.len() == 0 {
        return None;
    }
    let mut text = String::from_str("\u{f64f} ");
    proof {
        reveal_strlit("\u{f64f} ");
        assert(text@ =~= seq!['\u{f64f}', ' ']);
    }
    text.append(string_of(&body).as_str());
    let r = Some(paint(StyleRole::Muted, text.as_str()));
    proof {
        assert(r.deep_view() == right_prompt_spec(
            last_duration,
            last_command@,
            editor.deep_view(),
        ));
    }
    r
}

/// Law: the status decoration shows exactly one glyph per set flag — the
/// glyph of each flag occurs once when the flag is set and never
/// otherwise, the glyph count is the number of set flags, the decoration
/// is empty exactly when no flag is set (never empty brackets), and a
/// nonempty decoration is the glyphs, in the fixed order ahead, behind,
/// untracked, modified, added, deleted, wrapped in a leading space and
/// square brackets.
pub proof fn lemma_status_decoration_exact(g: GitStatus)
    ensures
        status_glyph_seq(g).len() == (if g.ahead {
            1int
        } else {
            0int
        }) + (if g.behind {
            1int
        } else {
            0int
        }) + (if g.untracked {
            1int
        } else {
            0int
        }) + (if g.modified {
            1int
        } else {
            0int
        }) + (if g.added {
            1int
        } else {
            0int
        }) + (if g.deleted {
            1int
        } else {
            0int
        }),
        count_char(status_glyph_seq(g), '\u{21e1}') == (if g.ahead {
            1nat
        } else {
            0nat
        }),
        count_char(status_glyph_seq(g), '\u{21e3}') == (if g.behind {
            1nat
        } else {
            0nat
        }),
        count_char(status_glyph_seq(g), '?') == (if g.untracked {
            1nat
        } else {
            0nat
        }),
        count_char(status_glyph_seq(g), '!') == (if g.modified {
            1nat
        } else {
            0nat
        }),
        count_char(status_glyph_seq(g), '+') == (if g.added {
            1nat
        } else {
            0nat
        }),
        count_char(status_glyph_seq(g), '\u{2718}') == (if g.deleted {
            1nat
        } else {
            0nat
        }),
        (status_decoration(Some(g)) == Seq::<char>::empty()) <==> (!g.ahead && !g.behind
            && !g.untracked && !g.modified && !g.added && !g.deleted),
        status_decoration(Some(g)) != Seq::<char>::empty() ==> status_decoration(Some(g))
            == seq![' ', '['] + status_glyph_seq(g) + seq![']'],
{
    let a = if g.ahead {
        seq!['\u{21e1}']
    } else {
        Seq::<char>::empty()
    };
    let b = if g.behind {
        seq!['\u{21e3}']
    } else {
        Seq::<char>::empty()
    };
    let u = if g.untracked {
        seq!['?']
    } else {
        Seq::<char>::empty()
    };
    let m = if g.modified {
        seq!['!']
    } else {
        Seq::<char>::empty()
    };
    let d = if g.added {
        seq!['+']
    } else {
        Seq::<char>::empty()
    };
    let x = if g.deleted {
        seq!['\u{2718}']
    } else {
        Seq::<char>::empty()
    };
    assert forall|c: char| true implies count_char(status_glyph_seq(g), c) == count_char(a, c)
        + count_char(b, c) + count_char(u, c) + count_char(m, c) + count_char(d, c) + count_char(
        x,
        c,
    ) by {
        lemma_count_char_concat(a, b, c);
        lemma_count_char_concat(a + b, u, c);
        lemma_count_char_concat(a + b + u, m, c);
        lemma_count_char_concat(a + b + u + m, d, c);
        lemma_count_char_concat(a + b + u + m + d, x, c);
    }
    lemma_count_single('\u{21e1}');
    lemma_count_single('\u{21e3}');
    lemma_count_single('?');
    lemma_count_single('!');
    lemma_count_single('+');
    lemma_count_single('\u{2718}');
}

proof fn lemma_count_single(x: char)
    ensures
        forall|c: char| count_char(seq![x], c) == (if x == c {
            1nat
        } else {
            0nat
        }),
{
    assert(seq![x].skip(1) =~= Seq::<char>::empty());
    assert forall|c: char| count_char(seq![x], c) == (if x == c {
        1nat
    } else {
        0nat
    }) by {
        assert(count_char(seq![x].skip(1), c) == 0);
    }
}

/// Law: rendering is a pure function of the snapshot — two snapshots that
/// agree pointwise render to the same left prompt, so rendering one
/// snapshot twice yields identical output.
pub proof fn lemma_render_deterministic(a: Context, b: Context)
    requires
        a.work_dir@ == b.work_dir@,
        a.last_status == b.last_status,
        a.git_branch.deep_view() == b.git_branch.deep_view(),
        a.git_status == b.git_status,
        a.vi_mode == b.vi_mode,
    ensures
        prompt_spec(a) == prompt_spec(b),
{
}

/// Law: the colour of the vi symbol depends on the mode and exit status
/// alone, never on git state — and in insert mode it is the success accent
/// exactly when the exit status is zero, the error colour otherwise.
pub proof fn lemma_exit_status_coloring(a: Context, b: Context)
    requires
        a.vi_mode == b.vi_mode,
        a.last_status == b.last_status,
    ensures
        vi_style_spec(a.vi_mode, a.last_status) == vi_style_spec(b.vi_mode, b.last_status),
        a.vi_mode == ViMode::Insert ==> vi_style_spec(a.vi_mode, a.last_status) == (
        if a.last_status == 0 {
            StyleRole::AccentPrimary
        } else {
            StyleRole::Error
        }),
{
}

/// Law: the rendered main line always ends with exactly one newline before
/// the vi-symbol segment is appended, whatever the git branch and status
/// contributed.
pub proof fn lemma_newline_invariant(ctx: Context)
    ensures
        prompt_line_spec(ctx).len() >= 2,
        prompt_line_spec(ctx)[prompt_line_spec(ctx).len() - 1] == '\n',
        prompt_line_spec(ctx)[prompt_line_spec(ctx).len() - 2] != '\n',
        prompt_spec(ctx) == prompt_line_spec(ctx) + seq![' '] + painted(
            vi_style_spec(ctx.vi_mode, ctx.last_status),
            vi_symbol_spec(ctx.vi_mode),
        ) + seq![' '],
{
    let line = seq!['\n', ' '] + painted(StyleRole::AccentPrimary, ctx.work_dir@) + painted(
        StyleRole::AccentSecondaryBold,
        branch_decoration(ctx.git_branch.deep_view()),
    ) + painted(StyleRole::AccentSecondary, status_decoration(ctx.git_status));
    assert(line[line.len() - 1] == 'm');
}

} // verus!
