//! The palette of the prompt and the styling of text.
//!
//! Styles are named by semantic role; each role stands for one fixed
//! `ansi_term` style (a foreground colour, possibly bold).  `painted` gives
//! the exact character sequence a styled piece of text renders to: the
//! role's ANSI prefix, the text, then the reset sequence.

use vstd::prelude::*;

verus! {

/// A semantic colour role of the prompt.
#[derive(Clone, Copy, Debug, PartialEq, Eq, Structural)]
pub enum StyleRole {
    /// Bold cyan: the working directory, and the insert-mode symbol after a
    /// successful command.
    AccentPrimary,
    /// Bold orange: the git branch decoration.
    AccentSecondaryBold,
    /// Orange: the git status decoration.
    AccentSecondary,
    /// Bold red: the insert-mode symbol after a failed command.
    Error,
    /// Bold green: the normal-mode symbol.
    NormalAccent,
    /// Bold purple: the replace-mode symbols.
    ReplaceAccent,
    /// Bold yellow: the visual-mode symbol.
    VisualAccent,
    /// Muted grey: the right-prompt duration annotation.
    Muted,
}

/// The ANSI escape prefix a role's style writes before its text.
pub open spec fn style_prefix(role: StyleRole) -> Seq<char> {
    match role {
        StyleRole::AccentPrimary => seq!['\u{1b}', '[', '1', ';', '3', '6', 'm'],
        StyleRole::AccentSecondaryBold => seq![
            '\u{1b}', '[', '1', ';', '3', '8', ';', '2', ';', '2', '4', '7', ';', '7', '8', ';',
            '3', '9', 'm',
        ],
        StyleRole::AccentSecondary => seq![
            '\u{1b}', '[', '3', '8', ';', '2', ';', '2', '4', '7', ';', '7', '8', ';', '3', '9',
            'm',
        ],
        StyleRole::Error => seq!['\u{1b}', '[', '1', ';', '3', '1', 'm'],
        StyleRole::NormalAccent => seq![
            '\u{1b}', '[', '1', ';', '3', '8', ';', '2', ';', '6', '7', ';', '1', '7', '9', ';',
            '1', '1', '5', 'm',
        ],
        StyleRole::ReplaceAccent => seq!['\u{1b}', '[', '1', ';', '3', '5', 'm'],
        StyleRole::VisualAccent => seq![
            '\u{1b}', '[', '1', ';', '3', '8', ';', '2', ';', '2', '4', '9', ';', '2', '4', '9',
            ';', '5', 'm',
        ],
        StyleRole::Muted => seq![
            '\u{1b}', '[', '3', '8', ';', '2', ';', '8', '8', ';', '9', '6', ';', '1', '0', '4',
            'm',
        ],
    }
}

/// The ANSI reset sequence every non-plain style writes after its text.
pub open spec fn reset_suffix() -> Seq<char> {
    seq!['\u{1b}', '[', '0', 'm']
}

/// What painting `text` in `role`'s style renders to.
pub open spec fn painted(role: StyleRole, text: Seq<char>) -> Seq<char> {
    style_prefix(role) + text + reset_suffix()
}

/// Relies on `ansi_term::Style::paint` and the `Display` of the painted
/// string: for a style with a foreground colour (and possibly bold) it
/// writes `ESC [` codes `m`, the text, then the reset sequence `ESC [0m`.
/// The codes are `1` for bold, `31`/`35`/`36` for red/purple/cyan, and
/// `38;2;r;g;b` for an RGB colour.
#[verifier::external_body]
pub(crate) fn paint(role: StyleRole, text: &str) -> (r: String)
    ensures
        r@ == painted(role, text@),
{
    let style = match role {
        StyleRole::AccentPrimary => ansi_term::Colour::Cyan.bold(),
        StyleRole::AccentSecondaryBold => ansi_term::Colour::RGB(247, 78, 39).bold(),
        StyleRole::AccentSecondary => ansi_term::Colour::RGB(247, 78, 39).normal(),
        StyleRole::Error => ansi_term::Colour::Red.bold(),
        StyleRole::NormalAccent => ansi_term::Colour::RGB(67, 179, 115).bold(),
        StyleRole::ReplaceAccent => ansi_term::Colour::Purple.bold(),
        StyleRole::VisualAccent => ansi_term::Colour::RGB(249, 249, 5).bold(),
        StyleRole::Muted => ansi_term::Colour::RGB(88, 96, 104).normal(),
    };
    style.paint(text).to_string()
}

} // verus!
