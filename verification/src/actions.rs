//! The display actions that make up a slide, and the model of keyboard input
//! that decides when an interaction wait is satisfied.

use vstd::prelude::*;

verus! {

/// A key press, as the engine sees it. Only the distinctions the engine acts
/// on are kept: the qualifying keys (Enter, Right arrow, the space character)
/// and everything else.
#[derive(Debug, Clone, Copy, PartialEq, Eq)]
pub enum KeyCode {
    /// The Enter / Return key.
    Enter,
    /// The right arrow key.
    Right,
    /// A printable character key.
    Glyph(char),
    /// Any other key.
    Other,
}

/// A terminal input event: a key press, or any other kind of event
/// (resize, mouse, focus, ...), which the engine ignores.
#[derive(Debug, Clone, Copy, PartialEq, Eq)]
pub enum InputEvent {
    /// A key was pressed.
    Key(KeyCode),
    /// Any non-key event.
    Other,
}

/// Whether a key press satisfies a wait for interaction: Enter, the right
/// arrow, or the space character.
pub open spec fn spec_is_qualifying(k: KeyCode) -> bool {
    k == KeyCode::Enter || k == KeyCode::Right || k == KeyCode::Glyph(' ')
}

/// Decides whether a key press satisfies a wait for interaction.
pub fn is_qualifying(k: KeyCode) -> (r: bool)
    ensures
        r == spec_is_qualifying(k),
{
    match k {
        KeyCode::Enter => true,
        KeyCode::Right => true,
        KeyCode::Glyph(c) => c == ' ',
        KeyCode::Other => false,
    }
}

/// Style attributes carried by styled text, re-applied to every character as
/// it is written so that interleaved flushes cannot desynchronise the visual
/// attributes from a partially rendered string.
#[derive(Debug, Clone, Copy, PartialEq, Eq)]
pub struct TextStyle {
    /// Foreground colour, as an ANSI 256-colour index, if set.
    pub fg: Option<u8>,
    /// Background colour, as an ANSI 256-colour index, if set.
    pub bg: Option<u8>,
    /// Bold attribute.
    pub bold: bool,
    /// Italic attribute.
    pub italic: bool,
    /// Underline attribute.
    pub underline: bool,
}

/// A piece of text together with the style its characters are written in.
#[derive(Debug, Clone, PartialEq, Eq)]
pub struct StyledText {
    /// The underlying text.
    pub text: String,
    /// The style every character of the text is written in.
    pub style: TextStyle,
}

/// An action that prints its content one character at a time, each character
/// followed by a flush and a pause of the given number of milliseconds.
#[derive(Debug, Clone, PartialEq, Eq)]
pub struct TypewriterPrint(pub String, pub u64);

/// An action that prints styled content one character at a time, with the
/// same pacing as [`TypewriterPrint`]; the style is re-applied per character.
#[derive(Debug, Clone, PartialEq, Eq)]
pub struct TypewriterPrintStyledContent(pub StyledText, pub u64);

/// An action that blocks until a qualifying key press (Enter, Right arrow, or
/// space) is observed, ignoring every other input event.
#[derive(Debug, Clone, Copy, PartialEq, Eq)]
pub struct WaitForInteraction;

/// An action that blocks for a fixed number of milliseconds without producing
/// output.
#[derive(Debug, Clone, Copy, PartialEq, Eq)]
pub struct WaitFor(pub u64);

/// A passthrough action: text handed verbatim to the terminal layer in a
/// single write, with no pacing and no raw-mode protocol around it.
#[derive(Debug, Clone, PartialEq, Eq)]
pub struct RawText(pub String);

/// One unit of terminal work within a slide.
#[derive(Debug, Clone, PartialEq, Eq)]
pub enum Action {
    /// Typewriter-paced plain text.
    Print(TypewriterPrint),
    /// Typewriter-paced styled text.
    PrintStyled(TypewriterPrintStyledContent),
    /// A blocking wait for a qualifying key press.
    Interaction(WaitForInteraction),
    /// A blocking wait for a fixed duration.
    Pause(WaitFor),
    /// A verbatim passthrough write.
    Raw(RawText),
}

impl Action {
    /// Whether this action paces characters (plain or styled).
    pub open spec fn is_paced(self) -> bool {
        self is Print || self is PrintStyled
    }

    /// The character sequence a paced action writes.
    pub open spec fn content(self) -> Seq<char> {
        match self {
            Action::Print(p) => p.0@,
            Action::PrintStyled(p) => p.0.text@,
            _ => Seq::empty(),
        }
    }

    /// The pause, in milliseconds, after each character of a paced action, or
    /// the whole pause of a timed wait.
    pub open spec fn interval_ms(self) -> u64 {
        match self {
            Action::Print(p) => p.1,
            Action::PrintStyled(p) => p.1,
            Action::Pause(w) => w.0,
            _ => 0,
        }
    }
}

} // verus!
