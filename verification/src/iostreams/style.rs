//! Style atoms and the `paint` helper.
//!
//! Each tone is a reusable terminal style rendered by `anstyle`. `paint`
//! applies the style only when color is enabled, otherwise returning the text
//! unchanged — so the caller decides per stream whether ANSI is emitted.

use vstd::prelude::*;

use anstyle::{AnsiColor, Effects, Style};

use crate::text::{push_str, string_of};

verus! {

/// The terminal styles the output helpers use.
#[derive(Debug, Clone, Copy, PartialEq, Eq, Structural)]
pub enum Tone {
    /// Bold (no color).
    Bold,
    /// Bold + green.
    BoldGreen,
    /// Bold + bright white.
    BoldWhite,
    /// Bold + cyan.
    BoldCyan,
    /// Yellow.
    Yellow,
    /// Bright white.
    White,
    /// Dim (bright black / grey).
    Dim,
    /// Bright red (for failure counts).
    HiRed,
}

/// The foreground colors the tones use, named after `anstyle::AnsiColor`'s
/// variants.
#[derive(Debug, Clone, Copy, PartialEq, Eq, Structural)]
pub enum Hue {
    /// Green.
    Green,
    /// Cyan.
    Cyan,
    /// Yellow.
    Yellow,
    /// Bright white.
    BrightWhite,
    /// Bright black (grey).
    BrightBlack,
    /// Bright red.
    BrightRed,
}

/// What each tone is made of: whether it is bold, and its foreground color.
pub open spec fn tone_parts(t: Tone) -> (bool, Option<Hue>) {
    match t {
        Tone::Bold => (true, None),
        Tone::BoldGreen => (true, Some(Hue::Green)),
        Tone::BoldWhite => (true, Some(Hue::BrightWhite)),
        Tone::BoldCyan => (true, Some(Hue::Cyan)),
        Tone::Yellow => (false, Some(Hue::Yellow)),
        Tone::White => (false, Some(Hue::BrightWhite)),
        Tone::Dim => (false, Some(Hue::BrightBlack)),
        Tone::HiRed => (false, Some(Hue::BrightRed)),
    }
}

/// What a tone is made of.
pub fn parts_of(t: Tone) -> (r: (bool, Option<Hue>))
    ensures
        r == tone_parts(t),
{
    match t {
        Tone::Bold => (true, None),
        Tone::BoldGreen => (true, Some(Hue::Green)),
        Tone::BoldWhite => (true, Some(Hue::BrightWhite)),
        Tone::BoldCyan => (true, Some(Hue::Cyan)),
        Tone::Yellow => (false, Some(Hue::Yellow)),
        Tone::White => (false, Some(Hue::BrightWhite)),
        Tone::Dim => (false, Some(Hue::BrightBlack)),
        Tone::HiRed => (false, Some(Hue::BrightRed)),
    }
}

/// The SGR code `anstyle` renders for a foreground color.
pub open spec fn hue_code(h: Hue) -> Seq<char> {
    match h {
        Hue::Green => "\u{1b}[32m"@,
        Hue::Cyan => "\u{1b}[36m"@,
        Hue::Yellow => "\u{1b}[33m"@,
        Hue::BrightWhite => "\u{1b}[97m"@,
        Hue::BrightBlack => "\u{1b}[90m"@,
        Hue::BrightRed => "\u{1b}[91m"@,
    }
}

/// The SGR sequence `anstyle` renders for a style: `\x1B[1m` when bold, then
/// the foreground color's code.
pub open spec fn style_open(bold: bool, hue: Option<Hue>) -> Seq<char> {
    let b = if bold {
        "\u{1b}[1m"@
    } else {
        Seq::<char>::empty()
    };
    match hue {
        Some(h) => b + hue_code(h),
        None => b,
    }
}

/// The SGR sequence for each tone.
pub open spec fn tone_open(t: Tone) -> Seq<char> {
    style_open(tone_parts(t).0, tone_parts(t).1)
}

/// The reset sequence `anstyle` renders after a styled token.
pub open spec fn reset_text() -> Seq<char> {
    "\u{1b}[0m"@
}

#[verifier::external_type_specification]
#[verifier::external_body]
pub struct ExStyle(Style);

/// The `anstyle` style with the bold effect set as `bold` says and the
/// foreground color `hue` (conversion used by the two renderers).
#[verifier::external_body]
fn style_of(bold: bool, hue: Option<Hue>) -> Style {
    let fg = match hue {
        None => None,
        Some(Hue::Green) => Some(AnsiColor::Green.into()),
        Some(Hue::Cyan) => Some(AnsiColor::Cyan.into()),
        Some(Hue::Yellow) => Some(AnsiColor::Yellow.into()),
        Some(Hue::BrightWhite) => Some(AnsiColor::BrightWhite.into()),
        Some(Hue::BrightBlack) => Some(AnsiColor::BrightBlack.into()),
        Some(Hue::BrightRed) => Some(AnsiColor::BrightRed.into()),
    };
    Style::new().effects(Effects::new().set(Effects::BOLD, bold)).fg_color(fg)
}

/// `anstyle::Style::render` of the style, as text. The contract is the
/// sequence `anstyle`'s source writes: `\x1B[1m` for bold, then the color's
/// `\x1B[3Xm` or `\x1B[9Xm` code.
#[verifier::external_body]
fn render_open(bold: bool, hue: Option<Hue>) -> (r: String)
    ensures
        r@ == style_open(bold, hue),
{
    format!("{}", style_of(bold, hue).render())
}

/// `anstyle::Style::render_reset` of the style, as text: the reset code for
/// any style but the plain one, which renders nothing.
#[verifier::external_body]
fn render_reset(bold: bool, hue: Option<Hue>) -> (r: String)
    ensures
        bold || hue is Some ==> r@ == reset_text(),
        !bold && hue is None ==> r@.len() == 0,
{
    format!("{}", style_of(bold, hue).render_reset())
}

/// `text` wrapped in the tone's sequence and a reset when `on`, else `text`.
pub open spec fn painted(t: Tone, text: Seq<char>, on: bool) -> Seq<char> {
    if on {
        tone_open(t) + text + reset_text()
    } else {
        text
    }
}

/// The arrow glyph used between link source and target (U+2192).
pub open spec fn arrow_text() -> Seq<char> {
    seq!['\u{2192}']
}

/// The arrow glyph used between link source and target (U+2192).
pub fn arrow() -> (r: &'static str)
    ensures
        r@ == arrow_text(),
{
    proof {
        reveal_strlit("\u{2192}");
    }
    "\u{2192}"
}

/// Appends `text` painted in the tone to `v`.
pub fn push_painted(v: &mut Vec<char>, t: Tone, text: &str, on: bool)
    ensures
        final(v)@ == old(v)@ + painted(t, text@, on),
{
    if on {
        let (bold, hue) = parts_of(t);
        push_str(v, render_open(bold, hue).as_str());
        push_str(v, text);
        push_str(v, render_reset(bold, hue).as_str());
        assert(v@ =~= old(v)@ + painted(t, text@, on));
    } else {
        push_str(v, text);
    }
}

/// Apply the tone to `text` when `enabled`, else return `text` unchanged.
pub fn paint(t: Tone, text: &str, enabled: bool) -> (r: String)
    ensures
        r@ == painted(t, text@, enabled),
{
    let mut v: Vec<char> = Vec::new();
    push_painted(&mut v, t, text, enabled);
    assert(v@ =~= painted(t, text@, enabled));
    string_of(v.as_slice())
}

} // verus!
