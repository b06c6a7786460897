//! Terminal glue: the reading of boolean-like configuration values and the
//! emphasis colours of the rendered output.

use crate::text::{opt_view, same_text};
use vstd::prelude::*;
use vstd::string::StringExecFns;

verus! {

/// What `str::to_lowercase` returns for `text`: its lowercase form by the
/// Unicode rules that the standard library follows.
pub uninterp spec fn lowercase_of(text: Seq<char>) -> Seq<char>;

/// Calls `str::to_lowercase`. The contract claims only that the outcome is
/// the one named by `lowercase_of`.
#[verifier::external_body]
fn to_lowercase(text: &str) -> (low: String)
    ensures
        low@ == lowercase_of(text@),
{
    text.to_lowercase()
}

/// A lowercased configuration value switches a feature on unless it reads
/// `false` or `0`.
pub open spec fn enabled_text(low: Seq<char>) -> bool {
    !(low == "false"@ || low == "0"@)
}

/// Whether a configuration value that is already in lowercase switches a
/// feature on.
pub fn flag_of(low: &str) -> (r: bool)
    ensures
        r == enabled_text(low@),
{
    !(same_text(low, "false") || same_text(low, "0"))
}

/// Whether the value of a configuration variable switches a feature on: it
/// does not where the variable is unset, nor where its value reads `false`
/// or `0` in any mix of upper and lower case.
pub open spec fn var_enabled_of(value: Option<Seq<char>>) -> bool {
    match value {
        Some(v) => enabled_text(lowercase_of(v)),
        None => false,
    }
}

/// As `var_enabled_of`, with `default` taken for the value of an unset
/// variable.
pub open spec fn var_enabled_d_of(value: Option<Seq<char>>, default: Seq<char>) -> bool {
    match value {
        Some(v) => enabled_text(lowercase_of(v)),
        None => enabled_text(lowercase_of(default)),
    }
}

/// Whether a configuration variable with the given value (`None` where it is
/// unset) is enabled.
pub fn var_enabled(value: Option<&str>) -> (r: bool)
    ensures
        r == var_enabled_of(opt_view(value)),
{
    match value {
        Some(v) => {
            let low = to_lowercase(v);
            flag_of(low.as_str())
        },
        None => false,
    }
}

/// Whether a configuration variable with the given value is enabled, with
/// `default` standing in where it is unset.
pub fn var_enabled_d(value: Option<&str>, default: &str) -> (r: bool)
    ensures
        r == var_enabled_d_of(opt_view(value), default@),
{
    let low = match value {
        Some(v) => to_lowercase(v),
        None => to_lowercase(default),
    };
    flag_of(low.as_str())
}

/// The two emphasis colours of the rendered output.
#[derive(Clone, Copy, Debug)]
pub enum Hue {
    Red,
    Cyan,
}

/// The SGR parameter that selects the bright variant of a colour.
pub open spec fn hue_code(hue: Hue) -> Seq<char> {
    match hue {
        Hue::Red => "91"@,
        Hue::Cyan => "96"@,
    }
}

/// Renders `gory::Color::Red` or `gory::Color::Cyan` through the `Display`
/// impl of `gory::Color`, which writes the colour's SGR parameter.
#[verifier::external_body]
fn sgr_code(hue: Hue) -> (code: String)
    ensures
        code@ == hue_code(hue),
{
    match hue {
        Hue::Red => gory::Color::Red,
        Hue::Cyan => gory::Color::Cyan,
    }.to_string()
}

/// `text` between the escape sequence that switches to bold `hue` and the
/// one that resets the terminal.
pub open spec fn emphasized(hue: Hue, text: Seq<char>) -> Seq<char> {
    "\x1B["@ + "1;"@ + hue_code(hue) + "m"@ + text + "\x1B[0m"@
}

/// `text` as a painter shows it: emphasized where colour is on, unchanged
/// where it is off.
pub open spec fn painted(colorized: bool, hue: Hue, text: Seq<char>) -> Seq<char> {
    if colorized {
        emphasized(hue, text)
    } else {
        text
    }
}

/// Decides once whether output is coloured, and paints text accordingly.
#[derive(Clone, Copy, Debug)]
pub struct Colorized {
    /// Whether emphasis colours are written.
    pub colorized: bool,
}

impl Colorized {
    /// A painter for an output that is a terminal or not (`tty`), under the
    /// colour variable's value `color` (`None` where it is unset): colour is
    /// on for a terminal unless the variable switches it off.
    pub fn new(tty: bool, color: Option<&str>) -> (c: Colorized)
        ensures
            c.colorized == (tty && var_enabled_d_of(opt_view(color), "true"@)),
    {
        Colorized { colorized: if tty { var_enabled_d(color, "true") } else { false } }
    }

    /// `msg` in `hue`.
    pub fn paint(&self, hue: Hue, msg: &str) -> (out: String)
        ensures
            out@ == painted(self.colorized, hue, msg@),
    {
        if self.colorized {
            let mut out = String::from_str("\x1B[");
            out.append("1;");
            out.append(sgr_code(hue).as_str());
            out.append("m");
            out.append(msg);
            out.append("\x1B[0m");
            out
        } else {
            String::from_str(msg)
        }
    }

    /// `msg` in red.
    pub fn red(&self, msg: &str) -> (out: String)
        ensures
            out@ == painted(self.colorized, Hue::Red, msg@),
    {
        self.paint(Hue::Red, msg)
    }

    /// `msg` in cyan.
    pub fn cyan(&self, msg: &str) -> (out: String)
        ensures
            out@ == painted(self.colorized, Hue::Cyan, msg@),
    {
        self.paint(Hue::Cyan, msg)
    }
}

} // verus!
