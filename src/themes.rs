//! Color theme names.

use vstd::prelude::*;

verus! {

/// A color theme for terminal output.
#[derive(Debug, Clone, Copy, PartialEq, Eq, Structural)]
pub enum Theme {
    Default,
    Minimal,
    HighContrast,
    Dark,
    Light,
    Monochrome,
}

/// What `str::to_lowercase` returns for a string.
pub uninterp spec fn lower_of(s: Seq<char>) -> Seq<char>;

/// Relies on `str::to_lowercase`: the lowercase mapping of each character,
/// which depends on the characters alone.
#[verifier::external_body]
fn lowercase(s: &str) -> (r: String)
    ensures
        r@ == lower_of(s@),
{
    s.to_lowercase()
}

/// The theme a lowercase name denotes.
pub open spec fn theme_named(name: Seq<char>) -> Option<Theme> {
    if name == "default"@ {
        Some(Theme::Default)
    } else if name == "minimal"@ {
        Some(Theme::Minimal)
    } else if name == "high-contrast"@ || name == "highcontrast"@ {
        Some(Theme::HighContrast)
    } else if name == "dark"@ {
        Some(Theme::Dark)
    } else if name == "light"@ {
        Some(Theme::Light)
    } else if name == "monochrome"@ || name == "mono"@ {
        Some(Theme::Monochrome)
    } else {
        None
    }
}

fn is_name(s: &String, name: &str) -> (r: bool)
    ensures
        r == (s@ == name@),
{
    *s == name.to_owned()
}

impl Theme {
    /// The theme for an already lowercase name.
    pub fn from_lowercase(name: &String) -> (r: Option<Theme>)
        ensures
            r == theme_named(name@),
    {
        if is_name(name, "default") {
            Some(Theme::Default)
        } else if is_name(name, "minimal") {
            Some(Theme::Minimal)
        } else if is_name(name, "high-contrast") || is_name(name, "highcontrast") {
            Some(Theme::HighContrast)
        } else if is_name(name, "dark") {
            Some(Theme::Dark)
        } else if is_name(name, "light") {
            Some(Theme::Light)
        } else if is_name(name, "monochrome") || is_name(name, "mono") {
            Some(Theme::Monochrome)
        } else {
            None
        }
    }

    /// The theme a name denotes, ignoring case.
    pub fn from_str(s: &str) -> (r: Option<Theme>)
        ensures
            r == theme_named(lower_of(s@)),
    {
        let l = lowercase(s);
        Theme::from_lowercase(&l)
    }
}

impl Default for Theme {
    fn default() -> (r: Self)
        ensures
            r == Theme::Default,
    {
        Theme::Default
    }
}

} // verus!
