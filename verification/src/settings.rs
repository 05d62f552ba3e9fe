//! Default values of the widget's appearance settings that are text or
//! flags. The numeric settings are fractional and are kept with the rest of
//! the settings outside this crate.

use vstd::prelude::*;
use vstd::string::*;

verus! {

/// Default colour theme: follow the system.
pub fn default_theme() -> (theme: String)
    ensures
        theme@ == "system"@,
{
    String::from_str("system")
}

/// Default colour of the kaomoji text.
pub fn default_font_color() -> (color: String)
    ensures
        color@ == "#d97757"@,
{
    String::from_str("#d97757")
}

/// Default CSS font stack of the kaomoji text.
pub fn default_font_family() -> (family: String)
    ensures
        family@ == "-apple-system, BlinkMacSystemFont, \"Segoe UI\", Roboto, Helvetica, Arial, sans-serif"@,
{
    String::from_str(
        "-apple-system, BlinkMacSystemFont, \"Segoe UI\", Roboto, Helvetica, Arial, sans-serif",
    )
}

/// Text shadow is on by default.
pub fn default_text_shadow() -> (on: bool)
    ensures
        on,
{
    true
}

/// Default colour of the text shadow.
pub fn default_text_shadow_color() -> (color: String)
    ensures
        color@ == "#000000"@,
{
    String::from_str("#000000")
}

/// Default background colour.
pub fn default_background_color() -> (color: String)
    ensures
        color@ == "#000000"@,
{
    String::from_str("#000000")
}

/// Notch mode is off by default.
pub fn default_notch_mode() -> (on: bool)
    ensures
        !on,
{
    false
}

} // verus!
