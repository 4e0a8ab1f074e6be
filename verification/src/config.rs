//! The saved settings.

use vstd::prelude::*;

verus! {

/// Settings kept in `config.toml`: the name of the colour theme.
pub struct Config {
    pub theme: String,
}

/// The theme used when none is saved: the live Omarchy theme.
pub fn default_theme() -> (r: String)
    ensures
        r@ == "omarchy"@,
{
    String::from_str("omarchy")
}

impl Default for Config {
    fn default() -> (c: Self)
        ensures
            c.theme@ == "omarchy"@,
    {
        Config { theme: default_theme() }
    }
}

} // verus!
