use vstd::prelude::*;

verus! {

/// The language that pattern names are returned in.
#[derive(Debug, Clone, Copy, PartialEq, Eq, Structural)]
pub enum Lang {
    /// English
    En,
    /// Japanese
    Ja,
}

/// Table rules and display options that the rule evaluator reads.
#[derive(Debug, Clone, Copy)]
pub struct Settings {
    /// The language of the pattern names.
    pub display_lang: Lang,
    /// Whether all-simples is awarded to an open hand (kuitan).
    pub openned_all_simples: bool,
}

impl Settings {
    /// The default table: Japanese names, no all-simples on an open hand.
    pub fn new() -> (s: Settings)
        ensures
            s.display_lang == Lang::Ja,
            !s.openned_all_simples,
    {
        Settings { display_lang: Lang::Ja, openned_all_simples: false }
    }
}

} // verus!
