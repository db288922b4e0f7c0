//! What a request says about the look of the greeting card. Drawing the card
//! is not done here.

use crate::text::same_text;
use vstd::prelude::*;

verus! {

/// The backgrounds of the greeting card.
#[derive(Clone, Copy, Debug, PartialEq, Eq, Structural)]
pub enum BgType {
    /// The countdown to the Lunar New Year.
    LunarNewYear,
    /// The plain background.
    Plain,
}

/// The background that a name stands for: `lunar_new_year` for the
/// countdown, anything else for the plain one.
pub open spec fn bg_type_of(name: Seq<char>) -> BgType {
    if name == "lunar_new_year"@ {
        BgType::LunarNewYear
    } else {
        BgType::Plain
    }
}

impl BgType {
    /// Reads a background from its name. Every name is taken: one that is
    /// not known stands for the plain background.
    pub fn from_str(name: &str) -> (bg_type: BgType)
        ensures
            bg_type == bg_type_of(name@),
    {
        if same_text(name, "lunar_new_year") {
            BgType::LunarNewYear
        } else {
            BgType::Plain
        }
    }
}

impl Default for BgType {
    /// The plain background.
    fn default() -> (bg_type: BgType)
        ensures
            bg_type == BgType::Plain,
    {
        BgType::Plain
    }
}

} // verus!
