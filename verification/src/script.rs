//! Dispatch keys: the writing script of a text span and the language variant
//! refining it when several languages share a script.

use vstd::prelude::*;

verus! {

/// Writing system of an input text; set once per text and used only as a
/// dispatch key by the registry.
#[derive(Clone, Copy, Debug, Hash, PartialEq, Eq, Structural)]
pub enum Script {
    Cyrillic,
    Greek,
    Khmer,
    Latin,
    Myanmar,
    Thai,
    Other,
}

/// Language variant of an input text; refines dispatch when several
/// languages share a script.
#[derive(Clone, Copy, Debug, Hash, PartialEq, Eq, Structural)]
pub enum Language {
    Ell,
    Eng,
    Fra,
    Khm,
    Mya,
    Rus,
    Tha,
    Other,
}

} // verus!
