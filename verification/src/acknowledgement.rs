//! Acknowledgements for embedded data and all of their associated types

mod classify;
mod core_types;

pub use classify::ClassifyError;
pub use core_types::{AckView, Acknowledgements, License, LicenseType};

use vstd::prelude::*;

verus! {

/// The address of the full acknowledgement listing, as a sequence of
/// characters.
pub open spec fn url_spec() -> Seq<char> {
    "https://github.com/CosmicHorrorDev/two-face/blob/v0.5.0/generated/acknowledgements_full.md"@
}

/// Returns a link to a page listing acknowledgements for all syntax and theme
/// definitions
///
/// Unlike the embedded acknowledgements, which only include the licenses that
/// _require_ acknowledgement, the page behind this link lists _all_ of the
/// licenses of the syntaxes and themes included with this crate, without any
/// of the acknowledgement info having to be bundled into the final binary.
pub fn url() -> (r: &'static str)
    ensures
        r@ == url_spec(),
{
    "https://github.com/CosmicHorrorDev/two-face/blob/v0.5.0/generated/acknowledgements_full.md"
}

} // verus!
