//! Extra syntax and theme definitions for the `syntect` highlighting engine,
//! together with license acknowledgements for the bundled assets.
//!
//! The crate is organised around three concerns:
//!
//! - [`acknowledgement`]: license records for every bundled asset and the
//!   rendering of those records to a Markdown document.
//! - [`theme`]: a lazily-deserializing theme container plus a closed
//!   enumeration of every bundled theme name.
//! - [`pipeline`]: the pure decisions of the asset-generation pipeline
//!   (file staging rules, deterministic ordering, license classification
//!   support) and the asset fingerprinting used by size/linker checks.

use vstd::prelude::*;

pub mod acknowledgement;
pub mod fingerprint;
pub mod pipeline;
pub mod text;
pub mod theme;

verus! {

/// Returns a link to a page listing acknowledgements for all syntax and theme
/// definitions, without bundling the acknowledgement data itself.
pub fn acknowledgement_url() -> (r: &'static str)
    ensures
        r@ == crate::acknowledgement::url_spec(),
{
    "https://github.com/CosmicHorrorDev/two-face/blob/v0.5.0/generated/acknowledgements_full.md"
}

} // verus!
