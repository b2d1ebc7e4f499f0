//! Classification of license text into one of the known license families.
//!
//! The fuzzy text comparison itself is performed by an external matcher whose
//! confidence score is a floating-point value, so running the matcher and
//! applying the confidence threshold happens outside the verified library.
//! Every decision taken on the matcher's output is made here: the exact-text
//! shortcut for the vendored Sublime license, the rejection of low-confidence
//! matches, and the mapping from a matched family name to a license type.

use crate::text::str_eq;
use super::core_types::LicenseType;
use vstd::prelude::*;

verus! {

/// Why classification of a license file's text failed.
#[derive(Clone, Copy, Debug, PartialEq, Eq, Structural)]
pub enum ClassifyError {
    /// The best fuzzy match did not clear the confidence threshold.
    LowConfidence,
    /// The matched family name is not one of the recognized keys.
    UnrecognizedFamily,
}

/// The license family that a fuzzy-matcher family name maps to, if any.
pub open spec fn family_of(name: Seq<char>) -> Option<LicenseType> {
    if name == "MIT"@ {
        Some(LicenseType::Mit)
    } else if name == "BSD-2-Clause"@ {
        Some(LicenseType::Bsd2Clause)
    } else if name == "BSD-2-Clause-FreeBSD"@ {
        Some(LicenseType::Bsd2ClauseFreeBsd)
    } else if name == "Unlicense"@ {
        Some(LicenseType::Unlicense)
    } else if name == "BSD-3-Clause"@ {
        Some(LicenseType::Bsd3Clause)
    } else if name == "Apache-2.0"@ {
        Some(LicenseType::Apache2)
    } else if name == "WTFPL"@ {
        Some(LicenseType::Wtfpl)
    } else {
        None
    }
}

impl LicenseType {
    /// The license type for a family name reported by the fuzzy matcher.
    pub fn from_family_name(name: &str) -> (r: Option<LicenseType>)
        ensures
            r == family_of(name@),
    {
        if str_eq(name, "MIT") {
            Some(LicenseType::Mit)
        } else if str_eq(name, "BSD-2-Clause") {
            Some(LicenseType::Bsd2Clause)
        } else if str_eq(name, "BSD-2-Clause-FreeBSD") {
            Some(LicenseType::Bsd2ClauseFreeBsd)
        } else if str_eq(name, "Unlicense") {
            Some(LicenseType::Unlicense)
        } else if str_eq(name, "BSD-3-Clause") {
            Some(LicenseType::Bsd3Clause)
        } else if str_eq(name, "Apache-2.0") {
            Some(LicenseType::Apache2)
        } else if str_eq(name, "WTFPL") {
            Some(LicenseType::Wtfpl)
        } else {
            None
        }
    }

    /// The exact-text shortcut: text that is identical to the vendored
    /// Sublime license string is classified as that license without any
    /// fuzzy matching, which handles a family that fuzzy comparison scores
    /// poorly.
    pub fn classify_exact(text: &str, sublime_license: &str) -> (r: Option<LicenseType>)
        ensures
            r == (if text@ == sublime_license@ {
                Some(LicenseType::Sublime)
            } else {
                None::<LicenseType>
            }),
    {
        if str_eq(text, sublime_license) {
            Some(LicenseType::Sublime)
        } else {
            None
        }
    }

    /// The decision on a fuzzy-match outcome: a match that did not clear the
    /// confidence threshold is rejected outright, and a confident match is
    /// accepted exactly when its family name is one of the recognized keys.
    pub fn classify_fuzzy(name: &str, confident: bool) -> (r: Result<LicenseType, ClassifyError>)
        ensures
            r == (if !confident {
                Err::<LicenseType, ClassifyError>(ClassifyError::LowConfidence)
            } else {
                match family_of(name@) {
                    Some(ty) => Ok::<LicenseType, ClassifyError>(ty),
                    None => Err::<LicenseType, ClassifyError>(ClassifyError::UnrecognizedFamily),
                }
            }),
    {
        if !confident {
            Err(ClassifyError::LowConfidence)
        } else {
            match Self::from_family_name(name) {
                Some(ty) => Ok(ty),
                None => Err(ClassifyError::UnrecognizedFamily),
            }
        }
    }
}

} // verus!
