//! The failures that end a translation request.
use vstd::prelude::*;

verus! {

/// Why a translation request produced no output.
#[derive(Debug, Clone, PartialEq, Eq)]
pub enum TranslateError {
    /// The admission gate refused the input: its normalized entropy, in millionths, was
    /// above the threshold.
    AdmissionRejected { ratio_ppm: u32 },
    /// The front end found nothing to translate.
    NoTranslatableUnit,
    /// No front end and backend are registered for the two language names.
    UnsupportedLanguagePair,
}

} // verus!
