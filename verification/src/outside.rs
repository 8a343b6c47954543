//! The few calls that leave verified code: Unicode case folding and
//! trimming from std, the clock and the random generator used to name
//! capture files, and the probe for an existing path. Each is a thin
//! wrapper whose contract states only what the callee's documentation
//! promises; everything that can be computed from the results is verified
//! elsewhere in the crate.

use vstd::prelude::*;
use rand::Rng;

verus! {

/// The lower-case form of a character sequence, as `str::to_lowercase`
/// computes it. It depends on the characters alone.
pub uninterp spec fn lower_of(s: Seq<char>) -> Seq<char>;

/// Relies on `str::to_lowercase`: the result is a function of the input
/// characters alone (Unicode case folding, locale-independent).
#[verifier::external_body]
pub(crate) fn lowercase(s: &str) -> (r: String)
    ensures
        r@ == lower_of(s@),
{
    s.to_lowercase()
}

/// A character sequence with leading and trailing whitespace removed, as
/// `str::trim` computes it. It depends on the characters alone.
pub uninterp spec fn trim_of(s: Seq<char>) -> Seq<char>;

/// Relies on `str::trim`: the result is a function of the input characters
/// alone (it strips leading and trailing Unicode whitespace).
#[verifier::external_body]
pub(crate) fn trimmed(s: &str) -> (r: &str)
    ensures
        r@ == trim_of(s@),
{
    s.trim()
}

/// Relies on `chrono::Local::now` and `DateTime::format` with the pattern
/// `%Y%m%d_%H%M%S`: the wall-clock time compacted into text. Nothing is
/// promised of the result; callers treat any returned text as a valid
/// timestamp component.
#[verifier::external_body]
pub(crate) fn now_timestamp() -> (r: String)
{
    chrono::Local::now().format("%Y%m%d_%H%M%S").to_string()
}

/// Relies on `rand::thread_rng` and `Rng::gen`: a fresh random 32-bit
/// value. Nothing can be promised of it.
#[verifier::external_body]
pub(crate) fn random_u32() -> (r: u32)
{
    rand::thread_rng().gen()
}

/// Relies on `std::path::Path::exists`: whether a file by this name is on
/// disk right now. The answer depends on the state of the disk, so nothing
/// is promised of it.
#[verifier::external_body]
pub(crate) fn path_exists(p: &str) -> (r: bool)
{
    std::path::Path::new(p).exists()
}

} // verus!
