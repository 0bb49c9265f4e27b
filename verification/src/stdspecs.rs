use vstd::prelude::*;

verus! {

/// Relies on str's PartialEq: two string slices are equal exactly when
/// their character sequences are.
pub assume_specification[ <str as PartialEq<str>>::eq ](s: &str, other: &str) -> (r: bool)
    ensures
        r == (s@ == other@),
;

/// The duration that `Duration::from_secs` builds for a second count.
/// Durations are otherwise opaque; the name only ties equal second counts
/// to equal values, so that configured defaults can be stated.
pub uninterp spec fn duration_from_secs(secs: u64) -> core::time::Duration;

/// Relies on core::time::Duration::from_secs: a pure constructor, named
/// above.
pub assume_specification[ core::time::Duration::from_secs ](secs: u64) -> (d: core::time::Duration)
    ensures
        d == duration_from_secs(secs),
;

} // verus!
