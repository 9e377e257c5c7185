//! How the parameter editor presents a parameter: angles take degrees or
//! radians, everything else is a length.

use vstd::prelude::*;

use crate::text::{has_substring, has_suffix, str_contains, str_ends_with};

verus! {

/// A parameter is an angle when its name ends in `_rad` or `_deg`, or
/// mentions `angle`.
pub open spec fn angle_name(name: Seq<char>) -> bool {
    has_suffix(name, "_rad"@) || has_suffix(name, "_deg"@) || has_substring(name, "angle"@)
}

/// Whether the parameter called `name` holds an angle.
pub fn is_angle_parameter(name: &str) -> (r: bool)
    ensures
        r == angle_name(name@),
{
    str_ends_with(name, "_rad") || str_ends_with(name, "_deg") || str_contains(name, "angle")
}

/// The unit reminder and the example expression shown for the parameter
/// called `name`.
pub fn parameter_hints(name: &str) -> (r: (Option<String>, Option<String>))
    ensures
        angle_name(name@) ==> (r.0 matches Some(u) && u@ == "deg or rad"@) && (r.1 matches Some(e)
            && e@ == "180 deg"@),
        !angle_name(name@) ==> (r.0 matches Some(u) && u@ == "mm, m, or names"@) && (r.1 matches Some(
            e,
        ) && e@ == "80 mm"@),
{
    if is_angle_parameter(name) {
        (Some("deg or rad".to_owned()), Some("180 deg".to_owned()))
    } else {
        (Some("mm, m, or names".to_owned()), Some("80 mm".to_owned()))
    }
}

} // verus!
