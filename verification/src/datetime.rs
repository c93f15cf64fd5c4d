//! The timestamp normalizer: a raw timestamp, parsed strictly against a
//! format, shifted by a whole number of hours, and rendered in the canonical
//! form "HH:MM DD-MM-YYYY".
use vstd::prelude::*;

use crate::trusted::{chrono_normalize, norm_datetime_of};

verus! {

/// What `convert_datetime` returns: chrono's normalization where it is
/// defined, the offset error where the shift leaves chrono's range, and the
/// parse error, prefixed, where the input does not match the format.
pub open spec fn spec_convert_datetime(
    input: Seq<char>,
    in_format: Seq<char>,
    offset_hours: int,
) -> Result<Seq<char>, Seq<char>> {
    match norm_datetime_of(input, in_format, offset_hours) {
        Some(Ok(s)) => Ok(s),
        Some(Err(e)) => Err("parsing datetime string error: "@ + e),
        None => Err("datetime offset out of range"@),
    }
}

/// Parses `input` strictly against `in_format`, adds `offset_hours` whole
/// hours, and renders the canonical form "HH:MM DD-MM-YYYY" on a 24-hour
/// clock.
pub fn convert_datetime(input: &str, in_format: &str, offset_hours: i64) -> (r: Result<
    String,
    String,
>)
    ensures
        (match r {
            Ok(s) => spec_convert_datetime(input@, in_format@, offset_hours as int)
                == Ok::<Seq<char>, Seq<char>>(s@),
            Err(e) => spec_convert_datetime(input@, in_format@, offset_hours as int)
                == Err::<Seq<char>, Seq<char>>(e@),
        }),
{
    match chrono_normalize(input, in_format, "%H:%M %d-%m-%Y", offset_hours) {
        Some(Ok(s)) => Ok(s),
        Some(Err(e)) => {
            let mut m = String::from_str("parsing datetime string error: ");
            m.append(e.as_str());
            Err(m)
        },
        None => Err(String::from_str("datetime offset out of range")),
    }
}

} // verus!
