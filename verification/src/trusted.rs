//! The boundary to the outside crates. Each function here is trusted: its
//! body makes the outside call and its contract states what the call returns.
//! Results that are functions of the arguments alone but have no short
//! description (chrono's formatting, the canonical rendering of a float) are
//! given opaque names, so that the callers' contracts can be exact.
use vstd::prelude::*;

verus! {

/// serde_json's Value, declared opaque: the library carries such values
/// through and reads them only behind the trusted readers below.
#[verifier::external_type_specification]
#[verifier::external_body]
pub struct ExValue(serde_json::Value);

/// The canonical decimal rendering of a numeric token: the token parsed as a
/// 32-bit float and written back the way the output serializer writes float
/// fields; None when the token is not entirely one number.
pub uninterp spec fn canon_f32_of(s: Seq<char>) -> Option<Seq<char>>;

/// What normalizing a timestamp returns: None when the hour offset or the
/// shifted date is out of chrono's range, otherwise chrono's result of
/// parsing against the format, shifting, and rendering "HH:MM DD-MM-YYYY".
pub uninterp spec fn norm_datetime_of(
    input: Seq<char>,
    in_format: Seq<char>,
    offset_hours: int,
) -> Option<Result<Seq<char>, Seq<char>>>;

/// What deserializing the row-table Kp feed returns: the table of string
/// cells, or serde's error message.
pub uninterp spec fn kp_table_of(s: Seq<char>) -> Result<Seq<Seq<Seq<char>>>, Seq<char>>;

/// The fields {time_tag, kp_index} of one record of the instantaneous Kp
/// feed, with kp_index in canonical decimal form; None when the record does
/// not have that shape.
pub uninterp spec fn inst_view(v: serde_json::Value) -> Option<(Seq<char>, Seq<char>)>;

/// The fields {time_tag, flux, energy} of one record of the proton-flux
/// feed, with flux in canonical decimal form; None when the record does not
/// have that shape.
pub uninterp spec fn flux_view(v: serde_json::Value) -> Option<
    (Seq<char>, Seq<char>, Seq<char>),
>;

/// What deserializing a JSON array feed returns: the per-record views of its
/// elements, read as instantaneous-Kp records and as proton-flux records, or
/// serde's error message.
pub uninterp spec fn json_records_of(s: Seq<char>) -> Result<
    (Seq<Option<(Seq<char>, Seq<char>)>>, Seq<Option<(Seq<char>, Seq<char>, Seq<char>)>>),
    Seq<char>,
>;

/// Relies on nom's `number::complete::float` and on serde_json::to_string of
/// the value it yields: the canonical rendering of a numeric token, None
/// when the token is not entirely one number.
#[verifier::external_body]
pub(crate) fn canon_f32(s: &str) -> (r: Option<String>)
    ensures
        (match (r, canon_f32_of(s@)) {
            (Some(a), Some(b)) => a@ == b,
            (None, None) => true,
            _ => false,
        }),
{
    match nom::number::complete::float::<&str, nom::error::Error<&str>>(s) {
        Ok((rest, val)) if rest.is_empty() => serde_json::to_string(&val).ok(),
        _ => None,
    }
}

/// Relies on chrono's NaiveDateTime::parse_from_str, TimeDelta::try_hours,
/// checked_add_signed and format: parses `input` strictly against
/// `in_format`, adds the offset, and renders the sum with `out_format`.
/// None is an out-of-range offset or sum; the inner error is chrono's own
/// parse message.
#[verifier::external_body]
pub(crate) fn chrono_normalize(
    input: &str,
    in_format: &str,
    out_format: &str,
    offset_hours: i64,
) -> (r: Option<Result<String, String>>)
    requires
        out_format@ == "%H:%M %d-%m-%Y"@,
    ensures
        (match (r, norm_datetime_of(input@, in_format@, offset_hours as int)) {
            (Some(Ok(a)), Some(Ok(b))) => a@ == b,
            (Some(Err(a)), Some(Err(b))) => a@ == b,
            (None, None) => true,
            _ => false,
        }),
{
    let dt = match chrono::NaiveDateTime::parse_from_str(input, in_format) {
        Ok(d) => d,
        Err(e) => return Some(Err(e.to_string())),
    };
    let delta = match chrono::TimeDelta::try_hours(offset_hours) {
        Some(d) => d,
        None => return None,
    };
    match dt.checked_add_signed(delta) {
        Some(shifted) => Some(Ok(shifted.format(out_format).to_string())),
        None => None,
    }
}

/// Relies on serde_json::from_str::<Vec<Vec<String>>>: deserializes the
/// row-table Kp feed; the error is serde's own message.
#[verifier::external_body]
pub(crate) fn json_string_table(s: &str) -> (r: Result<Vec<Vec<String>>, String>)
    ensures
        (match (r, kp_table_of(s@)) {
            (Ok(v), Ok(m)) => v.deep_view() == m,
            (Err(a), Err(b)) => a@ == b,
            _ => false,
        }),
{
    match serde_json::from_str::<Vec<Vec<String>>>(s) {
        Ok(v) => Ok(v),
        Err(e) => Err(e.to_string()),
    }
}

/// Relies on serde_json::from_str::<Vec<serde_json::Value>>: splits a JSON
/// array feed into its element values; the error is serde's own message.
#[verifier::external_body]
pub(crate) fn json_value_array(s: &str) -> (r: Result<Vec<serde_json::Value>, String>)
    ensures
        (match (r, json_records_of(s@)) {
            (Ok(vs), Ok(m)) => m.0 == vs@.map_values(|v: serde_json::Value| inst_view(v)) && m.1
                == vs@.map_values(|v: serde_json::Value| flux_view(v)),
            (Err(a), Err(b)) => a@ == b,
            _ => false,
        }),
{
    match serde_json::from_str::<Vec<serde_json::Value>>(s) {
        Ok(v) => Ok(v),
        Err(e) => Err(e.to_string()),
    }
}

/// Relies on serde_json's Value accessors (get, as_str, is_number,
/// to_string), on nom's float parser and on serde_json::to_string of the
/// parsed value: reads one {time_tag, kp_index} record, rendering kp_index
/// in canonical decimal form.
#[verifier::external_body]
pub(crate) fn read_inst(v: &serde_json::Value) -> (r: Option<(String, String)>)
    ensures
        (match (r, inst_view(*v)) {
            (Some(a), Some(b)) => a.0@ == b.0 && a.1@ == b.1,
            (None, None) => true,
            _ => false,
        }),
{
    let t = match v.get("time_tag") { Some(x) => x.as_str(), None => None };
    let k = match v.get("kp_index") { Some(x) if x.is_number() => x.to_string(), _ => return None };
    match (t, nom::number::complete::float::<&str, nom::error::Error<&str>>(&k)) {
        (Some(t), Ok(("", val))) => match serde_json::to_string(&val) {
            Ok(c) => Some((t.to_string(), c)),
            _ => None,
        },
        _ => None,
    }
}

/// Relies on serde_json's Value accessors (get, as_str, is_number,
/// to_string), on nom's float parser and on serde_json::to_string of the
/// parsed value: reads one {time_tag, flux, energy} record, rendering flux
/// in canonical decimal form.
#[verifier::external_body]
pub(crate) fn read_flux(v: &serde_json::Value) -> (r: Option<(String, String, String)>)
    ensures
        (match (r, flux_view(*v)) {
            (Some(a), Some(b)) => a.0@ == b.0 && a.1@ == b.1 && a.2@ == b.2,
            (None, None) => true,
            _ => false,
        }),
{
    let t = match v.get("time_tag") { Some(x) => x.as_str(), None => None };
    let e = match v.get("energy") { Some(x) => x.as_str(), None => None };
    let f = match v.get("flux") { Some(x) if x.is_number() => x.to_string(), _ => return None };
    match (t, e, nom::number::complete::float::<&str, nom::error::Error<&str>>(&f)) {
        (Some(t), Some(e), Ok(("", val))) => match serde_json::to_string(&val) {
            Ok(c) => Some((t.to_string(), c, e.to_string())),
            _ => None,
        },
        _ => None,
    }
}

} // verus!
