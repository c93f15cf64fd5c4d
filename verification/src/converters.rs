//! The four conversion entry points, one per feed kind. Each is a pure
//! function of its input text: the contract pins the exact output text (or
//! the exact error) through a spec-level pipeline of deserialization,
//! windowing, normalization and serialization.
use vstd::prelude::*;

use crate::bulletin::{parse_sw_forecast, sp_parse_sw};
use crate::datetime::{convert_datetime, spec_convert_datetime};
use crate::jsonout::{
    flux_array_json, flux_array_string, kp_array_json, kp_array_string, kp_obj_json,
    kp_obj_string, pair_views, sw_json, sw_string,
};
use crate::records::{flux_views, FluxRec, FluxView};
use crate::text::str_eq;
use crate::trusted::{
    canon_f32, canon_f32_of, json_records_of, json_string_table, json_value_array, kp_table_of,
    read_flux, read_inst, flux_view, inst_view,
};

verus! {

/// The trailing window: the whole sequence when it is short enough, else
/// exactly its last `n` elements in order.
pub open spec fn spec_trailing_window<T>(s: Seq<T>, n: int) -> Seq<T> {
    if s.len() > n {
        s.skip(s.len() - n)
    } else {
        s
    }
}

/// Law: selecting a trailing window keeps a short input whole, and keeps
/// exactly the last `n` elements, in order, of a longer one.
pub proof fn lemma_trailing_window<T>(s: Seq<T>, n: int)
    requires
        n >= 0,
    ensures
        s.len() <= n ==> spec_trailing_window(s, n) == s,
        s.len() > n ==> spec_trailing_window(s, n).len() == n,
        s.len() > n ==> forall|k: int|
            0 <= k < n ==> spec_trailing_window(s, n)[k] == s[s.len() - n + k],
{
}

/// Whether every element is present.
pub open spec fn all_some<T>(s: Seq<Option<T>>) -> bool {
    forall|t: int| 0 <= t < s.len() ==> (#[trigger] s[t]) is Some
}

pub open spec fn unwrap_all<T>(s: Seq<Option<T>>) -> Seq<T> {
    s.map_values(|o: Option<T>| o.unwrap())
}

// ---------------------------------------------------------------------------
// The windowed (release-cadence) Kp feed.
// ---------------------------------------------------------------------------
/// The records of the retained rows, in order: each row needs at least two
/// cells; the first cell is normalized with a +3 hour offset, the second is
/// the Kp value in canonical form, an unparsable one silently zero.
pub open spec fn spec_kp_rows(rs: Seq<Seq<Seq<char>>>) -> Result<
    Seq<(Seq<char>, Seq<char>)>,
    Seq<char>,
>
    decreases rs.len(),
{
    if rs.len() == 0 {
        Ok(Seq::empty())
    } else if rs[0].len() < 2 {
        Err("error during parsing data"@)
    } else {
        match spec_convert_datetime(rs[0][0], "%Y-%m-%d %H:%M:%S%.3f"@, 3) {
            Err(e) => Err(e),
            Ok(t) => {
                let kp = if canon_f32_of(rs[0][1]) is Some {
                    canon_f32_of(rs[0][1]).unwrap()
                } else {
                    "0.0"@
                };
                match spec_kp_rows(rs.skip(1)) {
                    Err(e) => Err(e),
                    Ok(rest) => Ok(seq![(t, kp)] + rest),
                }
            },
        }
    }
}

/// What `converter_kp` returns: the deserialized table without its header
/// row, trimmed to the trailing 7 rows, converted and serialized.
pub open spec fn spec_converter_kp(s: Seq<char>) -> Result<Seq<char>, Seq<char>> {
    match kp_table_of(s) {
        Err(e) => Err("deserilisation error: "@ + e),
        Ok(rows) => if rows.len() == 0 {
            Err("got no data"@)
        } else {
            match spec_kp_rows(spec_trailing_window(rows.skip(1), 7)) {
                Err(e) => Err(e),
                Ok(recs) => Ok(kp_array_json(recs)),
            }
        },
    }
}

fn kp_rows_x(rows: &Vec<Vec<String>>, c: usize) -> (r: Result<Vec<(String, String)>, String>)
    requires
        c <= rows@.len(),
    ensures
        (match r {
            Ok(out) => spec_kp_rows(rows.deep_view().skip(c as int)) == Ok::<_, Seq<char>>(
                pair_views(out@),
            ),
            Err(e) => spec_kp_rows(rows.deep_view().skip(c as int)) == Err::<
                Seq<(Seq<char>, Seq<char>)>,
                _,
            >(e@),
        }),
    decreases rows@.len() - c,
{
    let ghost dv = rows.deep_view();
    if c == rows.len() {
        let out: Vec<(String, String)> = Vec::new();
        proof {
            assert(dv.skip(c as int) =~= Seq::<Seq<Seq<char>>>::empty());
            assert(pair_views(out@) =~= Seq::<(Seq<char>, Seq<char>)>::empty());
        }
        return Ok(out);
    }
    proof {
        assert(dv.skip(c as int)[0] == dv[c as int]);
        assert(dv[c as int].len() == rows@[c as int]@.len());
    }
    if rows[c].len() < 2 {
        return Err(String::from_str("error during parsing data"));
    }
    proof {
        assert(dv[c as int][0] == rows@[c as int]@[0]@);
        assert(dv[c as int][1] == rows@[c as int]@[1]@);
    }
    let t = match convert_datetime(rows[c][0].as_str(), "%Y-%m-%d %H:%M:%S%.3f", 3) {
        Ok(t) => t,
        Err(e) => {
            return Err(e);
        },
    };
    let kp = match canon_f32(rows[c][1].as_str()) {
        Some(x) => x,
        None => String::from_str("0.0"),
    };
    proof {
        assert(dv.skip(c as int).skip(1) =~= dv.skip(c + 1));
    }
    let rest = match kp_rows_x(rows, c + 1) {
        Ok(x) => x,
        Err(e) => {
            return Err(e);
        },
    };
    let ghost rest0 = rest@;
    let mut out: Vec<(String, String)> = Vec::new();
    out.push((t, kp));
    let mut rest = rest;
    out.append(&mut rest);
    proof {
        assert(pair_views(out@) =~= seq![(out@[0].0@, out@[0].1@)] + pair_views(rest0));
    }
    Ok(out)
}

/// Converts the release-cadence Kp feed: a JSON row table whose header row
/// is dropped and whose trailing 7 rows become Kp records with interval-end
/// timestamps.
pub fn converter_kp(raw_text: String) -> (r: Result<String, String>)
    ensures
        (match r {
            Ok(s) => spec_converter_kp(raw_text@) == Ok::<Seq<char>, Seq<char>>(s@),
            Err(e) => spec_converter_kp(raw_text@) == Err::<Seq<char>, Seq<char>>(e@),
        }),
{
    let rows = match json_string_table(raw_text.as_str()) {
        Ok(v) => v,
        Err(e) => {
            let mut m = String::from_str("deserilisation error: ");
            m.append(e.as_str());
            return Err(m);
        },
    };
    let ghost dv = rows.deep_view();
    if rows.len() == 0 {
        return Err(String::from_str("got no data"));
    }
    let start: usize = if rows.len() - 1 > 7 {
        rows.len() - 7
    } else {
        1
    };
    proof {
        assert(spec_trailing_window(dv.skip(1), 7) =~= dv.skip(start as int));
    }
    let recs = match kp_rows_x(&rows, start) {
        Ok(x) => x,
        Err(e) => {
            return Err(e);
        },
    };
    Ok(kp_array_string(&recs))
}

// ---------------------------------------------------------------------------
// The instantaneous Kp feed.
// ---------------------------------------------------------------------------
/// What `converter_kp_inst` returns: every record must have the expected
/// shape, the last one is normalized (offset zero) and serialized; an empty
/// feed is an error.
pub open spec fn spec_converter_kp_inst(s: Seq<char>) -> Result<Seq<char>, Seq<char>> {
    match json_records_of(s) {
        Err(e) => Err("deserilisation error: "@ + e),
        Ok(m) => if !all_some(m.0) {
            Err("deserilisation error: malformed record"@)
        } else if m.0.len() == 0 {
            Err("got no data"@)
        } else {
            let last = m.0.last().unwrap();
            match spec_convert_datetime(last.0, "%Y-%m-%dT%H:%M:%S%Z"@, 0) {
                Err(e) => Err(e),
                Ok(t) => Ok(kp_obj_json(t, last.1)),
            }
        },
    }
}

/// Converts the instantaneous Kp feed: the most recent sample of a JSON
/// object array, as one Kp record.
#[verifier::loop_isolation(false)]
pub fn converter_kp_inst(raw_text: String) -> (r: Result<String, String>)
    ensures
        (match r {
            Ok(s) => spec_converter_kp_inst(raw_text@) == Ok::<Seq<char>, Seq<char>>(s@),
            Err(e) => spec_converter_kp_inst(raw_text@) == Err::<Seq<char>, Seq<char>>(e@),
        }),
{
    let vs = match json_value_array(raw_text.as_str()) {
        Ok(v) => v,
        Err(e) => {
            let mut m = String::from_str("deserilisation error: ");
            m.append(e.as_str());
            return Err(m);
        },
    };
    let ghost im = vs@.map_values(|v: serde_json::Value| inst_view(v));
    let mut lastrec: Option<(String, String)> = None;
    let mut k: usize = 0;
    while k < vs.len()
        invariant
            k <= vs@.len(),
            forall|u: int| 0 <= u < k ==> (#[trigger] im[u]) is Some,
            k == 0 ==> lastrec is None,
            k > 0 ==> lastrec is Some && im[k - 1] is Some && (lastrec.unwrap().0@, lastrec.unwrap().1@)
                == im[k - 1].unwrap(),
        decreases vs@.len() - k,
    {
        match read_inst(&vs[k]) {
            None => {
                proof {
                    assert(im[k as int] is None);
                    assert(!all_some(im));
                }
                return Err(String::from_str("deserilisation error: malformed record"));
            },
            Some(x) => {
                lastrec = Some(x);
            },
        }
        k = k + 1;
    }
    match lastrec {
        None => Err(String::from_str("got no data")),
        Some(x) => {
            proof {
                assert(im.last() == im[vs@.len() - 1]);
            }
            let t = match convert_datetime(x.0.as_str(), "%Y-%m-%dT%H:%M:%S%Z", 0) {
                Ok(t) => t,
                Err(e) => {
                    return Err(e);
                },
            };
            Ok(kp_obj_string(t.as_str(), x.1.as_str()))
        },
    }
}

// ---------------------------------------------------------------------------
// The proton-flux feed.
// ---------------------------------------------------------------------------
/// The views of a sequence of (time_tag, flux, energy) triples.
pub open spec fn triple_views(s: Seq<(String, String, String)>) -> Seq<
    (Seq<char>, Seq<char>, Seq<char>),
> {
    s.map_values(|p: (String, String, String)| (p.0@, p.1@, p.2@))
}

/// The working record before any band was seen: an empty timestamp and
/// every threshold at zero.
pub open spec fn flux_init() -> FluxView {
    FluxView {
        time_tag: Seq::empty(),
        f10: "0.0"@,
        f50: "0.0"@,
        f100: "0.0"@,
        f500: "0.0"@,
    }
}

/// The aggregation fold: each sample writes its flux into the field of its
/// band; the highest band stamps the record with the sample's normalized
/// timestamp and emits a snapshot. The working record is never cleared, so
/// bands arriving out of cyclic order carry stale fields into the next
/// emitted record; an unknown band label is skipped.
pub open spec fn spec_flux_fold(
    samples: Seq<(Seq<char>, Seq<char>, Seq<char>)>,
    state: FluxView,
) -> Result<Seq<FluxView>, Seq<char>>
    decreases samples.len(),
{
    if samples.len() == 0 {
        Ok(Seq::empty())
    } else {
        let tt = samples[0].0;
        let fx = samples[0].1;
        let en = samples[0].2;
        if en == ">=10 MeV"@ {
            spec_flux_fold(samples.skip(1), FluxView { f10: fx, ..state })
        } else if en == ">=100 MeV"@ {
            spec_flux_fold(samples.skip(1), FluxView { f100: fx, ..state })
        } else if en == ">=50 MeV"@ {
            spec_flux_fold(samples.skip(1), FluxView { f50: fx, ..state })
        } else if en == ">=500 MeV"@ {
            match spec_convert_datetime(tt, "%Y-%m-%dT%H:%M:%S%Z"@, 0) {
                Err(e) => Err(e),
                Ok(t) => {
                    let st2 = FluxView { time_tag: t, f500: fx, ..state };
                    match spec_flux_fold(samples.skip(1), st2) {
                        Err(e) => Err(e),
                        Ok(rest) => Ok(seq![st2] + rest),
                    }
                },
            }
        } else {
            spec_flux_fold(samples.skip(1), state)
        }
    }
}

/// What `converter_flux` returns: every record must have the expected shape;
/// the trailing 8 samples are folded into at most two records.
pub open spec fn spec_converter_flux(s: Seq<char>) -> Result<Seq<char>, Seq<char>> {
    match json_records_of(s) {
        Err(e) => Err("deserilisation error: "@ + e),
        Ok(m) => if !all_some(m.1) {
            Err("deserilisation error: malformed record"@)
        } else {
            match spec_flux_fold(spec_trailing_window(unwrap_all(m.1), 8), flux_init()) {
                Err(e) => Err(e),
                Ok(recs) => Ok(flux_array_json(recs)),
            }
        },
    }
}

fn flux_fold_x(samples: &Vec<(String, String, String)>, c: usize, state: FluxRec) -> (r: Result<
    Vec<FluxRec>,
    String,
>)
    requires
        c <= samples@.len(),
    ensures
        (match r {
            Ok(out) => spec_flux_fold(triple_views(samples@).skip(c as int), state@) == Ok::<
                _,
                Seq<char>,
            >(flux_views(out@)),
            Err(e) => spec_flux_fold(triple_views(samples@).skip(c as int), state@) == Err::<
                Seq<FluxView>,
                _,
            >(e@),
        }),
    decreases samples@.len() - c,
{
    let ghost tv = triple_views(samples@);
    if c == samples.len() {
        let out: Vec<FluxRec> = Vec::new();
        proof {
            assert(tv.skip(c as int) =~= Seq::<(Seq<char>, Seq<char>, Seq<char>)>::empty());
            assert(flux_views(out@) =~= Seq::<FluxView>::empty());
        }
        return Ok(out);
    }
    proof {
        assert(tv.skip(c as int)[0] == tv[c as int]);
        assert(tv.skip(c as int).skip(1) =~= tv.skip(c + 1));
    }
    if str_eq(samples[c].2.as_str(), ">=10 MeV") {
        let mut st = state;
        st.f10 = samples[c].1.clone();
        flux_fold_x(samples, c + 1, st)
    } else if str_eq(samples[c].2.as_str(), ">=100 MeV") {
        let mut st = state;
        st.f100 = samples[c].1.clone();
        flux_fold_x(samples, c + 1, st)
    } else if str_eq(samples[c].2.as_str(), ">=50 MeV") {
        let mut st = state;
        st.f50 = samples[c].1.clone();
        flux_fold_x(samples, c + 1, st)
    } else if str_eq(samples[c].2.as_str(), ">=500 MeV") {
        let mut st = state;
        st.f500 = samples[c].1.clone();
        let t = match convert_datetime(samples[c].0.as_str(), "%Y-%m-%dT%H:%M:%S%Z", 0) {
            Ok(t) => t,
            Err(e) => {
                return Err(e);
            },
        };
        st.time_tag = t;
        let emitted = st.copied();
        let rest = match flux_fold_x(samples, c + 1, st) {
            Ok(x) => x,
            Err(e) => {
                return Err(e);
            },
        };
        let ghost rest0 = rest@;
        let mut out: Vec<FluxRec> = Vec::new();
        out.push(emitted);
        let mut rest = rest;
        out.append(&mut rest);
        proof {
            assert(flux_views(out@) =~= seq![out@[0]@] + flux_views(rest0));
        }
        Ok(out)
    } else {
        flux_fold_x(samples, c + 1, state)
    }
}

/// Converts the proton-flux feed: the trailing 8 samples of a JSON object
/// array, merged by energy band into at most two multi-threshold records.
#[verifier::loop_isolation(false)]
pub fn converter_flux(raw_text: String) -> (r: Result<String, String>)
    ensures
        (match r {
            Ok(s) => spec_converter_flux(raw_text@) == Ok::<Seq<char>, Seq<char>>(s@),
            Err(e) => spec_converter_flux(raw_text@) == Err::<Seq<char>, Seq<char>>(e@),
        }),
{
    let vs = match json_value_array(raw_text.as_str()) {
        Ok(v) => v,
        Err(e) => {
            let mut m = String::from_str("deserilisation error: ");
            m.append(e.as_str());
            return Err(m);
        },
    };
    let ghost fm = vs@.map_values(|v: serde_json::Value| flux_view(v));
    let mut samples: Vec<(String, String, String)> = Vec::new();
    let mut k: usize = 0;
    while k < vs.len()
        invariant
            k <= vs@.len(),
            samples@.len() == k,
            forall|u: int|
                0 <= u < k ==> (#[trigger] fm[u]) is Some && fm[u].unwrap() == (
                    samples@[u].0@,
                    samples@[u].1@,
                    samples@[u].2@,
                ),
        decreases vs@.len() - k,
    {
        match read_flux(&vs[k]) {
            None => {
                proof {
                    assert(fm[k as int] is None);
                    assert(!all_some(fm));
                }
                return Err(String::from_str("deserilisation error: malformed record"));
            },
            Some(x) => {
                samples.push(x);
            },
        }
        k = k + 1;
    }
    proof {
        assert(triple_views(samples@) =~= unwrap_all(fm));
    }
    let start: usize = if samples.len() > 8 {
        samples.len() - 8
    } else {
        0
    };
    proof {
        assert(spec_trailing_window(unwrap_all(fm), 8) =~= triple_views(samples@).skip(
            start as int,
        ));
    }
    let init = FluxRec {
        time_tag: String::new(),
        f10: String::from_str("0.0"),
        f50: String::from_str("0.0"),
        f100: String::from_str("0.0"),
        f500: String::from_str("0.0"),
    };
    let recs = match flux_fold_x(&samples, start, init) {
        Ok(x) => x,
        Err(e) => {
            return Err(e);
        },
    };
    Ok(flux_array_string(&recs))
}

// ---------------------------------------------------------------------------
// The text bulletin feed.
// ---------------------------------------------------------------------------
/// What `converter_sw_forecast` returns: the parsed bulletin serialized, or
/// the single hard parse error.
pub open spec fn spec_converter_sw_forecast(s: Seq<char>) -> Result<Seq<char>, Seq<char>> {
    match sp_parse_sw(s) {
        None => Err("Failed to parse text"@),
        Some(f) => Ok(sw_json(f)),
    }
}

/// Converts the three-day text bulletin into its serialized three tables.
pub fn converter_sw_forecast(raw_text: String) -> (r: Result<String, String>)
    ensures
        (match r {
            Ok(s) => spec_converter_sw_forecast(raw_text@) == Ok::<Seq<char>, Seq<char>>(s@),
            Err(e) => spec_converter_sw_forecast(raw_text@) == Err::<Seq<char>, Seq<char>>(e@),
        }),
{
    match parse_sw_forecast(raw_text.as_str()) {
        Err(e) => Err(e),
        Ok(f) => Ok(sw_string(&f)),
    }
}

// ---------------------------------------------------------------------------
// Conversion dispatch.
// ---------------------------------------------------------------------------
/// The closed set of feed kinds, one per conversion entry point.
#[derive(Clone, Copy, Debug)]
pub enum FeedKind {
    KpRelease,
    KpInstant,
    ProtonFlux,
    TextBulletin,
}

/// What `convert_feed` returns for each feed kind.
pub open spec fn spec_convert_feed(kind: FeedKind, s: Seq<char>) -> Result<Seq<char>, Seq<char>> {
    match kind {
        FeedKind::KpRelease => spec_converter_kp(s),
        FeedKind::KpInstant => spec_converter_kp_inst(s),
        FeedKind::ProtonFlux => spec_converter_flux(s),
        FeedKind::TextBulletin => spec_converter_sw_forecast(s),
    }
}

/// Dispatches one raw feed text to the conversion of its kind.
pub fn convert_feed(kind: &FeedKind, raw_text: String) -> (r: Result<String, String>)
    ensures
        (match r {
            Ok(s) => spec_convert_feed(*kind, raw_text@) == Ok::<Seq<char>, Seq<char>>(s@),
            Err(e) => spec_convert_feed(*kind, raw_text@) == Err::<Seq<char>, Seq<char>>(e@),
        }),
{
    match kind {
        FeedKind::KpRelease => converter_kp(raw_text),
        FeedKind::KpInstant => converter_kp_inst(raw_text),
        FeedKind::ProtonFlux => converter_flux(raw_text),
        FeedKind::TextBulletin => converter_sw_forecast(raw_text),
    }
}

// ---------------------------------------------------------------------------
// Determinism laws.
// ---------------------------------------------------------------------------
/// Law: converting the windowed Kp feed twice on identical input yields
/// identical output.
pub proof fn lemma_converter_kp_deterministic(
    s: Seq<char>,
    r1: Result<Seq<char>, Seq<char>>,
    r2: Result<Seq<char>, Seq<char>>,
)
    requires
        r1 == spec_converter_kp(s),
        r2 == spec_converter_kp(s),
    ensures
        r1 == r2,
{
}

/// Law: converting the instantaneous Kp feed twice on identical input yields
/// identical output.
pub proof fn lemma_converter_kp_inst_deterministic(
    s: Seq<char>,
    r1: Result<Seq<char>, Seq<char>>,
    r2: Result<Seq<char>, Seq<char>>,
)
    requires
        r1 == spec_converter_kp_inst(s),
        r2 == spec_converter_kp_inst(s),
    ensures
        r1 == r2,
{
}

/// Law: converting the proton-flux feed twice on identical input yields
/// identical output.
pub proof fn lemma_converter_flux_deterministic(
    s: Seq<char>,
    r1: Result<Seq<char>, Seq<char>>,
    r2: Result<Seq<char>, Seq<char>>,
)
    requires
        r1 == spec_converter_flux(s),
        r2 == spec_converter_flux(s),
    ensures
        r1 == r2,
{
}

/// Law: converting the text bulletin twice on identical input yields
/// identical output.
pub proof fn lemma_converter_sw_forecast_deterministic(
    s: Seq<char>,
    r1: Result<Seq<char>, Seq<char>>,
    r2: Result<Seq<char>, Seq<char>>,
)
    requires
        r1 == spec_converter_sw_forecast(s),
        r2 == spec_converter_sw_forecast(s),
    ensures
        r1 == r2,
{
}

} // verus!
