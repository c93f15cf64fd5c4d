//! The record types that the conversions produce, with their mathematical
//! views: one 3-hour Kp forecast cell, one per-date storm-probability row
//! (shared by the solar-radiation and radio-blackout tables), the whole
//! three-table forecast bulletin, and one multi-threshold proton-flux record.
use vstd::prelude::*;

verus! {

/// One 3-hour Kp forecast cell: the date column it belongs to, the hour that
/// ends its 3-hour block, and the forecast Kp value in canonical decimal form.
#[derive(Debug, Clone)]
pub struct KPForecast {
    pub date: String,
    pub hour: u8,
    pub value: String,
}

pub ghost struct KpView {
    pub date: Seq<char>,
    pub hour: u8,
    pub value: Seq<char>,
}

impl View for KPForecast {
    type V = KpView;

    open spec fn view(&self) -> KpView {
        KpView { date: self.date@, hour: self.hour, value: self.value@ }
    }
}

/// One per-date storm forecast row: the probability, in percent, of a storm
/// at each of the five severity grades. Grades that no bulletin row covers
/// stay at zero.
#[derive(Debug, Clone)]
pub struct SRSRBForecast {
    pub date: String,
    pub s1: u8,
    pub s2: u8,
    pub s3: u8,
    pub s4: u8,
    pub s5: u8,
}

pub ghost struct SrsView {
    pub date: Seq<char>,
    pub s1: u8,
    pub s2: u8,
    pub s3: u8,
    pub s4: u8,
    pub s5: u8,
}

impl View for SRSRBForecast {
    type V = SrsView;

    open spec fn view(&self) -> SrsView {
        SrsView {
            date: self.date@,
            s1: self.s1,
            s2: self.s2,
            s3: self.s3,
            s4: self.s4,
            s5: self.s5,
        }
    }
}

impl SRSRBForecast {
    /// A fresh row for `date` with every grade at zero.
    pub fn zeroed(date: String) -> (r: Self)
        ensures
            r@ == (SrsView { date: date@, s1: 0, s2: 0, s3: 0, s4: 0, s5: 0 }),
    {
        SRSRBForecast { date, s1: 0, s2: 0, s3: 0, s4: 0, s5: 0 }
    }
}

/// The three normalized tables recovered from one text bulletin.
#[derive(Debug, Clone)]
pub struct SWForecast {
    pub kp: Vec<KPForecast>,
    pub srs: Vec<SRSRBForecast>,
    pub rb: Vec<SRSRBForecast>,
}

pub ghost struct SwView {
    pub kp: Seq<KpView>,
    pub srs: Seq<SrsView>,
    pub rb: Seq<SrsView>,
}

pub open spec fn kp_views(s: Seq<KPForecast>) -> Seq<KpView> {
    s.map_values(|e: KPForecast| e@)
}

pub open spec fn srs_views(s: Seq<SRSRBForecast>) -> Seq<SrsView> {
    s.map_values(|e: SRSRBForecast| e@)
}

impl View for SWForecast {
    type V = SwView;

    open spec fn view(&self) -> SwView {
        SwView { kp: kp_views(self.kp@), srs: srs_views(self.srs@), rb: srs_views(self.rb@) }
    }
}

/// One proton-flux output record: a timestamp and the flux at the four
/// energy thresholds, each in canonical decimal form.
pub struct FluxRec {
    pub time_tag: String,
    pub f10: String,
    pub f50: String,
    pub f100: String,
    pub f500: String,
}

pub ghost struct FluxView {
    pub time_tag: Seq<char>,
    pub f10: Seq<char>,
    pub f50: Seq<char>,
    pub f100: Seq<char>,
    pub f500: Seq<char>,
}

impl View for FluxRec {
    type V = FluxView;

    open spec fn view(&self) -> FluxView {
        FluxView {
            time_tag: self.time_tag@,
            f10: self.f10@,
            f50: self.f50@,
            f100: self.f100@,
            f500: self.f500@,
        }
    }
}

pub open spec fn flux_views(s: Seq<FluxRec>) -> Seq<FluxView> {
    s.map_values(|e: FluxRec| e@)
}

impl FluxRec {
    /// An exact copy of the record.
    pub fn copied(&self) -> (r: Self)
        ensures
            r@ == self@,
    {
        FluxRec {
            time_tag: self.time_tag.clone(),
            f10: self.f10.clone(),
            f50: self.f50.clone(),
            f100: self.f100.clone(),
            f500: self.f500.clone(),
        }
    }
}

} // verus!
