//! Serialization of the output records as JSON text. The exact text is
//! specified character by character: strings are quoted and escaped, integer
//! fields are written as decimal numerals, and numeric fields that were
//! canonicalized earlier are embedded verbatim.
use vstd::prelude::*;

use crate::records::{FluxRec, FluxView, KPForecast, KpView, SRSRBForecast, SWForecast, SrsView};
use crate::text::{dec_of, dec_string_u8, push_char};

verus! {

/// Lowercase hexadecimal digit.
pub open spec fn hex_lo(d: nat) -> char {
    if d == 0 {
        '0'
    } else if d == 1 {
        '1'
    } else if d == 2 {
        '2'
    } else if d == 3 {
        '3'
    } else if d == 4 {
        '4'
    } else if d == 5 {
        '5'
    } else if d == 6 {
        '6'
    } else if d == 7 {
        '7'
    } else if d == 8 {
        '8'
    } else if d == 9 {
        '9'
    } else if d == 10 {
        'a'
    } else if d == 11 {
        'b'
    } else if d == 12 {
        'c'
    } else if d == 13 {
        'd'
    } else if d == 14 {
        'e'
    } else {
        'f'
    }
}

/// The escape of one character inside a JSON string: quote and backslash are
/// escaped, the named control characters use their short escapes, the other
/// control characters use a `\u00XX` escape, and everything else stands as
/// itself.
pub open spec fn esc_char(c: char) -> Seq<char> {
    if c == '"' {
        seq!['\\', '"']
    } else if c == '\\' {
        seq!['\\', '\\']
    } else if c == '\u{8}' {
        seq!['\\', 'b']
    } else if c == '\t' {
        seq!['\\', 't']
    } else if c == '\n' {
        seq!['\\', 'n']
    } else if c == '\u{c}' {
        seq!['\\', 'f']
    } else if c == '\r' {
        seq!['\\', 'r']
    } else if (c as u32) < 32 {
        seq!['\\', 'u', '0', '0', hex_lo(((c as u32) / 16) as nat), hex_lo(((c as u32) % 16) as nat)]
    } else {
        seq![c]
    }
}

pub open spec fn json_escaped(s: Seq<char>) -> Seq<char>
    decreases s.len(),
{
    if s.len() == 0 {
        Seq::empty()
    } else {
        esc_char(s[0]) + json_escaped(s.skip(1))
    }
}

/// A JSON string literal: quoted and escaped.
pub open spec fn json_string(s: Seq<char>) -> Seq<char> {
    seq!['"'] + json_escaped(s) + seq!['"']
}

fn esc_char_string(c: char) -> (r: String)
    ensures
        r@ == esc_char(c),
{
    let mut r = String::new();
    if c == '"' {
        push_char(&mut r, '\\');
        push_char(&mut r, '"');
    } else if c == '\\' {
        push_char(&mut r, '\\');
        push_char(&mut r, '\\');
    } else if c == '\u{8}' {
        push_char(&mut r, '\\');
        push_char(&mut r, 'b');
    } else if c == '\t' {
        push_char(&mut r, '\\');
        push_char(&mut r, 't');
    } else if c == '\n' {
        push_char(&mut r, '\\');
        push_char(&mut r, 'n');
    } else if c == '\u{c}' {
        push_char(&mut r, '\\');
        push_char(&mut r, 'f');
    } else if c == '\r' {
        push_char(&mut r, '\\');
        push_char(&mut r, 'r');
    } else if (c as u32) < 32 {
        push_char(&mut r, '\\');
        push_char(&mut r, 'u');
        push_char(&mut r, '0');
        push_char(&mut r, '0');
        let hi: u32 = (c as u32) / 16;
        let lo: u32 = (c as u32) % 16;
        push_char(&mut r, hex_lo_exec(hi));
        push_char(&mut r, hex_lo_exec(lo));
    } else {
        push_char(&mut r, c);
    }
    proof {
        assert(r@ =~= esc_char(c));
    }
    r
}

fn hex_lo_exec(d: u32) -> (c: char)
    requires
        d < 16,
    ensures
        c == hex_lo(d as nat),
{
    if d == 0 {
        '0'
    } else if d == 1 {
        '1'
    } else if d == 2 {
        '2'
    } else if d == 3 {
        '3'
    } else if d == 4 {
        '4'
    } else if d == 5 {
        '5'
    } else if d == 6 {
        '6'
    } else if d == 7 {
        '7'
    } else if d == 8 {
        '8'
    } else if d == 9 {
        '9'
    } else if d == 10 {
        'a'
    } else if d == 11 {
        'b'
    } else if d == 12 {
        'c'
    } else if d == 13 {
        'd'
    } else if d == 14 {
        'e'
    } else {
        'f'
    }
}

fn escaped_from(s: &str, k: usize) -> (r: String)
    requires
        k <= s@.len(),
    ensures
        r@ == json_escaped(s@.skip(k as int)),
    decreases s@.len() - k,
{
    if k == s.unicode_len() {
        let r = String::new();
        proof {
            assert(s@.skip(k as int) =~= Seq::<char>::empty());
        }
        r
    } else {
        let head = esc_char_string(s.get_char(k));
        let rest = escaped_from(s, k + 1);
        let r = head.concat(rest.as_str());
        proof {
            assert(s@.skip(k as int).skip(1) =~= s@.skip(k + 1));
            assert(s@.skip(k as int)[0] == s@[k as int]);
        }
        r
    }
}

/// `s` as a JSON string literal.
pub fn json_string_of(s: &str) -> (r: String)
    ensures
        r@ == json_string(s@),
{
    let mut q = String::new();
    push_char(&mut q, '"');
    proof {
        assert(q@ =~= seq!['"']);
    }
    let r = q.concat(escaped_from(s, 0).as_str());
    let mut q2 = String::new();
    push_char(&mut q2, '"');
    proof {
        assert(q2@ =~= seq!['"']);
    }
    let r = r.concat(q2.as_str());
    proof {
        assert(s@.skip(0) =~= s@);
    }
    r
}

/// One Kp-index output record, as both JSON Kp feeds emit it.
pub open spec fn kp_obj_json(time_tag: Seq<char>, kp: Seq<char>) -> Seq<char> {
    "{\"time_tag\":"@ + json_string(time_tag) + ",\"kp\":"@ + kp + "}"@
}

pub fn kp_obj_string(time_tag: &str, kp: &str) -> (r: String)
    ensures
        r@ == kp_obj_json(time_tag@, kp@),
{
    let r = String::from_str("{\"time_tag\":");
    let r = r.concat(json_string_of(time_tag).as_str());
    let r = r.concat(",\"kp\":");
    let r = r.concat(kp);
    let r = r.concat("}");
    r
}

/// The views of a sequence of (time_tag, kp) pairs.
pub open spec fn pair_views(s: Seq<(String, String)>) -> Seq<(Seq<char>, Seq<char>)> {
    s.map_values(|p: (String, String)| (p.0@, p.1@))
}

pub open spec fn kp_items_json(s: Seq<(Seq<char>, Seq<char>)>, i: int) -> Seq<char>
    decreases s.len() - i,
{
    if i < 0 || i >= s.len() {
        Seq::empty()
    } else if i + 1 < s.len() {
        kp_obj_json(s[i].0, s[i].1) + ","@ + kp_items_json(s, i + 1)
    } else {
        kp_obj_json(s[i].0, s[i].1)
    }
}

/// The array of Kp-index records for the windowed Kp feed.
pub open spec fn kp_array_json(s: Seq<(Seq<char>, Seq<char>)>) -> Seq<char> {
    "["@ + kp_items_json(s, 0) + "]"@
}

fn kp_items_string(v: &Vec<(String, String)>, i: usize) -> (r: String)
    requires
        i <= v@.len(),
    ensures
        r@ == kp_items_json(pair_views(v@), i as int),
    decreases v@.len() - i,
{
    if i == v.len() {
        String::new()
    } else {
        let item = kp_obj_string(v[i].0.as_str(), v[i].1.as_str());
        if i + 1 < v.len() {
            let item = item.concat(",");
            let rest = kp_items_string(v, i + 1);
            item.concat(rest.as_str())
        } else {
            item
        }
    }
}

pub fn kp_array_string(v: &Vec<(String, String)>) -> (r: String)
    ensures
        r@ == kp_array_json(pair_views(v@)),
{
    let r = String::from_str("[");
    let r = r.concat(kp_items_string(v, 0).as_str());
    let r = r.concat("]");
    r
}

/// One proton-flux output record.
pub open spec fn flux_obj_json(e: FluxView) -> Seq<char> {
    "{\"time_tag\":"@ + json_string(e.time_tag) + ",\"flux_gt10mev\":"@ + e.f10
        + ",\"flux_gt50mev\":"@ + e.f50 + ",\"flux_gt100mev\":"@ + e.f100 + ",\"flux_gt500mev\":"@
        + e.f500 + "}"@
}

pub fn flux_obj_string(e: &FluxRec) -> (r: String)
    ensures
        r@ == flux_obj_json(e@),
{
    let r = String::from_str("{\"time_tag\":");
    let r = r.concat(json_string_of(e.time_tag.as_str()).as_str());
    let r = r.concat(",\"flux_gt10mev\":");
    let r = r.concat(e.f10.as_str());
    let r = r.concat(",\"flux_gt50mev\":");
    let r = r.concat(e.f50.as_str());
    let r = r.concat(",\"flux_gt100mev\":");
    let r = r.concat(e.f100.as_str());
    let r = r.concat(",\"flux_gt500mev\":");
    let r = r.concat(e.f500.as_str());
    let r = r.concat("}");
    r
}

pub open spec fn flux_items_json(s: Seq<FluxView>, i: int) -> Seq<char>
    decreases s.len() - i,
{
    if i < 0 || i >= s.len() {
        Seq::empty()
    } else if i + 1 < s.len() {
        flux_obj_json(s[i]) + ","@ + flux_items_json(s, i + 1)
    } else {
        flux_obj_json(s[i])
    }
}

pub open spec fn flux_array_json(s: Seq<FluxView>) -> Seq<char> {
    "["@ + flux_items_json(s, 0) + "]"@
}

fn flux_items_string(v: &Vec<FluxRec>, i: usize) -> (r: String)
    requires
        i <= v@.len(),
    ensures
        r@ == flux_items_json(crate::records::flux_views(v@), i as int),
    decreases v@.len() - i,
{
    if i == v.len() {
        String::new()
    } else {
        let item = flux_obj_string(&v[i]);
        if i + 1 < v.len() {
            let item = item.concat(",");
            let rest = flux_items_string(v, i + 1);
            item.concat(rest.as_str())
        } else {
            item
        }
    }
}

pub fn flux_array_string(v: &Vec<FluxRec>) -> (r: String)
    ensures
        r@ == flux_array_json(crate::records::flux_views(v@)),
{
    let r = String::from_str("[");
    let r = r.concat(flux_items_string(v, 0).as_str());
    let r = r.concat("]");
    r
}

/// One Kp forecast cell of the bulletin output.
pub open spec fn kp_entry_json(e: KpView) -> Seq<char> {
    "{\"date\":"@ + json_string(e.date) + ",\"hour\":"@ + dec_of(e.hour as nat) + ",\"value\":"@
        + e.value + "}"@
}

pub fn kp_entry_string(e: &KPForecast) -> (r: String)
    ensures
        r@ == kp_entry_json(e@),
{
    let r = String::from_str("{\"date\":");
    let r = r.concat(json_string_of(e.date.as_str()).as_str());
    let r = r.concat(",\"hour\":");
    let r = r.concat(dec_string_u8(e.hour).as_str());
    let r = r.concat(",\"value\":");
    let r = r.concat(e.value.as_str());
    let r = r.concat("}");
    r
}

/// One storm forecast row of the bulletin output.
pub open spec fn srs_entry_json(e: SrsView) -> Seq<char> {
    "{\"date\":"@ + json_string(e.date) + ",\"s1\":"@ + dec_of(e.s1 as nat) + ",\"s2\":"@ + dec_of(
        e.s2 as nat,
    ) + ",\"s3\":"@ + dec_of(e.s3 as nat) + ",\"s4\":"@ + dec_of(e.s4 as nat) + ",\"s5\":"@
        + dec_of(e.s5 as nat) + "}"@
}

pub fn srs_entry_string(e: &SRSRBForecast) -> (r: String)
    ensures
        r@ == srs_entry_json(e@),
{
    let r = String::from_str("{\"date\":");
    let r = r.concat(json_string_of(e.date.as_str()).as_str());
    let r = r.concat(",\"s1\":");
    let r = r.concat(dec_string_u8(e.s1).as_str());
    let r = r.concat(",\"s2\":");
    let r = r.concat(dec_string_u8(e.s2).as_str());
    let r = r.concat(",\"s3\":");
    let r = r.concat(dec_string_u8(e.s3).as_str());
    let r = r.concat(",\"s4\":");
    let r = r.concat(dec_string_u8(e.s4).as_str());
    let r = r.concat(",\"s5\":");
    let r = r.concat(dec_string_u8(e.s5).as_str());
    let r = r.concat("}");
    r
}

pub open spec fn kp_entry_items_json(s: Seq<KpView>, i: int) -> Seq<char>
    decreases s.len() - i,
{
    if i < 0 || i >= s.len() {
        Seq::empty()
    } else if i + 1 < s.len() {
        kp_entry_json(s[i]) + ","@ + kp_entry_items_json(s, i + 1)
    } else {
        kp_entry_json(s[i])
    }
}

pub open spec fn srs_entry_items_json(s: Seq<SrsView>, i: int) -> Seq<char>
    decreases s.len() - i,
{
    if i < 0 || i >= s.len() {
        Seq::empty()
    } else if i + 1 < s.len() {
        srs_entry_json(s[i]) + ","@ + srs_entry_items_json(s, i + 1)
    } else {
        srs_entry_json(s[i])
    }
}

fn kp_entry_items_string(v: &Vec<KPForecast>, i: usize) -> (r: String)
    requires
        i <= v@.len(),
    ensures
        r@ == kp_entry_items_json(crate::records::kp_views(v@), i as int),
    decreases v@.len() - i,
{
    if i == v.len() {
        String::new()
    } else {
        let item = kp_entry_string(&v[i]);
        if i + 1 < v.len() {
            let item = item.concat(",");
            let rest = kp_entry_items_string(v, i + 1);
            item.concat(rest.as_str())
        } else {
            item
        }
    }
}

fn srs_entry_items_string(v: &Vec<SRSRBForecast>, i: usize) -> (r: String)
    requires
        i <= v@.len(),
    ensures
        r@ == srs_entry_items_json(crate::records::srs_views(v@), i as int),
    decreases v@.len() - i,
{
    if i == v.len() {
        String::new()
    } else {
        let item = srs_entry_string(&v[i]);
        if i + 1 < v.len() {
            let item = item.concat(",");
            let rest = srs_entry_items_string(v, i + 1);
            item.concat(rest.as_str())
        } else {
            item
        }
    }
}

/// The whole bulletin output object, with its three tables.
pub open spec fn sw_json(f: crate::records::SwView) -> Seq<char> {
    "{\"kp\":["@ + kp_entry_items_json(f.kp, 0) + "],\"srs\":["@ + srs_entry_items_json(f.srs, 0)
        + "],\"rb\":["@ + srs_entry_items_json(f.rb, 0) + "]}"@
}

pub fn sw_string(f: &SWForecast) -> (r: String)
    ensures
        r@ == sw_json(f@),
{
    let r = String::from_str("{\"kp\":[");
    let r = r.concat(kp_entry_items_string(&f.kp, 0).as_str());
    let r = r.concat("],\"srs\":[");
    let r = r.concat(srs_entry_items_string(&f.srs, 0).as_str());
    let r = r.concat("],\"rb\":[");
    let r = r.concat(srs_entry_items_string(&f.rb, 0).as_str());
    let r = r.concat("]}");
    r
}

} // verus!
