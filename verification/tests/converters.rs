use sw_convert::{
    convert_datetime, convert_feed, converter_flux, converter_kp, converter_kp_inst,
    converter_sw_forecast, FeedKind,
};

#[test]
fn test_convert_datetime_offset_three_hours() {
    let r = convert_datetime("2024-05-01 00:00:00.000", "%Y-%m-%d %H:%M:%S%.3f", 3);
    assert_eq!(r.unwrap(), "03:00 01-05-2024");
}

#[test]
fn test_convert_datetime_rejects_mismatch() {
    let r = convert_datetime("01/05/2024", "%Y-%m-%d %H:%M:%S%.3f", 0);
    let e = r.unwrap_err();
    assert!(e.starts_with("parsing datetime string error: "));
}

#[test]
fn test_converter_kp_window_short_input() {
    // Three data rows, fewer than the window of seven: all are kept.
    let input = r#"[["time_tag","Kp"],
        ["2024-05-01 00:00:00.000","4.67"],
        ["2024-05-01 03:00:00.000","3.00"],
        ["2024-05-01 06:00:00.000","2.33"]]"#
        .to_string();
    let out = converter_kp(input).unwrap();
    assert_eq!(
        out,
        r#"[{"time_tag":"03:00 01-05-2024","kp":4.67},{"time_tag":"06:00 01-05-2024","kp":3.0},{"time_tag":"09:00 01-05-2024","kp":2.33}]"#
    );
}

#[test]
fn test_converter_kp_window_trims_to_trailing_seven() {
    // Ten data rows: only the last seven remain, in order.
    let mut rows = String::from(r#"[["time_tag","Kp"]"#);
    for h in 0..10 {
        rows.push_str(&format!(
            r#",["2024-05-01 {:02}:00:00.000","{}.00"]"#,
            h,
            h % 10
        ));
    }
    rows.push(']');
    let out = converter_kp(rows).unwrap();
    let records = out.matches("time_tag").count();
    assert_eq!(records, 7);
    // The first retained row is the fourth (hour 03), shifted +3 hours.
    assert!(out.starts_with(r#"[{"time_tag":"06:00 01-05-2024","kp":3.0}"#));
    assert!(out.ends_with(r#"{"time_tag":"12:00 01-05-2024","kp":9.0}]"#));
}

#[test]
fn test_converter_kp_unparsable_value_defaults_to_zero() {
    let input = r#"[["h","k"],["2024-05-01 00:00:00.000","oops"]]"#.to_string();
    let out = converter_kp(input).unwrap();
    assert_eq!(out, r#"[{"time_tag":"03:00 01-05-2024","kp":0.0}]"#);
}

#[test]
fn test_converter_kp_errors() {
    assert!(converter_kp("not json".to_string())
        .unwrap_err()
        .starts_with("deserilisation error: "));
    assert_eq!(converter_kp("[]".to_string()).unwrap_err(), "got no data");
    let short_row = r#"[["h"],["2024-05-01 00:00:00.000"]]"#.to_string();
    assert_eq!(
        converter_kp(short_row).unwrap_err(),
        "error during parsing data"
    );
}

#[test]
fn test_converter_kp_inst_takes_last_sample() {
    let input = r#"[
        {"time_tag":"2024-05-01T11:00:00","kp_index":2,"estimated_kp":2.1},
        {"time_tag":"2024-05-01T12:00:00","kp_index":3.33,"estimated_kp":3.4}]"#
        .to_string();
    let out = converter_kp_inst(input).unwrap();
    assert_eq!(out, r#"{"time_tag":"12:00 01-05-2024","kp":3.33}"#);
}

#[test]
fn test_converter_kp_inst_errors() {
    assert_eq!(
        converter_kp_inst("[]".to_string()).unwrap_err(),
        "got no data"
    );
    assert!(converter_kp_inst("{}".to_string())
        .unwrap_err()
        .starts_with("deserilisation error: "));
    let bad = r#"[{"time_tag":"2024-05-01T11:00:00"}]"#.to_string();
    assert_eq!(
        converter_kp_inst(bad).unwrap_err(),
        "deserilisation error: malformed record"
    );
}

fn flux_sample(time: &str, flux: &str, mev: u32) -> String {
    format!(
        r#"{{"time_tag":"{}","satellite":18,"flux":{},"energy":">={} MeV"}}"#,
        time, flux, mev
    )
}

#[test]
fn test_converter_flux_two_quadruples() {
    // Eight samples over two timestamps, bands in cyclic order: exactly two
    // records, each carrying its own quadruple.
    let t1 = "2024-05-01T11:00:00";
    let t2 = "2024-05-01T12:00:00";
    let input = format!(
        "[{},{},{},{},{},{},{},{}]",
        flux_sample(t1, "10.5", 10),
        flux_sample(t1, "5.25", 50),
        flux_sample(t1, "1.5", 100),
        flux_sample(t1, "0.25", 500),
        flux_sample(t2, "20.5", 10),
        flux_sample(t2, "10.25", 50),
        flux_sample(t2, "3.5", 100),
        flux_sample(t2, "0.75", 500)
    );
    let out = converter_flux(input).unwrap();
    let expected = r#"[{"time_tag":"11:00 01-05-2024","flux_gt10mev":10.5,"flux_gt50mev":5.25,"flux_gt100mev":1.5,"flux_gt500mev":0.25},{"time_tag":"12:00 01-05-2024","flux_gt10mev":20.5,"flux_gt50mev":10.25,"flux_gt100mev":3.5,"flux_gt500mev":0.75}]"#;
    assert_eq!(out, expected);
}

#[test]
fn test_converter_flux_stale_fields_carry_over() {
    // Without a fresh ">=10 MeV" sample before the second emit, the second
    // record keeps the stale threshold value: the preserved quirk.
    let t1 = "2024-05-01T11:00:00";
    let t2 = "2024-05-01T12:00:00";
    let input = format!(
        "[{},{},{}]",
        flux_sample(t1, "10.5", 10),
        flux_sample(t1, "0.25", 500),
        flux_sample(t2, "0.75", 500)
    );
    let out = converter_flux(input).unwrap();
    let expected = r#"[{"time_tag":"11:00 01-05-2024","flux_gt10mev":10.5,"flux_gt50mev":0.0,"flux_gt100mev":0.0,"flux_gt500mev":0.25},{"time_tag":"12:00 01-05-2024","flux_gt10mev":10.5,"flux_gt50mev":0.0,"flux_gt100mev":0.0,"flux_gt500mev":0.75}]"#;
    assert_eq!(out, expected);
}

#[test]
fn test_converter_flux_unknown_band_is_skipped() {
    let input = r#"[{"time_tag":"2024-05-01T11:00:00","flux":1.0,"energy":">=7 MeV"}]"#
        .to_string();
    assert_eq!(converter_flux(input).unwrap(), "[]");
}

const BULLETIN: &str = "
:Product: 3-Day Forecast

NOAA Kp index breakdown May 01-May 03 2024

             May 01       May 02       May 03
00-03UT       4.67 (G1)    3.67         3.67
21-00UT       3.33         3.67         8.67 (G4)

Solar Radiation Storm Forecast for May 01-May 03 2024

              May 01  May 02  May 03
S1 or greater    5%      5%      5%

Radio Blackout Forecast for May 01-May 03 2024

              May 01        May 02        May 03
R1-R2           55%           45%           35%
R3 or greater   10%           10%            5%
";

#[test]
fn test_converter_sw_forecast_serializes_tables() {
    let out = converter_sw_forecast(BULLETIN.to_string()).unwrap();
    assert!(out.starts_with(r#"{"kp":[{"date":"May 01 2024","hour":3,"value":4.67}"#));
    assert!(out.contains(r#""srs":[{"date":"May 01 2024","s1":5,"s2":5,"s3":0,"s4":0,"s5":0}"#));
    assert!(out.contains(r#""rb":[{"date":"May 01 2024","s1":55,"s2":55,"s3":10,"s4":10,"s5":0}"#));
    assert!(out.ends_with(r#"{"date":"May 03 2024","s1":35,"s2":35,"s3":5,"s4":5,"s5":0}]}"#));
}

#[test]
fn test_converter_sw_forecast_failure_message() {
    assert_eq!(
        converter_sw_forecast("no bulletin here".to_string()).unwrap_err(),
        "Failed to parse text"
    );
}

#[test]
fn test_conversions_are_deterministic() {
    let kp_in = r#"[["h","k"],["2024-05-01 00:00:00.000","4.67"]]"#;
    assert_eq!(converter_kp(kp_in.to_string()), converter_kp(kp_in.to_string()));
    let inst_in = r#"[{"time_tag":"2024-05-01T12:00:00","kp_index":3.33}]"#;
    assert_eq!(
        converter_kp_inst(inst_in.to_string()),
        converter_kp_inst(inst_in.to_string())
    );
    let flux_in = r#"[{"time_tag":"2024-05-01T11:00:00","flux":1.5,"energy":">=10 MeV"}]"#;
    assert_eq!(
        converter_flux(flux_in.to_string()),
        converter_flux(flux_in.to_string())
    );
    assert_eq!(
        converter_sw_forecast(BULLETIN.to_string()),
        converter_sw_forecast(BULLETIN.to_string())
    );
}

#[test]
fn test_convert_feed_dispatches_by_kind() {
    let kp_in = r#"[["h","k"],["2024-05-01 00:00:00.000","4.67"]]"#;
    assert_eq!(
        convert_feed(&FeedKind::KpRelease, kp_in.to_string()),
        converter_kp(kp_in.to_string())
    );
    assert_eq!(
        convert_feed(&FeedKind::TextBulletin, BULLETIN.to_string()),
        converter_sw_forecast(BULLETIN.to_string())
    );
}

#[test]
fn test_json_string_escaping_matches_serde() {
    let tricky = "a\"b\\c\nd\te\rf\u{8}g\u{c}h\u{1}i";
    let ours = sw_convert::jsonout::json_string_of(tricky);
    let serde = serde_json::to_string(&tricky).unwrap();
    assert_eq!(ours, serde);
    assert_eq!(
        sw_convert::jsonout::json_string_of("plain"),
        r#""plain""#
    );
}
