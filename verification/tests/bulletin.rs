use sw_convert::{parse_kp_forecast, parse_rb_forecast, parse_srs_forecast};

const SW_FORECAST_DATA1: &str = "
:Product: 3-Day Forecast
:Issued: 2024 May 01 0030 UTC
# Prepared by the U.S. Dept. of Commerce, NOAA, Space Weather Prediction Center
#
A. NOAA Geomagnetic Activity Observation and Forecast

The greatest observed 3 hr Kp over the past 24 hours was 4 (below NOAA
Scale levels).
The greatest expected 3 hr Kp for May 01-May 03 2024 is 4.67 (NOAA Scale
G1).

NOAA Kp index breakdown May 01-May 03 2024

             May 01       May 02       May 03
00-03UT       4.67 (G1)    3.67         3.67     
03-06UT       4.00         4.00         3.33     
06-09UT       3.00         3.67         3.00     
09-12UT       2.33         3.33         3.33     
12-15UT       2.67         6.00 (G2)    3.00     
15-18UT       2.33         2.67         3.33     
18-21UT       3.00         3.67         3.33     
21-00UT       3.33         3.67         8.67 (G4)

Rationale: G1 (Minor) geomagnetic storming is expected during the early
hours of 01 May due to transient influences.

B. NOAA Solar Radiation Activity Observation and Forecast

Solar radiation, as observed by NOAA GOES-18 over the past 24 hours, was
below S-scale storm level thresholds.

Solar Radiation Storm Forecast for May 01-May 03 2024

              May 01  May 02  May 03
S1 or greater    5%      5%      5%

Rationale: No S1 (Minor) or greater solar radiation storms are expected.
No significant active region activity favorable for radiation storm
production is forecast.

C. NOAA Radio Blackout Activity and Forecast

Radio blackouts reaching the R2 levels were observed over the past 24
hours. The largest was at Apr 30 2024 2346 UTC.

Radio Blackout Forecast for May 01-May 03 2024

              May 01        May 02        May 03
R1-R2           55%           45%           35%
R3 or greater   10%           10%            5%

Rationale: R1-2 (Minor-Moderate) radio blackouts due to M-class flare
activity primarily from AR 3654 are likely on 01 May.
";

#[test]
fn test_parse_kp_forecast() {
    let kp_forecast1: Vec<(&str, u8, &str)> = vec![
        ("May 01 2024", 3, "4.67"),
        ("May 01 2024", 6, "4.0"),
        ("May 01 2024", 9, "3.0"),
        ("May 01 2024", 12, "2.33"),
        ("May 01 2024", 15, "2.67"),
        ("May 01 2024", 18, "2.33"),
        ("May 01 2024", 21, "3.0"),
        ("May 01 2024", 0, "3.33"),
        ("May 02 2024", 3, "3.67"),
        ("May 02 2024", 6, "4.0"),
        ("May 02 2024", 9, "3.67"),
        ("May 02 2024", 12, "3.33"),
        ("May 02 2024", 15, "6.0"),
        ("May 02 2024", 18, "2.67"),
        ("May 02 2024", 21, "3.67"),
        ("May 02 2024", 0, "3.67"),
        ("May 03 2024", 3, "3.67"),
        ("May 03 2024", 6, "3.33"),
        ("May 03 2024", 9, "3.0"),
        ("May 03 2024", 12, "3.33"),
        ("May 03 2024", 15, "3.0"),
        ("May 03 2024", 18, "3.33"),
        ("May 03 2024", 21, "3.33"),
        ("May 03 2024", 0, "8.67"),
    ];
    let kp_data = parse_kp_forecast(SW_FORECAST_DATA1).unwrap();
    for i in 0..kp_forecast1.len() {
        assert_eq!(kp_forecast1[i].0, kp_data[i].date);
        assert_eq!(kp_forecast1[i].1, kp_data[i].hour);
        assert_eq!(kp_forecast1[i].2, kp_data[i].value);
    }
}

#[test]
fn test_parse_srs_forecast() {
    let srs_forecast1: Vec<(&str, u8, u8, u8, u8, u8)> = vec![
        ("May 01 2024", 5, 5, 0, 0, 0),
        ("May 02 2024", 5, 5, 0, 0, 0),
        ("May 03 2024", 5, 5, 0, 0, 0),
    ];
    let data = parse_srs_forecast(SW_FORECAST_DATA1).unwrap();
    for i in 0..srs_forecast1.len() {
        assert_eq!(srs_forecast1[i].0, data[i].date);
        assert_eq!(srs_forecast1[i].1, data[i].s1);
        assert_eq!(srs_forecast1[i].2, data[i].s2);
        assert_eq!(srs_forecast1[i].3, data[i].s3);
        assert_eq!(srs_forecast1[i].4, data[i].s4);
        assert_eq!(srs_forecast1[i].5, data[i].s5);
    }
}

#[test]
fn test_parse_rb_forecast() {
    let rb_forecast1: Vec<(&str, u8, u8, u8, u8, u8)> = vec![
        ("May 01 2024", 55, 55, 10, 10, 0),
        ("May 02 2024", 45, 45, 10, 10, 0),
        ("May 03 2024", 35, 35, 5, 5, 0),
    ];
    let data = parse_rb_forecast(SW_FORECAST_DATA1).unwrap();
    for i in 0..rb_forecast1.len() {
        assert_eq!(rb_forecast1[i].0, data[i].date);
        assert_eq!(rb_forecast1[i].1, data[i].s1);
        assert_eq!(rb_forecast1[i].2, data[i].s2);
        assert_eq!(rb_forecast1[i].3, data[i].s3);
        assert_eq!(rb_forecast1[i].4, data[i].s4);
        assert_eq!(rb_forecast1[i].5, data[i].s5);
    }
}

#[test]
fn test_kp_forecast_entry_count() {
    let kp_data = parse_kp_forecast(SW_FORECAST_DATA1).unwrap();
    assert_eq!(kp_data.len(), 24);
    let srs = parse_srs_forecast(SW_FORECAST_DATA1).unwrap();
    assert_eq!(srs.len(), 3);
    let rb = parse_rb_forecast(SW_FORECAST_DATA1).unwrap();
    assert_eq!(rb.len(), 3);
}

#[test]
fn test_grade_range_expansion() {
    let text = "Solar Radiation Storm Forecast for Jun 10-Jun 11 2024

       Jun 10  Jun 11
S1-S3    40%     15%
";
    let data = parse_srs_forecast(text).unwrap();
    assert_eq!(data.len(), 2);
    assert_eq!(data[0].date, "Jun 10 2024");
    assert_eq!(data[0].s1, 40);
    assert_eq!(data[0].s2, 40);
    assert_eq!(data[0].s3, 40);
    assert_eq!(data[0].s4, 0);
    assert_eq!(data[0].s5, 0);
    assert_eq!(data[1].s1, 15);
    assert_eq!(data[1].s2, 15);
    assert_eq!(data[1].s3, 15);
    assert_eq!(data[1].s4, 0);
    assert_eq!(data[1].s5, 0);
}

#[test]
fn test_grade_or_greater_covers_next_grade() {
    let text = "Solar Radiation Storm Forecast for Jun 10 2024

       Jun 10
S1 or greater    5%
";
    let data = parse_srs_forecast(text).unwrap();
    assert_eq!(data.len(), 1);
    assert_eq!(data[0].s1, 5);
    assert_eq!(data[0].s2, 5);
    assert_eq!(data[0].s3, 0);
    assert_eq!(data[0].s4, 0);
    assert_eq!(data[0].s5, 0);
}

#[test]
fn test_grade_or_greater_capped_at_five() {
    let text = "Radio Blackout Forecast for Jun 10 2024

       Jun 10
R5 or greater    7%
";
    let data = parse_rb_forecast(text).unwrap();
    assert_eq!(data[0].s4, 0);
    assert_eq!(data[0].s5, 7);
}

#[test]
fn test_sort_is_plain_string_order_not_calendar() {
    // "Feb 01 2025" sorts before "Jan 31 2025" as strings although it is the
    // later calendar day: the documented, preserved limitation.
    let text = "NOAA Kp index breakdown Jan 31-Feb 01 2025

       Jan 31  Feb 01
00-03UT  1.00    2.00
";
    let data = parse_kp_forecast(text).unwrap();
    assert_eq!(data.len(), 2);
    assert_eq!(data[0].date, "Feb 01 2025");
    assert_eq!(data[0].value, "2.0");
    assert_eq!(data[1].date, "Jan 31 2025");
    assert_eq!(data[1].value, "1.0");
}

#[test]
fn test_bulletin_grammar_failure_is_total() {
    assert!(parse_kp_forecast("no header anywhere").is_none());
    let truncated = "NOAA Kp index breakdown May 01 2024

       May 01
not a row
";
    assert!(parse_kp_forecast(truncated).is_none());
}

#[test]
fn test_kp_row_with_wrong_column_count_fails() {
    let text = "NOAA Kp index breakdown May 01-May 02 2024

       May 01  May 02
00-03UT  1.00    2.00    3.00
";
    assert!(parse_kp_forecast(text).is_none());
}
