//! Rows and file names of the market data dump.
use xvenue::data_dump::{
    dump_file_name, hyphenated_day, needs_rotation, parse_hyphenated_day, render_dump_row, CalendarDay,
};
use xvenue::decimal::Decimal;

fn dec(s: &str) -> Decimal {
    let d: rust_decimal::Decimal = s.parse().unwrap();
    Decimal::try_from_i128_with_scale(d.mantissa(), d.scale()).unwrap()
}

#[test]
fn file_path_format_matches_pairtrade_convention() {
    let date = CalendarDay { year: 2026, month: 5, day: 19 };
    let name = dump_file_name("market_data_xvenue_ext", ".jsonl", date);
    assert_eq!(name, "market_data_xvenue_ext_20260519.jsonl");
}

#[test]
fn early_years_are_padded() {
    let date = CalendarDay { year: 7, month: 12, day: 1 };
    assert_eq!(dump_file_name("x", ".jsonl", date), "x_00071201.jsonl");
}

#[test]
fn a_new_day_needs_a_new_file() {
    let a = CalendarDay { year: 2026, month: 5, day: 19 };
    let b = CalendarDay { year: 2026, month: 5, day: 20 };
    assert!(!needs_rotation(a, a));
    assert!(needs_rotation(a, b));
}

#[test]
fn render_dump_row_matches_dualreplay_schema() {
    let line = render_dump_row(
        "ETH",
        1779148800002,
        1779148799837,
        dec("2128.55"),
        dec("2128.5"),
        dec("2128.6"),
        dec("67.179"),
        dec("68.019"),
    );
    let v: serde_json::Value = serde_json::from_str(&line).unwrap();
    assert_eq!(v["timestamp"], 1779148800002_i64);
    let p = &v["prices"]["ETH"];
    assert_eq!(p["bid_price"], "2128.5");
    assert_eq!(p["ask_price"], "2128.6");
    assert_eq!(p["bid_size"], "67.179");
    assert_eq!(p["ask_size"], "68.019");
    assert_eq!(p["price"], "2128.55");
    assert_eq!(p["exchange_ts"], 1779148799837_i64);
}

#[test]
fn rows_keep_their_digits() {
    let line = render_dump_row(
        "BTC",
        -5,
        0,
        dec("0.10"),
        dec("0.05"),
        dec("-1"),
        dec("0"),
        dec("100"),
    );
    assert_eq!(
        line,
        "{\"timestamp\":-5,\"prices\":{\"BTC\":{\"price\":\"0.10\",\"funding_rate\":\"0\",\"bid_price\":\"0.05\",\"ask_price\":\"-1\",\"bid_size\":\"0\",\"ask_size\":\"100\",\"exchange_ts\":0}}}"
    );
}

#[test]
fn days_are_read_back() {
    let days = [(0, 2, 29), (7, 12, 1), (2024, 2, 29), (2026, 5, 19), (9999, 12, 31), (10_000, 1, 1), (-5, 6, 7), (262_142, 12, 31), (-262_143, 1, 1)];
    for (year, month, day) in days {
        let d = CalendarDay { year, month, day };
        assert_eq!(parse_hyphenated_day(&hyphenated_day(d)), Some(d));
    }
    let d = CalendarDay { year: 7, month: 2, day: 3 };
    assert_eq!(hyphenated_day(d), "0007-02-03");
    assert_eq!(hyphenated_day(CalendarDay { year: -7, ..d }), "-0007-02-03");
    assert_eq!(hyphenated_day(CalendarDay { year: 12_345, ..d }), "+12345-02-03");
}

#[test]
fn texts_that_are_no_day_are_not_read() {
    assert_eq!(parse_hyphenated_day(""), None);
    assert_eq!(parse_hyphenated_day("yesterday"), None);
    assert_eq!(parse_hyphenated_day("20260519"), None);
    assert_eq!(parse_hyphenated_day("2026-02-29"), None);
    assert_eq!(parse_hyphenated_day("2026-05-19 "), None);
    let d = CalendarDay { year: 2026, month: 5, day: 9 };
    assert_eq!(parse_hyphenated_day("2026-5-9"), Some(d));
}
