//! Rows and file names of the market data dump: one JSON object per line, one file per
//! calendar day.
use crate::decimal::Decimal;
use crate::text;
use chrono::Datelike;
use vstd::prelude::*;
use vstd::string::*;

verus! {

/// A day of the calendar.
#[derive(Clone, Copy, Debug, PartialEq, Eq, Structural)]
pub struct CalendarDay {
    pub year: i32,
    pub month: u32,
    pub day: u32,
}

pub open spec fn leap_year(year: int) -> bool {
    year % 4 == 0 && (year % 100 != 0 || year % 400 == 0)
}

pub open spec fn days_in_month(year: int, month: int) -> int {
    if month == 2 {
        if leap_year(year) {
            29
        } else {
            28
        }
    } else if month == 4 || month == 6 || month == 9 || month == 11 {
        30
    } else {
        31
    }
}

/// A day that exists, in a year that the calendar reaches.
pub open spec fn valid_day(d: CalendarDay) -> bool {
    -262_143 <= d.year <= 262_142 && 1 <= d.month <= 12 && 1 <= d.day <= days_in_month(
        d.year as int,
        d.month as int,
    )
}

/// A year in four digits or more, with its sign if it is not one from 0 to 9999.
pub open spec fn year_text(year: int) -> Seq<char> {
    if 0 <= year <= 9999 {
        text::zero_padded(text::digits(year as nat), 4)
    } else if year > 0 {
        "+"@ + text::zero_padded(text::digits(year as nat), 4)
    } else {
        "-"@ + text::zero_padded(text::digits((-year) as nat), 4)
    }
}

/// The year, and month and day in two digits each, with `sep` between them.
pub open spec fn day_text(d: CalendarDay, sep: Seq<char>) -> Seq<char> {
    year_text(d.year as int) + sep + text::zero_padded(
        text::digits(d.month as nat),
        2,
    ) + sep + text::zero_padded(text::digits(d.day as nat), 2)
}

/// `chrono::NaiveDate::from_ymd_opt` and `format` with `%Y%m%d` or `%Y-%m-%d`: the year in
/// four digits, or with a sign outside 0 to 9999, and month and day in two, with nothing or
/// a hyphen between them.
#[verifier::external_body]
fn outside_day_text(year: i32, month: u32, day: u32, sep: &str) -> (s: String)
    requires
        valid_day(CalendarDay { year, month, day }),
        sep@ == ""@ || sep@ == "-"@,
    ensures
        s@ == day_text(CalendarDay { year, month, day }, sep@),
{
    let layout = format!("%Y{}%m{}%d", sep, sep);
    chrono::NaiveDate::from_ymd_opt(year, month, day).unwrap().format(&layout).to_string()
}

/// Year, month and day of the date that `chrono::NaiveDate::parse_from_str` reads from a
/// text with `%Y-%m-%d`, if it reads one.
pub uninterp spec fn parsed_day(s: Seq<char>) -> Option<(i32, u32, u32)>;

/// `chrono::NaiveDate::parse_from_str` with `%Y-%m-%d`. A day that was written with hyphens
/// is read back as it was. What other texts are dates is left to chrono: it takes fewer
/// digits, a sign before the year, and spaces before a number.
#[verifier::external_body]
fn outside_parse_day(s: &str) -> (r: Option<(i32, u32, u32)>)
    ensures
        r == parsed_day(s@),
        forall|d: CalendarDay|
            valid_day(d) && s@ == #[trigger] day_text(d, "-"@) ==> r == Some(
                (d.year, d.month, d.day),
            ),
{
    match chrono::NaiveDate::parse_from_str(s, "%Y-%m-%d") {
        Ok(d) => Some((d.year(), d.month(), d.day())),
        Err(_) => None,
    }
}

/// A day as it is kept on disk: `{YYYY}-{MM}-{DD}`.
pub fn hyphenated_day(day: CalendarDay) -> (s: String)
    requires
        valid_day(day),
    ensures
        s@ == day_text(day, "-"@),
{
    outside_day_text(day.year, day.month, day.day, "-")
}

/// Reads a day that was kept on disk.
pub fn parse_hyphenated_day(s: &str) -> (r: Option<CalendarDay>)
    ensures
        match parsed_day(s@) {
            Some((year, month, day)) => r == Some(CalendarDay { year, month, day }),
            None => r is None,
        },
        forall|d: CalendarDay| valid_day(d) && s@ == #[trigger] day_text(d, "-"@) ==> r == Some(d),
{
    match outside_parse_day(s) {
        Some((year, month, day)) => Some(CalendarDay { year, month, day }),
        None => None,
    }
}

/// The file of a day: `{stem}_{YYYYMMDD}{ext}`.
pub open spec fn dump_name(stem: Seq<char>, ext: Seq<char>, day: CalendarDay) -> Seq<char> {
    stem + "_"@ + day_text(day, ""@) + ext
}

pub fn dump_file_name(stem: &str, ext: &str, day: CalendarDay) -> (s: String)
    requires
        valid_day(day),
    ensures
        s@ == dump_name(stem@, ext@, day),
{
    let stamp = outside_day_text(day.year, day.month, day.day, "");
    String::from_str(stem).concat("_").concat(stamp.as_str()).concat(ext)
}

/// Whether the writer moves on to the file of another day.
pub fn needs_rotation(current: CalendarDay, today: CalendarDay) -> (r: bool)
    ensures
        r == (today != current),
{
    today != current
}

/// One venue's row.
pub open spec fn dump_row(
    symbol: Seq<char>,
    timestamp_ms: int,
    exchange_ts_ms: nat,
    mid: Decimal,
    bid_price: Decimal,
    ask_price: Decimal,
    bid_size: Decimal,
    ask_size: Decimal,
) -> Seq<char> {
    "{\"timestamp\":"@ + text::signed_digits(timestamp_ms) + ",\"prices\":{\""@ + symbol
        + "\":{\"price\":\""@ + text::decimal_digits(mid.coeff(), mid.places())
        + "\",\"funding_rate\":\"0\",\"bid_price\":\""@ + text::decimal_digits(
        bid_price.coeff(),
        bid_price.places(),
    ) + "\",\"ask_price\":\""@ + text::decimal_digits(ask_price.coeff(), ask_price.places())
        + "\",\"bid_size\":\""@ + text::decimal_digits(bid_size.coeff(), bid_size.places())
        + "\",\"ask_size\":\""@ + text::decimal_digits(ask_size.coeff(), ask_size.places())
        + "\",\"exchange_ts\":"@ + text::digits(exchange_ts_ms) + "}}}"@
}

/// One venue's row, in the shape that a replay reads.
pub fn render_dump_row(
    symbol: &str,
    timestamp_ms: i64,
    exchange_ts_ms: u64,
    mid: Decimal,
    bid_price: Decimal,
    ask_price: Decimal,
    bid_size: Decimal,
    ask_size: Decimal,
) -> (s: String)
    ensures
        s@ == dump_row(
            symbol@,
            timestamp_ms as int,
            exchange_ts_ms as nat,
            mid,
            bid_price,
            ask_price,
            bid_size,
            ask_size,
        ),
{
    let mut s = String::from_str("{\"timestamp\":");
    s.append(text::i64_text(timestamp_ms).as_str());
    s.append(",\"prices\":{\"");
    s.append(symbol);
    s.append("\":{\"price\":\"");
    s.append(text::decimal_text(mid).as_str());
    s.append("\",\"funding_rate\":\"0\",\"bid_price\":\"");
    s.append(text::decimal_text(bid_price).as_str());
    s.append("\",\"ask_price\":\"");
    s.append(text::decimal_text(ask_price).as_str());
    s.append("\",\"bid_size\":\"");
    s.append(text::decimal_text(bid_size).as_str());
    s.append("\",\"ask_size\":\"");
    s.append(text::decimal_text(ask_size).as_str());
    s.append("\",\"exchange_ts\":");
    s.append(text::u64_text(exchange_ts_ms).as_str());
    s.append("}}}");
    s
}

/// Numbers below a hundred have at most two digits, those below ten thousand at most four.
proof fn lemma_widths(n: nat)
    ensures
        n < 100 ==> text::digits(n).len() <= 2,
        n < 10_000 ==> text::digits(n).len() <= 4,
{
    reveal_with_fuel(text::digits, 4);
}

/// The width and the number of each part of a day.
proof fn lemma_parts_of_a_day(d: CalendarDay)
    requires
        valid_day(d),
        0 <= d.year <= 9999,
    ensures
        year_text(d.year as int).len() == 4,
        text::number_in(year_text(d.year as int)) == d.year,
        text::zero_padded(text::digits(d.month as nat), 2).len() == 2,
        text::number_in(text::zero_padded(text::digits(d.month as nat), 2)) == d.month,
        text::zero_padded(text::digits(d.day as nat), 2).len() == 2,
        text::number_in(text::zero_padded(text::digits(d.day as nat), 2)) == d.day,
{
    lemma_widths(d.year as nat);
    lemma_widths(d.month as nat);
    lemma_widths(d.day as nat);
    text::law_digits_stand_for_their_number(d.year as nat);
    text::law_digits_stand_for_their_number(d.month as nat);
    text::law_digits_stand_for_their_number(d.day as nat);
    text::law_padding_keeps_the_number(text::digits(d.year as nat), 4);
    text::law_padding_keeps_the_number(text::digits(d.month as nat), 2);
    text::law_padding_keeps_the_number(text::digits(d.day as nat), 2);
}

/// The name of a file in a year of four digits is its stem, an underscore, year, month and day
/// in eight digits, and its extension.
pub proof fn law_file_names_tell_their_day(stem: Seq<char>, ext: Seq<char>, d: CalendarDay)
    requires
        valid_day(d),
        0 <= d.year <= 9999,
    ensures
        ({
            let n = dump_name(stem, ext, d);
            let k = stem.len() as int;
            &&& n.len() == k + 9 + ext.len()
            &&& n.take(k) == stem
            &&& n[k] == '_'
            &&& text::number_in(n.subrange(k + 1, k + 5)) == d.year
            &&& text::number_in(n.subrange(k + 5, k + 7)) == d.month
            &&& text::number_in(n.subrange(k + 7, k + 9)) == d.day
            &&& n.skip(k + 9) == ext
        }),
{
    reveal_strlit("_");
    reveal_strlit("");
    lemma_parts_of_a_day(d);
    let n = dump_name(stem, ext, d);
    let k = stem.len() as int;
    assert(n.take(k) =~= stem);
    assert(n.subrange(k + 1, k + 5) =~= year_text(d.year as int));
    assert(n.subrange(k + 5, k + 7) =~= text::zero_padded(text::digits(d.month as nat), 2));
    assert(n.subrange(k + 7, k + 9) =~= text::zero_padded(text::digits(d.day as nat), 2));
    assert(n.skip(k + 9) =~= ext);
}

/// A kept day of a year of four digits is year, month and day with hyphens between them.
pub proof fn law_kept_days_tell_their_day(d: CalendarDay)
    requires
        valid_day(d),
        0 <= d.year <= 9999,
    ensures
        ({
            let t = day_text(d, "-"@);
            &&& t.len() == 10
            &&& t[4] == '-' && t[7] == '-'
            &&& text::number_in(t.subrange(0, 4)) == d.year
            &&& text::number_in(t.subrange(5, 7)) == d.month
            &&& text::number_in(t.subrange(8, 10)) == d.day
        }),
{
    reveal_strlit("-");
    lemma_parts_of_a_day(d);
    let t = day_text(d, "-"@);
    assert(t.subrange(0, 4) =~= year_text(d.year as int));
    assert(t.subrange(5, 7) =~= text::zero_padded(text::digits(d.month as nat), 2));
    assert(t.subrange(8, 10) =~= text::zero_padded(text::digits(d.day as nat), 2));
}

/// A year has 365 days, a leap year one more, and a leap year is every fourth one but for
/// three of four full centuries.
pub proof fn law_years_have_their_days(year: int)
    ensures
        days_in_month(year, 1) + days_in_month(year, 2) + days_in_month(year, 3) + days_in_month(
            year,
            4,
        ) + days_in_month(year, 5) + days_in_month(year, 6) + days_in_month(year, 7)
            + days_in_month(year, 8) + days_in_month(year, 9) + days_in_month(year, 10)
            + days_in_month(year, 11) + days_in_month(year, 12) == (if leap_year(year) {
            366int
        } else {
            365
        }),
        year % 4 != 0 ==> !leap_year(year),
        year % 100 == 0 ==> (leap_year(year) <==> year % 400 == 0),
        year % 4 == 0 && year % 100 != 0 ==> leap_year(year),
{
}

/// A row holds this text right behind this name.
pub open spec fn row_says(row: Seq<char>, name: Seq<char>, value: Seq<char>) -> bool {
    exists|before: Seq<char>, behind: Seq<char>|
        row == #[trigger] (before + name + value + behind) && behind.len() > 0 && (behind[0] == '"'
            || behind[0] == ',' || behind[0] == '}')
}

/// What stands between two pieces of a row is said behind the end of the first piece.
proof fn lemma_entry(
    row: Seq<char>,
    before: Seq<char>,
    piece: Seq<char>,
    from: int,
    value: Seq<char>,
    behind: Seq<char>,
)
    requires
        row == before + piece + value + behind,
        0 <= from <= piece.len(),
        behind.len() > 0,
        behind[0] == '"' || behind[0] == ',' || behind[0] == '}',
    ensures
        row_says(row, piece.skip(from), value),
{
    let front = before + piece.take(from);
    assert(row =~= front + piece.skip(from) + value + behind);
}

/// What follows two pieces can be taken together with them.
proof fn lemma_regrouped(l: Seq<char>, piece: Seq<char>, value: Seq<char>, rest: Seq<char>)
    ensures
        l + piece + value + rest == l + (piece + value + rest),
        piece.len() > 0 ==> (piece + value + rest).len() > 0 && (piece + value + rest)[0]
            == piece[0],
{
    assert(l + piece + value + rest =~= l + (piece + value + rest));
}

/// The pieces between the readings of a row: how each starts, and the name that it ends with.
proof fn lemma_names_in_pieces()
    ensures
        "{\"timestamp\":"@.skip(0) == "{\"timestamp\":"@,
        ",\"prices\":{\""@.skip(1) == "\"prices\":{\""@,
        "\":{\"price\":\""@.skip(3) == "\"price\":\""@,
        "\",\"funding_rate\":\"0\",\"bid_price\":\""@.skip(21) == "\"bid_price\":\""@,
        "\",\"ask_price\":\""@.skip(2) == "\"ask_price\":\""@,
        "\",\"bid_size\":\""@.skip(2) == "\"bid_size\":\""@,
        "\",\"ask_size\":\""@.skip(2) == "\"ask_size\":\""@,
        "\",\"exchange_ts\":"@.skip(2) == "\"exchange_ts\":"@,
        ",\"prices\":{\""@.len() >= 1 && ",\"prices\":{\""@[0] == ',',
        "\":{\"price\":\""@.len() >= 3 && "\":{\"price\":\""@[0] == '"',
        "\",\"funding_rate\":\"0\",\"bid_price\":\""@.len() >= 21,
        "\",\"funding_rate\":\"0\",\"bid_price\":\""@[0] == '"',
        "\",\"ask_price\":\""@.len() >= 2 && "\",\"ask_price\":\""@[0] == '"',
        "\",\"bid_size\":\""@.len() >= 2 && "\",\"bid_size\":\""@[0] == '"',
        "\",\"ask_size\":\""@.len() >= 2 && "\",\"ask_size\":\""@[0] == '"',
        "\",\"exchange_ts\":"@.len() >= 2 && "\",\"exchange_ts\":"@[0] == '"',
        "}}}"@.len() >= 1 && "}}}"@[0] == '}',
{
    reveal_strlit("{\"timestamp\":");
    reveal_strlit(",\"prices\":{\"");
    reveal_strlit("\":{\"price\":\"");
    reveal_strlit("\",\"funding_rate\":\"0\",\"bid_price\":\"");
    reveal_strlit("\",\"ask_price\":\"");
    reveal_strlit("\",\"bid_size\":\"");
    reveal_strlit("\",\"ask_size\":\"");
    reveal_strlit("\",\"exchange_ts\":");
    reveal_strlit("}}}");
    reveal_strlit("\"prices\":{\"");
    reveal_strlit("\"price\":\"");
    reveal_strlit("\"bid_price\":\"");
    reveal_strlit("\"ask_price\":\"");
    reveal_strlit("\"bid_size\":\"");
    reveal_strlit("\"ask_size\":\"");
    reveal_strlit("\"exchange_ts\":");
}

/// A row tells each reading behind its own name: the times, the mid, and price and size of bid
/// and ask.
pub proof fn law_rows_tell_each_reading(
    symbol: Seq<char>,
    timestamp_ms: int,
    exchange_ts_ms: nat,
    mid: Decimal,
    bid_price: Decimal,
    ask_price: Decimal,
    bid_size: Decimal,
    ask_size: Decimal,
)
    ensures
        ({
            let row = dump_row(
                symbol,
                timestamp_ms,
                exchange_ts_ms,
                mid,
                bid_price,
                ask_price,
                bid_size,
                ask_size,
            );
            let written = |d: Decimal| text::decimal_digits(d.coeff(), d.places());
            &&& row_says(row, "{\"timestamp\":"@, text::signed_digits(timestamp_ms))
            &&& row_says(row, "\"prices\":{\""@, symbol)
            &&& row_says(row, "\"price\":\""@, written(mid))
            &&& row_says(row, "\"bid_price\":\""@, written(bid_price))
            &&& row_says(row, "\"ask_price\":\""@, written(ask_price))
            &&& row_says(row, "\"bid_size\":\""@, written(bid_size))
            &&& row_says(row, "\"ask_size\":\""@, written(ask_size))
            &&& row_says(row, "\"exchange_ts\":"@, text::digits(exchange_ts_ms))
        }),
{
    let ts = text::signed_digits(timestamp_ms);
    let m = text::decimal_digits(mid.coeff(), mid.places());
    let bp = text::decimal_digits(bid_price.coeff(), bid_price.places());
    let ap = text::decimal_digits(ask_price.coeff(), ask_price.places());
    let bs = text::decimal_digits(bid_size.coeff(), bid_size.places());
    let sz = text::decimal_digits(ask_size.coeff(), ask_size.places());
    let ex = text::digits(exchange_ts_ms);
    let s0 = "{\"timestamp\":"@;
    let s1 = ",\"prices\":{\""@;
    let s2 = "\":{\"price\":\""@;
    let s3 = "\",\"funding_rate\":\"0\",\"bid_price\":\""@;
    let s4 = "\",\"ask_price\":\""@;
    let s5 = "\",\"bid_size\":\""@;
    let s6 = "\",\"ask_size\":\""@;
    let s7 = "\",\"exchange_ts\":"@;
    let s8 = "}}}"@;
    lemma_names_in_pieces();
    let l0 = s0 + ts;
    let l1 = l0 + s1 + symbol;
    let l2 = l1 + s2 + m;
    let l3 = l2 + s3 + bp;
    let l4 = l3 + s4 + ap;
    let l5 = l4 + s5 + bs;
    let l6 = l5 + s6 + sz;
    let l7 = l6 + s7 + ex;
    let row = l7 + s8;
    let r7 = s7 + ex + s8;
    let r6 = s6 + sz + r7;
    let r5 = s5 + bs + r6;
    let r4 = s4 + ap + r5;
    let r3 = s3 + bp + r4;
    let r2 = s2 + m + r3;
    let r1 = s1 + symbol + r2;
    lemma_regrouped(l6, s7, ex, s8);
    lemma_regrouped(l5, s6, sz, r7);
    lemma_regrouped(l4, s5, bs, r6);
    lemma_regrouped(l3, s4, ap, r5);
    lemma_regrouped(l2, s3, bp, r4);
    lemma_regrouped(l1, s2, m, r3);
    lemma_regrouped(l0, s1, symbol, r2);
    let e = Seq::<char>::empty();
    assert(e + s0 =~= s0);
    lemma_entry(row, e, s0, 0, ts, r1);
    lemma_entry(row, l0, s1, 1, symbol, r2);
    lemma_entry(row, l1, s2, 3, m, r3);
    lemma_entry(row, l2, s3, 21, bp, r4);
    lemma_entry(row, l3, s4, 2, ap, r5);
    lemma_entry(row, l4, s5, 2, bs, r6);
    lemma_entry(row, l5, s6, 2, sz, r7);
    lemma_entry(row, l6, s7, 2, ex, s8);
}

} // verus!
