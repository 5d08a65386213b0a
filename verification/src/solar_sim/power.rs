//! Power use records: one record per day, written in Japanese date form,
//! with the use of each of its 24 hours.
use vstd::prelude::*;
use crate::calendar::{valid_ymd, Date, date_parse_from_str, parsed_date, datetime_text, hourly_stamps};

verus! {

/// The date format of the records: `2024年1月2日`.
pub open spec fn japanese_date_format() -> Seq<char> {
    "%Y年%m月%d日"@
}

/// Reads a date such as `2024年1月2日`.
pub fn parse_japanese_date(date_str: &str) -> (r: Option<Date>)
    ensures
        r is Some <==> parsed_date(date_str@, japanese_date_format()) is Some,
        r matches Some(d) ==> valid_ymd(d.ymd()) && parsed_date(date_str@, japanese_date_format()) == Some(d.ymd()),
{
    date_parse_from_str(date_str, "%Y年%m月%d日")
}

/// The timestamps of the 24 hourly rows of a record's day, `00:00:00` to
/// `23:00:00`; `None` when the date does not read.
pub fn power_record_timestamps(date_str: &str) -> (r: Option<Vec<String>>)
    ensures
        r is Some <==> parsed_date(date_str@, japanese_date_format()) is Some,
        r matches Some(v) ==> {
            let ymd = parsed_date(date_str@, japanese_date_format())->Some_0;
            &&& v@.len() == 24
            &&& forall|h: int| 0 <= h < 24 ==> #[trigger] v@[h]@ == datetime_text((ymd.0, ymd.1, ymd.2, h, 0, 0, 0))
        },
{
    match parse_japanese_date(date_str) {
        Some(d) => Some(hourly_stamps(&d)),
        None => None,
    }
}

/// Law: the power records' dates are read as year, 年, month, 月, day, 日.
pub proof fn lemma_power_format()
    ensures
        japanese_date_format() == "%Y年%m月%d日"@,
{
}

} // verus!
