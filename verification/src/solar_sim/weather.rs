//! Weather records: a Shift_JIS file whose first three lines are a
//! preamble, then a CSV table with a timestamp such as `2024/1/2 3:00`.
use vstd::prelude::*;
use crate::calendar::{datetime_parse_from_str, parsed_datetime, datetime_text, datetime_to_string};
use crate::text::{skip_lines, after_lines};

verus! {

/// What `encoding_rs::SHIFT_JIS.decode` makes of some bytes.
pub uninterp spec fn shift_jis_decoded(bytes: Seq<u8>) -> Seq<char>;

/// Calls `encoding_rs::SHIFT_JIS.decode` and keeps the text. The mapping is
/// named by `shift_jis_decoded`; of it only the ASCII part is stated:
/// Shift_JIS is ASCII-compatible, so ASCII bytes decode to themselves.
#[verifier::external_body]
fn decode_shift_jis(bytes: &[u8]) -> (r: String)
    requires
        bytes@.len() <= usize::MAX / 2,
    ensures
        r@ == shift_jis_decoded(bytes@),
        (forall|i: int| 0 <= i < bytes@.len() ==> #[trigger] bytes@[i] < 0x80) ==> r@ == Seq::new(
            bytes@.len(),
            |i: int| bytes@[i] as char,
        ),
{
    encoding_rs::SHIFT_JIS.decode(bytes).0.into_owned()
}

/// The CSV table of a weather file: the file decoded from Shift_JIS, less
/// its first three lines.
pub fn weather_csv_text(bytes: &[u8]) -> (r: String)
    requires
        bytes@.len() <= usize::MAX / 2,
    ensures
        r@ == after_lines(shift_jis_decoded(bytes@), 3),
{
    let text = decode_shift_jis(bytes);
    skip_lines(text.as_str(), 3)
}

/// The timestamp format of the records: `2024/1/2 3:00`.
pub open spec fn weather_timestamp_format() -> Seq<char> {
    "%Y/%m/%d %H:%M"@
}

/// The timestamp of a record as it is stored, `2024-01-02 03:00:00`;
/// `None` when the text does not read as a date and time.
pub fn weather_timestamp(text: &str) -> (r: Option<String>)
    ensures
        r is Some <==> parsed_datetime(text@, weather_timestamp_format()) is Some,
        r matches Some(s) ==> s@ == datetime_text(parsed_datetime(text@, weather_timestamp_format())->Some_0),
{
    match datetime_parse_from_str(text, "%Y/%m/%d %H:%M") {
        Some(t) => Some(datetime_to_string(&t)),
        None => None,
    }
}

/// Law: the weather timestamps are read as year/month/day, a space, and
/// hour:minute.
pub proof fn lemma_weather_format()
    ensures
        weather_timestamp_format() == "%Y/%m/%d %H:%M"@,
{
}

} // verus!
