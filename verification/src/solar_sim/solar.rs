//! Solar irradiance records: a CSV file without header whose first record
//! is skipped; each record has month, day and year in its third to fifth
//! fields, then the irradiance of each of the 24 hours.
use vstd::prelude::*;
use crate::calendar::{Date, date_from_ymd, valid_date, datetime_text, hourly_stamps};
use crate::decimal::{parsed_i32, parsed_u32, parse_i32, parse_u32};
use crate::text::texts;

verus! {

/// Year, month and day of a record, if the fields are there and read as
/// integers (year from field 4, month from field 2, day from field 3).
pub open spec fn record_ymd(fields: Seq<Seq<char>>) -> Option<(i32, u32, u32)> {
    if fields.len() >= 5 && parsed_i32(fields[4]) is Some && parsed_u32(fields[2]) is Some
        && parsed_u32(fields[3]) is Some {
        Some((parsed_i32(fields[4])->Some_0, parsed_u32(fields[2])->Some_0, parsed_u32(fields[3])->Some_0))
    } else {
        None
    }
}

/// Whether a record names a day that exists.
pub open spec fn record_has_date(fields: Seq<Seq<char>>) -> bool {
    record_ymd(fields) matches Some(ymd) && valid_date(ymd.0 as int, ymd.1 as int, ymd.2 as int)
}

/// The day of a record; `None` where a field is missing, does not read as
/// an integer, or the day does not exist.
pub fn solar_record_date(fields: &Vec<String>) -> (r: Option<Date>)
    ensures
        r is Some <==> record_has_date(texts(fields@)),
        r matches Some(d) ==> ({
            let ymd = record_ymd(texts(fields@))->Some_0;
            d.ymd() == (ymd.0 as int, ymd.1 as int, ymd.2 as int)
        }),
{
    let ghost f = texts(fields@);
    if fields.len() < 5 {
        return None;
    }
    assert(f[4] == fields@[4]@ && f[2] == fields@[2]@ && f[3] == fields@[3]@);
    let year = match parse_i32(fields[4].as_str()) {
        Some(y) => y,
        None => return None,
    };
    let month = match parse_u32(fields[2].as_str()) {
        Some(m) => m,
        None => return None,
    };
    let day = match parse_u32(fields[3].as_str()) {
        Some(d) => d,
        None => return None,
    };
    date_from_ymd(year, month, day)
}

/// The timestamps of the 24 hourly rows of a record's day, `00:00:00` to
/// `23:00:00`; `None` where the record names no day.
pub fn solar_record_timestamps(fields: &Vec<String>) -> (r: Option<Vec<String>>)
    ensures
        r is Some <==> record_has_date(texts(fields@)),
        r matches Some(v) ==> {
            let ymd = record_ymd(texts(fields@))->Some_0;
            &&& v@.len() == 24
            &&& forall|h: int| 0 <= h < 24 ==> #[trigger] v@[h]@ == datetime_text((ymd.0 as int, ymd.1 as int, ymd.2 as int, h, 0, 0, 0))
        },
{
    match solar_record_date(fields) {
        Some(d) => Some(hourly_stamps(&d)),
        None => None,
    }
}

/// The records that the `csv` crate reads from `bytes` with no header row
/// and records of any length: each record's fields, or nothing for a record
/// that does not read.
pub uninterp spec fn csv_flexible_records(bytes: Seq<u8>) -> Seq<Option<Seq<Seq<char>>>>;

/// Reads every record with `csv::ReaderBuilder` (no header row, flexible
/// lengths) from the bytes. How the `csv` crate splits records and fields
/// is named by `csv_flexible_records`, not restated.
#[verifier::external_body]
fn read_csv_records(bytes: &[u8]) -> (r: Vec<Option<Vec<String>>>)
    ensures
        r@.len() == csv_flexible_records(bytes@).len(),
        forall|i: int|
            0 <= i < r@.len() ==> (#[trigger] r@[i] is Some <==> csv_flexible_records(bytes@)[i] is Some),
        forall|i: int|
            0 <= i < r@.len() && #[trigger] r@[i] is Some ==> texts(r@[i]->Some_0@)
                == csv_flexible_records(bytes@)[i]->Some_0,
{
    let mut reader = csv::ReaderBuilder::new().has_headers(false).flexible(true).from_reader(bytes);
    let convert = |rec: csv::Result<csv::StringRecord>| match rec {
        Ok(r) => Some(r.iter().map(|f| f.to_string()).collect()),
        Err(_) => None,
    };
    reader.records().map(convert).collect()
}

/// The records of a solar file after its first one.
pub open spec fn solar_records(bytes: Seq<u8>) -> Seq<Option<Seq<Seq<char>>>> {
    let all = csv_flexible_records(bytes);
    if all.len() == 0 {
        all
    } else {
        all.skip(1)
    }
}

/// The texts of the 24 full hours of a day.
pub open spec fn hourly_texts(ymd: (i32, u32, u32)) -> Seq<Seq<char>> {
    Seq::new(24, |h: int| datetime_text((ymd.0 as int, ymd.1 as int, ymd.2 as int, h, 0, 0, 0)))
}

/// What a record becomes: the 24 hourly timestamps of its day and the texts
/// of its 24 hourly values (fields 5 to 28); nothing where it names no day
/// or has fewer than 29 fields.
pub open spec fn record_row(rec: Option<Seq<Seq<char>>>) -> Option<(Seq<Seq<char>>, Seq<Seq<char>>)> {
    match rec {
        Some(f) => if record_has_date(f) && f.len() >= 29 {
            Some((hourly_texts(record_ymd(f)->Some_0), f.subrange(5, 29)))
        } else {
            None
        },
        None => None,
    }
}

/// Why the reading of a solar file ended.
#[derive(Debug, Clone, Copy, PartialEq, Eq, Structural)]
pub enum SolarStop {
    /// Every record was read.
    End,
    /// A record does not read as CSV.
    Unreadable,
    /// A record names no day, or lacks hourly values.
    Malformed,
}

/// The texts of the rows.
pub open spec fn row_texts(rows: Seq<(Vec<String>, Vec<String>)>) -> Seq<(Seq<Seq<char>>, Seq<Seq<char>>)> {
    rows.map_values(|p: (Vec<String>, Vec<String>)| (texts(p.0@), texts(p.1@)))
}

/// What the rows read from the records after the first are: each record's
/// row, up to the first record that does not read or is malformed, and why
/// the reading ended.
pub open spec fn solar_rows_result(
    recs: Seq<Option<Seq<Seq<char>>>>,
    rows: Seq<(Seq<Seq<char>>, Seq<Seq<char>>)>,
    stop: SolarStop,
) -> bool {
    let n = rows.len();
    &&& n <= recs.len()
    &&& forall|i: int| 0 <= i < n ==> record_row(recs[i]) == Some(#[trigger] rows[i])
    &&& (stop == SolarStop::End <==> n == recs.len())
    &&& stop == SolarStop::Unreadable ==> n < recs.len() && recs[n as int] is None
    &&& stop == SolarStop::Malformed ==> n < recs.len() && recs[n as int] is Some && record_row(
        recs[n as int],
    ) is None
}

/// The rows of a solar file, in order: for each record after the first, up
/// to the first one that does not read or is malformed, its 24 timestamps
/// and the texts of its 24 hourly values; and why the reading ended.
pub fn solar_rows(bytes: &[u8]) -> (r: (Vec<(Vec<String>, Vec<String>)>, SolarStop))
    ensures
        solar_rows_result(solar_records(bytes@), row_texts(r.0@), r.1),
{
    let all = read_csv_records(bytes);
    let ghost recs = solar_records(bytes@);
    let mut rows: Vec<(Vec<String>, Vec<String>)> = Vec::new();
    if all.len() == 0 {
        return (rows, SolarStop::End);
    }
    let mut i: usize = 1;
    while i < all.len()
        invariant
            1 <= i <= all@.len(),
            all@.len() == csv_flexible_records(bytes@).len(),
            recs == solar_records(bytes@),
            recs == csv_flexible_records(bytes@).skip(1),
            forall|j: int|
                0 <= j < all@.len() ==> (#[trigger] all@[j] is Some <==> csv_flexible_records(bytes@)[j] is Some),
            forall|j: int|
                0 <= j < all@.len() && #[trigger] all@[j] is Some ==> texts(all@[j]->Some_0@)
                    == csv_flexible_records(bytes@)[j]->Some_0,
            rows@.len() == i - 1,
            forall|j: int| 0 <= j < rows@.len() ==> record_row(recs[j]) == Some(#[trigger] row_texts(rows@)[j]),
        decreases all@.len() - i,
    {
        assert(recs[i - 1] == csv_flexible_records(bytes@)[i as int]);
        match &all[i] {
            None => {
                return (rows, SolarStop::Unreadable);
            },
            Some(fields) => {
                let ghost f = texts(fields@);
                assert(f == csv_flexible_records(bytes@)[i as int]->Some_0);
                if fields.len() < 29 {
                    return (rows, SolarStop::Malformed);
                }
                match solar_record_timestamps(fields) {
                    None => {
                        return (rows, SolarStop::Malformed);
                    },
                    Some(stamps) => {
                        let mut values: Vec<String> = Vec::new();
                        let mut k: usize = 5;
                        while k < 29
                            invariant
                                5 <= k <= 29,
                                fields@.len() >= 29,
                                values@.len() == k - 5,
                                forall|m: int| 0 <= m < values@.len() ==> (#[trigger] values@[m])@ == fields@[m + 5]@,
                            decreases 29 - k,
                        {
                            values.push(fields[k].clone());
                            k += 1;
                        }
                        assert(texts(values@) =~= f.subrange(5, 29));
                        assert(texts(stamps@) =~= hourly_texts(record_ymd(f)->Some_0));
                        let ghost old_rows = rows@;
                        let ghost row = (texts(stamps@), texts(values@));
                        rows.push((stamps, values));
                        assert(row_texts(rows@) =~= row_texts(old_rows).push(row));
                    },
                }
            },
        }
        i += 1;
    }
    (rows, SolarStop::End)
}

/// Law: the rows and the stop reason are fixed by the records: two results
/// that meet `solar_rows_result` for the same records are the same.
pub proof fn lemma_solar_rows_determined(
    recs: Seq<Option<Seq<Seq<char>>>>,
    rows1: Seq<(Seq<Seq<char>>, Seq<Seq<char>>)>,
    stop1: SolarStop,
    rows2: Seq<(Seq<Seq<char>>, Seq<Seq<char>>)>,
    stop2: SolarStop,
)
    requires
        solar_rows_result(recs, rows1, stop1),
        solar_rows_result(recs, rows2, stop2),
    ensures
        rows1 == rows2,
        stop1 == stop2,
{
    if rows1.len() < rows2.len() {
        assert(record_row(recs[rows1.len() as int]) == Some(rows2[rows1.len() as int]));
    }
    if rows2.len() < rows1.len() {
        assert(record_row(recs[rows2.len() as int]) == Some(rows1[rows2.len() as int]));
    }
    assert(rows1.len() == rows2.len());
    assert forall|i: int| 0 <= i < rows1.len() implies rows1[i] == rows2[i] by {
        assert(record_row(recs[i]) == Some(rows1[i]));
        assert(record_row(recs[i]) == Some(rows2[i]));
    }
    assert(rows1 =~= rows2);
}

/// Law: the first record of a solar file is neither read into a row nor
/// decides anything. Two files whose CSV records agree after the first give
/// the same rows and the same stop reason, whatever their first records.
pub proof fn lemma_first_record_ignored(
    b1: Seq<u8>,
    b2: Seq<u8>,
    rows1: Seq<(Seq<Seq<char>>, Seq<Seq<char>>)>,
    stop1: SolarStop,
    rows2: Seq<(Seq<Seq<char>>, Seq<Seq<char>>)>,
    stop2: SolarStop,
)
    requires
        csv_flexible_records(b1).len() > 0,
        csv_flexible_records(b2).len() > 0,
        csv_flexible_records(b1).skip(1) == csv_flexible_records(b2).skip(1),
        solar_rows_result(solar_records(b1), rows1, stop1),
        solar_rows_result(solar_records(b2), rows2, stop2),
    ensures
        rows1 == rows2,
        stop1 == stop2,
{
    assert(solar_records(b1) == solar_records(b2));
    lemma_solar_rows_determined(solar_records(b1), rows1, stop1, rows2, stop2);
}

/// Law: a record makes a row exactly when it has at least 29 fields whose
/// fields 4, 2 and 3 read as the year, month and day of a day that exists;
/// the row holds the 24 hourly timestamps of that day and fields 5 to 28
/// as the values of hours 0 to 23.
pub proof fn lemma_record_row_fields(f: Seq<Seq<char>>)
    ensures
        record_row(None) is None,
        record_row(Some(f)) is Some <==> (f.len() >= 29 && parsed_i32(f[4]) is Some && parsed_u32(f[2]) is Some
            && parsed_u32(f[3]) is Some && valid_date(
            parsed_i32(f[4])->Some_0 as int,
            parsed_u32(f[2])->Some_0 as int,
            parsed_u32(f[3])->Some_0 as int,
        )),
        record_row(Some(f)) is Some ==> ({
            let row = record_row(Some(f))->Some_0;
            &&& row.0.len() == 24
            &&& row.1.len() == 24
            &&& forall|h: int|
                0 <= h < 24 ==> #[trigger] row.1[h] == f[5 + h] && row.0[h] == datetime_text(
                    (
                        parsed_i32(f[4])->Some_0 as int,
                        parsed_u32(f[2])->Some_0 as int,
                        parsed_u32(f[3])->Some_0 as int,
                        h,
                        0,
                        0,
                        0,
                    ),
                )
        }),
{
}

} // verus!
