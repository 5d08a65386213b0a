use sqlite_tools::solar_sim::gui::{CsvKind, MyApp};
use sqlite_tools::solar_sim::parameter::{battery_capacity_options, solar_output_options};
use sqlite_tools::solar_sim::power::{parse_japanese_date, power_record_timestamps};
use sqlite_tools::solar_sim::progress::BatchCounter;
use sqlite_tools::solar_sim::solar::{solar_record_date, solar_record_timestamps, solar_rows, SolarStop};
use sqlite_tools::solar_sim::weather::{weather_csv_text, weather_timestamp};

fn fields(v: &[&str]) -> Vec<String> {
    v.iter().map(|s| s.to_string()).collect()
}

#[test]
fn power_day_has_24_hourly_timestamps() {
    let v = power_record_timestamps("2024年1月2日").expect("date reads");
    assert_eq!(v.len(), 24);
    assert_eq!(v[0], "2024-01-02 00:00:00");
    assert_eq!(v[3], "2024-01-02 03:00:00");
    assert_eq!(v[23], "2024-01-02 23:00:00");
}

#[test]
fn power_timestamps_are_distinct() {
    let v = power_record_timestamps("2023年12月31日").unwrap();
    let mut sorted = v.clone();
    sorted.sort();
    sorted.dedup();
    assert_eq!(sorted.len(), 24);
}

#[test]
fn power_date_must_read() {
    assert!(power_record_timestamps("2024/1/2").is_none());
    assert!(power_record_timestamps("2023年2月29日").is_none());
    assert!(parse_japanese_date("2024年2月29日").is_some());
    assert!(parse_japanese_date("").is_none());
}

#[test]
fn solar_record_date_fields() {
    let rec = fields(&["x", "y", "2", "29", "2024", "5"]);
    let v = solar_record_timestamps(&rec).expect("a leap day");
    assert_eq!(v[0], "2024-02-29 00:00:00");
    assert_eq!(v[13], "2024-02-29 13:00:00");
    assert!(solar_record_date(&fields(&["x", "y", "2", "29", "2023"])).is_none());
    assert!(solar_record_date(&fields(&["x", "y", "2", "28"])).is_none());
    assert!(solar_record_date(&fields(&["x", "y", "two", "28", "2023"])).is_none());
    assert!(solar_record_date(&fields(&["x", "y", "13", "1", "2023"])).is_none());
    assert!(solar_record_date(&fields(&["x", "y", "1", "1", "300000"])).is_none());
}

#[test]
fn years_outside_four_digits_carry_a_sign() {
    let v = solar_record_timestamps(&fields(&["", "", "1", "1", "10000"])).unwrap();
    assert_eq!(v[0], "+10000-01-01 00:00:00");
    let v = solar_record_timestamps(&fields(&["", "", "3", "4", "-1"])).unwrap();
    assert_eq!(v[5], "-0001-03-04 05:00:00");
    let v = solar_record_timestamps(&fields(&["", "", "3", "4", "+7"])).unwrap();
    assert_eq!(v[5], "0007-03-04 05:00:00");
}

#[test]
fn weather_timestamps() {
    assert_eq!(weather_timestamp("2024/1/2 3:00").as_deref(), Some("2024-01-02 03:00:00"));
    assert_eq!(weather_timestamp("2024/12/31 23:59").as_deref(), Some("2024-12-31 23:59:00"));
    assert_eq!(weather_timestamp("2024-01-02 03:00"), None);
    assert_eq!(weather_timestamp("2024/2/30 1:00"), None);
}

#[test]
fn weather_file_decodes_and_skips_preamble() {
    let ascii = b"title\nplace\n\ntime,temp\n2024/1/1 1:00,3.5\n";
    assert_eq!(weather_csv_text(ascii), "time,temp\n2024/1/1 1:00,3.5\n");
    // "日時" in Shift_JIS after three lines
    let sjis: Vec<u8> = vec![b'a', b'\n', b'b', b'\n', b'c', b'\n', 0x93, 0xFA, 0x8E, 0x9E];
    assert_eq!(weather_csv_text(&sjis), "日時");
    assert_eq!(weather_csv_text(b"x\ny"), "");
}

#[test]
fn batch_counter_commits_every_period() {
    let mut c = BatchCounter::new(100);
    let mut boundaries = Vec::new();
    for _ in 0..250 {
        if c.record() {
            boundaries.push(c.count());
        }
    }
    assert_eq!(boundaries, vec![100, 200]);
    assert_eq!(c.count(), 250);
}

#[test]
fn parameter_options() {
    let expected = vec![0u32, 1, 2, 4, 8, 16, 32, 64, 128, 256, 512, 1024];
    assert_eq!(solar_output_options(), expected);
    assert_eq!(battery_capacity_options(), expected);
}

#[test]
fn gui_messages() {
    let mut app = MyApp::default();
    assert_eq!(app.message(), "Please Push Button for Import CSV Files");
    app.on_load_finished(CsvKind::Solar, Ok(()));
    assert_eq!(app.message(), "Solar CSV loaded successfully");
    app.on_load_finished(CsvKind::Weather, Err("bad record"));
    assert_eq!(app.message(), "Failed to load Weather CSV: bad record");
    app.on_open_failed("locked");
    assert_eq!(app.message(), "Failed to open database: locked");
    assert_eq!(CsvKind::Power.dialog_title(), "Select Power Data");
    assert_eq!(CsvKind::Weather.button_label(), "Selected Weather CSV");
    assert_eq!(CsvKind::Solar.button_label(), "Select Solar CSV");
}

fn solar_line(month: u32, day: u32, year: i32, base: u32) -> String {
    let mut f = vec!["st".to_string(), "x".to_string(), month.to_string(), day.to_string(), year.to_string()];
    for h in 0..24 {
        f.push((base + h).to_string());
    }
    f.join(",")
}

#[test]
fn solar_rows_skip_first_record() {
    let text = format!("title,of,the,file\n{}\n{}\n", solar_line(1, 2, 2024, 10), solar_line(1, 3, 2024, 50));
    let (rows, stop) = solar_rows(text.as_bytes());
    assert_eq!(stop, SolarStop::End);
    assert_eq!(rows.len(), 2);
    assert_eq!(rows[0].0[0], "2024-01-02 00:00:00");
    assert_eq!(rows[0].0[23], "2024-01-02 23:00:00");
    assert_eq!(rows[0].1[0], "10");
    assert_eq!(rows[0].1[23], "33");
    assert_eq!(rows[1].0[5], "2024-01-03 05:00:00");
    assert_eq!(rows[1].1.len(), 24);
}

#[test]
fn solar_rows_stop_at_a_bad_record() {
    let text = format!("t\n{}\n1,2,3\n{}\n", solar_line(1, 2, 2024, 0), solar_line(1, 3, 2024, 0));
    let (rows, stop) = solar_rows(text.as_bytes());
    assert_eq!(rows.len(), 1);
    assert_eq!(stop, SolarStop::Malformed);
    let text = format!("t\n{}\n", solar_line(2, 30, 2024, 0));
    assert_eq!(solar_rows(text.as_bytes()), (Vec::new(), SolarStop::Malformed));
    let mut bytes = b"t\n".to_vec();
    bytes.extend_from_slice(solar_line(1, 2, 2024, 0).as_bytes());
    bytes.extend_from_slice(b"\n\xff\xfe,1\n");
    let (rows, stop) = solar_rows(&bytes);
    assert_eq!(rows.len(), 1);
    assert_eq!(stop, SolarStop::Unreadable);
}

#[test]
fn solar_rows_empty_files() {
    assert_eq!(solar_rows(b""), (Vec::new(), SolarStop::End));
    assert_eq!(solar_rows(b"only a title\n"), (Vec::new(), SolarStop::End));
}

#[test]
fn solar_first_line_is_ignored() {
    let body = format!("{}\n{}\n", solar_line(5, 6, 2023, 1), solar_line(5, 7, 2023, 2));
    let a = format!("one header\n{}", body);
    let b = format!("x,y,z,13,40,9999,not a number\n{}", body);
    assert_eq!(solar_rows(a.as_bytes()), solar_rows(b.as_bytes()));
    assert_eq!(solar_rows(a.as_bytes()).0.len(), 2);
}
