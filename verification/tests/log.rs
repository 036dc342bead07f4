use trackspeedtest::average::ResultCsv;
use trackspeedtest::date::date_time_from_str;
use trackspeedtest::decimal::parse_hundredths;
use trackspeedtest::log::{
    build_window_text, check_window, enough_results, find_column, find_columns,
    get_latest_results, make_measurement, read_row, read_rows, Columns, LogTail,
};

const HEADER: &str = "date,ping,speeds_download,speeds_upload,client_ip,client_isp,server_host,server_lat,server_lon,server_location,server_country,location_distance,server_ping,server_id";

fn line(hour: u32, download: &str, upload: &str) -> String {
    format!(
        "2021/01/01 {:02}:00:00,5.7,{},{},\"84.6.0.1\",\"Some ISP, Inc.\",\"host\",null,null,\"Here\",\"There\",null,null,99999",
        hour, download, upload
    )
}

fn epoch(hour: i64) -> i64 {
    1609459200 + hour * 3600
}

fn tail(data_lines: usize, hours: &[u32]) -> LogTail {
    LogTail {
        header: HEADER.to_owned(),
        data_lines,
        last_lines: hours
            .iter()
            .map(|hour| line(*hour, &format!("{}.50", hour), &format!("{}.25", hour)))
            .collect(),
    }
}

fn strings(fields: &[&str]) -> Vec<String> {
    fields.iter().map(|field| field.to_string()).collect()
}

#[test]
fn a_missing_file_is_no_data_for_any_count() {
    for count in 0..=255u8 {
        assert_eq!(get_latest_results(None, count), Ok(None));
    }
}

#[test]
fn three_rows_are_no_data_for_a_count_of_five() {
    assert_eq!(get_latest_results(Some(tail(3, &[3, 2, 1])), 5), Ok(None));
}

#[test]
fn a_header_alone_is_no_data() {
    for count in 1..=255u8 {
        assert_eq!(get_latest_results(Some(tail(0, &[])), count), Ok(None));
    }
}

#[test]
fn eight_rows_come_back_in_the_order_written() {
    let results = get_latest_results(Some(tail(8, &[8, 7, 6, 5, 4, 3, 2, 1])), 8)
        .unwrap()
        .unwrap();
    let expected: Vec<ResultCsv> = (1..=8)
        .map(|hour| ResultCsv {
            date: epoch(hour),
            speeds_download: hour as u64 * 100 + 50,
            speeds_upload: hour as u64 * 100 + 25,
        })
        .collect();
    assert_eq!(results, expected);
}

#[test]
fn the_last_rows_of_a_longer_log_are_the_window() {
    let results = get_latest_results(Some(tail(20, &[20, 19, 18])), 3)
        .unwrap()
        .unwrap();
    assert_eq!(results.len(), 3);
    assert_eq!(results[0].date, epoch(18));
    assert_eq!(results[2].date, epoch(20));
}

#[test]
fn a_row_that_does_not_read_fails_the_window() {
    let mut log = tail(3, &[3, 2, 1]);
    log.last_lines[1] = "2021/01/01 02:00:00,5.7,fast,2.25,a,b,c,null,null,d,e,null,null,1".to_owned();
    assert_eq!(
        get_latest_results(Some(log), 3),
        Err("Error deserializing csv.".to_owned())
    );
    let mut log = tail(3, &[3, 2, 1]);
    log.last_lines[0] = "2021/01/01 03:00".to_owned();
    assert_eq!(
        get_latest_results(Some(log), 3),
        Err("Error deserializing csv.".to_owned())
    );
    let mut log = tail(3, &[3, 2, 1]);
    log.last_lines[2] = "01/01/2021 01:00:00,5.7,1.50,1.25,a,b,c,null,null,d,e,null,null,1".to_owned();
    assert_eq!(
        get_latest_results(Some(log), 3),
        Err("Error deserializing csv.".to_owned())
    );
}

#[test]
fn fewer_lines_than_counted_fail_the_window() {
    assert_eq!(
        get_latest_results(Some(tail(3, &[3, 2])), 3),
        Err("Error deserializing csv.".to_owned())
    );
}

#[test]
fn a_header_without_the_columns_fails_the_window() {
    let mut log = tail(2, &[2, 1]);
    log.header = HEADER.replace("speeds_upload", "upload");
    assert_eq!(
        get_latest_results(Some(log), 2),
        Err("Error deserializing csv.".to_owned())
    );
    let mut log = tail(2, &[2, 1]);
    log.header = HEADER.replace("ping", "date");
    assert_eq!(
        get_latest_results(Some(log), 2),
        Err("Error deserializing csv.".to_owned())
    );
}

#[test]
fn columns_are_found_by_their_titles() {
    let log = LogTail {
        header: "speeds_upload,note,date,speeds_download".to_owned(),
        data_lines: 2,
        last_lines: vec![
            "2.5,\"b, with a comma\",2021/01/01 02:00:00,20".to_owned(),
            "1.5,a,2021/01/01 01:00:00,10".to_owned(),
        ],
    };
    assert_eq!(
        get_latest_results(Some(log), 2),
        Ok(Some(vec![
            ResultCsv {
                date: epoch(1),
                speeds_download: 10_00,
                speeds_upload: 1_50
            },
            ResultCsv {
                date: epoch(2),
                speeds_download: 20_00,
                speeds_upload: 2_50
            },
        ]))
    );
}

#[test]
fn enough_results_counts_the_lines_after_the_header() {
    assert!(enough_results(8, 8));
    assert!(enough_results(9, 8));
    assert!(!enough_results(7, 8));
    assert!(enough_results(0, 0));
    assert!(!enough_results(0, 1));
}

#[test]
fn the_window_text_runs_from_the_oldest_line_to_the_newest() {
    assert_eq!(
        build_window_text("h", &strings(&["c", "b", "a"])),
        "h\na\nb\nc\n"
    );
    assert_eq!(build_window_text("h", &Vec::new()), "h\n");
    assert_eq!(build_window_text("", &strings(&["x"])), "\nx\n");
}

#[test]
fn a_title_over_two_columns_names_neither() {
    assert_eq!(find_column(&strings(&["a", "b", "c"]), "b"), Some(1));
    assert_eq!(find_column(&strings(&["a", "b", "c"]), "d"), None);
    assert_eq!(find_column(&strings(&["a", "b", "a"]), "a"), None);
    assert_eq!(find_column(&strings(&["a", "b", "a"]), "b"), Some(1));
    assert_eq!(find_column(&Vec::new(), "a"), None);
    assert_eq!(
        find_columns(&Some(strings(&["speeds_upload", "date", "x", "speeds_download"]))),
        Some(Columns {
            date: 1,
            download: 3,
            upload: 0
        })
    );
    assert_eq!(find_columns(&Some(strings(&["date", "speeds_download"]))), None);
    assert_eq!(find_columns(&None), None);
}

#[test]
fn a_row_reads_where_all_three_fields_read() {
    let columns = Some(Columns {
        date: 0,
        download: 1,
        upload: 2,
    });
    let good = Some(strings(&["2021/01/01 00:00:00", "1.5", "2"]));
    assert_eq!(
        read_row(columns, &good),
        Some(ResultCsv {
            date: epoch(0),
            speeds_download: 1_50,
            speeds_upload: 2_00
        })
    );
    assert_eq!(read_row(None, &good), None);
    assert_eq!(read_row(columns, &None), None);
    assert_eq!(read_row(columns, &Some(strings(&["2021/01/01 00:00:00", "1.5"]))), None);
    assert_eq!(read_row(columns, &Some(strings(&["yesterday", "1.5", "2"]))), None);
    assert_eq!(read_row(columns, &Some(strings(&["2021/01/01 00:00:00", "-1.5", "2"]))), None);
    assert_eq!(read_row(columns, &Some(strings(&["2021/01/01 00:00:00", "1.5", ""]))), None);
    assert_eq!(make_measurement(Some(1), Some(2), Some(3)), Some(ResultCsv { date: 1, speeds_download: 2, speeds_upload: 3 }));
    assert_eq!(make_measurement(None, Some(2), Some(3)), None);
    assert_eq!(make_measurement(Some(1), None, Some(3)), None);
    assert_eq!(make_measurement(Some(1), Some(2), None), None);
}

#[test]
fn rows_that_do_not_read_are_left_out() {
    let header = Some(strings(&["date", "speeds_download", "speeds_upload"]));
    let records = vec![
        Some(strings(&["2021/01/01 00:00:00", "1", "2"])),
        None,
        Some(strings(&["2021/01/01 01:00:00", "x", "2"])),
        Some(strings(&["2021/01/01 02:00:00", "3", "4"])),
    ];
    let rows = read_rows(&header, &records);
    assert_eq!(
        rows,
        vec![
            ResultCsv {
                date: epoch(0),
                speeds_download: 1_00,
                speeds_upload: 2_00
            },
            ResultCsv {
                date: epoch(2),
                speeds_download: 3_00,
                speeds_upload: 4_00
            },
        ]
    );
    assert_eq!(check_window(rows.clone(), 2), Ok(rows.clone()));
    assert_eq!(check_window(rows.clone(), 3), Err("Error deserializing csv.".to_owned()));
    assert_eq!(check_window(rows, 1), Err("Error deserializing csv.".to_owned()));
    assert_eq!(read_rows(&None, &records), Vec::new());
}

#[test]
fn dates_read_as_seconds_since_the_epoch() {
    assert_eq!(date_time_from_str("1970/01/01 00:00:00"), Some(0));
    assert_eq!(date_time_from_str("2021/01/01 00:00:00"), Some(1609459200));
    assert_eq!(date_time_from_str("2021/01/03 12:10:59"), Some(1609675859));
    assert_eq!(date_time_from_str("1969/12/31 23:59:59"), Some(-1));
    assert_eq!(date_time_from_str("2021-01-01 00:00:00"), None);
    assert_eq!(date_time_from_str("2021/01/01"), None);
    assert_eq!(date_time_from_str("2021/13/01 00:00:00"), None);
    assert_eq!(date_time_from_str("2021/01/01 24:00:00"), None);
    assert_eq!(date_time_from_str(""), None);
}

#[test]
fn figures_read_in_hundredths() {
    assert_eq!(parse_hundredths("0"), Some(0));
    assert_eq!(parse_hundredths("100"), Some(100_00));
    assert_eq!(parse_hundredths("123.45"), Some(123_45));
    assert_eq!(parse_hundredths("123.4"), Some(123_40));
    assert_eq!(parse_hundredths("0.05"), Some(5));
    assert_eq!(parse_hundredths("007.10"), Some(7_10));
    assert_eq!(parse_hundredths("1.234"), Some(1_23));
    assert_eq!(parse_hundredths("1.235"), Some(1_24));
    assert_eq!(parse_hundredths("1.2349999"), Some(1_23));
    assert_eq!(parse_hundredths("0.995"), Some(1_00));
    assert_eq!(parse_hundredths("0.999"), Some(1_00));
    assert_eq!(parse_hundredths("184467440737095516.15"), Some(u64::MAX));
    assert_eq!(parse_hundredths("184467440737095516.16"), None);
    assert_eq!(parse_hundredths("184467440737095516.149"), Some(u64::MAX));
    assert_eq!(parse_hundredths("184467440737095516.155"), None);
    assert_eq!(parse_hundredths("184467440737095517"), None);
    assert_eq!(parse_hundredths("99999999999999999999999999"), None);
    assert_eq!(parse_hundredths(""), None);
    assert_eq!(parse_hundredths("."), None);
    assert_eq!(parse_hundredths("1."), None);
    assert_eq!(parse_hundredths(".5"), None);
    assert_eq!(parse_hundredths("1.2.3"), None);
    assert_eq!(parse_hundredths("-1"), None);
    assert_eq!(parse_hundredths("+1"), None);
    assert_eq!(parse_hundredths("1e3"), None);
    assert_eq!(parse_hundredths(" 1"), None);
    assert_eq!(parse_hundredths("1,5"), None);
    assert_eq!(parse_hundredths("1.5\u{e9}"), None);
    assert_eq!(parse_hundredths("\u{661}"), None);
    assert_eq!(parse_hundredths("null"), None);
}
