use chrono::{TimeZone, Utc};
use trackspeedtest::average::{get_average, Average, ResultCsv};
use trackspeedtest::mean::Mean;

fn at(hour: u32, minute: u32) -> i64 {
    Utc.with_ymd_and_hms(2021, 1, 1, hour, minute, 0).unwrap().timestamp()
}

#[test]
fn average_calculated_with_single_item() {
    assert_eq!(
        Average {
            download: Mean::of(100_00),
            upload: Mean::of(200_00),
            period_in_hours: 0
        },
        get_average(vec![ResultCsv {
            date: Utc::now().timestamp(),
            speeds_download: 100_00,
            speeds_upload: 200_00,
        }])
    );
}

#[test]
fn average_calculated_with_two_items() {
    let average = get_average(vec![
        ResultCsv {
            date: at(0, 0),
            speeds_download: 20_00,
            speeds_upload: 40_00,
        },
        ResultCsv {
            date: at(2, 0),
            speeds_download: 100_00,
            speeds_upload: 200_00,
        },
    ]);
    assert_eq!(average.download.rounded(), 60_00);
    assert_eq!(average.upload.rounded(), 120_00);
    assert_eq!(average.period_in_hours, 2);
    assert_eq!(
        Average {
            download: Mean::new(2 * 60_00, 2).unwrap(),
            upload: Mean::new(2 * 120_00, 2).unwrap(),
            period_in_hours: 2
        },
        average
    );
}

#[test]
fn average_approximate_hours() {
    let average = get_average(vec![
        ResultCsv {
            date: at(0, 0),
            speeds_download: 1_00,
            speeds_upload: 1_00,
        },
        ResultCsv {
            date: at(1, 59),
            speeds_download: 1_00,
            speeds_upload: 1_00,
        },
    ]);
    assert_eq!(average.download.rounded(), 1_00);
    assert_eq!(average.upload.rounded(), 1_00);
    assert_eq!(average.period_in_hours, 2);
}

fn sample(date: i64, download: u64, upload: u64) -> ResultCsv {
    ResultCsv {
        date,
        speeds_download: download,
        speeds_upload: upload,
    }
}

#[test]
fn the_average_does_not_depend_on_the_order() {
    let a = sample(at(3, 0), 10_00, 1_00);
    let b = sample(at(0, 0), 20_50, 2_00);
    let c = sample(at(5, 29), 33_33, 3_33);
    let d = sample(at(1, 0), 0, 0);
    let expected = Average {
        download: Mean::new(63_83, 4).unwrap(),
        upload: Mean::new(6_33, 4).unwrap(),
        period_in_hours: 5,
    };
    let orders = [
        [a, b, c, d],
        [d, c, b, a],
        [b, a, d, c],
        [c, a, b, d],
        [a, d, c, b],
    ];
    for order in orders {
        assert_eq!(get_average(order.to_vec()), expected);
    }
    assert_eq!(expected.download.rounded(), 15_96);
    assert_eq!(expected.upload.rounded(), 1_58);
}

#[test]
fn the_period_is_rounded_to_the_nearest_hour() {
    let hours = |seconds: i64| {
        get_average(vec![sample(1_000_000 + seconds, 1, 1), sample(1_000_000, 1, 1)])
            .period_in_hours
    };
    assert_eq!(hours(0), 0);
    assert_eq!(hours(59), 0);
    assert_eq!(hours(29 * 60 + 59), 0);
    assert_eq!(hours(30 * 60), 1);
    assert_eq!(hours(89 * 60 + 59), 1);
    assert_eq!(hours(90 * 60), 2);
    assert_eq!(hours(119 * 60), 2);
    assert_eq!(hours(150 * 60), 3);
    assert_eq!(hours(24 * 3600), 24);
}

#[test]
fn a_single_measurement_covers_no_time() {
    for date in [i64::MIN, -1, 0, 1_609_459_200, i64::MAX] {
        let average = get_average(vec![sample(date, 5, 6)]);
        assert_eq!(average.period_in_hours, 0);
        assert_eq!(average.download, Mean::of(5));
        assert_eq!(average.upload, Mean::of(6));
    }
}

#[test]
fn the_widest_window_does_not_overflow() {
    let average = get_average(vec![
        sample(i64::MAX, u64::MAX, u64::MAX),
        sample(i64::MIN, u64::MAX, 0),
        sample(0, u64::MAX, 1),
    ]);
    assert_eq!(average.download.total(), 3 * u64::MAX as u128);
    assert_eq!(average.download.rounded(), u64::MAX as u128);
    assert_eq!(average.upload.total(), u64::MAX as u128 + 1);
    assert_eq!(average.period_in_hours, ((u64::MAX / 60 + 30) / 60) as i64);
}
