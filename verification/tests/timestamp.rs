use network_decisions::calendar::civil_from_days;
use network_decisions::text::{push_zero_padded, same_text};
use network_decisions::timestamp::{rfc3339_millis, timestamp_of_reading, utc_timestamp};

#[test]
fn rfc3339_known_epoch() {
    assert_eq!(rfc3339_millis(0, 0), "1970-01-01T00:00:00.000Z");
    assert_eq!(
        rfc3339_millis(1_700_000_000, 123),
        "2023-11-14T22:13:20.123Z"
    );
}

#[test]
fn dates_of_single_days() {
    assert_eq!(civil_from_days(0), (1970, 1, 1));
    assert_eq!(civil_from_days(-1), (1969, 12, 31));
    assert_eq!(civil_from_days(59), (1970, 3, 1));
    assert_eq!(civil_from_days(11_016), (2000, 2, 29));
    assert_eq!(civil_from_days(11_017), (2000, 3, 1));
    assert_eq!(civil_from_days(-25_509), (1900, 2, 28));
    assert_eq!(civil_from_days(-25_508), (1900, 3, 1));
    assert_eq!(civil_from_days(19_782), (2024, 2, 29));
    assert_eq!(civil_from_days(-719_468), (0, 3, 1));
    assert_eq!(civil_from_days(-719_469), (0, 2, 29));
    assert_eq!(civil_from_days(2_932_896), (9999, 12, 31));
}

#[test]
fn days_follow_one_another_through_the_calendar() {
    let (mut year, mut month, mut day): (i32, u32, u32) = (1970, 1, 1);
    for number in 0..200_000i64 {
        assert_eq!(civil_from_days(number), (year, month, day));
        let leap = year % 4 == 0 && (year % 100 != 0 || year % 400 == 0);
        let length = match month {
            2 if leap => 29,
            2 => 28,
            4 | 6 | 9 | 11 => 30,
            _ => 31,
        };
        day += 1;
        if day > length {
            day = 1;
            month += 1;
        }
        if month > 12 {
            month = 1;
            year += 1;
        }
    }
}

#[test]
fn years_outside_four_digits() {
    assert_eq!(rfc3339_millis(-1, 999), "1969-12-31T23:59:59.999Z");
    assert_eq!(
        rfc3339_millis(253_402_300_799, 0),
        "9999-12-31T23:59:59.000Z"
    );
    assert_eq!(
        rfc3339_millis(253_402_300_800, 0),
        "10000-01-01T00:00:00.000Z"
    );
    assert_eq!(
        rfc3339_millis(-62_167_219_200, 0),
        "0000-01-01T00:00:00.000Z"
    );
    assert_eq!(
        rfc3339_millis(-62_167_219_201, 0),
        "-001-12-31T23:59:59.000Z"
    );
}

#[test]
fn the_year_is_reduced_to_32_bits() {
    let date = civil_from_days(i64::MAX / 86_400);
    let text = rfc3339_millis(i64::MAX, 7);
    assert!(text.starts_with(&format!("{:04}-{:02}-{:02}T", date.0, date.1, date.2)));
    assert!(text.ends_with("Z"));
    assert_eq!(date.0, 292_277_026_596i64 as i32);
}

#[test]
fn a_millisecond_count_over_a_second_is_written_in_full() {
    assert_eq!(rfc3339_millis(0, 12_345), "1970-01-01T00:00:00.12345Z");
}

#[test]
fn a_clock_before_the_epoch_reads_as_the_epoch() {
    assert_eq!(timestamp_of_reading(None), "1970-01-01T00:00:00.000Z");
    assert_eq!(
        timestamp_of_reading(Some((1_700_000_000, 5))),
        "2023-11-14T22:13:20.005Z"
    );
    assert_eq!(
        timestamp_of_reading(Some((u64::MAX, 0))),
        "1969-12-31T23:59:59.000Z"
    );
}

#[test]
fn the_present_is_a_timestamp_of_this_age() {
    let now = utc_timestamp();
    assert_eq!(now.len(), 24);
    assert!(now.as_str() > "2024-01-01T00:00:00.000Z");
    assert!(now.as_str() < "9999-01-01T00:00:00.000Z");
    let marks: Vec<char> = now.chars().filter(|c| !c.is_ascii_digit()).collect();
    assert_eq!(marks, vec!['-', '-', 'T', ':', ':', '.', 'Z']);
}

#[test]
fn numbers_are_padded_with_zeros() {
    let mut out = String::from("x");
    push_zero_padded(&mut out, 7, 3);
    push_zero_padded(&mut out, 0, 0);
    push_zero_padded(&mut out, 1234, 2);
    push_zero_padded(&mut out, u64::MAX, 1);
    assert_eq!(out, "x0070123418446744073709551615");
}

#[test]
fn texts_are_compared_by_content() {
    assert!(same_text("a", &String::from("a")));
    assert!(!same_text("a", "A"));
    assert!(!same_text("a", "ab"));
}

#[test]
fn moments_a_millisecond_apart_have_different_timestamps() {
    assert_eq!(rfc3339_millis(59, 999), "1970-01-01T00:00:59.999Z");
    assert_eq!(rfc3339_millis(60, 0), "1970-01-01T00:01:00.000Z");
    assert_ne!(rfc3339_millis(86_399, 999), rfc3339_millis(86_400, 0));
    assert_ne!(rfc3339_millis(86_400, 0), rfc3339_millis(86_400, 1));
}

#[test]
fn timestamps_sort_as_their_moments() {
    let moments: [(i64, u32); 14] = [
        (-62_167_219_200, 0),
        (-62_167_219_200, 1),
        (-1, 999),
        (0, 0),
        (0, 9),
        (0, 10),
        (59, 999),
        (60, 0),
        (3_599, 0),
        (3_600, 0),
        (86_399, 999),
        (86_400, 0),
        (1_700_000_000, 123),
        (253_402_300_799, 999),
    ];
    for i in 0..moments.len() {
        for j in 0..moments.len() {
            let first = rfc3339_millis(moments[i].0, moments[i].1);
            let second = rfc3339_millis(moments[j].0, moments[j].1);
            assert_eq!(first < second, i < j);
        }
    }
    assert!(rfc3339_millis(253_402_300_800, 0) < rfc3339_millis(253_402_300_799, 999));
}

#[test]
fn the_clock_is_read_at_each_call() {
    let unix = || {
        std::time::SystemTime::now()
            .duration_since(std::time::UNIX_EPOCH)
            .unwrap()
    };
    let before = unix();
    let now = utc_timestamp();
    let after = unix();
    assert!(rfc3339_millis(before.as_secs() as i64, before.subsec_millis()) <= now);
    assert!(now <= rfc3339_millis(after.as_secs() as i64, after.subsec_millis()));
}
