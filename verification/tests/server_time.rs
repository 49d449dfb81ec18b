use lemon_colonies_client::server_time::DateTime;

fn parts(t: &DateTime) -> (i64, u8, u8, u8, u8, u8) {
    (t.year, t.month, t.day, t.hour, t.minute, t.second)
}

#[test]
fn epoch_is_the_first_of_january_1970() {
    let t = DateTime::from_unix_secs(0);
    assert_eq!(parts(&t), (1970, 1, 1, 0, 0, 0));
    assert_eq!(t.to_string(), "1970-01-01 00:00:00 UTC");
}

#[test]
fn known_timestamps() {
    assert_eq!(parts(&DateTime::from_unix_secs(1725029869)), (2024, 8, 30, 14, 57, 49));
    assert_eq!(parts(&DateTime::from_unix_secs(2682061)), (1970, 2, 1, 1, 1, 1));
    assert_eq!(parts(&DateTime::from_unix_secs(951782400)), (2000, 2, 29, 0, 0, 0));
    assert_eq!(parts(&DateTime::from_unix_secs(951868799)), (2000, 2, 29, 23, 59, 59));
    assert_eq!(parts(&DateTime::from_unix_secs(253402300799)), (9999, 12, 31, 23, 59, 59));
    assert_eq!(parts(&DateTime::from_unix_secs(-62135596800)), (1, 1, 1, 0, 0, 0));
}

#[test]
fn negative_timestamps_lie_before_1970() {
    let t = DateTime::from_unix_secs(-1);
    assert_eq!(parts(&t), (1969, 12, 31, 23, 59, 59));
    let t = DateTime::from_unix_secs(-62135596801);
    assert_eq!(parts(&t), (0, 12, 31, 23, 59, 59));
    let t = DateTime::from_unix_secs(-62167219201);
    assert_eq!(parts(&t), (-1, 12, 31, 23, 59, 59));
    assert_eq!(t.to_string(), "-1-12-31 23:59:59 UTC");
}

#[test]
fn extreme_timestamps_do_not_overflow() {
    let lo = DateTime::from_unix_secs(i64::MIN);
    assert!((1..=12).contains(&lo.month));
    let hi = DateTime::from_unix_secs(i64::MAX);
    assert!((1..=12).contains(&hi.month));
    assert!(hi.year > 292_000_000_000);
    assert!(lo.year < -292_000_000_000);
}

#[test]
fn to_string_pads_to_two_digits() {
    let t = DateTime { year: 2024, month: 3, day: 7, hour: 4, minute: 5, second: 9 };
    assert_eq!(t.to_string(), "2024-03-07 04:05:09 UTC");
    let t = DateTime { year: 123, month: 12, day: 31, hour: 23, minute: 59, second: 58 };
    assert_eq!(t.to_string(), "123-12-31 23:59:58 UTC");
    let t = DateTime { year: i64::MIN, month: 1, day: 1, hour: 0, minute: 0, second: 0 };
    assert_eq!(t.to_string(), "-9223372036854775808-01-01 00:00:00 UTC");
}
