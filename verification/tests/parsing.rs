use zpool_exporter::device::{Device, IoStats, ParseError};
use zpool_exporter::text::{parse_u64, split_on, str_contains};

#[test]
fn split_keeps_empty_fields() {
    let parts = split_on("a\tb\t", '\t');
    assert_eq!(parts, vec!["a".to_string(), "b".to_string(), "".to_string()]);
}

#[test]
fn split_of_empty_text_is_one_empty_field() {
    let parts = split_on("", '\t');
    assert_eq!(parts, vec!["".to_string()]);
}

#[test]
fn parse_u64_plain_values() {
    assert_eq!(parse_u64("0"), Some(0));
    assert_eq!(parse_u64("1000"), Some(1000));
    assert_eq!(parse_u64("18446744073709551615"), Some(u64::MAX));
}

#[test]
fn parse_u64_rejects_bad_input() {
    assert_eq!(parse_u64(""), None);
    assert_eq!(parse_u64("12a"), None);
    assert_eq!(parse_u64("-3"), None);
    assert_eq!(parse_u64("18446744073709551616"), None);
}

#[test]
fn str_contains_finds_substrings() {
    assert!(str_contains("/dev/sda1", "sda"));
    assert!(!str_contains("/dev/sdb1", "sda"));
    assert!(str_contains("abc", ""));
    assert!(!str_contains("ab", "abc"));
}

#[test]
fn row_with_zero_allocation_is_disk_level() {
    let d = Device::parse_row("sda\t0\t0\t5\t2\t500\t200").unwrap();
    assert_eq!(d.name, "sda");
    assert_eq!(d.io_stats.capacity, None);
    assert_eq!(d.io_stats.available, None);
    assert_eq!(d.io_stats.read_op, 5);
    assert_eq!(d.io_stats.write_op, 2);
    assert_eq!(d.io_stats.read_band, 500);
    assert_eq!(d.io_stats.write_band, 200);
    assert!(!d.is_pool_or_vdev());
}

#[test]
fn row_with_nonzero_allocation_is_pool_or_vdev_level() {
    let d = Device::parse_row("tank\t1000\t4000\t10\t5\t1000\t500").unwrap();
    assert_eq!(d.io_stats.capacity, Some(1000));
    assert_eq!(d.io_stats.available, Some(4000));
    assert!(d.is_pool_or_vdev());
}

#[test]
fn zero_available_is_kept_on_pool_level_rows() {
    let d = Device::parse_row("tank\t1000\t0\t0\t0\t0\t0").unwrap();
    assert_eq!(d.io_stats.capacity, Some(1000));
    assert_eq!(d.io_stats.available, Some(0));
}

#[test]
fn wrong_field_count_is_malformed() {
    let r = Device::parse_row("tank\t1000\t4000\t10\t5\t1000");
    assert_eq!(r, Err(ParseError::MalformedRow));
}

#[test]
fn empty_field_is_malformed() {
    let r = Device::parse_row("tank\t\t4000\t10\t5\t1000\t500");
    assert_eq!(r, Err(ParseError::MalformedRow));
}

#[test]
fn non_numeric_field_is_a_numeric_parse_failure() {
    let r = Device::parse_row("tank\talloc\t4000\t10\t5\t1000\t500");
    assert_eq!(r, Err(ParseError::NumericParseFailure));
}

#[test]
fn malformed_rows_are_dropped_from_the_listing() {
    let text = "header line\ntank\t1000\t4000\t10\t5\t1000\t500\n".to_string();
    let devices = Device::parse_from_stdout(text).unwrap();
    assert_eq!(devices.len(), 1);
    assert_eq!(devices[0].name, "tank");
}

#[test]
fn numeric_failure_fails_the_whole_listing() {
    let text = "tank\t1000\t4000\t10\t5\t1000\t500\nsda\t0\t0\tbad\t2\t500\t200".to_string();
    let r = Device::parse_from_stdout(text);
    assert_eq!(r, Err(ParseError::NumericParseFailure));
}

#[test]
fn empty_listing_parses_to_no_devices() {
    let devices = Device::parse_from_stdout(String::new()).unwrap();
    assert!(devices.is_empty());
}

#[test]
fn parsing_twice_gives_identical_records() {
    let text = "tank\t1000\t4000\t10\t5\t1000\t500\nsda\t0\t0\t5\t2\t500\t200";
    let a = Device::parse_from_stdout(text.to_string()).unwrap();
    let b = Device::parse_from_stdout(text.to_string()).unwrap();
    assert_eq!(a, b);
}

#[test]
fn iostats_new_keeps_its_fields() {
    let s = IoStats::new(Some(7), Some(8), 1, 2, 3, 4);
    assert_eq!(s.capacity, Some(7));
    assert_eq!(s.available, Some(8));
    assert_eq!(s.read_op, 1);
    assert_eq!(s.write_op, 2);
    assert_eq!(s.read_band, 3);
    assert_eq!(s.write_band, 4);
}
