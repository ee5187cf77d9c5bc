use market_feed::clock::{display_time, format_time};

#[test]
fn formats_local_time_of_day() {
    assert_eq!(format_time(0), "03:00:00");
    assert_eq!(format_time(1_700_000_000), "01:13:20");
    assert_eq!(format_time(75_600), "00:00:00");
    assert_eq!(format_time(253_402_300_799), "02:59:59");
    assert_eq!(format_time(8_210_266_876_799), "02:59:59");
}

#[test]
fn out_of_range_time_is_empty() {
    assert_eq!(display_time(-1), "");
    assert_eq!(display_time(8_210_266_876_800), "");
    assert_eq!(display_time(59), "03:00:59");
}
