use recent_move::digits::to_decimal;
use recent_move::file_info::FileInfo;
use recent_move::size_format::format_size;
use recent_move::text::{contains_substring, name_excluded, pad_to};
use recent_move::time_format::format_hhmm;

#[test]
fn decimal_rendering() {
    assert_eq!(to_decimal(0), "0");
    assert_eq!(to_decimal(7), "7");
    assert_eq!(to_decimal(1234), "1234");
    assert_eq!(to_decimal(18446744073709551615), "18446744073709551615");
}

#[test]
fn size_zero_bytes() {
    assert_eq!(format_size(0), "0B");
}

#[test]
fn size_just_below_one_kilobyte() {
    assert_eq!(format_size(1023), "1023B");
}

#[test]
fn size_exactly_one_kilobyte() {
    assert_eq!(format_size(1024), "1.0KB");
}

#[test]
fn size_one_and_a_half_kilobytes() {
    assert_eq!(format_size(1536), "1.5KB");
}

#[test]
fn size_exactly_one_megabyte() {
    assert_eq!(format_size(1048576), "1.0MB");
}

#[test]
fn size_rounds_to_nearest_tenth() {
    // 1000000 / 1024 = 976.5625, shown to one decimal
    assert_eq!(format_size(1000000), "976.6KB");
    // 1280 / 1024 = 1.25: the tie goes to the even tenth, as float
    // formatting would have it
    assert_eq!(format_size(1280), "1.2KB");
}

#[test]
fn size_larger_units() {
    assert_eq!(format_size(1073741824), "1.0GB");
    assert_eq!(format_size(1099511627776), "1.0TB");
    assert_eq!(format_size(3 * 1099511627776 / 2), "1.5TB");
}

#[test]
fn hhmm_of_epoch_morning() {
    // 10:05 UTC on the epoch day
    assert_eq!(format_hhmm(36300, 0), "10:05");
    assert_eq!(format_hhmm(0, 0), "00:00");
}

#[test]
fn hhmm_with_negative_offset_wraps_to_previous_day() {
    assert_eq!(format_hhmm(100, -3600), "23:01");
}

#[test]
fn hhmm_with_positive_offset() {
    assert_eq!(format_hhmm(36300, 3600), "11:05");
}

#[test]
fn padding_fills_with_spaces() {
    assert_eq!(pad_to("ab", 5), "ab   ");
    assert_eq!(pad_to("abcdef", 3), "abcdef");
    assert_eq!(pad_to("", 2), "  ");
}

#[test]
fn substring_search() {
    assert!(contains_substring("hello.tmp", "tmp"));
    assert!(contains_substring("anything", ""));
    assert!(!contains_substring("report", "tmp"));
    assert!(contains_substring("abc", "abc"));
    assert!(!contains_substring("ab", "abc"));
}

#[test]
fn hidden_and_blacklisted_names() {
    let black_list = vec![String::from("tmp"), String::from("~")];
    assert!(name_excluded(".bashrc", &black_list));
    assert!(name_excluded("work.tmp", &black_list));
    assert!(name_excluded("draft~", &black_list));
    assert!(!name_excluded("report.pdf", &black_list));
    assert!(!name_excluded("report.pdf", &Vec::new()));
}

#[test]
fn rendered_line_is_aligned() {
    let f = FileInfo {
        path: String::from("/downloads/a.txt"),
        name: String::from("a.txt"),
        size: 100,
        created_time: String::from("10:05"),
        created_timestamp: 36300,
        time_width: 7,
        size_width: 7,
    };
    assert_eq!(f.render_line(), "10:05   100B    a.txt");
}
