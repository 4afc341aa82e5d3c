use dlfast::progress::parse_aria2_progress;
use dlfast::sanitize::sanitize_filename;
use dlfast::urlinfo::{infer_filename_from_url, validate_url};

#[test]
fn test_sanitize_filename() {
    assert_eq!(sanitize_filename("normal.txt"), "normal.txt");
    assert_eq!(sanitize_filename("fi:le?.txt"), "fi_le_.txt");
    assert_eq!(sanitize_filename("  spaces.txt  "), "spaces.txt");
    assert_eq!(sanitize_filename("CON"), sanitize_filename("CON"));
    assert!(sanitize_filename("CON").starts_with("download_"));
}

#[test]
fn test_validate_url() {
    assert!(validate_url("https://google.com").is_ok());
    assert!(validate_url("ftp://example.com/file").is_ok());
    assert!(validate_url("invalid").is_err());
    assert!(validate_url("ssh://example.com").is_err());
}

#[test]
fn test_infer_filename_from_url() {
    assert_eq!(infer_filename_from_url("https://example.com/file.zip"), "file.zip");
    assert_eq!(
        infer_filename_from_url("https://example.com/path/to/file.tar.gz"),
        "file.tar.gz"
    );

    assert!(infer_filename_from_url("https://example.com/").starts_with("download_from_example.com"));
}

#[test]
fn test_parse_aria2_progress() {
    let line = "[#2089b0 1000B/2000B(50%) CN:1 DL:115KiB]";
    assert_eq!(parse_aria2_progress(line), Some((1000, 2000)));

    assert_eq!(parse_aria2_progress("Some random output"), None);

    assert_eq!(parse_aria2_progress("[#2089b0 1000B/"), None);
}

#[test]
fn progress_numbers_are_bounded_by_u64() {
    assert_eq!(
        parse_aria2_progress("[#a 18446744073709551615B/1B(0%)"),
        Some((u64::MAX, 1))
    );
    assert_eq!(parse_aria2_progress("[#a 18446744073709551616B/1B(0%)"), None);
    // The leftmost shape counts even when its number overflows: a later,
    // well-formed shape does not rescue the line.
    assert_eq!(
        parse_aria2_progress("[#a 99999999999999999999B/1B(0%) [#b 1B/2B(0%)"),
        None
    );
}

#[test]
fn the_progress_shape_may_start_anywhere_in_the_line() {
    assert_eq!(parse_aria2_progress("x [#1f 7B/9B(77%)]"), Some((7, 9)));
    assert_eq!(parse_aria2_progress("[#1f 7B/9B(77%"), None);
    assert_eq!(parse_aria2_progress("[# 7B/9B(77%)"), None);
    assert_eq!(parse_aria2_progress("[#1f7B/9B(77%)"), None);
}
