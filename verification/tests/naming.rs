use dlfast::disposition::{decode_rfc5987, detect_filename, parse_content_disposition};
use dlfast::sanitize::{is_reserved_name, sanitize_filename};
use dlfast::urlinfo::{infer_filename_from_url, validate_url, UrlError};

#[test]
fn sanitize_is_idempotent_on_ordinary_names() {
    for input in ["  a<b>.txt ", "fi:le?.txt", "plain.bin", "..dots..", "a|b\\c"] {
        let once = sanitize_filename(input);
        assert_eq!(sanitize_filename(&once), once);
    }
}

#[test]
fn sanitize_replaces_every_dangerous_character() {
    assert_eq!(sanitize_filename("a<b>c:d\"e/f\\g|h?i*j"), "a_b_c_d_e_f_g_h_i_j");
    assert_eq!(sanitize_filename("??"), "__");
}

#[test]
fn reserved_names_are_detected_case_insensitively() {
    assert!(is_reserved_name("CON"));
    assert!(is_reserved_name("con"));
    assert!(is_reserved_name("CoN"));
    assert!(is_reserved_name("prn"));
    assert!(is_reserved_name("AUX"));
    assert!(is_reserved_name("nul"));
    assert!(is_reserved_name("COM1"));
    assert!(is_reserved_name("com9"));
    assert!(is_reserved_name("LpT5"));
    assert!(!is_reserved_name("COM0"));
    assert!(!is_reserved_name("console"));
    assert!(!is_reserved_name("CONN"));
    assert!(!is_reserved_name("LPT"));
}

#[test]
fn reserved_and_empty_names_fall_back_to_generated_ones() {
    assert!(sanitize_filename("lpt7").starts_with("download_"));
    assert!(sanitize_filename("").starts_with("download_"));
    assert!(sanitize_filename(" .. . ").starts_with("download_"));
}

#[test]
fn validate_url_reports_the_reason() {
    assert_eq!(validate_url(""), Err(UrlError::Empty));
    assert_eq!(validate_url("invalid"), Err(UrlError::InvalidFormat));
    assert_eq!(validate_url("ssh://example.com"), Err(UrlError::UnsupportedScheme));
    assert!(validate_url("HTTPS://Example.COM").is_ok());
    assert_eq!(
        UrlError::MissingHost.message(),
        "URL must contain a host"
    );
    assert_eq!(UrlError::Empty.message(), "URL cannot be empty");
}

#[test]
fn inference_falls_back_by_url_shape() {
    assert_eq!(infer_filename_from_url("https://example.com/a/b/c.txt"), "c.txt");
    assert!(infer_filename_from_url("not a url").starts_with("download_error_"));
    assert!(infer_filename_from_url("https://example.com").starts_with("download_from_example.com_"));
    assert!(infer_filename_from_url("mailto:someone@example.com").starts_with("downloaded_file_"));
}

#[test]
fn content_disposition_prefers_the_extended_parameter() {
    assert_eq!(
        parse_content_disposition("attachment; filename=\"file.txt\""),
        Some("file.txt".to_string())
    );
    assert_eq!(
        parse_content_disposition("attachment; filename*=UTF-8''na%20me.zip"),
        Some("na me.zip".to_string())
    );
    assert_eq!(
        parse_content_disposition("attachment; filename*=UTF-8''enc%2Bplus.bin; filename=\"plain.bin\""),
        Some("enc+plus.bin".to_string())
    );
    assert_eq!(parse_content_disposition("inline"), None);
    assert_eq!(
        parse_content_disposition("attachment; filename = spaced.iso ;"),
        Some("spaced.iso".to_string())
    );
    // Only whitespace between the `=` and the `;`: the capture is that
    // whitespace, and stripping leaves an empty name.
    assert_eq!(
        parse_content_disposition("attachment; filename= ;"),
        Some("".to_string())
    );
    assert_eq!(parse_content_disposition("attachment; filename=;"), None);
}

#[test]
fn extended_parameter_decoding_needs_two_apostrophes() {
    assert_eq!(decode_rfc5987("UTF-8''hello.txt"), Some("hello.txt".to_string()));
    assert_eq!(decode_rfc5987("UTF-8'en'h%c3%a9llo.txt"), Some("héllo.txt".to_string()));
    assert_eq!(decode_rfc5987("UTF-8''a+b"), Some("a b".to_string()));
    assert_eq!(decode_rfc5987("noapostrophes"), None);
    assert_eq!(decode_rfc5987("UTF-8'onlyone"), None);
    assert_eq!(decode_rfc5987("UTF-8''"), None);
}

#[test]
fn detection_uses_the_header_before_the_url() {
    assert_eq!(
        detect_filename("https://example.com/x.bin", Some("attachment; filename=\"y.bin\"")),
        "y.bin"
    );
    assert_eq!(detect_filename("https://example.com/x.bin", None), "x.bin");
    assert_eq!(detect_filename("https://example.com/x.bin", Some("inline")), "x.bin");
    // A header-borne name is sanitized like any other.
    assert_eq!(
        detect_filename("https://example.com/x.bin", Some("attachment; filename=\"a:b.bin\"")),
        "a_b.bin"
    );
}
