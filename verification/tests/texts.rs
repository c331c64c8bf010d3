use listing_importer::decimal::{parse_up_to, to_decimal};
use listing_importer::form::{check_submission, closing_message, Submission};
use listing_importer::error::AppError;
use listing_importer::text::{
    contains, is_white_space, remove_char, replace, split, starts_with, trim, trim_end_matches,
    trim_start_matches,
};

#[test]
fn white_space_agrees_with_std_on_every_character() {
    for n in 0u32..=0x10ffff {
        if let Some(c) = char::from_u32(n) {
            assert_eq!(is_white_space(c), c.is_whitespace(), "{:?}", c);
        }
    }
}

#[test]
fn trimming_agrees_with_std() {
    for s in ["", " ", "a", " a ", "\t a b \n", "\u{3000}x\u{a0}", "  \u{2003}  ", "\u{200b}a"] {
        assert_eq!(trim(s), s.trim());
        assert_eq!(trim(&trim(s)), s.trim());
    }
}

#[test]
fn slashes_are_cut_off_like_in_std() {
    for s in ["", "/", "//", "a", "/a", "a/", "//a//b//", "é/"] {
        assert_eq!(trim_end_matches(s, '/'), s.trim_end_matches('/'));
        assert_eq!(trim_start_matches(s, '/'), s.trim_start_matches('/'));
    }
}

#[test]
fn replacing_agrees_with_std() {
    let texts = ["", "a", "aa", "aaa", "abab", "{{url}}{{url}}", "x{{{url}}}", "{{ur{{url}}l}}", "é{{url}}ü"];
    for s in texts {
        for p in ["a", "aa", "ab", "{{url}}", "é"] {
            for w in ["", "b", "aa", "{{url}}"] {
                assert_eq!(replace(s, p, w), s.replace(p, w));
            }
        }
    }
    assert_eq!(replace("aaa", "aa", "b"), "ba");
}

#[test]
fn searching_agrees_with_std() {
    for s in ["", "a", "ab", "abc", "aab", "https://x"] {
        for p in ["", "a", "b", "ab", "abc", "aab", "abcd", "https://"] {
            assert_eq!(contains(s, p), s.contains(p));
            assert_eq!(starts_with(s, p), s.starts_with(p));
        }
        assert_eq!(remove_char(s, 'a'), s.replace('a', ""));
        assert_eq!(split(s, 'a'), s.split('a').collect::<Vec<_>>());
    }
}

#[test]
fn numbers_are_written_like_in_std() {
    for n in [0u64, 1, 9, 10, 99, 100, 101, 1234567890, u64::MAX] {
        assert_eq!(to_decimal(n), n.to_string());
        assert_eq!(parse_up_to(&to_decimal(n), u64::MAX), Some(n));
    }
}

#[test]
fn numbers_are_read_like_in_std() {
    let texts = [
        "", "+", "-", "0", "00", "+0", "-0", "++1", "1+", "2", " 2", "2 ", "007", "12a", "1,2", "1.5",
        "4294967295", "4294967296", "+4294967295", "18446744073709551615", "18446744073709551616",
        "99999999999999999999999", "٣",
    ];
    for s in texts {
        assert_eq!(parse_up_to(s, u64::MAX), s.parse::<u64>().ok(), "{}", s);
        assert_eq!(parse_up_to(s, u32::MAX as u64), s.parse::<u32>().ok().map(u64::from), "{}", s);
    }
}

fn rejected(text: &str) -> String {
    match check_submission(text) {
        Submission::Rejected(reply) => reply,
        Submission::Accepted(url) => panic!("accepted {}", url),
    }
}

fn accepted(text: &str) -> String {
    match check_submission(text) {
        Submission::Rejected(reply) => panic!("rejected: {}", reply),
        Submission::Accepted(url) => url,
    }
}

#[test]
fn empty_submissions_are_rejected() {
    assert_eq!(rejected(""), "Listing URL cannot be empty.\n");
    assert_eq!(rejected(" \t\n"), "Listing URL cannot be empty.\n");
}

#[test]
fn other_addresses_are_rejected() {
    let reply = "Invalid Compass listing URL.\n";
    assert_eq!(rejected("www.compass.com/listing/1"), reply);
    assert_eq!(rejected("ftp://www.compass.com/listing/1"), reply);
    assert_eq!(rejected("https://www.compass.com/agents/1"), reply);
    assert_eq!(rejected("HTTPS://www.compass.com/listing/1"), reply);
}

#[test]
fn listing_addresses_are_accepted_without_white_space() {
    let url = "https://www.compass.com/listing/1-main-st/123/";
    assert_eq!(accepted(&format!("  {}\r\n", url)), url);
    assert_eq!(accepted("http://compass.com/listing/"), "http://compass.com/listing/");
    assert_eq!(accepted(&accepted(url)), url);
}

#[test]
fn the_visitor_is_told_how_the_import_ended() {
    assert_eq!(closing_message(&Ok(())), "Listing created successfully.\n");
    assert_eq!(
        closing_message(&Err(AppError::Parse("Could not extract price".to_string()))),
        "Failed to create listing: Failed to parse data: Could not extract price\n"
    );
}

#[test]
fn every_failure_has_its_words() {
    let t = || "x".to_string();
    assert_eq!(AppError::Request(t()).message(), "Network request failed: x");
    assert_eq!(AppError::Io(t()).message(), "File I/O error: x");
    assert_eq!(AppError::Parse(t()).message(), "Failed to parse data: x");
    assert_eq!(AppError::Config(t()).message(), "Configuration error: x");
    assert_eq!(AppError::Json(t()).message(), "Failed to serialize data: x");
    assert_eq!(
        AppError::Nextcloud { status: 404, body: "gone".to_string() }.message(),
        "Nextcloud server error: 404 Not Found - gone"
    );
    assert_eq!(
        AppError::Nextcloud { status: 599, body: String::new() }.message(),
        "Nextcloud server error: 599 <unknown status code> - "
    );
}

#[test]
fn status_words_agree_with_the_http_library_on_every_status() {
    for status in 100u16..=999 {
        let code = reqwest::StatusCode::from_u16(status).unwrap();
        let e = AppError::Nextcloud { status, body: "b".to_string() };
        assert!(e.is_valid());
        assert_eq!(e.message(), format!("Nextcloud server error: {} - b", code));
        assert!(e.message().starts_with(&format!("Nextcloud server error: {} ", status)));
    }
    assert!(!AppError::Nextcloud { status: 99, body: String::new() }.is_valid());
    assert!(!AppError::Nextcloud { status: 1000, body: String::new() }.is_valid());
}
