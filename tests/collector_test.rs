use rust_short_url::collector::{
    classify_browser, classify_device, extract_browser, extract_device_type, extract_header_text,
    extract_ip, extract_language, format_location, is_valid_ip, parse_u8,
};
use rust_short_url::textsearch::{contains, segment_before};

const FIREFOX_WINDOWS: &str =
    "Mozilla/5.0 (Windows NT 10.0; Win64; x64; rv:109.0) Gecko/20100101 Firefox/115.0";
const CHROME_ANDROID: &str = "Mozilla/5.0 (Linux; Android 10; K) AppleWebKit/537.36 (KHTML, like Gecko) Chrome/120.0.0.0 Mobile Safari/537.36";
const EDGE: &str = "Mozilla/5.0 (Windows NT 10.0; Win64; x64) AppleWebKit/537.36 (KHTML, like Gecko) Chrome/120.0.0.0 Safari/537.36 Edg/120.0.0.0";
const SAFARI_IPAD: &str = "Mozilla/5.0 (iPad; CPU OS 17_0 like Mac OS X) AppleWebKit/605.1.15 (KHTML, like Gecko) Version/17.0 Safari/604.1";

#[test]
fn language_is_first_entry() {
    assert_eq!(extract_language(Some("en-US,en;q=0.5")), Some(String::from("en-US")));
    assert_eq!(extract_language(Some("de")), Some(String::from("de")));
    assert_eq!(extract_language(Some("")), Some(String::new()));
    assert_eq!(extract_language(None), None);
}

#[test]
fn browsers_are_recognised() {
    assert_eq!(extract_browser(Some(FIREFOX_WINDOWS)), Some(String::from("Firefox")));
    assert_eq!(extract_browser(Some(CHROME_ANDROID)), Some(String::from("Chrome")));
    assert_eq!(extract_browser(Some(EDGE)), Some(String::from("Microsoft Edge")));
    assert_eq!(extract_browser(Some(SAFARI_IPAD)), Some(String::from("Safari")));
    assert_eq!(extract_browser(Some("Opera/9.80")), Some(String::from("Opera")));
    assert_eq!(extract_browser(Some("Chromium/90.0")), Some(String::from("Chromium")));
    assert_eq!(extract_browser(Some("Mozilla/4.0 (compatible; MSIE 8.0)")), Some(String::from("Internet Explorer")));
    assert_eq!(extract_browser(Some("curl/8.0")), Some(String::from("Unknown")));
    assert_eq!(extract_browser(None), None);
}

#[test]
fn browser_match_ignores_case() {
    // Only the lower-cased agent is searched.
    assert_eq!(extract_browser(Some("FIREFOX/1")), Some(String::from("Firefox")));
    assert_eq!(classify_browser("FIREFOX/1"), "Unknown");
}

#[test]
fn devices_are_recognised() {
    assert_eq!(extract_device_type(Some(FIREFOX_WINDOWS)), Some(String::from("Desktop")));
    assert_eq!(extract_device_type(Some(CHROME_ANDROID)), Some(String::from("Mobile")));
    assert_eq!(extract_device_type(Some(SAFARI_IPAD)), Some(String::from("Tablet")));
    assert_eq!(extract_device_type(Some("Mozilla/5.0 (SMART-TV; Linux)")), Some(String::from("Smart TV")));
    assert_eq!(extract_device_type(Some("Mozilla/5.0 (PlayStation 5)")), Some(String::from("Gaming Console")));
    assert_eq!(extract_device_type(Some("Googlebot/2.1")), Some(String::from("Bot")));
    assert_eq!(classify_device("windows phone 8"), "Mobile");
    assert_eq!(extract_device_type(None), None);
}

#[test]
fn header_text_is_copied() {
    assert_eq!(extract_header_text(Some("https://example.org/")), Some(String::from("https://example.org/")));
    assert_eq!(extract_header_text(None), None);
}

#[test]
fn ipv4_addresses() {
    assert!(is_valid_ip("192.1.1.1"));
    assert!(is_valid_ip("0.0.0.0"));
    assert!(is_valid_ip("255.255.255.255"));
    assert!(is_valid_ip("+1.2.3.4"));
    assert!(!is_valid_ip("256.1.1.1"));
    assert!(!is_valid_ip("1.2.3"));
    assert!(!is_valid_ip("a.b.c.d"));
    assert!(!is_valid_ip(""));
    // Four parts that read as bytes suffice, whatever else stands between dots.
    assert!(is_valid_ip("1.2.3.4.x"));
    assert!(!is_valid_ip("1.2.3.4.5"));
}

#[test]
fn ipv6_addresses() {
    assert!(is_valid_ip("::1"));
    assert!(is_valid_ip("2001:db8::ff00:42:8329"));
    assert!(!is_valid_ip("fe80:1"));
    assert!(!is_valid_ip("2001:db8::zz"));
}

#[test]
fn byte_parts() {
    assert!(parse_u8("0"));
    assert!(parse_u8("007"));
    assert!(parse_u8("+9"));
    assert!(!parse_u8("+"));
    assert!(!parse_u8(""));
    assert!(!parse_u8("300"));
    assert!(!parse_u8("-1"));
}

#[test]
fn ip_header_priority() {
    assert_eq!(
        extract_ip(Some("1.1.1.1"), Some("2.2.2.2"), None, None, None),
        Some(String::from("1.1.1.1"))
    );
    assert_eq!(
        extract_ip(Some("bogus"), Some(" 2.2.2.2 "), Some("3.3.3.3"), None, None),
        Some(String::from("2.2.2.2"))
    );
    assert_eq!(
        extract_ip(None, None, None, Some("192.1.1.1, 10.0.0.1"), Some("4.4.4.4")),
        Some(String::from("192.1.1.1"))
    );
    assert_eq!(extract_ip(None, None, Some(""), None, Some(" 4.4.4.4")), Some(String::from("4.4.4.4")));
    assert_eq!(extract_ip(None, None, None, Some("junk"), Some("nope")), None);
    assert_eq!(extract_ip(None, None, None, None, None), None);
}

#[test]
fn location_text() {
    assert_eq!(format_location("Cambridge", "United States"), "Cambridge, United States");
}

#[test]
fn substring_search() {
    assert!(contains("hello world", "o w"));
    assert!(contains("abc", ""));
    assert!(!contains("abc", "abcd"));
    assert!(!contains("abc", "cb"));
    assert_eq!(segment_before("a,b,c", ','), "a");
    assert_eq!(segment_before("abc", ','), "abc");
}
