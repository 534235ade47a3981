use media_transfer::link::extract_url;
use media_transfer::num::parse_i32;

#[test]
fn url_before_cjk_text() {
    let got = extract_url("预览 https://x.test/a.jpg 谢谢");
    assert_eq!(got, Some(String::from("https://x.test/a.jpg")));
}

#[test]
fn url_stops_at_cjk_without_space() {
    let got = extract_url("https://x.test/a.jpg谢谢");
    assert_eq!(got, Some(String::from("https://x.test/a.jpg")));
}

#[test]
fn no_link_yields_nothing() {
    assert_eq!(extract_url("no link here"), None);
}

#[test]
fn plain_http_scheme() {
    assert_eq!(extract_url("see http://a/b end"), Some(String::from("http://a/b")));
}

#[test]
fn scheme_without_body_is_no_match() {
    assert_eq!(extract_url("http:// and nothing"), None);
    assert_eq!(extract_url("https://"), None);
}

#[test]
fn first_of_two_urls_wins() {
    assert_eq!(extract_url("http://a http://b"), Some(String::from("http://a")));
}

#[test]
fn url_found_mid_word() {
    assert_eq!(extract_url("xhttps://a"), Some(String::from("https://a")));
}

#[test]
fn parse_i32_accepts_plain_and_signed() {
    assert_eq!(parse_i32("0"), Some(0));
    assert_eq!(parse_i32("+42"), Some(42));
    assert_eq!(parse_i32("-5"), Some(-5));
    assert_eq!(parse_i32("00012"), Some(12));
    assert_eq!(parse_i32("2147483647"), Some(2147483647));
    assert_eq!(parse_i32("-2147483648"), Some(-2147483648));
}

#[test]
fn parse_i32_rejects_malformed_and_overflow() {
    assert_eq!(parse_i32(""), None);
    assert_eq!(parse_i32("+"), None);
    assert_eq!(parse_i32("-"), None);
    assert_eq!(parse_i32("1e3"), None);
    assert_eq!(parse_i32(" 5"), None);
    assert_eq!(parse_i32("2147483648"), None);
    assert_eq!(parse_i32("-2147483649"), None);
    assert_eq!(parse_i32("99999999999999999999"), None);
}
