use webbit::html::{insert_html_header, HeaderError};
use webbit::text::{decimal, lines, parse_usize, str_eq};

const PAGE: &str = "<!DOCTYPE html><html xmlns=\"http://www.w3.org/1999/xhtml\"><head><title>x</title></head></html>";

#[test]
fn insert_header_after_head() {
    let out = insert_html_header(PAGE, "<script></script>").unwrap();
    assert_eq!(
        out,
        "<!DOCTYPE html><html xmlns=\"http://www.w3.org/1999/xhtml\"><head><script></script><title>x</title></head></html>"
    );
}

#[test]
fn insert_header_allows_some_whitespace() {
    let page = "  \n<!DOCTYPE html>\t<html xmlns=\"http://www.w3.org/1999/xhtml\">\r\n<head>body";
    let out = insert_html_header(page, "H").unwrap();
    assert_eq!(
        out,
        "<!DOCTYPE html><html xmlns=\"http://www.w3.org/1999/xhtml\"><head>Hbody"
    );
}

#[test]
fn insert_header_refuses_eight_spaces() {
    let page = "        <!DOCTYPE html><html xmlns=\"http://www.w3.org/1999/xhtml\"><head>";
    let err = insert_html_header(page, "").unwrap_err();
    assert_eq!(err, HeaderError::TooMuchWhitespace);
    assert_eq!(err.message(), "too much whitespace");
    // seven are still fine
    assert!(insert_html_header(&page[1..], "").is_ok());
}

#[test]
fn insert_header_reports_missing_fragment() {
    let page = "<!DOCTYPE html><html><head>";
    let err = insert_html_header(page, "").unwrap_err();
    assert_eq!(
        err,
        HeaderError::Missing { expected: 1, got: "<html><head>".to_string() }
    );
    assert_eq!(
        err.message(),
        "Missing <html xmlns=\"http://www.w3.org/1999/xhtml\"> - got <html><head>"
    );
    let err = insert_html_header("hello", "").unwrap_err();
    assert_eq!(err.message(), "Missing <!DOCTYPE html> - got hello");
}

#[test]
fn reinsert_puts_new_fragment_first() {
    let once = insert_html_header(PAGE, "A").unwrap();
    let twice = insert_html_header(&once, "B").unwrap();
    assert_eq!(
        twice,
        "<!DOCTYPE html><html xmlns=\"http://www.w3.org/1999/xhtml\"><head>BA<title>x</title></head></html>"
    );
}

#[test]
fn parse_usize_like_std() {
    for s in ["0", "42", "+7", "", "+", "-1", "12a", " 3", "18446744073709551615", "18446744073709551616"] {
        assert_eq!(parse_usize(s), s.parse::<usize>().ok(), "input {s:?}");
    }
}

#[test]
fn decimal_text() {
    assert_eq!(decimal(0), "0");
    assert_eq!(decimal(7), "7");
    assert_eq!(decimal(1234567890), "1234567890");
    assert_eq!(decimal(u64::MAX), u64::MAX.to_string());
}

#[test]
fn lines_like_std() {
    for s in ["", "a", "a\nb", "a\r\nb\n", "\n", "\n\n", "a\r", "x\ry\nz", "\r\n"] {
        let mine = lines(s);
        let std: Vec<String> = s.lines().map(|l| l.to_string()).collect();
        assert_eq!(mine, std, "input {s:?}");
    }
}

#[test]
fn str_eq_compares_text() {
    assert!(str_eq("mode", "mode"));
    assert!(!str_eq("mode", "modes"));
    assert!(!str_eq("", "a"));
}
