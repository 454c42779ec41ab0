use comic_archive::endpoint::{decimal_text, request_url, DEFAULT_HOST};

#[test]
fn decimal_text_of_single_digits() {
    let digits = ["0", "1", "2", "3", "4", "5", "6", "7", "8", "9"];
    for (n, text) in digits.iter().enumerate() {
        assert_eq!(decimal_text(n), *text);
    }
}

#[test]
fn decimal_text_of_longer_numbers() {
    assert_eq!(decimal_text(10), "10");
    assert_eq!(decimal_text(404), "404");
    assert_eq!(decimal_text(614), "614");
    assert_eq!(decimal_text(1000), "1000");
    assert_eq!(decimal_text(1234567890), "1234567890");
    assert_eq!(decimal_text(usize::MAX), usize::MAX.to_string());
}

#[test]
fn decimal_text_agrees_with_the_standard_formatting() {
    for n in 0..3000usize {
        assert_eq!(decimal_text(n), n.to_string());
    }
}

#[test]
fn the_latest_record_is_asked_for_without_an_identifier() {
    assert_eq!(DEFAULT_HOST, "https://xkcd.com");
    assert_eq!(request_url(DEFAULT_HOST, 0), "https://xkcd.com/info.0.json");
}

#[test]
fn a_record_is_asked_for_under_its_identifier() {
    assert_eq!(request_url(DEFAULT_HOST, 1), "https://xkcd.com/1/info.0.json");
    assert_eq!(request_url(DEFAULT_HOST, 614), "https://xkcd.com/614/info.0.json");
    assert_eq!(request_url(DEFAULT_HOST, 2891), "https://xkcd.com/2891/info.0.json");
}

#[test]
fn the_host_is_taken_as_given() {
    assert_eq!(request_url("http://127.0.0.1:8080", 0), "http://127.0.0.1:8080/info.0.json");
    assert_eq!(request_url("http://127.0.0.1:8080", 25), "http://127.0.0.1:8080/25/info.0.json");
    assert_eq!(request_url("", 7), "/7/info.0.json");
}
