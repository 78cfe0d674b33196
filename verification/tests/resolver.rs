use yumpu_dl::error::Error;
use yumpu_dl::parse_document_id;
use yumpu_dl::resolver::document_id_from_capture;

#[test]
fn url_parses() {
    let expected: u64 = 66625223;
    let actual =
        parse_document_id("https://www.yumpu.com/en/document/read/66625223/lebaron-manuals-92en")
            .unwrap();
    assert_eq!(expected, actual);
}

#[test]
fn plain_http_url_parses() {
    assert_eq!(
        parse_document_id("http://www.yumpu.com/de/document/view/12/some-title"),
        Ok(12)
    );
}

#[test]
fn identifier_with_leading_zeros_parses() {
    assert_eq!(
        parse_document_id("https://www.yumpu.com/en/document/read/00042/slug"),
        Ok(42)
    );
}

#[test]
fn largest_identifier_parses() {
    assert_eq!(
        parse_document_id("https://www.yumpu.com/en/document/read/18446744073709551615/slug"),
        Ok(u64::MAX)
    );
}

#[test]
fn url_without_numeric_segment_is_invalid() {
    assert_eq!(
        parse_document_id("https://www.yumpu.com/en/document/read/lebaron-manuals-92en"),
        Err(Error::InvalidUrl)
    );
}

#[test]
fn url_with_non_numeric_identifier_is_invalid() {
    assert_eq!(
        parse_document_id("https://www.yumpu.com/en/document/read/66a25223/lebaron-manuals-92en"),
        Err(Error::InvalidUrl)
    );
}

#[test]
fn url_with_wrong_host_is_invalid() {
    assert_eq!(
        parse_document_id("https://www.example.com/en/document/read/66625223/lebaron-manuals-92en"),
        Err(Error::InvalidUrl)
    );
    assert_eq!(
        parse_document_id("https://yumpu.com/en/document/read/66625223/lebaron-manuals-92en"),
        Err(Error::InvalidUrl)
    );
}

#[test]
fn truncated_url_is_invalid() {
    assert_eq!(
        parse_document_id("https://www.yumpu.com/en/document/read/66625223"),
        Err(Error::InvalidUrl)
    );
    assert_eq!(
        parse_document_id("https://www.yumpu.com/en/document/read/66625223/"),
        Err(Error::InvalidUrl)
    );
    assert_eq!(parse_document_id("https://www.yumpu.com/en/document"), Err(Error::InvalidUrl));
    assert_eq!(parse_document_id(""), Err(Error::InvalidUrl));
}

#[test]
fn url_with_wrong_scheme_is_invalid() {
    assert_eq!(
        parse_document_id("ftp://www.yumpu.com/en/document/read/66625223/lebaron-manuals-92en"),
        Err(Error::InvalidUrl)
    );
}

#[test]
fn identifier_beyond_64_bits_is_invalid() {
    assert_eq!(
        parse_document_id("https://www.yumpu.com/en/document/read/18446744073709551616/slug"),
        Err(Error::InvalidUrl)
    );
}

#[test]
fn capture_of_digits_is_the_identifier() {
    assert_eq!(document_id_from_capture(Some("66625223")), Ok(66625223));
    assert_eq!(document_id_from_capture(Some("0")), Ok(0));
    assert_eq!(document_id_from_capture(Some("007")), Ok(7));
}

#[test]
fn missing_capture_is_an_invalid_url() {
    assert_eq!(document_id_from_capture(None), Err(Error::InvalidUrl));
}

#[test]
fn capture_that_is_no_number_is_an_invalid_url() {
    assert_eq!(document_id_from_capture(Some("")), Err(Error::InvalidUrl));
    assert_eq!(document_id_from_capture(Some("12a")), Err(Error::InvalidUrl));
    assert_eq!(document_id_from_capture(Some("-5")), Err(Error::InvalidUrl));
    assert_eq!(document_id_from_capture(Some(" 5")), Err(Error::InvalidUrl));
    assert_eq!(
        document_id_from_capture(Some("18446744073709551616")),
        Err(Error::InvalidUrl)
    );
    // digits outside ASCII are no digits of a number
    assert_eq!(document_id_from_capture(Some("\u{0663}")), Err(Error::InvalidUrl));
}

#[test]
fn url_without_any_digit_is_invalid() {
    assert_eq!(
        parse_document_id("https://www.yumpu.com/en/document/read/abc/lebaron-manuals"),
        Err(Error::InvalidUrl)
    );
    assert_eq!(parse_document_id("no digits here"), Err(Error::InvalidUrl));
}

#[test]
fn identifier_is_taken_from_the_digits_segment() {
    // the slug and the other segments hold digits too
    assert_eq!(
        parse_document_id("https://www.yumpu.com/e1/d2/r3/4567/lebaron-manuals-92en"),
        Ok(4567)
    );
}

#[test]
fn host_that_differs_only_at_the_dots_is_invalid() {
    assert_eq!(
        parse_document_id("https://wwwxyumpu.com/en/document/read/66625223/lebaron-manuals-92en"),
        Err(Error::InvalidUrl)
    );
    assert_eq!(
        parse_document_id("https://www.yumpuxcom/en/document/read/66625223/lebaron-manuals-92en"),
        Err(Error::InvalidUrl)
    );
    assert_eq!(
        parse_document_id("https://www/yumpu/com/en/document/read/66625223/lebaron-manuals-92en"),
        Err(Error::InvalidUrl)
    );
}

#[test]
fn host_with_more_before_or_after_it_is_invalid() {
    assert_eq!(
        parse_document_id("https://www.yumpu.com.example.org/en/document/read/66625223/slug"),
        Err(Error::InvalidUrl)
    );
    assert_eq!(
        parse_document_id("https://mirror.www.yumpu.com/en/document/read/66625223/slug"),
        Err(Error::InvalidUrl)
    );
    assert_eq!(
        parse_document_id("https://www.yumpu.com:8080/en/document/read/66625223/slug"),
        Err(Error::InvalidUrl)
    );
}

#[test]
fn text_before_the_scheme_is_invalid() {
    assert_eq!(
        parse_document_id(
            "see https://www.yumpu.com/en/document/read/66625223/lebaron-manuals-92en"
        ),
        Err(Error::InvalidUrl)
    );
    assert_eq!(
        parse_document_id("xhttps://www.yumpu.com/en/document/read/66625223/lebaron-manuals-92en"),
        Err(Error::InvalidUrl)
    );
    assert_eq!(
        parse_document_id(
            "https://example.org/https://www.yumpu.com/en/document/read/66625223/slug"
        ),
        Err(Error::InvalidUrl)
    );
    assert_eq!(
        parse_document_id(" https://www.yumpu.com/en/document/read/66625223/slug"),
        Err(Error::InvalidUrl)
    );
}

#[test]
fn text_after_the_slug_is_invalid() {
    assert_eq!(
        parse_document_id("https://www.yumpu.com/en/document/read/66625223/slug and more"),
        Err(Error::InvalidUrl)
    );
    assert_eq!(
        parse_document_id("https://www.yumpu.com/en/document/read/66625223/slug\n"),
        Err(Error::InvalidUrl)
    );
    assert_eq!(
        parse_document_id("https://www.yumpu.com/en/document/read/66625223/slug/more"),
        Err(Error::InvalidUrl)
    );
    assert_eq!(
        parse_document_id("https://www.yumpu.com/en/document/read/66625223/slug/"),
        Err(Error::InvalidUrl)
    );
}

#[test]
fn more_or_fewer_segments_before_the_digits_are_invalid() {
    assert_eq!(
        parse_document_id("https://www.yumpu.com/en/document/read/extra/66625223/slug"),
        Err(Error::InvalidUrl)
    );
    assert_eq!(
        parse_document_id("https://www.yumpu.com/a/b/c/d/e/66625223/slug"),
        Err(Error::InvalidUrl)
    );
    assert_eq!(
        parse_document_id("https://www.yumpu.com/en/document/66625223/slug"),
        Err(Error::InvalidUrl)
    );
    assert_eq!(
        parse_document_id("https://www.yumpu.com/66625223/slug"),
        Err(Error::InvalidUrl)
    );
}

#[test]
fn empty_segment_is_invalid() {
    assert_eq!(
        parse_document_id("https://www.yumpu.com/en//read/66625223/slug"),
        Err(Error::InvalidUrl)
    );
    assert_eq!(
        parse_document_id("https://www.yumpu.com/en/document/read//slug"),
        Err(Error::InvalidUrl)
    );
}

#[test]
fn segment_with_white_space_is_invalid() {
    assert_eq!(
        parse_document_id("https://www.yumpu.com/en/docu ment/read/66625223/slug"),
        Err(Error::InvalidUrl)
    );
    assert_eq!(
        parse_document_id("https://www.yumpu.com/en/document/read/666 25223/slug"),
        Err(Error::InvalidUrl)
    );
}

#[test]
fn scheme_in_other_letters_is_invalid() {
    assert_eq!(
        parse_document_id("HTTPS://www.yumpu.com/en/document/read/66625223/slug"),
        Err(Error::InvalidUrl)
    );
    assert_eq!(
        parse_document_id("httpss://www.yumpu.com/en/document/read/66625223/slug"),
        Err(Error::InvalidUrl)
    );
    assert_eq!(
        parse_document_id("https:/www.yumpu.com/en/document/read/66625223/slug"),
        Err(Error::InvalidUrl)
    );
}

#[test]
fn digits_outside_ascii_are_no_identifier() {
    assert_eq!(
        parse_document_id("https://www.yumpu.com/en/document/read/\u{0663}\u{0664}/slug"),
        Err(Error::InvalidUrl)
    );
}

#[test]
fn slug_may_hold_anything_but_slash_and_white_space() {
    assert_eq!(
        parse_document_id("https://www.yumpu.com/en/document/read/77/a-b_c.d?page=2#top"),
        Ok(77)
    );
}
