use iroh_common::extractor::is_multipart;

#[test]
fn multipart_form_data_with_boundary_is_multipart() {
    assert!(is_multipart(Some(b"multipart/form-data; boundary=ABCDEFG")));
    assert!(is_multipart(Some(b"multipart/form-data; boundary=------ABCDEFG")));
}

#[test]
fn other_content_types_are_not_multipart() {
    assert!(!is_multipart(Some(b"text/plain")));
    assert!(!is_multipart(Some(b"application/json")));
    assert!(!is_multipart(Some(b"multipart/mixed; boundary=ABC")));
}

#[test]
fn multipart_without_boundary_is_not_multipart() {
    assert!(!is_multipart(Some(b"multipart/form-data")));
}

#[test]
fn missing_header_is_not_multipart() {
    assert!(!is_multipart(None));
}

#[test]
fn header_that_does_not_read_as_text_is_not_multipart() {
    assert!(!is_multipart(Some(b"multipart/form-data; boundary=AB\x7fC")));
    assert!(!is_multipart(Some(b"multipart/form-data; boundary=\xc3\xa9")));
    assert!(!is_multipart(Some(b"")));
}
