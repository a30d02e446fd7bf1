use download::probe::{header_text, location_of, read_head, HeadOutcome, HeadResponse, ProbeError};

fn response(accept_ranges: Option<&[u8]>, content_length: Option<&[u8]>, location: Option<&[u8]>) -> HeadResponse {
    HeadResponse {
        accept_ranges: accept_ranges.map(|v| v.to_vec()),
        content_length: content_length.map(|v| v.to_vec()),
        location: location.map(|v| v.to_vec()),
    }
}

#[test]
fn header_text_takes_printable_ascii_space_and_tab() {
    assert_eq!(header_text(&b"bytes".to_vec()), Some("bytes".chars().collect()));
    assert_eq!(header_text(&b"a b\tc~".to_vec()), Some("a b\tc~".chars().collect()));
    assert_eq!(header_text(&Vec::new()), Some(Vec::new()));
}

#[test]
fn header_text_refuses_control_and_high_bytes() {
    assert_eq!(header_text(&vec![b'a', 0x7f]), None);
    assert_eq!(header_text(&vec![b'a', 0x1f]), None);
    assert_eq!(header_text(&vec![0x80]), None);
    assert_eq!(header_text(&vec![0xc3, 0xa9]), None);
    assert_eq!(header_text(&vec![b'\n']), None);
}

#[test]
fn ranges_need_bytes_unit_and_a_length() {
    assert_eq!(
        read_head(&response(Some(b"bytes"), Some(b"1000"), None)),
        Ok(HeadOutcome::Terminal { content_length: Some(1000), supports_ranges: true })
    );
    assert_eq!(
        read_head(&response(Some(b"bytes"), None, None)),
        Ok(HeadOutcome::Terminal { content_length: None, supports_ranges: false })
    );
    assert_eq!(
        read_head(&response(None, None, None)),
        Ok(HeadOutcome::Terminal { content_length: None, supports_ranges: false })
    );
}

#[test]
fn no_accept_ranges_means_no_ranges() {
    assert_eq!(
        read_head(&response(None, Some(b"1000000000"), None)),
        Ok(HeadOutcome::Terminal { content_length: Some(1000000000), supports_ranges: false })
    );
}

#[test]
fn other_units_are_not_bytes() {
    for unit in [&b"none"[..], b"Bytes", b"bytes ", b" bytes", b"", b"byte", b"bytess"] {
        assert_eq!(
            read_head(&response(Some(unit), Some(b"10"), None)),
            Ok(HeadOutcome::Terminal { content_length: Some(10), supports_ranges: false })
        );
    }
}

#[test]
fn location_makes_a_redirect_and_hides_the_rest() {
    let r = response(Some(&[0xff]), Some(b"x"), Some(b"http://example.com/next"));
    assert_eq!(read_head(&r), Ok(HeadOutcome::Redirect));
    assert_eq!(location_of(&r), Some("http://example.com/next".to_string()));
}

#[test]
fn no_location_no_target() {
    assert_eq!(location_of(&response(Some(b"bytes"), Some(b"1"), None)), None);
    assert_eq!(location_of(&response(None, None, Some(&[b'/', 0x01]))), None);
}

#[test]
fn malformed_headers_are_errors() {
    assert_eq!(
        read_head(&response(None, None, Some(&[b'h', 0xe9]))),
        Err(ProbeError::MalformedLocation)
    );
    assert_eq!(
        read_head(&response(Some(&[0x00]), Some(b"10"), None)),
        Err(ProbeError::MalformedAcceptRanges)
    );
    assert_eq!(
        read_head(&response(Some(&[0x00]), Some(b"x"), None)),
        Err(ProbeError::MalformedAcceptRanges)
    );
    for bad in [&b""[..], b"ten", b"-1", b"1 ", b"18446744073709551616", &[b'1', 0x80]] {
        assert_eq!(
            read_head(&response(Some(b"bytes"), Some(bad), None)),
            Err(ProbeError::MalformedContentLength)
        );
        assert_eq!(read_head(&response(None, Some(bad), None)), Err(ProbeError::MalformedContentLength));
    }
}

#[test]
fn content_length_is_read_like_a_number() {
    assert_eq!(
        read_head(&response(None, Some(b"0"), None)),
        Ok(HeadOutcome::Terminal { content_length: Some(0), supports_ranges: false })
    );
    assert_eq!(
        read_head(&response(Some(b"bytes"), Some(b"+0012"), None)),
        Ok(HeadOutcome::Terminal { content_length: Some(12), supports_ranges: true })
    );
    assert_eq!(
        read_head(&response(Some(b"bytes"), Some(b"18446744073709551615"), None)),
        Ok(HeadOutcome::Terminal { content_length: Some(u64::MAX), supports_ranges: true })
    );
}
