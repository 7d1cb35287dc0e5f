use bugs::lsp::{content_length, diagnostic_of, file_uri, frame_header, location_symbol, severity_name};

#[test]
fn frames() {
    assert_eq!(frame_header(42), "Content-Length: 42\r\n\r\n");
    assert_eq!(content_length("Content-Length: 42\r\n"), 42);
    assert_eq!(content_length("Content-Length: Content-Length: 7"), 7);
    assert_eq!(content_length("Content-Type: x"), 0);
    assert_eq!(content_length("Content-Length: 99999999999999999999999"), 0);
    assert_eq!(content_length("Content-Length: +5"), 5);
}

#[test]
fn diagnostics_and_locations() {
    assert_eq!(severity_name(Some(1)), "error");
    assert_eq!(severity_name(Some(2)), "warn");
    assert_eq!(severity_name(Some(3)), "info");
    assert_eq!(severity_name(None), "info");
    let d = diagnostic_of("/a.rs", None, Some(1), Some(9));
    assert_eq!(d.message, "?");
    assert_eq!(d.severity, "error");
    assert_eq!(d.line, 10);
    assert_eq!(d.file_path, "/a.rs");
    let s = location_symbol(Some("file:///a.rs".into()), None, Some(4));
    assert_eq!(s.kind, "location");
    assert_eq!(s.line, 1);
    assert_eq!(s.column, 4);
    assert_eq!(s.name, "");
    assert_eq!(file_uri("/x/y.rs"), "file:///x/y.rs");
}

#[test]
fn header_length_round_trip() {
    for n in [0usize, 7, 42, 1234567, usize::MAX] {
        let h = frame_header(n);
        assert_eq!(content_length(&h), n);
        let first_line = &h[..h.find('\n').unwrap() + 1];
        assert_eq!(content_length(first_line), n);
    }
}
