use sage_sidecar::detect::contains_marker;
use sage_sidecar::detect::detect_line;
use sage_sidecar::detect::get_server_port;
use sage_sidecar::detect::parse_port;
use sage_sidecar::detect::scan_lines;

#[test]
fn marker_line_emits_port() {
    assert_eq!(
        detect_line("Starting Sage Desktop Server on port 8421"),
        Some(8421)
    );
    assert_eq!(
        detect_line("2024-05-01 INFO Starting Sage Desktop Server on port 8421."),
        Some(8421)
    );
}

#[test]
fn end_to_end_payload() {
    let port = detect_line("Starting Sage Desktop Server on port 54321.");
    assert_eq!(port, Some(54321));
}

#[test]
fn non_numeric_trailing_token_is_ignored() {
    assert_eq!(detect_line("Starting Sage Desktop Server on port abc"), None);
    assert_eq!(
        detect_line("Starting Sage Desktop Server on port forty-two."),
        None
    );
}

#[test]
fn lines_without_marker_raise_nothing() {
    assert_eq!(detect_line(""), None);
    assert_eq!(detect_line("Server listening on port 8421"), None);
    assert_eq!(detect_line("Starting Sage Desktop server on port 8421"), None);
    assert_eq!(detect_line("PYTHON: warming up 12345"), None);
}

#[test]
fn trailing_periods_are_stripped() {
    assert_eq!(
        detect_line("Starting Sage Desktop Server on port 6000..."),
        Some(6000)
    );
}

#[test]
fn inner_period_is_not_a_port() {
    assert_eq!(detect_line("Starting Sage Desktop Server on port 6000.5"), None);
}

#[test]
fn marker_with_only_trailing_whitespace() {
    assert_eq!(detect_line("Starting Sage Desktop Server on port    "), None);
}

#[test]
fn port_range_bounds() {
    assert_eq!(
        detect_line("Starting Sage Desktop Server on port 65535"),
        Some(65535)
    );
    assert_eq!(detect_line("Starting Sage Desktop Server on port 65536"), None);
    assert_eq!(detect_line("Starting Sage Desktop Server on port 0"), Some(0));
}

#[test]
fn every_matching_line_raises_its_own_event_in_order() {
    let lines: Vec<String> = vec![
        String::from("booting"),
        String::from("Starting Sage Desktop Server on port 1001."),
        String::from("Starting Sage Desktop Server on port oops"),
        String::from("Starting Sage Desktop Server on port 1002."),
        String::from("chatter"),
        String::from("Starting Sage Desktop Server on port 1003"),
    ];
    let events = scan_lines(&lines);
    assert_eq!(events, vec![1001, 1002, 1003]);
}

#[test]
fn scan_of_stream_without_markers_is_empty() {
    let lines: Vec<String> = vec![String::from("a"), String::from("b")];
    assert_eq!(scan_lines(&lines), Vec::<u16>::new());
}

#[test]
fn contains_marker_is_a_substring_test() {
    assert!(contains_marker("Starting Sage Desktop Server on port 1"));
    assert!(contains_marker("xxStarting Sage Desktop Server on portxx"));
    assert!(!contains_marker("Starting Sage Desktop Server on por"));
    assert!(!contains_marker(""));
}

#[test]
fn parse_port_accepts_what_u16_parsing_accepts() {
    assert_eq!(parse_port("8421"), Some(8421));
    assert_eq!(parse_port("+123"), Some(123));
    assert_eq!(parse_port("007"), Some(7));
    assert_eq!(parse_port(""), None);
    assert_eq!(parse_port("+"), None);
    assert_eq!(parse_port("-1"), None);
    assert_eq!(parse_port("12 3"), None);
    assert_eq!(parse_port("70000"), None);
}

#[test]
fn port_query_reads_the_proposed_port() {
    assert_eq!(get_server_port(Some("8421")), Some(8421));
    assert_eq!(get_server_port(Some("not a port")), None);
    assert_eq!(get_server_port(None), None);
}
