use csmlog::scanner::payload_of_captures;
use csmlog::{classify_line, parse_log, ProcessType};

fn tagged(tag: &str, payload: &str) -> String {
    format!("[{} 4242: Main Thread]: V/CSMLog {}", tag, payload)
}

fn block(tag: &str, uri: &str) -> Vec<String> {
    vec![
        "#DebugDoContentSecurityCheck Begin".to_string(),
        tagged(tag, "doContentSecurityCheck:"),
        tagged(tag, &format!("  - channelURI: {}", uri)),
        tagged(tag, "  - httpMethod: GET"),
        tagged(tag, "  - securityFlags:"),
        tagged(tag, "    - SEC_ALLOW_CHROME"),
        "#DebugDoContentSecurityCheck End".to_string(),
    ]
}

#[test]
fn classify_tagged_lines() {
    assert_eq!(
        classify_line("[Parent 123: Main Thread]: D/CSMLog   - httpMethod: GET"),
        Some((ProcessType::Parent, "  - httpMethod: GET".to_string()))
    );
    assert_eq!(
        classify_line("[Child 7: Main Thread]: V/CSMLog x"),
        Some((ProcessType::Child, "x".to_string()))
    );
    assert_eq!(classify_line("[Child 7: Main Thread]: I/CSMLog x"), None);
    assert_eq!(classify_line("unrelated text"), None);
}

#[test]
fn payload_of_given_captures() {
    let groups = vec![
        Some("whole".to_string()),
        Some("Child".to_string()),
        Some("V".to_string()),
        Some("payload".to_string()),
    ];
    assert_eq!(
        payload_of_captures(Some(Some(groups))),
        Some((ProcessType::Child, "payload".to_string()))
    );
    let groups = vec![
        Some("whole".to_string()),
        Some("Socket".to_string()),
        Some("V".to_string()),
        Some("p".to_string()),
    ];
    assert_eq!(
        payload_of_captures(Some(Some(groups))),
        Some((ProcessType::Unknown, "p".to_string()))
    );
    assert_eq!(payload_of_captures(Some(None)), None);
    assert_eq!(payload_of_captures(None), None);
}

#[test]
fn two_blocks_and_an_unterminated_one() {
    let mut log = vec!["some noise".to_string()];
    log.extend(block("Parent", "https://a.example/"));
    log.push("more noise".to_string());
    log.extend(block("Child", "https://b.example/"));
    log.push("#DebugDoContentSecurityCheck Begin".to_string());
    log.push(tagged("Parent", "doContentSecurityCheck:"));
    log.push(tagged("Parent", "  - httpMethod: GET"));
    let records = parse_log(&log);
    assert_eq!(records.len(), 2);
    assert_eq!(records[0].channel_uri, "https://a.example/");
    assert_eq!(records[0].process_type, ProcessType::Parent);
    assert_eq!(records[1].channel_uri, "https://b.example/");
    assert_eq!(records[1].process_type, ProcessType::Child);
    assert_eq!(records[1].security_flags, vec!["SEC_ALLOW_CHROME".to_string()]);
}

#[test]
fn log_without_markers_gives_nothing() {
    let log = vec![
        "just text".to_string(),
        tagged("Parent", "  - httpMethod: GET"),
        "#DebugDoContentSecurityCheck End".to_string(),
    ];
    assert!(parse_log(&log).is_empty());
    assert!(parse_log(&vec![]).is_empty());
}

#[test]
fn noise_outside_blocks_changes_nothing() {
    let quiet = block("Parent", "https://a.example/");
    let mut noisy = vec!["noise".to_string(), "[Parent 1: Main Thread]: V/CSMLog stray".to_string()];
    noisy.extend(block("Parent", "https://a.example/"));
    noisy.push("trailing noise".to_string());
    assert_eq!(parse_log(&quiet), parse_log(&noisy));
}

#[test]
fn bad_block_is_skipped_and_scan_goes_on() {
    let mut log = vec![
        "#DebugDoContentSecurityCheck Begin".to_string(),
        tagged("Parent", "  - colour: blue"),
        "#DebugDoContentSecurityCheck End".to_string(),
    ];
    log.extend(block("Child", "https://c.example/"));
    let records = parse_log(&log);
    assert_eq!(records.len(), 1);
    assert_eq!(records[0].channel_uri, "https://c.example/");
}

#[test]
fn untagged_lines_inside_a_block_are_dropped() {
    let mut log = block("Parent", "https://a.example/");
    log.insert(3, "an untagged line".to_string());
    let records = parse_log(&log);
    assert_eq!(records.len(), 1);
    assert_eq!(records[0].http_method, Some("GET".to_string()));
}

#[test]
fn begin_marker_inside_a_block_is_dropped() {
    let log = vec![
        "#DebugDoContentSecurityCheck Begin".to_string(),
        tagged("Parent", "- httpMethod: GET"),
        "#DebugDoContentSecurityCheck Begin".to_string(),
        "#DebugDoContentSecurityCheck End".to_string(),
    ];
    let records = parse_log(&log);
    assert_eq!(records.len(), 1);
    assert_eq!(records[0].http_method, Some("GET".to_string()));
    assert_eq!(records[0].process_type, ProcessType::Parent);
}
