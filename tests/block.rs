use csmlog::{
    decode_block, nsContentPolicyType, parsed_content_security_check, BlockDecodeError, CheckLine,
    ContentSecurityCheck, Principal, ProcessType,
};

const SAMPLE_BLOCK: &str = r"doContentSecurityCheck:
  - channelURI: https://incoming.telemetry.mozilla.org/submit/telemetry/b0a4b2dc-c5b7-44ed-b0d4-41e01a9abf4e/bhr/Firefox/89.0a1/nightly/20210412213434?v=4
  - httpMethod: POST
  - loadingPrincipal: SystemPrincipal
  - triggeringPrincipal: SystemPrincipal
  - principalToInherit: nullptr
  - redirectChain:
  - internalContentPolicyType: TYPE_INTERNAL_XMLHTTPREQUEST
  - externalContentPolicyType: TYPE_XMLHTTPREQUEST
  - upgradeInsecureRequests: false
  - initialSecurityChecksDone: false
  - allowDeprecatedSystemRequests: false
  - CSP:
  - securityFlags:
    - SEC_ALLOW_CROSS_ORIGIN_SEC_CONTEXT_IS_NULL
    - SEC_COOKIES_INCLUDE
    - SEC_COOKIES_SAME_ORIGIN
    - SEC_COOKIES_OMIT";

fn lines_of(text: &str) -> Vec<String> {
    text.split('\n').map(|l| l.to_owned()).collect()
}

#[test]
fn parse_simple_block_manually() {
    let block = lines_of(SAMPLE_BLOCK);
    let decoded = decode_block(&block);
    assert!(decoded.is_ok());
    let checky: Vec<CheckLine> = decoded.unwrap();
    let check: ContentSecurityCheck = ContentSecurityCheck::from_lines(checky);
    assert_eq!(check.http_method, Some("POST".to_string()));
}

#[test]
fn test_parse_content_security_check_simple_block() {
    let block = lines_of(SAMPLE_BLOCK);
    let p = ProcessType::Child;
    let check = parsed_content_security_check(p, block);
    assert!(check.is_ok());
    assert_eq!(check.unwrap().process_type, p);
}

#[test]
fn end_to_end_sample_block() {
    let check = parsed_content_security_check(ProcessType::Parent, lines_of(SAMPLE_BLOCK)).unwrap();
    assert_eq!(check.http_method, Some("POST".to_string()));
    assert_eq!(check.loading_principal, Principal::SystemPrincipal);
    assert_eq!(check.triggering_principal, Principal::SystemPrincipal);
    assert_eq!(check.principal_to_inherit, Principal::NullPtr);
    assert_eq!(check.external_content_policy_type, nsContentPolicyType::TYPE_XMLHTTPREQUEST);
    assert_eq!(
        check.internal_content_policy_type,
        nsContentPolicyType::TYPE_INTERNAL_XMLHTTPREQUEST
    );
    assert_eq!(check.security_flags.len(), 4);
    assert_eq!(check.security_flags[1], "SEC_COOKIES_INCLUDE");
    assert_eq!(check.redirect_chain, Some(vec![]));
    assert_eq!(check.csp, Some(vec![]));
    assert!(!check.upgrade_insecure_requests);
    assert_eq!(check.process_type, ProcessType::Parent);
    assert!(check
        .channel_uri
        .starts_with("https://incoming.telemetry.mozilla.org/submit/telemetry/"));
}

#[test]
fn decode_keeps_entry_order() {
    let lines = decode_block(&lines_of("- httpMethod: GET\n- channelURI: https://a.example/")).unwrap();
    assert_eq!(
        lines,
        vec![
            CheckLine::httpMethod(Some("GET".to_string())),
            CheckLine::channelURI("https://a.example/".to_string()),
        ]
    );
}

#[test]
fn decode_reads_yaml_scalars() {
    let block = "  - CSP:\n    - \"default-src https: 'self'; img-src data:\"\n  - upgradeInsecureRequests: True\n  - httpMethod: ~";
    let lines = decode_block(&lines_of(block)).unwrap();
    assert_eq!(
        lines,
        vec![
            CheckLine::CSP(Some(vec!["default-src https: 'self'; img-src data:".to_string()])),
            CheckLine::upgradeInsecureRequests(true),
            CheckLine::httpMethod(None),
        ]
    );
}

#[test]
fn decode_resolves_policy_codes_and_unknown_names() {
    let block = "- internalContentPolicyType: 11\n- externalContentPolicyType: TYPE_NOT_A_TYPE";
    let lines = decode_block(&lines_of(block)).unwrap();
    assert_eq!(
        lines,
        vec![
            CheckLine::internalContentPolicyType(nsContentPolicyType::TYPE_XMLHTTPREQUEST),
            CheckLine::externalContentPolicyType(nsContentPolicyType::TYPE_UNKNOWN),
        ]
    );
}

#[test]
fn decode_normalizes_principal_urls() {
    let lines = decode_block(&lines_of("- loadingPrincipal: HTTPS://Example.com")).unwrap();
    assert_eq!(
        lines,
        vec![CheckLine::loadingPrincipal(Principal::ContentPrincipal(
            "https://example.com/".to_string()
        ))]
    );
}

#[test]
fn decode_empty_block_gives_no_fields() {
    assert_eq!(decode_block(&vec![]), Ok(vec![]));
    let check = parsed_content_security_check(ProcessType::Unknown, vec![]).unwrap();
    assert_eq!(check.channel_uri, "XX-MISSING_URL");
    assert_eq!(
        check.loading_principal,
        Principal::ContentPrincipal("xxx://missing-url".to_string())
    );
    assert_eq!(check.http_method, None);
    assert_eq!(check.redirect_chain, None);
    assert_eq!(check.csp, None);
    assert!(check.security_flags.is_empty());
    assert_eq!(check.internal_content_policy_type, nsContentPolicyType::TYPE_INVALID);
    assert!(!check.allow_deprecated_system_requests);
}

#[test]
fn decode_error_malformed() {
    assert_eq!(decode_block(&lines_of("channelURI: x")), Err(BlockDecodeError::Malformed));
    assert_eq!(
        decode_block(&lines_of("  - redirectChain:\n    -: https://a.example/")),
        Err(BlockDecodeError::Malformed)
    );
    assert_eq!(
        decode_block(&lines_of("  - CSP:\n- httpMethod: GET")),
        Err(BlockDecodeError::Malformed)
    );
}

#[test]
fn decode_error_unknown_key() {
    assert_eq!(decode_block(&lines_of("- colour: blue")), Err(BlockDecodeError::UnknownKey));
}

#[test]
fn decode_error_duplicate_key() {
    assert_eq!(
        decode_block(&lines_of("- httpMethod: GET\n- httpMethod: POST")),
        Err(BlockDecodeError::DuplicateKey)
    );
}

#[test]
fn decode_error_invalid_value() {
    assert_eq!(
        decode_block(&lines_of("- upgradeInsecureRequests: maybe")),
        Err(BlockDecodeError::InvalidValue)
    );
    assert_eq!(decode_block(&lines_of("- channelURI:")), Err(BlockDecodeError::InvalidValue));
    assert_eq!(
        decode_block(&lines_of("- securityFlags: SEC_X")),
        Err(BlockDecodeError::InvalidValue)
    );
}

#[test]
fn decode_error_invalid_principal() {
    assert_eq!(
        decode_block(&lines_of("- triggeringPrincipal: not a principal")),
        Err(BlockDecodeError::InvalidPrincipal)
    );
}

#[test]
fn system_data_load_is_flagged() {
    let block = "- channelURI: data:text/javascript,alert(1)\n- loadingPrincipal: SystemPrincipal\n- externalContentPolicyType: TYPE_SCRIPT";
    let check = parsed_content_security_check(ProcessType::Parent, lines_of(block)).unwrap();
    assert!(check.is_system_data_load());
    let exempt = "- channelURI: data:text/css;extension=style;x\n- loadingPrincipal: SystemPrincipal\n- externalContentPolicyType: TYPE_STYLESHEET";
    let check = parsed_content_security_check(ProcessType::Parent, lines_of(exempt)).unwrap();
    assert!(!check.is_system_data_load());
}
