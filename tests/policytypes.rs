use csmlog::{nsContentPolicyType, parse_contentpolicytype, parse_policy_type};

#[test]
fn policy_type_basic() {
    assert_eq!(parse_contentpolicytype("TYPE_DOCUMENT"), "TYPE_DOCUMENT");
}

#[test]
fn policy_type_invalid_string() {
    assert_eq!(parse_contentpolicytype("blergh"), "TYPE_UNKNOWN");
}

#[test]
fn policy_type_empty_string() {
    assert_eq!(parse_contentpolicytype(""), "TYPE_UNKNOWN");
}

#[test]
fn policy_type_as_number_str() {
    assert_eq!(parse_contentpolicytype("11"), "TYPE_UNKNOWN");
}

#[test]
fn registry_by_name_document() {
    assert_eq!(nsContentPolicyType::by_name("TYPE_DOCUMENT"), nsContentPolicyType::TYPE_DOCUMENT);
}

#[test]
fn registry_by_name_is_case_sensitive() {
    assert_eq!(nsContentPolicyType::by_name("type_document"), nsContentPolicyType::TYPE_UNKNOWN);
}

#[test]
fn registry_retired_codes_are_unknown() {
    assert_eq!(nsContentPolicyType::by_code(8), nsContentPolicyType::TYPE_UNKNOWN);
    assert_eq!(nsContentPolicyType::by_code(9), nsContentPolicyType::TYPE_UNKNOWN);
}

#[test]
fn registry_out_of_range_code_is_unknown() {
    assert_eq!(nsContentPolicyType::by_code(999), nsContentPolicyType::TYPE_UNKNOWN);
    assert_eq!(nsContentPolicyType::by_code(55), nsContentPolicyType::TYPE_UNKNOWN);
}

#[test]
fn registry_by_code_xmlhttprequest() {
    assert_eq!(nsContentPolicyType::by_code(11), nsContentPolicyType::TYPE_XMLHTTPREQUEST);
    assert_eq!(nsContentPolicyType::by_code(0), nsContentPolicyType::TYPE_INVALID);
    assert_eq!(
        nsContentPolicyType::by_code(54),
        nsContentPolicyType::TYPE_INTERNAL_FETCH_PRELOAD
    );
}

#[test]
fn registry_codes_and_names_agree() {
    for code in 0..55u64 {
        let t = nsContentPolicyType::by_code(code);
        if code == 8 || code == 9 {
            assert_eq!(t.code(), None);
        } else {
            assert_eq!(t.code(), Some(code));
            assert_eq!(nsContentPolicyType::by_name(t.name()), t);
        }
    }
    assert_eq!(nsContentPolicyType::TYPE_UNKNOWN.code(), None);
    assert_eq!(nsContentPolicyType::TYPE_UNKNOWN.name(), "TYPE_UNKNOWN");
}

#[test]
fn parse_policy_type_unknown_texts() {
    assert_eq!(parse_policy_type("blergh"), nsContentPolicyType::TYPE_UNKNOWN);
    assert_eq!(parse_policy_type(""), nsContentPolicyType::TYPE_UNKNOWN);
}

#[test]
fn parse_policy_type_reads_numbers_as_codes() {
    assert_eq!(parse_policy_type("11"), nsContentPolicyType::TYPE_XMLHTTPREQUEST);
    assert_eq!(parse_policy_type("9"), nsContentPolicyType::TYPE_UNKNOWN);
    assert_eq!(parse_policy_type("007"), nsContentPolicyType::TYPE_SUBDOCUMENT);
    assert_eq!(
        parse_policy_type("99999999999999999999999999"),
        nsContentPolicyType::TYPE_UNKNOWN
    );
    assert_eq!(parse_policy_type("1x"), nsContentPolicyType::TYPE_UNKNOWN);
}

#[test]
fn parse_policy_type_reads_names() {
    assert_eq!(parse_policy_type("TYPE_SCRIPT"), nsContentPolicyType::TYPE_SCRIPT);
}
