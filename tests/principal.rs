use csmlog::{Principal, PrincipalParseError};
use std::str::FromStr;

const EXTENSION: &str = "moz-extension://3767278d-dead-beef-be81-c0ffeec0ffee/";

#[test]
fn from_str_parse_http_url() {
    assert_eq!(
        Principal::from_str("http://example.com/").unwrap(),
        Principal::ContentPrincipal("http://example.com/".to_string())
    );
}

#[test]
fn from_str_parse_about_url() {
    assert_eq!(
        Principal::from_str("about:config").unwrap(),
        Principal::ContentPrincipal("about:config".to_string())
    );
}

#[test]
fn from_str_parse_null_principal() {
    assert_eq!(Principal::from_str("NullPrincipal").unwrap(), Principal::NullPrincipal);
}

#[test]
fn from_str_parse_nullptr_principal() {
    assert_eq!(Principal::from_str("nullptr").unwrap(), Principal::NullPtr);
}

#[test]
fn from_str_parse_expanded_principal_1() {
    assert_eq!(
        Principal::from_str("[Expanded Principal [https://example.com/]]").unwrap(),
        Principal::ExpandedPrincipal(vec![Principal::ContentPrincipal(
            "https://example.com/".to_string()
        )])
    );
}

#[test]
fn from_str_parse_expanded_principal_2() {
    assert_eq!(
        Principal::from_str(
            "[Expanded Principal [moz-extension://3767278d-dead-beef-be81-c0ffeec0ffee/ https://example.com/]]"
        )
        .unwrap(),
        Principal::ExpandedPrincipal(vec![
            Principal::ContentPrincipal(EXTENSION.to_string()),
            Principal::ContentPrincipal("https://example.com/".to_string())
        ])
    );
}

#[test]
fn from_str_parse_expanded_principal_2_preserves_order() {
    assert_eq!(
        Principal::from_str(
            "[Expanded Principal [https://example.com/ moz-extension://3767278d-dead-beef-be81-c0ffeec0ffee/]]"
        )
        .unwrap(),
        Principal::ExpandedPrincipal(vec![
            Principal::ContentPrincipal("https://example.com/".to_string()),
            Principal::ContentPrincipal(EXTENSION.to_string())
        ])
    );
}

#[test]
fn principal_parse_http_url() {
    assert_eq!(
        "http://example.com/",
        Principal::ContentPrincipal("http://example.com/".to_string()).to_string()
    );
}

#[test]
fn principal_parse_about_url() {
    assert_eq!(
        "about:config",
        Principal::ContentPrincipal("about:config".to_string()).to_string()
    );
}

#[test]
fn principal_parse_null_principal() {
    assert_eq!("NullPrincipal", Principal::NullPrincipal.to_string());
}

#[test]
fn principal_parse_nullptr_principal() {
    assert_eq!("nullptr", Principal::NullPtr.to_string());
}

#[test]
fn principal_parse_expanded_principal_1() {
    assert_eq!(
        "[Expanded Principal [https://example.com/]]",
        Principal::ExpandedPrincipal(vec![Principal::ContentPrincipal(
            "https://example.com/".to_string()
        )])
        .to_string()
    );
}

#[test]
fn principal_parse_expanded_principal_2() {
    assert_eq!(
        "[Expanded Principal [moz-extension://3767278d-dead-beef-be81-c0ffeec0ffee/ https://example.com/]]",
        Principal::ExpandedPrincipal(vec![
            Principal::ContentPrincipal(EXTENSION.to_string()),
            Principal::ContentPrincipal("https://example.com/".to_string())
        ])
        .to_string()
    );
}

#[test]
fn principal_parse_expanded_principal_2_preserves_order() {
    assert_eq!(
        "[Expanded Principal [https://example.com/ moz-extension://3767278d-dead-beef-be81-c0ffeec0ffee/]]",
        Principal::ExpandedPrincipal(vec![
            Principal::ContentPrincipal("https://example.com/".to_string()),
            Principal::ContentPrincipal(EXTENSION.to_string())
        ])
        .to_string()
    );
}

#[test]
fn parse_system_principal() {
    assert_eq!(Principal::parse("SystemPrincipal"), Ok(Principal::SystemPrincipal));
}

#[test]
fn parse_normalizes_urls() {
    assert_eq!(
        Principal::parse("HTTP://Example.COM"),
        Ok(Principal::ContentPrincipal("http://example.com/".to_string()))
    );
}

#[test]
fn parse_rejects_non_principals() {
    assert_eq!(Principal::parse(""), Err(PrincipalParseError::InvalidPrincipal));
    assert_eq!(Principal::parse("not a url"), Err(PrincipalParseError::InvalidPrincipal));
    assert_eq!(Principal::parse("systemprincipal"), Err(PrincipalParseError::InvalidPrincipal));
    assert_eq!(
        Principal::parse("[Expanded Principal []]"),
        Err(PrincipalParseError::InvalidPrincipal)
    );
    assert_eq!(
        Principal::parse("[Expanded Principal [https://example.com/ bogus]]"),
        Err(PrincipalParseError::InvalidPrincipal)
    );
}

#[test]
fn from_parsed_url_takes_the_serialization() {
    assert_eq!(
        Principal::from_parsed_url(Some("https://a.example/".to_string())),
        Ok(Principal::ContentPrincipal("https://a.example/".to_string()))
    );
    assert_eq!(Principal::from_parsed_url(None), Err(PrincipalParseError::InvalidPrincipal));
}

#[test]
fn parse_nested_expanded_principal() {
    let text = "[Expanded Principal [[Expanded Principal [https://a.example/ https://b.example/]] nullptr SystemPrincipal]]";
    let p = Principal::parse(text).unwrap();
    assert_eq!(
        p,
        Principal::ExpandedPrincipal(vec![
            Principal::ExpandedPrincipal(vec![
                Principal::ContentPrincipal("https://a.example/".to_string()),
                Principal::ContentPrincipal("https://b.example/".to_string()),
            ]),
            Principal::NullPtr,
            Principal::SystemPrincipal,
        ])
    );
    assert_eq!(p.to_string(), text);
}

#[test]
fn round_trip_of_constructed_principals() {
    let values = vec![
        Principal::SystemPrincipal,
        Principal::NullPrincipal,
        Principal::NullPtr,
        Principal::ContentPrincipal("https://example.com/".to_string()),
        Principal::ExpandedPrincipal(vec![
            Principal::ContentPrincipal(EXTENSION.to_string()),
            Principal::ExpandedPrincipal(vec![
                Principal::NullPrincipal,
                Principal::ContentPrincipal("about:config".to_string()),
            ]),
        ]),
    ];
    for p in values {
        assert_eq!(Principal::parse(&p.to_string()).unwrap(), p);
    }
}
