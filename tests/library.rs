use provenance_rs::{
    assemble_report, engine_error, ActiveRecord, build_report, check_status, interpret_bytes, multiline_value, parse_allow_list,
    parse_pem_chain, serialize_allow_list, ActionRecord, AgentInfo, AllowedUrl, IngredientRecord, ManifestRecord,
    ProvenanceError, RemoteLoader, TrustedIssuers, UrlParts, ValidationState,
};

const BEGIN: &str = "-----BEGIN CERTIFICATE-----";
const END: &str = "-----END CERTIFICATE-----";

fn url(text: &str) -> UrlParts {
    UrlParts::parse(text).expect("valid url")
}

#[test]
fn parse_chain_extracts_multiple_blocks() {
    let pem = format!(
        "{begin}\nAAA\n{end}\n{begin}\nBBB\n{end}\n",
        begin = "-----BEGIN CERTIFICATE-----",
        end = "-----END CERTIFICATE-----"
    );
    let chain = parse_pem_chain(&pem);
    assert_eq!(chain.len(), 2);
    assert!(chain[0].contains("AAA"));
}

#[test]
fn parse_allow_list_mixes_hosts_and_urls() {
    let rules = parse_allow_list("example.com, https://example.net/base");
    assert_eq!(rules.len(), 2);
    match &rules[0] {
        AllowedUrl::Host(host) => assert_eq!(host, "example.com"),
        _ => panic!("expected host"),
    }
    match &rules[1] {
        AllowedUrl::Prefix(url) => assert_eq!(url.host.as_deref(), Some("example.net")),
        _ => panic!("expected prefix"),
    }
}

#[test]
fn pem_blocks_round_trip_trimmed() {
    let pem = format!("{BEGIN}\n  AAA  \n{END}\n{BEGIN}\nBBB\nCCC\n{END}\n{BEGIN}\nDDD\n{END}");
    let chain = parse_pem_chain(&pem);
    assert_eq!(
        chain,
        vec![
            format!("{BEGIN}\nAAA\n{END}"),
            format!("{BEGIN}\nBBB\nCCC\n{END}"),
            format!("{BEGIN}\nDDD\n{END}"),
        ]
    );
}

#[test]
fn pem_unterminated_block_is_dropped() {
    let pem = format!("{BEGIN}\nAAA\n{END}\n{BEGIN}\nBBB\n");
    assert_eq!(parse_pem_chain(&pem), vec![format!("{BEGIN}\nAAA\n{END}")]);
}

#[test]
fn pem_begin_restarts_open_block() {
    let pem = format!("{BEGIN}\nXXX\n{BEGIN}\nAAA\n{END}\n");
    assert_eq!(parse_pem_chain(&pem), vec![format!("{BEGIN}\nAAA\n{END}")]);
}

#[test]
fn pem_crlf_lines_and_outside_text() {
    let pem = format!("junk\r\n{BEGIN}\r\nAAA\r\n{END}\r\ntrailer\r\n");
    assert_eq!(parse_pem_chain(&pem), vec![format!("{BEGIN}\nAAA\n{END}")]);
}

#[test]
fn pem_end_without_begin_is_its_own_block() {
    assert_eq!(parse_pem_chain(&format!("{END}\n")), vec![END.to_string()]);
}

#[test]
fn pem_empty_text_has_no_blocks() {
    assert!(parse_pem_chain("").is_empty());
}

#[test]
fn host_rule_ignores_case_scheme_port_and_path() {
    let rule = AllowedUrl::host("Example.COM");
    assert!(rule.matches(&url("https://example.com/a/b")));
    assert!(rule.matches(&url("http://EXAMPLE.com:8080/")));
    assert!(!rule.matches(&url("https://example.org/")));
    assert!(!rule.matches(&url("https://sub.example.com/")));
}

#[test]
fn prefix_rule_checks_scheme_port_host_and_path() {
    let rule = AllowedUrl::prefix(url("https://Example.net/api"));
    assert!(rule.matches(&url("https://example.net/api/x")));
    assert!(rule.matches(&url("https://example.net:443/api")));
    assert!(rule.matches(&url("https://example.net/api2")));
    assert!(!rule.matches(&url("http://example.net/api/x")));
    assert!(!rule.matches(&url("https://example.net:8443/api/x")));
    assert!(!rule.matches(&url("https://example.org/api/x")));
    assert!(!rule.matches(&url("https://example.net/other")));
}

#[test]
fn allow_list_drops_empty_entries() {
    let rules = parse_allow_list(" a.example ,,\n\n https://b.example/x \n ,");
    assert_eq!(rules.len(), 2);
    assert!(matches!(&rules[0], AllowedUrl::Host(h) if h == "a.example"));
    match &rules[1] {
        AllowedUrl::Prefix(u) => {
            assert_eq!(u.scheme, "https");
            assert_eq!(u.path, "/x");
            assert_eq!(u.port, Some(443));
        }
        _ => panic!("expected prefix"),
    }
    assert!(parse_allow_list("").is_empty());
    assert!(parse_allow_list(" , \n ").is_empty());
}

#[test]
fn invalid_url_is_rejected() {
    match UrlParts::parse("not a url") {
        Err(ProvenanceError::InvalidUrl(t)) => assert_eq!(t, "not a url"),
        _ => panic!("expected invalid url"),
    }
}

#[test]
fn disabled_loader_refuses_every_url() {
    let loader = RemoteLoader::disabled();
    assert!(!loader.enabled());
    assert!(matches!(loader.authorize(&url("https://example.com/")), Err(ProvenanceError::RemoteDisabled)));
    let off = RemoteLoader::new(false, vec![AllowedUrl::host("example.com")]);
    assert!(matches!(off.authorize(&url("https://example.com/")), Err(ProvenanceError::RemoteDisabled)));
}

#[test]
fn enabled_loader_checks_allow_list() {
    let loader = RemoteLoader::new(true, parse_allow_list("example.com\nhttps://cdn.example.net/assets"));
    assert!(loader.enabled());
    assert!(loader.authorize(&url("https://example.com/x.jpg")).is_ok());
    assert!(loader.authorize(&url("https://cdn.example.net/assets/x.jpg")).is_ok());
    match loader.authorize(&url("https://cdn.example.net/private/x.jpg")) {
        Err(ProvenanceError::RemoteUrlNotAllowed(t)) => {
            assert_eq!(t, "https://cdn.example.net/private/x.jpg")
        }
        _ => panic!("expected refusal"),
    }
    let none = RemoteLoader::new(true, Vec::new());
    assert!(!none.is_allowed(&url("https://example.com/")));
}

#[test]
fn remote_status_outside_2xx_fails() {
    assert!(check_status(200).is_ok());
    assert!(check_status(204).is_ok());
    assert!(matches!(check_status(302), Err(ProvenanceError::RemoteStatus(302))));
    assert!(matches!(check_status(404), Err(ProvenanceError::RemoteStatus(404))));
    assert!(matches!(check_status(503), Err(ProvenanceError::RemoteStatus(503))));
}

#[test]
fn multiline_value_wraps_and_escapes() {
    assert_eq!(multiline_value("abc"), "\"\"\"\nabc\n\"\"\"\n");
    assert_eq!(multiline_value("abc\n"), "\"\"\"\nabc\n\"\"\"\n");
    assert_eq!(multiline_value(""), "\"\"\"\n\n\"\"\"\n");
    assert_eq!(multiline_value("a\"b\"\"c"), "\"\"\"\na\"b\"\"c\n\"\"\"\n");
    assert_eq!(multiline_value("a\"\"\"b\\c"), "\"\"\"\na\"\"\\\"b\\\\c\n\"\"\"\n");
    assert_eq!(multiline_value("\"\"\"\"\"\""), "\"\"\"\n\"\"\\\"\"\"\\\"\n\"\"\"\n");
}

#[test]
fn multiline_value_escapes_control_characters() {
    assert_eq!(multiline_value("x\u{1}y\u{7f}"), "\"\"\"\nx\\u0001y\\u007F\n\"\"\"\n");
    assert_eq!(multiline_value("a\r\nb\tc"), "\"\"\"\na\\r\nb\tc\n\"\"\"\n");
    assert_eq!(multiline_value("\u{1b}"), "\"\"\"\n\\u001B\n\"\"\"\n");
}

#[test]
fn default_trust_applies() {
    assert!(TrustedIssuers::default().apply().is_ok());
    assert!(TrustedIssuers::new(None, None).apply().is_ok());
}

#[test]
fn error_status_codes_and_text() {
    assert_eq!(ProvenanceError::UnsupportedMediaType.http_status(), 415);
    assert_eq!(ProvenanceError::ManifestMissing.http_status(), 422);
    assert_eq!(ProvenanceError::C2pa("x".into()).http_status(), 422);
    assert_eq!(ProvenanceError::RemoteDisabled.http_status(), 403);
    assert_eq!(ProvenanceError::RemoteUrlNotAllowed("u".into()).http_status(), 403);
    assert_eq!(ProvenanceError::InvalidUrl("u".into()).http_status(), 400);
    assert_eq!(ProvenanceError::Multipart("m".into()).http_status(), 400);
    assert_eq!(ProvenanceError::RemoteStatus(404).http_status(), 502);
    assert_eq!(ProvenanceError::Network("n".into()).http_status(), 502);
    assert_eq!(ProvenanceError::InvalidUrl("x y".into()).message(), "invalid url: x y");
    assert_eq!(ProvenanceError::RemoteDisabled.message(), "remote loading is disabled");
}

#[test]
fn empty_or_unknown_bytes_are_unsupported() {
    let trusted = TrustedIssuers::default();
    assert!(matches!(interpret_bytes(&[], &trusted), Err(ProvenanceError::UnsupportedMediaType)));
    let noise = [0u8, 1, 2, 3, 4, 5, 6, 7];
    assert!(matches!(interpret_bytes(&noise, &trusted), Err(ProvenanceError::UnsupportedMediaType)));
    let other = TrustedIssuers::new(Some("not pem".into()), Some("{}".into()));
    assert!(matches!(interpret_bytes(&noise, &other), Err(ProvenanceError::UnsupportedMediaType)));
}

#[test]
fn stripped_manifest_returns_error() {
    let png: [u8; 67] = [
        0x89, 0x50, 0x4E, 0x47, 0x0D, 0x0A, 0x1A, 0x0A, 0x00, 0x00, 0x00, 0x0D, 0x49, 0x48, 0x44,
        0x52, 0x00, 0x00, 0x00, 0x01, 0x00, 0x00, 0x00, 0x01, 0x08, 0x06, 0x00, 0x00, 0x00, 0x1F,
        0x15, 0xC4, 0x89, 0x00, 0x00, 0x00, 0x0A, 0x49, 0x44, 0x41, 0x54, 0x78, 0x9C, 0x63, 0x00,
        0x01, 0x00, 0x00, 0x05, 0x00, 0x01, 0x0D, 0x0A, 0x2D, 0xB4, 0x00, 0x00, 0x00, 0x00, 0x49,
        0x45, 0x4E, 0x44, 0xAE, 0x42, 0x60, 0x82,
    ];
    let err = interpret_bytes(&png, &TrustedIssuers::default()).expect_err("expected missing manifest error");
    assert!(matches!(err, ProvenanceError::ManifestMissing));
}

#[test]
fn report_projects_engine_output() {
    let chain = format!("{BEGIN}\nAAA\n{END}\n{BEGIN}\nBBB\n{END}\n");
    let actions = vec![
        ActionRecord {
            action: "c2pa.created".into(),
            when: Some("2024-01-01T00:00:00Z".into()),
            software_agent: Some(AgentInfo::Text("Editor 1.0".into())),
            description: None,
        },
        ActionRecord {
            action: "c2pa.color_adjustments".into(),
            when: None,
            software_agent: Some(AgentInfo::Generator("Tool".into())),
            description: Some("brighter".into()),
        },
    ];
    let manifests = vec![ManifestRecord {
        label: Some("urn:uuid:1".into()),
        title: Some("photo.jpg".into()),
        format: Some("image/jpeg".into()),
        generator: Some("gen".into()),
        ingredients: vec![IngredientRecord {
            title: Some("raw.jpg".into()),
            format: None,
            document_id: Some("doc".into()),
            relationship: "ParentOf".into(),
            manifest: None,
        }],
    }];
    let report = build_report(
        Some("Issuer".into()),
        Some(chain),
        Some(actions),
        manifests,
        ValidationState::Invalid,
        vec!["assertion.dataHash.mismatch".into()],
    );
    assert_eq!(report.issuer.as_deref(), Some("Issuer"));
    assert_eq!(report.certificate_chain.len(), 2);
    assert_eq!(report.certificate_chain[1], format!("{BEGIN}\nBBB\n{END}"));
    assert_eq!(report.edits.len(), 2);
    assert_eq!(report.edits[0].software_agent.as_deref(), Some("Editor 1.0"));
    assert_eq!(report.edits[1].software_agent.as_deref(), Some("Tool"));
    assert_eq!(report.edits[1].description.as_deref(), Some("brighter"));
    assert_eq!(report.claims.len(), 1);
    assert_eq!(report.claims[0].ingredients[0].relationship.as_deref(), Some("ParentOf"));
    assert_eq!(report.claims[0].ingredients[0].document_id.as_deref(), Some("doc"));
    assert_eq!(report.validation_state, ValidationState::Invalid);
    assert_eq!(report.validation_status, vec!["assertion.dataHash.mismatch".to_string()]);
}

#[test]
fn report_without_history_or_signature_is_empty_there() {
    let report = build_report(None, None, None, Vec::new(), ValidationState::Valid, Vec::new());
    assert!(report.issuer.is_none());
    assert!(report.certificate_chain.is_empty());
    assert!(report.edits.is_empty());
    assert!(report.claims.is_empty());
    assert!(report.validation_status.is_empty());
}

#[test]
fn clean_allow_list_serializes_back_unchanged() {
    let text = "example.com,https://example.net/base,cdn.example.org";
    let rules = parse_allow_list(text);
    assert_eq!(rules.len(), 3);
    let written = serialize_allow_list(&rules);
    assert_eq!(written, text);
    let again = parse_allow_list(&written);
    assert_eq!(serialize_allow_list(&again), text);
}

#[test]
fn allow_list_serialization_normalizes_messy_input() {
    let rules = parse_allow_list(" a.example ,\n https://B.example ");
    assert_eq!(serialize_allow_list(&rules), "a.example,https://b.example/");
}

#[test]
fn remote_status_text_names_the_code() {
    assert_eq!(
        ProvenanceError::RemoteStatus(404).message(),
        "unexpected remote status: 404 Not Found"
    );
    assert_eq!(
        ProvenanceError::RemoteStatus(503).message(),
        "unexpected remote status: 503 Service Unavailable"
    );
    assert_eq!(ProvenanceError::RemoteStatus(599).message(), "unexpected remote status: 599");
    assert_eq!(ProvenanceError::RemoteStatus(7).message(), "unexpected remote status: 7");
    assert_eq!(ProvenanceError::RemoteStatus(65535).message(), "unexpected remote status: 65535");
}

#[test]
fn trust_config_embeds_material_verbatim() {
    assert!(TrustedIssuers::new(None, None).config().is_none());
    assert!(TrustedIssuers::default().config().is_none());
    let both = TrustedIssuers::new(Some("PEM\n".into()), Some("{\"a\":1}".into()));
    assert_eq!(
        both.config().unwrap(),
        "[trust]\nverify_trust_list = true\nuser_anchors = \"\"\"\nPEM\n\"\"\"\n\
         trust_config = \"\"\"\n{\"a\":1}\n\"\"\"\n[verify]\nverify_trust = true\n"
    );
    let anchors = TrustedIssuers::new(Some("X".into()), None);
    assert_eq!(
        anchors.config().unwrap(),
        "[trust]\nverify_trust_list = true\nuser_anchors = \"\"\"\nX\n\"\"\"\n[verify]\nverify_trust = true\n"
    );
    let list = TrustedIssuers::new(None, Some("L".into()));
    assert_eq!(
        list.config().unwrap(),
        "[trust]\nverify_trust_list = true\ntrust_config = \"\"\"\nL\n\"\"\"\n[verify]\nverify_trust = true\n"
    );
}

fn one_manifest() -> Vec<ManifestRecord> {
    vec![ManifestRecord {
        label: Some("urn:uuid:1".into()),
        title: None,
        format: None,
        generator: None,
        ingredients: Vec::new(),
    }]
}

fn active() -> ActiveRecord {
    ActiveRecord {
        issuer: Some("Issuer".into()),
        cert_chain: Some(format!("{BEGIN}\nAAA\n{END}\n")),
        actions: None,
    }
}

#[test]
fn store_without_active_manifest_is_missing() {
    let r = assemble_report(None, one_manifest(), ValidationState::Valid, Vec::new());
    assert!(matches!(r, Err(ProvenanceError::ManifestMissing)));
}

#[test]
fn store_without_manifests_is_missing() {
    let r = assemble_report(Some(active()), Vec::new(), ValidationState::Valid, Vec::new());
    assert!(matches!(r, Err(ProvenanceError::ManifestMissing)));
}

#[test]
fn store_with_active_manifest_is_reported() {
    let report = assemble_report(
        Some(active()),
        one_manifest(),
        ValidationState::Trusted,
        vec!["signingCredential.trusted".into()],
    )
    .expect("report");
    assert_eq!(report.issuer.as_deref(), Some("Issuer"));
    assert_eq!(report.certificate_chain, vec![format!("{BEGIN}\nAAA\n{END}")]);
    assert!(report.edits.is_empty());
    assert_eq!(report.claims.len(), 1);
    assert_eq!(report.claims[0].label.as_deref(), Some("urn:uuid:1"));
    assert_eq!(report.validation_state, ValidationState::Trusted);
}

#[test]
fn engine_errors_are_classified() {
    assert!(matches!(engine_error(true, String::new()), ProvenanceError::ManifestMissing));
    match engine_error(false, "bad claim".into()) {
        ProvenanceError::C2pa(d) => assert_eq!(d, "bad claim"),
        _ => panic!("expected engine error"),
    }
}

#[test]
fn engine_accepts_embedded_awkward_text() {
    let awkward = "a\"\"\"b\\c\u{1}\r\nd\u{7f}\"\"";
    let trusted = TrustedIssuers::new(None, Some(awkward.to_string()));
    assert!(trusted.apply().is_ok());
}
