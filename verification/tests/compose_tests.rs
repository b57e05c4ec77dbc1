use gic_core::docker::compose::ComposeDetector;
use gic_core::docker::compose_networks::ComposeNetworkValidator;
use gic_core::docker::compose_services::ComposeServiceValidator;
use gic_core::docker::compose_volumes::ComposeVolumeValidator;
use gic_core::docker::engine::{DockerEngine, DockerEngineOptions};
use gic_core::docker::security::{DockerSecurityAnalyzer, DockerSecuritySeverity};
use gic_core::docker::validator::{DockerSeverity, DockerValidator};
use gic_core::yaml::{Position, Span, YamlAST, YamlDocument, YamlMapping, YamlNode, YamlPair, YamlScalar, YamlSequence, YamlValue};

fn sp(line: usize) -> Span {
    Span::new(Position::new(line, 1, 0), Position::new(line, 20, 0))
}

fn node(value: YamlValue, line: usize) -> YamlNode {
    YamlNode { id: line, anchor: None, value, leading_comments: Vec::new(), trailing_comment: None, span: sp(line) }
}

fn scalar(text: &str, line: usize) -> YamlNode {
    node(YamlValue::Scalar(YamlScalar { value: text.to_string(), span: sp(line) }), line)
}

fn null(line: usize) -> YamlNode {
    node(YamlValue::Null, line)
}

fn list(items: &[&str], line: usize) -> YamlNode {
    let items = items.iter().enumerate().map(|(i, t)| scalar(t, line + 1 + i)).collect();
    node(YamlValue::Sequence(YamlSequence { items, span: sp(line) }), line)
}

fn pair(key: &str, value: YamlNode, line: usize) -> YamlPair {
    YamlPair { key: YamlScalar { value: key.to_string(), span: sp(line) }, value, span: sp(line) }
}

fn mapping(pairs: Vec<YamlPair>, line: usize) -> YamlNode {
    node(YamlValue::Mapping(YamlMapping { pairs, span: sp(line) }), line)
}

fn ast_of(root: YamlNode) -> YamlAST {
    YamlAST { documents: vec![YamlDocument { root: Some(root), span: sp(1) }] }
}

fn service_doc() -> YamlAST {
    ast_of(mapping(
        vec![
            pair("version", scalar("3.8", 1), 1),
            pair("services", null(2), 2),
            pair("web", null(3), 3),
            pair("image", scalar("nginx:1.25", 4), 4),
            pair("ports", list(&["80:80"], 5), 5),
            pair("restart", scalar("always", 7), 7),
            pair("broken_service", null(8), 8),
            pair("restart", scalar("invalid_policy", 9), 9),
        ],
        1,
    ))
}

#[test]
fn detector_recognises_compose_documents() {
    let det = ComposeDetector::new();
    assert!(det.is_compose_document(&service_doc()));
    let plain = ast_of(mapping(vec![pair("name", scalar("x", 1), 1)], 1));
    assert!(!det.is_compose_document(&plain));
    assert!(det.parse_compose(&plain).is_empty());
    let empty = YamlAST { documents: vec![YamlDocument { root: None, span: sp(1) }] };
    assert!(!det.is_compose_document(&empty));
}

#[test]
fn parse_compose_sorts_items_into_services() {
    let docs = ComposeDetector::new().parse_compose(&service_doc());
    assert_eq!(docs.len(), 1);
    let d = &docs[0];
    assert_eq!(d.version, "3.8");
    let names: Vec<&str> = d.services.iter().map(|(n, _)| n.as_str()).collect();
    assert_eq!(names, vec!["web", "broken_service"]);
    if let YamlValue::Mapping(ref m) = d.services[0].1.value {
        let keys: Vec<&str> = m.pairs.iter().map(|p| p.key.value.as_str()).collect();
        assert_eq!(keys, vec!["image", "ports", "restart"]);
    } else {
        panic!("service is a mapping");
    }
    assert!(d.networks.is_empty());
    assert!(d.root_node.is_some());
}

#[test]
fn compose_service_checks_on_flat_document() {
    let diags = DockerValidator::new().validate_compose_ast(&service_doc());
    let rules: Vec<&str> = diags.iter().map(|d| d.rule_id.as_str()).collect();
    assert_eq!(
        rules,
        vec![
            "compose-invalid-restart-policy",
            "compose-service-missing-image-or-build",
            "sec-compose-writable-rootfs",
            "sec-compose-writable-rootfs",
        ]
    );
    assert_eq!(diags[2].severity, DockerSeverity::Warning);
    assert_eq!(diags[0].message, "Invalid restart policy 'invalid_policy' in service 'broken_service'");
    assert_eq!(diags[1].message, "Service 'broken_service' must specify either 'image' or 'build'");
    assert!(diags[..2].iter().all(|d| d.severity == DockerSeverity::Error));
}

#[test]
fn compose_relationship_checks() {
    let ast = ast_of(mapping(
        vec![
            pair("version", scalar("3.8", 1), 1),
            pair("services", null(2), 2),
            pair("web", null(3), 3),
            pair("image", scalar("nginx:1.25", 4), 4),
            pair("depends_on", list(&["missing_db"], 5), 5),
            pair("networks", list(&["missing_net", "default"], 7), 7),
            pair("volumes", list(&["missing_vol:/data", "./local:/x"], 10), 10),
        ],
        1,
    ));
    let diags = DockerValidator::new().validate_compose_ast(&ast);
    let rules: Vec<&str> = diags.iter().map(|d| d.rule_id.as_str()).collect();
    assert_eq!(
        rules,
        vec![
            "rel-compose-dangling-depends-on",
            "rel-compose-dangling-network",
            "rel-compose-dangling-volume",
            "sec-compose-writable-rootfs",
        ]
    );
    assert_eq!(diags[0].message, "Service 'web' depends_on undefined service 'missing_db'");
    assert_eq!(diags[2].message, "Service 'web' references undefined top-level volume 'missing_vol'");
    assert_eq!(diags[0].span, sp(6));
}

#[test]
fn compose_security_checks() {
    let ast = ast_of(mapping(
        vec![
            pair("version", scalar("3.8", 1), 1),
            pair("services", null(2), 2),
            pair("app", null(3), 3),
            pair("image", scalar("myapp:1.0", 4), 4),
            pair("privileged", scalar("true", 5), 5),
            pair("network_mode", scalar(" host ", 6), 6),
        ],
        1,
    ));
    let docs = ComposeDetector::new().parse_compose(&ast);
    let findings = DockerSecurityAnalyzer::new().audit_compose(&docs[0]);
    assert_eq!(findings.len(), 3);
    assert_eq!(findings[2].rule_id, "sec-compose-writable-rootfs");
    assert_eq!(findings[2].message, "Service 'app' does not set 'read_only: true', leaving its root filesystem writable");
    assert_eq!(findings[0].rule_id, "sec-compose-privileged-container");
    assert_eq!(findings[0].severity, DockerSecuritySeverity::Critical);
    assert_eq!(findings[0].line, 5);
    assert_eq!(findings[1].rule_id, "sec-compose-host-network");
    assert_eq!(findings[1].fix_suggestion.as_deref(), Some("network_mode: bridge"));

    let mut engine = DockerEngine::default();
    let (diags, gic) = engine.validate_compose("app compose", Some(&ast));
    assert!(diags.iter().any(|d| d.rule_id == "sec-compose-privileged-container"));
    assert!(diags.iter().any(|d| d.rule_id == "sec-compose-host-network"));
    assert_eq!(gic.len(), diags.len());
    let (again, _) = engine.validate_compose("app compose", Some(&ast));
    assert_eq!(again, diags);
    assert_eq!(engine.cache().metrics().hits, 1);
}

#[test]
fn compose_network_and_volume_checks() {
    let ast = ast_of(mapping(
        vec![
            pair("version", scalar("3.8", 1), 1),
            pair("networks", null(2), 2),
            pair("front", null(3), 3),
            pair("driver", scalar("weird", 4), 4),
            pair("volumes", null(5), 5),
            pair("data", null(6), 6),
            pair("driver", scalar("   ", 7), 7),
        ],
        1,
    ));
    let docs = ComposeDetector::new().parse_compose(&ast);
    assert_eq!(docs[0].networks.len(), 1);
    assert_eq!(docs[0].volumes.len(), 1);
    let n = ComposeNetworkValidator::new().validate_network("front", &docs[0].networks[0].1);
    assert_eq!(n.len(), 1);
    assert_eq!(n[0].message, "Unknown network driver 'weird' in network 'front'");
    let v = ComposeVolumeValidator::new().validate_volume("data", &docs[0].volumes[0].1);
    assert_eq!(v.len(), 1);
    assert_eq!(v[0].rule_id, "compose-empty-volume-driver");
    let diags = DockerValidator::new().validate_compose_ast(&ast);
    let rules: Vec<&str> = diags.iter().map(|d| d.rule_id.as_str()).collect();
    assert_eq!(rules, vec!["compose-invalid-network-driver", "compose-empty-volume-driver"]);
}

#[test]
fn service_port_and_volume_bindings() {
    let svc = mapping(
        vec![
            pair("build", scalar(".", 1), 1),
            pair("ports", list(&["1:2:3:4", "", "8080"], 2), 2),
            pair("volumes", list(&["  ", "data:/d"], 6), 6),
        ],
        1,
    );
    let issues = ComposeServiceValidator::new().validate_service("api", &svc);
    let rules: Vec<&str> = issues.iter().map(|i| i.rule_id.as_str()).collect();
    assert_eq!(rules, vec!["compose-invalid-port-binding", "compose-invalid-port-binding", "compose-empty-volume-binding"]);
    assert_eq!(issues[0].message, "Invalid port binding specification '1:2:3:4' in service 'api'");
    assert_eq!(issues[0].line, 3);
    assert_eq!(issues[2].line, 7);
    assert!(ComposeServiceValidator::new().validate_service("x", &scalar("s", 1)).is_empty());
}

#[test]
fn unparsed_compose_source_gives_nothing() {
    let mut engine = DockerEngine::new(DockerEngineOptions { enable_cache: false, cache_capacity: 4 });
    let (diags, gic) = engine.validate_compose("::: not yaml", None);
    assert!(diags.is_empty());
    assert!(gic.is_empty());
}

#[test]
fn test_compose_service_validation() {
    let mut engine = DockerEngine::new(DockerEngineOptions { enable_cache: false, cache_capacity: 0 });
    let (diags, _) = engine.validate_compose("service compose", Some(&service_doc()));
    assert!(diags.iter().any(|d| d.rule_id == "compose-service-missing-image-or-build"));
    assert!(diags.iter().any(|d| d.rule_id == "compose-invalid-restart-policy"));
}

#[test]
fn test_dangling_depends_on_networks_and_volumes() {
    let ast = ast_of(mapping(
        vec![
            pair("version", scalar("3.8", 1), 1),
            pair("services", null(2), 2),
            pair("web", null(3), 3),
            pair("image", scalar("nginx:1.25", 4), 4),
            pair("depends_on", list(&["missing_db"], 5), 5),
            pair("networks", list(&["missing_net"], 7), 7),
            pair("volumes", list(&["missing_vol:/data"], 9), 9),
        ],
        1,
    ));
    let mut engine = DockerEngine::new(DockerEngineOptions { enable_cache: false, cache_capacity: 0 });
    let (diags, _) = engine.validate_compose("relationship compose", Some(&ast));
    assert!(diags.iter().any(|d| d.rule_id == "rel-compose-dangling-depends-on"));
    assert!(diags.iter().any(|d| d.rule_id == "rel-compose-dangling-network"));
    assert!(diags.iter().any(|d| d.rule_id == "rel-compose-dangling-volume"));
}

#[test]
fn test_compose_security_audit_detects_privileged_and_host_network() {
    let ast = ast_of(mapping(
        vec![
            pair("version", scalar("3.8", 1), 1),
            pair("services", null(2), 2),
            pair("app", null(3), 3),
            pair("image", scalar("myapp:1.0", 4), 4),
            pair("privileged", scalar("true", 5), 5),
            pair("network_mode", scalar("host", 6), 6),
        ],
        1,
    ));
    let mut engine = DockerEngine::default();
    let (diags, _) = engine.validate_compose("security compose", Some(&ast));
    assert!(diags.iter().any(|d| d.rule_id == "sec-compose-privileged-container"));
    assert!(diags.iter().any(|d| d.rule_id == "sec-compose-host-network"));
}

#[test]
fn compose_audit_flags_dangerous_capabilities_and_writable_root() {
    let ast = ast_of(mapping(
        vec![
            pair("version", scalar("3.8", 1), 1),
            pair("services", null(2), 2),
            pair("ro", null(3), 3),
            pair("image", scalar("ro:1.0", 4), 4),
            pair("read_only", scalar("true", 5), 5),
            pair("app", null(6), 6),
            pair("image", scalar("myapp:1.0", 7), 7),
            pair("cap_add", list(&["NET_BIND_SERVICE", "SYS_ADMIN", " ALL "], 8), 8),
        ],
        1,
    ));
    let docs = ComposeDetector::new().parse_compose(&ast);
    let findings = DockerSecurityAnalyzer::new().audit_compose(&docs[0]);
    let rules: Vec<&str> = findings.iter().map(|f| f.rule_id.as_str()).collect();
    assert_eq!(
        rules,
        vec!["sec-compose-dangerous-capability", "sec-compose-dangerous-capability", "sec-compose-writable-rootfs"]
    );
    assert_eq!(findings[0].message, "Service 'app' adds dangerous capability 'SYS_ADMIN'");
    assert_eq!(findings[0].line, 10);
    assert_eq!(findings[1].message, "Service 'app' adds dangerous capability 'ALL'");
    assert_eq!(findings[2].severity, DockerSecuritySeverity::Medium);
    assert_eq!(findings[2].fix_suggestion.as_deref(), Some("read_only: true"));
}
