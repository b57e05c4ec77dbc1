use gic_core::docker::security::DockerSecurityAnalyzer;
use gic_core::docker::cache::DockerCache;
use gic_core::docker::dockerfile::DockerfileParser;
use gic_core::docker::engine::{DockerEngine, DockerEngineOptions};
use gic_core::docker::errors::DockerError;
use gic_core::docker::image_analysis::ImageAnalyzer;
use gic_core::docker::instructions::InstructionKind;
use gic_core::docker::stages::MultiStageAnalyzer;
use gic_core::docker::validator::DockerValidator;
use gic_core::yaml::{Position, Span};

#[test]
fn test_parse_multi_stage_dockerfile() {
    let source = r#"
FROM golang:1.22-bookworm AS builder
WORKDIR /app
COPY go.mod go.sum ./
RUN go mod download
COPY . .
RUN CGO_ENABLED=0 go build -o server .

FROM alpine:3.19
WORKDIR /root/
COPY --from=builder /app/server .
USER 10001
CMD ["./server"]
"#;

    let parser = DockerfileParser::new();
    let ast = parser.parse(source).unwrap();

    assert_eq!(ast.instructions.len(), 11);

    if let InstructionKind::From { ref image, ref stage_alias, .. } = ast.instructions[0].kind {
        assert_eq!(image, "golang:1.22-bookworm");
        assert_eq!(stage_alias.as_deref(), Some("builder"));
    } else {
        panic!("Expected FROM instruction");
    }

    if let InstructionKind::Copy { ref from_stage, ref destination, .. } = ast.instructions[8].kind {
        assert_eq!(from_stage.as_deref(), Some("builder"));
        assert_eq!(destination, ".");
    } else {
        panic!("Expected COPY --from instruction");
    }
}

#[test]
fn parser_joins_continuation_lines_and_reads_exec_form() {
    let source = "FROM alpine:3.19\nRUN apk add \\\n    curl\nCMD [\"sh\", \"-c\", \"echo hi\"]\n";
    let ast = DockerfileParser::new().parse(source).unwrap();
    assert_eq!(ast.instructions.len(), 3);
    if let InstructionKind::Cmd { ref arguments, is_exec_form } = ast.instructions[2].kind {
        assert!(is_exec_form);
        assert_eq!(arguments, &vec!["sh".to_string(), "-c".to_string(), "echo hi".to_string()]);
    } else {
        panic!("Expected CMD instruction");
    }
}

#[test]
fn parser_reads_env_pairs_and_arg_defaults() {
    let source = "FROM alpine:3.19\nENV A=1 B=two\nARG VERSION=1.0\n";
    let ast = DockerfileParser::new().parse(source).unwrap();
    if let InstructionKind::Env { ref pairs } = ast.instructions[1].kind {
        assert_eq!(pairs, &vec![("A".to_string(), "1".to_string()), ("B".to_string(), "two".to_string())]);
    } else {
        panic!("Expected ENV instruction");
    }
    if let InstructionKind::Arg { ref name, ref default_value } = ast.instructions[2].kind {
        assert_eq!(name, "VERSION");
        assert_eq!(default_value.as_deref(), Some("1.0"));
    } else {
        panic!("Expected ARG instruction");
    }
}

#[test]
fn test_optimization_detects_unchained_apt_get_update() {
    let source = r#"
FROM debian:12-slim
RUN apt-get update
RUN apt-get install -y curl
USER 10001
CMD ["curl"]
"#;

    let mut engine = DockerEngine::default();
    let (diags, _) = engine.validate_dockerfile(source);

    assert!(diags.iter().any(|d| d.rule_id == "opt-docker-chain-apt-update-install"));
}

#[test]
fn test_large_dockerfile_validation_and_caching() {
    let mut dockerfile = String::from("FROM alpine:3.19 AS base\nWORKDIR /app\nUSER 10001\n");
    for i in 0..50 {
        dockerfile.push_str(&format!("ENV VAR_{i}=val_{i}\n"));
    }

    let mut engine = DockerEngine::default();

    let (diags1, _) = engine.validate_dockerfile(&dockerfile);
    let (diags2, _) = engine.validate_dockerfile(&dockerfile);

    assert_eq!(diags1, diags2);
    let metrics = engine.cache().metrics();
    assert_eq!(metrics.hits, 1);
    assert_eq!(metrics.entries_count, 1);
}

#[test]
fn test_security_audit_detects_root_user_unpinned_tag_and_secrets() {
    let source = r#"
FROM ubuntu:latest
ENV DB_PASSWORD=supersecretpassword123
ADD http://example.com/app.tar.gz /tmp/
USER root
CMD ["/tmp/app"]
"#;

    let mut engine = DockerEngine::default();
    let (diags, _) = engine.validate_dockerfile(source);

    assert!(diags.iter().any(|d| d.rule_id == "sec-docker-no-latest-tag"));
    assert!(diags.iter().any(|d| d.rule_id == "sec-docker-secret-in-env"));
    assert!(diags.iter().any(|d| d.rule_id == "sec-docker-user-root"));
}

#[test]
fn validation_with_cache_off_is_repeatable_and_caches_nothing() {
    let mut engine = DockerEngine::new(DockerEngineOptions { enable_cache: false, cache_capacity: 0 });
    let source = "FROM alpine\nCMD [\"a\"]\nCMD [\"b\"]\n";
    let (d1, g1) = engine.validate_dockerfile(source);
    let (d2, _) = engine.validate_dockerfile(source);
    assert_eq!(d1, d2);
    assert_eq!(g1.len(), d1.len());
    assert!(d1.iter().any(|d| d.rule_id == "dockerfile-multiple-cmd"));
    let m = engine.cache().metrics();
    assert_eq!((m.hits, m.misses, m.entries_count), (0, 0, 0));
}

#[test]
fn engine_converts_docker_diagnostics() {
    let mut engine = DockerEngine::default();
    let (docker, gic) = engine.validate_dockerfile("FROM ubuntu:latest\n");
    assert_eq!(docker.len(), gic.len());
    for (d, g) in docker.iter().zip(gic.iter()) {
        assert_eq!(d.rule_id, g.rule_name);
        assert_eq!(d.message, g.message);
    }
}

#[test]
fn engine_default_options() {
    let o = DockerEngineOptions::default();
    assert!(o.enable_cache);
    assert_eq!(o.cache_capacity, 256);
}

#[test]
fn docker_cache_makes_room_when_full() {
    let mut cache = DockerCache::new(1);
    cache.insert(1, Vec::new());
    cache.insert(2, Vec::new());
    assert!(cache.get(1).is_none());
    assert!(cache.get(2).is_some());
    let m = cache.metrics();
    assert_eq!((m.hits, m.misses, m.entries_count), (1, 1, 1));
    cache.clear();
    assert_eq!(cache.metrics().entries_count, 0);
}

#[test]
fn docker_cache_evicts_the_least_recently_used_entry() {
    let mut cache = DockerCache::new(2);
    cache.insert(1, Vec::new());
    cache.insert(2, Vec::new());
    assert!(cache.get(1).is_some());
    cache.insert(3, Vec::new());
    assert_eq!(cache.metrics().entries_count, 2);
    assert!(cache.get(2).is_none());
    assert!(cache.get(1).is_some());
    assert!(cache.get(3).is_some());
    cache.insert(1, Vec::new());
    assert_eq!(cache.metrics().entries_count, 2);
}

#[test]
fn docker_cache_hash_is_stable() {
    assert_eq!(DockerCache::compute_hash("FROM a"), DockerCache::compute_hash("FROM a"));
    assert_ne!(DockerCache::compute_hash("FROM a"), DockerCache::compute_hash("FROM b"));
}

#[test]
fn stage_reference_to_unknown_stage_is_reported() {
    let source = "FROM alpine AS base\nCOPY --from=missing /a /b\n";
    let ast = DockerfileParser::new().parse(source).unwrap();
    let issues = MultiStageAnalyzer::new().validate_stage_references(&ast);
    assert_eq!(issues.len(), 1);
    assert_eq!(issues[0].referenced_stage, "missing");
    assert_eq!(issues[0].message, "COPY --from='missing' references non-existent build stage");
    let stages = MultiStageAnalyzer::new().extract_stages(&ast);
    assert_eq!(stages.len(), 1);
    assert_eq!(stages[0].alias.as_deref(), Some("base"));
    assert_eq!(stages[0].instruction_count, 2);
}

#[test]
fn validator_reports_stage_reference_as_error() {
    let source = "FROM alpine AS base\nCOPY --from=nowhere /a /b\n";
    let diags = DockerValidator::new().validate_dockerfile(source);
    assert!(diags.iter().any(|d| d.rule_id == "docker-invalid-stage-reference"));
}

#[test]
fn image_size_classes() {
    let a = ImageAnalyzer::new();
    assert_eq!(a.estimate_metrics(3).estimated_size_class, "Small (<100MB)");
    assert_eq!(a.estimate_metrics(6).estimated_size_class, "Medium (100MB-500MB)");
    assert_eq!(a.estimate_metrics(16).estimated_size_class, "Large (>500MB)");
    assert_eq!(a.estimate_metrics(16).total_layers, 16);
}

#[test]
fn docker_error_messages() {
    let p = Position::new(1, 1, 0);
    let e = DockerError::SyntaxError { line: 3, message: "bad".to_string(), span: Span::new(p, p) };
    assert_eq!(e.to_message(), "Dockerfile syntax error at line 3: bad");
    let e = DockerError::CacheError("x".to_string());
    assert_eq!(e.to_message(), "Docker cache operation error: x");
}

#[test]
fn keywords_are_case_insensitive() {
    let ast = DockerfileParser::new().parse("from alpine:3.19 as base\nworkdir /app\n").unwrap();
    assert_eq!(ast.instructions.len(), 2);
    if let InstructionKind::From { ref image, ref stage_alias, .. } = ast.instructions[0].kind {
        assert_eq!(image, "alpine:3.19");
        assert_eq!(stage_alias.as_deref(), Some("base"));
    } else {
        panic!("Expected FROM instruction");
    }
    assert!(matches!(ast.instructions[1].kind, InstructionKind::Workdir { ref path } if path == "/app"));
}

#[test]
fn instruction_index_counts_instructions_only() {
    let ast = DockerfileParser::new().parse("# base\nFROM alpine:3.19\n\nUSER 10001\n").unwrap();
    assert_eq!(ast.instructions.len(), 2);
    assert_eq!(ast.instructions[0].index, 0);
    assert_eq!(ast.instructions[1].index, 1);
    assert_eq!(ast.instructions[0].line, 2);
    assert_eq!(ast.instructions[1].line, 4);
}

#[test]
fn copy_from_an_earlier_stage_is_accepted() {
    let ast = DockerfileParser::new()
        .parse("# build\nFROM golang:1.22 AS builder\nFROM alpine:3.19\nCOPY --from=builder /app/server /server\n")
        .unwrap();
    assert!(MultiStageAnalyzer::new().validate_stage_references(&ast).is_empty());
    let later = DockerfileParser::new()
        .parse("FROM alpine AS a\nCOPY --from=b /x /y\nFROM alpine AS b\nCOPY --from=1 /x /y\n")
        .unwrap();
    let issues = MultiStageAnalyzer::new().validate_stage_references(&later);
    assert_eq!(issues.len(), 2);
    assert_eq!(issues[0].message, "COPY --from='b' references stage defined at or after current stage");
    assert_eq!(issues[1].referenced_stage, "1");
}

#[test]
fn cache_counts_entries_after_a_miss() {
    let mut engine = DockerEngine::default();
    let mut src = String::from("FROM alpine:3.19 AS base\nWORKDIR /app\nUSER 10001\n");
    for i in 0..50 {
        src.push_str(&format!("ENV VAR_{i}=val_{i}\n"));
    }
    let (d1, _) = engine.validate_dockerfile(&src);
    let (d2, _) = engine.validate_dockerfile(&src);
    assert_eq!(d1, d2);
    let m = engine.cache().metrics();
    assert_eq!((m.hits, m.misses, m.entries_count), (1, 1, 1));
}

#[test]
fn missing_user_is_reported_once_at_the_last_instruction() {
    let ast = DockerfileParser::new().parse("FROM alpine:3.19\nRUN echo hi\nCMD [\"sh\"]\n").unwrap();
    let findings = DockerSecurityAnalyzer::new().audit_dockerfile(&ast);
    let missing: Vec<_> = findings.iter().filter(|f| f.rule_id == "sec-docker-missing-user").collect();
    assert_eq!(missing.len(), 1);
    assert_eq!(missing[0].line, 3);
    assert_eq!(findings.last().unwrap().rule_id, "sec-docker-missing-user");
    let with_user = DockerfileParser::new().parse("FROM alpine:3.19\nUSER 10001\n").unwrap();
    assert!(DockerSecurityAnalyzer::new().audit_dockerfile(&with_user).iter().all(|f| f.rule_id != "sec-docker-missing-user"));
    let empty = DockerfileParser::new().parse("# nothing\n").unwrap();
    assert!(DockerSecurityAnalyzer::new().audit_dockerfile(&empty).is_empty());
}

#[test]
fn three_cmds_give_two_warnings() {
    let diags = DockerValidator::new().validate_dockerfile("FROM alpine:3.19\nCMD a\nCMD b\nUSER 1\nCMD c\n");
    assert_eq!(diags.iter().filter(|d| d.rule_id == "dockerfile-multiple-cmd").count(), 2);
    let one = DockerValidator::new().validate_dockerfile("FROM alpine:3.19\nUSER 1\nCMD c\n");
    assert_eq!(one.iter().filter(|d| d.rule_id == "dockerfile-multiple-cmd").count(), 0);
}
