//! Dockerfile and Docker Compose analysis: parsing, multi-stage tracking,
//! security audits, best practices, layer optimization and validation.

pub mod best_practices;
pub mod cache;
pub mod compose;
pub mod compose_networks;
pub mod compose_services;
pub mod compose_volumes;
pub mod diagnostics;
pub mod dockerfile;
pub mod engine;
pub mod errors;
pub mod image_analysis;
pub mod instructions;
pub mod optimization;
pub mod scan;
pub mod security;
pub mod stages;
pub mod validator;

pub use best_practices::{BestPracticeRecommendation, DockerBestPracticesAnalyzer};
pub use cache::{DockerCache, DockerCacheEntry, DockerCacheMetrics};
pub use compose::{ComposeDetector, ComposeDocument};
pub use compose_networks::{ComposeNetworkIssue, ComposeNetworkValidator};
pub use compose_services::{ComposeServiceIssue, ComposeServiceValidator};
pub use compose_volumes::{ComposeVolumeIssue, ComposeVolumeValidator};
pub use diagnostics::{convert_docker_diagnostic, convert_docker_diagnostics};
pub use dockerfile::{DockerfileAST, DockerfileParser};
pub use engine::{DockerEngine, DockerEngineOptions};
pub use errors::{DockerError, DockerResult};
pub use image_analysis::{ImageAnalyzer, ImageMetricsReport};
pub use instructions::{DockerfileInstruction, InstructionKind};
pub use optimization::{DockerOptimizationAnalyzer, OptimizationFinding};
pub use security::{DockerSecurityAnalyzer, DockerSecurityFinding, DockerSecuritySeverity};
pub use stages::{BuildStage, MultiStageAnalyzer, StageReferenceIssue};
pub use validator::{DockerDiagnostic, DockerSeverity, DockerValidator};
