//! Errors of Dockerfile and Compose parsing and analysis.

use vstd::prelude::*;
use crate::text::{concat_strs, decimal, push_decimal};
use crate::yaml::Span;

verus! {

/// Errors of Dockerfile or Compose parsing and analysis.
#[derive(Debug, Clone, PartialEq, Eq)]
pub enum DockerError {
    /// Dockerfile syntax error at a line.
    SyntaxError { line: usize, message: String, span: Span },
    /// Invalid or unrecognized instruction.
    UnknownInstruction { instruction: String, line: usize, span: Span },
    /// Invalid Docker Compose document structure.
    ComposeError { message: String, span: Span },
    /// Cache operation error.
    CacheError(String),
}

/// Result type of Docker engine operations.
pub type DockerResult<T> = Result<T, DockerError>;

/// The message of a Docker error.
pub open spec fn docker_error_message(e: DockerError) -> Seq<char> {
    match e {
        DockerError::SyntaxError { line, message, .. } => "Dockerfile syntax error at line "@
            + decimal(line as nat) + ": "@ + message@,
        DockerError::UnknownInstruction { instruction, line, .. } => "Unknown Dockerfile instruction '"@
            + instruction@ + "' at line "@ + decimal(line as nat),
        DockerError::ComposeError { message, .. } => "Docker Compose document error: "@ + message@,
        DockerError::CacheError(m) => "Docker cache operation error: "@ + m@,
    }
}

impl DockerError {
    /// The human-readable message of this error.
    pub fn to_message(&self) -> (r: String)
        ensures
            r@ == docker_error_message(*self),
    {
        match self {
            DockerError::SyntaxError { line, message, .. } => {
                let mut s = "Dockerfile syntax error at line ".to_owned();
                push_decimal(&mut s, *line);
                s.append(": ");
                s.append(message.as_str());
                s
            },
            DockerError::UnknownInstruction { instruction, line, .. } => {
                let mut s = concat_strs("Unknown Dockerfile instruction '", instruction.as_str());
                s.append("' at line ");
                push_decimal(&mut s, *line);
                s
            },
            DockerError::ComposeError { message, .. } => concat_strs(
                "Docker Compose document error: ",
                message.as_str(),
            ),
            DockerError::CacheError(m) => concat_strs("Docker cache operation error: ", m.as_str()),
        }
    }
}

} // verus!
