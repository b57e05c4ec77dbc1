//! Errors of diagnostic generation, validation and rule execution.

use vstd::prelude::*;
use crate::text::concat_strs;

verus! {

/// Errors that can occur during diagnostic generation, validation, or rule execution.
#[derive(Debug, Clone, PartialEq, Eq)]
pub enum DiagnosticError {
    /// Validator for a specific language or type was not found.
    ValidatorNotFound(String),
    /// Specified validation rule was not found in the registry.
    RuleNotFound(String),
    /// Invalid rule configuration or parameters.
    InvalidRuleConfig(String),
    /// Validation operation was cancelled before completion.
    ValidationCancelled,
    /// Diagnostic cache error or inconsistency.
    CacheError(String),
    /// Execution error during rule evaluation.
    ExecutionError(String),
    /// Generic system or unexpected error.
    SystemError(String),
}

/// Result type of diagnostic operations.
pub type DiagnosticResult<T> = Result<T, DiagnosticError>;

/// The message of a diagnostic error.
pub open spec fn diagnostic_error_message(e: DiagnosticError) -> Seq<char> {
    match e {
        DiagnosticError::ValidatorNotFound(lang) => "Validator not found for language/type: '"@
            + lang@ + "'"@,
        DiagnosticError::RuleNotFound(rule) => "Validation rule not found: '"@ + rule@ + "'"@,
        DiagnosticError::InvalidRuleConfig(msg) => "Invalid rule configuration: "@ + msg@,
        DiagnosticError::ValidationCancelled => "Validation operation was cancelled"@,
        DiagnosticError::CacheError(msg) => "Diagnostic cache error: "@ + msg@,
        DiagnosticError::ExecutionError(msg) => "Validation execution error: "@ + msg@,
        DiagnosticError::SystemError(msg) => "Diagnostic system error: "@ + msg@,
    }
}

impl DiagnosticError {
    /// The human-readable message of this error.
    pub fn to_message(&self) -> (r: String)
        ensures
            r@ == diagnostic_error_message(*self),
    {
        match self {
            DiagnosticError::ValidatorNotFound(lang) => {
                let mut s = concat_strs("Validator not found for language/type: '", lang.as_str());
                s.append("'");
                s
            },
            DiagnosticError::RuleNotFound(rule) => {
                let mut s = concat_strs("Validation rule not found: '", rule.as_str());
                s.append("'");
                s
            },
            DiagnosticError::InvalidRuleConfig(msg) => concat_strs(
                "Invalid rule configuration: ",
                msg.as_str(),
            ),
            DiagnosticError::ValidationCancelled => "Validation operation was cancelled".to_owned(),
            DiagnosticError::CacheError(msg) => concat_strs("Diagnostic cache error: ", msg.as_str()),
            DiagnosticError::ExecutionError(msg) => concat_strs(
                "Validation execution error: ",
                msg.as_str(),
            ),
            DiagnosticError::SystemError(msg) => concat_strs(
                "Diagnostic system error: ",
                msg.as_str(),
            ),
        }
    }
}

} // verus!
