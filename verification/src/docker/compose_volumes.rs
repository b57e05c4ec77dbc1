//! Checks of Docker Compose top-level volume definitions: the driver.

use vstd::prelude::*;
use crate::docker::compose_networks::{driver_of, mapping_driver};
use crate::docker::compose_services::{join3, trimmed};
use crate::docker::scan::trim_ws;
use crate::yaml::{NodeView, ValueView, YamlNode, YamlValue, lemma_node_view_value, node_view};

verus! {

/// An issue in a volume definition.
#[derive(Debug, Clone, PartialEq, Eq)]
pub struct ComposeVolumeIssue {
    pub volume_name: String,
    pub rule_id: String,
    pub message: String,
    pub line: usize,
}

/// The value of a volume issue.
pub struct VolumeIssueView {
    pub volume_name: Seq<char>,
    pub rule_id: Seq<char>,
    pub message: Seq<char>,
    pub line: usize,
}

/// The values of a list of volume issues.
pub open spec fn volume_issues_view(v: Seq<ComposeVolumeIssue>) -> Seq<VolumeIssueView> {
    Seq::new(
        v.len(),
        |i: int|
            VolumeIssueView {
                volume_name: v[i].volume_name@,
                rule_id: v[i].rule_id@,
                message: v[i].message@,
                line: v[i].line,
            },
    )
}

/// Issues of a volume node: a driver that is blank.
pub open spec fn volume_issues(name: Seq<char>, n: NodeView) -> Seq<VolumeIssueView> {
    match n.value {
        ValueView::Mapping(ps, _) => match driver_of(ps) {
            Some(d) => if trim_ws(d).len() == 0 {
                seq![
                    VolumeIssueView {
                        volume_name: name,
                        rule_id: "compose-empty-volume-driver"@,
                        message: "Volume '"@ + name + "' driver cannot be empty"@,
                        line: n.span.start.line,
                    },
                ]
            } else {
                Seq::empty()
            },
            None => Seq::empty(),
        },
        _ => Seq::empty(),
    }
}

/// Checks of volume definitions.
#[derive(Debug, Clone, Copy, Default)]
pub struct ComposeVolumeValidator;

impl ComposeVolumeValidator {
    /// Creates a validator.
    pub fn new() -> (r: Self) {
        ComposeVolumeValidator
    }

    /// Issues of a volume definition: a `driver` that is blank.
    pub fn validate_volume(&self, volume_name: &str, node: &YamlNode) -> (r: Vec<ComposeVolumeIssue>)
        ensures
            volume_issues_view(r@) == volume_issues(volume_name@, node_view(*node)),
    {
        let mut issues: Vec<ComposeVolumeIssue> = Vec::new();
        proof {
            lemma_node_view_value(*node);
        }
        match &node.value {
            YamlValue::Mapping(map) => {
                match mapping_driver(map) {
                    Some(d) => {
                        let t = trimmed(d.as_str());
                        if t.as_str().is_empty() {
                            let message = join3("Volume '", volume_name, "' driver cannot be empty");
                            issues.push(
                                ComposeVolumeIssue {
                                    volume_name: volume_name.to_owned(),
                                    rule_id: "compose-empty-volume-driver".to_owned(),
                                    message,
                                    line: node.span.start.line,
                                },
                            );
                        }
                    },
                    None => {},
                }
            },
            _ => {},
        }
        proof {
            assert(volume_issues_view(issues@) =~= volume_issues(volume_name@, node_view(*node)));
        }
        issues
    }
}

} // verus!
