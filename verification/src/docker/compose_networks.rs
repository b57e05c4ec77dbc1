//! Checks of Docker Compose top-level network definitions: the driver.

use vstd::prelude::*;
use crate::docker::compose_services::join5;
use crate::text::str_eq;
use crate::yaml::{NodeView, PairView, ValueView, YamlMapping, YamlNode, YamlValue, lemma_node_view_value, node_view};

verus! {

/// The value of the last `driver` key whose value is a scalar, if any.
pub open spec fn driver_of(ps: Seq<PairView>) -> Option<Seq<char>>
    decreases ps.len(),
{
    if ps.len() == 0 {
        None
    } else if ps.last().key.value == "driver"@ && ps.last().value.value is Scalar {
        Some(ps.last().value.value->Scalar_0.value)
    } else {
        driver_of(ps.drop_last())
    }
}

/// The driver of a mapping's pairs (the last scalar `driver` value).
pub fn mapping_driver(map: &YamlMapping) -> (r: Option<String>)
    ensures
        (match r {
            Some(s) => Some(s@),
            None => None::<Seq<char>>,
        }) == driver_of(crate::yaml::pairs_view(map.pairs@)),
{
    let ghost ps = crate::yaml::pairs_view(map.pairs@);
    let mut driver: Option<String> = None;
    let mut i: usize = 0;
    proof {
        assert(ps.take(0) =~= Seq::<PairView>::empty());
    }
    while i < map.pairs.len()
        invariant
            i <= map.pairs.len(),
            ps == crate::yaml::pairs_view(map.pairs@),
            (match driver {
                Some(s) => Some(s@),
                None => None::<Seq<char>>,
            }) == driver_of(ps.take(i as int)),
        decreases map.pairs.len() - i,
    {
        let pair = &map.pairs[i];
        proof {
            assert(ps.take(i + 1).drop_last() =~= ps.take(i as int));
            assert(ps.take(i + 1).last() == crate::yaml::pair_view(*pair));
            lemma_node_view_value(pair.value);
        }
        if str_eq(pair.key.value.as_str(), "driver") {
            match &pair.value.value {
                YamlValue::Scalar(s) => {
                    driver = Some(s.value.clone());
                },
                _ => {},
            }
        }
        i = i + 1;
    }
    proof {
        assert(ps.take(map.pairs.len() as int) =~= ps);
    }
    driver
}

/// An issue in a network definition.
#[derive(Debug, Clone, PartialEq, Eq)]
pub struct ComposeNetworkIssue {
    pub network_name: String,
    pub rule_id: String,
    pub message: String,
    pub line: usize,
}

/// The value of a network issue.
pub struct NetworkIssueView {
    pub network_name: Seq<char>,
    pub rule_id: Seq<char>,
    pub message: Seq<char>,
    pub line: usize,
}

/// The values of a list of network issues.
pub open spec fn network_issues_view(v: Seq<ComposeNetworkIssue>) -> Seq<NetworkIssueView> {
    Seq::new(
        v.len(),
        |i: int|
            NetworkIssueView {
                network_name: v[i].network_name@,
                rule_id: v[i].rule_id@,
                message: v[i].message@,
                line: v[i].line,
            },
    )
}

/// Network drivers Compose knows.
pub open spec fn known_network_driver(d: Seq<char>) -> bool {
    d == "bridge"@ || d == "host"@ || d == "overlay"@ || d == "macvlan"@ || d == "none"@
}

/// Issues of a network node: an unknown driver.
pub open spec fn network_issues(name: Seq<char>, n: NodeView) -> Seq<NetworkIssueView> {
    match n.value {
        ValueView::Mapping(ps, _) => match driver_of(ps) {
            Some(d) => if known_network_driver(d) {
                Seq::empty()
            } else {
                seq![
                    NetworkIssueView {
                        network_name: name,
                        rule_id: "compose-invalid-network-driver"@,
                        message: "Unknown network driver '"@ + d + "' in network '"@ + name + "'"@,
                        line: n.span.start.line,
                    },
                ]
            },
            None => Seq::empty(),
        },
        _ => Seq::empty(),
    }
}

/// Checks of network definitions.
#[derive(Debug, Clone, Copy, Default)]
pub struct ComposeNetworkValidator;

impl ComposeNetworkValidator {
    /// Creates a validator.
    pub fn new() -> (r: Self) {
        ComposeNetworkValidator
    }

    /// Issues of a network definition: a `driver` Compose does not know.
    pub fn validate_network(&self, network_name: &str, node: &YamlNode) -> (r: Vec<ComposeNetworkIssue>)
        ensures
            network_issues_view(r@) == network_issues(network_name@, node_view(*node)),
    {
        let mut issues: Vec<ComposeNetworkIssue> = Vec::new();
        proof {
            lemma_node_view_value(*node);
        }
        match &node.value {
            YamlValue::Mapping(map) => {
                match mapping_driver(map) {
                    Some(d) => {
                        let ds = d.as_str();
                        if !(str_eq(ds, "bridge") || str_eq(ds, "host") || str_eq(ds, "overlay") || str_eq(
                            ds,
                            "macvlan",
                        ) || str_eq(ds, "none")) {
                            let message = join5("Unknown network driver '", ds, "' in network '", network_name, "'");
                            issues.push(
                                ComposeNetworkIssue {
                                    network_name: network_name.to_owned(),
                                    rule_id: "compose-invalid-network-driver".to_owned(),
                                    message,
                                    line: node.span.start.line,
                                },
                            );
                        }
                    },
                    None => {},
                }
            },
            _ => {},
        }
        proof {
            assert(network_issues_view(issues@) =~= network_issues(network_name@, node_view(*node)));
        }
        issues
    }
}

} // verus!
