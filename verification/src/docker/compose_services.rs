//! Checks of Docker Compose service definitions: an image or a build, port
//! bindings, volume bindings and the restart policy.

use vstd::prelude::*;
use crate::docker::compose::has_key;
use crate::docker::scan::{CharClass, split_at_char, split_chars_at, trim_chars, trim_ws};
use crate::text::{chars_of, str_eq, string_from_chars};
use crate::yaml::{NodeView, PairView, ValueView, YamlNode, YamlValue, lemma_node_view_value, node_view};

verus! {

/// An issue in a service definition.
#[derive(Debug, Clone, PartialEq, Eq)]
pub struct ComposeServiceIssue {
    /// The service's name.
    pub service_name: String,
    /// Rule identifier.
    pub rule_id: String,
    /// Message.
    pub message: String,
    /// Line of the issue.
    pub line: usize,
}

/// The value of a service issue.
pub struct ServiceIssueView {
    pub service_name: Seq<char>,
    pub rule_id: Seq<char>,
    pub message: Seq<char>,
    pub line: usize,
}

/// The values of a list of service issues.
pub open spec fn service_issues_view(v: Seq<ComposeServiceIssue>) -> Seq<ServiceIssueView> {
    Seq::new(
        v.len(),
        |i: int|
            ServiceIssueView {
                service_name: v[i].service_name@,
                rule_id: v[i].rule_id@,
                message: v[i].message@,
                line: v[i].line,
            },
    )
}

/// An issue of a service.
pub open spec fn service_issue(name: Seq<char>, rule: Seq<char>, message: Seq<char>, line: usize) -> ServiceIssueView {
    ServiceIssueView { service_name: name, rule_id: rule, message, line }
}

/// Whether a port binding is well formed: not empty, and at most three parts
/// separated by `:`.
pub open spec fn port_binding_ok(p: Seq<char>) -> bool {
    p.len() > 0 && split_at_char(p, ':').len() <= 3
}

/// Issues of the port bindings listed in `items`.
pub open spec fn port_issues(name: Seq<char>, items: Seq<NodeView>) -> Seq<ServiceIssueView>
    decreases items.len(),
{
    if items.len() == 0 {
        Seq::empty()
    } else {
        let prev = port_issues(name, items.drop_last());
        let item = items.last();
        match item.value {
            ValueView::Scalar(s) => {
                let p = trim_ws(s.value);
                if port_binding_ok(p) {
                    prev
                } else {
                    prev.push(
                        service_issue(
                            name,
                            "compose-invalid-port-binding"@,
                            "Invalid port binding specification '"@ + p + "' in service '"@ + name + "'"@,
                            item.span.start.line,
                        ),
                    )
                }
            },
            _ => prev,
        }
    }
}

/// Issues of the volume bindings listed in `items`: empty entries.
pub open spec fn volume_binding_issues(name: Seq<char>, items: Seq<NodeView>) -> Seq<ServiceIssueView>
    decreases items.len(),
{
    if items.len() == 0 {
        Seq::empty()
    } else {
        let prev = volume_binding_issues(name, items.drop_last());
        let item = items.last();
        match item.value {
            ValueView::Scalar(s) => if trim_ws(s.value).len() == 0 {
                prev.push(
                    service_issue(
                        name,
                        "compose-empty-volume-binding"@,
                        "Empty volume binding entry in service '"@ + name + "'"@,
                        item.span.start.line,
                    ),
                )
            } else {
                prev
            },
            _ => prev,
        }
    }
}

/// Whether a restart policy is one Compose knows.
pub open spec fn restart_policy_ok(p: Seq<char>) -> bool {
    p == "no"@ || p == "always"@ || p == "on-failure"@ || p == "unless-stopped"@
}

/// Issues of a restart policy value.
pub open spec fn restart_issues(name: Seq<char>, n: NodeView) -> Seq<ServiceIssueView> {
    match n.value {
        ValueView::Scalar(s) => {
            let p = trim_ws(s.value);
            if restart_policy_ok(p) {
                Seq::empty()
            } else {
                seq![
                    service_issue(
                        name,
                        "compose-invalid-restart-policy"@,
                        "Invalid restart policy '"@ + p + "' in service '"@ + name + "'"@,
                        n.span.start.line,
                    ),
                ]
            }
        },
        _ => Seq::empty(),
    }
}

/// Issues of one property of a service.
pub open spec fn property_issues(name: Seq<char>, p: PairView) -> Seq<ServiceIssueView> {
    if p.key.value == "ports"@ {
        match p.value.value {
            ValueView::Sequence(items, _) => port_issues(name, items),
            _ => Seq::empty(),
        }
    } else if p.key.value == "volumes"@ {
        match p.value.value {
            ValueView::Sequence(items, _) => volume_binding_issues(name, items),
            _ => Seq::empty(),
        }
    } else if p.key.value == "restart"@ {
        restart_issues(name, p.value)
    } else {
        Seq::empty()
    }
}

/// Issues of the properties of a service, in order.
pub open spec fn properties_issues(name: Seq<char>, ps: Seq<PairView>) -> Seq<ServiceIssueView>
    decreases ps.len(),
{
    if ps.len() == 0 {
        Seq::empty()
    } else {
        properties_issues(name, ps.drop_last()) + property_issues(name, ps.last())
    }
}

/// Issues of a service node: those of its properties, then a missing image and
/// build.
pub open spec fn service_issues(name: Seq<char>, n: NodeView) -> Seq<ServiceIssueView> {
    match n.value {
        ValueView::Mapping(ps, _) => properties_issues(name, ps) + if !has_key(ps, "image"@) && !has_key(
            ps,
            "build"@,
        ) {
            seq![
                service_issue(
                    name,
                    "compose-service-missing-image-or-build"@,
                    "Service '"@ + name + "' must specify either 'image' or 'build'"@,
                    n.span.start.line,
                ),
            ]
        } else {
            Seq::empty()
        },
        _ => Seq::empty(),
    }
}

/// The property is `restart` with a scalar value that, trimmed, is none of the
/// restart policies `no`, `always`, `on-failure` and `unless-stopped`.
pub open spec fn unknown_restart(p: PairView) -> bool {
    p.key.value == "restart"@ && match p.value.value {
        ValueView::Scalar(s) => {
            let v = trim_ws(s.value);
            v != "no"@ && v != "always"@ && v != "on-failure"@ && v != "unless-stopped"@
        },
        _ => false,
    }
}

proof fn lemma_port_issue_ids(name: Seq<char>, items: Seq<NodeView>)
    ensures
        forall|j: int| 0 <= j < port_issues(name, items).len() ==> (#[trigger] port_issues(name, items)[j]).rule_id
            == "compose-invalid-port-binding"@,
    decreases items.len(),
{
    if items.len() > 0 {
        let d = items.drop_last();
        lemma_port_issue_ids(name, d);
        let p = port_issues(name, d);
        let q = port_issues(name, items);
        assert forall|j: int| 0 <= j < q.len() implies (#[trigger] q[j]).rule_id == "compose-invalid-port-binding"@ by {
            if j < p.len() {
                assert(q[j] == p[j]);
            }
        }
    }
}

proof fn lemma_volume_issue_ids(name: Seq<char>, items: Seq<NodeView>)
    ensures
        forall|j: int| 0 <= j < volume_binding_issues(name, items).len() ==> (#[trigger] volume_binding_issues(
            name,
            items,
        )[j]).rule_id == "compose-empty-volume-binding"@,
    decreases items.len(),
{
    if items.len() > 0 {
        let d = items.drop_last();
        lemma_volume_issue_ids(name, d);
        let p = volume_binding_issues(name, d);
        let q = volume_binding_issues(name, items);
        assert forall|j: int| 0 <= j < q.len() implies (#[trigger] q[j]).rule_id == "compose-empty-volume-binding"@ by {
            if j < p.len() {
                assert(q[j] == p[j]);
            }
        }
    }
}

proof fn lemma_restart_issues_sound(name: Seq<char>, ps: Seq<PairView>)
    ensures
        forall|j: int|
            0 <= j < properties_issues(name, ps).len() && (#[trigger] properties_issues(name, ps)[j]).rule_id
                == "compose-invalid-restart-policy"@ ==> exists|k: int| 0 <= k < ps.len() && unknown_restart(ps[k]),
    decreases ps.len(),
{
    reveal_strlit("compose-invalid-restart-policy");
    reveal_strlit("compose-invalid-port-binding");
    reveal_strlit("compose-empty-volume-binding");
    if ps.len() > 0 {
        let d = ps.drop_last();
        lemma_restart_issues_sound(name, d);
        let p = properties_issues(name, d);
        let l = property_issues(name, ps.last());
        let q = properties_issues(name, ps);
        assert(q == p + l);
        let last = ps.last();
        match last.value.value {
            ValueView::Sequence(items, _) => {
                lemma_port_issue_ids(name, items);
                lemma_volume_issue_ids(name, items);
            },
            _ => {},
        }
        assert forall|j: int|
            0 <= j < q.len() && (#[trigger] q[j]).rule_id == "compose-invalid-restart-policy"@ implies exists|k: int|
                0 <= k < ps.len() && unknown_restart(ps[k]) by {
            if j < p.len() {
                assert(q[j] == p[j]);
                let k = choose|k: int| 0 <= k < d.len() && unknown_restart(d[k]);
                assert(ps[k] == d[k]);
            } else {
                assert(q[j] == l[j - p.len()]);
                assert(ps[ps.len() - 1] == last);
                if last.key.value == "ports"@ || last.key.value == "volumes"@ {
                    assert(l[j - p.len()].rule_id.len() == 28);
                }
                assert(unknown_restart(ps[ps.len() - 1]));
            }
        }
    }
}

/// A service is reported for an invalid restart policy only when it has a
/// `restart` property whose trimmed scalar value is none of `no`, `always`,
/// `on-failure` and `unless-stopped`: each of those is accepted.
pub proof fn lemma_known_restart_policies_accepted(name: Seq<char>, n: NodeView)
    ensures
        forall|j: int|
            0 <= j < service_issues(name, n).len() && (#[trigger] service_issues(name, n)[j]).rule_id
                == "compose-invalid-restart-policy"@ ==> match n.value {
                ValueView::Mapping(ps, _) => exists|k: int| 0 <= k < ps.len() && unknown_restart(ps[k]),
                _ => false,
            },
{
    reveal_strlit("compose-invalid-restart-policy");
    reveal_strlit("compose-service-missing-image-or-build");
    match n.value {
        ValueView::Mapping(ps, _) => {
            lemma_restart_issues_sound(name, ps);
            let p = properties_issues(name, ps);
            let q = service_issues(name, n);
            assert forall|j: int|
                0 <= j < q.len() && (#[trigger] q[j]).rule_id == "compose-invalid-restart-policy"@ implies exists|k: int|
                    0 <= k < ps.len() && unknown_restart(ps[k]) by {
                if j < p.len() {
                    assert(q[j] == p[j]);
                } else {
                    assert(q[j].rule_id == "compose-service-missing-image-or-build"@);
                }
            }
        },
        _ => {},
    }
}

proof fn lemma_restart_issues_complete(name: Seq<char>, ps: Seq<PairView>, k: int)
    requires
        0 <= k < ps.len(),
        unknown_restart(ps[k]),
    ensures
        exists|j: int|
            0 <= j < properties_issues(name, ps).len() && (#[trigger] properties_issues(name, ps)[j]).rule_id
                == "compose-invalid-restart-policy"@,
    decreases ps.len(),
{
    reveal_strlit("restart");
    reveal_strlit("ports");
    reveal_strlit("volumes");
    let d = ps.drop_last();
    let p = properties_issues(name, d);
    let q = properties_issues(name, ps);
    let l = property_issues(name, ps.last());
    assert(q == p + l);
    if k == ps.len() - 1 {
        assert(ps.last() == ps[k]);
        assert(ps[k].key.value != "ports"@) by {
            assert(ps[k].key.value.len() != "ports"@.len());
        }
        assert(ps[k].key.value != "volumes"@) by {
            assert(ps[k].key.value[0] != "volumes"@[0]);
        }
        assert(l == restart_issues(name, ps[k].value));
        assert(l.len() == 1);
        assert(q[p.len() as int] == l[0]);
    } else {
        assert(d[k] == ps[k]);
        lemma_restart_issues_complete(name, d, k);
        let j = choose|j: int| 0 <= j < p.len() && (#[trigger] p[j]).rule_id == "compose-invalid-restart-policy"@;
        assert(q[j] == p[j]);
    }
}

/// A service mapping with a `restart` property whose trimmed scalar value is none
/// of `no`, `always`, `on-failure` and `unless-stopped` is always reported for an
/// invalid restart policy.
pub proof fn lemma_unknown_restart_policy_reported(name: Seq<char>, n: NodeView, k: int)
    requires
        n.value matches ValueView::Mapping(ps, _) && 0 <= k < ps.len() && unknown_restart(ps[k]),
    ensures
        exists|j: int|
            0 <= j < service_issues(name, n).len() && (#[trigger] service_issues(name, n)[j]).rule_id
                == "compose-invalid-restart-policy"@,
{
    if let ValueView::Mapping(ps, _) = n.value {
        lemma_restart_issues_complete(name, ps, k);
        let p = properties_issues(name, ps);
        let j = choose|j: int| 0 <= j < p.len() && (#[trigger] p[j]).rule_id == "compose-invalid-restart-policy"@;
        assert(service_issues(name, n)[j] == p[j]);
    }
}

/// The number of times a character occurs in a text.
pub open spec fn occurrences(t: Seq<char>, c: char) -> nat
    decreases t.len(),
{
    if t.len() == 0 {
        0
    } else {
        occurrences(t.drop_last(), c) + if t.last() == c { 1nat } else { 0nat }
    }
}

proof fn lemma_split_at_char_count(t: Seq<char>, c: char)
    ensures
        split_at_char(t, c).len() == occurrences(t, c) + 1,
    decreases t.len(),
{
    if t.len() > 0 {
        lemma_split_at_char_count(t.drop_last(), c);
        crate::docker::scan::lemma_split_at_char_nonempty(t.drop_last(), c);
    }
}

/// A port binding entry that is malformed: a scalar whose trimmed text is empty or
/// has more than two `:`.
pub open spec fn bad_port_item(n: NodeView) -> bool {
    match n.value {
        ValueView::Scalar(s) => trim_ws(s.value).len() == 0 || occurrences(trim_ws(s.value), ':') >= 3,
        _ => false,
    }
}

proof fn lemma_port_issues_exact(name: Seq<char>, items: Seq<NodeView>)
    ensures
        forall|j: int|
            0 <= j < port_issues(name, items).len() ==> exists|m: int|
                0 <= m < items.len() && bad_port_item(items[m]) && (#[trigger] port_issues(name, items)[j]).line
                    == items[m].span.start.line,
        forall|m: int|
            0 <= m < items.len() && bad_port_item(#[trigger] items[m]) ==> exists|j: int|
                0 <= j < port_issues(name, items).len() && port_issues(name, items)[j].line == items[m].span.start.line,
    decreases items.len(),
{
    if items.len() > 0 {
        let d = items.drop_last();
        lemma_port_issues_exact(name, d);
        let p = port_issues(name, d);
        let q = port_issues(name, items);
        let last = items.last();
        assert(last == items[items.len() - 1]);
        match last.value {
            ValueView::Scalar(sc) => {
                lemma_split_at_char_count(trim_ws(sc.value), ':');
            },
            _ => {},
        }
        assert forall|j: int| 0 <= j < q.len() implies exists|m: int|
            0 <= m < items.len() && bad_port_item(items[m]) && (#[trigger] q[j]).line == items[m].span.start.line by {
            if j < p.len() {
                assert(q[j] == p[j]);
                let m = choose|m: int| 0 <= m < d.len() && bad_port_item(d[m]) && p[j].line == d[m].span.start.line;
                assert(items[m] == d[m]);
            } else {
                assert(bad_port_item(items[items.len() - 1]));
            }
        }
        assert forall|m: int| 0 <= m < items.len() && bad_port_item(#[trigger] items[m]) implies exists|j: int|
            0 <= j < q.len() && q[j].line == items[m].span.start.line by {
            if m < d.len() {
                assert(d[m] == items[m]);
                let j = choose|j: int| 0 <= j < p.len() && p[j].line == d[m].span.start.line;
                assert(q[j] == p[j]);
            } else {
                assert(q[p.len() as int].line == items[m].span.start.line);
            }
        }
    }
}

/// The issues of a `ports` property of a service are invalid-port-binding issues
/// exactly at its entries whose trimmed text is empty or has more than two `:`:
/// every such entry is reported at its line, and every issue stands at such an
/// entry (so `80:80` or `127.0.0.1:80:80` is never reported).
pub proof fn lemma_port_bindings_reported_exactly(name: Seq<char>, p: PairView)
    requires
        p.key.value == "ports"@,
        p.value.value is Sequence,
    ensures
        p.value.value matches ValueView::Sequence(items, _) && {
            &&& forall|j: int|
                0 <= j < property_issues(name, p).len() ==> (#[trigger] property_issues(name, p)[j]).rule_id
                    == "compose-invalid-port-binding"@ && exists|m: int|
                    0 <= m < items.len() && bad_port_item(items[m]) && property_issues(name, p)[j].line
                        == items[m].span.start.line
            &&& forall|m: int|
                0 <= m < items.len() && bad_port_item(#[trigger] items[m]) ==> exists|j: int|
                    0 <= j < property_issues(name, p).len() && property_issues(name, p)[j].line == items[m].span.start.line
        },
{
    if let ValueView::Sequence(items, _) = p.value.value {
        assert(property_issues(name, p) == port_issues(name, items));
        lemma_port_issue_ids(name, items);
        lemma_port_issues_exact(name, items);
    }
}

/// Checks of service definitions.
#[derive(Debug, Clone, Copy, Default)]
pub struct ComposeServiceValidator;

/// `a`, `b`, `c`, `d` and `e` joined.
pub(crate) fn join5(a: &str, b: &str, c: &str, d: &str, e: &str) -> (r: String)
    ensures
        r@ == a@ + b@ + c@ + d@ + e@,
{
    let mut s = a.to_owned();
    s.append(b);
    s.append(c);
    s.append(d);
    s.append(e);
    s
}

/// `a`, `b` and `c` joined.
pub(crate) fn join3(a: &str, b: &str, c: &str) -> (r: String)
    ensures
        r@ == a@ + b@ + c@,
{
    let mut s = a.to_owned();
    s.append(b);
    s.append(c);
    s
}

/// The text without leading and trailing whitespace.
pub(crate) fn trimmed(s: &str) -> (r: String)
    ensures
        r@ == trim_ws(s@),
{
    let v = chars_of(s);
    let t = trim_chars(&v, CharClass::Whitespace);
    string_from_chars(t.as_slice())
}

fn is_valid_port_binding(p: &str) -> (r: bool)
    ensures
        r == port_binding_ok(p@),
{
    let v = chars_of(p);
    if v.len() == 0 {
        return false;
    }
    let parts = split_chars_at(&v, ':');
    parts.len() <= 3
}

fn policy_ok(p: &str) -> (r: bool)
    ensures
        r == restart_policy_ok(p@),
{
    str_eq(p, "no") || str_eq(p, "always") || str_eq(p, "on-failure") || str_eq(p, "unless-stopped")
}

fn push_issue(issues: &mut Vec<ComposeServiceIssue>, name: &str, rule: &str, message: String, line: usize)
    ensures
        service_issues_view(final(issues)@) == service_issues_view(old(issues)@).push(
            service_issue(name@, rule@, message@, line),
        ),
{
    let ghost prev = issues@;
    issues.push(ComposeServiceIssue { service_name: name.to_owned(), rule_id: rule.to_owned(), message, line });
    assert(service_issues_view(issues@) =~= service_issues_view(prev).push(
        service_issue(name@, rule@, issues@.last().message@, line),
    ));
}

impl ComposeServiceValidator {
    /// Creates a validator.
    pub fn new() -> (r: Self) {
        ComposeServiceValidator
    }

    /// Issues of a service definition: invalid port bindings, empty volume
    /// bindings and unknown restart policies in property order, then a missing
    /// `image` and `build`. A node that is not a mapping has none.
    pub fn validate_service(&self, service_name: &str, node: &YamlNode) -> (r: Vec<ComposeServiceIssue>)
        ensures
            service_issues_view(r@) == service_issues(service_name@, node_view(*node)),
    {
        let mut issues: Vec<ComposeServiceIssue> = Vec::new();
        proof {
            lemma_node_view_value(*node);
            assert(service_issues_view(issues@) =~= Seq::empty());
        }
        match &node.value {
            YamlValue::Mapping(map) => {
                let ghost ps = crate::yaml::pairs_view(map.pairs@);
                let ghost name = service_name@;
                let mut has_image = false;
                let mut has_build = false;
                let mut i: usize = 0;
                proof {
                    assert(ps.take(0) =~= Seq::<PairView>::empty());
                }
                while i < map.pairs.len()
                    invariant
                        i <= map.pairs.len(),
                        ps == crate::yaml::pairs_view(map.pairs@),
                        name == service_name@,
                        service_issues_view(issues@) == properties_issues(name, ps.take(i as int)),
                        has_image == has_key(ps.take(i as int), "image"@),
                        has_build == has_key(ps.take(i as int), "build"@),
                    decreases map.pairs.len() - i,
                {
                    let pair = &map.pairs[i];
                    let ghost pv = ps[i as int];
                    proof {
                        assert(ps.take(i + 1).drop_last() =~= ps.take(i as int));
                        assert(ps.take(i + 1).last() == pv);
                        assert(pv == crate::yaml::pair_view(*pair));
                        lemma_node_view_value(pair.value);
                        lemma_has_key_push(ps.take(i as int), pv, "image"@);
                        assert(ps.take(i as int).push(pv) =~= ps.take(i + 1));
                        lemma_has_key_push(ps.take(i as int), pv, "build"@);
                    }
                    let ghost before = service_issues_view(issues@);
                    let k = pair.key.value.as_str();
                    if str_eq(k, "image") {
                        has_image = true;
                    }
                    if str_eq(k, "build") {
                        has_build = true;
                    }
                    if str_eq(k, "ports") {
                        self.validate_ports(service_name, &pair.value, &mut issues);
                    } else if str_eq(k, "volumes") {
                        self.validate_volumes(service_name, &pair.value, &mut issues);
                    } else if str_eq(k, "restart") {
                        self.validate_restart_policy(service_name, &pair.value, &mut issues);
                    } else {
                        proof {
                            assert(property_issues(name, pv) =~= Seq::empty());
                        }
                    }
                    proof {
                        assert(service_issues_view(issues@) =~= before + property_issues(name, pv));
                    }
                    i = i + 1;
                }
                proof {
                    assert(ps.take(map.pairs.len() as int) =~= ps);
                }
                if !has_image && !has_build {
                    let ghost before = service_issues_view(issues@);
                    let message = join3("Service '", service_name, "' must specify either 'image' or 'build'");
                    push_issue(&mut issues, service_name, "compose-service-missing-image-or-build", message, node.span.start.line);
                    proof {
                        assert(service_issues_view(issues@) =~= before + seq![
                            service_issue(
                                name,
                                "compose-service-missing-image-or-build"@,
                                "Service '"@ + name + "' must specify either 'image' or 'build'"@,
                                node.span.start.line,
                            ),
                        ]);
                    }
                } else {
                    proof {
                        assert(service_issues_view(issues@) =~= service_issues_view(issues@) + Seq::empty());
                    }
                }
            },
            _ => {},
        }
        issues
    }

    fn validate_ports(&self, service_name: &str, node: &YamlNode, issues: &mut Vec<ComposeServiceIssue>)
        ensures
            service_issues_view(final(issues)@) == service_issues_view(old(issues)@) + match node_view(
                *node,
            ).value {
                ValueView::Sequence(items, _) => port_issues(service_name@, items),
                _ => Seq::empty(),
            },
    {
        proof {
            lemma_node_view_value(*node);
        }
        let ghost start = service_issues_view(issues@);
        match &node.value {
            YamlValue::Sequence(seq) => {
                let ghost items = crate::yaml::items_view(seq.items@);
                let mut i: usize = 0;
                proof {
                    assert(items.take(0) =~= Seq::<NodeView>::empty());
                    assert(start + Seq::empty() =~= start);
                }
                while i < seq.items.len()
                    invariant
                        i <= seq.items.len(),
                        items == crate::yaml::items_view(seq.items@),
                        service_issues_view(issues@) == start + port_issues(service_name@, items.take(i as int)),
                    decreases seq.items.len() - i,
                {
                    let item = &seq.items[i];
                    proof {
                        assert(items.take(i + 1).drop_last() =~= items.take(i as int));
                        assert(items.take(i + 1).last() == node_view(*item));
                        lemma_node_view_value(*item);
                    }
                    match &item.value {
                        YamlValue::Scalar(s) => {
                            let port = trimmed(s.value.as_str());
                            if !is_valid_port_binding(port.as_str()) {
                                let message = join5(
                                    "Invalid port binding specification '",
                                    port.as_str(),
                                    "' in service '",
                                    service_name,
                                    "'",
                                );
                                push_issue(issues, service_name, "compose-invalid-port-binding", message, item.span.start.line);
                            }
                        },
                        _ => {},
                    }
                    i = i + 1;
                }
                proof {
                    assert(items.take(seq.items.len() as int) =~= items);
                }
            },
            _ => {
                proof {
                    assert(start + Seq::empty() =~= start);
                }
            },
        }
    }

    fn validate_volumes(&self, service_name: &str, node: &YamlNode, issues: &mut Vec<ComposeServiceIssue>)
        ensures
            service_issues_view(final(issues)@) == service_issues_view(old(issues)@) + match node_view(
                *node,
            ).value {
                ValueView::Sequence(items, _) => volume_binding_issues(service_name@, items),
                _ => Seq::empty(),
            },
    {
        proof {
            lemma_node_view_value(*node);
        }
        let ghost start = service_issues_view(issues@);
        match &node.value {
            YamlValue::Sequence(seq) => {
                let ghost items = crate::yaml::items_view(seq.items@);
                let mut i: usize = 0;
                proof {
                    assert(items.take(0) =~= Seq::<NodeView>::empty());
                    assert(start + Seq::empty() =~= start);
                }
                while i < seq.items.len()
                    invariant
                        i <= seq.items.len(),
                        items == crate::yaml::items_view(seq.items@),
                        service_issues_view(issues@) == start + volume_binding_issues(service_name@, items.take(i as int)),
                    decreases seq.items.len() - i,
                {
                    let item = &seq.items[i];
                    proof {
                        assert(items.take(i + 1).drop_last() =~= items.take(i as int));
                        assert(items.take(i + 1).last() == node_view(*item));
                        lemma_node_view_value(*item);
                    }
                    match &item.value {
                        YamlValue::Scalar(s) => {
                            let vol = trimmed(s.value.as_str());
                            if vol.as_str().is_empty() {
                                let message = join3("Empty volume binding entry in service '", service_name, "'");
                                push_issue(issues, service_name, "compose-empty-volume-binding", message, item.span.start.line);
                            }
                        },
                        _ => {},
                    }
                    i = i + 1;
                }
                proof {
                    assert(items.take(seq.items.len() as int) =~= items);
                }
            },
            _ => {
                proof {
                    assert(start + Seq::empty() =~= start);
                }
            },
        }
    }

    fn validate_restart_policy(&self, service_name: &str, node: &YamlNode, issues: &mut Vec<ComposeServiceIssue>)
        ensures
            service_issues_view(final(issues)@) == service_issues_view(old(issues)@) + restart_issues(
                service_name@,
                node_view(*node),
            ),
    {
        proof {
            lemma_node_view_value(*node);
        }
        let ghost start = service_issues_view(issues@);
        match &node.value {
            YamlValue::Scalar(s) => {
                let policy = trimmed(s.value.as_str());
                if !policy_ok(policy.as_str()) {
                    let message = join5("Invalid restart policy '", policy.as_str(), "' in service '", service_name, "'");
                    push_issue(issues, service_name, "compose-invalid-restart-policy", message, node.span.start.line);
                    proof {
                        assert(service_issues_view(issues@) =~= start + restart_issues(service_name@, node_view(*node)));
                    }
                } else {
                    proof {
                        assert(start + Seq::empty() =~= start);
                    }
                }
            },
            _ => {
                proof {
                    assert(start + Seq::empty() =~= start);
                }
            },
        }
    }
}

/// Whether pairs with one more have a key.
pub proof fn lemma_has_key_push(ps: Seq<PairView>, p: PairView, k: Seq<char>)
    ensures
        has_key(ps.push(p), k) == (has_key(ps, k) || p.key.value == k),
{
    if has_key(ps, k) {
        let j = choose|j: int| 0 <= j < ps.len() && (#[trigger] ps[j]).key.value == k;
        assert(ps.push(p)[j] == ps[j]);
    }
    if p.key.value == k {
        assert(ps.push(p)[ps.len() as int] == p);
    }
    if has_key(ps.push(p), k) {
        let j = choose|j: int| 0 <= j < ps.push(p).len() && (#[trigger] ps.push(p)[j]).key.value == k;
        if j < ps.len() {
            assert(ps[j] == ps.push(p)[j]);
        }
    }
}

} // verus!
