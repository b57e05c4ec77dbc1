//! Docker Compose documents: recognising them among YAML documents and sorting
//! their top-level keys into services, networks, volumes, secrets and configs.

use vstd::prelude::*;
use crate::text::str_eq;
use crate::yaml::{
    NodeView, PairView, Span, ValueView, YamlAST, YamlDocument, YamlMapping, YamlNode, YamlPair, YamlValue,
    lemma_node_view_value, node_view, pairs_dup, pairs_view,
};

verus! {

/// Named entries of a section; a name occurs at most once, and storing a name
/// again replaces its entry in place.
pub open spec fn entries_view(v: Seq<(String, YamlNode)>) -> Seq<(Seq<char>, NodeView)> {
    Seq::new(v.len(), |i: int| (v[i].0@, node_view(v[i].1)))
}

/// Index of the entry named `k`, searching from the end.
pub open spec fn entry_index(es: Seq<(Seq<char>, NodeView)>, k: Seq<char>) -> Option<nat>
    decreases es.len(),
{
    if es.len() == 0 {
        None
    } else if es.last().0 == k {
        Some((es.len() - 1) as nat)
    } else {
        entry_index(es.drop_last(), k)
    }
}

/// The entries after storing `v` under `k`.
pub open spec fn entry_insert(es: Seq<(Seq<char>, NodeView)>, k: Seq<char>, v: NodeView) -> Seq<(Seq<char>, NodeView)> {
    match entry_index(es, k) {
        Some(i) => es.update(i as int, (k, v)),
        None => es.push((k, v)),
    }
}

/// Whether `k` names an entry.
pub open spec fn has_entry(es: Seq<(Seq<char>, NodeView)>, k: Seq<char>) -> bool {
    entry_index(es, k) is Some
}

/// The entry named `k`, if any.
pub open spec fn entry_of(es: Seq<(Seq<char>, NodeView)>, k: Seq<char>) -> Option<NodeView> {
    match entry_index(es, k) {
        Some(i) => Some(es[i as int].1),
        None => None,
    }
}

/// The value of a Compose document.
pub struct ComposeView {
    pub version: Seq<char>,
    pub services: Seq<(Seq<char>, NodeView)>,
    pub networks: Seq<(Seq<char>, NodeView)>,
    pub volumes: Seq<(Seq<char>, NodeView)>,
    pub secrets: Seq<(Seq<char>, NodeView)>,
    pub configs: Seq<(Seq<char>, NodeView)>,
    pub span: Span,
    pub root_node: Option<NodeView>,
}

/// A Docker Compose document. Each section lists its entries by name, in the
/// order the names first appear.
#[derive(Debug)]
pub struct ComposeDocument {
    /// The `version` value.
    pub version: String,
    /// Services by name.
    pub services: Vec<(String, YamlNode)>,
    /// Networks by name.
    pub networks: Vec<(String, YamlNode)>,
    /// Volumes by name.
    pub volumes: Vec<(String, YamlNode)>,
    /// Secrets by name.
    pub secrets: Vec<(String, YamlNode)>,
    /// Configs by name.
    pub configs: Vec<(String, YamlNode)>,
    /// Span of the whole document.
    pub span: Span,
    /// The document's root node.
    pub root_node: Option<YamlNode>,
}

/// The value of a Compose document.
pub open spec fn compose_view(d: ComposeDocument) -> ComposeView {
    ComposeView {
        version: d.version@,
        services: entries_view(d.services@),
        networks: entries_view(d.networks@),
        volumes: entries_view(d.volumes@),
        secrets: entries_view(d.secrets@),
        configs: entries_view(d.configs@),
        span: d.span,
        root_node: match d.root_node {
            Some(n) => Some(node_view(n)),
            None => None,
        },
    }
}

/// The values of a list of Compose documents.
pub open spec fn compose_views(v: Seq<ComposeDocument>) -> Seq<ComposeView> {
    Seq::new(v.len(), |i: int| compose_view(v[i]))
}

/// Keys that open a top-level section.
pub open spec fn is_top_section(k: Seq<char>) -> bool {
    k == "services"@ || k == "networks"@ || k == "volumes"@ || k == "secrets"@ || k == "configs"@
}

/// Keys that belong to a service definition.
pub open spec fn is_service_property(k: Seq<char>) -> bool {
    k == "image"@ || k == "build"@ || k == "ports"@ || k == "environment"@ || k == "env_file"@
        || k == "volumes"@ || k == "networks"@ || k == "depends_on"@ || k == "healthcheck"@
        || k == "restart"@ || k == "secrets"@ || k == "configs"@ || k == "profiles"@
        || k == "privileged"@ || k == "cap_add"@ || k == "cap_drop"@ || k == "read_only"@
        || k == "network_mode"@ || k == "command"@ || k == "entrypoint"@ || k == "user"@
        || k == "working_dir"@ || k == "expose"@ || k == "labels"@
}

/// Properties whose list items may follow them as further keys.
pub open spec fn is_multi_item_property(k: Seq<char>) -> bool {
    k == "ports"@ || k == "volumes"@ || k == "networks"@ || k == "depends_on"@ || k == "environment"@
        || k == "env_file"@ || k == "labels"@ || k == "secrets"@ || k == "configs"@ || k == "profiles"@
        || k == "cap_add"@ || k == "cap_drop"@ || k == "command"@ || k == "entrypoint"@ || k == "expose"@
}

/// Keys that belong to a network, volume, secret or config definition.
pub open spec fn is_resource_property(k: Seq<char>) -> bool {
    k == "driver"@ || k == "driver_opts"@ || k == "external"@ || k == "file"@ || k == "name"@
        || k == "labels"@ || k == "attachable"@ || k == "ipam"@
}

/// The five sections of a document while it is read.
pub struct SectionsView {
    pub services: Seq<(Seq<char>, NodeView)>,
    pub networks: Seq<(Seq<char>, NodeView)>,
    pub volumes: Seq<(Seq<char>, NodeView)>,
    pub secrets: Seq<(Seq<char>, NodeView)>,
    pub configs: Seq<(Seq<char>, NodeView)>,
}

/// The state of reading a document's top-level pairs: the version, the sections
/// so far, the current section, the current item with its pairs, and the
/// property whose list items may still follow.
pub struct ScanState {
    pub version: Seq<char>,
    pub secs: SectionsView,
    pub section: Seq<char>,
    pub item: Seq<char>,
    pub pairs: Seq<PairView>,
    pub active: Seq<char>,
}

/// The node made of an item's pairs: a mapping with the root's identifier and span.
pub open spec fn item_node(pairs: Seq<PairView>, id: usize, span: Span) -> NodeView {
    NodeView {
        id,
        anchor: None,
        value: ValueView::Mapping(pairs, span),
        leading_comments: Seq::empty(),
        trailing_comment: None,
        span,
    }
}

/// The sections after storing the current item (if it has a name) in its section.
pub open spec fn flush_secs(
    secs: SectionsView,
    section: Seq<char>,
    item: Seq<char>,
    pairs: Seq<PairView>,
    id: usize,
    span: Span,
) -> SectionsView {
    let node = item_node(pairs, id, span);
    if item.len() == 0 {
        secs
    } else if section == "services"@ {
        SectionsView { services: entry_insert(secs.services, item, node), ..secs }
    } else if section == "networks"@ {
        SectionsView { networks: entry_insert(secs.networks, item, node), ..secs }
    } else if section == "volumes"@ {
        SectionsView { volumes: entry_insert(secs.volumes, item, node), ..secs }
    } else if section == "secrets"@ {
        SectionsView { secrets: entry_insert(secs.secrets, item, node), ..secs }
    } else if section == "configs"@ {
        SectionsView { configs: entry_insert(secs.configs, item, node), ..secs }
    } else {
        secs
    }
}

/// The state after storing the current item and starting item `item` of `section`.
pub open spec fn restart(st: ScanState, section: Seq<char>, item: Seq<char>, id: usize, span: Span) -> ScanState {
    ScanState {
        version: st.version,
        secs: flush_secs(st.secs, st.section, st.item, st.pairs, id, span),
        section,
        item,
        pairs: Seq::empty(),
        active: Seq::empty(),
    }
}

/// The state after reading one top-level pair.
pub open spec fn scan_step(st: ScanState, p: PairView, id: usize, span: Span) -> ScanState {
    let k = p.key.value;
    if k == "version"@ {
        match p.value.value {
            ValueView::Scalar(s) => ScanState { version: s.value, ..st },
            _ => st,
        }
    } else if is_top_section(k) && st.item.len() == 0 {
        restart(st, k, Seq::empty(), id, span)
    } else if st.section == "services"@ {
        if is_service_property(k) {
            ScanState { active: k, pairs: st.pairs.push(p), ..st }
        } else if is_multi_item_property(st.active) {
            ScanState { pairs: st.pairs.push(p), ..st }
        } else {
            restart(st, st.section, k, id, span)
        }
    } else if st.section.len() > 0 {
        if is_top_section(k) && st.section != k {
            restart(st, k, Seq::empty(), id, span)
        } else if is_resource_property(k) {
            ScanState { active: k, pairs: st.pairs.push(p), ..st }
        } else if is_multi_item_property(st.active) {
            ScanState { pairs: st.pairs.push(p), ..st }
        } else {
            restart(st, st.section, k, id, span)
        }
    } else {
        st
    }
}

/// The empty state.
pub open spec fn scan_init() -> ScanState {
    ScanState {
        version: Seq::empty(),
        secs: SectionsView {
            services: Seq::empty(),
            networks: Seq::empty(),
            volumes: Seq::empty(),
            secrets: Seq::empty(),
            configs: Seq::empty(),
        },
        section: Seq::empty(),
        item: Seq::empty(),
        pairs: Seq::empty(),
        active: Seq::empty(),
    }
}

/// The state after reading the pairs in order.
pub open spec fn scan_pairs(ps: Seq<PairView>, id: usize, span: Span) -> ScanState
    decreases ps.len(),
{
    if ps.len() == 0 {
        scan_init()
    } else {
        scan_step(scan_pairs(ps.drop_last(), id, span), ps.last(), id, span)
    }
}

/// The Compose document read from a root mapping node with pairs `ps`, for a YAML
/// document spanning `span`.
pub open spec fn compose_spec(root: NodeView, ps: Seq<PairView>, span: Span) -> ComposeView {
    let st = scan_pairs(ps, root.id, root.span);
    let secs = flush_secs(st.secs, st.section, st.item, st.pairs, root.id, root.span);
    ComposeView {
        version: st.version,
        services: secs.services,
        networks: secs.networks,
        volumes: secs.volumes,
        secrets: secs.secrets,
        configs: secs.configs,
        span,
        root_node: Some(root),
    }
}

/// Whether pairs have the key `k`.
pub open spec fn has_key(ps: Seq<PairView>, k: Seq<char>) -> bool {
    exists|j: int| 0 <= j < ps.len() && (#[trigger] ps[j]).key.value == k
}

/// Whether a root node is a Compose document: a mapping with `services` or `version`.
pub open spec fn is_compose_root(n: NodeView) -> bool {
    match n.value {
        ValueView::Mapping(ps, _) => has_key(ps, "services"@) || has_key(ps, "version"@),
        _ => false,
    }
}

/// The Compose document of a YAML document whose root is a Compose root.
pub open spec fn compose_of(d: YamlDocument) -> ComposeView {
    match d.root {
        Some(r) => match node_view(r).value {
            ValueView::Mapping(ps, _) => compose_spec(node_view(r), ps, d.span),
            _ => vstd::pervasive::arbitrary(),
        },
        None => vstd::pervasive::arbitrary(),
    }
}

/// Whether a YAML document is a Compose document.
pub open spec fn is_compose_yaml(d: YamlDocument) -> bool {
    match d.root {
        Some(r) => is_compose_root(node_view(r)),
        None => false,
    }
}

/// The Compose documents among YAML documents, in order.
pub open spec fn compose_docs(ds: Seq<YamlDocument>) -> Seq<ComposeView>
    decreases ds.len(),
{
    if ds.len() == 0 {
        Seq::empty()
    } else if is_compose_yaml(ds.last()) {
        compose_docs(ds.drop_last()).push(compose_of(ds.last()))
    } else {
        compose_docs(ds.drop_last())
    }
}

/// A YAML stream holds a Compose document exactly when its Compose documents are
/// not none: what `is_compose_document` answers is whether `parse_compose` finds
/// any.
pub proof fn lemma_compose_detected_iff_parsed(ds: Seq<YamlDocument>)
    ensures
        (exists|i: int| 0 <= i < ds.len() && is_compose_yaml(#[trigger] ds[i])) == (compose_docs(ds).len() > 0),
    decreases ds.len(),
{
    if ds.len() > 0 {
        let init = ds.drop_last();
        lemma_compose_detected_iff_parsed(init);
        if exists|i: int| 0 <= i < init.len() && is_compose_yaml(#[trigger] init[i]) {
            let i = choose|i: int| 0 <= i < init.len() && is_compose_yaml(#[trigger] init[i]);
            assert(ds[i] == init[i]);
        }
        if exists|i: int| 0 <= i < ds.len() && is_compose_yaml(#[trigger] ds[i]) {
            let i = choose|i: int| 0 <= i < ds.len() && is_compose_yaml(#[trigger] ds[i]);
            if i < init.len() {
                assert(init[i] == ds[i]);
            }
        }
        if is_compose_yaml(ds.last()) {
            assert(is_compose_yaml(ds[ds.len() - 1]));
        }
    }
}

fn key_is_top_section(k: &str) -> (r: bool)
    ensures
        r == is_top_section(k@),
{
    str_eq(k, "services") || str_eq(k, "networks") || str_eq(k, "volumes") || str_eq(k, "secrets")
        || str_eq(k, "configs")
}

fn key_is_service_property(k: &str) -> (r: bool)
    ensures
        r == is_service_property(k@),
{
    str_eq(k, "image") || str_eq(k, "build") || str_eq(k, "ports") || str_eq(k, "environment")
        || str_eq(k, "env_file") || str_eq(k, "volumes") || str_eq(k, "networks") || str_eq(k, "depends_on")
        || str_eq(k, "healthcheck") || str_eq(k, "restart") || str_eq(k, "secrets") || str_eq(k, "configs")
        || str_eq(k, "profiles") || str_eq(k, "privileged") || str_eq(k, "cap_add") || str_eq(k, "cap_drop")
        || str_eq(k, "read_only") || str_eq(k, "network_mode") || str_eq(k, "command") || str_eq(
        k,
        "entrypoint",
    ) || str_eq(k, "user") || str_eq(k, "working_dir") || str_eq(k, "expose") || str_eq(k, "labels")
}

fn key_is_multi_item_property(k: &str) -> (r: bool)
    ensures
        r == is_multi_item_property(k@),
{
    str_eq(k, "ports") || str_eq(k, "volumes") || str_eq(k, "networks") || str_eq(k, "depends_on")
        || str_eq(k, "environment") || str_eq(k, "env_file") || str_eq(k, "labels") || str_eq(k, "secrets")
        || str_eq(k, "configs") || str_eq(k, "profiles") || str_eq(k, "cap_add") || str_eq(k, "cap_drop")
        || str_eq(k, "command") || str_eq(k, "entrypoint") || str_eq(k, "expose")
}

fn key_is_resource_property(k: &str) -> (r: bool)
    ensures
        r == is_resource_property(k@),
{
    str_eq(k, "driver") || str_eq(k, "driver_opts") || str_eq(k, "external") || str_eq(k, "file")
        || str_eq(k, "name") || str_eq(k, "labels") || str_eq(k, "attachable") || str_eq(k, "ipam")
}

/// Index of the entry named `k`, searching from the end.
pub fn find_entry(es: &Vec<(String, YamlNode)>, k: &str) -> (r: Option<usize>)
    ensures
        r == (match entry_index(entries_view(es@), k@) {
            Some(i) => Some(i as usize),
            None => None::<usize>,
        }),
        r matches Some(i) ==> i < es.len() && entry_index(entries_view(es@), k@) == Some(i as nat),
{
    let ghost ev = entries_view(es@);
    let mut i = es.len();
    assert(ev.take(i as int) =~= ev);
    while i > 0
        invariant
            i <= es.len(),
            ev == entries_view(es@),
            entry_index(ev, k@) == entry_index(ev.take(i as int), k@),
        decreases i,
    {
        assert(ev.take(i as int).drop_last() =~= ev.take(i - 1));
        if str_eq(es[i - 1].0.as_str(), k) {
            return Some(i - 1);
        }
        i = i - 1;
    }
    None
}

fn insert_entry(es: &mut Vec<(String, YamlNode)>, k: String, v: YamlNode)
    ensures
        entries_view(final(es)@) == entry_insert(entries_view(old(es)@), k@, node_view(v)),
{
    let ghost ev = entries_view(es@);
    let ghost kv = k@;
    let ghost nv = node_view(v);
    let found = find_entry(es, k.as_str());
    assert(entry_insert(ev, kv, nv) == match entry_index(ev, kv) {
        Some(j) => ev.update(j as int, (kv, nv)),
        None => ev.push((kv, nv)),
    });
    match found {
        Some(i) => {
            es.set(i, (k, v));
            assert(entries_view(es@) =~= ev.update(i as int, (kv, nv)));
        },
        None => {
            es.push((k, v));
            assert(entries_view(es@) =~= ev.push((kv, nv)));
        },
    }
}

/// The five sections while a document is read.
struct Sections {
    services: Vec<(String, YamlNode)>,
    networks: Vec<(String, YamlNode)>,
    volumes: Vec<(String, YamlNode)>,
    secrets: Vec<(String, YamlNode)>,
    configs: Vec<(String, YamlNode)>,
}

spec fn sections_view(s: Sections) -> SectionsView {
    SectionsView {
        services: entries_view(s.services@),
        networks: entries_view(s.networks@),
        volumes: entries_view(s.volumes@),
        secrets: entries_view(s.secrets@),
        configs: entries_view(s.configs@),
    }
}

/// Stores the current item, if it has a name, as a mapping of copies of its pairs.
fn flush_current_item(secs: &mut Sections, root: &YamlNode, section: &str, item_name: &str, pairs: &Vec<YamlPair>)
    ensures
        sections_view(*final(secs)) == flush_secs(
            sections_view(*old(secs)),
            section@,
            item_name@,
            pairs_view(pairs@),
            root.id,
            root.span,
        ),
{
    if item_name.is_empty() {
        proof {
            assert(item_name@.len() == 0);
        }
        return;
    }
    proof {
        assert(item_name@.len() != 0);
    }
    let node = YamlNode {
        id: root.id,
        anchor: None,
        value: YamlValue::Mapping(YamlMapping { pairs: pairs_dup(pairs), span: root.span }),
        leading_comments: Vec::new(),
        trailing_comment: None,
        span: root.span,
    };
    proof {
        lemma_node_view_value(node);
        assert(node_view(node).leading_comments =~= Seq::<Seq<char>>::empty());
        assert(node_view(node) == item_node(pairs_view(pairs@), root.id, root.span));
    }
    let name = item_name.to_owned();
    if str_eq(section, "services") {
        insert_entry(&mut secs.services, name, node);
    } else if str_eq(section, "networks") {
        insert_entry(&mut secs.networks, name, node);
    } else if str_eq(section, "volumes") {
        insert_entry(&mut secs.volumes, name, node);
    } else if str_eq(section, "secrets") {
        insert_entry(&mut secs.secrets, name, node);
    } else if str_eq(section, "configs") {
        insert_entry(&mut secs.configs, name, node);
    }
}

/// Reads a root mapping's pairs into a Compose document.
fn parse_single_compose_doc(root: &YamlNode, map: &YamlMapping, span: Span) -> (r: ComposeDocument)
    ensures
        compose_view(r) == compose_spec(node_view(*root), pairs_view(map.pairs@), span),
{
    let ghost ps = pairs_view(map.pairs@);
    let ghost id = root.id;
    let ghost rspan = root.span;
    let mut version = String::new();
    let mut secs = Sections {
        services: Vec::new(),
        networks: Vec::new(),
        volumes: Vec::new(),
        secrets: Vec::new(),
        configs: Vec::new(),
    };
    let mut section = String::new();
    let mut item = String::new();
    let mut item_pairs: Vec<YamlPair> = Vec::new();
    let mut active = String::new();
    proof {
        assert(sections_view(secs) == scan_init().secs) by {
            assert(entries_view(secs.services@) =~= Seq::empty());
            assert(entries_view(secs.networks@) =~= Seq::empty());
            assert(entries_view(secs.volumes@) =~= Seq::empty());
            assert(entries_view(secs.secrets@) =~= Seq::empty());
            assert(entries_view(secs.configs@) =~= Seq::empty());
        }
        assert(pairs_view(item_pairs@) =~= Seq::empty());
        assert(ps.take(0) =~= Seq::<PairView>::empty());
    }
    let mut i: usize = 0;
    while i < map.pairs.len()
        invariant
            i <= map.pairs.len(),
            ps == pairs_view(map.pairs@),
            id == root.id,
            rspan == root.span,
            scan_pairs(ps.take(i as int), id, rspan) == (ScanState {
                version: version@,
                secs: sections_view(secs),
                section: section@,
                item: item@,
                pairs: pairs_view(item_pairs@),
                active: active@,
            }),
        decreases map.pairs.len() - i,
    {
        let pair = &map.pairs[i];
        let ghost before = ScanState {
            version: version@,
            secs: sections_view(secs),
            section: section@,
            item: item@,
            pairs: pairs_view(item_pairs@),
            active: active@,
        };
        let ghost pv = ps[i as int];
        proof {
            assert(ps.take(i + 1).drop_last() =~= ps.take(i as int));
            assert(ps.take(i + 1).last() == pv);
            assert(pv == crate::yaml::pair_view(*pair));
            lemma_node_view_value(pair.value);
        }
        let k = pair.key.value.as_str();
        if str_eq(k, "version") {
            match &pair.value.value {
                YamlValue::Scalar(s) => {
                    version = s.value.clone();
                },
                _ => {},
            }
            i = i + 1;
            continue;
        }
        let is_top = key_is_top_section(k);
        if is_top && item.as_str().is_empty() {
            proof {
                assert(item@.len() == 0);
            }
            flush_current_item(&mut secs, root, section.as_str(), item.as_str(), &item_pairs);
            section = k.to_owned();
            item = String::new();
            item_pairs = Vec::new();
            active = String::new();
        } else if str_eq(section.as_str(), "services") {
            if key_is_service_property(k) {
                active = k.to_owned();
                let ghost prev = item_pairs@;
                let c = pair.duplicate();
                let ghost gc = c;
                item_pairs.push(c);
                proof {
                    assert(item_pairs@ == prev.push(gc));
                    crate::yaml::lemma_pairs_view_push(prev, gc);
                }
            } else if key_is_multi_item_property(active.as_str()) {
                let ghost prev = item_pairs@;
                let c = pair.duplicate();
                let ghost gc = c;
                item_pairs.push(c);
                proof {
                    assert(item_pairs@ == prev.push(gc));
                    crate::yaml::lemma_pairs_view_push(prev, gc);
                }
            } else {
                flush_current_item(&mut secs, root, section.as_str(), item.as_str(), &item_pairs);
                item = k.to_owned();
                item_pairs = Vec::new();
                active = String::new();
            }
        } else if !section.as_str().is_empty() {
            proof {
                assert(section@.len() > 0);
            }
            if is_top && !str_eq(section.as_str(), k) {
                flush_current_item(&mut secs, root, section.as_str(), item.as_str(), &item_pairs);
                section = k.to_owned();
                item = String::new();
                item_pairs = Vec::new();
                active = String::new();
            } else if key_is_resource_property(k) {
                active = k.to_owned();
                let ghost prev = item_pairs@;
                let c = pair.duplicate();
                let ghost gc = c;
                item_pairs.push(c);
                proof {
                    assert(item_pairs@ == prev.push(gc));
                    crate::yaml::lemma_pairs_view_push(prev, gc);
                }
            } else if key_is_multi_item_property(active.as_str()) {
                let ghost prev = item_pairs@;
                let c = pair.duplicate();
                let ghost gc = c;
                item_pairs.push(c);
                proof {
                    assert(item_pairs@ == prev.push(gc));
                    crate::yaml::lemma_pairs_view_push(prev, gc);
                }
            } else {
                flush_current_item(&mut secs, root, section.as_str(), item.as_str(), &item_pairs);
                item = k.to_owned();
                item_pairs = Vec::new();
                active = String::new();
            }
        } else {
            proof {
                assert(section@.len() == 0);
            }
        }
        proof {
            if item_pairs@.len() == 0 {
                assert(pairs_view(item_pairs@) =~= Seq::<PairView>::empty());
            }
        }
        i = i + 1;
    }
    proof {
        assert(ps.take(map.pairs.len() as int) =~= ps);
    }
    flush_current_item(&mut secs, root, section.as_str(), item.as_str(), &item_pairs);
    ComposeDocument {
        version,
        services: secs.services,
        networks: secs.networks,
        volumes: secs.volumes,
        secrets: secs.secrets,
        configs: secs.configs,
        span,
        root_node: Some(root.duplicate()),
    }
}

/// Recognises Docker Compose documents among YAML documents.
#[derive(Debug, Clone, Copy, Default)]
pub struct ComposeDetector;

fn has_compose_key(map: &YamlMapping) -> (r: bool)
    ensures
        r == (has_key(pairs_view(map.pairs@), "services"@) || has_key(pairs_view(map.pairs@), "version"@)),
{
    let ghost ps = pairs_view(map.pairs@);
    let mut i: usize = 0;
    while i < map.pairs.len()
        invariant
            i <= map.pairs.len(),
            ps == pairs_view(map.pairs@),
            forall|j: int| 0 <= j < i ==> (#[trigger] ps[j]).key.value != "services"@ && ps[j].key.value != "version"@,
        decreases map.pairs.len() - i,
    {
        assert(ps[i as int].key.value == map.pairs@[i as int].key.value@);
        if str_eq(map.pairs[i].key.value.as_str(), "services") || str_eq(map.pairs[i].key.value.as_str(), "version") {
            return true;
        }
        i = i + 1;
    }
    false
}

/// The root mapping of a YAML document that is a Compose document.
fn compose_root(doc: &YamlDocument) -> (r: Option<(&YamlNode, &YamlMapping)>)
    ensures
        r is Some == is_compose_yaml(*doc),
        r matches Some((n, m)) ==> doc.root == Some(*n) && n.value == YamlValue::Mapping(*m),
{
    match &doc.root {
        Some(root) => {
            proof {
                lemma_node_view_value(*root);
            }
            match &root.value {
                YamlValue::Mapping(map) => {
                    if has_compose_key(map) {
                        Some((root, map))
                    } else {
                        None
                    }
                },
                _ => None,
            }
        },
        None => None,
    }
}

impl ComposeDetector {
    /// Creates a detector.
    pub fn new() -> (r: Self) {
        ComposeDetector
    }

    /// Whether some document's root is a mapping with a `services` or `version` key.
    pub fn is_compose_document(&self, ast: &YamlAST) -> (r: bool)
        ensures
            r == exists|i: int| 0 <= i < ast.documents@.len() && is_compose_yaml(#[trigger] ast.documents@[i]),
    {
        let mut i: usize = 0;
        while i < ast.documents.len()
            invariant
                i <= ast.documents.len(),
                forall|j: int| 0 <= j < i ==> !is_compose_yaml(#[trigger] ast.documents@[j]),
            decreases ast.documents.len() - i,
        {
            if compose_root(&ast.documents[i]).is_some() {
                return true;
            }
            i = i + 1;
        }
        false
    }

    /// The Compose documents among the YAML documents, in order.
    pub fn parse_compose(&self, ast: &YamlAST) -> (r: Vec<ComposeDocument>)
        ensures
            compose_views(r@) == compose_docs(ast.documents@),
    {
        let mut out: Vec<ComposeDocument> = Vec::new();
        let mut i: usize = 0;
        proof {
            assert(compose_views(out@) =~= Seq::empty());
            assert(ast.documents@.take(0) =~= Seq::<YamlDocument>::empty());
        }
        while i < ast.documents.len()
            invariant
                i <= ast.documents.len(),
                compose_views(out@) == compose_docs(ast.documents@.take(i as int)),
            decreases ast.documents.len() - i,
        {
            let doc = &ast.documents[i];
            proof {
                assert(ast.documents@.take(i + 1).drop_last() =~= ast.documents@.take(i as int));
                assert(ast.documents@.take(i + 1).last() == *doc);
            }
            match compose_root(doc) {
                Some((root, map)) => {
                    proof {
                        lemma_node_view_value(*root);
                    }
                    let d = parse_single_compose_doc(root, map, doc.span);
                    let ghost prev = out@;
                    let ghost gd = d;
                    out.push(d);
                    assert(out@ == prev.push(gd));
                    assert(compose_views(out@) =~= compose_views(prev).push(compose_view(gd)));
                },
                None => {},
            }
            i = i + 1;
        }
        assert(ast.documents@.take(ast.documents.len() as int) =~= ast.documents@);
        out
    }
}

} // verus!
