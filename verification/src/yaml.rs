//! YAML document values consumed by the Docker Compose analysis: positions and
//! spans, scalars, sequences, mappings, nodes and documents.

use vstd::prelude::*;

verus! {

/// A source position: line, column and byte offset.
#[derive(Debug, Clone, Copy, PartialEq, Eq, Structural, Hash)]
pub struct Position {
    pub line: usize,
    pub column: usize,
    pub byte_offset: usize,
}

impl Position {
    /// Creates a position.
    pub fn new(line: usize, column: usize, byte_offset: usize) -> (r: Self)
        ensures
            r == (Position { line, column, byte_offset }),
    {
        Position { line, column, byte_offset }
    }
}

/// A source span from `start` to `end`.
#[derive(Debug, Clone, Copy, PartialEq, Eq, Structural, Hash)]
pub struct Span {
    pub start: Position,
    pub end: Position,
}

impl Span {
    /// Creates a span.
    pub fn new(start: Position, end: Position) -> (r: Self)
        ensures
            r == (Span { start, end }),
    {
        Span { start, end }
    }
}

/// A scalar value with its text.
#[derive(Debug)]
pub struct YamlScalar {
    pub value: String,
    pub span: Span,
}

/// A key-value pair of a mapping.
#[derive(Debug)]
pub struct YamlPair {
    pub key: YamlScalar,
    pub value: YamlNode,
    pub span: Span,
}

/// A sequence of nodes.
#[derive(Debug)]
pub struct YamlSequence {
    pub items: Vec<YamlNode>,
    pub span: Span,
}

/// A mapping of pairs, in source order.
#[derive(Debug)]
pub struct YamlMapping {
    pub pairs: Vec<YamlPair>,
    pub span: Span,
}

/// The value of a node.
#[derive(Debug)]
pub enum YamlValue {
    Null,
    Scalar(YamlScalar),
    Sequence(YamlSequence),
    Mapping(YamlMapping),
}

/// A node with its value, anchor, comments and span.
#[derive(Debug)]
pub struct YamlNode {
    pub id: usize,
    pub anchor: Option<String>,
    pub value: YamlValue,
    pub leading_comments: Vec<String>,
    pub trailing_comment: Option<String>,
    pub span: Span,
}

/// One document of a YAML stream.
#[derive(Debug)]
pub struct YamlDocument {
    pub root: Option<YamlNode>,
    pub span: Span,
}

/// A YAML stream of documents.
#[derive(Debug)]
pub struct YamlAST {
    pub documents: Vec<YamlDocument>,
}

/// The value of a scalar.
pub struct ScalarView {
    pub value: Seq<char>,
    pub span: Span,
}

/// The value of a node's value.
pub enum ValueView {
    Null,
    Scalar(ScalarView),
    Sequence(Seq<NodeView>, Span),
    Mapping(Seq<PairView>, Span),
}

/// The value of a node.
pub struct NodeView {
    pub id: usize,
    pub anchor: Option<Seq<char>>,
    pub value: ValueView,
    pub leading_comments: Seq<Seq<char>>,
    pub trailing_comment: Option<Seq<char>>,
    pub span: Span,
}

/// The value of a pair.
pub struct PairView {
    pub key: ScalarView,
    pub value: NodeView,
    pub span: Span,
}

/// The text of an optional string.
pub open spec fn opt_view(o: Option<String>) -> Option<Seq<char>> {
    match o {
        Some(s) => Some(s@),
        None => None,
    }
}

/// The value of a scalar.
pub open spec fn scalar_view(s: YamlScalar) -> ScalarView {
    ScalarView { value: s.value@, span: s.span }
}

/// The value of a node, all the way down.
pub open spec fn node_view(n: YamlNode) -> NodeView
    decreases n,
{
    NodeView {
        id: n.id,
        anchor: opt_view(n.anchor),
        value: match n.value {
            YamlValue::Null => ValueView::Null,
            YamlValue::Scalar(s) => ValueView::Scalar(scalar_view(s)),
            YamlValue::Sequence(q) => ValueView::Sequence(
                Seq::new(
                    q.items@.len(),
                    |i: int|
                        if 0 <= i < q.items@.len() {
                            proof {
                                assert(decreases_to!(n => n.value));
                                assert(decreases_to!(n.value => q));
                                assert(decreases_to!(q => q.items));
                                assert(decreases_to!(q.items => q.items[i]));
                            }
                            node_view(q.items[i])
                        } else {
                            vstd::pervasive::arbitrary()
                        },
                ),
                q.span,
            ),
            YamlValue::Mapping(m) => ValueView::Mapping(
                Seq::new(
                    m.pairs@.len(),
                    |i: int|
                        if 0 <= i < m.pairs@.len() {
                            proof {
                                assert(decreases_to!(n => n.value));
                                assert(decreases_to!(n.value => m));
                                assert(decreases_to!(m => m.pairs));
                                assert(decreases_to!(m.pairs => m.pairs[i]));
                                assert(decreases_to!(m.pairs[i] => m.pairs[i].value));
                            }
                            PairView {
                                key: scalar_view(m.pairs[i].key),
                                value: node_view(m.pairs[i].value),
                                span: m.pairs[i].span,
                            }
                        } else {
                            vstd::pervasive::arbitrary()
                        },
                ),
                m.span,
            ),
        },
        leading_comments: crate::text::view_lines(n.leading_comments@),
        trailing_comment: opt_view(n.trailing_comment),
        span: n.span,
    }
}

/// A copy of a list of strings.
pub fn strings_dup(v: &Vec<String>) -> (r: Vec<String>)
    ensures
        r@ == v@,
{
    let mut out: Vec<String> = Vec::new();
    let mut i: usize = 0;
    while i < v.len()
        invariant
            i <= v.len(),
            out@ == v@.take(i as int),
        decreases v.len() - i,
    {
        out.push(v[i].clone());
        assert(out@ =~= v@.take(i + 1));
        i = i + 1;
    }
    assert(v@.take(v.len() as int) =~= v@);
    out
}

/// A copy of an optional string.
pub fn opt_string_dup(v: &Option<String>) -> (r: Option<String>)
    ensures
        r == *v,
{
    match v {
        Some(s) => Some(s.clone()),
        None => None,
    }
}

impl YamlScalar {
    /// A copy of this scalar.
    pub fn duplicate(&self) -> (r: Self)
        ensures
            r == *self,
    {
        YamlScalar { value: self.value.clone(), span: self.span }
    }
}

/// The views of the items of a sequence.
pub open spec fn items_view(items: Seq<YamlNode>) -> Seq<NodeView> {
    Seq::new(items.len(), |i: int| node_view(items[i]))
}

/// The value of a pair.
pub open spec fn pair_view(p: YamlPair) -> PairView {
    PairView { key: scalar_view(p.key), value: node_view(p.value), span: p.span }
}

/// The views of the pairs of a mapping.
pub open spec fn pairs_view(pairs: Seq<YamlPair>) -> Seq<PairView> {
    Seq::new(pairs.len(), |i: int| pair_view(pairs[i]))
}

/// The value of a node's value, by the views of its parts.
pub proof fn lemma_node_view_value(n: YamlNode)
    ensures
        node_view(n).value == (match n.value {
            YamlValue::Null => ValueView::Null,
            YamlValue::Scalar(s) => ValueView::Scalar(scalar_view(s)),
            YamlValue::Sequence(q) => ValueView::Sequence(items_view(q.items@), q.span),
            YamlValue::Mapping(m) => ValueView::Mapping(pairs_view(m.pairs@), m.span),
        }),
{
    match n.value {
        YamlValue::Sequence(q) => {
            assert(items_view(q.items@) =~= (match node_view(n).value {
                ValueView::Sequence(s, _) => s,
                _ => Seq::empty(),
            }));
        },
        YamlValue::Mapping(m) => {
            assert(pairs_view(m.pairs@) =~= (match node_view(n).value {
                ValueView::Mapping(s, _) => s,
                _ => Seq::empty(),
            }));
        },
        _ => {},
    }
}

pub(crate) proof fn lemma_items_view_push(s: Seq<YamlNode>, x: YamlNode)
    ensures
        items_view(s.push(x)) == items_view(s).push(node_view(x)),
{
    assert(items_view(s.push(x)) =~= items_view(s).push(node_view(x)));
}

pub(crate) proof fn lemma_pairs_view_push(s: Seq<YamlPair>, x: YamlPair)
    ensures
        pairs_view(s.push(x)) == pairs_view(s).push(pair_view(x)),
{
    assert(pairs_view(s.push(x)) =~= pairs_view(s).push(pair_view(x)));
}

impl YamlNode {
    /// A deep copy of this node.
    pub fn duplicate(&self) -> (r: Self)
        ensures
            node_view(r) == node_view(*self),
        decreases self,
    {
        proof {
            lemma_node_view_value(*self);
        }
        let value = match &self.value {
            YamlValue::Null => YamlValue::Null,
            YamlValue::Scalar(s) => YamlValue::Scalar(s.duplicate()),
            YamlValue::Sequence(q) => {
                let mut items: Vec<YamlNode> = Vec::new();
                let mut i: usize = 0;
                while i < q.items.len()
                    invariant
                        i <= q.items.len(),
                        self.value == YamlValue::Sequence(*q),
                        items_view(items@) == items_view(q.items@).take(i as int),
                    decreases q.items.len() - i,
                {
                    proof {
                        assert(decreases_to!(*self => self.value));
                        assert(decreases_to!(self.value => self.value->Sequence_0));
                        assert(decreases_to!(*q => q.items));
                        assert(decreases_to!(q.items => q.items[i as int]));
                    }
                    let item = q.items[i].duplicate();
                    let ghost prev = items@;
                    let ghost gitem = item;
                    items.push(item);
                    assert(items@ == prev.push(gitem));
                    proof {
                        lemma_items_view_push(prev, gitem);
                        assert(items_view(q.items@)[i as int] == node_view(q.items@[i as int]));
                        assert(items_view(items@) =~= items_view(q.items@).take(i + 1));
                    }
                    i = i + 1;
                }
                assert(items_view(q.items@).take(q.items.len() as int) =~= items_view(q.items@));
                YamlValue::Sequence(YamlSequence { items, span: q.span })
            },
            YamlValue::Mapping(m) => {
                let mut pairs: Vec<YamlPair> = Vec::new();
                let mut i: usize = 0;
                while i < m.pairs.len()
                    invariant
                        i <= m.pairs.len(),
                        self.value == YamlValue::Mapping(*m),
                        pairs_view(pairs@) == pairs_view(m.pairs@).take(i as int),
                    decreases m.pairs.len() - i,
                {
                    let p = &m.pairs[i];
                    proof {
                        assert(decreases_to!(*self => self.value));
                        assert(decreases_to!(self.value => self.value->Mapping_0));
                        assert(decreases_to!(*m => m.pairs));
                        assert(decreases_to!(m.pairs => m.pairs[i as int]));
                        assert(decreases_to!(m.pairs[i as int] => m.pairs[i as int].value));
                    }
                    let node = p.value.duplicate();
                    let ghost prev = pairs@;
                    let np = YamlPair { key: p.key.duplicate(), value: node, span: p.span };
                    let ghost gp = np;
                    pairs.push(np);
                    assert(pairs@ == prev.push(gp));
                    proof {
                        lemma_pairs_view_push(prev, gp);
                        assert(pairs_view(m.pairs@)[i as int] == pair_view(m.pairs@[i as int]));
                        assert(pairs_view(pairs@) =~= pairs_view(m.pairs@).take(i + 1));
                    }
                    i = i + 1;
                }
                assert(pairs_view(m.pairs@).take(m.pairs.len() as int) =~= pairs_view(m.pairs@));
                YamlValue::Mapping(YamlMapping { pairs, span: m.span })
            },
        };
        let r = YamlNode {
            id: self.id,
            anchor: opt_string_dup(&self.anchor),
            value,
            leading_comments: strings_dup(&self.leading_comments),
            trailing_comment: opt_string_dup(&self.trailing_comment),
            span: self.span,
        };
        proof {
            lemma_node_view_value(r);
        }
        r
    }
}

/// Deep copies of a list of pairs.
pub fn pairs_dup(pairs: &Vec<YamlPair>) -> (r: Vec<YamlPair>)
    ensures
        pairs_view(r@) == pairs_view(pairs@),
{
    let mut out: Vec<YamlPair> = Vec::new();
    let mut i: usize = 0;
    while i < pairs.len()
        invariant
            i <= pairs.len(),
            pairs_view(out@) == pairs_view(pairs@).take(i as int),
        decreases pairs.len() - i,
    {
        let p = pairs[i].duplicate();
        let ghost prev = out@;
        let ghost gp = p;
        out.push(p);
        proof {
            assert(out@ == prev.push(gp));
            lemma_pairs_view_push(prev, gp);
            assert(pairs_view(out@) =~= pairs_view(pairs@).take(i + 1));
        }
        i = i + 1;
    }
    assert(pairs_view(pairs@).take(pairs.len() as int) =~= pairs_view(pairs@));
    out
}

impl YamlPair {
    /// A deep copy of this pair.
    pub fn duplicate(&self) -> (r: Self)
        ensures
            pair_view(r) == pair_view(*self),
    {
        YamlPair { key: self.key.duplicate(), value: self.value.duplicate(), span: self.span }
    }
}

} // verus!
