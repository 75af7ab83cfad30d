//! Reading the markup of a document into a tree of elements.
//!
//! The markup is handed to `roxmltree`, which lists the root element and
//! everything inside it in document order, each with its depth. The tree is
//! built from that listing here.

use vstd::prelude::*;
use crate::error::Svg2PdcError;
use crate::scene::{Attribute, SvgDocument, SvgNode};

verus! {

/// One node of a document as it is listed: how deep it lies, its tag, and
/// its attributes.
#[derive(Debug)]
pub struct ListedNode {
    pub depth: usize,
    pub tag: String,
    pub attributes: Vec<Attribute>,
}

/// A listing as plain values: depth, tag and attributes of each node.
pub type Listing = Seq<(nat, Seq<char>, Seq<(Seq<char>, Seq<char>)>)>;

/// `attributes` as pairs of name and value.
pub open spec fn attribute_pairs(attributes: Seq<Attribute>) -> Seq<(Seq<char>, Seq<char>)> {
    Seq::new(attributes.len(), |i: int| (attributes[i].name@, attributes[i].value@))
}

/// `nodes` as plain values.
pub open spec fn listed_views(nodes: Seq<ListedNode>) -> Listing {
    Seq::new(
        nodes.len(),
        |i: int| (nodes[i].depth as nat, nodes[i].tag@, attribute_pairs(nodes[i].attributes@)),
    )
}

/// The listing that `roxmltree` gives for the text `content`: the root
/// element and its descendants in document order; `None` where it rejects
/// the text.
pub uninterp spec fn markup_listing(content: Seq<char>) -> Option<
    Seq<(nat, Seq<char>, Seq<(Seq<char>, Seq<char>)>)>,
>;

/// Calls `roxmltree::Document::parse` on `content` and lists what
/// `Node::descendants` gives for the root element, which is that element
/// and all nodes inside it in document order. Each is listed with the
/// number of nodes that `Node::ancestors` gives for it, the local name of
/// its tag and its attributes by local name and value.
///
/// Trusted, not proved: that the outcome depends on `content` alone, which
/// is all the contract says.
#[verifier::external_body]
fn list_markup(content: &str) -> (result: Result<Vec<ListedNode>, roxmltree::Error>)
    ensures
        match result {
            Ok(nodes) => markup_listing(content@) == Some(listed_views(nodes@)),
            Err(_) => markup_listing(content@) is None,
        },
{
    let document = roxmltree::Document::parse(content)?;
    let nodes = document.root_element().descendants();
    Ok(
        nodes.map(
            |node|
                ListedNode {
                    depth: node.ancestors().count(),
                    tag: node.tag_name().name().to_string(),
                    attributes: node.attributes().map(
                        |a| Attribute { name: a.name().to_string(), value: a.value().to_string() },
                    ).collect(),
                },
        ).collect(),
    )
}

/// An element with what is inside it, as plain values.
pub struct MarkupView {
    pub tag: Seq<char>,
    pub attributes: Seq<(Seq<char>, Seq<char>)>,
    pub children: Seq<MarkupView>,
}

/// Number of nodes from `at` on that lie deeper than `depth`, up to the
/// first that does not.
pub open spec fn deeper_run(listing: Listing, at: int, depth: nat) -> int
    decreases listing.len() - at,
{
    if at < 0 || at >= listing.len() || listing[at].0 <= depth {
        0
    } else {
        1 + deeper_run(listing, at + 1, depth)
    }
}

/// Where the nodes inside the node at `at` end: at the first later node
/// that does not lie deeper than it.
pub open spec fn subtree_end(listing: Listing, at: int) -> int {
    at + 1 + deeper_run(listing, at + 1, listing[at].0)
}

/// The trees that the nodes `from..to` of a listing make up: each node
/// holds the nodes that follow it and lie deeper, up to the next node that
/// does not.
pub open spec fn trees(listing: Listing, from: int, to: int) -> Seq<MarkupView>
    decreases to - from,
    via trees_decreases
{
    if from < 0 || from >= to || to > listing.len() {
        Seq::empty()
    } else {
        let end = if subtree_end(listing, from) < to {
            subtree_end(listing, from)
        } else {
            to
        };
        seq![
            MarkupView {
                tag: listing[from].1,
                attributes: listing[from].2,
                children: trees(listing, from + 1, end),
            },
        ] + trees(listing, end, to)
    }
}

#[via_fn]
proof fn trees_decreases(listing: Listing, from: int, to: int) {
    if !(from < 0 || from >= to || to > listing.len()) {
        lemma_deeper_run(listing, from + 1, listing[from].0, 0);
    }
}

pub proof fn lemma_deeper_run_not_negative(listing: Listing, at: int, depth: nat)
    ensures
        deeper_run(listing, at, depth) >= 0,
    decreases listing.len() - at,
{
    if !(at < 0 || at >= listing.len() || listing[at].0 <= depth) {
        lemma_deeper_run_not_negative(listing, at + 1, depth);
    }
}

/// If the `n` nodes from `at` on all lie deeper than `depth`, the run is at
/// least `n` long; it is `n` long if the next node does not lie deeper.
pub proof fn lemma_deeper_run(listing: Listing, at: int, depth: nat, n: int)
    requires
        0 <= at,
        0 <= n,
        at + n <= listing.len(),
        forall|k: int| at <= k < at + n ==> listing[k].0 > depth,
    ensures
        deeper_run(listing, at, depth) >= n,
        at + n == listing.len() || listing[at + n].0 <= depth ==> deeper_run(listing, at, depth)
            == n,
    decreases n,
{
    if n > 0 {
        assert(listing[at].0 > depth);
        lemma_deeper_run(listing, at + 1, depth, n - 1);
    } else {
        lemma_deeper_run_not_negative(listing, at, depth);
    }
}

/// The element `node` with what is inside it, as plain values.
pub open spec fn markup_of(node: SvgNode) -> MarkupView
    decreases node,
{
    MarkupView {
        tag: node.tag@,
        attributes: attribute_pairs(node.attributes@),
        children: markup_of_all(node.children@, node.children@.len() as int),
    }
}

/// The first `count` of `nodes`, each as plain values.
pub open spec fn markup_of_all(nodes: Seq<SvgNode>, count: int) -> Seq<MarkupView>
    decreases nodes, count,
{
    if count <= 0 || count > nodes.len() {
        Seq::empty()
    } else {
        markup_of_all(nodes, count - 1).push(markup_of(nodes[count - 1]))
    }
}

/// Whether `node` and all nodes inside it are without geometry: no item of
/// a transform, no command of path data.
pub open spec fn is_bare(node: SvgNode) -> bool
    decreases node,
{
    &&& node.transform matches Ok(tokens) && tokens@.len() == 0
    &&& node.path matches Ok(segments) && segments@.len() == 0
    &&& all_bare(node.children@, node.children@.len() as int)
}

/// Whether the first `count` of `nodes` are without geometry.
pub open spec fn all_bare(nodes: Seq<SvgNode>, count: int) -> bool
    decreases nodes, count,
{
    if count <= 0 || count > nodes.len() {
        true
    } else {
        all_bare(nodes, count - 1) && is_bare(nodes[count - 1])
    }
}

proof fn lemma_same_prefix(a: Seq<SvgNode>, b: Seq<SvgNode>, count: int)
    requires
        0 <= count <= a.len(),
        count <= b.len(),
        forall|i: int| 0 <= i < count ==> a[i] == b[i],
    ensures
        markup_of_all(a, count) == markup_of_all(b, count),
        all_bare(a, count) == all_bare(b, count),
    decreases count,
{
    if count > 0 {
        lemma_same_prefix(a, b, count - 1);
    }
}

fn copy_attributes(attributes: &Vec<Attribute>) -> (copy: Vec<Attribute>)
    ensures
        attribute_pairs(copy@) == attribute_pairs(attributes@),
{
    let mut copy: Vec<Attribute> = Vec::new();
    let mut i: usize = 0;
    while i < attributes.len()
        invariant
            i <= attributes.len(),
            attribute_pairs(copy@) == attribute_pairs(attributes@).take(i as int),
        decreases attributes.len() - i,
    {
        let ghost before = copy@;
        let name = attributes[i].name.clone();
        let value = attributes[i].value.clone();
        copy.push(Attribute { name, value });
        assert(attribute_pairs(before) =~= attribute_pairs(copy@).take(i as int));
        assert(attribute_pairs(copy@)[i as int] == attribute_pairs(attributes@)[i as int]);
        assert(attribute_pairs(copy@) =~= attribute_pairs(attributes@).take(i + 1));
        i += 1;
    }
    assert(attribute_pairs(attributes@).take(i as int) =~= attribute_pairs(attributes@));
    copy
}

fn end_of_subtree(listing: &Vec<ListedNode>, at: usize, to: usize) -> (end: usize)
    requires
        at < to <= listing.len(),
    ensures
        at < end <= to,
        end == if subtree_end(listed_views(listing@), at as int) < to {
            subtree_end(listed_views(listing@), at as int)
        } else {
            to as int
        },
{
    let ghost views = listed_views(listing@);
    let mut end: usize = at + 1;
    while end < to && listing[end].depth > listing[at].depth
        invariant
            at < end <= to <= listing.len(),
            views == listed_views(listing@),
            forall|k: int| at < k < end ==> views[k].0 > views[at as int].0,
        decreases to - end,
    {
        end += 1;
    }
    proof {
        lemma_deeper_run(views, at + 1, views[at as int].0, end - at - 1);
    }
    end
}

/// Builds the trees that the nodes `from..to` of `listing` make up.
pub fn grow(listing: &Vec<ListedNode>, from: usize, to: usize) -> (nodes: Vec<SvgNode>)
    requires
        from <= to <= listing.len(),
    ensures
        markup_of_all(nodes@, nodes@.len() as int) == trees(
            listed_views(listing@),
            from as int,
            to as int,
        ),
        all_bare(nodes@, nodes@.len() as int),
    decreases to - from,
{
    let ghost views = listed_views(listing@);
    let mut nodes: Vec<SvgNode> = Vec::new();
    let mut at: usize = from;
    while at < to
        invariant
            from <= at <= to <= listing.len(),
            views == listed_views(listing@),
            markup_of_all(nodes@, nodes@.len() as int) + trees(views, at as int, to as int)
                == trees(views, from as int, to as int),
            all_bare(nodes@, nodes@.len() as int),
        decreases to - at,
    {
        let ghost before = nodes@;
        let end = end_of_subtree(listing, at, to);
        let children = grow(listing, at + 1, end);
        let node = SvgNode {
            tag: listing[at].tag.clone(),
            attributes: copy_attributes(&listing[at].attributes),
            transform: Ok(Vec::new()),
            path: Ok(Vec::new()),
            children,
        };
        nodes.push(node);
        proof {
            lemma_same_prefix(before, nodes@, before.len() as int);
            let grown = markup_of_all(nodes@, nodes@.len() as int);
            let first = MarkupView {
                tag: views[at as int].1,
                attributes: views[at as int].2,
                children: trees(views, at + 1, end as int),
            };
            assert(markup_of(nodes@[before.len() as int]) == first);
            assert(is_bare(nodes@[before.len() as int]));
            assert(all_bare(nodes@, before.len() as int));
            assert(grown == markup_of_all(before, before.len() as int).push(first));
            assert(trees(views, at as int, to as int) == seq![first] + trees(
                views,
                end as int,
                to as int,
            ));
            assert(grown + trees(views, end as int, to as int) =~= markup_of_all(
                before,
                before.len() as int,
            ) + trees(views, at as int, to as int));
        }
        at = end;
    }
    assert(markup_of_all(nodes@, nodes@.len() as int) + Seq::<MarkupView>::empty()
        =~= markup_of_all(nodes@, nodes@.len() as int));
    nodes
}

/// The root of a listing: the first of its trees. A listing without a node
/// has a root without a tag.
pub open spec fn root_of(listing: Listing) -> MarkupView {
    if trees(listing, 0, listing.len() as int).len() > 0 {
        trees(listing, 0, listing.len() as int)[0]
    } else {
        MarkupView { tag: Seq::empty(), attributes: Seq::empty(), children: Seq::empty() }
    }
}

/// Builds the document that `listing` lists. Its nodes are without
/// geometry and it has no view box: both are for the caller to fill in from
/// the attributes `d`, `transform` and `viewBox`.
pub fn document_of(listing: &Vec<ListedNode>) -> (document: SvgDocument)
    ensures
        markup_of(document.root) == root_of(listed_views(listing@)),
        is_bare(document.root),
        document.view_box is None,
{
    let mut nodes = grow(listing, 0, listing.len());
    if nodes.len() > 0 {
        let ghost all = nodes@;
        let root = nodes.remove(0);
        assert(root == all[0]);
        proof {
            lemma_first_of_all(all, all.len() as int);
        }
        SvgDocument { view_box: None, root }
    } else {
        let root = SvgNode {
            tag: String::new(),
            attributes: Vec::new(),
            transform: Ok(Vec::new()),
            path: Ok(Vec::new()),
            children: Vec::new(),
        };
        assert(attribute_pairs(root.attributes@) =~= Seq::empty());
        SvgDocument { view_box: None, root }
    }
}

proof fn lemma_first_of_all(nodes: Seq<SvgNode>, count: int)
    requires
        0 < count <= nodes.len(),
    ensures
        markup_of_all(nodes, count).len() == count,
        markup_of_all(nodes, count)[0] == markup_of(nodes[0]),
        all_bare(nodes, count) ==> is_bare(nodes[0]),
    decreases count,
{
    if count > 1 {
        lemma_first_of_all(nodes, count - 1);
    } else {
        assert(markup_of_all(nodes, 0).len() == 0);
    }
}

/// Reads the markup `content` into a document.
///
/// Markup that is not well formed is rejected. The document comes back
/// without geometry and without a view box, as [`document_of`] builds it.
pub fn read_document(content: &str) -> (result: Result<SvgDocument, Svg2PdcError>)
    ensures
        match markup_listing(content@) {
            Some(listing) => result matches Ok(document) && markup_of(document.root) == root_of(
                listing,
            ) && is_bare(document.root) && document.view_box is None,
            None => result matches Err(Svg2PdcError::XmlError(_)),
        },
{
    match list_markup(content) {
        Ok(listing) => Ok(document_of(&listing)),
        Err(e) => Err(Svg2PdcError::XmlError(e)),
    }
}

} // verus!
