//! The style tree: each document node paired with its resolved rule set,
//! rebuilt from scratch every frame.

use vstd::prelude::*;

use crate::node::Node;
use crate::styles::{default_styles, spec_resolved, Styles};

verus! {

/// A node of the document paired with the one rule set that currently
/// applies to it; mirrors the document tree's shape exactly.
pub struct StyledNode<'a> {
    pub node: &'a Node,
    pub style: Styles,
    pub children: Vec<StyledNode<'a>>,
}

/// The rule set a node resolves to this frame: its authored styling (or an
/// empty one) cascaded against its currently active states.
pub open spec fn spec_node_styles(n: Node) -> Styles {
    match n.node_data.attributes.style {
        Some(es) => spec_resolved(es, n.states@),
        None => default_styles(),
    }
}

/// The styled tree `sn` is exactly the document tree rooted at `n`, each
/// node carrying its resolved rule set, with shape and child order kept.
pub open spec fn styled_matches(sn: StyledNode, n: Node) -> bool
    decreases n,
{
    &&& *sn.node == n
    &&& sn.style == spec_node_styles(n)
    &&& sn.children@.len() == n.children@.len()
    &&& forall|i: int|
        0 <= i < n.children@.len() ==> styled_matches(#[trigger] sn.children@[i], n.children@[i])
}

/// Every text node referenced from the styled tree is bound to a
/// well-formed font.
pub open spec fn styled_fonts_wf(sn: StyledNode) -> bool
    decreases sn,
{
    &&& crate::node::node_type_font_wf(sn.node.node_type)
    &&& forall|i: int|
        0 <= i < sn.children@.len() ==> styled_fonts_wf(#[trigger] sn.children@[i])
}

/// A styled tree built from a tree whose fonts are well-formed references
/// only well-formed fonts.
pub proof fn lemma_styled_fonts_wf(sn: StyledNode, n: Node)
    requires
        styled_matches(sn, n),
        crate::node::node_fonts_wf(n),
    ensures
        styled_fonts_wf(sn),
    decreases n,
{
    assert forall|i: int| 0 <= i < sn.children@.len() implies styled_fonts_wf(
        #[trigger] sn.children@[i],
    ) by {
        lemma_styled_fonts_wf(sn.children@[i], n.children@[i]);
    }
}

/// Two styled trees over the same shape resolve to the same rule set at
/// every corresponding node.
pub open spec fn styles_agree(a: StyledNode, b: StyledNode) -> bool
    decreases a,
{
    &&& a.style == b.style
    &&& a.children@.len() == b.children@.len()
    &&& forall|i: int|
        0 <= i < a.children@.len() ==> styles_agree(#[trigger] a.children@[i], b.children@[i])
}

/// Determinism of style resolution: building the style tree twice from one
/// unmodified document tree with identical state lists yields identical
/// resolved rule sets at every node.
pub proof fn lemma_style_tree_deterministic(a: StyledNode, b: StyledNode, n: Node)
    requires
        styled_matches(a, n),
        styled_matches(b, n),
    ensures
        styles_agree(a, b),
    decreases n,
{
    assert forall|i: int| 0 <= i < a.children@.len() implies styles_agree(
        #[trigger] a.children@[i],
        b.children@[i],
    ) by {
        lemma_style_tree_deterministic(a.children@[i], b.children@[i], n.children@[i]);
    }
}

/// Builds the styled tree for the document tree rooted at `root`,
/// resolving each node's rule set against that node's live state list.
#[verifier::loop_isolation(false)]
pub fn build_style_tree<'a>(root: &'a Node) -> (sn: StyledNode<'a>)
    ensures
        styled_matches(sn, *root),
    decreases *root,
{
    let style = match &root.node_data.attributes.style {
        Some(element_styles) => element_styles.applicable_styles(&root.states),
        None => {
            let s = Styles::default();
            proof {
                assert(s == spec_node_styles(*root));
            }
            s
        },
    };

    let mut children: Vec<StyledNode<'a>> = Vec::new();
    let mut i: usize = 0;
    while i < root.children.len()
        invariant
            i <= root.children@.len(),
            children@.len() == i,
            forall|j: int|
                0 <= j < i ==> styled_matches(#[trigger] children@[j], root.children@[j]),
        decreases root.children@.len() - i,
    {
        let child = build_style_tree(&root.children[i]);
        children.push(child);
        i = i + 1;
    }

    StyledNode { node: root, style, children }
}

} // verus!
