//! Building the layout tree: each styled node becomes a box of the kind
//! its display mode calls for; a hidden node becomes an anonymous box,
//! which its parent drops, so a hidden subtree falls out of layout and
//! rendering entirely.

use vstd::prelude::*;

use crate::layout_box::{default_dimensions, BoxType, LayoutBox};
use crate::style_tree::StyledNode;
use crate::styles::Display;

verus! {

/// The layout tree `lb` mirrors the styled tree `sn`: a Flex node is a
/// Flex box, an Inline node an Inline box, and the children are the boxes
/// of the non-hidden styled children in order; geometry is still default.
pub open spec fn built_matches(lb: LayoutBox, sn: StyledNode) -> bool
    decreases sn, 1int,
{
    &&& match sn.style.display {
        Display::Flex => lb.box_type matches BoxType::FlexNode(s) && *s == sn,
        Display::Inline => lb.box_type matches BoxType::InlineNode(s) && *s == sn,
        Display::Hidden => lb.box_type is AnonymousBlock,
    }
    &&& lb.dimensions == default_dimensions()
    &&& built_children(lb.children@, sn.children@)
}

/// The box run `lbs` holds, in order, one built box per non-hidden styled
/// node of `sns`; hidden nodes contribute nothing.
pub open spec fn built_children(lbs: Seq<LayoutBox>, sns: Seq<StyledNode>) -> bool
    decreases sns, 0int,
{
    if sns.len() == 0 {
        lbs.len() == 0
    } else if sns[0].style.display is Hidden {
        built_children(lbs, sns.drop_first())
    } else {
        &&& lbs.len() > 0
        &&& built_matches(lbs[0], sns[0])
        &&& built_children(lbs.drop_first(), sns.drop_first())
    }
}

/// Appending one more styled node extends a valid box run: a hidden node
/// adds no box, any other node adds its built box.
proof fn lemma_built_children_snoc(
    lbs: Seq<LayoutBox>,
    sns: Seq<StyledNode>,
    lb: LayoutBox,
    sn: StyledNode,
)
    requires
        built_children(lbs, sns),
        built_matches(lb, sn),
    ensures
        sn.style.display is Hidden ==> built_children(lbs, sns.push(sn)),
        !(sn.style.display is Hidden) ==> built_children(lbs.push(lb), sns.push(sn)),
    decreases sns.len(),
{
    if sns.len() == 0 {
        assert(sns.push(sn)[0] == sn);
        assert(sns.push(sn).drop_first() =~= sns);
        assert(lbs.push(lb)[0] == lb);
        assert(lbs.push(lb).drop_first() =~= lbs);
        if sn.style.display is Hidden {
            assert(built_children(lbs, sns.push(sn).drop_first()));
        } else {
            assert(built_children(lbs.push(lb).drop_first(), sns.push(sn).drop_first()));
        }
    } else {
        assert(sns.push(sn)[0] == sns[0]);
        assert(sns.push(sn).drop_first() =~= sns.drop_first().push(sn));
        if sns[0].style.display is Hidden {
            lemma_built_children_snoc(lbs, sns.drop_first(), lb, sn);
        } else {
            assert(lbs.push(lb)[0] == lbs[0]);
            assert(lbs.push(lb).drop_first() =~= lbs.drop_first().push(lb));
            lemma_built_children_snoc(lbs.drop_first(), sns.drop_first(), lb, sn);
        }
    }
}

/// Builds the layout tree for a styled tree: the box kind follows each
/// node's resolved display mode, children are added in document order, and
/// hidden subtrees drop out.
#[verifier::loop_isolation(false)]
pub fn build_layout_tree<'a>(style_root: &'a StyledNode<'a>) -> (root: LayoutBox<'a>)
    ensures
        built_matches(root, *style_root),
    decreases *style_root,
{
    let mut root = LayoutBox::new(
        match style_root.style.display {
            Display::Flex => BoxType::FlexNode(style_root),
            Display::Inline => BoxType::InlineNode(style_root),
            Display::Hidden => BoxType::AnonymousBlock,
        },
    );

    let mut i: usize = 0;
    while i < style_root.children.len()
        invariant
            i <= style_root.children@.len(),
            root.box_type == (match style_root.style.display {
                Display::Flex => BoxType::FlexNode(style_root),
                Display::Inline => BoxType::InlineNode(style_root),
                Display::Hidden => BoxType::AnonymousBlock,
            }),
            root.dimensions == default_dimensions(),
            built_children(root.children@, style_root.children@.take(i as int)),
        decreases style_root.children@.len() - i,
    {
        let child_layout_box = build_layout_tree(&style_root.children[i]);
        proof {
            lemma_built_children_snoc(
                root.children@,
                style_root.children@.take(i as int),
                child_layout_box,
                style_root.children@[i as int],
            );
            assert(style_root.children@.take(i as int).push(style_root.children@[i as int])
                =~= style_root.children@.take(i + 1 as int));
            // A built box is anonymous exactly when its styled node is
            // hidden, so dropping anonymous children matches dropping
            // hidden nodes.
        }
        root.add_child(child_layout_box);
        i = i + 1;
    }
    proof {
        assert(style_root.children@.take(style_root.children@.len() as int)
            =~= style_root.children@);
    }
    root
}

} // verus!
