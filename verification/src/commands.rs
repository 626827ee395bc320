//! The display-list builder: a pre-order walk of the layout tree into an
//! ordered list of draw commands. A parent's commands come before any
//! descendant's and siblings keep document order, so z-ordering for opaque
//! nested boxes falls out of list order alone.

use vstd::prelude::*;

use crate::font::Font;
use crate::layout_box::{spec_border_box, BoxType, Dimensions, LayoutBox};
use crate::node::NodeType;
use crate::primitives::{clamp_u32, sat_i32, Color, Rectangle};
use crate::style_tree::StyledNode;

verus! {

/// One primitive draw operation of a frame.
pub enum RenderCommand<'a> {
    SolidColor(Color, Rectangle),
    Text(Color, Rectangle, String, &'a Font),
}

/// An unset color falls back to transparent black.
pub open spec fn spec_or_default_color(o: Option<Color>) -> Color {
    match o {
        Some(c) => c,
        None => Color { r: 0u8, g: 0u8, b: 0u8, a: 0u8 },
    }
}

/// The styled node a box renders from, if it renders at all.
pub open spec fn box_styled(bt: BoxType) -> Option<StyledNode> {
    match bt {
        BoxType::FlexNode(s) => Some(*s),
        BoxType::InlineNode(s) => Some(*s),
        BoxType::AnonymousBlock => None,
    }
}

/// How many commands a box itself emits: none for an anonymous box, five
/// (background plus four border strips) for a box, one more for text.
pub open spec fn own_len(lb: LayoutBox) -> int {
    match box_styled(lb.box_type) {
        None => 0,
        Some(s) => 5 + (if s.node.node_type is Text {
            1int
        } else {
            0int
        }),
    }
}

/// The command filling a box's content rectangle with its background
/// color.
pub open spec fn background_cmd(s: StyledNode, d: Dimensions) -> RenderCommand {
    RenderCommand::SolidColor(spec_or_default_color(s.style.background_color), d.content)
}

/// The four border-strip commands, in top, right, bottom, left order, each
/// sized by its edge's resolved thickness against the border box; a zero
/// (or negative) thickness gives a zero-area strip.
pub open spec fn border_cmd(s: StyledNode, d: Dimensions, which: int) -> RenderCommand {
    let bb = spec_border_box(d);
    let bc = spec_or_default_color(s.style.border_color);
    if which == 0 {
        RenderCommand::SolidColor(
            bc,
            Rectangle {
                x: bb.x,
                y: bb.y,
                width: bb.width,
                height: clamp_u32(d.border.top as int) as u32,
            },
        )
    } else if which == 1 {
        RenderCommand::SolidColor(
            bc,
            Rectangle {
                x: sat_i32(bb.x + bb.width - d.border.right) as i32,
                y: bb.y,
                width: clamp_u32(d.border.right as int) as u32,
                height: bb.height,
            },
        )
    } else if which == 2 {
        RenderCommand::SolidColor(
            bc,
            Rectangle {
                x: bb.x,
                y: sat_i32(bb.y + bb.height - d.border.bottom) as i32,
                width: bb.width,
                height: clamp_u32(d.border.bottom as int) as u32,
            },
        )
    } else {
        RenderCommand::SolidColor(
            bc,
            Rectangle {
                x: bb.x,
                y: bb.y,
                width: clamp_u32(d.border.left as int) as u32,
                height: bb.height,
            },
        )
    }
}

/// The run `cmds` is exactly what one box itself emits: background, four
/// border strips, and for a text node one text command carrying the
/// foreground color, the content rectangle, the node's text and its font.
pub open spec fn own_cmds_ok(cmds: Seq<RenderCommand>, lb: LayoutBox) -> bool {
    match box_styled(lb.box_type) {
        None => cmds.len() == 0,
        Some(s) => {
            &&& cmds.len() == own_len(lb)
            &&& cmds[0] == background_cmd(s, lb.dimensions)
            &&& cmds[1] == border_cmd(s, lb.dimensions, 0)
            &&& cmds[2] == border_cmd(s, lb.dimensions, 1)
            &&& cmds[3] == border_cmd(s, lb.dimensions, 2)
            &&& cmds[4] == border_cmd(s, lb.dimensions, 3)
            &&& match s.node.node_type {
                NodeType::Text(data) => cmds[5] matches RenderCommand::Text(col, rect, text, font)
                    && col == spec_or_default_color(s.style.color) && rect == lb.dimensions.content
                    && text@ == data.text@ && *font == data.font,
                NodeType::Box() => true,
            }
        },
    }
}

/// How many commands a whole subtree emits.
pub open spec fn total_len(lb: LayoutBox) -> int
    decreases lb, 1int,
{
    own_len(lb) + children_len(lb.children@)
}

/// How many commands a run of subtrees emits.
pub open spec fn children_len(lbs: Seq<LayoutBox>) -> int
    decreases lbs, 0int,
{
    if lbs.len() == 0 {
        0
    } else {
        total_len(lbs[0]) + children_len(lbs.drop_first())
    }
}

/// The run `cmds` is exactly the display list of the subtree `lb`: the
/// box's own commands first, then each child's block in document order.
pub open spec fn cmds_match_box(cmds: Seq<RenderCommand>, lb: LayoutBox) -> bool
    decreases lb, 1int,
{
    &&& cmds.len() == total_len(lb)
    &&& own_cmds_ok(cmds.take(own_len(lb)), lb)
    &&& cmds_match_children(cmds.skip(own_len(lb)), lb.children@)
}

/// The run `cmds` is the concatenation of the display lists of `lbs` in
/// order.
pub open spec fn cmds_match_children(cmds: Seq<RenderCommand>, lbs: Seq<LayoutBox>) -> bool
    decreases lbs, 0int,
{
    if lbs.len() == 0 {
        cmds.len() == 0
    } else {
        &&& cmds.len() >= total_len(lbs[0])
        &&& cmds_match_box(cmds.take(total_len(lbs[0])), lbs[0])
        &&& cmds_match_children(cmds.skip(total_len(lbs[0])), lbs.drop_first())
    }
}

/// A subtree emits a non-negative number of commands.
proof fn lemma_len_nonneg(lb: LayoutBox)
    ensures
        total_len(lb) >= 0,
    decreases lb, 1int,
{
    lemma_children_len_nonneg(lb.children@);
}

proof fn lemma_children_len_nonneg(lbs: Seq<LayoutBox>)
    ensures
        children_len(lbs) >= 0,
    decreases lbs, 0int,
{
    if lbs.len() > 0 {
        lemma_len_nonneg(lbs[0]);
        lemma_children_len_nonneg(lbs.drop_first());
    }
}

/// One more subtree's commands extend a valid concatenation.
proof fn lemma_cmds_children_snoc(
    cmds1: Seq<RenderCommand>,
    lbs: Seq<LayoutBox>,
    cmds2: Seq<RenderCommand>,
    lb: LayoutBox,
)
    requires
        cmds_match_children(cmds1, lbs),
        cmds_match_box(cmds2, lb),
    ensures
        cmds_match_children(cmds1 + cmds2, lbs.push(lb)),
    decreases lbs.len(),
{
    lemma_len_nonneg(lb);
    if lbs.len() == 0 {
        assert(lbs.push(lb)[0] == lb);
        assert((cmds1 + cmds2).take(total_len(lb)) =~= cmds2);
        assert((cmds1 + cmds2).skip(total_len(lb)) =~= Seq::<RenderCommand>::empty());
        assert(lbs.push(lb).drop_first() =~= lbs);
        assert(cmds_match_children((cmds1 + cmds2).skip(total_len(lb)), lbs));
    } else {
        let t = total_len(lbs[0]);
        lemma_len_nonneg(lbs[0]);
        assert(lbs.push(lb)[0] == lbs[0]);
        assert(lbs.push(lb).drop_first() =~= lbs.drop_first().push(lb));
        assert((cmds1 + cmds2).take(t) =~= cmds1.take(t));
        assert((cmds1 + cmds2).skip(t) =~= cmds1.skip(t) + cmds2);
        lemma_cmds_children_snoc(cmds1.skip(t), lbs.drop_first(), cmds2, lb);
    }
}

/// The command count of a run grows by the appended subtree's count.
proof fn lemma_children_len_snoc(lbs: Seq<LayoutBox>, lb: LayoutBox)
    ensures
        children_len(lbs.push(lb)) == children_len(lbs) + total_len(lb),
    decreases lbs.len(),
{
    if lbs.len() == 0 {
        assert(lbs.push(lb)[0] == lb);
        assert(lbs.push(lb).drop_first() =~= lbs);
        assert(children_len(lbs.push(lb).drop_first()) == 0);
    } else {
        assert(lbs.push(lb)[0] == lbs[0]);
        assert(lbs.push(lb).drop_first() =~= lbs.drop_first().push(lb));
        lemma_children_len_snoc(lbs.drop_first(), lb);
    }
}

/// Every text node referenced from the layout tree is bound to a
/// well-formed font.
pub open spec fn boxes_fonts_wf(lb: LayoutBox) -> bool
    decreases lb,
{
    &&& match box_styled(lb.box_type) {
        Some(s) => crate::node::node_type_font_wf(s.node.node_type),
        None => true,
    }
    &&& forall|i: int|
        0 <= i < lb.children@.len() ==> boxes_fonts_wf(#[trigger] lb.children@[i])
}

/// A command can be painted: any font it carries is well-formed.
pub open spec fn cmd_wf(cmd: RenderCommand) -> bool {
    match cmd {
        RenderCommand::SolidColor(_, _) => true,
        RenderCommand::Text(_, _, _, font) => font.wf(),
    }
}

/// Every command of a display list built from a layout tree with
/// well-formed fonts can be painted.
pub proof fn lemma_cmds_wf(cmds: Seq<RenderCommand>, lb: LayoutBox)
    requires
        cmds_match_box(cmds, lb),
        boxes_fonts_wf(lb),
    ensures
        forall|i: int| 0 <= i < cmds.len() ==> cmd_wf(#[trigger] cmds[i]),
    decreases lb, 1int,
{
    lemma_children_len_nonneg(lb.children@);
    let own = cmds.take(own_len(lb));
    assert forall|i: int| 0 <= i < own.len() implies cmd_wf(#[trigger] own[i]) by {
        if i != 5 {
            assert(own[i] is SolidColor);
        }
    }
    lemma_cmds_children_wf(cmds.skip(own_len(lb)), lb.children@);
    assert forall|i: int| 0 <= i < cmds.len() implies cmd_wf(#[trigger] cmds[i]) by {
        if i < own_len(lb) {
            assert(cmds[i] == own[i]);
        } else {
            assert(cmds[i] == cmds.skip(own_len(lb))[i - own_len(lb)]);
        }
    }
}

proof fn lemma_cmds_children_wf(cmds: Seq<RenderCommand>, lbs: Seq<LayoutBox>)
    requires
        cmds_match_children(cmds, lbs),
        forall|i: int| 0 <= i < lbs.len() ==> boxes_fonts_wf(#[trigger] lbs[i]),
    ensures
        forall|i: int| 0 <= i < cmds.len() ==> cmd_wf(#[trigger] cmds[i]),
    decreases lbs, 0int,
{
    if lbs.len() > 0 {
        let t = total_len(lbs[0]);
        lemma_len_nonneg(lbs[0]);
        lemma_cmds_wf(cmds.take(t), lbs[0]);
        lemma_cmds_children_wf(cmds.skip(t), lbs.drop_first());
        assert forall|i: int| 0 <= i < cmds.len() implies cmd_wf(#[trigger] cmds[i]) by {
            if i < t {
                assert(cmds[i] == cmds.take(t)[i]);
            } else {
                assert(cmds[i] == cmds.skip(t)[i - t]);
            }
        }
    }
}

/// An unset color resolved to its default.
fn or_default_color(o: &Option<Color>) -> (c: Color)
    ensures
        c == spec_or_default_color(*o),
{
    match o {
        Some(c) => *c,
        None => Color::default(),
    }
}

/// Builds the ordered display list for a laid-out tree.
pub fn build_render_commands<'a>(layout_root: &LayoutBox<'a>) -> (list: Vec<RenderCommand<'a>>)
    ensures
        cmds_match_box(list@, *layout_root),
{
    let mut list: Vec<RenderCommand<'a>> = Vec::new();
    render_layout_box(&mut list, layout_root);
    proof {
        assert(list@.skip(0) =~= list@);
        assert(list@.take(list@.len() as int) =~= list@);
    }
    list
}

/// Appends the display list of one subtree: the box's own commands, then
/// each child's, in document order.
#[verifier::loop_isolation(false)]
fn render_layout_box<'a>(list: &mut Vec<RenderCommand<'a>>, layout_box: &LayoutBox<'a>)
    ensures
        final(list)@.len() == old(list)@.len() + total_len(*layout_box),
        final(list)@.take(old(list)@.len() as int) == old(list)@,
        cmds_match_box(final(list)@.skip(old(list)@.len() as int), *layout_box),
    decreases *layout_box,
{
    render_generic_traits(list, layout_box);
    let ghost base = list@;
    let ghost base_len = list@.len() as int;
    proof {
        lemma_children_len_nonneg(layout_box.children@);
    }

    let mut i: usize = 0;
    while i < layout_box.children.len()
        invariant
            i <= layout_box.children@.len(),
            list@.len() == base_len + children_len(layout_box.children@.take(i as int)),
            list@.take(base_len) == base,
            cmds_match_children(list@.skip(base_len), layout_box.children@.take(i as int)),
        decreases layout_box.children@.len() - i,
    {
        let ghost before = list@;
        render_layout_box(list, &layout_box.children[i]);
        proof {
            let child = layout_box.children@[i as int];
            lemma_len_nonneg(child);
            lemma_children_len_nonneg(layout_box.children@.take(i as int));
            lemma_children_len_snoc(layout_box.children@.take(i as int), child);
            assert(layout_box.children@.take(i as int).push(child) =~= layout_box.children@.take(
                i + 1 as int,
            ));
            assert(list@.take(base_len) =~= before.take(base_len));
            assert(list@.skip(base_len) =~= before.skip(base_len) + list@.skip(
                before.len() as int,
            ));
            lemma_cmds_children_snoc(
                before.skip(base_len),
                layout_box.children@.take(i as int),
                list@.skip(before.len() as int),
                child,
            );
        }
        i = i + 1;
    }
    proof {
        assert(layout_box.children@.take(layout_box.children@.len() as int)
            =~= layout_box.children@);
        assert(list@.take(old(list)@.len() as int) =~= old(list)@);
        assert(list@.skip(old(list)@.len() as int).take(own_len(*layout_box)) =~= base.skip(
            old(list)@.len() as int,
        ));
        assert(list@.skip(old(list)@.len() as int).skip(own_len(*layout_box)) =~= list@.skip(
            base_len,
        ));
    }
}

/// Appends a box's own commands: nothing for an anonymous box, else one
/// background fill and four border strips, then any text command.
fn render_generic_traits<'a>(list: &mut Vec<RenderCommand<'a>>, layout_box: &LayoutBox<'a>)
    ensures
        final(list)@.len() == old(list)@.len() + own_len(*layout_box),
        final(list)@.take(old(list)@.len() as int) == old(list)@,
        own_cmds_ok(final(list)@.skip(old(list)@.len() as int), *layout_box),
{
    match layout_box.box_type {
        BoxType::AnonymousBlock => {
            proof {
                assert(list@.take(old(list)@.len() as int) =~= old(list)@);
                assert(list@.skip(old(list)@.len() as int) =~= Seq::<RenderCommand>::empty());
            }
        },
        BoxType::InlineNode(styled_node) | BoxType::FlexNode(styled_node) => {
            let d = &layout_box.dimensions;
            let ghost oldlen = old(list)@.len() as int;

            // Content background.
            let c0 = RenderCommand::SolidColor(
                or_default_color(&styled_node.style.background_color),
                d.content,
            );
            proof {
                assert(c0 == background_cmd(*styled_node, layout_box.dimensions));
            }
            list.push(c0);
            proof {
                assert(list@[oldlen] == c0);
            }

            let border_box = d.border_box();
            let border_color = or_default_color(&styled_node.style.border_color);

            // Top border strip.
            let c1 = RenderCommand::SolidColor(
                border_color,
                Rectangle {
                    x: border_box.x,
                    y: border_box.y,
                    width: border_box.width,
                    height: crate::primitives::clamp_to_u32(d.border.top as i64),
                },
            );
            proof {
                assert(c1 == border_cmd(*styled_node, layout_box.dimensions, 0));
            }
            list.push(c1);

            // Right border strip.
            let c2 = RenderCommand::SolidColor(
                border_color,
                Rectangle {
                    x: crate::primitives::sat_to_i32(
                        border_box.x as i64 + border_box.width as i64 - d.border.right as i64,
                    ),
                    y: border_box.y,
                    width: crate::primitives::clamp_to_u32(d.border.right as i64),
                    height: border_box.height,
                },
            );
            proof {
                assert(c2 == border_cmd(*styled_node, layout_box.dimensions, 1));
            }
            list.push(c2);

            // Bottom border strip.
            let c3 = RenderCommand::SolidColor(
                border_color,
                Rectangle {
                    x: border_box.x,
                    y: crate::primitives::sat_to_i32(
                        border_box.y as i64 + border_box.height as i64 - d.border.bottom as i64,
                    ),
                    width: border_box.width,
                    height: crate::primitives::clamp_to_u32(d.border.bottom as i64),
                },
            );
            proof {
                assert(c3 == border_cmd(*styled_node, layout_box.dimensions, 2));
            }
            list.push(c3);

            // Left border strip.
            let c4 = RenderCommand::SolidColor(
                border_color,
                Rectangle {
                    x: border_box.x,
                    y: border_box.y,
                    width: crate::primitives::clamp_to_u32(d.border.left as i64),
                    height: border_box.height,
                },
            );
            proof {
                assert(c4 == border_cmd(*styled_node, layout_box.dimensions, 3));
            }
            list.push(c4);

            let ghost five = list@;
            render_specific_traits(list, layout_box, styled_node);
            proof {
                assert forall|j: int| 0 <= j < five.len() implies list@[j] == five[j] by {
                    assert(list@.take(five.len() as int)[j] == list@[j]);
                }
                assert(list@.take(old(list)@.len() as int) =~= old(list)@);
                let cmds = list@.skip(old(list)@.len() as int);
                assert(list@[oldlen] == five[oldlen] && five[oldlen] == c0);
                assert(list@[oldlen + 1] == five[oldlen + 1] && five[oldlen + 1] == c1);
                assert(list@[oldlen + 2] == five[oldlen + 2] && five[oldlen + 2] == c2);
                assert(list@[oldlen + 3] == five[oldlen + 3] && five[oldlen + 3] == c3);
                assert(list@[oldlen + 4] == five[oldlen + 4] && five[oldlen + 4] == c4);
                assert(cmds[0] == background_cmd(*styled_node, layout_box.dimensions));
                assert(cmds[1] == border_cmd(*styled_node, layout_box.dimensions, 0));
                assert(cmds[2] == border_cmd(*styled_node, layout_box.dimensions, 1));
                assert(cmds[3] == border_cmd(*styled_node, layout_box.dimensions, 2));
                assert(cmds[4] == border_cmd(*styled_node, layout_box.dimensions, 3));
            }
        },
    }
}

/// Appends the draw command specific to the node's content kind: one text
/// command for a text node, nothing for a plain box.
fn render_specific_traits<'a>(
    list: &mut Vec<RenderCommand<'a>>,
    layout_box: &LayoutBox<'a>,
    styled_node: &'a StyledNode<'a>,
)
    ensures
        final(list)@.len() == old(list)@.len() + (if styled_node.node.node_type is Text {
            1int
        } else {
            0int
        }),
        final(list)@.take(old(list)@.len() as int) == old(list)@,
        match styled_node.node.node_type {
            NodeType::Text(data) => final(list)@.last() matches RenderCommand::Text(
                col,
                rect,
                text,
                font,
            ) && col == spec_or_default_color(styled_node.style.color) && rect
                == layout_box.dimensions.content && text@ == data.text@ && *font == data.font,
            NodeType::Box() => true,
        },
{
    match &styled_node.node.node_type {
        NodeType::Box() => {
            proof {
                assert(list@.take(old(list)@.len() as int) =~= old(list)@);
            }
        },
        NodeType::Text(text_node_data) => {
            list.push(
                RenderCommand::Text(
                    or_default_color(&styled_node.style.color),
                    layout_box.dimensions.content,
                    text_node_data.text.clone(),
                    &text_node_data.font,
                ),
            );
            proof {
                assert(list@.take(old(list)@.len() as int) =~= old(list)@);
            }
        },
    }
}

} // verus!
