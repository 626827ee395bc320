//! The layout solver: resolves a styled tree plus an available-space
//! rectangle into a tree of pixel geometries.
//!
//! Only Flex boxes participate in sizing and positioning; Inline and
//! Anonymous boxes are structural pass-throughs whose geometry stays zero.
//! Per-child resolution follows the containing box's flex direction: edge
//! sizes resolve against the container's main-axis content size, width and
//! height percentages against the container's content size on the same
//! axis, an explicit main size is the child's margin-box size, an automatic
//! cross size fills the container, and an automatic main size is the sum of
//! the box's children's margin-box main sizes, summed after recursion.
//! Content sizes that would go negative after edge subtraction are floored
//! at zero.

use vstd::prelude::*;

use crate::primitives::{clamp_u32, sat_i32, spec_expand, Edges, Point, Rectangle};
use crate::style_tree::StyledNode;
use crate::styles::{spec_to_pixels, EdgeSizes, FlexDirection, Size, Styles};

verus! {

/// The resolved geometry of one box: its content rectangle plus the pixel
/// thickness of each padding, border and margin edge.
#[derive(Debug, Clone, Copy, PartialEq, Eq, Structural)]
pub struct Dimensions {
    pub content: Rectangle,
    pub padding: Edges,
    pub border: Edges,
    pub margin: Edges,
}

/// Geometry before layout: a zero-sized content rectangle at the origin and
/// zero edges.
pub open spec fn default_dimensions() -> Dimensions {
    Dimensions {
        content: Rectangle { x: 0i32, y: 0i32, width: 0u32, height: 0u32 },
        padding: Edges { top: 0i32, right: 0i32, bottom: 0i32, left: 0i32 },
        border: Edges { top: 0i32, right: 0i32, bottom: 0i32, left: 0i32 },
        margin: Edges { top: 0i32, right: 0i32, bottom: 0i32, left: 0i32 },
    }
}

impl Default for Dimensions {
    fn default() -> (d: Dimensions)
        ensures
            d == default_dimensions(),
    {
        Dimensions {
            content: Rectangle { x: 0, y: 0, width: 0, height: 0 },
            padding: Edges { top: 0, right: 0, bottom: 0, left: 0 },
            border: Edges { top: 0, right: 0, bottom: 0, left: 0 },
            margin: Edges { top: 0, right: 0, bottom: 0, left: 0 },
        }
    }
}

/// The content rectangle grown outward by the padding edges.
pub open spec fn spec_padding_box(d: Dimensions) -> Rectangle {
    spec_expand(d.content, d.padding)
}

/// The padding box grown outward by the border edges.
pub open spec fn spec_border_box(d: Dimensions) -> Rectangle {
    spec_expand(spec_padding_box(d), d.border)
}

/// The border box grown outward by the margin edges.
pub open spec fn spec_margin_box(d: Dimensions) -> Rectangle {
    spec_expand(spec_border_box(d), d.margin)
}

impl Dimensions {
    /// The area covered by the content plus its padding.
    pub fn padding_box(&self) -> (r: Rectangle)
        ensures
            r == spec_padding_box(*self),
    {
        self.content.expand(&self.padding)
    }

    /// The area covered by the content plus padding and border.
    pub fn border_box(&self) -> (r: Rectangle)
        ensures
            r == spec_border_box(*self),
    {
        self.padding_box().expand(&self.border)
    }

    /// The area covered by the content plus padding, border and margin.
    pub fn margin_box(&self) -> (r: Rectangle)
        ensures
            r == spec_margin_box(*self),
    {
        self.border_box().expand(&self.margin)
    }
}

/// What kind of box a layout node is; Flex boxes reference the styled node
/// they were built from.
#[derive(Clone, Copy)]
pub enum BoxType<'a> {
    FlexNode(&'a StyledNode<'a>),
    InlineNode(&'a StyledNode<'a>),
    AnonymousBlock,
}

/// One node of the layout tree: a box kind plus resolved geometry, owning
/// its children.
pub struct LayoutBox<'a> {
    pub dimensions: Dimensions,
    pub box_type: BoxType<'a>,
    pub children: Vec<LayoutBox<'a>>,
}

/// A container's flex direction; unset defaults to `Row`.
pub open spec fn spec_dir(s: Styles) -> FlexDirection {
    match s.flex_direction {
        Some(d) => d,
        None => FlexDirection::Row,
    }
}

/// The direction a box lays its own children in, from the styled node its
/// box kind references; an anonymous box has no styles and defaults to
/// `Row`.
pub open spec fn spec_ctype_dir(ctype: BoxType) -> FlexDirection {
    match ctype {
        BoxType::FlexNode(s) => spec_dir(s.style),
        BoxType::InlineNode(s) => spec_dir(s.style),
        BoxType::AnonymousBlock => FlexDirection::Row,
    }
}

/// One edge's declared size out of an optional edge block.
pub open spec fn left_of(o: Option<EdgeSizes>) -> Option<Size> {
    match o {
        Some(e) => e.left,
        None => None,
    }
}

pub open spec fn right_of(o: Option<EdgeSizes>) -> Option<Size> {
    match o {
        Some(e) => e.right,
        None => None,
    }
}

pub open spec fn top_of(o: Option<EdgeSizes>) -> Option<Size> {
    match o {
        Some(e) => e.top,
        None => None,
    }
}

pub open spec fn bottom_of(o: Option<EdgeSizes>) -> Option<Size> {
    match o {
        Some(e) => e.bottom,
        None => None,
    }
}

/// The pixels one optional edge resolves to: an unset edge is zero.
pub open spec fn side_px(s: Option<Size>, base: int) -> int {
    match s {
        Some(sz) => spec_to_pixels(sz, base),
        None => 0,
    }
}

/// A content extent as the signed base percentages resolve against,
/// saturated at the `i32` range.
pub open spec fn spec_content_w(r: Rectangle) -> int {
    sat_i32(r.width as int)
}

pub open spec fn spec_content_h(r: Rectangle) -> int {
    sat_i32(r.height as int)
}

/// The declared width, unset meaning `Auto`.
pub open spec fn spec_width_size(s: Styles) -> Size {
    match s.width {
        Some(w) => w,
        None => Size::Auto,
    }
}

/// The declared height, unset meaning `Auto`.
pub open spec fn spec_height_size(s: Styles) -> Size {
    match s.height {
        Some(h) => h,
        None => Size::Auto,
    }
}

/// The horizontal part of a box's geometry once resolved against its
/// container: left/right edges against the container's main-axis content
/// size, content x at the offset plus the left edges, and content width per
/// the container direction — in a row an explicit width is the margin-box
/// width and `Auto` is deferred to the children sum; in a column an
/// explicit width is still the margin-box width while `Auto` fills the
/// container.
pub open spec fn spec_flex_width(
    style: Styles,
    containing: Dimensions,
    dir: FlexDirection,
    offset: Point,
    d0: Dimensions,
) -> Dimensions {
    let cw = spec_content_w(containing.content);
    let ch = spec_content_h(containing.content);
    let base = if dir is Row {
        cw
    } else {
        ch
    };
    let ml = side_px(left_of(style.margin), base);
    let mr = side_px(right_of(style.margin), base);
    let bl = side_px(left_of(style.border), base);
    let br = side_px(right_of(style.border), base);
    let pl = side_px(left_of(style.padding), base);
    let pr = side_px(right_of(style.padding), base);
    let edge_sum = ml + bl + pl + mr + br + pr;
    let x = sat_i32(offset.x + ml + bl + pl);
    let width_size = spec_width_size(style);
    let w = match dir {
        FlexDirection::Row => match width_size {
            Size::Auto => d0.content.width as int,
            _ => clamp_u32(spec_to_pixels(width_size, cw) - edge_sum),
        },
        FlexDirection::Column => match width_size {
            Size::Auto => clamp_u32(cw - edge_sum),
            _ => clamp_u32(spec_to_pixels(width_size, cw) - edge_sum),
        },
    };
    Dimensions {
        content: Rectangle { x: x as i32, width: w as u32, ..d0.content },
        padding: Edges { left: pl as i32, right: pr as i32, ..d0.padding },
        border: Edges { left: bl as i32, right: br as i32, ..d0.border },
        margin: Edges { left: ml as i32, right: mr as i32, ..d0.margin },
    }
}

/// The vertical counterpart of `spec_flex_width`: in a row an explicit
/// height is the margin-box height and `Auto` fills the container; in a
/// column an explicit height is the margin-box height and `Auto` is
/// deferred to the children sum.
pub open spec fn spec_flex_height(
    style: Styles,
    containing: Dimensions,
    dir: FlexDirection,
    offset: Point,
    d0: Dimensions,
) -> Dimensions {
    let cw = spec_content_w(containing.content);
    let ch = spec_content_h(containing.content);
    let base = if dir is Row {
        cw
    } else {
        ch
    };
    let mt = side_px(top_of(style.margin), base);
    let mb = side_px(bottom_of(style.margin), base);
    let bt = side_px(top_of(style.border), base);
    let bb = side_px(bottom_of(style.border), base);
    let pt = side_px(top_of(style.padding), base);
    let pb = side_px(bottom_of(style.padding), base);
    let edge_sum = mt + bt + pt + mb + bb + pb;
    let y = sat_i32(offset.y + mt + bt + pt);
    let height_size = spec_height_size(style);
    let h = match dir {
        FlexDirection::Row => match height_size {
            Size::Auto => clamp_u32(ch - edge_sum),
            _ => clamp_u32(spec_to_pixels(height_size, ch) - edge_sum),
        },
        FlexDirection::Column => match height_size {
            Size::Auto => d0.content.height as int,
            _ => clamp_u32(spec_to_pixels(height_size, ch) - edge_sum),
        },
    };
    Dimensions {
        content: Rectangle { y: y as i32, height: h as u32, ..d0.content },
        padding: Edges { top: pt as i32, bottom: pb as i32, ..d0.padding },
        border: Edges { top: bt as i32, bottom: bb as i32, ..d0.border },
        margin: Edges { top: mt as i32, bottom: mb as i32, ..d0.margin },
    }
}

/// A box's own geometry before its children are considered: both axes
/// resolved, cross axis first as the solver runs.
#[verifier::opaque]
pub open spec fn spec_own_dimensions(
    style: Styles,
    containing: Dimensions,
    dir: FlexDirection,
    offset: Point,
) -> Dimensions {
    match dir {
        FlexDirection::Row => spec_flex_width(
            style,
            containing,
            dir,
            offset,
            spec_flex_height(style, containing, dir, offset, default_dimensions()),
        ),
        FlexDirection::Column => spec_flex_height(
            style,
            containing,
            dir,
            offset,
            spec_flex_width(style, containing, dir, offset, default_dimensions()),
        ),
    }
}

/// The running offset after placing one child: advanced along the
/// container's main axis by the child's margin-box size there.
pub open spec fn spec_advance(o: Point, child: LayoutBox, dir: FlexDirection) -> Point {
    match dir {
        FlexDirection::Row => Point {
            x: sat_i32(o.x + spec_margin_box(child.dimensions).width) as i32,
            y: o.y,
        },
        FlexDirection::Column => Point {
            x: o.x,
            y: sat_i32(o.y + spec_margin_box(child.dimensions).height) as i32,
        },
    }
}

/// The offset reached after placing a whole run of children.
pub open spec fn spec_end_offset(o: Point, children: Seq<LayoutBox>, dir: FlexDirection) -> Point
    decreases children.len(),
{
    if children.len() == 0 {
        o
    } else {
        spec_end_offset(spec_advance(o, children[0], dir), children.drop_first(), dir)
    }
}

/// The sum of the children's margin-box sizes along the given axis.
pub open spec fn spec_sum_main(children: Seq<LayoutBox>, dir: FlexDirection) -> int
    decreases children.len(),
{
    if children.len() == 0 {
        0
    } else {
        (match dir {
            FlexDirection::Row => spec_margin_box(children[0].dimensions).width as int,
            FlexDirection::Column => spec_margin_box(children[0].dimensions).height as int,
        }) + spec_sum_main(children.drop_first(), dir)
    }
}

/// A box's final geometry: its own resolved geometry, with an automatic
/// main-axis content size replaced by the sum of its children's margin-box
/// main sizes (capped at the `u32` range).
pub open spec fn spec_fill_auto_main(
    d: Dimensions,
    style: Styles,
    dir: FlexDirection,
    children: Seq<LayoutBox>,
) -> Dimensions {
    match dir {
        FlexDirection::Row => if spec_width_size(style) is Auto {
            Dimensions {
                content: Rectangle {
                    width: clamp_u32(spec_sum_main(children, dir)) as u32,
                    ..d.content
                },
                ..d
            }
        } else {
            d
        },
        FlexDirection::Column => if spec_height_size(style) is Auto {
            Dimensions {
                content: Rectangle {
                    height: clamp_u32(spec_sum_main(children, dir)) as u32,
                    ..d.content
                },
                ..d
            }
        } else {
            d
        },
    }
}

/// The laid-out tree `out` is the un-laid tree `inp` with all geometry
/// still at its defaults: structure and box kinds kept, dimensions zero.
pub open spec fn zeroed_of(out: LayoutBox, inp: LayoutBox) -> bool
    decreases inp, 0int,
{
    &&& out.box_type == inp.box_type
    &&& out.dimensions == default_dimensions()
    &&& out.children@.len() == inp.children@.len()
    &&& forall|i: int|
        0 <= i < inp.children@.len() ==> zeroed_of(#[trigger] out.children@[i], inp.children@[i])
}

/// `out` is `inp` laid out as a child of a container of kind `ctype` with
/// content geometry `containing`, its margin box starting at `offset`: a
/// Flex box inside a Flex container is resolved, anything else passes
/// through with zero geometry.
pub open spec fn spec_laid_as_child(
    out: LayoutBox,
    inp: LayoutBox,
    containing: Dimensions,
    ctype: BoxType,
    offset: Point,
) -> bool
    decreases inp, 2int,
{
    match ctype {
        BoxType::FlexNode(c) => match inp.box_type {
            BoxType::FlexNode(s) => spec_laid_flex(out, inp, *s, containing, c.style, offset),
            _ => zeroed_of(out, inp),
        },
        _ => zeroed_of(out, inp),
    }
}

/// A Flex box fully laid out: its own geometry resolved against the
/// container, its children laid out in order inside its content rectangle
/// along its own direction, and an automatic main size filled from the
/// children afterwards.
pub open spec fn spec_laid_flex(
    out: LayoutBox,
    inp: LayoutBox,
    styled: StyledNode,
    containing: Dimensions,
    containing_styles: Styles,
    offset: Point,
) -> bool
    decreases inp, 1int,
{
    let dp = spec_dir(containing_styles);
    let d_own = spec_own_dimensions(styled.style, containing, dp, offset);
    let start = Point { x: d_own.content.x, y: d_own.content.y };
    &&& out.box_type == inp.box_type
    &&& out.children@.len() == inp.children@.len()
    &&& spec_laid_children(out.children@, inp.children@, d_own, inp.box_type, start)
    &&& out.dimensions == spec_fill_auto_main(d_own, styled.style, dp, out.children@)
}

/// A run of children laid out in document order with a running offset along
/// the container's own main axis.
pub open spec fn spec_laid_children(
    outs: Seq<LayoutBox>,
    ins: Seq<LayoutBox>,
    containing: Dimensions,
    ctype: BoxType,
    o: Point,
) -> bool
    decreases ins, 0int,
{
    if ins.len() == 0 {
        outs.len() == 0
    } else {
        &&& outs.len() == ins.len()
        &&& spec_laid_as_child(outs[0], ins[0], containing, ctype, o)
        &&& spec_laid_children(
            outs.drop_first(),
            ins.drop_first(),
            containing,
            ctype,
            spec_advance(o, outs[0], spec_ctype_dir(ctype)),
        )
    }
}

/// Appending one more laid-out child extends a valid run when the child is
/// laid at the run's end offset.
proof fn lemma_laid_children_snoc(
    outs: Seq<LayoutBox>,
    ins: Seq<LayoutBox>,
    containing: Dimensions,
    ctype: BoxType,
    o: Point,
    out_new: LayoutBox,
    in_new: LayoutBox,
)
    requires
        outs.len() == ins.len(),
        spec_laid_children(outs, ins, containing, ctype, o),
        spec_laid_as_child(
            out_new,
            in_new,
            containing,
            ctype,
            spec_end_offset(o, outs, spec_ctype_dir(ctype)),
        ),
    ensures
        spec_laid_children(outs.push(out_new), ins.push(in_new), containing, ctype, o),
    decreases ins.len(),
{
    if ins.len() == 0 {
        assert(outs.push(out_new)[0] == out_new);
        assert(ins.push(in_new)[0] == in_new);
        assert(outs.push(out_new).drop_first() =~= outs);
        assert(ins.push(in_new).drop_first() =~= ins);
        assert(spec_end_offset(o, outs, spec_ctype_dir(ctype)) == o);
        assert(spec_laid_children(
            outs.push(out_new).drop_first(),
            ins.push(in_new).drop_first(),
            containing,
            ctype,
            spec_advance(o, out_new, spec_ctype_dir(ctype)),
        ));
    } else {
        assert(outs.push(out_new)[0] == outs[0]);
        assert(ins.push(in_new)[0] == ins[0]);
        assert(outs.push(out_new).drop_first() =~= outs.drop_first().push(out_new));
        assert(ins.push(in_new).drop_first() =~= ins.drop_first().push(in_new));
        lemma_laid_children_snoc(
            outs.drop_first(),
            ins.drop_first(),
            containing,
            ctype,
            spec_advance(o, outs[0], spec_ctype_dir(ctype)),
            out_new,
            in_new,
        );
    }
}

/// The end offset of a run grows by the appended child's advance.
proof fn lemma_end_offset_snoc(o: Point, children: Seq<LayoutBox>, dir: FlexDirection, c: LayoutBox)
    ensures
        spec_end_offset(o, children.push(c), dir) == spec_advance(
            spec_end_offset(o, children, dir),
            c,
            dir,
        ),
    decreases children.len(),
{
    if children.len() == 0 {
        assert(children.push(c)[0] == c);
        assert(children.push(c).drop_first() =~= children);
        assert(spec_end_offset(o, children.push(c), dir) == spec_end_offset(
            spec_advance(o, c, dir),
            children,
            dir,
        ));
        assert(spec_end_offset(spec_advance(o, c, dir), children, dir) == spec_advance(o, c, dir));
        assert(spec_end_offset(o, children, dir) == o);
    } else {
        assert(children.push(c)[0] == children[0]);
        assert(children.push(c).drop_first() =~= children.drop_first().push(c));
        assert(spec_end_offset(o, children.push(c), dir) == spec_end_offset(
            spec_advance(o, children[0], dir),
            children.drop_first().push(c),
            dir,
        ));
        lemma_end_offset_snoc(spec_advance(o, children[0], dir), children.drop_first(), dir, c);
        assert(spec_end_offset(o, children, dir) == spec_end_offset(
            spec_advance(o, children[0], dir),
            children.drop_first(),
            dir,
        ));
    }
}

/// The children sum grows by the appended child's margin-box main size.
proof fn lemma_sum_main_snoc(children: Seq<LayoutBox>, dir: FlexDirection, c: LayoutBox)
    ensures
        spec_sum_main(children.push(c), dir) == spec_sum_main(children, dir) + (match dir {
            FlexDirection::Row => spec_margin_box(c.dimensions).width as int,
            FlexDirection::Column => spec_margin_box(c.dimensions).height as int,
        }),
    decreases children.len(),
{
    if children.len() == 0 {
        assert(children.push(c)[0] == c);
        assert(children.push(c).drop_first() =~= children);
        assert(spec_sum_main(children, dir) == 0);
        assert(spec_sum_main(children.push(c).drop_first(), dir) == 0);
    } else {
        assert(children.push(c)[0] == children[0]);
        assert(children.push(c).drop_first() =~= children.drop_first().push(c));
        lemma_sum_main_snoc(children.drop_first(), dir, c);
    }
}

/// A margin-box main size is never negative, so the children sum only
/// grows.
proof fn lemma_sum_main_nonneg(children: Seq<LayoutBox>, dir: FlexDirection)
    ensures
        spec_sum_main(children, dir) >= 0,
    decreases children.len(),
{
    if children.len() > 0 {
        lemma_sum_main_nonneg(children.drop_first(), dir);
    }
}

/// A content extent saturated for use as a resolution base.
fn rect_w_i32(r: &Rectangle) -> (w: i32)
    ensures
        w as int == spec_content_w(*r),
{
    if r.width > i32::MAX as u32 {
        i32::MAX
    } else {
        r.width as i32
    }
}

fn rect_h_i32(r: &Rectangle) -> (h: i32)
    ensures
        h as int == spec_content_h(*r),
{
    if r.height > i32::MAX as u32 {
        i32::MAX
    } else {
        r.height as i32
    }
}

/// One optional edge resolved to pixels; an unset edge is zero.
fn left_px(o: &Option<EdgeSizes>, base: i32) -> (r: i32)
    ensures
        r as int == side_px(left_of(*o), base as int),
{
    match o {
        Some(e) => match e.left {
            Some(s) => s.to_pixels(base),
            None => 0,
        },
        None => 0,
    }
}

fn right_px(o: &Option<EdgeSizes>, base: i32) -> (r: i32)
    ensures
        r as int == side_px(right_of(*o), base as int),
{
    match o {
        Some(e) => match e.right {
            Some(s) => s.to_pixels(base),
            None => 0,
        },
        None => 0,
    }
}

fn top_px(o: &Option<EdgeSizes>, base: i32) -> (r: i32)
    ensures
        r as int == side_px(top_of(*o), base as int),
{
    match o {
        Some(e) => match e.top {
            Some(s) => s.to_pixels(base),
            None => 0,
        },
        None => 0,
    }
}

fn bottom_px(o: &Option<EdgeSizes>, base: i32) -> (r: i32)
    ensures
        r as int == side_px(bottom_of(*o), base as int),
{
    match o {
        Some(e) => match e.bottom {
            Some(s) => s.to_pixels(base),
            None => 0,
        },
        None => 0,
    }
}

impl<'a> LayoutBox<'a> {
    /// A fresh box of the given kind with default geometry and no children.
    pub fn new(box_type: BoxType<'a>) -> (b: LayoutBox<'a>)
        ensures
            b.box_type == box_type,
            b.dimensions == default_dimensions(),
            b.children@.len() == 0,
    {
        LayoutBox { box_type, dimensions: Dimensions::default(), children: Vec::new() }
    }

    /// The box's children in document order.
    pub fn children(&self) -> (r: &Vec<LayoutBox<'a>>)
        ensures
            r == &self.children,
    {
        &self.children
    }

    /// Appends a child box; an anonymous child contributes nothing and is
    /// dropped, any other child is appended directly whatever this box's
    /// own kind.
    pub fn add_child(&mut self, child: LayoutBox<'a>)
        ensures
            final(self).box_type == old(self).box_type,
            final(self).dimensions == old(self).dimensions,
            final(self).children@ == (if child.box_type is AnonymousBlock {
                old(self).children@
            } else {
                old(self).children@.push(child)
            }),
    {
        match child.box_type {
            BoxType::InlineNode(_) => match self.box_type {
                BoxType::InlineNode(_) | BoxType::FlexNode(_) | BoxType::AnonymousBlock => {
                    self.children.push(child)
                },
            },
            BoxType::FlexNode(_) => {
                self.children.push(child);
            },
            BoxType::AnonymousBlock => {},
        }
    }

    /// Resolves the horizontal geometry of one box against its container:
    /// left/right edges, content x, and content width per the container
    /// direction.
    pub fn calculate_flex_width(
        styled_node: &StyledNode,
        containing_dimensions: &Dimensions,
        containing_direction: FlexDirection,
        offset: Point,
        d: &mut Dimensions,
    )
        ensures
            *final(d) == spec_flex_width(
                styled_node.style,
                *containing_dimensions,
                containing_direction,
                offset,
                *old(d),
            ),
    {
        let style = &styled_node.style;
        let cw = rect_w_i32(&containing_dimensions.content);
        let ch = rect_h_i32(&containing_dimensions.content);
        let base = match containing_direction {
            FlexDirection::Row => cw,
            FlexDirection::Column => ch,
        };

        // Margins, borders and paddings default to zero.
        let ml = left_px(&style.margin, base);
        let mr = right_px(&style.margin, base);
        let bl = left_px(&style.border, base);
        let br = right_px(&style.border, base);
        let pl = left_px(&style.padding, base);
        let pr = right_px(&style.padding, base);

        d.padding.left = pl;
        d.padding.right = pr;
        d.border.left = bl;
        d.border.right = br;
        d.margin.left = ml;
        d.margin.right = mr;

        d.content.x = crate::primitives::sat_to_i32(
            offset.x as i64 + ml as i64 + bl as i64 + pl as i64,
        );

        let edge_sum: i64 = ml as i64 + bl as i64 + pl as i64 + mr as i64 + br as i64 + pr as i64;
        let width_size = match style.width {
            Some(w) => w,
            None => Size::Auto,
        };
        match containing_direction {
            FlexDirection::Row => {
                match width_size {
                    Size::Auto => {
                        // An automatic main size is filled from the children
                        // after they are laid out.
                    },
                    _ => {
                        let mbw = width_size.to_pixels(cw);
                        d.content.width = crate::primitives::clamp_to_u32(mbw as i64 - edge_sum);
                    },
                }
            },
            FlexDirection::Column => {
                match width_size {
                    Size::Auto => {
                        // An automatic cross size fills the container.
                        d.content.width = crate::primitives::clamp_to_u32(cw as i64 - edge_sum);
                    },
                    _ => {
                        let mbw = width_size.to_pixels(cw);
                        d.content.width = crate::primitives::clamp_to_u32(mbw as i64 - edge_sum);
                    },
                }
            },
        }
    }

    /// Resolves the vertical geometry of one box against its container:
    /// top/bottom edges, content y, and content height per the container
    /// direction.
    pub fn calculate_flex_height(
        styled_node: &StyledNode,
        containing_dimensions: &Dimensions,
        containing_direction: FlexDirection,
        offset: Point,
        d: &mut Dimensions,
    )
        ensures
            *final(d) == spec_flex_height(
                styled_node.style,
                *containing_dimensions,
                containing_direction,
                offset,
                *old(d),
            ),
    {
        let style = &styled_node.style;
        let cw = rect_w_i32(&containing_dimensions.content);
        let ch = rect_h_i32(&containing_dimensions.content);
        let base = match containing_direction {
            FlexDirection::Row => cw,
            FlexDirection::Column => ch,
        };

        let mt = top_px(&style.margin, base);
        let mb = bottom_px(&style.margin, base);
        let bt = top_px(&style.border, base);
        let bb = bottom_px(&style.border, base);
        let pt = top_px(&style.padding, base);
        let pb = bottom_px(&style.padding, base);

        d.padding.top = pt;
        d.padding.bottom = pb;
        d.border.top = bt;
        d.border.bottom = bb;
        d.margin.top = mt;
        d.margin.bottom = mb;

        d.content.y = crate::primitives::sat_to_i32(
            offset.y as i64 + mt as i64 + bt as i64 + pt as i64,
        );

        let edge_sum: i64 = mt as i64 + bt as i64 + pt as i64 + mb as i64 + bb as i64 + pb as i64;
        let height_size = match style.height {
            Some(h) => h,
            None => Size::Auto,
        };
        match containing_direction {
            FlexDirection::Row => {
                match height_size {
                    Size::Auto => {
                        // An automatic cross size fills the container.
                        d.content.height = crate::primitives::clamp_to_u32(ch as i64 - edge_sum);
                    },
                    _ => {
                        let mbh = height_size.to_pixels(ch);
                        d.content.height = crate::primitives::clamp_to_u32(mbh as i64 - edge_sum);
                    },
                }
            },
            FlexDirection::Column => {
                match height_size {
                    Size::Auto => {
                        // An automatic main size is filled from the children
                        // after they are laid out.
                    },
                    _ => {
                        let mbh = height_size.to_pixels(ch);
                        d.content.height = crate::primitives::clamp_to_u32(mbh as i64 - edge_sum);
                    },
                }
            },
        }
    }

    /// A structural copy of the subtree with all geometry at its defaults,
    /// for boxes that do not participate in flex layout.
    fn zeroed(&self) -> (out: LayoutBox<'a>)
        ensures
            zeroed_of(out, *self),
        decreases *self,
    {
        let mut children: Vec<LayoutBox<'a>> = Vec::new();
        let mut i: usize = 0;
        #[verifier::loop_isolation(false)]
        while i < self.children.len()
            invariant
                i <= self.children@.len(),
                children@.len() == i,
                forall|j: int|
                    0 <= j < i ==> zeroed_of(#[trigger] children@[j], self.children@[j]),
            decreases self.children@.len() - i,
        {
            let child = self.children[i].zeroed();
            children.push(child);
            i = i + 1;
        }
        LayoutBox { box_type: self.box_type, dimensions: Dimensions::default(), children }
    }

    /// Lays this box out as the root of the tree: `bounds` acts as the
    /// containing content rectangle with zero edges, and the box's own
    /// declared direction governs its resolution.
    pub fn layout(&self, bounds: Rectangle) -> (out: LayoutBox<'a>)
        ensures
            spec_laid_as_child(
                out,
                *self,
                Dimensions { content: bounds, ..default_dimensions() },
                self.box_type,
                Point { x: bounds.x, y: bounds.y },
            ),
    {
        let containing_dimensions = Dimensions {
            content: bounds,
            padding: Edges { top: 0, right: 0, bottom: 0, left: 0 },
            border: Edges { top: 0, right: 0, bottom: 0, left: 0 },
            margin: Edges { top: 0, right: 0, bottom: 0, left: 0 },
        };
        self.layout_as_child(
            &containing_dimensions,
            self.box_type,
            Point::new(bounds.x, bounds.y),
        )
    }

    /// Lays this box out inside a container: a Flex box inside a Flex
    /// container is resolved against it, anything else keeps zero geometry.
    pub fn layout_as_child(
        &self,
        containing_dimensions: &Dimensions,
        containing_type: BoxType<'a>,
        offset: Point,
    ) -> (out: LayoutBox<'a>)
        ensures
            spec_laid_as_child(out, *self, *containing_dimensions, containing_type, offset),
        decreases *self, 1int,
    {
        match containing_type {
            BoxType::FlexNode(containing_styled) => match self.box_type {
                BoxType::FlexNode(styled_node) => self.layout_flex(
                    styled_node,
                    containing_dimensions,
                    &containing_styled.style,
                    offset,
                ),
                _ => self.zeroed(),
            },
            _ => self.zeroed(),
        }
    }

    /// Resolves a Flex box: its own two axes against the container, then
    /// its children in order along its own direction, then an automatic
    /// main size from the children's margin boxes.
    #[verifier::loop_isolation(false)]
    pub fn layout_flex(
        &self,
        styled_node: &StyledNode<'a>,
        containing_dimensions: &Dimensions,
        containing_styles: &Styles,
        offset: Point,
    ) -> (out: LayoutBox<'a>)
        ensures
            spec_laid_flex(
                out,
                *self,
                *styled_node,
                *containing_dimensions,
                *containing_styles,
                offset,
            ),
        decreases *self, 0int,
    {
        let dp = match containing_styles.flex_direction {
            Some(dir) => dir,
            None => FlexDirection::Row,
        };

        let mut d = Dimensions::default();
        match dp {
            FlexDirection::Row => {
                Self::calculate_flex_height(styled_node, containing_dimensions, dp, offset, &mut d);
                Self::calculate_flex_width(styled_node, containing_dimensions, dp, offset, &mut d);
            },
            FlexDirection::Column => {
                Self::calculate_flex_width(styled_node, containing_dimensions, dp, offset, &mut d);
                Self::calculate_flex_height(styled_node, containing_dimensions, dp, offset, &mut d);
            },
        }
        proof {
            reveal(spec_own_dimensions);
            assert(d == spec_own_dimensions(
                styled_node.style,
                *containing_dimensions,
                dp,
                offset,
            ));
        }

        // Lay the children out along this box's own direction, tracking the
        // running offset from the content origin.
        let ghost start = Point { x: d.content.x, y: d.content.y };
        let db = match self.box_type {
            BoxType::FlexNode(s) => match s.style.flex_direction {
                Some(dir) => dir,
                None => FlexDirection::Row,
            },
            BoxType::InlineNode(s) => match s.style.flex_direction {
                Some(dir) => dir,
                None => FlexDirection::Row,
            },
            BoxType::AnonymousBlock => FlexDirection::Row,
        };
        proof {
            assert(db == spec_ctype_dir(self.box_type));
        }
        let mut o = Point::new(d.content.x, d.content.y);
        let mut children: Vec<LayoutBox<'a>> = Vec::new();
        let mut i: usize = 0;
        while i < self.children.len()
            invariant
                i <= self.children@.len(),
                children@.len() == i,
                spec_laid_children(
                    children@,
                    self.children@.take(i as int),
                    d,
                    self.box_type,
                    start,
                ),
                o == spec_end_offset(start, children@, db),
            decreases self.children@.len() - i,
        {
            let child_out = self.children[i].layout_as_child(&d, self.box_type, o);
            let mb = child_out.dimensions.margin_box();
            match db {
                FlexDirection::Row => {
                    o.x = crate::primitives::sat_to_i32(o.x as i64 + mb.width as i64);
                },
                FlexDirection::Column => {
                    o.y = crate::primitives::sat_to_i32(o.y as i64 + mb.height as i64);
                },
            }
            proof {
                lemma_laid_children_snoc(
                    children@,
                    self.children@.take(i as int),
                    d,
                    self.box_type,
                    start,
                    child_out,
                    self.children@[i as int],
                );
                lemma_end_offset_snoc(start, children@, db, child_out);
                assert(self.children@.take(i as int).push(self.children@[i as int])
                    =~= self.children@.take(i + 1 as int));
            }
            children.push(child_out);
            i = i + 1;
        }
        proof {
            assert(self.children@.take(self.children@.len() as int) =~= self.children@);
        }

        // An automatic main size becomes the sum of the children's
        // margin-box main sizes, capped at the `u32` range.
        let main_auto: bool = match dp {
            FlexDirection::Row => match styled_node.style.width {
                Some(Size::Auto) | None => true,
                _ => false,
            },
            FlexDirection::Column => match styled_node.style.height {
                Some(Size::Auto) | None => true,
                _ => false,
            },
        };
        if main_auto {
            let mut sum: u64 = 0;
            let mut j: usize = 0;
            while j < children.len()
                invariant
                    j <= children@.len(),
                    sum == clamp_u32(spec_sum_main(children@.take(j as int), dp)),
                decreases children@.len() - j,
            {
                let mb = children[j].dimensions.margin_box();
                let term: u64 = match dp {
                    FlexDirection::Row => mb.width as u64,
                    FlexDirection::Column => mb.height as u64,
                };
                proof {
                    lemma_sum_main_snoc(children@.take(j as int), dp, children@[j as int]);
                    lemma_sum_main_nonneg(children@.take(j as int), dp);
                    assert(children@.take(j as int).push(children@[j as int]) =~= children@.take(
                        j + 1 as int,
                    ));
                }
                sum = sum + term;
                if sum > u32::MAX as u64 {
                    sum = u32::MAX as u64;
                }
                j = j + 1;
            }
            proof {
                assert(children@.take(children@.len() as int) =~= children@);
            }
            match dp {
                FlexDirection::Row => {
                    d.content.width = sum as u32;
                },
                FlexDirection::Column => {
                    d.content.height = sum as u32;
                },
            }
        }

        LayoutBox { dimensions: d, box_type: self.box_type, children }
    }
}

} // verus!
