use minigui::layout_tree::build_layout_tree;
use minigui::node::{Attributes, Node, NodeType};
use minigui::primitives::{Edges, Point, Rectangle};
use minigui::style_tree::build_style_tree;
use minigui::styles::{
    Display, EdgeSizes, ElementStyles, FlexDirection, Size, SizeFluentPixels, Styles,
};

fn box_node(style: Styles) -> Node {
    Node::new(
        NodeType::Box(),
        Attributes {
            id: None,
            style: Some(ElementStyles { base_styles: style, state_styles: vec![] }),
            tab_index: None,
        },
    )
}

fn flex_style(width: Size, height: Size) -> Styles {
    Styles {
        display: Display::Flex,
        width: Some(width),
        height: Some(height),
        ..Styles::default()
    }
}

#[test]
fn rectangle_expand_grows_outward_per_edge() {
    let r = Rectangle::new(10, 20, 30, 40);
    let grown = r.expand(&Edges { top: 1, right: 2, bottom: 3, left: 4 });
    assert_eq!(grown, Rectangle::new(6, 19, 36, 44));
}

#[test]
fn rectangle_intersect_returns_overlap_and_offsets() {
    let a = Rectangle::new(0, 0, 10, 10);
    let b = Rectangle::new(4, -2, 10, 5);
    let i = a.intersect(b);
    assert_eq!(i.bounds, Rectangle::new(4, 0, 6, 3));
    assert_eq!(i.offset_a, Point::new(4, 0));
    assert_eq!(i.offset_b, Point::new(0, 2));
}

#[test]
fn rectangle_intersect_disjoint_is_zero_sized() {
    let a = Rectangle::new(0, 0, 10, 10);
    let b = Rectangle::new(50, 50, 5, 5);
    let i = a.intersect(b);
    assert_eq!(i.bounds.width, 0);
    assert_eq!(i.bounds.height, 0);
}

#[test]
fn row_layout_places_children_sequentially() {
    // Container content width 100; two Flex children of declared width 30
    // with margin, border and padding of 1 on every edge. The declared
    // width is the margin-box width, so each child's content is 24 wide,
    // the first child's content starts at x = 3 (margin+border+padding)
    // and the second child's at 30 + 3 = 33.
    let mut root = box_node(flex_style(Size::Pixels(100), Size::Pixels(40)));
    for _ in 0..2 {
        let child_style = Styles {
            display: Display::Flex,
            width: Some(30.px()),
            height: Some(10.px()),
            margin: Some(EdgeSizes::all(1.px())),
            border: Some(EdgeSizes::all(1.px())),
            padding: Some(EdgeSizes::all(1.px())),
            ..Styles::default()
        };
        root.children.push(box_node(child_style));
    }

    let styled = build_style_tree(&root);
    let unlaid = build_layout_tree(&styled);
    let laid = unlaid.layout(Rectangle::new(0, 0, 100, 40));

    assert_eq!(laid.dimensions.content, Rectangle::new(0, 0, 100, 40));
    let first = &laid.children[0];
    assert_eq!(first.dimensions.content.x, 3);
    assert_eq!(first.dimensions.content.width, 24);
    assert_eq!(first.dimensions.margin_box().width, 30);
    let second = &laid.children[1];
    assert_eq!(second.dimensions.content.x, 33);
    assert_eq!(second.dimensions.margin_box().width, 30);
}

#[test]
fn percentage_width_resolves_against_parent_content_width() {
    // A child of width 50% inside a parent content width of 128 resolves
    // to a margin-box width of 64.
    let mut root = box_node(flex_style(Size::Pixels(128), Size::Pixels(32)));
    root.children
        .push(box_node(flex_style(Size::Percentage(50), Size::Pixels(10))));

    let styled = build_style_tree(&root);
    let laid = build_layout_tree(&styled).layout(Rectangle::new(0, 0, 128, 32));

    let child = &laid.children[0];
    assert_eq!(child.dimensions.margin_box().width, 64);
    assert_eq!(child.dimensions.content.width, 64);
}

#[test]
fn row_auto_height_fills_the_container() {
    let mut root = box_node(flex_style(Size::Pixels(100), Size::Pixels(40)));
    root.children
        .push(box_node(flex_style(Size::Pixels(10), Size::Auto)));
    let styled = build_style_tree(&root);
    let laid = build_layout_tree(&styled).layout(Rectangle::new(0, 0, 100, 40));
    assert_eq!(laid.children[0].dimensions.content.height, 40);
}

#[test]
fn column_layout_stacks_children_and_sums_auto_height() {
    // A column container with automatic height: children stack at
    // successive y offsets and the container's content height becomes the
    // sum of their margin-box heights.
    let container_style = Styles {
        display: Display::Flex,
        width: Some(Size::Pixels(50)),
        height: Some(Size::Auto),
        flex_direction: Some(FlexDirection::Column),
        ..Styles::default()
    };
    let mut root = box_node(container_style);
    for _ in 0..3 {
        root.children
            .push(box_node(flex_style(Size::Pixels(20), Size::Pixels(10))));
    }

    let styled = build_style_tree(&root);
    let laid = build_layout_tree(&styled).layout(Rectangle::new(0, 0, 50, 100));

    assert_eq!(laid.children[0].dimensions.content.y, 0);
    assert_eq!(laid.children[1].dimensions.content.y, 10);
    assert_eq!(laid.children[2].dimensions.content.y, 20);
    assert_eq!(laid.dimensions.content.height, 30);
}

#[test]
fn column_auto_width_fills_remaining_container_width() {
    let container_style = Styles {
        display: Display::Flex,
        width: Some(Size::Pixels(60)),
        height: Some(Size::Pixels(30)),
        flex_direction: Some(FlexDirection::Column),
        ..Styles::default()
    };
    let mut root = box_node(container_style);
    let child_style = Styles {
        display: Display::Flex,
        width: Some(Size::Auto),
        height: Some(Size::Pixels(10)),
        margin: Some(EdgeSizes::axis(Size::Pixels(0), Size::Pixels(2))),
        ..Styles::default()
    };
    root.children.push(box_node(child_style));

    let styled = build_style_tree(&root);
    let laid = build_layout_tree(&styled).layout(Rectangle::new(0, 0, 60, 30));

    // 60 wide minus a horizontal margin of 2 on each side.
    assert_eq!(laid.children[0].dimensions.content.width, 56);
    assert_eq!(laid.children[0].dimensions.content.x, 2);
}

#[test]
fn negative_content_size_floors_at_zero() {
    // Declared width smaller than the child's own edges would go negative;
    // the solver floors the content size at zero instead of wrapping.
    let mut root = box_node(flex_style(Size::Pixels(100), Size::Pixels(40)));
    let child_style = Styles {
        display: Display::Flex,
        width: Some(4.px()),
        height: Some(10.px()),
        padding: Some(EdgeSizes::all(3.px())),
        ..Styles::default()
    };
    root.children.push(box_node(child_style));
    let styled = build_style_tree(&root);
    let laid = build_layout_tree(&styled).layout(Rectangle::new(0, 0, 100, 40));
    assert_eq!(laid.children[0].dimensions.content.width, 0);
}

#[test]
fn hidden_subtree_drops_out_of_the_layout_tree() {
    let mut root = box_node(flex_style(Size::Pixels(100), Size::Pixels(40)));
    let hidden = Styles { display: Display::Hidden, ..Styles::default() };
    root.children.push(box_node(hidden));
    root.children
        .push(box_node(flex_style(Size::Pixels(10), Size::Pixels(10))));

    let styled = build_style_tree(&root);
    let unlaid = build_layout_tree(&styled);
    assert_eq!(unlaid.children().len(), 1);
}

#[test]
fn inline_boxes_keep_zero_geometry() {
    let mut root = box_node(flex_style(Size::Pixels(100), Size::Pixels(40)));
    let inline = Styles { display: Display::Inline, ..Styles::default() };
    root.children.push(box_node(inline));
    let styled = build_style_tree(&root);
    let laid = build_layout_tree(&styled).layout(Rectangle::new(0, 0, 100, 40));
    assert_eq!(laid.children[0].dimensions.content, Rectangle::new(0, 0, 0, 0));
}

#[test]
fn dimensions_boxes_expand_in_order() {
    let mut root = box_node(flex_style(Size::Pixels(30), Size::Pixels(30)));
    let child_style = Styles {
        display: Display::Flex,
        width: Some(20.px()),
        height: Some(20.px()),
        margin: Some(EdgeSizes::all(3.px())),
        border: Some(EdgeSizes::all(2.px())),
        padding: Some(EdgeSizes::all(1.px())),
        ..Styles::default()
    };
    root.children.push(box_node(child_style));
    let styled = build_style_tree(&root);
    let laid = build_layout_tree(&styled).layout(Rectangle::new(0, 0, 30, 30));
    let d = &laid.children[0].dimensions;
    assert_eq!(d.content.width, 8);
    assert_eq!(d.padding_box().width, 10);
    assert_eq!(d.border_box().width, 14);
    assert_eq!(d.margin_box().width, 20);
}
