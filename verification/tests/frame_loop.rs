use minigui::document::Document;
use minigui::input::{InputEvent, KeyCode, KeyEvent};
use minigui::node::{Attributes, ElementState, Node, NodeType};
use minigui::primitives::Color;
use minigui::styles::{Display, ElementStyles, Size, Styles};

fn down_click() -> InputEvent {
    InputEvent { key_code: KeyCode::Down, key_event: KeyEvent::Clicked }
}

/// A box whose background flips to white while it holds focus.
fn focusable_box(width: u32) -> Node {
    let base = Styles {
        display: Display::Flex,
        width: Some(Size::Pixels(width as i32)),
        height: Some(Size::Pixels(4)),
        background_color: Some(Color::black()),
        ..Styles::default()
    };
    let focus_override = Styles {
        background_color: Some(Color::white()),
        ..Styles::default()
    };
    Node::new(
        NodeType::Box(),
        Attributes {
            id: None,
            style: Some(ElementStyles {
                base_styles: base,
                state_styles: vec![(ElementState::Focus, focus_override)],
            }),
            tab_index: None,
        },
    )
}

#[test]
fn focus_restyles_the_focused_node_through_the_pipeline() {
    let mut doc = Document::new(8, 4);
    doc.root.children.push(focusable_box(4));
    doc.root.children.push(focusable_box(4));

    // Cursor 0 focuses the root; both children render black.
    doc.update(&vec![]);
    let frame = doc.draw();
    assert_eq!(frame.image_buffer.pixels[0], Color::black());

    // Cursor 1 focuses the first child: its half turns white.
    doc.update(&vec![down_click()]);
    let frame = doc.draw();
    assert_eq!(frame.image_buffer.pixels[0], Color::white());
    assert_eq!(frame.image_buffer.pixels[3], Color::white());
    assert_eq!(frame.image_buffer.pixels[4], Color::black());

    // Cursor 2 moves focus to the second child.
    doc.update(&vec![down_click()]);
    let frame = doc.draw();
    assert_eq!(frame.image_buffer.pixels[0], Color::black());
    assert_eq!(frame.image_buffer.pixels[4], Color::white());
}

#[test]
fn repeated_updates_keep_a_single_focus_state() {
    let mut doc = Document::new(8, 4);
    doc.update(&vec![]);
    doc.update(&vec![]);
    doc.update(&vec![]);
    let focus_entries = doc
        .root
        .states
        .iter()
        .filter(|s| **s == ElementState::Focus)
        .count();
    assert_eq!(focus_entries, 1);
}

#[test]
fn drawing_twice_from_an_unmodified_tree_is_identical() {
    let mut doc = Document::new(8, 4);
    doc.root.children.push(focusable_box(4));
    doc.update(&vec![]);
    let a = doc.draw();
    let b = doc.draw();
    assert_eq!(a.image_buffer.pixels, b.image_buffer.pixels);
}

#[test]
fn hidden_node_does_not_render() {
    let mut doc = Document::new(8, 4);
    doc.root.children.push(Node::new(
        NodeType::Box(),
        Attributes {
            id: None,
            style: Some(ElementStyles {
                base_styles: Styles {
                    display: Display::Hidden,
                    width: Some(Size::Pixels(8)),
                    height: Some(Size::Pixels(4)),
                    background_color: Some(Color::white()),
                    ..Styles::default()
                },
                state_styles: vec![],
            }),
            tab_index: None,
        },
    ));
    doc.update(&vec![]);
    let frame = doc.draw();
    for p in frame.image_buffer.pixels.iter() {
        assert_eq!(*p, Color::black());
    }
}
