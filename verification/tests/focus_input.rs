use minigui::document::Document;
use minigui::input::{InputEvent, KeyCode, KeyEvent};
use minigui::node::{Attributes, ElementState, Node, NodeType};
use minigui::utils::SequenceGenerator;

fn plain_node(tab_index: Option<i32>) -> Node {
    Node::new(
        NodeType::Box(),
        Attributes { id: None, style: None, tab_index },
    )
}

fn up_click() -> InputEvent {
    InputEvent { key_code: KeyCode::Up, key_event: KeyEvent::Clicked }
}

fn down_click() -> InputEvent {
    InputEvent { key_code: KeyCode::Down, key_event: KeyEvent::Clicked }
}

fn effective_indices(doc: &Document) -> Vec<Option<u32>> {
    let mut out = vec![doc.root.node_data.properties.tab_index];
    for child in doc.root.children.iter() {
        out.push(child.node_data.properties.tab_index);
    }
    out
}

#[test]
fn sequence_generator_skips_reserved_values() {
    let mut g = SequenceGenerator::new();
    g.reserve(1);
    g.reserve(3);
    assert_eq!(g.next(), 0);
    assert_eq!(g.next(), 2);
    assert_eq!(g.next(), 4);
    assert_eq!(g.next(), 5);
}

#[test]
fn auto_indices_are_assigned_in_document_order() {
    // Three nodes without an explicit index get 0, 1, 2 in document order.
    let mut doc = Document::new(16, 8);
    doc.root.children.push(plain_node(None));
    doc.root.children.push(plain_node(None));
    doc.update(&vec![]);
    assert_eq!(effective_indices(&doc), vec![Some(0), Some(1), Some(2)]);
}

#[test]
fn explicit_index_reserves_its_value_for_the_auto_sequence() {
    // A fourth node with explicit index 1 makes the auto sequence skip 1,
    // yielding 0, 2, 3 for the other three wherever the explicit node
    // stands.
    let mut doc = Document::new(16, 8);
    doc.root.children.push(plain_node(None));
    doc.root.children.push(plain_node(Some(1)));
    doc.root.children.push(plain_node(None));
    doc.update(&vec![]);
    assert_eq!(
        effective_indices(&doc),
        vec![Some(0), Some(2), Some(1), Some(3)]
    );

    // The same holds with the explicit node last.
    let mut doc2 = Document::new(16, 8);
    doc2.root.children.push(plain_node(None));
    doc2.root.children.push(plain_node(None));
    doc2.root.children.push(plain_node(Some(1)));
    doc2.update(&vec![]);
    assert_eq!(
        effective_indices(&doc2),
        vec![Some(0), Some(2), Some(3), Some(1)]
    );
}

#[test]
fn negative_explicit_index_is_never_focusable() {
    let mut doc = Document::new(16, 8);
    doc.root.children.push(plain_node(Some(-1)));
    doc.root.children.push(plain_node(None));
    doc.update(&vec![]);
    assert_eq!(effective_indices(&doc), vec![Some(0), None, Some(1)]);
}

#[test]
fn up_click_saturates_the_cursor_at_zero() {
    let mut doc = Document::new(16, 8);
    assert_eq!(doc.tab_index, 0);
    doc.update(&vec![up_click()]);
    assert_eq!(doc.tab_index, 0);
}

#[test]
fn down_click_past_the_last_index_clears_focus_everywhere() {
    let mut doc = Document::new(16, 8);
    doc.root.children.push(plain_node(None));
    // Highest assigned index is 1; move the cursor to 2, then past it.
    doc.update(&vec![down_click(), down_click()]);
    assert_eq!(doc.tab_index, 2);
    doc.update(&vec![down_click()]);
    assert_eq!(doc.tab_index, 3);
    assert!(!doc.root.states.contains(&ElementState::Focus));
    assert!(!doc.root.children[0].states.contains(&ElementState::Focus));
}

#[test]
fn exactly_the_node_under_the_cursor_gains_focus() {
    let mut doc = Document::new(16, 8);
    doc.root.children.push(plain_node(None));
    doc.root.children.push(plain_node(None));

    doc.update(&vec![]);
    assert!(doc.root.states.contains(&ElementState::Focus));
    assert!(!doc.root.children[0].states.contains(&ElementState::Focus));

    doc.update(&vec![down_click()]);
    assert!(!doc.root.states.contains(&ElementState::Focus));
    assert!(doc.root.children[0].states.contains(&ElementState::Focus));
    assert!(!doc.root.children[1].states.contains(&ElementState::Focus));

    doc.update(&vec![down_click()]);
    assert!(doc.root.children[1].states.contains(&ElementState::Focus));
    assert!(!doc.root.children[0].states.contains(&ElementState::Focus));
}

#[test]
fn other_key_events_leave_the_cursor_alone() {
    let mut doc = Document::new(16, 8);
    let events = vec![
        InputEvent { key_code: KeyCode::Middle, key_event: KeyEvent::Clicked },
        InputEvent { key_code: KeyCode::Up, key_event: KeyEvent::DoubleClicked },
        InputEvent {
            key_code: KeyCode::Down,
            key_event: KeyEvent::LongPress(core::time::Duration::from_millis(700)),
        },
    ];
    doc.update(&events);
    assert_eq!(doc.tab_index, 0);
}

#[test]
fn events_apply_in_order() {
    let mut doc = Document::new(16, 8);
    doc.update(&vec![down_click(), down_click(), up_click()]);
    assert_eq!(doc.tab_index, 1);
}
