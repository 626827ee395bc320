//! The document's structural model: a tree of box and text nodes carrying
//! authored attributes, derived properties and active states.

use vstd::prelude::*;

use crate::font::Font;
use crate::styles::ElementStyles;

verus! {

/// A state a node can currently be in; styles may register overrides per
/// state.
#[derive(Debug, Clone, Copy, PartialEq, Eq, Structural)]
pub enum ElementState {
    Focus,
}

/// Authored attributes of a node.
#[derive(Debug, Clone)]
pub struct Attributes {
    pub id: Option<String>,
    pub style: Option<ElementStyles>,
    /// `None` = assigned automatically; `Some(i)` with `i < 0` = never
    /// focusable; `Some(i)` with `i >= 0` = explicit rank.
    pub tab_index: Option<i32>,
}

impl Default for Attributes {
    fn default() -> (a: Attributes)
        ensures
            a.id is None,
            a.style is None,
            a.tab_index is None,
    {
        Attributes { id: None, style: None, tab_index: None }
    }
}

/// Properties derived by the engine each frame, never authored.
#[derive(Debug, Clone, Copy, PartialEq, Eq)]
pub struct Properties {
    /// The node's effective tab index; `None` means the node is never
    /// focusable.
    pub tab_index: Option<u32>,
}

impl Default for Properties {
    fn default() -> (p: Properties)
        ensures
            p.tab_index is None,
    {
        Properties { tab_index: None }
    }
}

/// Attributes and derived properties shared by every node kind.
#[derive(Debug, Clone)]
pub struct GenericNodeData {
    pub attributes: Attributes,
    pub properties: Properties,
}

/// The payload of a text node: its literal text and the font it is bound to.
#[derive(Debug, Clone)]
pub struct TextNodeData {
    pub text: String,
    pub font: Font,
}

/// What kind of content a node holds.
#[derive(Debug, Clone)]
pub enum NodeType {
    Text(TextNodeData),
    Box(),
}

/// One node of the document tree; it exclusively owns its ordered children.
#[derive(Debug)]
pub struct Node {
    pub children: Vec<Node>,
    pub node_data: GenericNodeData,
    pub node_type: NodeType,
    pub states: Vec<ElementState>,
}

/// The font of a text payload is well-formed; a plain box has no font.
pub open spec fn node_type_font_wf(nt: NodeType) -> bool {
    match nt {
        NodeType::Text(data) => data.font.wf(),
        NodeType::Box() => true,
    }
}

/// Every text node in the tree is bound to a well-formed font.
pub open spec fn node_fonts_wf(n: Node) -> bool
    decreases n,
{
    &&& node_type_font_wf(n.node_type)
    &&& forall|i: int|
        0 <= i < n.children@.len() ==> node_fonts_wf(#[trigger] n.children@[i])
}

impl Node {
    /// A fresh childless node with the given content kind and attributes, no
    /// active states and no derived properties.
    pub fn new(node_type: NodeType, attributes: Attributes) -> (n: Node)
        ensures
            n.children@.len() == 0,
            n.states@.len() == 0,
            n.node_data.attributes == attributes,
            n.node_data.properties.tab_index is None,
            n.node_type == node_type,
    {
        Node {
            children: Vec::new(),
            states: Vec::new(),
            node_data: GenericNodeData { attributes, properties: Properties { tab_index: None } },
            node_type,
        }
    }
}

} // verus!
