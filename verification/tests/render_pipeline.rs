use minigui::canvas::Canvas;
use minigui::commands::{build_render_commands, RenderCommand};
use minigui::document::Document;
use minigui::font::{glyph_origin, point_to_index, Character, Font};
use minigui::image_buffer::ImageBuffer;
use minigui::layout_tree::build_layout_tree;
use minigui::node::{Attributes, Node, NodeType, TextNodeData};
use minigui::primitives::{Color, Rectangle};
use minigui::solid_color::SolidColor;
use minigui::style_tree::build_style_tree;
use minigui::styles::{Display, ElementStyles, Size, Styles};
use minigui::text::Text;

fn solid_glyph(w: usize, h: usize, c: Color) -> Character {
    Character { image_buffer: ImageBuffer { width: w, height: h, pixels: vec![c; w * h] } }
}

fn tiny_font() -> Font {
    Font::new(
        vec![
            ('?', solid_glyph(2, 2, Color::rgb(9, 9, 9))),
            ('A', solid_glyph(2, 2, Color::white())),
            ('B', solid_glyph(2, 2, Color::rgb(7, 7, 7))),
        ],
        1,
    )
}

fn box_node(style: Styles) -> Node {
    Node::new(
        NodeType::Box(),
        Attributes {
            id: None,
            style: Some(ElementStyles { base_styles: style, state_styles: vec![] }),
            tab_index: None,
        },
    )
}

#[test]
fn font_lookup_finds_registered_glyphs() {
    let font = tiny_font();
    assert_eq!(font.get_character('A').image_buffer.pixels[0], Color::white());
}

#[test]
fn font_lookup_falls_back_to_question_mark() {
    let font = tiny_font();
    assert_eq!(font.get_character('z').image_buffer.pixels[0], Color::rgb(9, 9, 9));
}

#[test]
fn glyph_origin_locates_glyphs_in_a_packed_sheet() {
    // A 12-wide sheet of 4x6 glyphs holds three per row: index 5 sits in
    // row 1, column 2.
    assert_eq!(glyph_origin(12, 4, 6, 5), (8, 6));
    assert_eq!(glyph_origin(12, 4, 6, 0), (0, 0));
    assert_eq!(glyph_origin(12, 4, 6, 3), (0, 6));
}

#[test]
fn point_to_index_rejects_points_outside_the_grid() {
    assert_eq!(point_to_index(3, 2, 10, 5), Some(23));
    assert_eq!(point_to_index(-1, 0, 10, 5), None);
    assert_eq!(point_to_index(0, 5, 10, 5), None);
    assert_eq!(point_to_index(10, 0, 10, 5), None);
}

#[test]
fn solid_fill_outside_the_buffer_writes_nothing() {
    let mut target = ImageBuffer::new(8, 4);
    let before = target.pixels.clone();
    SolidColor::new(Color::white()).draw(&mut target, Rectangle::new(100, 100, 5, 5));
    assert_eq!(target.pixels, before);
    SolidColor::new(Color::white()).draw(&mut target, Rectangle::new(-50, 0, 5, 5));
    assert_eq!(target.pixels, before);
}

#[test]
fn solid_fill_clips_to_the_buffer() {
    let mut target = ImageBuffer::new(4, 3);
    SolidColor::new(Color::white()).draw(&mut target, Rectangle::new(2, 1, 10, 10));
    for y in 0..3usize {
        for x in 0..4usize {
            let expected = if x >= 2 && y >= 1 { Color::white() } else { Color::black() };
            assert_eq!(target.pixels[x + y * 4], expected, "pixel {} {}", x, y);
        }
    }
}

#[test]
fn blit_copies_the_overlapping_region() {
    let mut target = ImageBuffer::new(4, 4);
    let source = ImageBuffer { width: 2, height: 2, pixels: vec![Color::white(); 4] };
    source.draw(&mut target, Rectangle::new(3, 0, 2, 2));
    // Only the x = 3 column of the first two rows lands inside the target.
    assert_eq!(target.pixels[3], Color::white());
    assert_eq!(target.pixels[3 + 4], Color::white());
    assert_eq!(target.pixels[2], Color::black());
    assert_eq!(target.pixels[3 + 8], Color::black());
}

#[test]
fn text_draw_advances_by_glyph_width() {
    let font = tiny_font();
    let mut target = ImageBuffer::new(8, 2);
    let text = Text::new(String::from("AB"), &font);
    text.draw(&mut target, Rectangle::new(0, 0, 8, 2));
    // 'A' covers x 0..2, 'B' covers x 2..4.
    assert_eq!(target.pixels[0], Color::white());
    assert_eq!(target.pixels[1], Color::white());
    assert_eq!(target.pixels[2], Color::rgb(7, 7, 7));
    assert_eq!(target.pixels[3], Color::rgb(7, 7, 7));
    assert_eq!(target.pixels[4], Color::black());
}

#[test]
fn text_draw_stops_at_the_first_fully_clipped_glyph() {
    let font = tiny_font();
    // Bounds only 2 pixels wide: 'A' fits, 'B' is fully clipped, and the
    // third glyph would fit again if drawing continued - it must not.
    let mut target = ImageBuffer::new(8, 2);
    let text = Text::new(String::from("ABA"), &font);
    text.draw(&mut target, Rectangle::new(0, 0, 2, 2));
    assert_eq!(target.pixels[0], Color::white());
    assert_eq!(target.pixels[1], Color::white());
    for x in 2..8usize {
        assert_eq!(target.pixels[x], Color::black(), "column {}", x);
    }
}

#[test]
fn display_list_orders_background_borders_then_text() {
    let mut root = box_node(Styles {
        display: Display::Flex,
        width: Some(Size::Pixels(10)),
        height: Some(Size::Pixels(4)),
        background_color: Some(Color::white()),
        ..Styles::default()
    });
    root.children.push(Node::new(
        NodeType::Text(TextNodeData { text: String::from("A"), font: tiny_font() }),
        Attributes {
            id: None,
            style: Some(ElementStyles {
                base_styles: Styles {
                    display: Display::Flex,
                    width: Some(Size::Pixels(4)),
                    height: Some(Size::Pixels(2)),
                    color: Some(Color::rgb(1, 1, 1)),
                    ..Styles::default()
                },
                state_styles: vec![],
            }),
            tab_index: None,
        },
    ));

    let styled = build_style_tree(&root);
    let laid = build_layout_tree(&styled).layout(Rectangle::new(0, 0, 10, 4));
    let cmds = build_render_commands(&laid);

    // Five commands for the root, five for the child, one text command.
    assert_eq!(cmds.len(), 11);
    match &cmds[0] {
        RenderCommand::SolidColor(color, rect) => {
            assert_eq!(*color, Color::white());
            assert_eq!(*rect, Rectangle::new(0, 0, 10, 4));
        },
        _ => panic!("expected the root background first"),
    }
    match &cmds[10] {
        RenderCommand::Text(color, rect, string, _) => {
            assert_eq!(*color, Color::rgb(1, 1, 1));
            assert_eq!(*rect, Rectangle::new(0, 0, 4, 2));
            assert_eq!(string.as_str(), "A");
        },
        _ => panic!("expected the text command last"),
    }
}

#[test]
fn zero_thickness_borders_are_zero_area_commands() {
    let root = box_node(Styles {
        display: Display::Flex,
        width: Some(Size::Pixels(6)),
        height: Some(Size::Pixels(3)),
        ..Styles::default()
    });
    let styled = build_style_tree(&root);
    let laid = build_layout_tree(&styled).layout(Rectangle::new(0, 0, 6, 3));
    let cmds = build_render_commands(&laid);
    assert_eq!(cmds.len(), 5);
    for cmd in cmds.iter().skip(1) {
        match cmd {
            RenderCommand::SolidColor(_, rect) => {
                assert!(rect.width == 0 || rect.height == 0);
            },
            _ => panic!("expected only solid commands"),
        }
    }
}

#[test]
fn canvas_paints_a_command_list() {
    let mut canvas = Canvas::new(6, 3);
    canvas.paint_command(&RenderCommand::SolidColor(
        Color::white(),
        Rectangle::new(0, 0, 3, 3),
    ));
    assert_eq!(canvas.image_buffer.pixels[0], Color::white());
    assert_eq!(canvas.image_buffer.pixels[3], Color { r: 0, g: 0, b: 0, a: 0 });
}

#[test]
fn document_draw_composites_the_tree() {
    let mut doc = Document::new(8, 4);
    doc.root.children.push(box_node(Styles {
        display: Display::Flex,
        width: Some(Size::Pixels(4)),
        height: Some(Size::Pixels(4)),
        background_color: Some(Color::white()),
        ..Styles::default()
    }));
    doc.update(&vec![]);
    let canvas = doc.draw();
    assert_eq!(canvas.image_buffer.width, 8);
    assert_eq!(canvas.image_buffer.height, 4);
    // The child covers the left half; the root's background is black.
    assert_eq!(canvas.image_buffer.pixels[0], Color::white());
    assert_eq!(canvas.image_buffer.pixels[3], Color::white());
    assert_eq!(canvas.image_buffer.pixels[4], Color::black());
}

#[test]
fn style_tree_building_is_deterministic() {
    // Building the style tree twice from one unmodified tree with the same
    // state lists resolves identical rule sets both times.
    let mut doc = Document::new(8, 4);
    doc.root.children.push(box_node(Styles {
        display: Display::Flex,
        width: Some(Size::Percentage(50)),
        ..Styles::default()
    }));
    doc.update(&vec![]);

    let first = build_style_tree(&doc.root);
    let second = build_style_tree(&doc.root);
    assert_eq!(first.style, second.style);
    assert_eq!(first.children.len(), second.children.len());
    for (a, b) in first.children.iter().zip(second.children.iter()) {
        assert_eq!(a.style, b.style);
    }
}

#[test]
fn binary_color_round_trip() {
    assert_eq!(Color::from_binary(true), Color::white());
    assert_eq!(Color::from_binary(false), Color { r: 0, g: 0, b: 0, a: 255 });
    assert!(Color::white().to_binary());
    assert!(!Color::black().to_binary());
    assert!(!Color::rgb(100, 100, 100).to_binary());
    assert!(Color::rgb(101, 100, 100).to_binary());
}
