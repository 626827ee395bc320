use minigui::node::ElementState;
use minigui::primitives::Color;
use minigui::styles::{
    Display, EdgeSizes, ElementStyles, FlexDirection, Size, SizeFluentPercentage,
    SizeFluentPixels, Styles,
};

fn base_styles() -> Styles {
    Styles {
        display: Display::Inline,
        color: Some(Color::rgb(1, 2, 3)),
        background_color: Some(Color::black()),
        border_color: None,
        width: Some(Size::Pixels(10)),
        height: None,
        margin: Some(EdgeSizes::all(Size::Pixels(1))),
        padding: None,
        border: None,
        flex_direction: Some(FlexDirection::Column),
    }
}

#[test]
fn merge_takes_override_fields_when_defined() {
    let base = base_styles();
    let over = Styles {
        display: Display::Flex,
        color: Some(Color::white()),
        background_color: None,
        border_color: Some(Color::rgb(9, 9, 9)),
        width: None,
        height: Some(Size::Percentage(50)),
        margin: None,
        padding: Some(EdgeSizes::zero()),
        border: None,
        flex_direction: None,
    };
    let merged = base.merge_with(&over);
    assert_eq!(merged.color, Some(Color::white()));
    assert_eq!(merged.background_color, Some(Color::black()));
    assert_eq!(merged.border_color, Some(Color::rgb(9, 9, 9)));
    assert_eq!(merged.width, Some(Size::Pixels(10)));
    assert_eq!(merged.height, Some(Size::Percentage(50)));
    assert_eq!(merged.margin, Some(EdgeSizes::all(Size::Pixels(1))));
    assert_eq!(merged.padding, Some(EdgeSizes::zero()));
    assert_eq!(merged.border, None);
    assert_eq!(merged.flex_direction, Some(FlexDirection::Column));
}

#[test]
fn merge_always_takes_override_display_even_when_defaulted() {
    // The override never mentions display, yet its default value replaces
    // the base's Inline.
    let base = base_styles();
    let over = Styles::default();
    let merged = base.merge_with(&over);
    assert_eq!(merged.display, Display::Flex);
    // Every optional field of the default override passes the base through.
    assert_eq!(merged.color, base.color);
    assert_eq!(merged.width, base.width);
}

#[test]
fn applicable_styles_resolves_base_then_state_overrides() {
    let focus_override = Styles {
        background_color: Some(Color::white()),
        ..Styles::default()
    };
    let element = ElementStyles {
        base_styles: base_styles(),
        state_styles: vec![(ElementState::Focus, focus_override)],
    };

    let unfocused = element.applicable_styles(&vec![]);
    assert_eq!(unfocused.background_color, Some(Color::black()));
    assert_eq!(unfocused.display, Display::Inline);

    let focused = element.applicable_styles(&vec![ElementState::Focus]);
    assert_eq!(focused.background_color, Some(Color::white()));
    assert_eq!(focused.color, Some(Color::rgb(1, 2, 3)));
    // The focus override carries the default display, which wins.
    assert_eq!(focused.display, Display::Flex);
}

#[test]
fn applicable_styles_without_registered_override_is_a_no_op() {
    let element = ElementStyles {
        base_styles: base_styles(),
        state_styles: vec![],
    };
    let resolved = element.applicable_styles(&vec![ElementState::Focus]);
    assert_eq!(resolved, base_styles());
}

#[test]
fn fluent_size_helpers() {
    assert_eq!(30.px(), Size::Pixels(30));
    assert_eq!(50.percent(), Size::Percentage(50));
    assert_eq!(Size::zero(), Size::Pixels(0));
}

#[test]
fn to_pixels_resolves_against_containing_size() {
    assert_eq!(Size::Auto.to_pixels(128), 0);
    assert_eq!(Size::Pixels(37).to_pixels(128), 37);
    assert_eq!(Size::Percentage(50).to_pixels(128), 64);
    assert_eq!(Size::Percentage(33).to_pixels(100), 33);
    assert_eq!(Size::Percentage(150).to_pixels(10), 15);
    assert_eq!(Size::Percentage(-50).to_pixels(128), -64);
}

#[test]
fn edge_sizes_constructors() {
    let zero = EdgeSizes::zero();
    assert_eq!(zero.top, Some(Size::Pixels(0)));
    let all = EdgeSizes::all(Size::Pixels(2));
    assert_eq!(all.left, Some(Size::Pixels(2)));
    assert_eq!(all.bottom, Some(Size::Pixels(2)));
    let axis = EdgeSizes::axis(Size::Pixels(1), Size::Pixels(3));
    assert_eq!(axis.top, Some(Size::Pixels(1)));
    assert_eq!(axis.bottom, Some(Size::Pixels(1)));
    assert_eq!(axis.left, Some(Size::Pixels(3)));
    assert_eq!(axis.right, Some(Size::Pixels(3)));
}
