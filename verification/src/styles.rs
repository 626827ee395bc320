//! Style rule sets and the cascade: a base rule set plus state-keyed
//! overrides, merged field by field into one effective `Styles`.

use vstd::prelude::*;

use crate::node::ElementState;
use crate::primitives::{sat_i32, Color};

verus! {

/// How a node participates in layout.
#[derive(Debug, Clone, Copy, PartialEq, Eq, Structural)]
pub enum Display {
    Flex,
    Inline,
    Hidden,
}

impl Default for Display {
    fn default() -> (d: Display)
        ensures
            d == Display::Flex,
    {
        Display::Flex
    }
}

/// A declared size: automatic, absolute pixels, or a whole-number percentage
/// of the containing block's content size on the same axis.
#[derive(Debug, Clone, Copy, PartialEq, Eq, Structural)]
pub enum Size {
    Auto,
    Pixels(i32),
    Percentage(i32),
}

impl Default for Size {
    fn default() -> (s: Size)
        ensures
            s == Size::Auto,
    {
        Size::Auto
    }
}

/// Truncating division by 100, rounding toward zero as hardware division does.
pub open spec fn trunc_div_100(a: int) -> int {
    if a >= 0 {
        a / 100
    } else {
        -((-a) / 100)
    }
}

/// The pixel value a size resolves to against a containing block size:
/// `Auto` contributes nothing here, pixels pass through, and a percentage is
/// truncated toward zero and saturated at the `i32` range.
pub open spec fn spec_to_pixels(s: Size, containing: int) -> int {
    match s {
        Size::Auto => 0,
        Size::Pixels(px) => px as int,
        Size::Percentage(p) => sat_i32(trunc_div_100(containing * p)),
    }
}

impl Size {
    pub fn zero() -> (s: Size)
        ensures
            s == Size::Pixels(0i32),
    {
        Size::Pixels(0)
    }

    /// Resolves the size against the given containing block size.
    pub fn to_pixels(&self, containing_block_size: i32) -> (r: i32)
        ensures
            r as int == spec_to_pixels(*self, containing_block_size as int),
    {
        match self {
            Size::Auto => 0,
            Size::Pixels(px) => *px,
            Size::Percentage(percentage) => {
                proof {
                    let a = containing_block_size as int;
                    let b = *percentage as int;
                    assert(-0x4000000000000000 <= a * b <= 0x4000000000000000) by (nonlinear_arith)
                        requires
                            -0x80000000 <= a <= 0x7fffffff,
                            -0x80000000 <= b <= 0x7fffffff,
                    ;
                }
                let prod: i64 = containing_block_size as i64 * *percentage as i64;
                let q: i64 = if prod >= 0 {
                    ((prod as u64) / 100u64) as i64
                } else {
                    -((((-prod) as u64) / 100u64) as i64)
                };
                crate::primitives::sat_to_i32(q)
            },
        }
    }
}

/// Per-edge declared sizes; an unset edge resolves to zero pixels.
#[derive(Debug, Clone, Copy, PartialEq, Eq)]
pub struct EdgeSizes {
    pub top: Option<Size>,
    pub right: Option<Size>,
    pub bottom: Option<Size>,
    pub left: Option<Size>,
}

impl EdgeSizes {
    pub fn zero() -> (e: EdgeSizes)
        ensures
            e == (EdgeSizes {
                top: Some(Size::Pixels(0i32)),
                right: Some(Size::Pixels(0i32)),
                bottom: Some(Size::Pixels(0i32)),
                left: Some(Size::Pixels(0i32)),
            }),
    {
        EdgeSizes {
            top: Some(Size::zero()),
            right: Some(Size::zero()),
            bottom: Some(Size::zero()),
            left: Some(Size::zero()),
        }
    }

    pub fn all(size: Size) -> (e: EdgeSizes)
        ensures
            e == (EdgeSizes { top: Some(size), right: Some(size), bottom: Some(size), left: Some(size) }),
    {
        EdgeSizes { top: Some(size), right: Some(size), bottom: Some(size), left: Some(size) }
    }

    pub fn axis(vertical: Size, horizontal: Size) -> (e: EdgeSizes)
        ensures
            e == (EdgeSizes {
                top: Some(vertical),
                right: Some(horizontal),
                bottom: Some(vertical),
                left: Some(horizontal),
            }),
    {
        EdgeSizes { top: Some(vertical), right: Some(horizontal), bottom: Some(vertical), left: Some(horizontal) }
    }
}

impl Default for EdgeSizes {
    fn default() -> (e: EdgeSizes)
        ensures
            e == (EdgeSizes {
                top: None::<Size>,
                right: None::<Size>,
                bottom: None::<Size>,
                left: None::<Size>,
            }),
    {
        EdgeSizes { top: None, right: None, bottom: None, left: None }
    }
}

/// The axis along which a container places its children in sequence.
#[derive(Debug, Clone, Copy, PartialEq, Eq, Structural)]
pub enum FlexDirection {
    Row,
    Column,
}

impl Default for FlexDirection {
    fn default() -> (d: FlexDirection)
        ensures
            d == FlexDirection::Row,
    {
        FlexDirection::Row
    }
}

/// One rule set. Every field but `display` is optional; `display` always has
/// a value and is always taken from the layer merged last.
#[derive(Debug, Clone, Copy, PartialEq, Eq)]
pub struct Styles {
    pub display: Display,
    pub color: Option<Color>,
    pub background_color: Option<Color>,
    pub border_color: Option<Color>,
    pub width: Option<Size>,
    pub height: Option<Size>,
    pub margin: Option<EdgeSizes>,
    pub padding: Option<EdgeSizes>,
    pub border: Option<EdgeSizes>,
    pub flex_direction: Option<FlexDirection>,
}

/// The rule set every cascade starts from: Flex display, everything else
/// unset.
pub open spec fn default_styles() -> Styles {
    Styles {
        display: Display::Flex,
        color: None,
        background_color: None,
        border_color: None,
        width: None,
        height: None,
        margin: None,
        padding: None,
        border: None,
        flex_direction: None,
    }
}

/// The merge rule of the cascade: per field, the override's value when the
/// override defines it, else the base's — except `display`, which is not
/// optional and is always taken from the override.
pub open spec fn spec_merge(base: Styles, over: Styles) -> Styles {
    Styles {
        display: over.display,
        color: if over.color is Some { over.color } else { base.color },
        background_color: if over.background_color is Some {
            over.background_color
        } else {
            base.background_color
        },
        border_color: if over.border_color is Some { over.border_color } else { base.border_color },
        width: if over.width is Some { over.width } else { base.width },
        height: if over.height is Some { over.height } else { base.height },
        margin: if over.margin is Some { over.margin } else { base.margin },
        padding: if over.padding is Some { over.padding } else { base.padding },
        border: if over.border is Some { over.border } else { base.border },
        flex_direction: if over.flex_direction is Some {
            over.flex_direction
        } else {
            base.flex_direction
        },
    }
}

impl Default for Styles {
    fn default() -> (s: Styles)
        ensures
            s == default_styles(),
    {
        Styles {
            display: Display::Flex,
            color: None,
            background_color: None,
            border_color: None,
            width: None,
            height: None,
            margin: None,
            padding: None,
            border: None,
            flex_direction: None,
        }
    }
}

impl Styles {
    /// Combines two rule sets into one; a field defined in `other` replaces
    /// the field of `self`, and `display` is always taken from `other`.
    pub fn merge_with(&self, other: &Styles) -> (r: Styles)
        ensures
            r == spec_merge(*self, *other),
    {
        Styles {
            display: other.display,
            color: match other.color {
                Some(c) => Some(c),
                None => self.color,
            },
            background_color: match other.background_color {
                Some(c) => Some(c),
                None => self.background_color,
            },
            border_color: match other.border_color {
                Some(c) => Some(c),
                None => self.border_color,
            },
            width: match other.width {
                Some(w) => Some(w),
                None => self.width,
            },
            height: match other.height {
                Some(h) => Some(h),
                None => self.height,
            },
            margin: match other.margin {
                Some(m) => Some(m),
                None => self.margin,
            },
            padding: match other.padding {
                Some(p) => Some(p),
                None => self.padding,
            },
            border: match other.border {
                Some(b) => Some(b),
                None => self.border,
            },
            flex_direction: match other.flex_direction {
                Some(f) => Some(f),
                None => self.flex_direction,
            },
        }
    }
}

/// A node's authored styling: a base rule set plus per-state overrides,
/// looked up by state in definition order.
#[derive(Debug, Clone, PartialEq, Eq)]
pub struct ElementStyles {
    pub base_styles: Styles,
    pub state_styles: Vec<(ElementState, Styles)>,
}

impl Default for ElementStyles {
    fn default() -> (e: ElementStyles)
        ensures
            e.base_styles == default_styles(),
            e.state_styles@.len() == 0,
    {
        ElementStyles { base_styles: Styles::default(), state_styles: Vec::new() }
    }
}

/// The override registered for a state, if any: the first entry whose state
/// matches.
pub open spec fn spec_lookup(overrides: Seq<(ElementState, Styles)>, s: ElementState) -> Option<
    Styles,
>
    decreases overrides.len(),
{
    if overrides.len() == 0 {
        None
    } else if overrides[0].0 == s {
        Some(overrides[0].1)
    } else {
        spec_lookup(overrides.drop_first(), s)
    }
}

/// The running result after merging, in order, the override of each listed
/// active state that has one registered; a state with no registered override
/// is a no-op.
pub open spec fn spec_apply_states(
    acc: Styles,
    overrides: Seq<(ElementState, Styles)>,
    states: Seq<ElementState>,
) -> Styles
    decreases states.len(),
{
    if states.len() == 0 {
        acc
    } else {
        let next = match spec_lookup(overrides, states[0]) {
            Some(over) => spec_merge(acc, over),
            None => acc,
        };
        spec_apply_states(next, overrides, states.drop_first())
    }
}

/// The one effective rule set for a node: defaults, then the base rule set,
/// then each active state's override in the order the states are listed.
pub open spec fn spec_resolved(es: ElementStyles, states: Seq<ElementState>) -> Styles {
    spec_apply_states(spec_merge(default_styles(), es.base_styles), es.state_styles@, states)
}

/// Appending one more active state applies its override (if registered) to
/// the result of the states before it.
pub proof fn lemma_apply_states_snoc(
    acc: Styles,
    overrides: Seq<(ElementState, Styles)>,
    states: Seq<ElementState>,
    s: ElementState,
)
    ensures
        spec_apply_states(acc, overrides, states.push(s)) == (match spec_lookup(overrides, s) {
            Some(over) => spec_merge(spec_apply_states(acc, overrides, states), over),
            None => spec_apply_states(acc, overrides, states),
        }),
    decreases states.len(),
{
    if states.len() == 0 {
        assert(states.push(s)[0] == s);
        assert(states.push(s).drop_first() =~= states);
        let stepped = match spec_lookup(overrides, s) {
            Some(over) => spec_merge(acc, over),
            None => acc,
        };
        assert(spec_apply_states(acc, overrides, states.push(s)) == spec_apply_states(
            stepped,
            overrides,
            states,
        ));
        assert(spec_apply_states(stepped, overrides, states) == stepped);
    } else {
        assert(states.push(s)[0] == states[0]);
        assert(states.push(s).drop_first() =~= states.drop_first().push(s));
        let next = match spec_lookup(overrides, states[0]) {
            Some(over) => spec_merge(acc, over),
            None => acc,
        };
        assert(spec_apply_states(acc, overrides, states.push(s)) == spec_apply_states(
            next,
            overrides,
            states.drop_first().push(s),
        ));
        lemma_apply_states_snoc(next, overrides, states.drop_first(), s);
        assert(spec_apply_states(acc, overrides, states) == spec_apply_states(
            next,
            overrides,
            states.drop_first(),
        ));
    }
}

impl ElementStyles {
    /// Resolves the one effective rule set for the given list of currently
    /// active states. Total: states with no registered override pass through.
    #[verifier::loop_isolation(false)]
    pub fn applicable_styles(&self, states: &Vec<ElementState>) -> (r: Styles)
        ensures
            r == spec_resolved(*self, states@),
    {
        let mut applicable = Styles::default().merge_with(&self.base_styles);
        let ghost init = applicable;
        let mut i: usize = 0;
        while i < states.len()
            invariant
                i <= states.len(),
                applicable == spec_apply_states(init, self.state_styles@, states@.take(i as int)),
            decreases states.len() - i,
        {
            let state = states[i];
            match self.lookup_override(state) {
                Some(over) => {
                    applicable = applicable.merge_with(&over);
                },
                None => {},
            }
            proof {
                lemma_apply_states_snoc(init, self.state_styles@, states@.take(i as int), state);
                assert(states@.take(i as int).push(state) =~= states@.take(i + 1 as int));
            }
            i = i + 1;
        }
        proof {
            assert(states@.take(states@.len() as int) =~= states@);
        }
        applicable
    }

    /// The override rule set registered for a state, if any.
    #[verifier::loop_isolation(false)]
    pub fn lookup_override(&self, state: ElementState) -> (r: Option<Styles>)
        ensures
            r == spec_lookup(self.state_styles@, state),
    {
        proof {
            assert(self.state_styles@.skip(0) =~= self.state_styles@);
        }
        let mut i: usize = 0;
        while i < self.state_styles.len()
            invariant
                i <= self.state_styles.len(),
                spec_lookup(self.state_styles@, state) == spec_lookup(
                    self.state_styles@.skip(i as int),
                    state,
                ),
                forall|j: int| 0 <= j < i ==> self.state_styles@[j].0 != state,
            decreases self.state_styles.len() - i,
        {
            proof {
                assert(self.state_styles@.skip(i as int)[0] == self.state_styles@[i as int]);
            }
            if self.state_styles[i].0 == state {
                return Some(self.state_styles[i].1);
            }
            proof {
                assert(self.state_styles@.skip(i as int).drop_first() =~= self.state_styles@.skip(
                    i + 1,
                ));
            }
            i = i + 1;
        }
        None
    }
}

/// Fluent conversion of an integer pixel count into a `Size`.
pub trait SizeFluentPixels {
    fn px(self) -> Size;
}

impl SizeFluentPixels for i32 {
    fn px(self) -> Size {
        Size::Pixels(self)
    }
}

/// Fluent conversion of a whole-number percentage into a `Size`.
pub trait SizeFluentPercentage {
    fn percent(self) -> Size;
}

impl SizeFluentPercentage for i32 {
    fn percent(self) -> Size {
        Size::Percentage(self)
    }
}

} // verus!
