//! The document: owns the node tree and the focus cursor, applies input,
//! assigns effective tab indices, distributes the focus state, and drives
//! the style → layout → display-list → compositing pipeline once per frame.

use vstd::prelude::*;

use crate::canvas::{paint, spec_initial_pixels, spec_paint_list, Canvas};
use crate::commands::{boxes_fonts_wf, cmds_match_box, RenderCommand};
use crate::input::{InputEvent, KeyCode, KeyEvent};
use crate::layout_box::{
    default_dimensions, spec_laid_as_child, spec_laid_children, zeroed_of, BoxType, Dimensions,
    LayoutBox,
};
use crate::layout_tree::{build_layout_tree, built_children, built_matches};
use crate::node::{node_fonts_wf, Attributes, ElementState, Node, NodeType};
use crate::primitives::{Color, Point, Rectangle};
use crate::style_tree::{
    build_style_tree, lemma_styled_fonts_wf, styled_fonts_wf, styled_matches, StyledNode,
};
use crate::styles::{Display, ElementStyles, Size, Styles};
use crate::utils::SequenceGenerator;

verus! {

/// The document: the tree, the focus cursor, and the viewport size.
pub struct Document {
    pub root: Node,
    pub tab_index: u32,
    pub width: u32,
    pub height: u32,
}

/// The focus cursor after one input event: an Up click moves it back,
/// saturating at zero; a Down click moves it forward, saturating at the
/// `u32` range; everything else leaves it alone.
pub open spec fn spec_cursor_step(c: u32, e: InputEvent) -> u32 {
    match (e.key_code, e.key_event) {
        (KeyCode::Up, KeyEvent::Clicked) => if c > 0 {
            (c - 1) as u32
        } else {
            0
        },
        (KeyCode::Down, KeyEvent::Clicked) => if c < u32::MAX {
            (c + 1) as u32
        } else {
            u32::MAX
        },
        _ => c,
    }
}

/// The focus cursor after a batch of input events, applied in order.
pub open spec fn spec_cursor_after(c: u32, events: Seq<InputEvent>) -> u32
    decreases events.len(),
{
    if events.len() == 0 {
        c
    } else {
        spec_cursor_after(spec_cursor_step(c, events[0]), events.drop_first())
    }
}

/// One more event steps the cursor once more.
proof fn lemma_cursor_after_snoc(c: u32, events: Seq<InputEvent>, e: InputEvent)
    ensures
        spec_cursor_after(c, events.push(e)) == spec_cursor_step(
            spec_cursor_after(c, events),
            e,
        ),
    decreases events.len(),
{
    if events.len() == 0 {
        assert(events.push(e)[0] == e);
        assert(events.push(e).drop_first() =~= events);
        assert(spec_cursor_after(spec_cursor_step(c, e), events) == spec_cursor_step(c, e));
    } else {
        assert(events.push(e)[0] == events[0]);
        assert(events.push(e).drop_first() =~= events.drop_first().push(e));
        assert(spec_cursor_after(c, events.push(e)) == spec_cursor_after(
            spec_cursor_step(c, events[0]),
            events.drop_first().push(e),
        ));
        lemma_cursor_after_snoc(spec_cursor_step(c, events[0]), events.drop_first(), e);
    }
}

/// How many nodes a tree holds.
pub open spec fn count_nodes(n: Node) -> int
    decreases n, 1int,
{
    1 + count_children(n.children@)
}

pub open spec fn count_children(ns: Seq<Node>) -> int
    decreases ns, 0int,
{
    if ns.len() == 0 {
        0
    } else {
        count_nodes(ns[0]) + count_children(ns.drop_first())
    }
}

proof fn lemma_count_nodes_pos(n: Node)
    ensures
        count_nodes(n) >= 1,
    decreases n, 1int,
{
    lemma_count_children_nonneg(n.children@);
}

proof fn lemma_count_children_nonneg(ns: Seq<Node>)
    ensures
        count_children(ns) >= 0,
    decreases ns, 0int,
{
    if ns.len() > 0 {
        lemma_count_nodes_pos(ns[0]);
        lemma_count_children_nonneg(ns.drop_first());
    }
}

/// Whether the tree reserves the value `v` through an explicit
/// non-negative authored tab index.
pub open spec fn tree_reserves(n: Node, v: u32) -> bool
    decreases n,
{
    ||| (match n.node_data.attributes.tab_index {
        Some(t) => t >= 0 && v == t as u32,
        None => false,
    })
    ||| exists|i: int| 0 <= i < n.children@.len() && tree_reserves(#[trigger] n.children@[i], v)
}

/// Whether one of the first `upto` children's subtrees reserves `v`.
pub open spec fn children_reserve_prefix(n: Node, upto: int, v: u32) -> bool {
    exists|k: int| 0 <= k < upto && tree_reserves(#[trigger] n.children@[k], v)
}

/// The boundary above which no explicit index can lie: explicit indices
/// come from non-negative `i32` values.
pub open spec fn reserve_limit() -> int {
    0x8000_0000
}

/// The first value at or after `c` that the reserved list does not hold;
/// values at or above the reserve limit are never reserved, so the search
/// ends there at the latest.
pub open spec fn spec_next_free(rs: Seq<u32>, c: int) -> int
    decreases (if c < reserve_limit() {
        reserve_limit() - c
    } else {
        0int
    }),
{
    if c < 0 {
        0
    } else if c >= reserve_limit() || !rs.contains(c as u32) {
        c
    } else {
        spec_next_free(rs, c + 1)
    }
}

/// What `spec_next_free` returns, characterized: the least unreserved
/// value at or after `c`.
proof fn lemma_next_free_eq(rs: Seq<u32>, c: int, r: int)
    requires
        forall|j: int| 0 <= j < rs.len() ==> (#[trigger] rs[j]) < reserve_limit(),
        0 <= c <= r,
        !rs.contains(r as u32),
        r <= u32::MAX,
        forall|v: u32| c <= v < r ==> rs.contains(v),
    ensures
        spec_next_free(rs, c) == r,
    decreases r - c,
{
    if c < r {
        assert(rs.contains(c as u32));
        assert(c < reserve_limit()) by {
            let j = choose|j: int| 0 <= j < rs.len() && rs[j] == c as u32;
            assert(rs[j] < reserve_limit());
        }
        lemma_next_free_eq(rs, c + 1, r);
    }
}

/// The first free value never runs past the reserve limit when the search
/// starts below it.
proof fn lemma_next_free_bound(rs: Seq<u32>, c: int)
    requires
        forall|j: int| 0 <= j < rs.len() ==> (#[trigger] rs[j]) < reserve_limit(),
        0 <= c,
    ensures
        c <= spec_next_free(rs, c),
        spec_next_free(rs, c) <= (if c <= reserve_limit() {
            reserve_limit()
        } else {
            c
        }),
    decreases (if c < reserve_limit() {
        reserve_limit() - c
    } else {
        0int
    }),
{
    if c < reserve_limit() && rs.contains(c as u32) {
        lemma_next_free_bound(rs, c + 1);
    }
}

/// Whether a node's derived tab index makes it focused under the cursor.
pub open spec fn spec_is_focused(n: Node, cursor: u32) -> bool {
    n.node_data.properties.tab_index == Some(cursor)
}

/// The effective tab index one node gets: an explicit non-negative index
/// is kept, an explicit negative one makes the node unfocusable, and a
/// node without one draws the next free value from the counter.
pub open spec fn spec_effective_index(n: Node, rs: Seq<u32>, c: int) -> Option<u32> {
    match n.node_data.attributes.tab_index {
        Some(t) => if t >= 0 {
            Some(t as u32)
        } else {
            None
        },
        None => Some(spec_next_free(rs, c) as u32),
    }
}

/// The counter after one node's own assignment.
pub open spec fn spec_own_cursor_after(n: Node, rs: Seq<u32>, c: int) -> int {
    match n.node_data.attributes.tab_index {
        Some(t) => c,
        None => spec_next_free(rs, c) + 1,
    }
}

/// The counter after assigning a whole subtree in traversal order.
pub open spec fn spec_cursor_after_assign(n: Node, rs: Seq<u32>, c: int) -> int
    decreases n, 1int,
{
    spec_cursor_after_children(n.children@, rs, spec_own_cursor_after(n, rs, c))
}

pub open spec fn spec_cursor_after_children(ns: Seq<Node>, rs: Seq<u32>, c: int) -> int
    decreases ns, 0int,
{
    if ns.len() == 0 {
        c
    } else {
        spec_cursor_after_children(ns.drop_first(), rs, spec_cursor_after_assign(ns[0], rs, c))
    }
}

/// The tree `out` is `inp` with every node's effective tab index assigned
/// by a pre-order walk that starts its counter at `c` and skips the
/// reserved values `rs`; nothing else changes.
pub open spec fn props_assigned(out: Node, inp: Node, rs: Seq<u32>, c: int) -> bool
    decreases inp, 1int,
{
    &&& out.node_type == inp.node_type
    &&& out.states == inp.states
    &&& out.node_data.attributes == inp.node_data.attributes
    &&& out.node_data.properties.tab_index == spec_effective_index(inp, rs, c)
    &&& out.children@.len() == inp.children@.len()
    &&& children_props_assigned(out.children@, inp.children@, rs, spec_own_cursor_after(inp, rs, c))
}

pub open spec fn children_props_assigned(
    outs: Seq<Node>,
    ins: Seq<Node>,
    rs: Seq<u32>,
    c: int,
) -> bool
    decreases ins, 0int,
{
    if ins.len() == 0 {
        outs.len() == 0
    } else {
        &&& outs.len() == ins.len()
        &&& props_assigned(outs[0], ins[0], rs, c)
        &&& children_props_assigned(
            outs.drop_first(),
            ins.drop_first(),
            rs,
            spec_cursor_after_assign(ins[0], rs, c),
        )
    }
}

/// One more assigned child extends a valid run.
proof fn lemma_children_props_snoc(
    outs: Seq<Node>,
    ins: Seq<Node>,
    rs: Seq<u32>,
    c: int,
    out_new: Node,
    in_new: Node,
)
    requires
        outs.len() == ins.len(),
        children_props_assigned(outs, ins, rs, c),
        props_assigned(out_new, in_new, rs, spec_cursor_after_children(ins, rs, c)),
    ensures
        children_props_assigned(outs.push(out_new), ins.push(in_new), rs, c),
    decreases ins.len(),
{
    if ins.len() == 0 {
        assert(outs.push(out_new)[0] == out_new);
        assert(ins.push(in_new)[0] == in_new);
        assert(outs.push(out_new).drop_first() =~= outs);
        assert(ins.push(in_new).drop_first() =~= ins);
        assert(spec_cursor_after_children(ins, rs, c) == c);
        assert(children_props_assigned(
            outs.push(out_new).drop_first(),
            ins.push(in_new).drop_first(),
            rs,
            spec_cursor_after_assign(in_new, rs, c),
        ));
    } else {
        assert(outs.push(out_new)[0] == outs[0]);
        assert(ins.push(in_new)[0] == ins[0]);
        assert(outs.push(out_new).drop_first() =~= outs.drop_first().push(out_new));
        assert(ins.push(in_new).drop_first() =~= ins.drop_first().push(in_new));
        assert(spec_cursor_after_children(ins, rs, c) == spec_cursor_after_children(
            ins.drop_first(),
            rs,
            spec_cursor_after_assign(ins[0], rs, c),
        ));
        lemma_children_props_snoc(
            outs.drop_first(),
            ins.drop_first(),
            rs,
            spec_cursor_after_assign(ins[0], rs, c),
            out_new,
            in_new,
        );
    }
}

/// The counter consumed by one more child.
proof fn lemma_cursor_children_snoc(ns: Seq<Node>, rs: Seq<u32>, c: int, n: Node)
    ensures
        spec_cursor_after_children(ns.push(n), rs, c) == spec_cursor_after_assign(
            n,
            rs,
            spec_cursor_after_children(ns, rs, c),
        ),
    decreases ns.len(),
{
    if ns.len() == 0 {
        assert(ns.push(n)[0] == n);
        assert(ns.push(n).drop_first() =~= ns);
        assert(spec_cursor_after_children(ns.push(n), rs, c) == spec_cursor_after_children(
            ns,
            rs,
            spec_cursor_after_assign(n, rs, c),
        ));
    } else {
        assert(ns.push(n)[0] == ns[0]);
        assert(ns.push(n).drop_first() =~= ns.drop_first().push(n));
        assert(spec_cursor_after_children(ns.push(n), rs, c) == spec_cursor_after_children(
            ns.drop_first().push(n),
            rs,
            spec_cursor_after_assign(ns[0], rs, c),
        ));
        lemma_cursor_children_snoc(ns.drop_first(), rs, spec_cursor_after_assign(ns[0], rs, c), n);
    }
}

/// A bound on the counter: one subtree consumes at most its node count,
/// starting from wherever the counter stands (or the reserve limit).
pub open spec fn spec_cur_bound(c: int) -> int {
    if c <= reserve_limit() + 1 {
        reserve_limit() + 1
    } else {
        c
    }
}

proof fn lemma_cursor_assign_bound(n: Node, rs: Seq<u32>, c: int)
    requires
        forall|j: int| 0 <= j < rs.len() ==> (#[trigger] rs[j]) < reserve_limit(),
        0 <= c,
    ensures
        c <= spec_cursor_after_assign(n, rs, c),
        spec_cursor_after_assign(n, rs, c) <= spec_cur_bound(c) + count_nodes(n),
    decreases n, 1int,
{
    lemma_count_children_nonneg(n.children@);
    let c1 = spec_own_cursor_after(n, rs, c);
    match n.node_data.attributes.tab_index {
        Some(_) => {},
        None => {
            lemma_next_free_bound(rs, c);
        },
    }
    lemma_cursor_children_bound(n.children@, rs, c1);
}

proof fn lemma_cursor_children_bound(ns: Seq<Node>, rs: Seq<u32>, c: int)
    requires
        forall|j: int| 0 <= j < rs.len() ==> (#[trigger] rs[j]) < reserve_limit(),
        0 <= c,
    ensures
        c <= spec_cursor_after_children(ns, rs, c),
        spec_cursor_after_children(ns, rs, c) <= spec_cur_bound(c) + count_children(ns),
    decreases ns, 0int,
{
    if ns.len() > 0 {
        lemma_cursor_assign_bound(ns[0], rs, c);
        lemma_count_nodes_pos(ns[0]);
        lemma_cursor_children_bound(ns.drop_first(), rs, spec_cursor_after_assign(ns[0], rs, c));
        lemma_count_children_nonneg(ns.drop_first());
    }
}

/// The state list after the focus pass touches one node: gaining focus
/// inserts the `Focus` state if absent, losing it removes the first
/// occurrence.
pub open spec fn spec_remove_first(s: Seq<ElementState>, x: ElementState) -> Seq<ElementState>
    decreases s.len(),
{
    if s.len() == 0 {
        s
    } else if s[0] == x {
        s.drop_first()
    } else {
        seq![s[0]] + spec_remove_first(s.drop_first(), x)
    }
}

pub open spec fn spec_focus_applied(s: Seq<ElementState>, focused: bool) -> Seq<ElementState> {
    if focused {
        if s.contains(ElementState::Focus) {
            s
        } else {
            s.push(ElementState::Focus)
        }
    } else {
        spec_remove_first(s, ElementState::Focus)
    }
}

/// The tree `out` is `inp` with the `Focus` state granted to exactly the
/// nodes whose effective index equals the cursor and withdrawn from every
/// other node; nothing else changes.
pub open spec fn states_assigned(out: Node, inp: Node, cursor: u32) -> bool
    decreases inp,
{
    &&& out.node_type == inp.node_type
    &&& out.node_data == inp.node_data
    &&& out.states@ == spec_focus_applied(inp.states@, spec_is_focused(inp, cursor))
    &&& out.children@.len() == inp.children@.len()
    &&& forall|i: int|
        0 <= i < inp.children@.len() ==> states_assigned(
            #[trigger] out.children@[i],
            inp.children@[i],
            cursor,
        )
}

/// Removing the first occurrence at a known position.
proof fn lemma_remove_first_at(s: Seq<ElementState>, x: ElementState, i: int)
    requires
        0 <= i < s.len(),
        s[i] == x,
        forall|j: int| 0 <= j < i ==> s[j] != x,
    ensures
        spec_remove_first(s, x) == s.remove(i),
    decreases i,
{
    if i == 0 {
        assert(s.drop_first() =~= s.remove(0));
    } else {
        assert(s.drop_first()[i - 1] == x);
        lemma_remove_first_at(s.drop_first(), x, i - 1);
        assert(seq![s[0]] + s.drop_first().remove(i - 1) =~= s.remove(i));
    }
}

/// Removing a value that does not occur changes nothing.
proof fn lemma_remove_first_absent(s: Seq<ElementState>, x: ElementState)
    requires
        !s.contains(x),
    ensures
        spec_remove_first(s, x) == s,
    decreases s.len(),
{
    if s.len() > 0 {
        assert(s[0] != x);
        assert(!s.drop_first().contains(x)) by {
            if s.drop_first().contains(x) {
                let j = choose|j: int| 0 <= j < s.drop_first().len() && s.drop_first()[j] == x;
                assert(s[j + 1] == x);
            }
        }
        lemma_remove_first_absent(s.drop_first(), x);
        assert(seq![s[0]] + s.drop_first() =~= s);
    }
}

/// Whether a state list holds a state.
#[verifier::loop_isolation(false)]
fn contains_state(v: &Vec<ElementState>, x: ElementState) -> (r: bool)
    ensures
        r == v@.contains(x),
{
    let mut i: usize = 0;
    while i < v.len()
        invariant
            i <= v@.len(),
            forall|j: int| 0 <= j < i ==> v@[j] != x,
        decreases v@.len() - i,
    {
        if v[i] == x {
            proof {
                assert(v@[i as int] == x);
            }
            return true;
        }
        i = i + 1;
    }
    false
}

/// Removes the first occurrence of a state, if any.
#[verifier::loop_isolation(false)]
fn remove_state(v: &mut Vec<ElementState>, x: ElementState)
    ensures
        final(v)@ == spec_remove_first(old(v)@, x),
{
    let mut i: usize = 0;
    while i < v.len()
        invariant
            v@ == old(v)@,
            i <= v@.len(),
            forall|j: int| 0 <= j < i ==> v@[j] != x,
        decreases v@.len() - i,
    {
        if v[i] == x {
            proof {
                lemma_remove_first_at(v@, x, i as int);
            }
            v.remove(i);
            return ;
        }
        i = i + 1;
    }
    proof {
        assert(!v@.contains(x)) by {
            if v@.contains(x) {
                let j = choose|j: int| 0 <= j < v@.len() && v@[j] == x;
            }
        }
        lemma_remove_first_absent(v@, x);
    }
}

/// First pass of tab-index assignment: walks the tree and reserves every
/// explicit non-negative authored index.
#[verifier::loop_isolation(false)]
fn collect_reserved(node: &Node, sequence: &mut SequenceGenerator)
    ensures
        final(sequence).spec_current() == old(sequence).spec_current(),
        final(sequence).spec_reserved().len() >= old(sequence).spec_reserved().len(),
        final(sequence).spec_reserved().take(old(sequence).spec_reserved().len() as int) == old(
            sequence,
        ).spec_reserved(),
        forall|j: int|
            old(sequence).spec_reserved().len() <= j < final(sequence).spec_reserved().len()
                ==> (#[trigger] final(sequence).spec_reserved()[j]) < reserve_limit(),
        forall|v: u32|
            final(sequence).spec_reserved().contains(v) <==> (old(
                sequence,
            ).spec_reserved().contains(v) || tree_reserves(*node, v)),
    decreases *node,
{
    match node.node_data.attributes.tab_index {
        Some(t) => {
            if t >= 0 {
                sequence.reserve(t as u32);
            }
        },
        None => {},
    }
    let ghost after_own = sequence.spec_reserved();

    let mut i: usize = 0;
    while i < node.children.len()
        invariant
            i <= node.children@.len(),
            sequence.spec_current() == old(sequence).spec_current(),
            sequence.spec_reserved().len() >= after_own.len(),
            sequence.spec_reserved().take(after_own.len() as int) == after_own,
            forall|j: int|
                after_own.len() <= j < sequence.spec_reserved().len() ==> (
                #[trigger] sequence.spec_reserved()[j]) < reserve_limit(),
            forall|v: u32|
                sequence.spec_reserved().contains(v) ==> (after_own.contains(v)
                    || children_reserve_prefix(*node, i as int, v)),
            forall|v: u32|
                after_own.contains(v) ==> sequence.spec_reserved().contains(v),
            forall|v: u32|
                children_reserve_prefix(*node, i as int, v)
                    ==> sequence.spec_reserved().contains(v),
        decreases node.children@.len() - i,
    {
        let ghost before = sequence.spec_reserved();
        collect_reserved(&node.children[i], sequence);
        proof {
            assert forall|j: int| 0 <= j < before.len() implies sequence.spec_reserved()[j]
                == before[j] by {
                assert(sequence.spec_reserved().take(before.len() as int)[j]
                    == sequence.spec_reserved()[j]);
            }
            assert forall|j: int|
                after_own.len() <= j < sequence.spec_reserved().len() implies (
            #[trigger] sequence.spec_reserved()[j]) < reserve_limit() by {
                if j < before.len() {
                    assert(before[j] < reserve_limit());
                }
            }
            assert(sequence.spec_reserved().take(after_own.len() as int) =~= after_own) by {
                assert forall|j: int| 0 <= j < after_own.len() implies sequence.spec_reserved()[j]
                    == after_own[j] by {
                    assert(before.take(after_own.len() as int)[j] == before[j]);
                }
            }
            assert forall|v: u32|
                sequence.spec_reserved().contains(v) implies (after_own.contains(v)
                    || children_reserve_prefix(*node, i + 1, v)) by {
                if !after_own.contains(v) {
                    if before.contains(v) {
                        let k = choose|k: int|
                            0 <= k < i && tree_reserves(#[trigger] node.children@[k], v);
                        assert(tree_reserves(node.children@[k], v));
                        assert(children_reserve_prefix(*node, i + 1, v));
                    } else {
                        assert(tree_reserves(node.children@[i as int], v));
                        assert(children_reserve_prefix(*node, i + 1, v));
                    }
                }
            }
            assert forall|v: u32| after_own.contains(v) implies sequence.spec_reserved().contains(
                v,
            ) by {
                let j = choose|j: int| 0 <= j < after_own.len() && after_own[j] == v;
                assert(before.take(after_own.len() as int)[j] == before[j]);
                assert(before[j] == v);
                assert(before.contains(v));
            }
            assert forall|v: u32|
                children_reserve_prefix(*node, i + 1, v) implies sequence.spec_reserved().contains(
                v,
            ) by {
                let k = choose|k: int|
                    0 <= k < i + 1 && tree_reserves(#[trigger] node.children@[k], v);
                if k < i {
                    assert(tree_reserves(node.children@[k], v));
                    assert(children_reserve_prefix(*node, i as int, v));
                    assert(before.contains(v));
                } else {
                    assert(tree_reserves(node.children@[i as int], v));
                }
            }
        }
        i = i + 1;
    }
    proof {
        let old_rs = old(sequence).spec_reserved();
        assert forall|j: int|
            old_rs.len() <= j < sequence.spec_reserved().len() implies (
        #[trigger] sequence.spec_reserved()[j]) < reserve_limit() by {
            if j < after_own.len() {
                assert(sequence.spec_reserved().take(after_own.len() as int)[j]
                    == sequence.spec_reserved()[j]);
                match node.node_data.attributes.tab_index {
                    Some(t) => {
                        assert(after_own == old_rs.push(t as u32));
                        assert(after_own[j] == t as u32);
                    },
                    None => {},
                }
            }
        }
        assert forall|v: u32| sequence.spec_reserved().contains(v) implies (old_rs.contains(v)
            || tree_reserves(*node, v)) by {
            if after_own.contains(v) {
                let j = choose|j: int| 0 <= j < after_own.len() && after_own[j] == v;
                if j < old_rs.len() {
                    assert(after_own.take(old_rs.len() as int)[j] == after_own[j]);
                    assert(old_rs.contains(v));
                } else {
                    match node.node_data.attributes.tab_index {
                        Some(t) => {
                            assert(after_own == old_rs.push(t as u32));
                            assert(v == t as u32);
                            assert(tree_reserves(*node, v));
                        },
                        None => {},
                    }
                }
            } else {
                assert(children_reserve_prefix(*node, node.children@.len() as int, v));
                let k = choose|k: int|
                    0 <= k < node.children@.len() && tree_reserves(#[trigger] node.children@[k], v);
                assert(tree_reserves(*node, v));
            }
        }
        assert forall|v: u32|
            (old_rs.contains(v) || tree_reserves(
                *node,
                v,
            )) implies sequence.spec_reserved().contains(v) by {
            if old_rs.contains(v) {
                let j = choose|j: int| 0 <= j < old_rs.len() && old_rs[j] == v;
                assert(after_own.take(old_rs.len() as int)[j] == after_own[j]);
                assert(after_own[j] == v);
                assert(after_own.contains(v));
                assert(sequence.spec_reserved().contains(v));
            } else if tree_reserves(*node, v) {
                let own = match node.node_data.attributes.tab_index {
                    Some(t) => t >= 0 && v == t as u32,
                    None => false,
                };
                if own {
                    match node.node_data.attributes.tab_index {
                        Some(t) => {
                            assert(after_own == old_rs.push(t as u32));
                            assert(after_own.last() == v);
                            assert(after_own.contains(v));
                            assert(sequence.spec_reserved().contains(v));
                        },
                        None => {},
                    }
                } else {
                    let k = choose|k: int|
                        0 <= k < node.children@.len() && tree_reserves(
                            #[trigger] node.children@[k],
                            v,
                        );
                    assert(tree_reserves(node.children@[k], v));
                    assert(children_reserve_prefix(*node, node.children@.len() as int, v));
                    assert(sequence.spec_reserved().contains(v));
                }
            }
        }
    }
}

/// Second pass: assigns each node's effective index in pre-order, drawing
/// unclaimed values from the counter for nodes without an explicit index.
#[verifier::loop_isolation(false)]
#[verifier::rlimit(100)]
fn assign_pass(node: &mut Node, sequence: &mut SequenceGenerator)
    requires
        forall|j: int|
            0 <= j < old(sequence).spec_reserved().len() ==> (#[trigger] old(
                sequence,
            ).spec_reserved()[j]) < reserve_limit(),
        spec_cur_bound(old(sequence).spec_current() as int) + count_nodes(*old(node))
            <= u32::MAX,
    ensures
        final(sequence).spec_reserved() == old(sequence).spec_reserved(),
        final(sequence).spec_current() as int == spec_cursor_after_assign(
            *old(node),
            old(sequence).spec_reserved(),
            old(sequence).spec_current() as int,
        ),
        props_assigned(
            *final(node),
            *old(node),
            old(sequence).spec_reserved(),
            old(sequence).spec_current() as int,
        ),
    decreases *old(node),
{
    proof {
        lemma_count_children_nonneg(old(node).children@);
    }
    let ghost rs = sequence.spec_reserved();
    let ghost c0 = sequence.spec_current() as int;
    match node.node_data.attributes.tab_index {
        Some(tab_index) => {
            if tab_index >= 0 {
                node.node_data.properties.tab_index = Some(tab_index as u32);
            } else {
                node.node_data.properties.tab_index = None;
            }
        },
        None => {
            proof {
                let w: u32 = if sequence.spec_current() < 0x8000_0000u32 {
                    0x8000_0000u32
                } else {
                    sequence.spec_current()
                };
                assert(!rs.contains(w)) by {
                    if rs.contains(w) {
                        let j = choose|j: int| 0 <= j < rs.len() && rs[j] == w;
                    }
                };
                assert(sequence.spec_current() <= w && w < u32::MAX);
            }
            let value = sequence.next();
            proof {
                lemma_next_free_eq(rs, c0, value as int);
            }
            node.node_data.properties.tab_index = Some(value);
        },
    }
    let ghost c1 = sequence.spec_current() as int;
    proof {
        assert(c1 == spec_own_cursor_after(*old(node), rs, c0));
        match old(node).node_data.attributes.tab_index {
            Some(_) => {},
            None => {
                lemma_next_free_bound(rs, c0);
            },
        }
        assert(spec_cur_bound(c1) + count_children(old(node).children@) <= u32::MAX);
    }

    let ghost in_children = node.children@;
    proof {
        assert(in_children.skip(0) =~= in_children);
        assert(in_children.take(0) =~= Seq::<Node>::empty());
    }
    let n = node.children.len();
    let mut i: usize = 0;
    while i < n
        invariant
            i <= n,
            n == in_children.len(),
            in_children == old(node).children@,
            node.children@.len() == n,
            node.node_type == old(node).node_type,
            node.states == old(node).states,
            node.node_data.attributes == old(node).node_data.attributes,
            node.node_data.properties.tab_index == spec_effective_index(*old(node), rs, c0),
            sequence.spec_reserved() == rs,
            forall|j: int| i <= j < n ==> node.children@[j] == in_children[j],
            children_props_assigned(node.children@.take(i as int), in_children.take(i as int), rs, c1),
            sequence.spec_current() as int == spec_cursor_after_children(
                in_children.take(i as int),
                rs,
                c1,
            ),
            spec_cur_bound(sequence.spec_current() as int) + count_children(in_children.skip(i as int))
                <= u32::MAX,
        decreases n - i,
    {
        let ghost pre_children = node.children@;
        let ghost c_here = sequence.spec_current() as int;
        let mut child = node.children.remove(i);
        proof {
            assert(child == in_children[i as int]);
            assert(child == old(node).children@[i as int]);
            assert(in_children.skip(i as int)[0] == in_children[i as int]);
            assert(count_nodes(child) + count_children(in_children.skip(i + 1)) == count_children(
                in_children.skip(i as int),
            )) by {
                assert(in_children.skip(i as int).drop_first() =~= in_children.skip(i + 1));
            }
            lemma_count_nodes_pos(child);
            lemma_count_children_nonneg(in_children.skip(i + 1));
        }
        assign_pass(&mut child, sequence);
        node.children.insert(i, child);
        proof {
            assert(node.children@ =~= pre_children.update(i as int, child));
            lemma_children_props_snoc(
                pre_children.take(i as int),
                in_children.take(i as int),
                rs,
                c1,
                child,
                in_children[i as int],
            );
            assert(node.children@.take(i + 1 as int) =~= pre_children.take(i as int).push(child));
            assert(in_children.take(i + 1 as int) =~= in_children.take(i as int).push(
                in_children[i as int],
            ));
            lemma_cursor_children_snoc(in_children.take(i as int), rs, c1, in_children[i as int]);
            lemma_cursor_assign_bound(in_children[i as int], rs, c_here);
        }
        i = i + 1;
    }
    proof {
        assert(in_children.take(n as int) =~= in_children);
        assert(node.children@.take(n as int) =~= node.children@);
    }
}

/// The propagation of well-formed fonts down the pipeline: from the
/// styled tree into the built layout tree.
proof fn lemma_built_fonts_wf(lb: LayoutBox, sn: StyledNode)
    requires
        built_matches(lb, sn),
        styled_fonts_wf(sn),
    ensures
        boxes_fonts_wf(lb),
    decreases sn, 1int,
{
    lemma_built_children_fonts_wf(lb.children@, sn.children@);
}

proof fn lemma_built_children_fonts_wf(lbs: Seq<LayoutBox>, sns: Seq<StyledNode>)
    requires
        built_children(lbs, sns),
        forall|i: int| 0 <= i < sns.len() ==> styled_fonts_wf(#[trigger] sns[i]),
    ensures
        forall|i: int| 0 <= i < lbs.len() ==> boxes_fonts_wf(#[trigger] lbs[i]),
    decreases sns, 0int,
{
    if sns.len() > 0 {
        assert forall|i: int| 0 <= i < sns.drop_first().len() implies styled_fonts_wf(
            #[trigger] sns.drop_first()[i],
        ) by {
            assert(sns.drop_first()[i] == sns[i + 1]);
        }
        if sns[0].style.display is Hidden {
            lemma_built_children_fonts_wf(lbs, sns.drop_first());
        } else {
            lemma_built_fonts_wf(lbs[0], sns[0]);
            lemma_built_children_fonts_wf(lbs.drop_first(), sns.drop_first());
            assert forall|i: int| 0 <= i < lbs.len() implies boxes_fonts_wf(
                #[trigger] lbs[i],
            ) by {
                if i > 0 {
                    assert(lbs[i] == lbs.drop_first()[i - 1]);
                }
            }
        }
    }
}

/// And from the built tree into the laid-out tree.
proof fn lemma_laid_fonts_wf(
    out: LayoutBox,
    inp: LayoutBox,
    containing: Dimensions,
    ctype: BoxType,
    offset: Point,
)
    requires
        spec_laid_as_child(out, inp, containing, ctype, offset),
        boxes_fonts_wf(inp),
    ensures
        boxes_fonts_wf(out),
    decreases inp, 2int,
{
    match ctype {
        BoxType::FlexNode(c) => match inp.box_type {
            BoxType::FlexNode(s) => {
                lemma_laid_children_fonts_wf(
                    out.children@,
                    inp.children@,
                    crate::layout_box::spec_own_dimensions(
                        s.style,
                        containing,
                        crate::layout_box::spec_dir(c.style),
                        offset,
                    ),
                    inp.box_type,
                    Point {
                        x: crate::layout_box::spec_own_dimensions(
                            s.style,
                            containing,
                            crate::layout_box::spec_dir(c.style),
                            offset,
                        ).content.x,
                        y: crate::layout_box::spec_own_dimensions(
                            s.style,
                            containing,
                            crate::layout_box::spec_dir(c.style),
                            offset,
                        ).content.y,
                    },
                );
            },
            _ => {
                lemma_zeroed_fonts_wf(out, inp);
            },
        },
        _ => {
            lemma_zeroed_fonts_wf(out, inp);
        },
    }
}

proof fn lemma_laid_children_fonts_wf(
    outs: Seq<LayoutBox>,
    ins: Seq<LayoutBox>,
    containing: Dimensions,
    ctype: BoxType,
    o: Point,
)
    requires
        spec_laid_children(outs, ins, containing, ctype, o),
        forall|i: int| 0 <= i < ins.len() ==> boxes_fonts_wf(#[trigger] ins[i]),
    ensures
        forall|i: int| 0 <= i < outs.len() ==> boxes_fonts_wf(#[trigger] outs[i]),
    decreases ins, 0int,
{
    if ins.len() > 0 {
        lemma_laid_fonts_wf(outs[0], ins[0], containing, ctype, o);
        assert forall|i: int| 0 <= i < ins.drop_first().len() implies boxes_fonts_wf(
            #[trigger] ins.drop_first()[i],
        ) by {
            assert(ins.drop_first()[i] == ins[i + 1]);
        }
        lemma_laid_children_fonts_wf(
            outs.drop_first(),
            ins.drop_first(),
            containing,
            ctype,
            crate::layout_box::spec_advance(o, outs[0], crate::layout_box::spec_ctype_dir(ctype)),
        );
        assert forall|i: int| 0 <= i < outs.len() implies boxes_fonts_wf(#[trigger] outs[i]) by {
            if i > 0 {
                assert(outs[i] == outs.drop_first()[i - 1]);
            }
        }
    }
}

proof fn lemma_zeroed_fonts_wf(out: LayoutBox, inp: LayoutBox)
    requires
        zeroed_of(out, inp),
        boxes_fonts_wf(inp),
    ensures
        boxes_fonts_wf(out),
    decreases inp,
{
    assert forall|i: int| 0 <= i < out.children@.len() implies boxes_fonts_wf(
        #[trigger] out.children@[i],
    ) by {
        lemma_zeroed_fonts_wf(out.children@[i], inp.children@[i]);
    }
}

impl Document {
    /// A document over an empty viewport-filling root box styled to fill
    /// the viewport with a black Flex container.
    pub fn new(width: u32, height: u32) -> (d: Document)
        requires
            width <= i32::MAX,
            height <= i32::MAX,
        ensures
            d.width == width,
            d.height == height,
            d.tab_index == 0,
            d.root.children@.len() == 0,
            d.root.states@.len() == 0,
            d.root.node_type is Box,
            d.root.node_data.properties.tab_index is None,
            d.root.node_data.attributes.tab_index is None,
            d.root.node_data.attributes.style matches Some(es) && es.base_styles == (Styles {
                display: Display::Flex,
                color: None,
                background_color: Some(Color { r: 0u8, g: 0u8, b: 0u8, a: 255u8 }),
                border_color: None,
                width: Some(Size::Pixels(width as i32)),
                height: Some(Size::Pixels(height as i32)),
                margin: None,
                padding: None,
                border: None,
                flex_direction: None,
            }) && es.state_styles@.len() == 0,
    {
        let base_styles = Styles {
            display: Display::Flex,
            color: None,
            background_color: Some(Color::black()),
            border_color: None,
            width: Some(Size::Pixels(width as i32)),
            height: Some(Size::Pixels(height as i32)),
            margin: None,
            padding: None,
            border: None,
            flex_direction: None,
        };
        let root = Node::new(
            NodeType::Box(),
            Attributes {
                id: None,
                style: Some(ElementStyles { base_styles, state_styles: Vec::new() }),
                tab_index: None,
            },
        );
        Document { root, width, height, tab_index: 0 }
    }

    /// The root's children, the tree the embedding builds its content in.
    pub fn children(&self) -> (r: &Vec<Node>)
        ensures
            r == &self.root.children,
    {
        &self.root.children
    }

    /// Mutable access to the root's children, for building content.
    pub fn children_mut(&mut self) -> &mut Vec<Node> {
        &mut self.root.children
    }

    /// Applies a batch of input events to the focus cursor: Up saturates
    /// at zero, Down at the top of the range.
    #[verifier::loop_isolation(false)]
    pub fn handle_input(&mut self, events: &Vec<InputEvent>)
        ensures
            final(self).root == old(self).root,
            final(self).width == old(self).width,
            final(self).height == old(self).height,
            final(self).tab_index == spec_cursor_after(old(self).tab_index, events@),
    {
        let mut i: usize = 0;
        while i < events.len()
            invariant
                i <= events@.len(),
                self.root == old(self).root,
                self.width == old(self).width,
                self.height == old(self).height,
                self.tab_index == spec_cursor_after(old(self).tab_index, events@.take(i as int)),
            decreases events@.len() - i,
        {
            let event = events[i];
            match (event.key_code, event.key_event) {
                (KeyCode::Up, KeyEvent::Clicked) => {
                    if self.tab_index > 0 {
                        self.tab_index = self.tab_index - 1;
                    }
                },
                (KeyCode::Down, KeyEvent::Clicked) => {
                    if self.tab_index < u32::MAX {
                        self.tab_index = self.tab_index + 1;
                    }
                },
                _ => {},
            }
            proof {
                lemma_cursor_after_snoc(old(self).tab_index, events@.take(i as int), event);
                assert(events@.take(i as int).push(event) =~= events@.take(i + 1 as int));
            }
            i = i + 1;
        }
        proof {
            assert(events@.take(events@.len() as int) =~= events@);
        }
    }

    /// Derives every node's effective tab index: first all explicit
    /// non-negative indices are reserved, then a pre-order pass keeps
    /// explicit indices, marks negative ones unfocusable, and gives each
    /// unranked node the next unreserved value — so automatic indices
    /// never collide with explicit ones wherever they stand.
    pub fn assign_tab_index(&mut self)
        requires
            count_nodes(old(self).root) < 0x4000_0000,
        ensures
            final(self).tab_index == old(self).tab_index,
            final(self).width == old(self).width,
            final(self).height == old(self).height,
            exists|rs: Seq<u32>|
                (forall|v: u32| rs.contains(v) <==> tree_reserves(old(self).root, v))
                    && props_assigned(final(self).root, old(self).root, rs, 0),
    {
        let mut sequence = SequenceGenerator::new();
        collect_reserved(&self.root, &mut sequence);
        proof {
            lemma_count_nodes_pos(self.root);
        }
        assign_pass(&mut self.root, &mut sequence);
    }

    /// Grants the `Focus` state to every node whose effective index equals
    /// the cursor and withdraws it from every other node.
    pub fn assign_states(&mut self)
        ensures
            final(self).tab_index == old(self).tab_index,
            final(self).width == old(self).width,
            final(self).height == old(self).height,
            states_assigned(final(self).root, old(self).root, old(self).tab_index),
    {
        let cursor = self.tab_index;
        states_pass(&mut self.root, cursor);
    }

    /// One frame's state update: apply the input batch to the cursor,
    /// re-derive effective tab indices, then redistribute focus.
    pub fn update(&mut self, events: &Vec<InputEvent>)
        requires
            count_nodes(old(self).root) < 0x4000_0000,
        ensures
            final(self).width == old(self).width,
            final(self).height == old(self).height,
            final(self).tab_index == spec_cursor_after(old(self).tab_index, events@),
            exists|mid: Node, rs: Seq<u32>|
                (forall|v: u32| rs.contains(v) <==> tree_reserves(old(self).root, v))
                    && props_assigned(mid, old(self).root, rs, 0) && states_assigned(
                    final(self).root,
                    mid,
                    spec_cursor_after(old(self).tab_index, events@),
                ),
    {
        self.handle_input(events);
        self.assign_tab_index();
        self.assign_states();
    }

    /// One frame's rendering: resolve styles against live state, build and
    /// solve the layout, emit the display list and composite it into a
    /// fresh canvas of the viewport's size.
    pub fn draw(&self) -> (canvas: Canvas)
        requires
            self.width * self.height <= usize::MAX,
            node_fonts_wf(self.root),
        ensures
            canvas.wf(),
            canvas.image_buffer.width == self.width,
            canvas.image_buffer.height == self.height,
            exists|sn: StyledNode, unlaid: LayoutBox, laid: LayoutBox, cmds: Seq<RenderCommand>|
                #![trigger styled_matches(sn, self.root), built_matches(unlaid, sn), cmds_match_box(cmds, laid)]
                {
                    let bounds = Rectangle {
                        x: 0i32,
                        y: 0i32,
                        width: self.width,
                        height: self.height,
                    };
                    &&& styled_matches(sn, self.root)
                    &&& built_matches(unlaid, sn)
                    &&& spec_laid_as_child(
                        laid,
                        unlaid,
                        Dimensions { content: bounds, ..default_dimensions() },
                        unlaid.box_type,
                        Point { x: 0i32, y: 0i32 },
                    )
                    &&& cmds_match_box(cmds, laid)
                    &&& canvas.image_buffer.pixels@ == spec_paint_list(
                        spec_initial_pixels(self.width as int, self.height as int),
                        self.width as int,
                        self.height as int,
                        cmds,
                    )
                },
    {
        let bounds = Rectangle::new(0, 0, self.width, self.height);

        let style_root = build_style_tree(&self.root);
        let layout_root = build_layout_tree(&style_root);
        let laid = layout_root.layout(bounds);
        proof {
            lemma_styled_fonts_wf(style_root, self.root);
            lemma_built_fonts_wf(layout_root, style_root);
            lemma_laid_fonts_wf(
                laid,
                layout_root,
                Dimensions { content: bounds, ..default_dimensions() },
                layout_root.box_type,
                Point { x: 0i32, y: 0i32 },
            );
        }
        let canvas = paint(&laid, bounds);
        proof {
            let cmds = choose|cmds: Seq<RenderCommand>|
                cmds_match_box(cmds, laid) && canvas.image_buffer.pixels@ == spec_paint_list(
                    spec_initial_pixels(bounds.width as int, bounds.height as int),
                    bounds.width as int,
                    bounds.height as int,
                    cmds,
                );
            assert(styled_matches(style_root, self.root) && built_matches(layout_root, style_root)
                && spec_laid_as_child(
                laid,
                layout_root,
                Dimensions {
                    content: Rectangle { x: 0i32, y: 0i32, width: self.width, height: self.height },
                    ..default_dimensions()
                },
                layout_root.box_type,
                Point { x: 0i32, y: 0i32 },
            ) && cmds_match_box(cmds, laid) && canvas.image_buffer.pixels@ == spec_paint_list(
                spec_initial_pixels(self.width as int, self.height as int),
                self.width as int,
                self.height as int,
                cmds,
            ));
        }
        canvas
    }
}

/// The focus pass over one subtree.
#[verifier::loop_isolation(false)]
fn states_pass(node: &mut Node, cursor: u32)
    ensures
        states_assigned(*final(node), *old(node), cursor),
    decreases *old(node),
{
    let focused = match node.node_data.properties.tab_index {
        Some(t) => t == cursor,
        None => false,
    };
    if focused {
        if !contains_state(&node.states, ElementState::Focus) {
            node.states.push(ElementState::Focus);
        }
    } else {
        remove_state(&mut node.states, ElementState::Focus);
    }

    let ghost in_children = node.children@;
    let n = node.children.len();
    let mut i: usize = 0;
    while i < n
        invariant
            i <= n,
            n == in_children.len(),
            in_children == old(node).children@,
            node.children@.len() == n,
            node.node_type == old(node).node_type,
            node.node_data == old(node).node_data,
            node.states@ == spec_focus_applied(
                old(node).states@,
                spec_is_focused(*old(node), cursor),
            ),
            forall|j: int| i <= j < n ==> node.children@[j] == in_children[j],
            forall|j: int|
                0 <= j < i ==> states_assigned(
                    #[trigger] node.children@[j],
                    in_children[j],
                    cursor,
                ),
        decreases n - i,
    {
        let ghost pre_children = node.children@;
        let mut child = node.children.remove(i);
        proof {
            assert(child == old(node).children@[i as int]);
        }
        states_pass(&mut child, cursor);
        node.children.insert(i, child);
        proof {
            assert(node.children@ =~= pre_children.update(i as int, child));
        }
        i = i + 1;
    }
}

} // verus!
