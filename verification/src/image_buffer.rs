//! A row-major pixel buffer, the unit both of glyph bitmaps and of the
//! frame being composited.

use vstd::pervasive::VecAdditionalExecFns;
use vstd::prelude::*;

use crate::primitives::{clamp_u32, spec_intersect, Color, Rectangle};

verus! {

/// A width x height grid of colors, stored row-major.
#[derive(Debug, Clone)]
pub struct ImageBuffer {
    pub width: usize,
    pub height: usize,
    pub pixels: Vec<Color>,
}

impl ImageBuffer {
    /// Well-formed: the pixel store covers the grid exactly and both extents
    /// fit the rectangle arithmetic done on them.
    pub open spec fn wf(&self) -> bool {
        &&& self.pixels@.len() == self.width * self.height
        &&& self.width <= u32::MAX
        &&& self.height <= u32::MAX
    }

    /// A fresh all-black buffer of the given extent.
    #[verifier::loop_isolation(false)]
    pub fn new(width: usize, height: usize) -> (b: ImageBuffer)
        requires
            width * height <= usize::MAX,
            width <= u32::MAX,
            height <= u32::MAX,
        ensures
            b.wf(),
            b.width == width,
            b.height == height,
            forall|i: int|
                0 <= i < b.pixels@.len() ==> b.pixels@[i] == (Color {
                    r: 0u8,
                    g: 0u8,
                    b: 0u8,
                    a: 255u8,
                }),
    {
        let total: usize = width * height;
        let mut pixels: Vec<Color> = Vec::new();
        let mut i: usize = 0;
        while i < total
            invariant
                i <= total,
                pixels@.len() == i,
                forall|j: int|
                    0 <= j < i ==> pixels@[j] == (Color { r: 0u8, g: 0u8, b: 0u8, a: 255u8 }),
            decreases total - i,
        {
            pixels.push(Color::black());
            i = i + 1;
        }
        ImageBuffer { width, height, pixels }
    }

    /// The buffer's own bounds as a rectangle at the origin.
    pub fn bounds(&self) -> (r: Rectangle)
        requires
            self.width <= u32::MAX,
            self.height <= u32::MAX,
        ensures
            r == (Rectangle {
                x: 0i32,
                y: 0i32,
                width: self.width as u32,
                height: self.height as u32,
            }),
    {
        Rectangle::new(0, 0, self.width as u32, self.height as u32)
    }
}

/// The rectangle of a pixel grid of the given extent, at the origin.
pub open spec fn grid_rect(w: int, h: int) -> Rectangle {
    Rectangle { x: 0i32, y: 0i32, width: w as u32, height: h as u32 }
}

/// The width of the region a blit through placement `bounds` actually
/// covers on a `tw` x `th` target: the placement clipped to the target,
/// then limited to what a source of width `sw` can supply.
pub open spec fn blit_width(tw: int, th: int, sw: int, bounds: Rectangle) -> int {
    let i1 = spec_intersect(bounds, grid_rect(tw, th));
    if i1.bounds.width <= sw {
        i1.bounds.width as int
    } else {
        sw
    }
}

/// The height counterpart of `blit_width`.
pub open spec fn blit_height(tw: int, th: int, sh: int, bounds: Rectangle) -> int {
    let i1 = spec_intersect(bounds, grid_rect(tw, th));
    if i1.bounds.height <= sh {
        i1.bounds.height as int
    } else {
        sh
    }
}

/// The pixel grid after blitting a `sw` x `sh` source grid onto a `tw` x
/// `th` target grid at `bounds`: inside the covered region each target
/// pixel takes the source pixel at the matching offset, and every other
/// pixel is untouched.
pub open spec fn spec_blit(
    target: Seq<Color>,
    tw: int,
    th: int,
    source: Seq<Color>,
    sw: int,
    sh: int,
    bounds: Rectangle,
) -> Seq<Color> {
    let i1 = spec_intersect(bounds, grid_rect(tw, th));
    let bw = blit_width(tw, th, sw, bounds);
    let bh = blit_height(tw, th, sh, bounds);
    Seq::new(
        target.len(),
        |i: int|
            {
                let x = i % tw;
                let y = i / tw;
                let sx = x - i1.offset_b.x + i1.offset_a.x;
                let sy = y - i1.offset_b.y + i1.offset_a.y;
                if i1.offset_b.x <= x < i1.offset_b.x + bw && i1.offset_b.y <= y < i1.offset_b.y
                    + bh {
                    source[sy * sw + sx]
                } else {
                    target[i]
                }
            },
    )
}

impl ImageBuffer {
    /// Blits this buffer onto `target` with its top-left corner at the
    /// origin of `bounds`, clipped to the target's extent and to this
    /// buffer's own extent.
    #[verifier::loop_isolation(false)]
    #[verifier::rlimit(80)]
    pub fn draw(&self, target: &mut ImageBuffer, bounds: Rectangle)
        requires
            old(target).wf(),
            self.wf(),
            bounds.width <= self.width,
            bounds.height <= self.height,
        ensures
            final(target).wf(),
            final(target).width == old(target).width,
            final(target).height == old(target).height,
            final(target).pixels@ == spec_blit(
                old(target).pixels@,
                old(target).width as int,
                old(target).height as int,
                self.pixels@,
                self.width as int,
                self.height as int,
                bounds,
            ),
    {
        // Clip the requested placement to the target so no write lands
        // outside it.
        let target_bounds = target.bounds();
        let clipped = bounds.intersect(target_bounds);
        let offset_source = clipped.offset_a;
        let offset_target = clipped.offset_b;

        // Limit the blit to what this buffer can supply.
        let bw: u32 = if clipped.bounds.width <= self.width as u32 {
            clipped.bounds.width
        } else {
            self.width as u32
        };
        let bh: u32 = if clipped.bounds.height <= self.height as u32 {
            clipped.bounds.height
        } else {
            self.height as u32
        };

        let pixel_count: usize = target.pixels.len();
        let source_count: usize = self.pixels.len();
        let ghost tb = Rectangle {
            x: 0i32,
            y: 0i32,
            width: old(target).width as u32,
            height: old(target).height as u32,
        };
        let ghost i1 = spec_intersect(bounds, tb);
        let ghost result = spec_blit(
            old(target).pixels@,
            old(target).width as int,
            old(target).height as int,
            self.pixels@,
            self.width as int,
            self.height as int,
            bounds,
        );
        proof {
            assert(pixel_count == old(target).pixels@.len());
            assert(source_count == self.pixels@.len());
            assert(tb == grid_rect(old(target).width as int, old(target).height as int));
            assert(target_bounds == tb);
            assert(clipped == i1);
            assert(bw as int == blit_width(
                old(target).width as int,
                old(target).height as int,
                self.width as int,
                bounds,
            ));
            assert(bh as int == blit_height(
                old(target).width as int,
                old(target).height as int,
                self.height as int,
                bounds,
            ));
            assert(result.len() == target.pixels@.len());
        }

        let mut y: u32 = 0;
        while y < bh
            invariant
                target.wf(),
                target.width == old(target).width,
                target.height == old(target).height,
                y <= bh,
                forall|i: int|
                    0 <= i < target.pixels@.len() ==> target.pixels@[i] == (if i / (old(
                        target,
                    ).width as int) < offset_target.y + y {
                        result[i]
                    } else {
                        old(target).pixels@[i]
                    }),
            decreases bh - y,
        {
            let mut x: u32 = 0;
            while x < bw
                invariant
                    target.wf(),
                    target.width == old(target).width,
                    target.height == old(target).height,
                    y < bh,
                    x <= bw,
                    forall|i: int|
                        0 <= i < target.pixels@.len() ==> target.pixels@[i] == (if i / (old(
                            target,
                        ).width as int) < offset_target.y + y || (i / (old(target).width as int)
                            == offset_target.y + y && i % (old(target).width as int)
                            < offset_target.x + x) {
                            result[i]
                        } else {
                            old(target).pixels@[i]
                        }),
                decreases bw - x,
            {
                proof {
                    lemma_blit_offsets(*old(target), *self, bounds, x as int, y as int);
                    assert(offset_target == i1.offset_b && offset_source == i1.offset_a);
                }
                let tx: i64 = x as i64 + offset_target.x as i64;
                let ty: i64 = y as i64 + offset_target.y as i64;
                let sx: i64 = x as i64 + offset_source.x as i64;
                let sy: i64 = y as i64 + offset_source.y as i64;
                let ti: usize = (tx as usize) + (ty as usize) * target.width;
                let si: usize = (sx as usize) + (sy as usize) * self.width;
                let ghost pre = target.pixels@;
                let c = self.pixels[si];
                target.pixels.set(ti, c);
                proof {
                    vstd::arithmetic::div_mod::lemma_fundamental_div_mod_converse(
                        ti as int,
                        old(target).width as int,
                        ty as int,
                        tx as int,
                    );
                    assert(target.pixels@[ti as int] == result[ti as int]);
                }
                let ghost x0 = x as int;
                x = x + 1;
                proof {
                    let w = old(target).width as int;
                    assert forall|i: int| 0 <= i < target.pixels@.len() implies target.pixels@[i]
                        == (if i / w < offset_target.y + y || (i / w == offset_target.y + y && i
                        % w < offset_target.x + x) {
                        result[i]
                    } else {
                        old(target).pixels@[i]
                    }) by {
                        lemma_index_div_mod(i, w, old(target).height as int);
                        if i != ti as int {
                            assert(target.pixels@[i] == pre[i]);
                            if i / w == offset_target.y + y && i % w == offset_target.x + x0 {
                                assert(i == w * (i / w) + i % w);
                                vstd::arithmetic::mul::lemma_mul_is_commutative(w, i / w);
                                assert(i == ti as int);
                            }
                        }
                    }
                }
            }
            y = y + 1;
            proof {
                assert forall|i: int| 0 <= i < target.pixels@.len() implies target.pixels@[i] == (
                if i / (old(target).width as int) < offset_target.y + y {
                    result[i]
                } else {
                    old(target).pixels@[i]
                }) by {
                    lemma_index_div_mod(
                        i,
                        old(target).width as int,
                        old(target).height as int,
                    );
                }
            }
        }
        proof {
            assert forall|i: int| 0 <= i < target.pixels@.len() implies target.pixels@[i]
                == result[i] by {
                lemma_index_div_mod(i, old(target).width as int, old(target).height as int);
            }
            assert(target.pixels@ =~= result);
        }
    }
}

/// A row-major index decomposes into a row and a column inside the grid.
pub proof fn lemma_index_div_mod(i: int, w: int, h: int)
    requires
        0 <= w,
        0 <= h,
        0 <= i < w * h,
    ensures
        w != 0,
        i == w * (i / w) + i % w,
        0 <= i % w < w,
        0 <= i / w < h,
{
    if w == 0 {
        assert(w * h == 0) by (nonlinear_arith)
            requires
                w == 0,
        ;
    }
    vstd::arithmetic::div_mod::lemma_fundamental_div_mod(i, w);
    vstd::arithmetic::div_mod::lemma_mod_bound(i, w);
    vstd::arithmetic::div_mod::lemma_div_pos_is_pos(i, w);
    vstd::arithmetic::mul::lemma_mul_is_commutative(w, h);
    vstd::arithmetic::div_mod::lemma_multiply_divide_lt(i, w, h);
}

/// Inside the blit region both the target index and the source index are in
/// range.
proof fn lemma_blit_offsets(
    target: ImageBuffer,
    source: ImageBuffer,
    bounds: Rectangle,
    x: int,
    y: int,
)
    requires
        target.wf(),
        source.wf(),
        bounds.width <= source.width,
        bounds.height <= source.height,
        0 <= x < blit_width(target.width as int, target.height as int, source.width as int, bounds),
        0 <= y < blit_height(
            target.width as int,
            target.height as int,
            source.height as int,
            bounds,
        ),
    ensures
        ({
            let i1 = spec_intersect(
                bounds,
                Rectangle {
                    x: 0i32,
                    y: 0i32,
                    width: target.width as u32,
                    height: target.height as u32,
                },
            );
            &&& 0 <= i1.offset_b.x + x < target.width
            &&& 0 <= i1.offset_b.y + y < target.height
            &&& 0 <= i1.offset_a.x + x < source.width
            &&& 0 <= i1.offset_a.y + y < source.height
            &&& (i1.offset_b.y + y) * target.width + (i1.offset_b.x + x) < target.pixels@.len()
            &&& (i1.offset_a.y + y) * source.width + (i1.offset_a.x + x) < source.pixels@.len()
        }),
{
    assert(grid_rect(target.width as int, target.height as int) == Rectangle {
        x: 0i32,
        y: 0i32,
        width: target.width as u32,
        height: target.height as u32,
    });
    let i1 = spec_intersect(
        bounds,
        Rectangle { x: 0i32, y: 0i32, width: target.width as u32, height: target.height as u32 },
    );
    let tx = i1.offset_b.x + x;
    let ty = i1.offset_b.y + y;
    let sx = i1.offset_a.x + x;
    let sy = i1.offset_a.y + y;
    assert(tx < target.width && ty < target.height);
    assert(sx < source.width && sy < source.height);
    vstd::arithmetic::mul::lemma_mul_inequality(ty + 1, target.height as int, target.width as int);
    vstd::arithmetic::mul::lemma_mul_is_distributive_add_other_way(target.width as int, ty, 1);
    vstd::arithmetic::mul::lemma_mul_is_commutative(target.width as int, ty);
    vstd::arithmetic::mul::lemma_mul_is_commutative(target.width as int, target.height as int);
    vstd::arithmetic::mul::lemma_mul_inequality(sy + 1, source.height as int, source.width as int);
    vstd::arithmetic::mul::lemma_mul_is_distributive_add_other_way(source.width as int, sy, 1);
    vstd::arithmetic::mul::lemma_mul_is_commutative(source.width as int, sy);
    vstd::arithmetic::mul::lemma_mul_is_commutative(source.width as int, source.height as int);
}

} // verus!
