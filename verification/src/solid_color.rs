//! The solid-fill draw primitive: overwrites every pixel of a rectangle,
//! clipped to the destination buffer, with one color.

use vstd::pervasive::VecAdditionalExecFns;
use vstd::prelude::*;

use crate::image_buffer::ImageBuffer;
use crate::primitives::{Color, Rectangle};

verus! {

/// A solid fill of one color.
#[derive(Debug, Clone, Copy)]
pub struct SolidColor {
    pub color: Color,
}

/// The pixel grid after filling `rect` with `color` on a `w` x `h` grid:
/// every pixel inside `rect` takes `color`, every other pixel is untouched.
pub open spec fn spec_solid_fill(
    pixels: Seq<Color>,
    w: int,
    h: int,
    color: Color,
    rect: Rectangle,
) -> Seq<Color> {
    Seq::new(
        pixels.len(),
        |i: int|
            {
                let x = i % w;
                let y = i / w;
                if rect.x <= x < rect.x + rect.width && rect.y <= y < rect.y + rect.height {
                    color
                } else {
                    pixels[i]
                }
            },
    )
}

/// A fill whose rectangle lies entirely outside the buffer writes nothing.
pub proof fn lemma_solid_fill_outside(
    pixels: Seq<Color>,
    w: int,
    h: int,
    color: Color,
    rect: Rectangle,
)
    requires
        0 <= w,
        0 <= h,
        pixels.len() == w * h,
        rect.x >= w || rect.y >= h || rect.x + rect.width <= 0 || rect.y + rect.height <= 0,
    ensures
        spec_solid_fill(pixels, w, h, color, rect) == pixels,
{
    assert forall|i: int| 0 <= i < pixels.len() implies spec_solid_fill(
        pixels,
        w,
        h,
        color,
        rect,
    )[i] == pixels[i] by {
        crate::image_buffer::lemma_index_div_mod(i, w, h);
    }
    assert(spec_solid_fill(pixels, w, h, color, rect) =~= pixels);
}

impl SolidColor {
    pub fn new(color: Color) -> (s: SolidColor)
        ensures
            s.color == color,
    {
        SolidColor { color }
    }

    /// Overwrites every pixel of `bounds`, clipped to the target, with this
    /// fill's color; no alpha blending.
    #[verifier::loop_isolation(false)]
    #[verifier::rlimit(60)]
    pub fn draw(&self, target: &mut ImageBuffer, bounds: Rectangle)
        requires
            old(target).wf(),
        ensures
            final(target).wf(),
            final(target).width == old(target).width,
            final(target).height == old(target).height,
            final(target).pixels@ == spec_solid_fill(
                old(target).pixels@,
                old(target).width as int,
                old(target).height as int,
                self.color,
                bounds,
            ),
    {
        let pixel_count: usize = target.pixels.len();
        let w64: i64 = target.width as i64;
        let h64: i64 = target.height as i64;

        // Clip the rectangle to the target's extent on each axis.
        let x0: i64 = if bounds.x as i64 > 0 {
            if bounds.x as i64 > w64 {
                w64
            } else {
                bounds.x as i64
            }
        } else {
            0
        };
        let y0: i64 = if bounds.y as i64 > 0 {
            if bounds.y as i64 > h64 {
                h64
            } else {
                bounds.y as i64
            }
        } else {
            0
        };
        let xe: i64 = bounds.x as i64 + bounds.width as i64;
        let ye: i64 = bounds.y as i64 + bounds.height as i64;
        let x1: i64 = if xe > 0 {
            if xe > w64 {
                w64
            } else {
                xe
            }
        } else {
            0
        };
        let y1: i64 = if ye > 0 {
            if ye > h64 {
                h64
            } else {
                ye
            }
        } else {
            0
        };

        let ghost result = spec_solid_fill(
            old(target).pixels@,
            old(target).width as int,
            old(target).height as int,
            self.color,
            bounds,
        );
        proof {
            assert(result.len() == target.pixels@.len());
        }

        let mut y: i64 = y0;
        while y < y1
            invariant
                target.wf(),
                target.width == old(target).width,
                target.height == old(target).height,
                y0 <= y <= if y1 > y0 {
                    y1
                } else {
                    y0
                },
                forall|i: int|
                    0 <= i < target.pixels@.len() ==> target.pixels@[i] == (if i / (old(
                        target,
                    ).width as int) < y && y0 <= i / (old(target).width as int) {
                        result[i]
                    } else {
                        old(target).pixels@[i]
                    }),
            decreases y1 - y,
        {
            let mut x: i64 = x0;
            while x < x1
                invariant
                    target.wf(),
                    target.width == old(target).width,
                    target.height == old(target).height,
                    y0 <= y < y1,
                    x0 <= x <= if x1 > x0 {
                        x1
                    } else {
                        x0
                    },
                    forall|i: int|
                        0 <= i < target.pixels@.len() ==> target.pixels@[i] == (if (i / (old(
                            target,
                        ).width as int) < y && y0 <= i / (old(target).width as int)) || (i / (old(
                            target,
                        ).width as int) == y && x0 <= i % (old(target).width as int) < x) {
                            result[i]
                        } else {
                            old(target).pixels@[i]
                        }),
                decreases x1 - x,
            {
                proof {
                    vstd::arithmetic::mul::lemma_mul_inequality(
                        y + 1,
                        old(target).height as int,
                        old(target).width as int,
                    );
                    vstd::arithmetic::mul::lemma_mul_is_distributive_add_other_way(
                        old(target).width as int,
                        y as int,
                        1,
                    );
                    vstd::arithmetic::mul::lemma_mul_is_commutative(
                        old(target).width as int,
                        y as int,
                    );
                    vstd::arithmetic::mul::lemma_mul_is_commutative(
                        old(target).width as int,
                        old(target).height as int,
                    );
                }
                let ti: usize = (x as usize) + (y as usize) * target.width;
                let ghost pre = target.pixels@;
                target.pixels.set(ti, self.color);
                proof {
                    vstd::arithmetic::div_mod::lemma_fundamental_div_mod_converse(
                        ti as int,
                        old(target).width as int,
                        y as int,
                        x as int,
                    );
                    assert(target.pixels@[ti as int] == result[ti as int]);
                }
                let ghost prev_x = x as int;
                x = x + 1;
                proof {
                    let w = old(target).width as int;
                    assert forall|i: int| 0 <= i < target.pixels@.len() implies target.pixels@[i]
                        == (if (i / w < y && y0 <= i / w) || (i / w == y && x0 <= i % w < x) {
                        result[i]
                    } else {
                        old(target).pixels@[i]
                    }) by {
                        crate::image_buffer::lemma_index_div_mod(
                            i,
                            w,
                            old(target).height as int,
                        );
                        if i != ti as int {
                            assert(target.pixels@[i] == pre[i]);
                            if i / w == y && i % w == prev_x {
                                assert(i == w * (i / w) + i % w);
                                vstd::arithmetic::mul::lemma_mul_is_commutative(w, i / w);
                                assert(i == ti as int);
                            }
                        }
                    }
                }
            }
            y = y + 1;
            proof {
                let w = old(target).width as int;
                assert forall|i: int| 0 <= i < target.pixels@.len() implies target.pixels@[i] == (
                if i / w < y && y0 <= i / w {
                    result[i]
                } else {
                    old(target).pixels@[i]
                }) by {
                    crate::image_buffer::lemma_index_div_mod(i, w, old(target).height as int);
                }
            }
        }
        proof {
            let w = old(target).width as int;
            let h = old(target).height as int;
            assert forall|i: int| 0 <= i < target.pixels@.len() implies target.pixels@[i]
                == result[i] by {
                crate::image_buffer::lemma_index_div_mod(i, w, h);
            }
            assert(target.pixels@ =~= result);
        }
    }
}

} // verus!
