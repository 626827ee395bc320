//! The text draw primitive: blits one glyph per character with a running
//! horizontal advance, clipped to the text's bounds; the first fully
//! clipped glyph stops both drawing and advancement.

use vstd::prelude::*;
use vstd::string::StrSliceExecFns;

use crate::font::{spec_get_glyph, Font};
use crate::image_buffer::{spec_blit, ImageBuffer};
use crate::primitives::{sat_i32, spec_intersect, Color, Rectangle};

verus! {

/// A run of text bound to a font.
pub struct Text<'a> {
    pub string: String,
    pub font: &'a Font,
}

/// An advance so large that any further glyph placement saturates at the
/// right edge of coordinate space.
pub open spec fn advance_cap() -> int {
    0x1_0000_0000
}

/// The pixel grid after drawing the characters of `chars` from index `i`
/// on, with `advance` pixels of accumulated horizontal advance: each glyph
/// is placed at the text origin plus the advance, clipped against the
/// text's bounds, and blitted; a glyph whose clipped placement is empty
/// stops the remaining characters from being drawn or advanced over.
pub open spec fn spec_text_blit(
    pixels: Seq<Color>,
    w: int,
    h: int,
    chars: Seq<char>,
    font: Font,
    bounds: Rectangle,
    i: int,
    advance: int,
) -> Seq<Color>
    decreases chars.len() - i,
{
    if i < 0 || i >= chars.len() {
        pixels
    } else {
        let glyph = spec_get_glyph(font, chars[i]);
        let gw = glyph.image_buffer.width as int;
        let gh = glyph.image_buffer.height as int;
        let character_bounds = Rectangle {
            x: sat_i32(bounds.x + advance) as i32,
            y: bounds.y,
            width: glyph.image_buffer.width as u32,
            height: glyph.image_buffer.height as u32,
        };
        let inter = spec_intersect(bounds, character_bounds);
        if inter.bounds.width == 0 || inter.bounds.height == 0 {
            pixels
        } else {
            spec_text_blit(
                spec_blit(pixels, w, h, glyph.image_buffer.pixels@, gw, gh, inter.bounds),
                w,
                h,
                chars,
                font,
                bounds,
                i + 1,
                advance + gw,
            )
        }
    }
}

impl<'a> Text<'a> {
    pub fn new(string: String, font: &'a Font) -> (t: Text<'a>)
        ensures
            t.string@ == string@,
            t.font == font,
    {
        Text { string, font }
    }

    /// Draws the text into `target` inside `bounds`, one glyph per
    /// character with a running advance; drawing stops at the first glyph
    /// whose clipped placement is empty.
    #[verifier::loop_isolation(false)]
    pub fn draw(&self, target: &mut ImageBuffer, bounds: Rectangle)
        requires
            old(target).wf(),
            self.font.wf(),
        ensures
            final(target).wf(),
            final(target).width == old(target).width,
            final(target).height == old(target).height,
            final(target).pixels@ == spec_text_blit(
                old(target).pixels@,
                old(target).width as int,
                old(target).height as int,
                self.string@,
                *self.font,
                bounds,
                0,
                0,
            ),
    {
        let ghost w = old(target).width as int;
        let ghost h = old(target).height as int;
        let ghost chars = self.string@;
        let n: usize = self.string.as_str().unicode_len();
        let mut i: usize = 0;
        let mut advance: i64 = 0;
        let ghost mut true_advance: int = 0int;
        let mut halted: bool = false;
        while i < n && !halted
            invariant
                target.wf(),
                target.width == old(target).width,
                target.height == old(target).height,
                i <= n,
                0 <= advance <= advance_cap(),
                true_advance >= 0,
                advance as int == true_advance || (advance == advance_cap() && true_advance
                    >= advance_cap()),
                spec_text_blit(old(target).pixels@, w, h, chars, *self.font, bounds, 0, 0) == (
                if halted {
                    target.pixels@
                } else {
                    spec_text_blit(
                        target.pixels@,
                        w,
                        h,
                        chars,
                        *self.font,
                        bounds,
                        i as int,
                        true_advance,
                    )
                }),
            decreases n - i, (if halted {
                0int
            } else {
                1int
            }),
        {
            let c = self.string.as_str().get_char(i);
            let glyph = self.font.get_character(c);
            let gw: u32 = glyph.image_buffer.width as u32;
            let gh: u32 = glyph.image_buffer.height as u32;
            let cbx: i32 = crate::primitives::sat_to_i32(bounds.x as i64 + advance);
            proof {
                assert(cbx as int == sat_i32(bounds.x + true_advance));
            }
            let character_bounds = Rectangle { x: cbx, y: bounds.y, width: gw, height: gh };
            let inter = bounds.intersect(character_bounds);

            if inter.bounds.width == 0 || inter.bounds.height == 0 {
                halted = true;
                proof {
                    assert(spec_text_blit(
                        target.pixels@,
                        w,
                        h,
                        chars,
                        *self.font,
                        bounds,
                        i as int,
                        true_advance,
                    ) == target.pixels@);
                }
            } else {
                let ghost pre = target.pixels@;
                glyph.image_buffer.draw(target, inter.bounds);
                proof {
                    assert(spec_text_blit(pre, w, h, chars, *self.font, bounds, i as int, true_advance)
                        == spec_text_blit(
                        target.pixels@,
                        w,
                        h,
                        chars,
                        *self.font,
                        bounds,
                        i + 1,
                        true_advance + glyph.image_buffer.width,
                    ));
                }
                i = i + 1;
                advance = advance + gw as i64;
                if advance > 0x1_0000_0000i64 {
                    advance = 0x1_0000_0000;
                }
                proof {
                    true_advance = true_advance + glyph.image_buffer.width as int;
                }
            }
        }
        proof {
            if !halted {
                assert(spec_text_blit(
                    target.pixels@,
                    w,
                    h,
                    chars,
                    *self.font,
                    bounds,
                    i as int,
                    true_advance,
                ) == target.pixels@);
            }
        }
    }
}

} // verus!
