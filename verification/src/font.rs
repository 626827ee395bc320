//! The glyph table: an immutable lookup from character to fixed-size
//! monochrome bitmap, built once at startup and shared for the life of the
//! process. Lookup never fails: unsupported characters fall back to `'?'`.

use vstd::prelude::*;

use crate::image_buffer::ImageBuffer;

verus! {

/// One renderable character: a small fixed-size pixel buffer.
#[derive(Debug, Clone)]
pub struct Character {
    pub image_buffer: ImageBuffer,
}

/// An immutable character table plus a spacing value.
#[derive(Debug, Clone)]
pub struct Font {
    pub characters: Vec<(char, Character)>,
    pub letter_spacing: u32,
}

/// The glyph registered for a character, if any: the first entry that
/// matches.
pub open spec fn spec_find_glyph(entries: Seq<(char, Character)>, c: char) -> Option<Character>
    decreases entries.len(),
{
    if entries.len() == 0 {
        None
    } else if entries[0].0 == c {
        Some(entries[0].1)
    } else {
        spec_find_glyph(entries.drop_first(), c)
    }
}

/// The glyph a lookup returns: the character's own glyph when registered,
/// else the fallback glyph of `'?'`.
pub open spec fn spec_get_glyph(f: Font, c: char) -> Character {
    match spec_find_glyph(f.characters@, c) {
        Some(g) => g,
        None => match spec_find_glyph(f.characters@, '?') {
            Some(g) => g,
            None => vstd::pervasive::arbitrary(),
        },
    }
}

impl Font {
    /// Well-formed: the fallback character `'?'` is registered, so lookup is
    /// total, and every glyph's pixel buffer is itself well-formed.
    pub open spec fn wf(&self) -> bool {
        &&& spec_find_glyph(self.characters@, '?') is Some
        &&& forall|i: int|
            0 <= i < self.characters@.len() ==> (#[trigger] self.characters@[i]).1.image_buffer.wf()
    }

    /// A font from its character table and spacing value.
    pub fn new(characters: Vec<(char, Character)>, letter_spacing: u32) -> (f: Font)
        ensures
            f.characters == characters,
            f.letter_spacing == letter_spacing,
    {
        Font { characters, letter_spacing }
    }

    /// The index of the first entry for `c`, if one is registered.
    #[verifier::loop_isolation(false)]
    fn find_index(&self, c: char) -> (r: Option<usize>)
        ensures
            match r {
                Some(i) => i < self.characters@.len() && self.characters@[i as int].0 == c
                    && spec_find_glyph(self.characters@, c) == Some(self.characters@[i as int].1),
                None => spec_find_glyph(self.characters@, c) is None,
            },
    {
        proof {
            assert(self.characters@.skip(0) =~= self.characters@);
        }
        let mut i: usize = 0;
        while i < self.characters.len()
            invariant
                i <= self.characters.len(),
                spec_find_glyph(self.characters@, c) == spec_find_glyph(
                    self.characters@.skip(i as int),
                    c,
                ),
            decreases self.characters.len() - i,
        {
            proof {
                assert(self.characters@.skip(i as int)[0] == self.characters@[i as int]);
            }
            if self.characters[i].0 == c {
                return Some(i);
            }
            proof {
                assert(self.characters@.skip(i as int).drop_first() =~= self.characters@.skip(
                    i + 1,
                ));
            }
            i = i + 1;
        }
        None
    }

    /// The glyph for `c`, falling back to the glyph of `'?'` for an
    /// unregistered character; never fails.
    pub fn get_character(&self, c: char) -> (r: &Character)
        requires
            self.wf(),
        ensures
            *r == spec_get_glyph(*self, c),
            r.image_buffer.wf(),
    {
        match self.find_index(c) {
            Some(i) => &self.characters[i].1,
            None => {
                match self.find_index('?') {
                    Some(i) => &self.characters[i].1,
                    None => vstd::pervasive::unreached(),
                }
            },
        }
    }
}

/// The top-left pixel of a glyph inside a glyph-sheet image that packs
/// fixed-size characters row-major: index `glyph_index` sits in row
/// `glyph_index / glyphs_per_row`, where a row holds
/// `image_width / char_width` glyphs.
pub fn glyph_origin(image_width: u32, char_width: u32, char_height: u32, glyph_index: u32) -> (r: (
    u32,
    u32,
))
    requires
        0 < char_width <= image_width,
        (glyph_index as int / (image_width as int / char_width as int)) * char_height
            <= u32::MAX,
    ensures
        ({
            let glyphs_per_row = image_width as int / char_width as int;
            &&& r.0 == (glyph_index as int % glyphs_per_row) * char_width
            &&& r.1 == (glyph_index as int / glyphs_per_row) * char_height
        }),
{
    proof {
        assert(image_width as int / char_width as int >= 1) by (nonlinear_arith)
            requires
                0 < char_width <= image_width,
        ;
    }
    let glyphs_per_row: u32 = image_width / char_width;
    let row: u32 = glyph_index / glyphs_per_row;
    let col: u32 = glyph_index % glyphs_per_row;
    proof {
        vstd::arithmetic::div_mod::lemma_remainder_lower(image_width as int, char_width as int);
        vstd::arithmetic::mul::lemma_mul_inequality(
            col + 1,
            glyphs_per_row as int,
            char_width as int,
        );
        vstd::arithmetic::mul::lemma_mul_is_distributive_add_other_way(
            char_width as int,
            col as int,
            1,
        );
        vstd::arithmetic::mul::lemma_mul_is_commutative(char_width as int, col as int);
        vstd::arithmetic::mul::lemma_mul_is_commutative(
            char_width as int,
            glyphs_per_row as int,
        );
    }
    let char_x: u32 = col * char_width;
    let char_y: u32 = row * char_height;
    (char_x, char_y)
}

/// The row-major buffer index of a point inside a `width` x `height` grid,
/// or `None` when the point lies outside it.
pub fn point_to_index(point_x: i32, point_y: i32, width: u32, height: u32) -> (r: Option<usize>)
    requires
        width * height <= usize::MAX,
    ensures
        r == (if 0 <= point_x < width && 0 <= point_y < height {
            Some((point_y * width + point_x) as usize)
        } else {
            None::<usize>
        }),
{
    if point_x >= 0 && (point_x as i64) < width as i64 && point_y >= 0 && (point_y as i64)
        < height as i64 {
        proof {
            vstd::arithmetic::mul::lemma_mul_inequality(
                point_y + 1,
                height as int,
                width as int,
            );
            vstd::arithmetic::mul::lemma_mul_is_distributive_add_other_way(
                width as int,
                point_y as int,
                1,
            );
            vstd::arithmetic::mul::lemma_mul_is_commutative(width as int, point_y as int);
            vstd::arithmetic::mul::lemma_mul_is_commutative(width as int, height as int);
        }
        Some((point_y as u64 * width as u64 + point_x as u64) as usize)
    } else {
        None
    }
}

} // verus!
