//! The frame canvas: executes an ordered display list into a pixel buffer.

use vstd::prelude::*;

use crate::commands::{
    boxes_fonts_wf, build_render_commands, cmd_wf, cmds_match_box, lemma_cmds_wf, RenderCommand,
};
use crate::image_buffer::ImageBuffer;
use crate::layout_box::LayoutBox;
use crate::primitives::{Color, Rectangle};
use crate::solid_color::{spec_solid_fill, SolidColor};
use crate::text::{spec_text_blit, Text};

verus! {

/// The pixel buffer of one frame, mutable only while the frame is being
/// composited.
pub struct Canvas {
    pub image_buffer: ImageBuffer,
}

/// The all-black, fully transparent pixel grid a frame starts from.
pub open spec fn spec_initial_pixels(w: int, h: int) -> Seq<Color> {
    Seq::new((w * h) as nat, |i: int| Color { r: 0u8, g: 0u8, b: 0u8, a: 0u8 })
}

/// The pixel grid after one draw command: a solid fill overwrites its
/// clipped rectangle, a text command blits its glyphs.
pub open spec fn spec_paint_command(
    pixels: Seq<Color>,
    w: int,
    h: int,
    cmd: RenderCommand,
) -> Seq<Color> {
    match cmd {
        RenderCommand::SolidColor(color, rect) => spec_solid_fill(pixels, w, h, color, rect),
        RenderCommand::Text(_, rect, text, font) => spec_text_blit(
            pixels,
            w,
            h,
            text@,
            *font,
            rect,
            0,
            0,
        ),
    }
}

/// The pixel grid after a whole display list, executed in order.
pub open spec fn spec_paint_list(
    pixels: Seq<Color>,
    w: int,
    h: int,
    cmds: Seq<RenderCommand>,
) -> Seq<Color>
    decreases cmds.len(),
{
    if cmds.len() == 0 {
        pixels
    } else {
        spec_paint_list(spec_paint_command(pixels, w, h, cmds[0]), w, h, cmds.drop_first())
    }
}

/// Painting one more command extends a painted run.
proof fn lemma_paint_list_snoc(
    pixels: Seq<Color>,
    w: int,
    h: int,
    cmds: Seq<RenderCommand>,
    cmd: RenderCommand,
)
    ensures
        spec_paint_list(pixels, w, h, cmds.push(cmd)) == spec_paint_command(
            spec_paint_list(pixels, w, h, cmds),
            w,
            h,
            cmd,
        ),
    decreases cmds.len(),
{
    if cmds.len() == 0 {
        assert(cmds.push(cmd)[0] == cmd);
        assert(cmds.push(cmd).drop_first() =~= cmds);
        assert(spec_paint_list(pixels, w, h, cmds.push(cmd)) == spec_paint_list(
            spec_paint_command(pixels, w, h, cmd),
            w,
            h,
            cmds,
        ));
        assert(spec_paint_list(spec_paint_command(pixels, w, h, cmd), w, h, cmds)
            == spec_paint_command(pixels, w, h, cmd));
    } else {
        assert(cmds.push(cmd)[0] == cmds[0]);
        assert(cmds.push(cmd).drop_first() =~= cmds.drop_first().push(cmd));
        assert(spec_paint_list(pixels, w, h, cmds.push(cmd)) == spec_paint_list(
            spec_paint_command(pixels, w, h, cmds[0]),
            w,
            h,
            cmds.drop_first().push(cmd),
        ));
        lemma_paint_list_snoc(
            spec_paint_command(pixels, w, h, cmds[0]),
            w,
            h,
            cmds.drop_first(),
            cmd,
        );
    }
}

impl Canvas {
    /// Well-formed: the underlying buffer is.
    pub open spec fn wf(&self) -> bool {
        self.image_buffer.wf()
    }

    /// A fresh frame buffer, every pixel transparent black.
    #[verifier::loop_isolation(false)]
    pub fn new(width: usize, height: usize) -> (c: Canvas)
        requires
            width * height <= usize::MAX,
            width <= u32::MAX,
            height <= u32::MAX,
        ensures
            c.wf(),
            c.image_buffer.width == width,
            c.image_buffer.height == height,
            c.image_buffer.pixels@ == spec_initial_pixels(width as int, height as int),
    {
        let total: usize = width * height;
        let mut pixels: Vec<Color> = Vec::new();
        let mut i: usize = 0;
        while i < total
            invariant
                i <= total,
                pixels@.len() == i,
                forall|j: int|
                    0 <= j < i ==> pixels@[j] == (Color { r: 0u8, g: 0u8, b: 0u8, a: 0u8 }),
            decreases total - i,
        {
            pixels.push(Color { r: 0, g: 0, b: 0, a: 0 });
            i = i + 1;
        }
        proof {
            assert(pixels@ =~= spec_initial_pixels(width as int, height as int));
        }
        Canvas { image_buffer: ImageBuffer { width, height, pixels } }
    }

    /// Executes one draw command against this frame's buffer.
    pub fn paint_command(&mut self, command: &RenderCommand)
        requires
            old(self).wf(),
            cmd_wf(*command),
        ensures
            final(self).wf(),
            final(self).image_buffer.width == old(self).image_buffer.width,
            final(self).image_buffer.height == old(self).image_buffer.height,
            final(self).image_buffer.pixels@ == spec_paint_command(
                old(self).image_buffer.pixels@,
                old(self).image_buffer.width as int,
                old(self).image_buffer.height as int,
                *command,
            ),
    {
        match command {
            RenderCommand::SolidColor(color, rect) => {
                SolidColor::new(*color).draw(&mut self.image_buffer, *rect);
            },
            RenderCommand::Text(_, rect, string, font) => {
                let text = Text::new(string.clone(), font);
                text.draw(&mut self.image_buffer, *rect);
            },
        }
    }
}

/// Composites a laid-out tree into a fresh canvas of the given bounds:
/// builds the display list, then executes it in order.
#[verifier::loop_isolation(false)]
pub fn paint<'a>(layout_root: &LayoutBox<'a>, bounds: Rectangle) -> (canvas: Canvas)
    requires
        bounds.width * bounds.height <= usize::MAX,
        boxes_fonts_wf(*layout_root),
    ensures
        canvas.wf(),
        canvas.image_buffer.width == bounds.width,
        canvas.image_buffer.height == bounds.height,
        exists|cmds: Seq<RenderCommand>|
            cmds_match_box(cmds, *layout_root) && canvas.image_buffer.pixels@ == spec_paint_list(
                spec_initial_pixels(bounds.width as int, bounds.height as int),
                bounds.width as int,
                bounds.height as int,
                cmds,
            ),
{
    let display_list = build_render_commands(layout_root);
    proof {
        lemma_cmds_wf(display_list@, *layout_root);
    }
    let mut canvas = Canvas::new(bounds.width as usize, bounds.height as usize);
    let ghost w = bounds.width as int;
    let ghost h = bounds.height as int;
    let mut i: usize = 0;
    while i < display_list.len()
        invariant
            i <= display_list@.len(),
            canvas.wf(),
            canvas.image_buffer.width == bounds.width,
            canvas.image_buffer.height == bounds.height,
            canvas.image_buffer.pixels@ == spec_paint_list(
                spec_initial_pixels(w, h),
                w,
                h,
                display_list@.take(i as int),
            ),
        decreases display_list@.len() - i,
    {
        canvas.paint_command(&display_list[i]);
        proof {
            lemma_paint_list_snoc(
                spec_initial_pixels(w, h),
                w,
                h,
                display_list@.take(i as int),
                display_list@[i as int],
            );
            assert(display_list@.take(i as int).push(display_list@[i as int])
                =~= display_list@.take(i + 1 as int));
        }
        i = i + 1;
    }
    proof {
        assert(display_list@.take(display_list@.len() as int) =~= display_list@);
    }
    canvas
}

} // verus!
