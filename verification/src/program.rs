//! The program shell around the model: one value owning the playback state
//! and the canvas, with the three entry points the event-loop driver needs.
//! Each loop iteration is: `step` with the polled event (or a tick), then
//! perform the returned frame requests against the decode stream, handing
//! the raw bytes of each rendered frame to `render_pixels`, then write
//! `compose`'s text to the terminal. The loop itself — polling, reading the
//! stream, writing the screen — lives outside the library.

use vstd::prelude::*;

use crate::model::{Model, InputEvent, FrameRequest, sat_add, sat_add_u64, cleared, event_rel, tick_rel};
use crate::clock::MAX_TICK_MICROS;
use crate::raster::{Canvas, PixelType, spec_cell_at, spec_canvas_text_upto};
use crate::view::{view, spec_view};

verus! {

/// What the event loop should do after a dispatch: keep looping, finish
/// normally, or abort with a message.
pub enum UpdateResult {
    Continue,
    Finish,
    Failed(String),
}

/// The state machine together with its rasterizer.
pub struct Program {
    pub model: Model,
    pub canvas: Canvas,
    /// Pixel geometry of the decode stream's frames.
    pub input_width: u32,
    pub input_height: u32,
}

impl Program {
    /// The program invariant: a well-formed model, a canvas matching the
    /// model's output geometry, and a bounded input geometry.
    pub open spec fn wf(self) -> bool {
        &&& self.model.wf()
        &&& self.canvas.wf()
        &&& self.canvas.config.cols == self.model.output_cols
        &&& self.canvas.config.rows == self.model.output_rows
        &&& 1 <= self.input_width <= 1_000_000
        &&& 1 <= self.input_height <= 1_000_000
        &&& self.input_width * self.input_height <= 100_000_000
    }

    /// The byte length of one raw frame: three bytes per pixel.
    pub open spec fn spec_frame_bytes(self) -> int {
        self.input_width * self.input_height * 3
    }

    pub fn new(model: Model, canvas: Canvas, input_width: u32, input_height: u32)
        -> (p: Program)
        requires
            model.wf(),
            canvas.wf(),
            canvas.config.cols == model.output_cols,
            canvas.config.rows == model.output_rows,
            1 <= input_width <= 1_000_000,
            1 <= input_height <= 1_000_000,
            input_width * input_height <= 100_000_000,
        ensures
            p.wf(),
            p.model == model,
            p.canvas == canvas,
            p.input_width == input_width,
            p.input_height == input_height,
    {
        Program { model, canvas, input_width, input_height }
    }

    /// The byte length of one raw frame, executable.
    pub fn frame_bytes(&self) -> (n: usize)
        requires
            self.wf(),
        ensures
            n == self.spec_frame_bytes(),
    {
        proof {
            assert(0 <= self.input_width * self.input_height
                && self.input_width * self.input_height * 3 <= 300_000_000int)
                by (nonlinear_arith)
                requires
                    0 <= self.input_width,
                    0 <= self.input_height,
                    self.input_width * self.input_height <= 100_000_000,
                ;
        }
        (self.input_width as usize) * (self.input_height as usize) * 3
    }

    /// Dispatch one event and the elapsed time to the state machine; see
    /// `Model::update` for the exact contract.
    pub fn step(&mut self, event: InputEvent, elapsed_micros: u64)
        -> (r: (UpdateResult, FrameRequest, FrameRequest))
        requires
            old(self).wf(),
            elapsed_micros <= MAX_TICK_MICROS,
        ensures
            final(self).wf(),
            final(self).canvas == old(self).canvas,
            final(self).input_width == old(self).input_width,
            final(self).input_height == old(self).input_height,
            (r.0 is Finish) <==> event == InputEvent::Key('q'),
            !(r.0 is Failed),
            event == InputEvent::Key('q') ==> final(self).model == cleared(old(self).model)
                && r.1 is Idle && r.2 is Idle,
            event != InputEvent::Key('q') ==> exists|mid: Model|
                #[trigger] event_rel(event, cleared(old(self).model), mid, r.1)
                && tick_rel(mid, final(self).model, elapsed_micros as int, r.2),
    {
        let (verdict, req1, req2) = self.model.update(event, elapsed_micros);
        let out = match verdict {
            crate::program::UpdateResult::Continue => UpdateResult::Continue,
            crate::program::UpdateResult::Finish => UpdateResult::Finish,
            crate::program::UpdateResult::Failed(msg) => UpdateResult::Failed(msg),
        };
        (out, req1, req2)
    }

    /// Take one raw frame's bytes from the decode stream, rasterize them,
    /// and make the result the model's current frame. Counts one rendered
    /// frame.
    pub fn render_pixels(&mut self, pixels: &[u8])
        requires
            old(self).wf(),
            pixels@.len() == old(self).spec_frame_bytes(),
        ensures
            final(self).wf(),
            final(self).canvas.config == old(self).canvas.config,
            final(self).canvas.cells@ == Seq::new(
                (old(self).canvas.config.rows * old(self).canvas.config.cols) as nat,
                |i: int| spec_cell_at(
                    PixelType::Rgb8, pixels@,
                    old(self).input_width as int, old(self).input_height as int,
                    old(self).input_width * 3,
                    old(self).canvas.config.cols as int, old(self).canvas.config.rows as int,
                    i),
            ),
            final(self).model == (Model {
                frame: final(self).model.frame,
                frames_rendered: sat_add(old(self).model.frames_rendered as int, 1) as u64,
                ..old(self).model
            }),
            final(self).model.frame@ == spec_canvas_text_upto(
                final(self).canvas.cells@,
                old(self).canvas.config.cols as int,
                old(self).canvas.config.rows as int),
    {
        proof {
            assert(self.input_width * 3 <= 3_000_000) by (nonlinear_arith)
                requires 0 <= self.input_width <= 1_000_000;
            assert(self.input_width * self.input_height * 3
                == self.input_height * (self.input_width * 3)) by (nonlinear_arith);
        }
        let stride: i32 = (self.input_width as i32) * 3;
        self.canvas.draw_all_pixels(
            PixelType::Rgb8,
            pixels,
            self.input_width as i32,
            self.input_height as i32,
            stride,
        );
        self.model.frame = self.canvas.build_ansi();
        self.model.frames_rendered = sat_add_u64(self.model.frames_rendered, 1);
    }

    /// Compose the current screen; see `spec_view`.
    pub fn compose(&self) -> (r: String)
        requires
            self.wf(),
        ensures
            r@ == spec_view(self.model),
    {
        view(&self.model)
    }
}

/// The output geometry for a terminal and a width limit: two columns of
/// margin inside whichever of the two is narrower, and rows to match the
/// video's aspect ratio at half height (character cells are about twice as
/// tall as wide), rounded up and saturated to the type.
pub fn compute_output_geometry(
    terminal_cols: u16,
    max_width: u16,
    video_width: u32,
    video_height: u32,
) -> (r: (u16, u16))
    requires
        2 <= terminal_cols,
        2 <= max_width,
        1 <= video_width <= 1_000_000,
        1 <= video_height <= 1_000_000,
    ensures
        r.0 == if terminal_cols - 2 <= max_width - 2 { terminal_cols - 2 } else { max_width - 2 },
        ({
            let raw = (r.0 * video_height + 2 * video_width - 1) / (2 * video_width);
            r.1 == if raw <= u16::MAX { raw } else { u16::MAX as int }
        }),
        r.0 >= 1 ==> r.1 >= 1,
{
    let cols: u16 = if terminal_cols - 2 <= max_width - 2 {
        terminal_cols - 2
    } else {
        max_width - 2
    };
    proof {
        assert(0 <= cols * video_height
            && cols * video_height <= 65_535 * 1_000_000int) by (nonlinear_arith)
            requires 0 <= cols <= 65_535, 0 <= video_height <= 1_000_000;
    }
    let num: u64 = (cols as u64) * (video_height as u64) + 2 * (video_width as u64) - 1;
    let den: u64 = 2 * (video_width as u64);
    proof {
        vstd::arithmetic::div_mod::lemma_div_pos_is_pos(num as int, den as int);
        if cols >= 1 {
            assert(num >= den) by (nonlinear_arith)
                requires
                    num == cols * video_height + 2 * video_width - 1,
                    den == 2 * video_width,
                    1 <= cols,
                    1 <= video_height,
                    1 <= video_width,
                ;
            vstd::arithmetic::div_mod::lemma_div_is_ordered(den as int, num as int, den as int);
            vstd::arithmetic::div_mod::lemma_div_by_self(den as int);
        }
    }
    let raw: u64 = num / den;
    let rows: u16 = if raw <= u16::MAX as u64 {
        raw as u16
    } else {
        u16::MAX
    };
    (cols, rows)
}

/// The decode stream's pixel geometry: the video downscaled by half in
/// each dimension (floor), which vastly reduces the raw byte rate.
pub fn scaled_input_dims(video_width: u32, video_height: u32) -> (r: (u32, u32))
    requires
        2 <= video_width,
        2 <= video_height,
    ensures
        r.0 == video_width / 2,
        r.1 == video_height / 2,
        1 <= r.0,
        1 <= r.1,
{
    (video_width / 2, video_height / 2)
}

} // verus!
