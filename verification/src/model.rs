//! The playback state machine: the model aggregates the video metadata, the
//! frame clock, the marker index, the hover cursor and the playhead, and
//! every user action is a transition function on it.
//!
//! The model never performs I/O. Where the external decode stream must act
//! (read frames, restart at a timestamp), a transition returns a
//! [`FrameRequest`] describing exactly what the stream driver must do; the
//! driver performs it and hands the rendered frame back. Each transition's
//! contract states the new state exactly, via the `*_rel` relations below,
//! so the whole state machine is pinned down.

use vstd::prelude::*;

use crate::clock::{FrameClock, frame_unit, MAX_TICK_MICROS};
use crate::markers::{MarkerIndex, count_le, lemma_count_le_range};
use crate::meta::VideoMetadata;
use crate::program::UpdateResult;

verus! {

/// Upper bound on how many markers a session may hold.
pub const MAX_MARKERS: usize = 1_000_000;

/// Whether the hover cursor currently names a segment or a marker.
#[derive(Clone, Copy, PartialEq, Eq, Structural, Debug)]
pub enum HoverMode {
    Segments,
    Markers,
}

/// The hover cursor: a mode and an index into the segments or markers.
#[derive(Clone, Copy, PartialEq, Eq, Structural, Debug)]
pub struct Hovering {
    pub mode: HoverMode,
    pub position: usize,
}

/// An input the state machine reacts to: a key press, a terminal resize, or
/// a synthetic tick (the poll timeout elapsed with no input).
#[derive(Clone, Copy, PartialEq, Eq, Structural, Debug)]
pub enum InputEvent {
    Key(char),
    Resize(u16, u16),
    Tick,
}

/// What the frame stream must do after a transition. The stream's next
/// unread frame is always `frame_number + 1` of the last rendered frame
/// unless a seek restarts it.
#[derive(Clone, Copy, PartialEq, Eq, Structural, Debug)]
pub enum FrameRequest {
    /// Render nothing this tick.
    Idle,
    /// Discard `skip` raw frames from the current stream, then read and
    /// render one.
    Advance { skip: u64 },
    /// Restart the stream at `micros`, discard `skip` raw frames, then read
    /// and render one.
    Seek { micros: u64, skip: u64 },
}

/// Addition on `u64` that sticks at the maximum instead of wrapping.
pub open spec fn sat_add(a: int, b: int) -> int {
    if a + b > u64::MAX {
        u64::MAX as int
    } else {
        a + b
    }
}

/// Subtraction on `u64` that sticks at zero instead of wrapping.
pub open spec fn sat_sub(a: int, b: int) -> int {
    if a - b < 0 {
        0
    } else {
        a - b
    }
}

/// Saturating add, executable.
pub fn sat_add_u64(a: u64, b: u64) -> (r: u64)
    ensures
        r == sat_add(a as int, b as int),
{
    if a > u64::MAX - b {
        u64::MAX
    } else {
        a + b
    }
}

/// Saturating subtract, executable.
pub fn sat_sub_u64(a: u64, b: u64) -> (r: u64)
    ensures
        r == sat_sub(a as int, b as int),
{
    if a < b {
        0
    } else {
        a - b
    }
}

/// The whole playback state.
pub struct Model {
    pub meta: VideoMetadata,
    pub clock: FrameClock,
    pub markers: MarkerIndex,
    pub hovering: Hovering,
    /// The currently displayed frame's number.
    pub frame_number: u64,
    pub paused: bool,
    pub hide_controls: bool,
    /// Set when the next render must clear the whole screen first.
    pub needs_to_clear: bool,
    pub terminal_cols: u16,
    pub terminal_rows: u16,
    /// Geometry of the rendered text frame, in character cells.
    pub output_cols: u16,
    pub output_rows: u16,
    /// The last rendered text frame (empty until the first render).
    pub frame: String,
    /// Frames rendered since start; drives the fps display cadence.
    pub frames_rendered: u64,
    /// The last smoothed render rate, in frames per second.
    pub recent_fps: Option<u64>,
    /// Unpaused time since the render rate was last recomputed.
    pub micros_since_fps_check: u64,
    /// The input path, kept for the final cut commands.
    pub video_path: String,
}

impl Model {
    /// The model's invariant: well-formed metadata, a clock running at the
    /// video's rate, sorted markers that never pass the video's end, a
    /// hover cursor within bounds, and a usable output geometry.
    pub open spec fn wf(self) -> bool {
        &&& self.meta.wf()
        &&& self.clock.wf()
        &&& self.clock.fps_num == self.meta.fps_num
        &&& self.clock.fps_den == self.meta.fps_den
        &&& self.markers.wf()
        &&& self.markers@.len() <= MAX_MARKERS
        &&& forall|i: int| 0 <= i < self.markers@.len()
                ==> #[trigger] self.markers@[i] <= self.meta.duration_micros
        &&& (self.hovering.mode is Markers ==> self.hovering.position < self.markers@.len())
        &&& (self.hovering.mode is Segments ==> self.hovering.position <= self.markers@.len())
        &&& 14 <= self.output_cols
        &&& 1 <= self.output_rows
    }

    /// The playhead's timestamp: where `frame_number` starts, saturated to
    /// `u64::MAX` microseconds.
    pub open spec fn spec_playhead_micros(self) -> int {
        let exact = self.meta.spec_micros_of_frame(self.frame_number as int);
        if exact <= u64::MAX {
            exact
        } else {
            u64::MAX as int
        }
    }

    /// The playhead's timestamp, executable.
    pub fn playhead_micros(&self) -> (r: u64)
        requires
            self.wf(),
        ensures
            r == self.spec_playhead_micros(),
    {
        self.meta.micros_of_frame(self.frame_number)
    }

    /// Initial state: playing, hovering segment 0, frame 0, nothing
    /// rendered yet.
    pub fn init(
        meta: VideoMetadata,
        video_path: String,
        terminal_cols: u16,
        terminal_rows: u16,
        output_cols: u16,
        output_rows: u16,
        hide_controls: bool,
    ) -> (m: Model)
        requires
            meta.wf(),
            14 <= output_cols,
            1 <= output_rows,
        ensures
            m.wf(),
            m.meta == meta,
            m.markers@ == Seq::<u64>::empty(),
            m.hovering == (Hovering { mode: HoverMode::Segments, position: 0 }),
            m.frame_number == 0,
            !m.paused,
            m.hide_controls == hide_controls,
            !m.needs_to_clear,
            m.terminal_cols == terminal_cols,
            m.terminal_rows == terminal_rows,
            m.output_cols == output_cols,
            m.output_rows == output_rows,
            m.frame@ == Seq::<char>::empty(),
            m.frames_rendered == 0,
            m.recent_fps is None,
            m.clock.acc == 0,
            m.video_path == video_path,
    {
        let clock = FrameClock::new(meta.fps_num, meta.fps_den);
        Model {
            meta,
            clock,
            markers: MarkerIndex::new(),
            hovering: Hovering { mode: HoverMode::Segments, position: 0 },
            frame_number: 0,
            paused: false,
            hide_controls,
            needs_to_clear: false,
            terminal_cols,
            terminal_rows,
            output_cols,
            output_rows,
            frame: String::new(),
            frames_rendered: 0,
            recent_fps: Option::None,
            micros_since_fps_check: 0,
            video_path,
        }
    }
}

impl Model {
    /// Flip play/pause; unpausing returns the hover cursor to Segments
    /// mode.
    pub fn toggle_paused(&mut self) -> (req: FrameRequest)
        requires
            old(self).wf(),
        ensures
            final(self).wf(),
            toggle_paused_rel(*old(self), *final(self), req),
    {
        self.paused = !self.paused;
        if !self.paused {
            self.hovering = Hovering {
                mode: HoverMode::Segments,
                position: self.hovering.position,
            };
        }
        FrameRequest::Idle
    }

    /// Show or hide the help block; the next render clears the screen.
    pub fn toggle_controls_visibility(&mut self) -> (req: FrameRequest)
        requires
            old(self).wf(),
        ensures
            final(self).wf(),
            toggle_controls_rel(*old(self), *final(self), req),
    {
        self.hide_controls = !self.hide_controls;
        self.needs_to_clear = true;
        FrameRequest::Idle
    }

    /// Move the playhead to `target`, forcing Segments mode and walking the
    /// hovered segment to the new position.
    fn seek_to_frame(&mut self, target: u64) -> (req: FrameRequest)
        requires
            old(self).wf(),
        ensures
            final(self).wf(),
            seek_to_frame_rel(*old(self), *final(self), req, target as int),
    {
        self.frame_number = target;
        let ts = self.meta.micros_of_frame(target);
        let pos = self.markers.resync_from(self.hovering.position, ts);
        proof {
            lemma_count_le_range(self.markers@, ts);
        }
        self.hovering = Hovering { mode: HoverMode::Segments, position: pos };
        FrameRequest::Seek { micros: ts, skip: 0 }
    }

    /// Seek 15 seconds backward, clamped at the start of the video.
    pub fn seek_backwards_15s(&mut self) -> (req: FrameRequest)
        requires
            old(self).wf(),
        ensures
            final(self).wf(),
            seek_backwards_rel(*old(self), *final(self), req),
    {
        let delta = self.meta.frames_of_secs(15);
        let target = sat_sub_u64(self.frame_number, delta);
        self.seek_to_frame(target)
    }

    /// Seek 15 seconds forward; the stream reports the end of the video by
    /// running dry, so there is no upper clamp.
    pub fn seek_forwards_15s(&mut self) -> (req: FrameRequest)
        requires
            old(self).wf(),
        ensures
            final(self).wf(),
            seek_forwards_rel(*old(self), *final(self), req),
    {
        let delta = self.meta.frames_of_secs(15);
        let target = sat_add_u64(self.frame_number, delta);
        self.seek_to_frame(target)
    }

    /// Seek to `percent` percent of the video's duration.
    pub fn skip_to_percent(&mut self, percent: u8) -> (req: FrameRequest)
        requires
            old(self).wf(),
            percent <= 100,
        ensures
            final(self).wf(),
            skip_to_percent_rel(*old(self), *final(self), req, percent as int),
    {
        proof {
            let dur = self.meta.duration_micros as int;
            assert(0 <= dur * percent <= dur * 100) by (nonlinear_arith)
                requires 0 <= dur, 0 <= percent <= 100;
            vstd::arithmetic::div_mod::lemma_div_is_ordered(
                dur * percent, dur * 100, 100);
            vstd::arithmetic::div_mod::lemma_div_multiples_vanish(dur, 100);
            assert(dur * 100 == 100 * dur) by (nonlinear_arith);
        }
        let ts128 = (self.meta.duration_micros as u128) * (percent as u128) / 100;
        let ts = ts128 as u64;
        let target = self.meta.frame_of_micros(ts);
        self.seek_to_frame(target)
    }

    /// Enter Markers mode one marker to the left, jump there, and pause.
    pub fn goto_prev_marker(&mut self) -> (req: FrameRequest)
        requires
            old(self).wf(),
        ensures
            final(self).wf(),
            goto_prev_marker_rel(*old(self), *final(self), req),
    {
        if self.hovering.position == 0 {
            return FrameRequest::Idle;
        }
        let np = self.hovering.position - 1;
        let ts = self.markers.get(np);
        self.hovering = Hovering { mode: HoverMode::Markers, position: np };
        self.frame_number = self.meta.frame_of_micros(ts);
        self.paused = true;
        FrameRequest::Seek { micros: ts, skip: 0 }
    }

    /// Enter Markers mode one marker to the right, jump there, and pause.
    pub fn goto_next_marker(&mut self) -> (req: FrameRequest)
        requires
            old(self).wf(),
        ensures
            final(self).wf(),
            goto_next_marker_rel(*old(self), *final(self), req),
    {
        let np = match self.hovering.mode {
            HoverMode::Markers => self.hovering.position + 1,
            HoverMode::Segments => self.hovering.position,
        };
        if np >= self.markers.len() {
            return FrameRequest::Idle;
        }
        let ts = self.markers.get(np);
        self.hovering = Hovering { mode: HoverMode::Markers, position: np };
        self.frame_number = self.meta.frame_of_micros(ts);
        self.paused = true;
        FrameRequest::Seek { micros: ts, skip: 0 }
    }

    /// Place a marker at the playhead (Segments mode only), keeping the
    /// list sorted; the hovered segment becomes the one starting there.
    pub fn create_marker(&mut self) -> (req: FrameRequest)
        requires
            old(self).wf(),
        ensures
            final(self).wf(),
            create_marker_rel(*old(self), *final(self), req),
    {
        match self.hovering.mode {
            HoverMode::Markers => {
                return FrameRequest::Idle;
            },
            HoverMode::Segments => {},
        }
        if self.markers.len() >= MAX_MARKERS {
            return FrameRequest::Idle;
        }
        let ph = self.playhead_micros();
        let t = if ph <= self.meta.duration_micros {
            ph
        } else {
            self.meta.duration_micros
        };
        let ghost s = self.markers@;
        proof {
            lemma_count_le_range(s, t);
        }
        let idx = self.markers.insert(t);
        proof {
            s.insert_ensures(idx as int, t);
            let r = self.markers@;
            assert forall|i: int| 0 <= i < r.len()
                implies #[trigger] r[i] <= self.meta.duration_micros by {
                if i < idx {
                    assert(r[i] == s[i]);
                } else if i == idx {
                    assert(r[i] == t);
                } else {
                    assert(r[i] == s[i - 1]);
                }
            }
        }
        let pos = self.markers.resync_from(self.hovering.position, ph);
        proof {
            lemma_count_le_range(self.markers@, ph);
        }
        self.hovering = Hovering { mode: HoverMode::Segments, position: pos };
        FrameRequest::Idle
    }

    /// Delete the hovered marker (Markers mode only) and return to
    /// Segments mode at the playhead's segment.
    pub fn delete_marker(&mut self) -> (req: FrameRequest)
        requires
            old(self).wf(),
        ensures
            final(self).wf(),
            delete_marker_rel(*old(self), *final(self), req),
    {
        match self.hovering.mode {
            HoverMode::Segments => {
                return FrameRequest::Idle;
            },
            HoverMode::Markers => {},
        }
        let ph = self.playhead_micros();
        let at = self.hovering.position;
        let ghost s = self.markers@;
        self.markers.remove(at);
        proof {
            s.remove_ensures(at as int);
            let r = self.markers@;
            assert forall|i: int| 0 <= i < r.len()
                implies #[trigger] r[i] <= self.meta.duration_micros by {
                if i < at {
                    assert(r[i] == s[i]);
                } else {
                    assert(r[i] == s[i + 1]);
                }
            }
        }
        let pos = self.markers.resync_from(at, ph);
        proof {
            lemma_count_le_range(self.markers@, ph);
        }
        self.hovering = Hovering { mode: HoverMode::Segments, position: pos };
        FrameRequest::Idle
    }

    /// While paused, advance exactly one frame; the hovered segment
    /// follows.
    pub fn advance_one_frame(&mut self) -> (req: FrameRequest)
        requires
            old(self).wf(),
        ensures
            final(self).wf(),
            advance_one_frame_rel(*old(self), *final(self), req),
    {
        if !self.paused {
            return FrameRequest::Idle;
        }
        self.frame_number = sat_add_u64(self.frame_number, 1);
        match self.hovering.mode {
            HoverMode::Segments => {
                let ph = self.playhead_micros();
                let pos = self.markers.resync_from(self.hovering.position, ph);
                proof {
                    lemma_count_le_range(self.markers@, ph);
                }
                self.hovering = Hovering { mode: HoverMode::Segments, position: pos };
            },
            HoverMode::Markers => {},
        }
        FrameRequest::Advance { skip: 0 }
    }

    /// The pacing phase of one loop iteration; see `tick_rel`.
    pub fn tick_advance(&mut self, elapsed_micros: u64) -> (req: FrameRequest)
        requires
            old(self).wf(),
            elapsed_micros <= MAX_TICK_MICROS,
        ensures
            final(self).wf(),
            tick_rel(*old(self), *final(self), elapsed_micros as int, req),
    {
        if self.paused {
            return FrameRequest::Idle;
        }
        let whole = self.clock.advance(elapsed_micros);
        if whole == 0 {
            return FrameRequest::Idle;
        }
        self.frame_number = sat_add_u64(self.frame_number, whole);
        match self.hovering.mode {
            HoverMode::Segments => {
                let ph = self.playhead_micros();
                let pos = self.markers.resync_from(self.hovering.position, ph);
                proof {
                    lemma_count_le_range(self.markers@, ph);
                }
                self.hovering = Hovering { mode: HoverMode::Segments, position: pos };
            },
            HoverMode::Markers => {},
        }
        let accum = sat_add_u64(self.micros_since_fps_check, elapsed_micros);
        if self.frames_rendered % FPS_SAMPLE_FRAMES == FPS_SAMPLE_FRAMES - 1 {
            let div = if accum == 0 { 1 } else { accum };
            self.recent_fps = Option::Some(FPS_SAMPLE_FRAMES * crate::MICROS_PER_SEC / div);
            self.micros_since_fps_check = 0;
        } else {
            self.micros_since_fps_check = accum;
        }
        FrameRequest::Advance { skip: whole - 1 }
    }

    /// One full dispatch: reset the clear flag, apply the event, then run
    /// the pacing phase. Returns the loop verdict and the two stream
    /// requests, to be performed in order. `Finish` comes exactly from the
    /// quit key; this function never fails.
    pub fn update(&mut self, event: InputEvent, elapsed_micros: u64)
        -> (r: (UpdateResult, FrameRequest, FrameRequest))
        requires
            old(self).wf(),
            elapsed_micros <= MAX_TICK_MICROS,
        ensures
            final(self).wf(),
            (r.0 is Finish) <==> event == InputEvent::Key('q'),
            !(r.0 is Failed),
            event == InputEvent::Key('q') ==> *final(self) == cleared(*old(self))
                && r.1 is Idle && r.2 is Idle,
            event != InputEvent::Key('q') ==> exists|mid: Model|
                #[trigger] event_rel(event, cleared(*old(self)), mid, r.1)
                && tick_rel(mid, *final(self), elapsed_micros as int, r.2),
    {
        self.needs_to_clear = false;
        let req1: FrameRequest = match event {
            InputEvent::Key(c) => {
                if c == 'q' {
                    return (UpdateResult::Finish, FrameRequest::Idle, FrameRequest::Idle);
                } else if c == ' ' {
                    self.toggle_paused()
                } else if c == 'h' {
                    self.toggle_controls_visibility()
                } else if c == 'j' {
                    self.seek_backwards_15s()
                } else if c == 'l' {
                    self.seek_forwards_15s()
                } else if c == 'J' {
                    self.goto_prev_marker()
                } else if c == 'L' {
                    self.goto_next_marker()
                } else if c == 'm' {
                    self.create_marker()
                } else if c == 'M' {
                    self.delete_marker()
                } else if c == '.' {
                    self.advance_one_frame()
                } else {
                    FrameRequest::Idle
                }
            },
            InputEvent::Resize(c, rows) => {
                self.terminal_cols = c;
                self.terminal_rows = rows;
                self.needs_to_clear = true;
                FrameRequest::Idle
            },
            InputEvent::Tick => FrameRequest::Idle,
        };
        let ghost mid = *self;
        let req2 = self.tick_advance(elapsed_micros);
        proof {
            assert(event_rel(event, cleared(*old(self)), mid, req1));
            assert(tick_rel(mid, *self, elapsed_micros as int, req2));
        }
        (UpdateResult::Continue, req1, req2)
    }
}

/// The model with its clear-screen flag lowered; every update starts here.
pub open spec fn cleared(m: Model) -> Model {
    Model { needs_to_clear: false, ..m }
}

/// The timestamp a frame starts at, saturated to `u64::MAX`.
pub open spec fn micros_of_frame_sat(meta: VideoMetadata, frame: int) -> int {
    let exact = meta.spec_micros_of_frame(frame);
    if exact <= u64::MAX {
        exact
    } else {
        u64::MAX as int
    }
}

/// What toggling pause does: flip `paused`; unpausing forces Segments mode
/// (the hover position is kept).
pub open spec fn toggle_paused_rel(pre: Model, post: Model, req: FrameRequest) -> bool {
    &&& post == (Model {
        paused: !pre.paused,
        hovering: post.hovering,
        ..pre
    })
    &&& post.hovering == (if pre.paused && pre.hovering.mode is Markers {
        Hovering { mode: HoverMode::Segments, position: pre.hovering.position }
    } else {
        pre.hovering
    })
    &&& req is Idle
}

/// What toggling the help display does: flip the flag and force a full
/// clear, so removed rows leave no stale text.
pub open spec fn toggle_controls_rel(pre: Model, post: Model, req: FrameRequest) -> bool {
    &&& post == (Model { hide_controls: !pre.hide_controls, needs_to_clear: true, ..pre })
    &&& req is Idle
}

/// What seeking the playhead to `target` does: move `frame_number`, force
/// Segments mode, resync the hovered segment to the new timestamp, and ask
/// the stream to restart there.
pub open spec fn seek_to_frame_rel(pre: Model, post: Model, req: FrameRequest, target: int) -> bool {
    let ts = micros_of_frame_sat(pre.meta, target);
    &&& post == (Model {
        frame_number: target as u64,
        hovering: post.hovering,
        ..pre
    })
    &&& post.hovering == (Hovering {
        mode: HoverMode::Segments,
        position: count_le(pre.markers@, ts as u64) as usize,
    })
    &&& req == (FrameRequest::Seek { micros: ts as u64, skip: 0 })
}

/// Seeking backward by the fixed delta clamps at the start of the video.
pub open spec fn seek_backwards_rel(pre: Model, post: Model, req: FrameRequest) -> bool {
    seek_to_frame_rel(pre, post, req,
        sat_sub(pre.frame_number as int, pre.meta.spec_frames_of_secs(15)))
}

/// Seeking forward by the fixed delta is not clamped: the stream reports
/// the end of the video by running dry.
pub open spec fn seek_forwards_rel(pre: Model, post: Model, req: FrameRequest) -> bool {
    seek_to_frame_rel(pre, post, req,
        sat_add(pre.frame_number as int, pre.meta.spec_frames_of_secs(15)))
}

/// Skipping to a percentage seeks to the frame at that fraction of the
/// duration.
pub open spec fn skip_to_percent_rel(pre: Model, post: Model, req: FrameRequest, p: int) -> bool {
    let ts = pre.meta.duration_micros * p / 100;
    seek_to_frame_rel(pre, post, req, pre.meta.spec_frame_of_micros(ts))
}

/// Going to the previous marker enters Markers mode one position to the
/// left, jumps the playhead to that marker and pauses; at the left edge it
/// does nothing.
pub open spec fn goto_prev_marker_rel(pre: Model, post: Model, req: FrameRequest) -> bool {
    if pre.hovering.position == 0 {
        post == pre && req is Idle
    } else {
        let np = (pre.hovering.position - 1) as usize;
        let ts = pre.markers@[np as int];
        &&& post == (Model {
            hovering: Hovering { mode: HoverMode::Markers, position: np },
            frame_number: pre.meta.spec_frame_of_micros(ts as int) as u64,
            paused: true,
            ..pre
        })
        &&& req == (FrameRequest::Seek { micros: ts, skip: 0 })
    }
}

/// Going to the next marker: from Markers mode one position to the right,
/// from Segments mode the marker bounding the hovered segment on the right;
/// past the last marker it does nothing.
pub open spec fn goto_next_marker_rel(pre: Model, post: Model, req: FrameRequest) -> bool {
    let np = if pre.hovering.mode is Markers {
        pre.hovering.position + 1
    } else {
        pre.hovering.position as int
    };
    if np < pre.markers@.len() {
        let ts = pre.markers@[np];
        &&& post == (Model {
            hovering: Hovering { mode: HoverMode::Markers, position: np as usize },
            frame_number: pre.meta.spec_frame_of_micros(ts as int) as u64,
            paused: true,
            ..pre
        })
        &&& req == (FrameRequest::Seek { micros: ts, skip: 0 })
    } else {
        post == pre && req is Idle
    }
}

/// Creating a marker is a no-op in Markers mode (and once the marker cap is
/// reached); in Segments mode it inserts the playhead's timestamp, clamped
/// to the video's end, and the hovered segment becomes the one that now
/// starts there.
pub open spec fn create_marker_rel(pre: Model, post: Model, req: FrameRequest) -> bool {
    if pre.hovering.mode is Markers || pre.markers@.len() >= MAX_MARKERS {
        post == pre && req is Idle
    } else {
        let ph = pre.spec_playhead_micros() as u64;
        let t = if ph <= pre.meta.duration_micros {
            ph
        } else {
            pre.meta.duration_micros
        };
        let idx = count_le(pre.markers@, t);
        &&& post == (Model {
            markers: post.markers,
            hovering: post.hovering,
            ..pre
        })
        &&& post.markers@ == pre.markers@.insert(idx, t)
        &&& post.markers.wf()
        &&& post.hovering == (Hovering {
            mode: HoverMode::Segments,
            position: count_le(post.markers@, ph) as usize,
        })
        &&& req is Idle
    }
}

/// Deleting a marker is a no-op in Segments mode; in Markers mode it
/// removes the hovered marker, returns to Segments mode and resyncs the
/// hovered segment to the playhead.
pub open spec fn delete_marker_rel(pre: Model, post: Model, req: FrameRequest) -> bool {
    if pre.hovering.mode is Segments {
        post == pre && req is Idle
    } else {
        let ph = pre.spec_playhead_micros() as u64;
        &&& post == (Model {
            markers: post.markers,
            hovering: post.hovering,
            ..pre
        })
        &&& post.markers@ == pre.markers@.remove(pre.hovering.position as int)
        &&& post.markers.wf()
        &&& post.hovering == (Hovering {
            mode: HoverMode::Segments,
            position: count_le(post.markers@, ph) as usize,
        })
        &&& req is Idle
    }
}

/// Advancing a single frame only works while paused: the playhead moves one
/// frame, the hovered segment follows it (in Segments mode), and one frame
/// is read and rendered.
pub open spec fn advance_one_frame_rel(pre: Model, post: Model, req: FrameRequest) -> bool {
    if !pre.paused {
        post == pre && req is Idle
    } else {
        let fnum = sat_add(pre.frame_number as int, 1);
        &&& post == (Model {
            frame_number: fnum as u64,
            hovering: post.hovering,
            ..pre
        })
        &&& post.hovering == (if pre.hovering.mode is Segments {
            Hovering {
                mode: HoverMode::Segments,
                position: count_le(pre.markers@, micros_of_frame_sat(pre.meta, fnum) as u64)
                    as usize,
            }
        } else {
            pre.hovering
        })
        &&& req == (FrameRequest::Advance { skip: 0 })
    }
}

/// What a key press does, by key; unbound keys do nothing. The quit key is
/// handled before this relation applies.
pub open spec fn key_rel(c: char, pre: Model, post: Model, req: FrameRequest) -> bool {
    if c == ' ' {
        toggle_paused_rel(pre, post, req)
    } else if c == 'h' {
        toggle_controls_rel(pre, post, req)
    } else if c == 'j' {
        seek_backwards_rel(pre, post, req)
    } else if c == 'l' {
        seek_forwards_rel(pre, post, req)
    } else if c == 'J' {
        goto_prev_marker_rel(pre, post, req)
    } else if c == 'L' {
        goto_next_marker_rel(pre, post, req)
    } else if c == 'm' {
        create_marker_rel(pre, post, req)
    } else if c == 'M' {
        delete_marker_rel(pre, post, req)
    } else if c == '.' {
        advance_one_frame_rel(pre, post, req)
    } else {
        post == pre && req is Idle
    }
}

/// What any input event does before the tick phase.
pub open spec fn event_rel(event: InputEvent, pre: Model, post: Model, req: FrameRequest) -> bool {
    match event {
        InputEvent::Key(c) => key_rel(c, pre, post, req),
        InputEvent::Resize(c, r) => {
            &&& post == (Model {
                terminal_cols: c,
                terminal_rows: r,
                needs_to_clear: true,
                ..pre
            })
            &&& req is Idle
        },
        InputEvent::Tick => post == pre && req is Idle,
    }
}

/// How many renders between recomputations of the displayed rate.
pub const FPS_SAMPLE_FRAMES: u64 = 10;

/// What the per-tick pacing phase does. While paused, nothing. Otherwise
/// the clock turns the elapsed time into whole frames; zero frames means
/// this tick renders nothing (throttle), and otherwise the playhead
/// advances by that many frames, the hovered segment follows it, the
/// smoothed render rate is recomputed every `FPS_SAMPLE_FRAMES` renders,
/// and the stream is asked to skip the intermediate frames and render the
/// last.
pub open spec fn tick_rel(pre: Model, post: Model, elapsed: int, req: FrameRequest) -> bool {
    if pre.paused {
        post == pre && req is Idle
    } else {
        let total = pre.clock.acc + elapsed * pre.clock.fps_num;
        let unit = frame_unit(pre.clock.fps_den as int);
        let whole = total / unit;
        let clock2 = FrameClock {
            fps_num: pre.clock.fps_num,
            fps_den: pre.clock.fps_den,
            acc: (total % unit) as u64,
        };
        if whole == 0 {
            post == (Model { clock: clock2, ..pre }) && req is Idle
        } else {
            let fnum = sat_add(pre.frame_number as int, whole);
            let accum = sat_add(pre.micros_since_fps_check as int, elapsed);
            let fps_due = pre.frames_rendered % FPS_SAMPLE_FRAMES == FPS_SAMPLE_FRAMES - 1;
            &&& post == (Model {
                clock: clock2,
                frame_number: fnum as u64,
                hovering: post.hovering,
                recent_fps: post.recent_fps,
                micros_since_fps_check: post.micros_since_fps_check,
                ..pre
            })
            &&& post.hovering == (if pre.hovering.mode is Segments {
                Hovering {
                    mode: HoverMode::Segments,
                    position: count_le(pre.markers@, micros_of_frame_sat(pre.meta, fnum) as u64)
                        as usize,
                }
            } else {
                pre.hovering
            })
            &&& post.recent_fps == (if fps_due {
                Option::Some((FPS_SAMPLE_FRAMES * crate::MICROS_PER_SEC
                    / (if accum == 0 { 1int } else { accum })) as u64)
            } else {
                pre.recent_fps
            })
            &&& post.micros_since_fps_check == (if fps_due { 0int } else { accum })
            &&& req == (FrameRequest::Advance { skip: (whole - 1) as u64 })
        }
    }
}

} // verus!
