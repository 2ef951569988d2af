//! The view composer: a pure function from the model to the styled text
//! block of one screen. No I/O happens here; cursor positioning is part of
//! the produced text, as ANSI control sequences (`CSI n G` to set a column,
//! `CSI 8 D` to back up over the rate overlay, `CSI 1 F` to reach the
//! timestamp row), so the driver only has to write the block out.
//!
//! The screen is: the video's text rows (blank placeholders before the
//! first frame) with a rate overlay on the first row and a time/play-state
//! overlay on the last; a progress bar with a tick per marker and the
//! playhead; and, unless hidden, the hover status and help block, whose
//! last line tells how many segments quitting would cut.

use vstd::prelude::*;

use crate::digits::{spec_u64_digits, spec_padded_digits, u64_to_string, u64_to_padded_string};
use crate::model::{Model, HoverMode};
use crate::MICROS_PER_SEC;

verus! {

/// Minutes-and-seconds display of a timestamp: `m:ss`, seconds two-digit.
pub open spec fn spec_mm_ss(micros: int) -> Seq<char> {
    let secs = micros / (MICROS_PER_SEC as int);
    spec_u64_digits(secs / 60) + seq![':'] + spec_padded_digits(secs % 60, 2)
}

/// Render a timestamp as `m:ss`.
pub fn format_secs_to_mm_ss(micros: u64) -> (s: String)
    ensures
        s@ == spec_mm_ss(micros as int),
{
    proof {
        reveal_strlit(":");
    }
    let secs = micros / MICROS_PER_SEC;
    let mut s = u64_to_string(secs / 60);
    s.append(":");
    let rem = u64_to_padded_string(secs % 60, 2);
    s.append(rem.as_str());
    proof {
        assert(s@ =~= spec_mm_ss(micros as int));
    }
    s
}

/// The rate overlay: eight characters, blank while no rate is known yet,
/// the number right-aligned to two digits otherwise.
pub open spec fn spec_fps_text(recent: Option<u64>) -> Seq<char> {
    match recent {
        Option::None => " fps:   "@,
        Option::Some(v) => " fps: "@ + (if v < 10 {
            seq![' '] + spec_u64_digits(v as int)
        } else {
            spec_u64_digits(v as int)
        }),
    }
}

/// Render the rate overlay.
pub fn fps_text(recent: &Option<u64>) -> (s: String)
    ensures
        s@ == spec_fps_text(*recent),
{
    proof {
        reveal_strlit(" fps:   ");
        reveal_strlit(" fps: ");
        reveal_strlit(" ");
    }
    match recent {
        Option::None => String::from_str(" fps:   "),
        Option::Some(v) => {
            let mut s = String::from_str(" fps: ");
            if *v < 10 {
                s.append(" ");
            }
            let d = u64_to_string(*v);
            s.append(d.as_str());
            proof {
                assert(s@ =~= spec_fps_text(*recent));
            }
            s
        },
    }
}

/// The ANSI sequence that moves the cursor to 0-based column `n`.
pub open spec fn spec_col_code(n: int) -> Seq<char> {
    "\u{1b}["@ + spec_u64_digits(n + 1) + "G"@
}

/// Emit the cursor-column sequence for 0-based column `n`.
pub fn col_code(n: u64) -> (s: String)
    requires
        n < u64::MAX,
    ensures
        s@ == spec_col_code(n as int),
{
    proof {
        reveal_strlit("\u{1b}[");
        reveal_strlit("G");
    }
    let mut s = String::from_str("\u{1b}[");
    let d = u64_to_string(n + 1);
    s.append(d.as_str());
    s.append("G");
    proof {
        assert(s@ =~= spec_col_code(n as int));
    }
    s
}

/// A string split at newlines: always at least one piece; every newline
/// ends the current piece and starts the next.
pub open spec fn split_nl(s: Seq<char>) -> Seq<Seq<char>>
    decreases s.len(),
{
    if s.len() == 0 {
        seq![Seq::empty()]
    } else if s.last() == '\n' {
        split_nl(s.drop_last()).push(Seq::empty())
    } else {
        let r = split_nl(s.drop_last());
        r.update(r.len() - 1, r.last().push(s.last()))
    }
}

/// There is always at least one line.
pub proof fn lemma_split_nl_nonempty(s: Seq<char>)
    ensures
        split_nl(s).len() >= 1,
    decreases s.len(),
{
    if s.len() > 0 {
        lemma_split_nl_nonempty(s.drop_last());
    }
}

/// Split a string at its newlines.
pub fn split_lines(s: &str) -> (v: Vec<String>)
    ensures
        v@.map_values(|t: String| t@) == split_nl(s@),
        v@.len() >= 1,
{
    let len = s.unicode_len();
    let mut v: Vec<String> = Vec::new();
    let mut start: usize = 0;
    let mut i: usize = 0;
    proof {
        assert(v@.map_values(|t: String| t@).push(s@.subrange(0, 0))
            =~~= split_nl(s@.take(0)));
    }
    while i < len
        invariant
            0 <= start <= i <= len,
            len == s@.len(),
            v@.map_values(|t: String| t@).push(s@.subrange(start as int, i as int))
                == split_nl(s@.take(i as int)),
        decreases len - i,
    {
        proof {
            assert(s@.take(i as int + 1).drop_last() =~= s@.take(i as int));
            assert(s@.take(i as int + 1).last() == s@[i as int]);
        }
        let c = s.get_char(i);
        if c == '\n' {
            let piece = String::from_str(s.substring_char(start, i));
            v.push(piece);
            proof {
                let m = v@.map_values(|t: String| t@);
                let r = split_nl(s@.take(i as int));
                assert(m =~= r);
                assert(m.push(Seq::empty())
                    =~~= split_nl(s@.take(i as int + 1)));
                assert(s@.subrange(i as int + 1, i as int + 1) =~= Seq::<char>::empty());
            }
            start = i + 1;
        } else {
            proof {
                let r = split_nl(s@.take(i as int));
                assert(s@.subrange(start as int, i as int + 1)
                    =~= s@.subrange(start as int, i as int).push(s@[i as int]));
                assert(r.last() == s@.subrange(start as int, i as int));
                assert(v@.map_values(|t: String| t@).push(
                    s@.subrange(start as int, i as int + 1))
                    =~= r.update(r.len() - 1, r.last().push(s@[i as int])));
            }
        }
        i = i + 1;
    }
    let piece = String::from_str(s.substring_char(start, len));
    v.push(piece);
    proof {
        assert(s@.take(len as int) =~= s@);
        assert(v@.map_values(|t: String| t@) =~= split_nl(s@));
        lemma_split_nl_nonempty(s@);
    }
    v
}

/// The video rows the view shows: the rendered frame's lines, or blank
/// placeholder rows before the first frame is ready.
pub open spec fn spec_video_lines(m: Model) -> Seq<Seq<char>> {
    if m.frame@.len() == 0 {
        Seq::new(m.output_rows as nat, |i: int| Seq::<char>::empty())
    } else {
        split_nl(m.frame@)
    }
}

/// The video block's lines 1 through `k - 1`, each indented one space and
/// ended with a line break.
pub open spec fn spec_lines_upto(lines: Seq<Seq<char>>, k: int) -> Seq<char>
    decreases k,
{
    if k <= 1 || k > lines.len() {
        Seq::empty()
    } else {
        spec_lines_upto(lines, k - 1) + seq![' '] + lines[k - 1] + seq!['\r', '\n']
    }
}

/// The whole video block: the first line carries the rate overlay, backed
/// over with `CSI 8 D`; the rest follow plainly.
pub open spec fn spec_video_block(m: Model) -> Seq<char> {
    let lines = spec_video_lines(m);
    seq![' '] + lines[0] + "\u{1b}[8D"@ + spec_fps_text(m.recent_fps) + seq!['\r', '\n']
        + spec_lines_upto(lines, lines.len() as int)
}

/// The time overlay, written over the start of the last video row: the
/// playhead and total time as `m:ss`, and the play-state indicator at the
/// right edge of the video.
pub open spec fn spec_time_line(m: Model) -> Seq<char> {
    "\u{1b}[1F"@ + seq![' '] + spec_mm_ss(m.spec_playhead_micros())
        + " / "@ + spec_mm_ss(m.meta.duration_micros as int) + seq![' ']
        + spec_col_code(m.output_cols as int - 1)
        + (if m.paused { " ||"@ } else { " >>"@ })
        + seq!['\r', '\n']
}

/// The column of each marker on the progress bar.
pub open spec fn spec_marker_cols(markers: Seq<u64>, cols: int, duration: int) -> Seq<u64> {
    markers.map_values(|t: u64| (cols * t / duration) as u64)
}

/// The playhead's column on the progress bar, clamped to the bar's end.
pub open spec fn spec_playhead_col(m: Model) -> int {
    let raw = m.output_cols * m.spec_playhead_micros() / (m.meta.duration_micros as int);
    if raw <= m.output_cols + 1 {
        raw
    } else {
        m.output_cols as int + 1
    }
}

/// One character of the bar's top row: the playhead wins, then marker
/// ticks, then the box frame.
pub open spec fn spec_bar_top_char(cols: int, mcols: Seq<u64>, ph: int, i: int) -> char {
    if i == ph {
        'v'
    } else if 0 <= i && mcols.contains(i as u64) {
        '┬'
    } else if i == 0 {
        '┌'
    } else if i == cols + 1 {
        '┐'
    } else {
        '─'
    }
}

/// One character of the bar's bottom row.
pub open spec fn spec_bar_bottom_char(cols: int, mcols: Seq<u64>, i: int) -> char {
    if 0 <= i && mcols.contains(i as u64) {
        '┴'
    } else if i == 0 {
        '└'
    } else if i == cols + 1 {
        '┘'
    } else {
        '─'
    }
}

/// The progress bar: a two-row box as wide as the video, a tick per marker
/// at its proportional column on both rows, the playhead's `v` on the top
/// row.
pub open spec fn spec_bar_block(m: Model) -> Seq<char> {
    let cols = m.output_cols as int;
    let mcols = spec_marker_cols(m.markers@, cols, m.meta.duration_micros as int);
    let ph = spec_playhead_col(m);
    Seq::new((cols + 2) as nat, |i: int| spec_bar_top_char(cols, mcols, ph, i))
        + seq!['\r', '\n']
        + Seq::new((cols + 2) as nat, |i: int| spec_bar_bottom_char(cols, mcols, i))
        + seq!['\r', '\n']
}

/// The hover status line, right-aligned near the video's edge: which
/// segment or marker is hovered, out of how many.
pub open spec fn spec_status_line(m: Model) -> Seq<char> {
    spec_col_code(m.output_cols as int - 12)
        + (match m.hovering.mode {
            HoverMode::Segments => "segment "@
                + spec_u64_digits(m.hovering.position as int + 1)
                + " of "@ + spec_u64_digits(m.markers@.len() as int + 1),
            HoverMode::Markers => " marker "@
                + spec_u64_digits(m.hovering.position as int + 1)
                + " of "@ + spec_u64_digits(m.markers@.len() as int),
        })
        + seq!['\r', '\n']
}

/// The help block; its first line names the mode's marker action and its
/// last line says what quitting will cut.
pub open spec fn spec_help_block(m: Model) -> Seq<char> {
    (match m.hovering.mode {
        HoverMode::Segments => "     m = make marker           "@,
        HoverMode::Markers => "     M = remove marker         "@,
    }) + seq!['\r', '\n']
        + "   J/L = prev/next marker    "@ + seq!['\r', '\n']
        + (if m.paused { " space = unpause"@ } else { " space = pause  "@ })
        + seq!['\r', '\n']
        + "   j/l = skip back/forwards  "@ + seq!['\r', '\n']
        + "     h = hide controls       "@ + seq!['\r', '\n']
        + (if m.markers@.len() == 0 {
            "     q = quit                          "@
        } else {
            "     q = quit and cut into "@
                + spec_u64_digits(m.markers@.len() as int + 1) + " segments"@
        })
        + seq!['\r', '\n']
}

/// Blank placeholder rows for the time before the first frame.
fn blank_lines(n: u16) -> (v: Vec<String>)
    ensures
        v@.map_values(|t: String| t@) =~= Seq::new(n as nat, |i: int| Seq::<char>::empty()),
        v@.len() == n,
{
    let mut v: Vec<String> = Vec::new();
    let mut i: usize = 0;
    while i < n as usize
        invariant
            0 <= i <= n,
            v@.len() == i,
            forall|j: int| 0 <= j < i ==> (#[trigger] v@[j])@ == Seq::<char>::empty(),
        decreases n - i,
    {
        v.push(String::new());
        i = i + 1;
    }
    proof {
        assert(v@.map_values(|t: String| t@)
            =~~= Seq::new(n as nat, |i: int| Seq::<char>::empty()));
    }
    v
}

/// The progress-bar column of every marker.
fn marker_columns(m: &Model) -> (v: Vec<u64>)
    requires
        m.wf(),
    ensures
        v@ == spec_marker_cols(m.markers@, m.output_cols as int, m.meta.duration_micros as int),
{
    let ghost full = spec_marker_cols(
        m.markers@, m.output_cols as int, m.meta.duration_micros as int);
    let cols = m.output_cols as u64;
    let dur = m.meta.duration_micros;
    let n = m.markers.len();
    let mut v: Vec<u64> = Vec::new();
    let mut i: usize = 0;
    proof {
        assert(v@ =~= full.take(0));
    }
    while i < n
        invariant
            0 <= i <= n,
            m.wf(),
            n == m.markers@.len(),
            cols == m.output_cols,
            dur == m.meta.duration_micros,
            full == spec_marker_cols(m.markers@, m.output_cols as int,
                m.meta.duration_micros as int),
            v@ == full.take(i as int),
        decreases n - i,
    {
        let t = m.markers.get(i);
        proof {
            let c = cols as int;
            let d = dur as int;
            assert(0 <= c * t <= c * d
                && c * d <= 65_535 * 0xFFFF_FFFF_FFFF_FFFFint) by (nonlinear_arith)
                requires 0 <= t <= d, 0 <= c <= 65_535, d <= 0xFFFF_FFFF_FFFF_FFFF;
            vstd::arithmetic::div_mod::lemma_div_is_ordered(c * t, c * d, d);
            vstd::arithmetic::div_mod::lemma_div_multiples_vanish(c, d);
            assert(c * d == d * c) by (nonlinear_arith);
        }
        let col128: u128 = (cols as u128) * (t as u128) / (dur as u128);
        let col: u64 = col128 as u64;
        v.push(col);
        proof {
            assert(v@ =~= full.take(i as int + 1));
        }
        i = i + 1;
    }
    proof {
        assert(full.take(n as int) =~= full);
    }
    v
}

/// Whether any marker sits at this bar column.
fn cols_contain(v: &Vec<u64>, x: u64) -> (r: bool)
    ensures
        r == v@.contains(x),
{
    let mut i: usize = 0;
    while i < v.len()
        invariant
            0 <= i <= v@.len(),
            forall|j: int| 0 <= j < i ==> #[trigger] v@[j] != x,
        decreases v@.len() - i,
    {
        if v[i] == x {
            return true;
        }
        i = i + 1;
    }
    false
}

/// The playhead's bar column, executable.
fn playhead_col(m: &Model) -> (r: u64)
    requires
        m.wf(),
    ensures
        r == spec_playhead_col(*m),
{
    let ph = m.playhead_micros();
    let cols = m.output_cols as u64;
    let dur = m.meta.duration_micros;
    proof {
        let c = cols as int;
        let p = ph as int;
        assert(0 <= c * p && c * p <= 65_535 * 0xFFFF_FFFF_FFFF_FFFFint) by (nonlinear_arith)
            requires 0 <= c <= 65_535, 0 <= p <= 0xFFFF_FFFF_FFFF_FFFF;
        vstd::arithmetic::div_mod::lemma_div_pos_is_pos(c * p, dur as int);
    }
    let raw: u128 = (cols as u128) * (ph as u128) / (dur as u128);
    if raw > (cols as u128) + 1 {
        cols + 1
    } else {
        raw as u64
    }
}

/// The whole screen: optional full clear, home the cursor, the video block
/// with its overlays, the progress bar, and (unless hidden) the status and
/// help text.
pub open spec fn spec_view(m: Model) -> Seq<char> {
    (if m.needs_to_clear { "\u{1b}[2J"@ } else { Seq::<char>::empty() })
        + "\u{1b}[1;1H"@
        + spec_video_block(m)
        + spec_time_line(m)
        + spec_bar_block(m)
        + (if m.hide_controls {
            Seq::<char>::empty()
        } else {
            spec_status_line(m) + spec_help_block(m)
        })
}

/// The video block, rendered: see `spec_video_block`.
fn view_video_block(m: &Model) -> (r: String)
    requires
        m.wf(),
    ensures
        r@ == spec_video_block(*m),
{
    let mut s = String::new();
    let lines: Vec<String> = if m.frame.as_str().unicode_len() == 0 {
        blank_lines(m.output_rows)
    } else {
        split_lines(m.frame.as_str())
    };
    let ghost glines = spec_video_lines(*m);
    proof {
        assert(lines@.map_values(|t: String| t@) == glines);
        assert(glines.len() >= 1);
        reveal_strlit(" ");
        reveal_strlit("\u{1b}[8D");
        reveal_strlit("\r\n");
    }
    s.append(" ");
    s.append(lines[0].as_str());
    s.append("\u{1b}[8D");
    let ft = fps_text(&m.recent_fps);
    s.append(ft.as_str());
    s.append("\r\n");
    let ghost base1 = seq![' '] + glines[0] + "\u{1b}[8D"@
        + spec_fps_text(m.recent_fps) + seq!['\r', '\n'];
    proof {
        assert(lines@[0]@ == glines[0]);
        assert(s@ =~= base1);
    }
    let mut k: usize = 1;
    while k < lines.len()
        invariant
            1 <= k <= lines@.len(),
            lines@.map_values(|t: String| t@) == glines,
            s@ == base1 + spec_lines_upto(glines, k as int),
        decreases lines@.len() - k,
    {
        proof {
            reveal_strlit(" ");
            reveal_strlit("\r\n");
        }
        s.append(" ");
        s.append(lines[k].as_str());
        s.append("\r\n");
        proof {
            assert(lines@[k as int]@ == glines[k as int]);
            assert(s@ =~= base1 + spec_lines_upto(glines, k as int + 1));
        }
        k = k + 1;
    }
    proof {
        assert(spec_lines_upto(glines, lines@.len() as int)
            == spec_lines_upto(glines, glines.len() as int));
        assert(s@ =~= spec_video_block(*m));
    }
    s
}

/// The time overlay, rendered: see `spec_time_line`.
fn view_time_line(m: &Model) -> (r: String)
    requires
        m.wf(),
    ensures
        r@ == spec_time_line(*m),
{
    proof {
        reveal_strlit("\u{1b}[1F");
        reveal_strlit(" ");
        reveal_strlit(" / ");
        reveal_strlit(" ||");
        reveal_strlit(" >>");
        reveal_strlit("\r\n");
    }
    let mut s = String::from_str("\u{1b}[1F");
    s.append(" ");
    let t1 = format_secs_to_mm_ss(m.playhead_micros());
    s.append(t1.as_str());
    s.append(" / ");
    let t2 = format_secs_to_mm_ss(m.meta.duration_micros);
    s.append(t2.as_str());
    s.append(" ");
    let cc = col_code((m.output_cols - 1) as u64);
    s.append(cc.as_str());
    if m.paused {
        s.append(" ||");
    } else {
        s.append(" >>");
    }
    s.append("\r\n");
    proof {
        assert(s@ =~= spec_time_line(*m));
    }
    s
}

/// The progress bar, rendered: see `spec_bar_block`.
fn view_bar_block(m: &Model) -> (r: String)
    requires
        m.wf(),
    ensures
        r@ == spec_bar_block(*m),
{
    let mut s = String::new();
    let mc = marker_columns(m);
    let ph = playhead_col(m);
    let ghost gmc = spec_marker_cols(
        m.markers@, m.output_cols as int, m.meta.duration_micros as int);
    let ghost gph = spec_playhead_col(*m);
    let cols = m.output_cols as usize;
    let ghost top = Seq::new((m.output_cols + 2) as nat,
        |i: int| spec_bar_top_char(m.output_cols as int, gmc, gph, i));
    let mut i: usize = 0;
    while i < cols + 2
        invariant
            0 <= i <= cols + 2,
            cols == m.output_cols,
            mc@ == gmc,
            ph == gph,
            top == Seq::new((m.output_cols + 2) as nat,
                |i: int| spec_bar_top_char(m.output_cols as int, gmc, gph, i)),
            s@ == top.take(i as int),
        decreases cols + 2 - i,
    {
        proof {
            reveal_strlit("v");
            reveal_strlit("\u{252c}");
            reveal_strlit("\u{250c}");
            reveal_strlit("\u{2510}");
            reveal_strlit("\u{2500}");
        }
        if i as u64 == ph {
            s.append("v");
        } else if cols_contain(&mc, i as u64) {
            s.append("\u{252c}");
        } else if i == 0 {
            s.append("\u{250c}");
        } else if i == cols + 1 {
            s.append("\u{2510}");
        } else {
            s.append("\u{2500}");
        }
        proof {
            assert(s@ =~= top.take(i as int + 1));
        }
        i = i + 1;
    }
    proof {
        reveal_strlit("\r\n");
        assert(top.take((cols + 2) as int) =~= top);
    }
    s.append("\r\n");
    let ghost base4 = top + seq!['\r', '\n'];
    proof {
        assert(s@ =~= base4);
    }
    let ghost bottom = Seq::new((m.output_cols + 2) as nat,
        |i: int| spec_bar_bottom_char(m.output_cols as int, gmc, i));
    let mut i2: usize = 0;
    while i2 < cols + 2
        invariant
            0 <= i2 <= cols + 2,
            cols == m.output_cols,
            mc@ == gmc,
            bottom == Seq::new((m.output_cols + 2) as nat,
                |i: int| spec_bar_bottom_char(m.output_cols as int, gmc, i)),
            s@ == base4 + bottom.take(i2 as int),
        decreases cols + 2 - i2,
    {
        proof {
            reveal_strlit("\u{2534}");
            reveal_strlit("\u{2514}");
            reveal_strlit("\u{2518}");
            reveal_strlit("\u{2500}");
        }
        if cols_contain(&mc, i2 as u64) {
            s.append("\u{2534}");
        } else if i2 == 0 {
            s.append("\u{2514}");
        } else if i2 == cols + 1 {
            s.append("\u{2518}");
        } else {
            s.append("\u{2500}");
        }
        proof {
            assert(s@ =~= base4 + bottom.take(i2 as int + 1));
        }
        i2 = i2 + 1;
    }
    proof {
        reveal_strlit("\r\n");
        assert(bottom.take((cols + 2) as int) =~= bottom);
    }
    s.append("\r\n");
    proof {
        assert(s@ =~= spec_bar_block(*m));
    }
    s
}

/// The hover status line, rendered: see `spec_status_line`.
fn view_status_line(m: &Model) -> (r: String)
    requires
        m.wf(),
    ensures
        r@ == spec_status_line(*m),
{
    proof {
        reveal_strlit("segment ");
        reveal_strlit(" marker ");
        reveal_strlit(" of ");
        reveal_strlit("\r\n");
    }
    let mut s = col_code((m.output_cols - 12) as u64);
    let nmarkers = m.markers.len();
    match m.hovering.mode {
        HoverMode::Segments => {
            s.append("segment ");
            let d1 = u64_to_string(m.hovering.position as u64 + 1);
            s.append(d1.as_str());
            s.append(" of ");
            let d2 = u64_to_string(nmarkers as u64 + 1);
            s.append(d2.as_str());
        },
        HoverMode::Markers => {
            s.append(" marker ");
            let d1 = u64_to_string(m.hovering.position as u64 + 1);
            s.append(d1.as_str());
            s.append(" of ");
            let d2 = u64_to_string(nmarkers as u64);
            s.append(d2.as_str());
        },
    }
    s.append("\r\n");
    proof {
        assert(s@ =~= spec_status_line(*m));
    }
    s
}

/// The help block, rendered: see `spec_help_block`.
fn view_help_block(m: &Model) -> (r: String)
    requires
        m.wf(),
    ensures
        r@ == spec_help_block(*m),
{
    proof {
        reveal_strlit("     m = make marker           ");
        reveal_strlit("     M = remove marker         ");
        reveal_strlit("   J/L = prev/next marker    ");
        reveal_strlit(" space = unpause");
        reveal_strlit(" space = pause  ");
        reveal_strlit("   j/l = skip back/forwards  ");
        reveal_strlit("     h = hide controls       ");
        reveal_strlit("     q = quit                          ");
        reveal_strlit("     q = quit and cut into ");
        reveal_strlit(" segments");
        reveal_strlit("\r\n");
    }
    let mut s = String::new();
    let nmarkers = m.markers.len();
    match m.hovering.mode {
        HoverMode::Segments => s.append("     m = make marker           "),
        HoverMode::Markers => s.append("     M = remove marker         "),
    }
    s.append("\r\n");
    s.append("   J/L = prev/next marker    ");
    s.append("\r\n");
    if m.paused {
        s.append(" space = unpause");
    } else {
        s.append(" space = pause  ");
    }
    s.append("\r\n");
    s.append("   j/l = skip back/forwards  ");
    s.append("\r\n");
    s.append("     h = hide controls       ");
    s.append("\r\n");
    if nmarkers == 0 {
        s.append("     q = quit                          ");
    } else {
        s.append("     q = quit and cut into ");
        let d = u64_to_string(nmarkers as u64 + 1);
        s.append(d.as_str());
        s.append(" segments");
    }
    s.append("\r\n");
    proof {
        assert(s@ =~= spec_help_block(*m));
    }
    s
}

/// Compose one screen of output for the model: exactly the text
/// `spec_view` prescribes, ready to be written to the terminal.
pub fn view(m: &Model) -> (r: String)
    requires
        m.wf(),
    ensures
        r@ == spec_view(*m),
{
    proof {
        reveal_strlit("\u{1b}[2J");
        reveal_strlit("\u{1b}[1;1H");
    }
    let mut s = String::new();
    if m.needs_to_clear {
        s.append("\u{1b}[2J");
    }
    s.append("\u{1b}[1;1H");
    let video = view_video_block(m);
    s.append(video.as_str());
    let time = view_time_line(m);
    s.append(time.as_str());
    let bar = view_bar_block(m);
    s.append(bar.as_str());
    if !m.hide_controls {
        let status = view_status_line(m);
        s.append(status.as_str());
        let help = view_help_block(m);
        s.append(help.as_str());
    }
    proof {
        assert(s@ =~= spec_view(*m));
    }
    s
}

} // verus!
