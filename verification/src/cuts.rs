//! Planning the final cut commands. When the user quits with markers set,
//! the implicit bounding markers 0 and `duration` are added and one cut
//! command per resulting segment is produced: the decode collaborator is
//! invoked with `-ss <start> -i <input> -to <end> -c copy <output>`, where
//! the output files are named `<stem>_<index>.<ext>` beside the input.
//! With the report-only flag the equivalent shell commands are rendered as
//! text instead, with path arguments quoted.

use vstd::prelude::*;

use crate::digits::{spec_u64_digits, spec_padded_digits, u64_to_string, u64_to_padded_string};
use crate::markers::MarkerIndex;
use crate::scan::{find_last, find_last_in_str};
use crate::MICROS_PER_SEC;

verus! {

/// The bookended marker list at position `j`: 0 first, then the markers,
/// then the duration.
pub open spec fn bookend_at(markers: Seq<u64>, duration: u64, j: int) -> u64 {
    if j == 0 {
        0
    } else if j <= markers.len() {
        markers[j - 1]
    } else {
        duration
    }
}

/// The segments to cut: none when no marker was set; otherwise one segment
/// between each pair of consecutive bookended markers, so always exactly
/// `markers.len() + 1` of them.
pub open spec fn spec_segments(markers: Seq<u64>, duration: u64) -> Seq<(u64, u64)> {
    if markers.len() == 0 {
        Seq::empty()
    } else {
        Seq::new(
            (markers.len() + 1) as nat,
            |j: int| (bookend_at(markers, duration, j), bookend_at(markers, duration, j + 1)),
        )
    }
}

/// Compute the segments to cut. Quitting with zero markers yields zero
/// segments; with `k` markers, exactly `k + 1` segments chained from 0 to
/// the duration.
pub fn plan_segments(markers: &MarkerIndex, duration: u64) -> (v: Vec<(u64, u64)>)
    ensures
        v@ == spec_segments(markers@, duration),
        markers@.len() == 0 ==> v@.len() == 0,
        markers@.len() > 0 ==> v@.len() == markers@.len() + 1,
{
    let n = markers.len();
    let mut v: Vec<(u64, u64)> = Vec::new();
    if n == 0 {
        proof {
            assert(v@ =~= spec_segments(markers@, duration));
        }
        return v;
    }
    let ghost full = spec_segments(markers@, duration);
    let mut prev: u64 = 0;
    let mut i: usize = 0;
    while i < n
        invariant
            0 <= i <= n,
            n == markers@.len(),
            1 <= n,
            full == spec_segments(markers@, duration),
            v@ == full.take(i as int),
            prev == bookend_at(markers@, duration, i as int),
        decreases n - i,
    {
        let m = markers.get(i);
        v.push((prev, m));
        proof {
            assert(v@ =~= full.take(i as int + 1));
        }
        prev = m;
        i = i + 1;
    }
    v.push((prev, duration));
    proof {
        assert(v@ =~= full);
    }
    v
}

/// A timestamp rendered as decimal seconds with six fractional digits.
pub open spec fn spec_secs_text(micros: int) -> Seq<char> {
    spec_u64_digits(micros / 1_000_000) + seq!['.'] + spec_padded_digits(micros % 1_000_000, 6)
}

/// Render a timestamp as seconds, microsecond precision (`12.345678`).
pub fn format_micros_secs(micros: u64) -> (s: String)
    ensures
        s@ == spec_secs_text(micros as int),
{
    proof {
        reveal_strlit(".");
    }
    let mut s = u64_to_string(micros / MICROS_PER_SEC);
    s.append(".");
    let frac = u64_to_padded_string(micros % MICROS_PER_SEC, 6);
    s.append(frac.as_str());
    proof {
        assert(s@ =~= spec_secs_text(micros as int));
    }
    s
}

/// A path that can name cut outputs: its last dot comes after its last
/// slash, with at least one stem character between them.
pub open spec fn path_has_stem_ext(path: Seq<char>) -> bool {
    find_last(path, '.') > find_last(path, '/') + 1
}

/// The output path for cut `index`: the input path with `_<index>` wedged
/// between stem and extension.
pub open spec fn spec_cut_output_path(path: Seq<char>, index: int) -> Seq<char> {
    let d = find_last(path, '.');
    path.take(d) + seq!['_'] + spec_u64_digits(index) + path.subrange(d, path.len() as int)
}

/// Build the output path for one cut: `/a/b/c.mp4` and index 2 give
/// `/a/b/c_2.mp4`.
pub fn cut_output_path(path: &str, index: u64) -> (s: String)
    requires
        path_has_stem_ext(path@),
    ensures
        s@ == spec_cut_output_path(path@, index as int),
{
    proof {
        reveal_strlit("_");
    }
    let len = path.unicode_len();
    proof {
        crate::scan::lemma_find_last_range(path@, '/');
    }
    let d = match find_last_in_str(path, '.') {
        Option::Some(d) => d,
        Option::None => vstd::pervasive::unreached(),
    };
    let mut s = String::from_str(path.substring_char(0, d));
    s.append("_");
    let digits = u64_to_string(index);
    s.append(digits.as_str());
    s.append(path.substring_char(d, len));
    proof {
        assert(s@ =~= spec_cut_output_path(path@, index as int));
    }
    s
}

/// The argument list of one cut command, as handed to the decode
/// collaborator.
pub open spec fn spec_cut_args(
    path: Seq<char>,
    start: u64,
    end: u64,
    index: int,
) -> Seq<Seq<char>> {
    seq![
        "-ss"@,
        spec_secs_text(start as int),
        "-i"@,
        path,
        "-to"@,
        spec_secs_text(end as int),
        "-c"@,
        "copy"@,
        spec_cut_output_path(path, index),
    ]
}

/// Build the argument list for one cut command.
pub fn cut_command_args(path: &str, start: u64, end: u64, index: u64) -> (v: Vec<String>)
    requires
        path_has_stem_ext(path@),
    ensures
        v@.map_values(|s: String| s@) == spec_cut_args(path@, start, end, index as int),
{
    let mut v: Vec<String> = Vec::new();
    v.push(String::from_str("-ss"));
    v.push(format_micros_secs(start));
    v.push(String::from_str("-i"));
    v.push(String::from_str(path));
    v.push(String::from_str("-to"));
    v.push(format_micros_secs(end));
    v.push(String::from_str("-c"));
    v.push(String::from_str("copy"));
    v.push(cut_output_path(path, index));
    proof {
        assert(v@.map_values(|s: String| s@)
            =~= spec_cut_args(path@, start, end, index as int));
    }
    v
}

/// The argument lists of every cut command: one per segment, in marker
/// order, indices from 0. Zero markers yield zero commands.
pub open spec fn spec_cut_plan(
    markers: Seq<u64>,
    duration: u64,
    path: Seq<char>,
) -> Seq<Seq<Seq<char>>> {
    Seq::new(
        spec_segments(markers, duration).len(),
        |i: int| spec_cut_args(
            path,
            spec_segments(markers, duration)[i].0,
            spec_segments(markers, duration)[i].1,
            i,
        ),
    )
}

/// Build every cut command for the session: none when no marker was set,
/// otherwise `markers.len() + 1` commands covering `[0, duration]`.
pub fn plan_cut_commands(markers: &MarkerIndex, duration: u64, path: &str)
    -> (v: Vec<Vec<String>>)
    requires
        path_has_stem_ext(path@),
    ensures
        v@.len() == spec_cut_plan(markers@, duration, path@).len(),
        forall|j: int| 0 <= j < v@.len()
            ==> (#[trigger] v@[j])@.map_values(|s: String| s@)
                == spec_cut_plan(markers@, duration, path@)[j],
        markers@.len() == 0 ==> v@.len() == 0,
        markers@.len() > 0 ==> v@.len() == markers@.len() + 1,
{
    let segments = plan_segments(markers, duration);
    let ghost plan = spec_cut_plan(markers@, duration, path@);
    let mut v: Vec<Vec<String>> = Vec::new();
    let mut i: usize = 0;
    while i < segments.len()
        invariant
            0 <= i <= segments@.len(),
            segments@ == spec_segments(markers@, duration),
            plan == spec_cut_plan(markers@, duration, path@),
            path_has_stem_ext(path@),
            v@.len() == i,
            forall|j: int| 0 <= j < i
                ==> (#[trigger] v@[j])@.map_values(|s: String| s@) == plan[j],
        decreases segments@.len() - i,
    {
        let (start, end) = segments[i];
        let args = cut_command_args(path, start, end, i as u64);
        v.push(args);
        i = i + 1;
    }
    v
}

/// A string in shell single quotes, with embedded quotes escaped as `'\''`.
pub open spec fn spec_quoted_body(s: Seq<char>) -> Seq<char>
    decreases s.len(),
{
    if s.len() == 0 {
        Seq::empty()
    } else if s.last() == '\'' {
        spec_quoted_body(s.drop_last()) + seq!['\'', '\\', '\'', '\'']
    } else {
        spec_quoted_body(s.drop_last()).push(s.last())
    }
}

/// See `shell_quote`.
pub open spec fn spec_shell_quoted(s: Seq<char>) -> Seq<char> {
    seq!['\''] + spec_quoted_body(s) + seq!['\'']
}

/// Quote a string for a shell command line: wrapped in single quotes, each
/// embedded single quote escaped.
pub fn shell_quote(s: &str) -> (r: String)
    ensures
        r@ == spec_shell_quoted(s@),
{
    proof {
        reveal_strlit("'");
        reveal_strlit("'\\''");
    }
    let len = s.unicode_len();
    let mut r = String::from_str("'");
    let mut i: usize = 0;
    while i < len
        invariant
            0 <= i <= len,
            len == s@.len(),
            r@ == seq!['\''] + spec_quoted_body(s@.take(i as int)),
        decreases len - i,
    {
        proof {
            assert(s@.take(i as int + 1).drop_last() =~= s@.take(i as int));
            assert(s@.take(i as int + 1).last() == s@[i as int]);
        }
        let c = s.get_char(i);
        if c == '\'' {
            r.append("'\\''");
            proof {
                reveal_strlit("'\\''");
                assert("'\\''"@ =~= seq!['\'', '\\', '\'', '\'']);
                assert(spec_quoted_body(s@.take(i as int + 1))
                    == spec_quoted_body(s@.take(i as int)) + seq!['\'', '\\', '\'', '\'']);
                assert(r@ =~= seq!['\''] + spec_quoted_body(s@.take(i as int + 1)));
            }
        } else {
            let piece = s.substring_char(i, i + 1);
            r.append(piece);
            proof {
                assert(piece@ =~= seq![s@[i as int]]);
                assert(r@ =~= seq!['\''] + spec_quoted_body(s@.take(i as int + 1)));
            }
        }
        i = i + 1;
    }
    r.append("'");
    proof {
        assert(s@.take(len as int) =~= s@);
        assert(r@ =~= spec_shell_quoted(s@));
    }
    r
}

/// One line of the report-only output: the shell command equivalent to one
/// cut, with the path arguments quoted.
pub open spec fn spec_cut_line(path: Seq<char>, start: u64, end: u64, index: int) -> Seq<char> {
    "ffmpeg -ss "@ + spec_secs_text(start as int)
        + " -i "@ + spec_shell_quoted(path)
        + " -to "@ + spec_secs_text(end as int)
        + " -c copy "@ + spec_shell_quoted(spec_cut_output_path(path, index))
        + "\n"@
}

/// The whole report-only output: one line per segment.
pub open spec fn spec_cut_report(markers: Seq<u64>, duration: u64, path: Seq<char>) -> Seq<char> {
    spec_cut_report_upto(
        markers, duration, path, spec_segments(markers, duration).len() as int)
}

/// The first `n` lines of the report-only output.
pub open spec fn spec_cut_report_upto(
    markers: Seq<u64>,
    duration: u64,
    path: Seq<char>,
    n: int,
) -> Seq<char>
    decreases n,
{
    if n <= 0 {
        Seq::empty()
    } else {
        let segs = spec_segments(markers, duration);
        spec_cut_report_upto(markers, duration, path, n - 1)
            + spec_cut_line(path, segs[n - 1].0, segs[n - 1].1, n - 1)
    }
}

/// Render the report-only text: the shell commands that would perform the
/// cuts, one per line, path arguments quoted. Zero markers give empty text.
pub fn render_cut_report(markers: &MarkerIndex, duration: u64, path: &str) -> (r: String)
    requires
        path_has_stem_ext(path@),
    ensures
        r@ == spec_cut_report(markers@, duration, path@),
        markers@.len() == 0 ==> r@.len() == 0,
{
    proof {
        reveal_strlit("ffmpeg -ss ");
        reveal_strlit(" -i ");
        reveal_strlit(" -to ");
        reveal_strlit(" -c copy ");
        reveal_strlit("\n");
    }
    let segments = plan_segments(markers, duration);
    let mut r = String::new();
    let mut i: usize = 0;
    while i < segments.len()
        invariant
            0 <= i <= segments@.len(),
            segments@ == spec_segments(markers@, duration),
            path_has_stem_ext(path@),
            r@ == spec_cut_report_upto(markers@, duration, path@, i as int),
        decreases segments@.len() - i,
    {
        proof {
            reveal_strlit("ffmpeg -ss ");
            reveal_strlit(" -i ");
            reveal_strlit(" -to ");
            reveal_strlit(" -c copy ");
            reveal_strlit("\n");
        }
        let (start, end) = segments[i];
        r.append("ffmpeg -ss ");
        let t1 = format_micros_secs(start);
        r.append(t1.as_str());
        r.append(" -i ");
        let q1 = shell_quote(path);
        r.append(q1.as_str());
        r.append(" -to ");
        let t2 = format_micros_secs(end);
        r.append(t2.as_str());
        r.append(" -c copy ");
        let out = cut_output_path(path, i as u64);
        let q2 = shell_quote(out.as_str());
        r.append(q2.as_str());
        r.append("\n");
        proof {
            assert(r@ =~= spec_cut_report_upto(markers@, duration, path@, i as int + 1));
        }
        i = i + 1;
    }
    r
}

} // verus!
