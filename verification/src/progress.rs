//! FFmpeg progress reports (`-progress` output).
use vstd::prelude::*;
use crate::models::ProgressEvent;
use crate::numbers::{parse_unsigned, parse_unsigned_range};
use crate::text::{chars_of, chars_range, has_prefix, has_prefix_exec, opt_view, string_of, trim, trim_exec};

verus! {

/// The pieces of `s` between occurrences of `c`, from `start`, scanning at
/// `i`: every piece, empty ones included, as `str::split(c)` gives them.
pub open spec fn split_from(s: Seq<char>, c: char, start: int, i: int) -> Seq<Seq<char>>
    decreases s.len() - i,
{
    if i >= s.len() {
        seq![s.subrange(start, s.len() as int)]
    } else if s[i] == c {
        seq![s.subrange(start, i)] + split_from(s, c, i + 1, i + 1)
    } else {
        split_from(s, c, start, i + 1)
    }
}

/// The fields a progress report sets: the frame number, the speed and the
/// progress state.
pub struct ProgressFields {
    pub frame: Option<u64>,
    pub speed: Option<Seq<char>>,
    pub message: Option<Seq<char>>,
}

/// One `key=value` line applied to the fields: `frame=` sets the frame to
/// the trimmed value read as a `u64` (nothing when it is not one), `speed=`
/// and `progress=` set the speed and the progress state to the trimmed
/// value; other lines change nothing.
pub open spec fn apply_progress_line(f: ProgressFields, line: Seq<char>) -> ProgressFields {
    if has_prefix(line, "frame="@) {
        ProgressFields {
            frame: match parse_unsigned(trim(line.skip("frame="@.len() as int)), u64::MAX as int) {
                Some(n) => Some(n as u64),
                None => None,
            },
            ..f
        }
    } else if has_prefix(line, "speed="@) {
        ProgressFields { speed: Some(trim(line.skip("speed="@.len() as int))), ..f }
    } else if has_prefix(line, "progress="@) {
        ProgressFields { message: Some(trim(line.skip("progress="@.len() as int))), ..f }
    } else {
        f
    }
}

/// The lines applied in order; later lines win.
pub open spec fn fold_progress(lines: Seq<Seq<char>>, f: ProgressFields) -> ProgressFields
    decreases lines.len(),
{
    if lines.len() == 0 {
        f
    } else {
        fold_progress(lines.drop_first(), apply_progress_line(f, lines[0]))
    }
}

/// The fields a progress report sets.
pub open spec fn spec_progress_fields(report: Seq<char>) -> ProgressFields {
    fold_progress(split_from(report, '\n', 0, 0), ProgressFields { frame: None, speed: None, message: None })
}

/// The value after the `key=` prefix of `v[from..to]`, trimmed.
fn value_after(v: &Vec<char>, from: usize, to: usize, key: &str) -> (res: Vec<char>)
    requires
        from <= to <= v@.len(),
        has_prefix(v@.subrange(from as int, to as int), key@),
    ensures
        res@ == trim(v@.subrange(from as int, to as int).skip(key@.len() as int)),
{
    let k = chars_of(key);
    let rest = chars_range(v, from + k.len(), to);
    assert(rest@ =~= v@.subrange(from as int, to as int).skip(key@.len() as int));
    trim_exec(&rest)
}

/// Reads an FFmpeg progress report for a job: its lines (split at `\n`) set
/// the frame, speed and progress state, later lines winning. A report with
/// no progress state is no event. The event carries no durations, estimate,
/// file or progress fraction.
pub fn parse_ffmpeg_progress(job_id: uuid::Uuid, line: &str) -> (res: Option<ProgressEvent>)
    ensures
        ({
            let f = spec_progress_fields(line@);
            match res {
                None => f.message is None,
                Some(e) => {
                    &&& f.message is Some
                    &&& e.job_id == job_id
                    &&& e.current_frame == f.frame
                    &&& opt_view(e.speed) == f.speed
                    &&& opt_view(e.message) == f.message
                    &&& e.processed_duration_ms is None && e.total_duration_ms is None
                    &&& e.eta_seconds is None && e.current_file is None
                },
            }
        }),
{
    let v = chars_of(line);
    let mut frame: Option<u64> = None;
    let mut speed: Option<String> = None;
    let mut message: Option<String> = None;
    let mut start: usize = 0;
    let mut i: usize = 0;
    loop
        invariant
            start <= i <= v@.len(),
            v@ == line@,
            spec_progress_fields(line@) == fold_progress(
                split_from(v@, '\n', start as int, i as int),
                ProgressFields { frame, speed: opt_view(speed), message: opt_view(message) },
            ),
        ensures
            spec_progress_fields(line@) == (ProgressFields { frame, speed: opt_view(speed), message: opt_view(message) }),
        decreases v@.len() - i,
    {
        if i == v.len() || v[i] == '\n' {
            let ghost piece = v@.subrange(start as int, i as int);
            let ghost before = ProgressFields { frame, speed: opt_view(speed), message: opt_view(message) };
            let ghost rest = if i == v.len() { Seq::<Seq<char>>::empty() } else { split_from(v@, '\n', i + 1, i + 1) };
            assert(split_from(v@, '\n', start as int, i as int) == seq![piece] + rest);
            assert((seq![piece] + rest)[0] == piece);
            assert((seq![piece] + rest).drop_first() =~= rest);
            let p = chars_range(&v, start, i);
            if has_prefix_exec(&p, "frame=") {
                assert(p@.subrange(0, p@.len() as int) =~= p@);
                let value = value_after(&p, 0, p.len(), "frame=");
                frame = match parse_unsigned_range(&value, 0, value.len(), 18446744073709551615u64) {
                    Some(n) => Some(n),
                    None => None,
                };
                assert(value@.subrange(0, value@.len() as int) =~= value@);
            } else if has_prefix_exec(&p, "speed=") {
                assert(p@.subrange(0, p@.len() as int) =~= p@);
                let value = value_after(&p, 0, p.len(), "speed=");
                speed = Some(string_of(&value));
            } else if has_prefix_exec(&p, "progress=") {
                assert(p@.subrange(0, p@.len() as int) =~= p@);
                let value = value_after(&p, 0, p.len(), "progress=");
                message = Some(string_of(&value));
            }
            assert(ProgressFields { frame, speed: opt_view(speed), message: opt_view(message) } == apply_progress_line(before, piece));
            if i == v.len() {
                assert(rest =~= Seq::<Seq<char>>::empty());
                assert(fold_progress(seq![piece] + rest, before) == fold_progress(rest, apply_progress_line(before, piece)));
                break;
            }
            start = i + 1;
        }
        i = i + 1;
    }
    match message {
        None => None,
        Some(m) => Some(ProgressEvent {
            job_id,
            processed_duration_ms: None,
            total_duration_ms: None,
            speed,
            eta_seconds: None,
            current_frame: frame,
            current_file: None,
            message: Some(m),
        }),
    }
}

} // verus!
