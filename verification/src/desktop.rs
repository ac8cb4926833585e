//! The desktop application's decisions: how it was launched, where its
//! bundled FFmpeg is, and how it converts one file.
use vstd::prelude::*;
use crate::engines::{PathProbe, Platform, ProbeKind, ffmpeg_executable, probes_view, spec_ffmpeg_executable};
use crate::errors::{CoreErrorView, spec_message};
use crate::execution::{InputObservations, ObsView, PlanQuery, QueryView, collision_run, spec_collision_run, spec_output_dir};
use crate::formats::{
    category_name, ffmpeg_args_for, format_by_id, is_conversion_supported, spec_category_name, spec_ffmpeg_args,
    spec_format_by_id, spec_targets_for_category,
};
use crate::inspection::{inspect_path, spec_inspect};
use crate::models::{ConversionRequest, OverwritePolicy};
use crate::paths::{
    CollisionStep, CollisionStepView, or_default, path_file_stem, path_join, path_parent, spec_path_file_stem,
    spec_path_join, unwrap_or_str,
};
use crate::requests::RequestView;
use crate::text::{chars_of, opt_view, owned, push_str, str_eq, strings_view, trim, trim_exec, string_of};

verus! {

/// What the desktop application was asked to do when it was started.
#[derive(Debug, Clone)]
pub struct LaunchRequest {
    pub paths: Vec<String>,
    pub target_format: Option<String>,
    pub auto_start: bool,
}

/// The value of a [`LaunchRequest`].
pub struct LaunchView {
    pub paths: Seq<Seq<char>>,
    pub target_format: Option<Seq<char>>,
    pub auto_start: bool,
}

impl View for LaunchRequest {
    type V = LaunchView;

    open spec fn view(&self) -> LaunchView {
        LaunchView { paths: strings_view(self.paths@), target_format: opt_view(self.target_format), auto_start: self.auto_start }
    }
}

/// The launch request of a command line (the arguments after the program
/// name): `--quick-convert FORMAT FILES...` converts the files at once,
/// `--open FILES...` opens them; anything else opens nothing.
pub open spec fn spec_launch_request(args: Seq<Seq<char>>) -> LaunchView {
    if args.len() >= 2 && args[0] == "--quick-convert"@ {
        LaunchView { paths: args.skip(2), target_format: Some(args[1]), auto_start: true }
    } else if args.len() >= 1 && args[0] == "--open"@ {
        LaunchView { paths: args.skip(1), target_format: None, auto_start: false }
    } else {
        LaunchView { paths: Seq::empty(), target_format: None, auto_start: false }
    }
}

/// Copies of `args[from..]`.
fn strings_from(args: &Vec<String>, from: usize) -> (res: Vec<String>)
    requires
        from <= args@.len(),
    ensures
        strings_view(res@) == strings_view(args@).skip(from as int),
{
    let mut v: Vec<String> = Vec::new();
    let mut i: usize = from;
    while i < args.len()
        invariant
            from <= i <= args@.len(),
            strings_view(v@) == strings_view(args@).subrange(from as int, i as int),
        decreases args@.len() - i,
    {
        let ghost prev = strings_view(v@);
        v.push(args[i].clone());
        assert(strings_view(v@) =~= prev.push(args@[i as int]@));
        assert(strings_view(v@) =~= strings_view(args@).subrange(from as int, i + 1));
        i = i + 1;
    }
    assert(strings_view(args@).subrange(from as int, args@.len() as int) =~= strings_view(args@).skip(from as int));
    v
}

/// The launch request of a command line, as [`spec_launch_request`] states.
pub fn get_launch_request(args: &Vec<String>) -> (res: LaunchRequest)
    ensures
        res@ == spec_launch_request(strings_view(args@)),
{
    if args.len() >= 2 && str_eq(args[0].as_str(), "--quick-convert") {
        assert(strings_view(args@)[0] == args@[0]@);
        return LaunchRequest { paths: strings_from(args, 2), target_format: Some(args[1].clone()), auto_start: true };
    }
    if args.len() >= 1 && str_eq(args[0].as_str(), "--open") {
        assert(strings_view(args@)[0] == args@[0]@);
        return LaunchRequest { paths: strings_from(args, 1), target_format: None, auto_start: false };
    }
    let r = LaunchRequest { paths: Vec::new(), target_format: None, auto_start: false };
    assert(r@.paths =~= Seq::<Seq<char>>::empty());
    r
}

/// The two engine places under a directory.
pub open spec fn engine_places(dir: Seq<char>, exe: Seq<char>) -> Seq<(Seq<char>, ProbeKind)> {
    seq![
        (spec_path_join(spec_path_join(dir, "resources/engines"@), exe), ProbeKind::IsFile),
        (spec_path_join(spec_path_join(dir, "engines"@), exe), ProbeKind::IsFile),
    ]
}

/// Where the bundled FFmpeg may be, in order, each checked as a file: under
/// the application's resource directory, then under the executable's
/// directory, each in `resources/engines` and in `engines`.
pub open spec fn spec_bundled_ffmpeg_candidates(resource_dir: Option<Seq<char>>, exe_dir: Option<Seq<char>>, platform: Platform) -> Seq<(Seq<char>, ProbeKind)> {
    let exe = spec_ffmpeg_executable(platform);
    (match resource_dir {
        Some(d) => engine_places(d, exe),
        None => Seq::empty(),
    }) + (match exe_dir {
        Some(d) => engine_places(d, exe),
        None => Seq::empty(),
    })
}

fn push_engine_places(v: &mut Vec<PathProbe>, dir: &str, exe: &str)
    ensures
        probes_view(final(v)@) == probes_view(old(v)@) + engine_places(dir@, exe@),
{
    let a = path_join(dir, "resources/engines");
    v.push(PathProbe { path: path_join(a.as_str(), exe), kind: ProbeKind::IsFile });
    let b = path_join(dir, "engines");
    v.push(PathProbe { path: path_join(b.as_str(), exe), kind: ProbeKind::IsFile });
    assert(probes_view(v@) =~= probes_view(old(v)@) + engine_places(dir@, exe@));
}

/// Where the bundled FFmpeg may be, as [`spec_bundled_ffmpeg_candidates`]
/// states. When none is a file, the executable's bare name is used and the
/// system search path decides.
pub fn bundled_ffmpeg_candidates(resource_dir: Option<&str>, exe_dir: Option<&str>, platform: Platform) -> (res: Vec<PathProbe>)
    ensures
        probes_view(res@) == spec_bundled_ffmpeg_candidates(
            match resource_dir {
                Some(d) => Some(d@),
                None => None,
            },
            match exe_dir {
                Some(d) => Some(d@),
                None => None,
            },
            platform,
        ),
{
    let exe = ffmpeg_executable(platform);
    let mut v: Vec<PathProbe> = Vec::new();
    assert(probes_view(v@) =~= Seq::empty());
    match resource_dir {
        Some(d) => push_engine_places(&mut v, d, exe),
        None => {},
    }
    let ghost mid = probes_view(v@);
    match exe_dir {
        Some(d) => push_engine_places(&mut v, d, exe),
        None => {},
    }
    assert(probes_view(v@) =~= spec_bundled_ffmpeg_candidates(
        match resource_dir {
            Some(d) => Some(d@),
            None => None,
        },
        match exe_dir {
            Some(d) => Some(d@),
            None => None,
        },
        platform,
    ));
    v
}

/// The outcome of converting one file in the desktop application.
#[derive(Debug, Clone)]
pub struct ConversionResult {
    pub input_path: String,
    pub output_path: Option<String>,
    pub success: bool,
    pub error: Option<String>,
}

/// The value of a [`ConversionResult`].
pub struct ResultView {
    pub input_path: Seq<char>,
    pub output_path: Option<Seq<char>>,
    pub success: bool,
    pub error: Option<Seq<char>>,
}

impl View for ConversionResult {
    type V = ResultView;

    open spec fn view(&self) -> ResultView {
        ResultView {
            input_path: self.input_path@,
            output_path: opt_view(self.output_path),
            success: self.success,
            error: opt_view(self.error),
        }
    }
}

/// A failed conversion of an input with a message.
pub open spec fn failure_view(input: Seq<char>, message: Seq<char>) -> ResultView {
    ResultView { input_path: input, output_path: None, success: false, error: Some(message) }
}

/// Where converting one file stands: it needs a fact, FFmpeg must run with
/// these arguments to write `output_path`, or it is finished.
#[derive(Debug)]
pub enum DesktopStep {
    Need(PlanQuery),
    Run { args: Vec<String>, output_path: String },
    Finished(ConversionResult),
}

/// The value of a [`DesktopStep`].
pub enum DesktopStepView {
    Need(QueryView),
    Run { args: Seq<Seq<char>>, output_path: Seq<char> },
    Finished(ResultView),
}

impl View for DesktopStep {
    type V = DesktopStepView;

    open spec fn view(&self) -> DesktopStepView {
        match self {
            DesktopStep::Need(q) => DesktopStepView::Need(q@),
            DesktopStep::Run { args, output_path } => DesktopStepView::Run { args: strings_view(args@), output_path: output_path@ },
            DesktopStep::Finished(r) => DesktopStepView::Finished(r@),
        }
    }
}

/// The FFmpeg command line of a desktop conversion: quiet, overwriting only
/// under the overwrite policy, the input, the target's mapping, the output.
pub open spec fn spec_desktop_args(policy: OverwritePolicy, input: Seq<char>, mapping: Seq<Seq<char>>, output: Seq<char>) -> Seq<Seq<char>> {
    seq!["-hide_banner"@, "-loglevel"@, "error"@, if policy == OverwritePolicy::Overwrite { "-y"@ } else { "-n"@ }, "-i"@, input]
        + mapping + seq![output]
}

/// Where converting one file in the desktop application stands given the
/// answers so far: the file is inspected; its category must offer the
/// target; the target must be a catalogue format; the output goes to the
/// output directory under the input's stem and the target's extension,
/// resolved against existing files; FFmpeg then runs with the target's
/// mapping. Each refusal finishes with its message.
pub open spec fn spec_desktop_step(r: RequestView, input: Seq<char>, obs: ObsView) -> DesktopStepView {
    match obs.file_size {
        None => DesktopStepView::Need(QueryView::Inspect(input)),
        Some(metadata) => match spec_inspect(input, metadata) {
            Err(e) => DesktopStepView::Finished(failure_view(input, spec_message(e))),
            Ok((category, _id, _size)) => if !spec_targets_for_category(category).contains(r.target_format) {
                DesktopStepView::Finished(failure_view(
                    input,
                    spec_category_name(category) + " files cannot be converted to "@ + r.target_format,
                ))
            } else {
                match spec_format_by_id(r.target_format) {
                    None => DesktopStepView::Finished(failure_view(input, "Unknown target format: "@ + r.target_format)),
                    Some(target) => match spec_output_dir(r, input) {
                        None => DesktopStepView::Finished(failure_view(input, "Output directory could not be determined"@)),
                        Some(dir) => {
                            let stem = or_default(spec_path_file_stem(input), "output"@);
                            let requested = spec_path_join(dir, stem + "."@ + target.default_extension);
                            match spec_collision_run(requested, r.overwrite_policy, obs.exists, 0) {
                                CollisionStepView::Probe { attempt, candidate } => DesktopStepView::Need(QueryView::Exists(candidate)),
                                CollisionStepView::Resolved(Err(e)) => DesktopStepView::Finished(failure_view(input, spec_message(e))),
                                CollisionStepView::Resolved(Ok(output)) => match spec_ffmpeg_args(category, r.target_format) {
                                    None => DesktopStepView::Finished(failure_view(input, "No FFmpeg mapping for "@ + r.target_format)),
                                    Some(m) => DesktopStepView::Run {
                                        args: spec_desktop_args(r.overwrite_policy, input, m, output),
                                        output_path: output,
                                    },
                                },
                            }
                        },
                    },
                }
            },
        },
    }
}

fn failure(input: &str, message: String) -> (res: DesktopStep)
    ensures
        res@ == DesktopStepView::Finished(failure_view(input@, message@)),
{
    DesktopStep::Finished(ConversionResult { input_path: owned(input), output_path: None, success: false, error: Some(message) })
}

fn joined2(a: &str, b: &str) -> (res: String)
    ensures
        res@ == a@ + b@,
{
    let mut s = owned(a);
    push_str(&mut s, b);
    s
}

fn joined(a: &str, b: &str, c: &str) -> (res: String)
    ensures
        res@ == a@ + b@ + c@,
{
    let mut s = owned(a);
    push_str(&mut s, b);
    push_str(&mut s, c);
    s
}

/// Where converting one file stands, as [`spec_desktop_step`] states.
pub fn desktop_conversion_step(request: &ConversionRequest, input: &str, obs: &InputObservations) -> (res: DesktopStep)
    ensures
        res@ == spec_desktop_step(request@, input@, obs@),
{
    let metadata = match &obs.file_size {
        None => return DesktopStep::Need(PlanQuery::Inspect(owned(input))),
        Some(Ok(s)) => Ok(*s),
        Some(Err(m)) => Err(m.clone()),
    };
    let media = match inspect_path(input, metadata) {
        Ok(m) => m,
        Err(e) => return failure(input, e.message()),
    };
    let target_name = request.target_format.as_str();
    if !is_conversion_supported(&media.category, target_name) {
        return failure(input, joined(category_name(&media.category), " files cannot be converted to ", target_name));
    }
    let target = match format_by_id(target_name) {
        Some(t) => t,
        None => return failure(input, joined2("Unknown target format: ", target_name)),
    };
    let dir = match &request.output_directory {
        Some(d) => d.clone(),
        None => match path_parent(input) {
            Some(p) => p,
            None => return failure(input, owned("Output directory could not be determined")),
        },
    };
    let stem = unwrap_or_str(path_file_stem(input), "output");
    let name = joined(stem.as_str(), ".", target.default_extension.as_str());
    let requested = path_join(dir.as_str(), name.as_str());
    let output = match collision_run(requested.as_str(), &request.overwrite_policy, &obs.exists) {
        CollisionStep::Probe { attempt: _, candidate } => return DesktopStep::Need(PlanQuery::Exists(candidate)),
        CollisionStep::Resolved(Err(e)) => return failure(input, e.message()),
        CollisionStep::Resolved(Ok(p)) => p,
    };
    let mapping = match ffmpeg_args_for(&media.category, target_name) {
        Some(m) => m,
        None => return failure(input, joined2("No FFmpeg mapping for ", target_name)),
    };
    let mut args: Vec<String> = Vec::new();
    args.push(owned("-hide_banner"));
    args.push(owned("-loglevel"));
    args.push(owned("error"));
    if request.overwrite_policy == OverwritePolicy::Overwrite {
        args.push(owned("-y"));
    } else {
        args.push(owned("-n"));
    }
    args.push(owned("-i"));
    args.push(owned(input));
    let ghost head = strings_view(args@);
    let mut k: usize = 0;
    while k < mapping.len()
        invariant
            k <= mapping@.len(),
            strings_view(args@) == head + strings_view(mapping@).take(k as int),
        decreases mapping@.len() - k,
    {
        let ghost prev = strings_view(args@);
        args.push(mapping[k].clone());
        assert(strings_view(args@) =~= prev.push(mapping@[k as int]@));
        assert(strings_view(mapping@).take(k + 1) =~= strings_view(mapping@).take(k as int).push(mapping@[k as int]@));
        k = k + 1;
    }
    assert(strings_view(mapping@).take(mapping@.len() as int) =~= strings_view(mapping@));
    let ghost body = strings_view(args@);
    args.push(output.clone());
    assert(strings_view(args@) =~= body.push(output@));
    assert(strings_view(args@) =~= spec_desktop_args(request.overwrite_policy, input@, strings_view(mapping@), output@));
    DesktopStep::Run { args, output_path: output }
}

/// The result of an FFmpeg run that started: success with its output, or
/// failure with FFmpeg's trimmed error output, or (when that is empty) the
/// exit status as the caller describes it.
pub open spec fn spec_run_result(input: Seq<char>, output: Seq<char>, succeeded: bool, stderr: Seq<char>, status: Seq<char>) -> ResultView {
    if succeeded {
        ResultView { input_path: input, output_path: Some(output), success: true, error: None }
    } else if trim(stderr).len() == 0 {
        failure_view(input, "FFmpeg exited with status "@ + status)
    } else {
        failure_view(input, trim(stderr))
    }
}

/// The result of an FFmpeg run that started, as [`spec_run_result`] states.
pub fn finish_desktop_conversion(input: &str, output: &str, succeeded: bool, stderr: &str, status: &str) -> (res: ConversionResult)
    ensures
        res@ == spec_run_result(input@, output@, succeeded, stderr@, status@),
{
    if succeeded {
        return ConversionResult { input_path: owned(input), output_path: Some(owned(output)), success: true, error: None };
    }
    let details = trim_exec(&chars_of(stderr));
    let message = if details.len() == 0 { joined2("FFmpeg exited with status ", status) } else { string_of(&details) };
    ConversionResult { input_path: owned(input), output_path: None, success: false, error: Some(message) }
}

/// The result when FFmpeg could not be started.
pub fn ffmpeg_start_failure(input: &str, ffmpeg: &str, error: &str) -> (res: ConversionResult)
    ensures
        res@ == failure_view(input@, "FFmpeg could not be started at '"@ + ffmpeg@ + "': "@ + error@),
{
    let mut message = joined("FFmpeg could not be started at '", ffmpeg, "': ");
    push_str(&mut message, error);
    ConversionResult { input_path: owned(input), output_path: None, success: false, error: Some(message) }
}

} // verus!
