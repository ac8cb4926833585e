//! Conversion planning: engine choice, command lines and output paths for
//! every input of a request.
//!
//! Planning needs three facts from the outside world: each input's
//! metadata, whether candidate output paths exist, and (for Markdown) the
//! installed LibreOffice version. [`build_plan`] is a pure function of the
//! request, the engines and the answers gathered so far: it either asks for
//! the next fact or gives the finished plan. The caller answers and asks
//! again.
use vstd::prelude::*;
use crate::engines::{EngineSet, EngineSetView};
use crate::errors::{CoreError, CoreErrorView};
use crate::formats::{ffmpeg_args_for, format_by_id, spec_ffmpeg_args, spec_format_by_id};
use crate::inspection::{inspect_path, spec_inspect};
use crate::libreoffice::{LibreOfficeVersion, VersionView, opt_version_view, spec_libreoffice_args, spec_supports_markdown};
use crate::models::{ConversionPlan, ConversionRequest, MediaCategory, OverwritePolicy, PlanView, plans_view};
use crate::numbers::{decimal, decimal_string};
use crate::paths::{
    CollisionStep, CollisionStepView, max_rename_index, or_default, path_extension, path_file_stem,
    path_join, path_parent, resolve_output_collision, spec_attempt_path, spec_collision_step,
    spec_path_extension, spec_path_file_stem, spec_path_join, spec_path_parent, spec_temp_output_path,
    temp_output_path, unwrap_or_str,
};
use crate::requests::{RequestView, spec_validate, validate_request};
use crate::text::{owned, push_str, str_eq, strings_view};

verus! {

/// The output file name for an input: the input's stem (`output` when it has
/// none), a dot, and the target's extension.
pub open spec fn spec_output_name(input: Seq<char>, extension: Seq<char>) -> Seq<char> {
    or_default(spec_path_file_stem(input), "output"@) + "."@ + extension
}

/// The output file name for an input, as [`spec_output_name`] states.
pub fn output_name_for(input: &str, target_extension: &str) -> (res: String)
    ensures
        res@ == spec_output_name(input@, target_extension@),
{
    let mut name = unwrap_or_str(path_file_stem(input), "output");
    push_str(&mut name, ".");
    push_str(&mut name, target_extension);
    name
}

/// The headless LibreOffice command line for a document, as
/// `spec_libreoffice_args` states; it cannot fail.
pub fn build_libreoffice_args(
    input: &str,
    outdir: &str,
    source_format: &str,
    target_format: &str,
    profile_dir: Option<&str>,
) -> (res: Result<Vec<String>, CoreError>)
    ensures
        res matches Ok(a) && strings_view(a@) == spec_libreoffice_args(input@, outdir@, source_format@, target_format@, crate::libreoffice::opt_static_view(profile_dir)),
{
    Ok(crate::libreoffice::build_libreoffice_args(input, outdir, source_format, target_format, profile_dir))
}

/// The engine arguments for one conversion. Documents get the LibreOffice
/// command line writing into the output's directory (`.` when it has none),
/// the input's extension naming the source format. Other media get FFmpeg's
/// `-i input`, the target's codec and container arguments, and the output;
/// `UnsupportedOutput` when there is no FFmpeg mapping.
pub open spec fn spec_build_args(input: Seq<char>, final_output: Seq<char>, category: MediaCategory, target: Seq<char>) -> Result<Seq<Seq<char>>, CoreErrorView> {
    if category == MediaCategory::Document {
        Ok(spec_libreoffice_args(
            input,
            or_default(spec_path_parent(final_output), "."@),
            or_default(spec_path_extension(input), ""@),
            target,
            None,
        ))
    } else {
        match spec_ffmpeg_args(category, target) {
            None => Err(CoreErrorView::UnsupportedOutput),
            Some(a) => Ok(seq!["-i"@, input] + a + seq![final_output]),
        }
    }
}

/// The engine arguments for one conversion, as [`spec_build_args`] states.
pub fn build_args(input: &str, final_output: &str, category: &MediaCategory, target_format: &str) -> (res: Result<Vec<String>, CoreError>)
    ensures
        match res {
            Ok(a) => spec_build_args(input@, final_output@, *category, target_format@) == Ok::<Seq<Seq<char>>, CoreErrorView>(strings_view(a@)),
            Err(e) => spec_build_args(input@, final_output@, *category, target_format@) == Err::<Seq<Seq<char>>, CoreErrorView>(e@),
        },
{
    if *category == MediaCategory::Document {
        let outdir = unwrap_or_str(path_parent(final_output), ".");
        let source = unwrap_or_str(path_extension(input), "");
        return build_libreoffice_args(input, outdir.as_str(), source.as_str(), target_format, None);
    }
    let mapped = match ffmpeg_args_for(category, target_format) {
        Some(a) => a,
        None => return Err(CoreError::UnsupportedOutput),
    };
    let mut args: Vec<String> = Vec::new();
    args.push(owned("-i"));
    args.push(owned(input));
    let ghost head = strings_view(args@);
    assert(head =~= seq!["-i"@, input@]);
    let mut k: usize = 0;
    while k < mapped.len()
        invariant
            k <= mapped@.len(),
            strings_view(args@) == head + strings_view(mapped@).take(k as int),
        decreases mapped@.len() - k,
    {
        let ghost prev = strings_view(args@);
        args.push(mapped[k].clone());
        assert(strings_view(args@) =~= prev.push(mapped@[k as int]@));
        assert(strings_view(mapped@).take(k + 1) =~= strings_view(mapped@).take(k as int).push(mapped@[k as int]@));
        assert(strings_view(args@) =~= head + strings_view(mapped@).take(k + 1));
        k = k + 1;
    }
    assert(strings_view(mapped@).take(mapped@.len() as int) =~= strings_view(mapped@));
    let ghost body = strings_view(args@);
    args.push(owned(final_output));
    assert(strings_view(args@) =~= body + seq![final_output@]);
    Ok(args)
}

/// A fact that planning needs from outside.
#[derive(Debug, Clone)]
pub enum PlanQuery {
    /// The size of this input file, or why its metadata cannot be read.
    Inspect(String),
    /// Whether something exists at this path.
    Exists(String),
    /// The version of the LibreOffice executable at this path.
    LibreOfficeVersion(String),
}

/// The value of a [`PlanQuery`].
pub enum QueryView {
    Inspect(Seq<char>),
    Exists(Seq<char>),
    LibreOfficeVersion(Seq<char>),
}

impl View for PlanQuery {
    type V = QueryView;

    open spec fn view(&self) -> QueryView {
        match self {
            PlanQuery::Inspect(p) => QueryView::Inspect(p@),
            PlanQuery::Exists(p) => QueryView::Exists(p@),
            PlanQuery::LibreOfficeVersion(p) => QueryView::LibreOfficeVersion(p@),
        }
    }
}

/// The answers gathered so far for one input: its metadata, whether each
/// output path probed so far exists (in probing order), and the LibreOffice
/// version detected (`Some(None)`: detection found none).
#[derive(Debug)]
pub struct InputObservations {
    pub file_size: Option<Result<u64, String>>,
    pub exists: Vec<bool>,
    pub version: Option<Option<LibreOfficeVersion>>,
}

/// The value of an [`InputObservations`].
pub struct ObsView {
    pub file_size: Option<Result<u64, Seq<char>>>,
    pub exists: Seq<bool>,
    pub version: Option<Option<VersionView>>,
}

impl View for InputObservations {
    type V = ObsView;

    open spec fn view(&self) -> ObsView {
        ObsView {
            file_size: match self.file_size {
                None => None,
                Some(Ok(s)) => Some(Ok(s)),
                Some(Err(m)) => Some(Err(m@)),
            },
            exists: self.exists@,
            version: match self.version {
                None => None,
                Some(v) => Some(opt_version_view(v)),
            },
        }
    }
}

/// No answers yet.
pub open spec fn empty_obs() -> ObsView {
    ObsView { file_size: None, exists: Seq::empty(), version: None }
}

impl InputObservations {
    /// Observations with no answers yet.
    pub fn new() -> (res: InputObservations)
        ensures
            res@ == empty_obs(),
    {
        let r = InputObservations { file_size: None, exists: Vec::new(), version: None };
        assert(r@.exists =~= Seq::<bool>::empty());
        r
    }
}

/// Where planning stands: it needs a fact about one input, or it is done.
#[derive(Debug)]
pub enum PlanStep {
    Need { input_index: usize, query: PlanQuery },
    Done(Result<Vec<ConversionPlan>, CoreError>),
}

/// The value of a [`PlanStep`].
pub enum StepView {
    Need { input_index: nat, query: QueryView },
    Done(Result<Seq<PlanView>, CoreErrorView>),
}

impl View for PlanStep {
    type V = StepView;

    open spec fn view(&self) -> StepView {
        match self {
            PlanStep::Need { input_index, query } => StepView::Need { input_index: *input_index as nat, query: query@ },
            PlanStep::Done(Ok(plans)) => StepView::Done(Ok(plans_view(plans@))),
            PlanStep::Done(Err(e)) => StepView::Done(Err(e@)),
        }
    }
}

/// Where one input stands: it needs a fact, it failed, or it is planned.
pub enum OutcomeView {
    Need(QueryView),
    Failed(CoreErrorView),
    Planned(PlanView),
}

/// Resolving an output path with the existence answers given so far,
/// starting at `attempt`: the resolution, or the next path to probe.
pub open spec fn spec_collision_run(path: Seq<char>, policy: OverwritePolicy, answers: Seq<bool>, attempt: nat) -> CollisionStepView
    decreases max_rename_index() + 1 - attempt,
{
    if attempt >= answers.len() || attempt > max_rename_index() {
        CollisionStepView::Probe { attempt, candidate: spec_attempt_path(path, attempt) }
    } else {
        match spec_collision_step(path, policy, attempt, answers[attempt as int]) {
            CollisionStepView::Probe { .. } => spec_collision_run(path, policy, answers, attempt + 1),
            CollisionStepView::Resolved(r) => CollisionStepView::Resolved(r),
        }
    }
}

/// Where a request's outputs go for an input: the requested directory, else
/// the input's own directory.
pub open spec fn spec_output_dir(r: RequestView, input: Seq<char>) -> Option<Seq<char>> {
    match r.output_directory {
        Some(d) => Some(d),
        None => spec_path_parent(input),
    }
}

/// The message when a document needs LibreOffice and none was found.
pub open spec fn libreoffice_missing_message() -> Seq<char> {
    "LibreOffice document engine is unavailable. Please install LibreOffice or set the LIBREOFFICE_PATH environment variable."@
}

/// The message when Markdown is involved and the LibreOffice found is older
/// than 26.2.
pub open spec fn spec_markdown_message(v: VersionView) -> Seq<char> {
    "Markdown conversion requires LibreOffice 26.2 or newer (detected version: "@ + decimal(v.major as nat) + "."@
        + decimal(v.minor as nat) + "."@ + decimal(v.patch as nat) + ")"@
}

/// The plan of a document once its output path is known: it needs
/// LibreOffice; when Markdown is the source or the target it needs the
/// version, and a version older than 26.2 is refused.
pub open spec fn spec_document_outcome(
    r: RequestView,
    engines: EngineSetView,
    input: Seq<char>,
    obs: ObsView,
    source_id: Seq<char>,
    dir: Seq<char>,
    final_output: Seq<char>,
) -> OutcomeView {
    match engines.libreoffice {
        None => OutcomeView::Failed(CoreErrorView::EngineNotFound(libreoffice_missing_message())),
        Some(lo) => {
            let markdown = source_id == "md"@ || r.target_format == "md"@;
            if markdown && obs.version is None {
                OutcomeView::Need(QueryView::LibreOfficeVersion(lo.path))
            } else if markdown && (obs.version matches Some(Some(v)) && !spec_supports_markdown(v.major, v.minor)) {
                OutcomeView::Failed(CoreErrorView::ProcessFailed(spec_markdown_message(obs.version->0->0)))
            } else {
                OutcomeView::Planned(PlanView {
                    executable: lo.path,
                    args: spec_libreoffice_args(input, dir, source_id, r.target_format, None),
                    temp_output: spec_temp_output_path(final_output),
                    final_output,
                    category: MediaCategory::Document,
                })
            }
        },
    }
}

/// Where one input of a validated request stands given the answers so far:
/// its metadata is read and its format detected; its output goes to the
/// output directory under its stem and the target's extension, resolved
/// against existing files by the overwrite policy; documents are planned
/// for LibreOffice and other media for FFmpeg.
pub open spec fn spec_plan_input(r: RequestView, engines: EngineSetView, input: Seq<char>, obs: ObsView) -> OutcomeView {
    match obs.file_size {
        None => OutcomeView::Need(QueryView::Inspect(input)),
        Some(metadata) => match spec_inspect(input, metadata) {
            Err(e) => OutcomeView::Failed(e),
            Ok((category, source_id, _size)) => match spec_output_dir(r, input) {
                None => OutcomeView::Failed(CoreErrorView::InvalidOutput),
                Some(dir) => match spec_format_by_id(r.target_format) {
                    None => OutcomeView::Failed(CoreErrorView::UnsupportedOutput),
                    Some(target) => {
                        let requested = spec_path_join(dir, spec_output_name(input, target.default_extension));
                        match spec_collision_run(requested, r.overwrite_policy, obs.exists, 0) {
                            CollisionStepView::Probe { attempt, candidate } => OutcomeView::Need(QueryView::Exists(candidate)),
                            CollisionStepView::Resolved(Err(e)) => OutcomeView::Failed(e),
                            CollisionStepView::Resolved(Ok(final_output)) => if category == MediaCategory::Document {
                                spec_document_outcome(r, engines, input, obs, source_id, dir, final_output)
                            } else {
                                match spec_build_args(input, final_output, category, r.target_format) {
                                    Err(e) => OutcomeView::Failed(e),
                                    Ok(a) => OutcomeView::Planned(PlanView {
                                        executable: engines.ffmpeg.path,
                                        args: a,
                                        temp_output: spec_temp_output_path(final_output),
                                        final_output,
                                        category,
                                    }),
                                }
                            },
                        }
                    },
                },
            },
        },
    }
}

/// The answers for the input at `i`; none when none were given.
pub open spec fn obs_at(observations: Seq<ObsView>, i: int) -> ObsView {
    if 0 <= i < observations.len() {
        observations[i]
    } else {
        empty_obs()
    }
}

/// Planning the inputs from the `i`-th on, after the plans `done`.
pub open spec fn spec_plan_from(
    r: RequestView,
    engines: EngineSetView,
    observations: Seq<ObsView>,
    i: nat,
    done: Seq<PlanView>,
) -> StepView
    decreases r.input_paths.len() - i,
{
    if i >= r.input_paths.len() {
        StepView::Done(Ok(done))
    } else {
        match spec_plan_input(r, engines, r.input_paths[i as int], obs_at(observations, i as int)) {
            OutcomeView::Need(q) => StepView::Need { input_index: i, query: q },
            OutcomeView::Failed(e) => StepView::Done(Err(e)),
            OutcomeView::Planned(p) => spec_plan_from(r, engines, observations, i + 1, done.push(p)),
        }
    }
}

/// Where planning a request stands given the answers so far: a request that
/// fails validation is refused with that error; otherwise the inputs are
/// planned in order, the first input that needs a fact asks for it, the
/// first that fails refuses the whole request, and when every input is
/// planned the plans come in input order.
pub open spec fn spec_build_plan(r: RequestView, engines: EngineSetView, observations: Seq<ObsView>) -> StepView {
    match spec_validate(r) {
        Some(e) => StepView::Done(Err(e)),
        None => spec_plan_from(r, engines, observations, 0, Seq::empty()),
    }
}

/// The values of a sequence of observations.
pub open spec fn obs_view(v: Seq<InputObservations>) -> Seq<ObsView> {
    Seq::new(v.len(), |i: int| v[i]@)
}

/// The Markdown refusal message for a version.
fn markdown_message(v: &LibreOfficeVersion) -> (res: String)
    ensures
        res@ == spec_markdown_message(v@),
{
    let mut s = owned("Markdown conversion requires LibreOffice 26.2 or newer (detected version: ");
    push_str(&mut s, decimal_string(v.major as u64).as_str());
    push_str(&mut s, ".");
    push_str(&mut s, decimal_string(v.minor as u64).as_str());
    push_str(&mut s, ".");
    push_str(&mut s, decimal_string(v.patch as u64).as_str());
    push_str(&mut s, ")");
    s
}

/// Resolves an output path with the answers given so far, as
/// [`spec_collision_run`] states from the first attempt.
pub fn collision_run(path: &str, policy: &OverwritePolicy, answers: &Vec<bool>) -> (res: CollisionStep)
    ensures
        res@ == spec_collision_run(path@, *policy, answers@, 0),
{
    let mut attempt: u32 = 0;
    let mut candidate = owned(path);
    loop
        invariant
            attempt <= max_rename_index(),
            candidate@ == spec_attempt_path(path@, attempt as nat),
            spec_collision_run(path@, *policy, answers@, 0) == spec_collision_run(path@, *policy, answers@, attempt as nat),
        decreases max_rename_index() - attempt,
    {
        if attempt as usize >= answers.len() {
            return CollisionStep::Probe { attempt, candidate };
        }
        match resolve_output_collision(path, policy, attempt, answers[attempt as usize]) {
            CollisionStep::Probe { attempt: next, candidate: c } => {
                attempt = next;
                candidate = c;
            },
            CollisionStep::Resolved(r) => {
                return CollisionStep::Resolved(r);
            },
        }
    }
}

/// Where one input stands.
enum InputOutcome {
    Need(PlanQuery),
    Failed(CoreError),
    Planned(ConversionPlan),
}

impl View for InputOutcome {
    type V = OutcomeView;

    closed spec fn view(&self) -> OutcomeView {
        match self {
            InputOutcome::Need(q) => OutcomeView::Need(q@),
            InputOutcome::Failed(e) => OutcomeView::Failed(e@),
            InputOutcome::Planned(p) => OutcomeView::Planned(p@),
        }
    }
}

/// The plan of a document once its output path is known, as
/// [`spec_document_outcome`] states.
fn document_outcome(
    request: &ConversionRequest,
    engines: &EngineSet,
    input: &str,
    obs: &InputObservations,
    source_id: &str,
    dir: &str,
    final_output: String,
) -> (res: InputOutcome)
    ensures
        res@ == spec_document_outcome(request@, engines@, input@, obs@, source_id@, dir@, final_output@),
{
    let lo = match &engines.libreoffice {
        None => return InputOutcome::Failed(CoreError::EngineNotFound(owned(
            "LibreOffice document engine is unavailable. Please install LibreOffice or set the LIBREOFFICE_PATH environment variable.",
        ))),
        Some(lo) => lo,
    };
    let markdown = str_eq(source_id, "md") || str_eq(request.target_format.as_str(), "md");
    if markdown {
        match &obs.version {
            None => return InputOutcome::Need(PlanQuery::LibreOfficeVersion(lo.path.clone())),
            Some(Some(v)) => {
                if !v.supports_markdown() {
                    return InputOutcome::Failed(CoreError::ProcessFailed(markdown_message(v)));
                }
            },
            Some(None) => {},
        }
    }
    let args = crate::libreoffice::build_libreoffice_args(input, dir, source_id, request.target_format.as_str(), None);
    let temp_output = temp_output_path(final_output.as_str());
    InputOutcome::Planned(ConversionPlan {
        executable: lo.path.clone(),
        args,
        temp_output,
        final_output,
        category: MediaCategory::Document,
    })
}

/// Where one input stands, as [`spec_plan_input`] states.
fn plan_input(request: &ConversionRequest, engines: &EngineSet, input: &str, obs: &InputObservations) -> (res: InputOutcome)
    ensures
        res@ == spec_plan_input(request@, engines@, input@, obs@),
{
    let metadata = match &obs.file_size {
        None => return InputOutcome::Need(PlanQuery::Inspect(owned(input))),
        Some(Ok(s)) => Ok(*s),
        Some(Err(m)) => Err(m.clone()),
    };
    let media = match inspect_path(input, metadata) {
        Ok(m) => m,
        Err(e) => return InputOutcome::Failed(e),
    };
    let dir = match &request.output_directory {
        Some(d) => d.clone(),
        None => match path_parent(input) {
            Some(p) => p,
            None => return InputOutcome::Failed(CoreError::InvalidOutput),
        },
    };
    let target = match format_by_id(request.target_format.as_str()) {
        Some(t) => t,
        None => return InputOutcome::Failed(CoreError::UnsupportedOutput),
    };
    let name = output_name_for(input, target.default_extension.as_str());
    let requested = path_join(dir.as_str(), name.as_str());
    let final_output = match collision_run(requested.as_str(), &request.overwrite_policy, &obs.exists) {
        CollisionStep::Probe { attempt: _, candidate } => return InputOutcome::Need(PlanQuery::Exists(candidate)),
        CollisionStep::Resolved(Err(e)) => return InputOutcome::Failed(e),
        CollisionStep::Resolved(Ok(p)) => p,
    };
    if media.category == MediaCategory::Document {
        return document_outcome(request, engines, input, obs, media.detected_format.as_str(), dir.as_str(), final_output);
    }
    let args = match build_args(input, final_output.as_str(), &media.category, request.target_format.as_str()) {
        Ok(a) => a,
        Err(e) => return InputOutcome::Failed(e),
    };
    let temp_output = temp_output_path(final_output.as_str());
    InputOutcome::Planned(ConversionPlan {
        executable: engines.ffmpeg.path.clone(),
        args,
        temp_output,
        final_output,
        category: media.category,
    })
}

/// Where planning a request stands given the answers gathered so far
/// (`observations[i]` answers for the `i`-th input; missing entries hold no
/// answers), as [`spec_build_plan`] states: the next fact needed, or the
/// finished plans, or why the request is refused.
pub fn build_plan(request: &ConversionRequest, engines: &EngineSet, observations: &Vec<InputObservations>) -> (res: PlanStep)
    ensures
        res@ == spec_build_plan(request@, engines@, obs_view(observations@)),
{
    match validate_request(request) {
        Err(e) => return PlanStep::Done(Err(e)),
        Ok(()) => {},
    }
    let empty = InputObservations::new();
    let ghost obs = obs_view(observations@);
    let ghost r = request@;
    let mut plans: Vec<ConversionPlan> = Vec::new();
    let mut i: usize = 0;
    assert(plans_view(plans@) =~= Seq::<PlanView>::empty());
    while i < request.input_paths.len()
        invariant
            r == request@,
            obs == obs_view(observations@),
            empty@ == empty_obs(),
            i <= r.input_paths.len(),
            spec_build_plan(r, engines@, obs) == spec_plan_from(r, engines@, obs, i as nat, plans_view(plans@)),
        decreases r.input_paths.len() - i,
    {
        let this_obs = if i < observations.len() { &observations[i] } else { &empty };
        assert(this_obs@ == obs_at(obs, i as int));
        assert(request.input_paths@[i as int]@ == r.input_paths[i as int]);
        match plan_input(request, engines, request.input_paths[i].as_str(), this_obs) {
            InputOutcome::Need(q) => return PlanStep::Need { input_index: i, query: q },
            InputOutcome::Failed(e) => return PlanStep::Done(Err(e)),
            InputOutcome::Planned(p) => {
                let ghost before = plans_view(plans@);
                plans.push(p);
                assert(plans_view(plans@) =~= before.push(p@));
            },
        }
        i = i + 1;
    }
    PlanStep::Done(Ok(plans))
}

} // verus!
