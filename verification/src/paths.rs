//! Output paths: path syntax, temporary outputs and collision resolution.
//!
//! Paths are held as strings. What a path's file name, stem, extension and
//! parent are, and what joining gives, is the syntax of `std::path` on the
//! platform the crate is built for; those results are named here and are
//! computed by `std::path`.
use vstd::prelude::*;
use crate::errors::{CoreError, CoreErrorView};
use crate::models::OverwritePolicy;
use crate::numbers::{decimal, decimal_string};
use crate::text::{opt_view, owned, push_str};

verus! {

/// The final component of a path (`Path::file_name`), if it has one.
pub uninterp spec fn spec_path_file_name(path: Seq<char>) -> Option<Seq<char>>;

/// The file name without its extension (`Path::file_stem`).
pub uninterp spec fn spec_path_file_stem(path: Seq<char>) -> Option<Seq<char>>;

/// The extension of the file name (`Path::extension`).
pub uninterp spec fn spec_path_extension(path: Seq<char>) -> Option<Seq<char>>;

/// The path without its final component (`Path::parent`).
pub uninterp spec fn spec_path_parent(path: Seq<char>) -> Option<Seq<char>>;

/// `part` joined onto `base` (`Path::join`).
pub uninterp spec fn spec_path_join(base: Seq<char>, part: Seq<char>) -> Seq<char>;

/// The path with its file name replaced (`Path::with_file_name`).
pub uninterp spec fn spec_path_with_file_name(path: Seq<char>, name: Seq<char>) -> Seq<char>;

/// `Path::file_name` of `path`, as a string. A path made from a string has a
/// file name that is valid UTF-8, so the conversion loses nothing.
#[verifier::external_body]
pub(crate) fn path_file_name(path: &str) -> (res: Option<String>)
    ensures
        opt_view(res) == spec_path_file_name(path@),
{
    match std::path::Path::new(path).file_name() {
        Some(name) => name.to_str().map(String::from),
        None => None,
    }
}

/// `Path::file_stem` of `path`, as a string.
#[verifier::external_body]
pub(crate) fn path_file_stem(path: &str) -> (res: Option<String>)
    ensures
        opt_view(res) == spec_path_file_stem(path@),
{
    match std::path::Path::new(path).file_stem() {
        Some(stem) => stem.to_str().map(String::from),
        None => None,
    }
}

/// `Path::extension` of `path`, as a string.
#[verifier::external_body]
pub(crate) fn path_extension(path: &str) -> (res: Option<String>)
    ensures
        opt_view(res) == spec_path_extension(path@),
{
    match std::path::Path::new(path).extension() {
        Some(ext) => ext.to_str().map(String::from),
        None => None,
    }
}

/// `Path::parent` of `path`, as a string.
#[verifier::external_body]
pub(crate) fn path_parent(path: &str) -> (res: Option<String>)
    ensures
        opt_view(res) == spec_path_parent(path@),
{
    match std::path::Path::new(path).parent() {
        Some(parent) => parent.to_str().map(String::from),
        None => None,
    }
}

/// `Path::join` of `base` and `part`, as a string.
#[verifier::external_body]
pub(crate) fn path_join(base: &str, part: &str) -> (res: String)
    ensures
        res@ == spec_path_join(base@, part@),
{
    std::path::Path::new(base).join(part).to_string_lossy().into_owned()
}

/// `Path::with_file_name` of `path` and `name`, as a string.
#[verifier::external_body]
pub(crate) fn path_with_file_name(path: &str, name: &str) -> (res: String)
    ensures
        res@ == spec_path_with_file_name(path@, name@),
{
    std::path::Path::new(path).with_file_name(name).to_string_lossy().into_owned()
}

/// The value of an optional string, or `default`.
pub open spec fn or_default(o: Option<Seq<char>>, default: Seq<char>) -> Seq<char> {
    match o {
        Some(s) => s,
        None => default,
    }
}

/// The string of an optional string, or `default`.
pub(crate) fn unwrap_or_str(o: Option<String>, default: &str) -> (res: String)
    ensures
        res@ == or_default(opt_view(o), default@),
{
    match o {
        Some(s) => s,
        None => owned(default),
    }
}

/// Where a conversion writes before its output is put in place: the final
/// output's file name with `.recast-temp` appended (or `output.recast-temp`
/// when the path has no file name), in the same directory.
pub open spec fn spec_temp_output_path(final_output: Seq<char>) -> Seq<char> {
    spec_path_with_file_name(
        final_output,
        match spec_path_file_name(final_output) {
            Some(name) => name + ".recast-temp"@,
            None => "output.recast-temp"@,
        },
    )
}

/// The temporary output path, as [`spec_temp_output_path`] states.
pub fn temp_output_path(final_output: &str) -> (res: String)
    ensures
        res@ == spec_temp_output_path(final_output@),
{
    let name = match path_file_name(final_output) {
        Some(name) => {
            let mut n = name;
            push_str(&mut n, ".recast-temp");
            n
        },
        None => owned("output.recast-temp"),
    };
    path_with_file_name(final_output, name.as_str())
}

/// The highest numbered name that renaming tries.
pub open spec fn max_rename_index() -> nat {
    9999
}

/// The `index`-th renamed alternative of a path: `stem (index).ext` (or
/// `stem (index)` without an extension) in the same directory; a missing
/// stem is `output` and a missing parent is `.`.
pub open spec fn spec_rename_candidate(path: Seq<char>, index: nat) -> Seq<char> {
    let stem = or_default(spec_path_file_stem(path), "output"@);
    let ext = or_default(spec_path_extension(path), ""@);
    let parent = or_default(spec_path_parent(path), "."@);
    let name = if ext.len() == 0 {
        stem + " ("@ + decimal(index) + ")"@
    } else {
        stem + " ("@ + decimal(index) + ")."@ + ext
    };
    spec_path_join(parent, name)
}

/// The `index`-th renamed alternative of a path, as
/// [`spec_rename_candidate`] states.
pub fn rename_candidate(path: &str, index: u32) -> (res: String)
    ensures
        res@ == spec_rename_candidate(path@, index as nat),
{
    let stem = unwrap_or_str(path_file_stem(path), "output");
    let ext = unwrap_or_str(path_extension(path), "");
    let parent = unwrap_or_str(path_parent(path), ".");
    let number = decimal_string(index as u64);
    let mut name = stem;
    push_str(&mut name, " (");
    push_str(&mut name, number.as_str());
    if ext.as_str().is_empty() {
        push_str(&mut name, ")");
    } else {
        push_str(&mut name, ").");
        push_str(&mut name, ext.as_str());
    }
    path_join(parent.as_str(), name.as_str())
}

/// One step of resolving an output path against the files that exist.
#[derive(Debug)]
pub enum CollisionStep {
    /// Find out whether `candidate`, the `attempt`-th alternative, exists.
    Probe { attempt: u32, candidate: String },
    /// The path to write to, or why there is none.
    Resolved(Result<String, CoreError>),
}

/// The value of a [`CollisionStep`].
pub enum CollisionStepView {
    Probe { attempt: nat, candidate: Seq<char> },
    Resolved(Result<Seq<char>, CoreErrorView>),
}

impl View for CollisionStep {
    type V = CollisionStepView;

    open spec fn view(&self) -> CollisionStepView {
        match self {
            CollisionStep::Probe { attempt, candidate } => CollisionStepView::Probe {
                attempt: *attempt as nat,
                candidate: candidate@,
            },
            CollisionStep::Resolved(Ok(p)) => CollisionStepView::Resolved(Ok(p@)),
            CollisionStep::Resolved(Err(e)) => CollisionStepView::Resolved(Err(e@)),
        }
    }
}

/// The path tried at an attempt: the path itself first, then its renamed
/// alternatives.
pub open spec fn spec_attempt_path(path: Seq<char>, attempt: nat) -> Seq<char> {
    if attempt == 0 {
        path
    } else {
        spec_rename_candidate(path, attempt)
    }
}

/// What follows from learning whether the path of `attempt` exists: a free
/// path is taken; an existing path is overwritten, refused, or (renaming)
/// followed by the next alternative, up to the last one.
pub open spec fn spec_collision_step(path: Seq<char>, policy: OverwritePolicy, attempt: nat, exists: bool) -> CollisionStepView {
    if !exists {
        CollisionStepView::Resolved(Ok(spec_attempt_path(path, attempt)))
    } else if attempt == 0 && policy == OverwritePolicy::Overwrite {
        CollisionStepView::Resolved(Ok(path))
    } else if attempt == 0 && (policy == OverwritePolicy::Skip || policy == OverwritePolicy::Ask) {
        CollisionStepView::Resolved(Err(CoreErrorView::OutputExists))
    } else if attempt < max_rename_index() {
        CollisionStepView::Probe { attempt: attempt + 1, candidate: spec_rename_candidate(path, attempt + 1) }
    } else {
        CollisionStepView::Resolved(Err(CoreErrorView::OutputExists))
    }
}

/// Resolves where to write `path` under an overwrite policy, one probe at a
/// time: given whether the path of `attempt` exists (attempt 0 is `path`
/// itself), says which path to use, which error to report, or which
/// alternative to probe next, as [`spec_collision_step`] states.
pub fn resolve_output_collision(path: &str, policy: &OverwritePolicy, attempt: u32, exists: bool) -> (res: CollisionStep)
    ensures
        res@ == spec_collision_step(path@, *policy, attempt as nat, exists),
{
    if !exists {
        if attempt == 0 {
            CollisionStep::Resolved(Ok(owned(path)))
        } else {
            CollisionStep::Resolved(Ok(rename_candidate(path, attempt)))
        }
    } else if attempt == 0 && *policy == OverwritePolicy::Overwrite {
        CollisionStep::Resolved(Ok(owned(path)))
    } else if attempt == 0 && (*policy == OverwritePolicy::Skip || *policy == OverwritePolicy::Ask) {
        CollisionStep::Resolved(Err(CoreError::OutputExists))
    } else if attempt < 9999 {
        CollisionStep::Probe { attempt: attempt + 1, candidate: rename_candidate(path, attempt + 1) }
    } else {
        CollisionStep::Resolved(Err(CoreError::OutputExists))
    }
}

} // verus!
