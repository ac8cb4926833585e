//! Conversion requests and their validation.
use vstd::prelude::*;
use crate::errors::{CoreError, CoreErrorView};
use crate::formats::{detect_format, is_format_conversion_supported, spec_detect_format, spec_targets_for};
use crate::models::{ConversionRequest, OverwritePolicy};
use crate::paths::{or_default, path_extension, spec_path_extension, unwrap_or_str};
use crate::text::{chars_of, clean_name, lower, lowercase, opt_view, string_of, strings_view, trim, trim_exec};

verus! {

/// The value of a [`ConversionRequest`]; the free-form options are carried
/// through and do not take part in planning.
pub struct RequestView {
    pub input_paths: Seq<Seq<char>>,
    pub target_format: Seq<char>,
    pub preset_id: Option<Seq<char>>,
    pub output_directory: Option<Seq<char>>,
    pub overwrite_policy: OverwritePolicy,
}

impl View for ConversionRequest {
    type V = RequestView;

    open spec fn view(&self) -> RequestView {
        RequestView {
            input_paths: strings_view(self.input_paths@),
            target_format: self.target_format@,
            preset_id: opt_view(self.preset_id),
            output_directory: opt_view(self.output_directory),
            overwrite_policy: self.overwrite_policy,
        }
    }
}

/// The extension of an input path as the catalogue looks it up: the path's
/// extension (empty when it has none), ASCII lower-cased.
pub open spec fn input_extension(path: Seq<char>) -> Seq<char> {
    lower(or_default(spec_path_extension(path), ""@))
}

/// The extension of an input path, as [`input_extension`] states.
pub fn input_extension_exec(path: &str) -> (res: String)
    ensures
        res@ == input_extension(path@),
{
    let ext = unwrap_or_str(path_extension(path), "");
    let chars = chars_of(ext.as_str());
    let low = lowercase(&chars);
    string_of(&low)
}

/// Why one input cannot be converted to the target: its extension names no
/// format, or the target is not offered for that format.
pub open spec fn spec_input_error(input: Seq<char>, target: Seq<char>) -> Option<CoreErrorView> {
    match spec_detect_format(input_extension(input)) {
        None => Some(CoreErrorView::UnsupportedInput),
        Some(f) => if spec_targets_for(f.id).contains(clean_name(target)) {
            None
        } else {
            Some(CoreErrorView::UnsupportedOutput)
        },
    }
}

/// The error of the first input that cannot be converted.
pub open spec fn first_input_error(inputs: Seq<Seq<char>>, target: Seq<char>) -> Option<CoreErrorView>
    decreases inputs.len(),
{
    if inputs.len() == 0 {
        None
    } else {
        match spec_input_error(inputs[0], target) {
            Some(e) => Some(e),
            None => first_input_error(inputs.drop_first(), target),
        }
    }
}

/// Why a request cannot be planned: no inputs, a blank target, or the first
/// input that cannot be converted to the target.
pub open spec fn spec_validate(r: RequestView) -> Option<CoreErrorView> {
    if r.input_paths.len() == 0 {
        Some(CoreErrorView::UnsupportedInput)
    } else if trim(r.target_format).len() == 0 {
        Some(CoreErrorView::UnsupportedOutput)
    } else {
        first_input_error(r.input_paths, r.target_format)
    }
}

proof fn lemma_first_input_error_skip(inputs: Seq<Seq<char>>, target: Seq<char>, i: int)
    requires
        0 <= i <= inputs.len(),
        forall|j: int| 0 <= j < i ==> spec_input_error(#[trigger] inputs[j], target) is None,
    ensures
        first_input_error(inputs, target) == first_input_error(inputs.skip(i), target),
    decreases i,
{
    if i > 0 {
        assert(spec_input_error(inputs[0], target) is None);
        lemma_first_input_error_skip(inputs.drop_first(), target, i - 1);
        assert(inputs.drop_first().skip(i - 1) =~= inputs.skip(i));
    } else {
        assert(inputs.skip(0) =~= inputs);
    }
}

/// Checks a request before planning, as [`spec_validate`] states: `Ok` when
/// it has inputs, a non-blank target, and every input's format offers the
/// target; otherwise the error of the first failing check.
pub fn validate_request(request: &ConversionRequest) -> (res: Result<(), CoreError>)
    ensures
        match res {
            Ok(()) => spec_validate(request@) is None,
            Err(e) => spec_validate(request@) == Some(e@),
        },
{
    if request.input_paths.len() == 0 {
        return Err(CoreError::UnsupportedInput);
    }
    let target = chars_of(request.target_format.as_str());
    let trimmed = trim_exec(&target);
    if trimmed.len() == 0 {
        return Err(CoreError::UnsupportedOutput);
    }
    let ghost inputs = strings_view(request.input_paths@);
    let mut i: usize = 0;
    while i < request.input_paths.len()
        invariant
            inputs == strings_view(request.input_paths@),
            inputs.len() > 0,
            trim(request.target_format@).len() > 0,
            i <= inputs.len(),
            forall|j: int| 0 <= j < i ==> spec_input_error(#[trigger] inputs[j], request.target_format@) is None,
        decreases inputs.len() - i,
    {
        let input = request.input_paths[i].as_str();
        assert(input@ == inputs[i as int]);
        let ext = input_extension_exec(input);
        let source = match detect_format(ext.as_str()) {
            Some(f) => f,
            None => {
                proof {
                    lemma_first_input_error_skip(inputs, request.target_format@, i as int);
                    assert(inputs.skip(i as int)[0] == inputs[i as int]);
                }
                return Err(CoreError::UnsupportedInput);
            },
        };
        if !is_format_conversion_supported(source.id.as_str(), request.target_format.as_str()) {
            proof {
                lemma_first_input_error_skip(inputs, request.target_format@, i as int);
                assert(inputs.skip(i as int)[0] == inputs[i as int]);
            }
            return Err(CoreError::UnsupportedOutput);
        }
        i = i + 1;
    }
    proof {
        lemma_first_input_error_skip(inputs, request.target_format@, i as int);
        assert(inputs.skip(i as int).len() == 0);
    }
    Ok(())
}

} // verus!
