//! What the command-line front end decides beyond planning: where the
//! bundled engines live, how a format is summarised, and which input a
//! document plan belongs to.
use vstd::prelude::*;
use crate::engines::Platform;
use crate::libreoffice::{find_exec, find_from};
use crate::models::{FormatDefinition, FormatView, MediaCategory};
use crate::paths::{or_default, path_file_stem, spec_path_file_stem, unwrap_or_str};
use crate::text::{chars_of, owned, push_str};

verus! {

/// The directory, relative to the working directory, that holds the bundled
/// engines for a platform.
pub open spec fn spec_engine_directory(platform: Platform) -> Seq<char> {
    match platform {
        Platform::Windows => "binaries/windows"@,
        Platform::MacOs => "binaries/macos"@,
        _ => "binaries/linux"@,
    }
}

/// The bundled-engine directory for a platform.
pub fn engine_directory(platform: Platform) -> (res: &'static str)
    ensures
        res@ == spec_engine_directory(platform),
{
    match platform {
        Platform::Windows => "binaries/windows",
        Platform::MacOs => "binaries/macos",
        _ => "binaries/linux",
    }
}

/// The name of a category as the format listing shows it.
pub open spec fn spec_category_label(c: MediaCategory) -> Seq<char> {
    match c {
        MediaCategory::Image => "Image"@,
        MediaCategory::Video => "Video"@,
        MediaCategory::Audio => "Audio"@,
        MediaCategory::Document => "Document"@,
    }
}

fn category_label(c: MediaCategory) -> (res: &'static str)
    ensures
        res@ == spec_category_label(c),
{
    match c {
        MediaCategory::Image => "Image",
        MediaCategory::Video => "Video",
        MediaCategory::Audio => "Audio",
        MediaCategory::Document => "Document",
    }
}

/// A format's default codecs joined by ` + `: the video codec, then the
/// audio codec, each when there is one.
pub open spec fn spec_codec_summary(f: FormatView) -> Seq<char> {
    match (f.default_video_codec, f.default_audio_codec) {
        (Some(v), Some(a)) => v + " + "@ + a,
        (Some(v), None) => v,
        (None, Some(a)) => a,
        (None, None) => Seq::empty(),
    }
}

/// One line of the format listing: `display name (Category) [codecs]`.
pub open spec fn spec_format_summary(f: FormatView) -> Seq<char> {
    f.display_name + " ("@ + spec_category_label(f.category) + ") ["@ + spec_codec_summary(f) + "]"@
}

/// One line of the format listing, as [`spec_format_summary`] states.
pub fn format_summary(format: &FormatDefinition) -> (res: String)
    ensures
        res@ == spec_format_summary(format@),
{
    let mut line = format.display_name.clone();
    push_str(&mut line, " (");
    push_str(&mut line, category_label(format.category));
    push_str(&mut line, ") [");
    match (&format.default_video_codec, &format.default_audio_codec) {
        (Some(v), Some(a)) => {
            push_str(&mut line, v.as_str());
            push_str(&mut line, " + ");
            push_str(&mut line, a.as_str());
        },
        (Some(v), None) => {
            push_str(&mut line, v.as_str());
        },
        (None, Some(a)) => {
            push_str(&mut line, a.as_str());
        },
        (None, None) => {},
    }
    push_str(&mut line, "]");
    line
}

/// Whether `text` contains `part`.
pub open spec fn contains_text(text: Seq<char>, part: Seq<char>) -> bool {
    find_from(text, part, 0) is Some
}

/// Whether an input's file stem (empty when it has none) occurs in a
/// plan's output path.
pub open spec fn stem_matches(input: Seq<char>, output: Seq<char>) -> bool {
    contains_text(output, or_default(spec_path_file_stem(input), ""@))
}

/// The index of the input that a document plan converts: the first input
/// whose file stem occurs in the plan's output path, else the first input.
pub fn document_input_index(inputs: &Vec<String>, output: &str) -> (res: usize)
    requires
        inputs@.len() > 0,
    ensures
        res < inputs@.len(),
        (exists|i: int| 0 <= i < inputs@.len() && stem_matches(#[trigger] inputs@[i]@, output@)) ==> {
            &&& stem_matches(inputs@[res as int]@, output@)
            &&& forall|j: int| 0 <= j < res ==> !stem_matches(#[trigger] inputs@[j]@, output@)
        },
        !(exists|i: int| 0 <= i < inputs@.len() && stem_matches(#[trigger] inputs@[i]@, output@)) ==> res == 0,
{
    let out = chars_of(output);
    let mut i: usize = 0;
    while i < inputs.len()
        invariant
            i <= inputs@.len(),
            out@ == output@,
            forall|j: int| 0 <= j < i ==> !stem_matches(#[trigger] inputs@[j]@, output@),
        decreases inputs@.len() - i,
    {
        let stem = unwrap_or_str(path_file_stem(inputs[i].as_str()), "");
        let pat = chars_of(stem.as_str());
        if find_exec(&out, &pat).is_some() {
            return i;
        }
        i = i + 1;
    }
    0
}

} // verus!
