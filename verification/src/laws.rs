//! Properties of the library as a whole, stated over the spec functions that
//! the executable functions' contracts use, and proved.
use vstd::prelude::*;
use crate::catalog::{audio_catalog, codec_catalog, document_catalog, format_catalog, image_catalog, video_catalog};
use crate::formats::{
    accepted_ids, category_accepts, document_family, first_with_extension, spec_detect_format, epub_family, is_presentation_name, is_sheet_name,
    is_text_name, presentation_family, sheet_family, text_family, first_codec_with_id, first_with_id, spec_codec_part,
    spec_document_targets, spec_ffmpeg_args, spec_format_by_id, spec_source_format, spec_targets_for,
    spec_targets_for_category, without,
};
use crate::desktop::{DesktopStepView, spec_desktop_step};
use crate::document::spec_expected_output;
use crate::engines::EngineSetView;
use crate::errors::CoreErrorView;
use crate::execution::{
    ObsView, OutcomeView, StepView, obs_at, spec_output_dir, spec_output_name, spec_build_plan, spec_collision_run, spec_document_outcome,
    spec_plan_from, spec_plan_input,
};
use crate::libreoffice::{
    spec_filter_for, dot_index, find_from, forward_slashes, is_version_char, occurs_at, part_numbers, run_len, spec_file_uri,
    spec_libreoffice_args, spec_parse_version, spec_supports_markdown, strip_prefix_repeated, version_candidate,
    version_numbers,
};
use crate::numbers::{all_digits, decimal, digit_char, digit_value, digits_value, is_digit, parse_unsigned};
use crate::models::{CodecKind, CodecView, FormatView, MediaCategory, OverwritePolicy, PlanView};
use crate::paths::{CollisionStepView, max_rename_index, or_default, spec_attempt_path, spec_collision_step, spec_path_file_stem, spec_path_join, spec_temp_output_path};
use crate::requests::{RequestView, first_input_error, spec_input_error, spec_validate};
use crate::text::{strs_view, clean_name, has_prefix, is_white, strip_leading, trim, trim_end, trim_start};

verus! {

proof fn lemma_accepted_ids(cat: Seq<FormatView>, source: MediaCategory, id: Seq<char>)
    ensures
        accepted_ids(cat, source).contains(id) <==> exists|i: int|
            0 <= i < cat.len() && #[trigger] cat[i].id == id && category_accepts(source, cat[i].category),
    decreases cat.len(),
{
    if cat.len() > 0 {
        let init = cat.drop_last();
        lemma_accepted_ids(init, source, id);
        let rest = accepted_ids(init, source);
        let last = cat.last();
        if accepted_ids(cat, source).contains(id) {
            if rest.contains(id) {
                let i = choose|i: int| 0 <= i < init.len() && #[trigger] init[i].id == id && category_accepts(source, init[i].category);
                assert(cat[i] == init[i]);
            } else {
                let k = choose|k: int| 0 <= k < accepted_ids(cat, source).len() && accepted_ids(cat, source)[k] == id;
                assert(category_accepts(source, last.category));
                assert(k == rest.len());
                assert(cat[cat.len() - 1].id == id);
            }
        }
        if exists|i: int| 0 <= i < cat.len() && #[trigger] cat[i].id == id && category_accepts(source, cat[i].category) {
            let i = choose|i: int| 0 <= i < cat.len() && #[trigger] cat[i].id == id && category_accepts(source, cat[i].category);
            if i == cat.len() - 1 {
                assert(accepted_ids(cat, source) == rest.push(last.id));
                assert(accepted_ids(cat, source)[rest.len() as int] == id);
            } else {
                assert(init[i] == cat[i]);
                assert(rest.contains(id));
                let k = choose|k: int| 0 <= k < rest.len() && rest[k] == id;
                assert(accepted_ids(cat, source)[k] == id);
            }
        }
    }
}

/// The targets of a source category are exactly the ids of the catalogue
/// formats whose category it accepts: every image format for images, every
/// audio format for audio, every video and every audio format for video
/// (video-to-audio extraction), every document format for documents.
pub proof fn category_targets_are_the_accepted_formats(source: MediaCategory, id: Seq<char>)
    ensures
        spec_targets_for_category(source).contains(id) <==> exists|i: int|
            0 <= i < format_catalog().len() && #[trigger] format_catalog()[i].id == id
                && category_accepts(source, format_catalog()[i].category),
{
    lemma_accepted_ids(format_catalog(), source, id);
}

proof fn lemma_without(list: Seq<Seq<char>>, x: Seq<char>, t: Seq<char>)
    ensures
        without(list, x).contains(t) <==> list.contains(t) && t != x,
    decreases list.len(),
{
    if list.len() > 0 {
        let init = list.drop_last();
        lemma_without(init, x, t);
        let rest = without(init, x);
        if without(list, x).contains(t) {
            let k = choose|k: int| 0 <= k < without(list, x).len() && without(list, x)[k] == t;
            if k < rest.len() {
                assert(rest[k] == t);
                let j = choose|j: int| 0 <= j < init.len() && init[j] == t;
                assert(list[j] == t);
            } else {
                assert(list[list.len() - 1] == t);
            }
        }
        if list.contains(t) && t != x {
            let j = choose|j: int| 0 <= j < list.len() && list[j] == t;
            if j == list.len() - 1 {
                assert(without(list, x)[rest.len() as int] == t);
            } else {
                assert(init[j] == t);
                assert(rest.contains(t));
                let k = choose|k: int| 0 <= k < rest.len() && rest[k] == t;
                assert(without(list, x)[k] == t);
            }
        }
    }
}

/// Document conversions stay within their family: every target of a
/// document source belongs to the source's family (text documents and PDF,
/// spreadsheets, or presentations), and the source itself is never among
/// them.
pub proof fn document_targets_stay_in_family(source: Seq<char>, target: Seq<char>)
    ensures
        spec_document_targets(source).contains(target) <==>
            document_family(clean_name(source)).contains(target) && target != clean_name(source),
{
    lemma_without(document_family(clean_name(source)), clean_name(source), target);
}

/// A source is never offered its own format as a target (a document's
/// format compared by its cleaned name).
pub proof fn targets_exclude_the_source_format(source: Seq<char>)
    ensures
        spec_source_format(source) matches Some(f) ==> !spec_targets_for(source).contains(
            if f.category == MediaCategory::Document { clean_name(f.id) } else { f.id },
        ),
{
    match spec_source_format(source) {
        None => {},
        Some(f) => {
            if f.category == MediaCategory::Document {
                lemma_without(document_family(clean_name(f.id)), clean_name(f.id), clean_name(f.id));
            } else {
                lemma_without(spec_targets_for_category(f.category), f.id, f.id);
            }
        },
    }
}

proof fn lemma_strip_is_suffix(s: Seq<char>, p: Seq<char>)
    ensures
        strip_prefix_repeated(s, p).len() <= s.len(),
        strip_prefix_repeated(s, p) == s.skip(s.len() - strip_prefix_repeated(s, p).len()),
    decreases s.len(),
{
    if p.len() > 0 && has_prefix(s, p) {
        let n = p.len() as int;
        lemma_strip_is_suffix(s.skip(n), p);
        let r = strip_prefix_repeated(s.skip(n), p);
        assert(s.skip(n).skip(s.skip(n).len() - r.len()) =~= s.skip(s.len() - r.len()));
    } else {
        assert(s.skip(0) =~= s);
    }
}

/// The profile URI handed to LibreOffice is well formed for every path: it
/// begins with `file:///` and holds no backslash.
pub proof fn file_uri_is_well_formed(path: Seq<char>)
    ensures
        has_prefix(spec_file_uri(path), "file:///"@),
        !spec_file_uri(path).contains('\\'),
{
    reveal_strlit("file://");
    reveal_strlit("file:///");
    let f = forward_slashes(path);
    let t = strip_prefix_repeated(f, "//?/"@);
    lemma_strip_is_suffix(f, "//?/"@);
    let u = spec_file_uri(path);
    assert forall|i: int| 0 <= i < t.len() implies t[i] != '\\' by {
        assert(t[i] == f[f.len() - t.len() + i]);
    }
    if t.len() > 0 && t[0] == '/' {
        assert(u == "file://"@ + t);
        assert(u.subrange(0, 8) =~= "file:///"@);
    } else {
        assert(u == "file:///"@ + t);
        assert(u.subrange(0, 8) =~= "file:///"@);
    }
    if u.contains('\\') {
        let k = choose|k: int| 0 <= k < u.len() && u[k] == '\\';
        if t.len() > 0 && t[0] == '/' {
            assert(k >= 7);
            assert(u[k] == t[k - 7]);
        } else {
            assert(k >= 8);
            assert(u[k] == t[k - 8]);
        }
    }
}

proof fn lemma_collision_run(path: Seq<char>, policy: OverwritePolicy, answers: Seq<bool>, attempt: nat)
    requires
        policy != OverwritePolicy::Overwrite || attempt > 0,
    ensures
        spec_collision_run(path, policy, answers, attempt) matches CollisionStepView::Resolved(Ok(p)) ==> exists|k: int|
            attempt <= k < answers.len() && !answers[k] && p == spec_attempt_path(path, k as nat)
                && forall|j: int| attempt <= j < k ==> #[trigger] answers[j],
    decreases max_rename_index() + 1 - attempt,
{
    if attempt < answers.len() && attempt <= max_rename_index() && answers[attempt as int]
        && attempt < max_rename_index() && !(attempt == 0 && (policy == OverwritePolicy::Skip || policy == OverwritePolicy::Ask)) {
        lemma_collision_run(path, policy, answers, attempt + 1);
        match spec_collision_run(path, policy, answers, attempt) {
            CollisionStepView::Resolved(Ok(p)) => {
                let k = choose|k: int| attempt + 1 <= k < answers.len() && !answers[k] && p == spec_attempt_path(path, k as nat)
                    && forall|j: int| attempt + 1 <= j < k ==> #[trigger] answers[j];
                assert forall|j: int| attempt <= j < k implies #[trigger] answers[j] by {
                    if j > attempt {
                        assert(attempt + 1 <= j < k);
                    }
                }
            },
            _ => {},
        }
    } else if attempt < answers.len() && attempt <= max_rename_index() && !answers[attempt as int] {
        assert(forall|j: int| attempt <= j < attempt ==> #[trigger] answers[j]);
    }
}

/// How an output path is resolved against the files that exist, whatever
/// the answers: `Overwrite` always writes to the requested path; `Skip` and
/// `Ask` refuse a requested path that exists; and no policy but `Overwrite`
/// ever writes to a path reported as existing: renaming takes the first
/// alternative reported free.
pub proof fn collision_resolution_law(path: Seq<char>, policy: OverwritePolicy, answers: Seq<bool>)
    ensures
        policy == OverwritePolicy::Overwrite && answers.len() > 0 ==>
            spec_collision_run(path, policy, answers, 0) == CollisionStepView::Resolved(Ok::<Seq<char>, CoreErrorView>(path)),
        (policy == OverwritePolicy::Skip || policy == OverwritePolicy::Ask) && answers.len() > 0 && answers[0] ==>
            spec_collision_run(path, policy, answers, 0) == CollisionStepView::Resolved(Err::<Seq<char>, CoreErrorView>(CoreErrorView::OutputExists)),
        policy != OverwritePolicy::Overwrite ==> (spec_collision_run(path, policy, answers, 0) matches CollisionStepView::Resolved(Ok(p))
            ==> exists|k: int| 0 <= k < answers.len() && !answers[k] && p == spec_attempt_path(path, k as nat)
                && forall|j: int| 0 <= j < k ==> #[trigger] answers[j]),
{
    if policy != OverwritePolicy::Overwrite {
        lemma_collision_run(path, policy, answers, 0);
    }
}

/// A document needs LibreOffice: without it the document is refused with
/// `EngineNotFound`. Markdown (as source or target) needs LibreOffice 26.2
/// or newer: with an older version found, the job is refused, while
/// documents without Markdown are planned whatever the version.
pub proof fn document_engine_and_markdown_law(
    r: RequestView,
    engines: EngineSetView,
    input: Seq<char>,
    obs: ObsView,
    source_id: Seq<char>,
    dir: Seq<char>,
    final_output: Seq<char>,
)
    ensures
        engines.libreoffice is None ==> spec_document_outcome(r, engines, input, obs, source_id, dir, final_output)
            matches OutcomeView::Failed(CoreErrorView::EngineNotFound(_)),
        engines.libreoffice is Some && (source_id == "md"@ || r.target_format == "md"@)
            && (obs.version matches Some(Some(v)) && !spec_supports_markdown(v.major, v.minor)) ==>
            spec_document_outcome(r, engines, input, obs, source_id, dir, final_output)
                matches OutcomeView::Failed(CoreErrorView::ProcessFailed(_)),
        engines.libreoffice is Some && source_id != "md"@ && r.target_format != "md"@ ==>
            spec_document_outcome(r, engines, input, obs, source_id, dir, final_output) is Planned,
{
}

proof fn lemma_plan_from(r: RequestView, engines: EngineSetView, observations: Seq<ObsView>, i: nat, done: Seq<PlanView>)
    requires
        i <= r.input_paths.len(),
    ensures
        spec_plan_from(r, engines, observations, i, done) matches StepView::Done(Ok(ps)) ==> {
            &&& ps.len() == done.len() + r.input_paths.len() - i
            &&& ps.subrange(0, done.len() as int) == done
            &&& forall|j: int| i <= j < r.input_paths.len() ==> spec_plan_input(
                r, engines, #[trigger] r.input_paths[j], obs_at(observations, j),
            ) == OutcomeView::Planned(ps[done.len() + j - i])
        },
    decreases r.input_paths.len() - i,
{
    if i < r.input_paths.len() {
        match spec_plan_input(r, engines, r.input_paths[i as int], obs_at(observations, i as int)) {
            OutcomeView::Planned(p) => {
                lemma_plan_from(r, engines, observations, i + 1, done.push(p));
                match spec_plan_from(r, engines, observations, i + 1, done.push(p)) {
                    StepView::Done(Ok(ps)) => {
                        assert(ps.subrange(0, done.len() as int) =~= ps.subrange(0, done.len() + 1int).subrange(0, done.len() as int));
                        assert(ps[done.len() as int] == done.push(p)[done.len() as int]);
                    },
                    _ => {},
                }
            },
            _ => {},
        }
    } else {
        match spec_plan_from(r, engines, observations, i, done) {
            StepView::Done(Ok(ps)) => {
                assert(ps == done);
                assert(ps.subrange(0, done.len() as int) =~= done);
            },
            _ => {},
        }
    }
}

/// A finished plan has one plan per input, in input order: the plan at `j`
/// is the plan of the `j`-th input. A request that fails validation is
/// refused with the validation error.
pub proof fn plan_follows_the_inputs(r: RequestView, engines: EngineSetView, observations: Seq<ObsView>)
    ensures
        spec_validate(r) matches Some(e) ==> spec_build_plan(r, engines, observations) == StepView::Done(Err::<Seq<PlanView>, CoreErrorView>(e)),
        spec_build_plan(r, engines, observations) matches StepView::Done(Ok(ps)) ==> {
            &&& ps.len() == r.input_paths.len()
            &&& forall|j: int| 0 <= j < r.input_paths.len() ==> spec_plan_input(
                r, engines, #[trigger] r.input_paths[j], obs_at(observations, j),
            ) == OutcomeView::Planned(ps[j])
        },
{
    lemma_plan_from(r, engines, observations, 0, Seq::empty());
}

proof fn lemma_codec_found(cat: Seq<CodecView>, id: Seq<char>, j: int)
    requires
        0 <= j < cat.len(),
        cat[j].id == id,
    ensures
        first_codec_with_id(cat, id) is Some,
    decreases j,
{
    if cat[0].id != id {
        lemma_codec_found(cat.drop_first(), id, j - 1);
    }
}

proof fn image_codecs_known()
    ensures
        forall|i: int| 0 <= i < image_catalog().len() ==> spec_codec_part(#[trigger] image_catalog()[i]) is Some,
{
    let cat = image_catalog();
    let codecs = codec_catalog();
    assert(cat.len() == 7);
    assert forall|i: int| 0 <= i < cat.len() implies spec_codec_part(#[trigger] cat[i]) is Some by {
        if i == 0 {
            lemma_codec_found(codecs, "mjpeg"@, 0);
        } else if i == 1 {
            lemma_codec_found(codecs, "png"@, 1);
        } else if i == 2 {
            lemma_codec_found(codecs, "webp"@, 2);
        } else if i == 3 {
            lemma_codec_found(codecs, "bmp"@, 3);
        } else if i == 4 {
            lemma_codec_found(codecs, "tiff"@, 4);
        } else if i == 5 {
            lemma_codec_found(codecs, "gif"@, 5);
        } else if i == 6 {
            lemma_codec_found(codecs, "av1"@, 6);
        }
    }
}

proof fn audio_codecs_known()
    ensures
        forall|i: int| 0 <= i < audio_catalog().len() ==> spec_codec_part(#[trigger] audio_catalog()[i]) is Some,
{
    let cat = audio_catalog();
    let codecs = codec_catalog();
    assert(cat.len() == 10);
    assert forall|i: int| 0 <= i < cat.len() implies spec_codec_part(#[trigger] cat[i]) is Some by {
        if i == 0 {
            lemma_codec_found(codecs, "mp3"@, 12);
        } else if i == 1 {
            lemma_codec_found(codecs, "pcm-s16le"@, 13);
        } else if i == 2 {
            lemma_codec_found(codecs, "flac"@, 15);
        } else if i == 3 {
            lemma_codec_found(codecs, "aac"@, 16);
        } else if i == 4 {
            lemma_codec_found(codecs, "aac"@, 16);
        } else if i == 5 {
            lemma_codec_found(codecs, "vorbis"@, 17);
        } else if i == 6 {
            lemma_codec_found(codecs, "opus"@, 18);
        } else if i == 7 {
            lemma_codec_found(codecs, "pcm-s16be"@, 14);
        } else if i == 8 {
            lemma_codec_found(codecs, "alac"@, 19);
        } else if i == 9 {
            lemma_codec_found(codecs, "ac3"@, 20);
        }
    }
}

proof fn video_codecs_known()
    ensures
        forall|i: int| 0 <= i < video_catalog().len() ==> spec_codec_part(#[trigger] video_catalog()[i]) is Some,
{
    let cat = video_catalog();
    let codecs = codec_catalog();
    assert(cat.len() == 9);
    assert forall|i: int| 0 <= i < cat.len() implies spec_codec_part(#[trigger] cat[i]) is Some by {
        if i == 0 {
            lemma_codec_found(codecs, "h264"@, 7);
            lemma_codec_found(codecs, "aac"@, 16);
        } else if i == 1 {
            lemma_codec_found(codecs, "h264"@, 7);
            lemma_codec_found(codecs, "aac"@, 16);
        } else if i == 2 {
            lemma_codec_found(codecs, "vp9"@, 8);
            lemma_codec_found(codecs, "opus"@, 18);
        } else if i == 3 {
            lemma_codec_found(codecs, "h264"@, 7);
            lemma_codec_found(codecs, "aac"@, 16);
        } else if i == 4 {
            lemma_codec_found(codecs, "mpeg4"@, 9);
            lemma_codec_found(codecs, "mp3"@, 12);
        } else if i == 5 {
            lemma_codec_found(codecs, "h264"@, 7);
            lemma_codec_found(codecs, "aac"@, 16);
        } else if i == 6 {
            lemma_codec_found(codecs, "mpeg2"@, 10);
            lemma_codec_found(codecs, "mp2"@, 21);
        } else if i == 7 {
            lemma_codec_found(codecs, "theora"@, 11);
            lemma_codec_found(codecs, "vorbis"@, 17);
        } else if i == 8 {
            lemma_codec_found(codecs, "mpeg2"@, 10);
            lemma_codec_found(codecs, "mp2"@, 21);
        }
    }
}

proof fn documents_are_documents()
    ensures
        forall|i: int| 0 <= i < document_catalog().len() ==> (#[trigger] document_catalog()[i]).category == MediaCategory::Document,
{
    let cat = document_catalog();
    assert(cat.len() == 17);
    assert forall|i: int| 0 <= i < cat.len() implies (#[trigger] cat[i]).category == MediaCategory::Document by {
        if i == 0 {
            assert(cat[0].category == MediaCategory::Document);
        } else if i == 1 {
            assert(cat[1].category == MediaCategory::Document);
        } else if i == 2 {
            assert(cat[2].category == MediaCategory::Document);
        } else if i == 3 {
            assert(cat[3].category == MediaCategory::Document);
        } else if i == 4 {
            assert(cat[4].category == MediaCategory::Document);
        } else if i == 5 {
            assert(cat[5].category == MediaCategory::Document);
        } else if i == 6 {
            assert(cat[6].category == MediaCategory::Document);
        } else if i == 7 {
            assert(cat[7].category == MediaCategory::Document);
        } else if i == 8 {
            assert(cat[8].category == MediaCategory::Document);
        } else if i == 9 {
            assert(cat[9].category == MediaCategory::Document);
        } else if i == 10 {
            assert(cat[10].category == MediaCategory::Document);
        } else if i == 11 {
            assert(cat[11].category == MediaCategory::Document);
        } else if i == 12 {
            assert(cat[12].category == MediaCategory::Document);
        } else if i == 13 {
            assert(cat[13].category == MediaCategory::Document);
        } else if i == 14 {
            assert(cat[14].category == MediaCategory::Document);
        } else if i == 15 {
            assert(cat[15].category == MediaCategory::Document);
        } else if i == 16 {
            assert(cat[16].category == MediaCategory::Document);
        }
    }
}

proof fn lemma_first_with_id_found(cat: Seq<FormatView>, id: Seq<char>, i: int)
    requires
        0 <= i < cat.len(),
        cat[i].id == id,
    ensures
        exists|m: int| 0 <= m <= i && first_with_id(cat, id) == Some(#[trigger] cat[m]),
    decreases i,
{
    if cat[0].id == id {
        assert(first_with_id(cat, id) == Some(cat[0]));
    } else {
        lemma_first_with_id_found(cat.drop_first(), id, i - 1);
        let m = choose|m: int| 0 <= m <= i - 1 && first_with_id(cat.drop_first(), id) == Some(#[trigger] cat.drop_first()[m]);
        assert(cat.drop_first()[m] == cat[m + 1]);
    }
}

proof fn lemma_catalog_parts()
    ensures
        format_catalog().len() == 43,
        forall|i: int| 0 <= i < 26 ==> spec_codec_part(#[trigger] format_catalog()[i]) is Some,
        forall|i: int| 26 <= i < 43 ==> (#[trigger] format_catalog()[i]).category == MediaCategory::Document,
{
    image_codecs_known();
    audio_codecs_known();
    video_codecs_known();
    documents_are_documents();
    let a = image_catalog();
    let b = audio_catalog();
    let c = video_catalog();
    let d = document_catalog();
    assert(a.len() == 7 && b.len() == 10 && c.len() == 9 && d.len() == 17);
    let cat = format_catalog();
    assert forall|i: int| 0 <= i < 26 implies spec_codec_part(#[trigger] cat[i]) is Some by {
        if i < 7 {
            assert(cat[i] == a[i]);
        } else if i < 17 {
            assert(cat[i] == b[i - 7]);
        } else {
            assert(cat[i] == c[i - 17]);
        }
    }
    assert forall|i: int| 26 <= i < 43 implies (#[trigger] cat[i]).category == MediaCategory::Document by {
        assert(cat[i] == d[i - 26]);
    }
}

/// Formats are modelled apart from their codecs, and every image, audio and
/// video format of the catalogue names codecs that the codec catalogue
/// holds, so the codec arguments of each such format exist.
pub proof fn catalog_formats_reference_known_codecs()
    ensures
        forall|i: int| 0 <= i < format_catalog().len() && (#[trigger] format_catalog()[i]).category != MediaCategory::Document
            ==> spec_codec_part(format_catalog()[i]) is Some,
{
    lemma_catalog_parts();
}

/// FFmpeg arguments exist for exactly the conversions that are offered: for
/// a media source category, every target format it accepts has a mapping,
/// and no other target has one; documents have none.
pub proof fn ffmpeg_mapping_exists_for_every_offered_target(source: MediaCategory, target: Seq<char>)
    ensures
        spec_ffmpeg_args(source, target) is Some <==> source != MediaCategory::Document
            && spec_targets_for_category(source).contains(target),
{
    if source != MediaCategory::Document && spec_targets_for_category(source).contains(target) {
        lemma_catalog_parts();
        let cat = format_catalog();
        category_targets_are_the_accepted_formats(source, target);
        let i = choose|i: int| 0 <= i < cat.len() && #[trigger] cat[i].id == target && category_accepts(source, cat[i].category);
        assert(cat[i].category != MediaCategory::Document);
        assert(i < 26);
        lemma_first_with_id_found(cat, target, i);
        let m = choose|m: int| 0 <= m <= i && first_with_id(cat, target) == Some(#[trigger] cat[m]);
        assert(spec_codec_part(cat[m]) is Some);
        assert(spec_format_by_id(target) == Some(cat[m]));
    }
}

/// The shape of every FFmpeg mapping: an audio target drops the video
/// stream first (`-vn`, which makes video-to-audio extraction work), an
/// image target writes one frame, and when the target format names a
/// container the mapping ends by naming it (`-f` and the container), apart
/// from the codec arguments.
pub proof fn ffmpeg_mapping_shape(source: MediaCategory, target: Seq<char>)
    ensures
        spec_ffmpeg_args(source, target) matches Some(a) ==> (spec_format_by_id(target) matches Some(f) && {
            &&& f.category == MediaCategory::Audio ==> a.len() > 0 && a[0] == "-vn"@
            &&& f.category == MediaCategory::Image ==> a.len() >= 2 && a[0] == "-frames:v"@ && a[1] == "1"@
            &&& f.ffmpeg_format matches Some(c) ==> a.len() >= 2 && a[a.len() - 2] == "-f"@ && a[a.len() - 1] == c
        }),
{
}

proof fn lemma_decimal_digits(n: nat)
    ensures
        decimal(n).len() > 0,
        all_digits(decimal(n)),
        digits_value(decimal(n)) == n,
        decimal(n)[0] != '+',
    decreases n,
{
    let d = decimal(n);
    if n < 10 {
        assert(digit_value(digit_char(n)) == n);
        assert(d.drop_last() =~= Seq::<char>::empty());
        assert(d.last() == digit_char(n));
        assert(digits_value(d) == digits_value(d.drop_last()) * 10 + digit_value(d.last()));
        assert(is_digit(d[0]));
    } else {
        lemma_decimal_digits(n / 10);
        let k = (n % 10) as nat;
        let head = decimal(n / 10);
        assert(d == head.push(digit_char(k)));
        assert(d.drop_last() =~= head);
        assert(digit_value(digit_char(k)) == k);
        assert forall|i: int| 0 <= i < d.len() implies is_digit(#[trigger] d[i]) by {
            if i < head.len() {
                assert(d[i] == head[i]);
            }
        }
        assert(d[0] == head[0]);
        assert(d.last() == digit_char(k));
        assert(digits_value(d) == digits_value(head) * 10 + digit_value(digit_char(k)));
        assert(n == (n / 10) * 10 + k);
    }
}

/// Writing a number in decimal and reading it back gives the number: the
/// digits that `decimal_string` writes for `n` are read as `n` by every
/// unsigned parse whose largest value is at least `n`.
pub proof fn decimal_round_trip(n: nat, max: int)
    requires
        n <= max,
    ensures
        parse_unsigned(decimal(n), max) == Some(n as int),
{
    lemma_decimal_digits(n);
}

/// Every LibreOffice command line runs headless, and one given a profile
/// directory runs in that isolated profile: its second argument is
/// `-env:UserInstallation=` followed by the profile's `file:///` URI, which
/// holds no backslash. It ends with the output directory and the input.
pub proof fn libreoffice_runs_headless_in_its_profile(
    input: Seq<char>,
    outdir: Seq<char>,
    source: Seq<char>,
    target: Seq<char>,
    profile: Option<Seq<char>>,
)
    ensures
        ({
            let a = spec_libreoffice_args(input, outdir, source, target, profile);
            &&& a.len() >= 6
            &&& a[0] == "--headless"@
            &&& a[a.len() - 2] == outdir && a[a.len() - 1] == input
            &&& profile matches Some(p) ==> {
                &&& a[1] == "-env:UserInstallation="@ + spec_file_uri(p)
                &&& has_prefix(a[1], "-env:UserInstallation=file:///"@)
                &&& !a[1].skip("-env:UserInstallation="@.len() as int).contains('\\')
            }
        }),
{
    let a = spec_libreoffice_args(input, outdir, source, target, profile);
    match profile {
        Some(p) => {
            file_uri_is_well_formed(p);
            reveal_strlit("-env:UserInstallation=");
            reveal_strlit("-env:UserInstallation=file:///");
            reveal_strlit("file:///");
            let head = "-env:UserInstallation="@;
            let u = spec_file_uri(p);
            let arg = head + u;
            assert(a[1] == arg);
            assert(arg.subrange(0, 30) =~= head + u.subrange(0, 8));
            assert(arg.subrange(0, 30) =~= "-env:UserInstallation=file:///"@);
            assert(arg.skip(head.len() as int) =~= u);
        },
        None => {},
    }
}

proof fn lemma_dot_index_after_digits(x: Seq<char>, y: Seq<char>)
    requires
        all_digits(x),
    ensures
        dot_index(x + y) == x.len() + dot_index(y),
    decreases x.len(),
{
    if x.len() == 0 {
        assert(x + y =~= y);
    } else {
        assert(is_digit(x[0]));
        assert((x + y)[0] == x[0]);
        assert((x + y).drop_first() =~= x.drop_first() + y);
        assert(all_digits(x.drop_first())) by {
            assert forall|i: int| 0 <= i < x.drop_first().len() implies is_digit(#[trigger] x.drop_first()[i]) by {
                assert(x.drop_first()[i] == x[i + 1]);
            }
        }
        lemma_dot_index_after_digits(x.drop_first(), y);
    }
}

proof fn lemma_run_len_all(s: Seq<char>)
    requires
        forall|i: int| 0 <= i < s.len() ==> is_version_char(#[trigger] s[i]),
    ensures
        run_len(s) == s.len(),
    decreases s.len(),
{
    if s.len() > 0 {
        assert(is_version_char(s[0]));
        assert forall|i: int| 0 <= i < s.drop_first().len() implies is_version_char(#[trigger] s.drop_first()[i]) by {
            assert(s.drop_first()[i] == s[i + 1]);
        }
        lemma_run_len_all(s.drop_first());
    }
}

/// The digits of one number, read as a run's parts, give that number.
proof fn lemma_part_numbers_one(n: u32)
    ensures
        part_numbers(decimal(n as nat)) == seq![n],
{
    let d = decimal(n as nat);
    lemma_decimal_digits(n as nat);
    lemma_dot_index_after_digits(d, Seq::empty());
    assert(d + Seq::<char>::empty() =~= d);
    assert(dot_index(Seq::<char>::empty()) == 0);
    assert(d.take(d.len() as int) =~= d);
}

/// A number followed by a dot gives that number, then the numbers after the dot.
proof fn lemma_part_numbers_dot(n: u32, rest: Seq<char>)
    ensures
        part_numbers(decimal(n as nat) + "."@ + rest) == seq![n] + part_numbers(rest),
{
    reveal_strlit(".");
    let d = decimal(n as nat);
    let r = d + "."@ + rest;
    lemma_decimal_digits(n as nat);
    lemma_dot_index_after_digits(d, "."@ + rest);
    assert(d + ("."@ + rest) =~= r);
    assert(("."@ + rest)[0] == '.');
    assert(dot_index("."@ + rest) == 0);
    assert(r.take(d.len() as int) =~= d);
    assert(r.skip(d.len() + 1int) =~= rest);
}

/// A LibreOffice version written as `LibreOffice major.minor.patch` (the
/// first line `--version` prints begins so) is read back as that major,
/// minor and patch.
pub proof fn version_text_is_read_back(major: u32, minor: u32, patch: u32)
    ensures
        ({
            let text = "LibreOffice "@ + decimal(major as nat) + "."@ + decimal(minor as nat) + "."@ + decimal(patch as nat);
            spec_parse_version(text) matches Some(v) && v.major == major && v.minor == minor && v.patch == patch
        }),
{
    reveal_strlit("LibreOffice ");
    reveal_strlit("LibreOffice");
    reveal_strlit(".");
    let da = decimal(major as nat);
    let db = decimal(minor as nat);
    let dc = decimal(patch as nat);
    lemma_decimal_digits(major as nat);
    lemma_decimal_digits(minor as nat);
    lemma_decimal_digits(patch as nat);
    let w = da + "."@ + db + "."@ + dc;
    let text = "LibreOffice "@ + da + "."@ + db + "."@ + dc;
    assert(text =~= "LibreOffice "@ + w);
    // The text has no white space at either end.
    assert(is_digit(dc[dc.len() - 1]));
    assert(text[text.len() - 1] == dc[dc.len() - 1]);
    assert(!is_white(text[0]));
    assert(trim_start(text) == text);
    assert(trim_end(text) == text);
    assert(trim(text) == text);
    // The product name is at the start; what follows is a space and the numbers.
    assert(occurs_at(text, "LibreOffice"@, 0)) by {
        assert(text.subrange(0, 11) =~= "LibreOffice"@);
    }
    assert(find_from(text, "LibreOffice"@, 0) == Some(0int));
    let after = text.skip(11);
    assert(after =~= " "@ + w) by {
        reveal_strlit(" ");
    }
    reveal_strlit(" ");
    assert(after[0] == ' ');
    assert(after.drop_first() =~= w);
    assert(is_digit(w[0])) by {
        assert(w[0] == da[0]);
    }
    assert(trim_start(w) == w);
    assert(trim_start(after) == trim_start(w));
    assert(w[w.len() - 1] == dc[dc.len() - 1]);
    assert(trim_end(w) == w);
    assert(trim(after) == w);
    assert(strip_leading(w, '=') == w);
    assert(version_candidate(text) == w);
    // The numbers are one run of digits and dots: major, minor, patch.
    assert forall|i: int| 0 <= i < w.len() implies is_version_char(#[trigger] w[i]) by {
        if i < da.len() {
            assert(w[i] == da[i]);
            assert(is_digit(da[i]));
        } else if i == da.len() {
            assert(w[i] == '.');
        } else if i < da.len() + 1 + db.len() {
            assert(w[i] == db[i - da.len() - 1]);
            assert(is_digit(db[i - da.len() - 1]));
        } else if i == da.len() + 1 + db.len() {
            assert(w[i] == '.');
        } else {
            assert(w[i] == dc[i - da.len() - 2 - db.len()]);
            assert(is_digit(dc[i - da.len() - 2 - db.len()]));
        }
    }
    lemma_run_len_all(w);
    assert(w.take(w.len() as int) =~= w);
    lemma_part_numbers_one(patch);
    lemma_part_numbers_dot(minor, dc);
    lemma_part_numbers_dot(major, db + "."@ + dc);
    assert(w =~= da + "."@ + (db + "."@ + dc));
    assert(part_numbers(w) =~= seq![major, minor, patch]);
    assert(version_numbers(w) == seq![major, minor, patch]);
}

proof fn lemma_first_input_error(inputs: Seq<Seq<char>>, target: Seq<char>)
    ensures
        first_input_error(inputs, target) is None <==> forall|i: int|
            0 <= i < inputs.len() ==> spec_input_error(#[trigger] inputs[i], target) is None,
    decreases inputs.len(),
{
    if inputs.len() > 0 {
        lemma_first_input_error(inputs.drop_first(), target);
        if first_input_error(inputs, target) is None {
            assert forall|i: int| 0 <= i < inputs.len() implies spec_input_error(#[trigger] inputs[i], target) is None by {
                if i > 0 {
                    assert(inputs[i] == inputs.drop_first()[i - 1]);
                }
            }
        } else if spec_input_error(inputs[0], target) is None {
            let i = choose|i: int| 0 <= i < inputs.drop_first().len() && !(spec_input_error(#[trigger] inputs.drop_first()[i], target) is None);
            assert(inputs.drop_first()[i] == inputs[i + 1]);
        }
    }
}

/// A request is accepted for planning exactly when it has inputs, its
/// target is not blank, and the target is offered for the format of every
/// input.
pub proof fn validation_accepts_exactly_convertible_requests(r: RequestView)
    ensures
        spec_validate(r) is None <==> {
            &&& r.input_paths.len() > 0
            &&& trim(r.target_format).len() > 0
            &&& forall|i: int| 0 <= i < r.input_paths.len() ==> spec_input_error(#[trigger] r.input_paths[i], r.target_format) is None
        },
{
    lemma_first_input_error(r.input_paths, r.target_format);
}

/// Whether `id` names a catalogue codec of the given kind.
pub open spec fn is_codec_of_kind(id: Seq<char>, kind: CodecKind) -> bool {
    exists|j: int| 0 <= j < codec_catalog().len() && #[trigger] codec_catalog()[j].id == id && codec_catalog()[j].kind == kind
}

/// Whether a format names what its category calls for: an image format a
/// video codec, no audio codec and no container; an audio format an audio
/// codec and a container but no video codec; a video format both codecs and
/// a container; a document none of these; and each codec it names is a
/// catalogue codec of the matching kind.
pub open spec fn format_is_well_formed(f: FormatView) -> bool {
    &&& match f.category {
        MediaCategory::Image => f.default_video_codec is Some && f.default_audio_codec is None && f.ffmpeg_format is None,
        MediaCategory::Audio => f.default_video_codec is None && f.default_audio_codec is Some && f.ffmpeg_format is Some,
        MediaCategory::Video => f.default_video_codec is Some && f.default_audio_codec is Some && f.ffmpeg_format is Some,
        MediaCategory::Document => f.default_video_codec is None && f.default_audio_codec is None && f.ffmpeg_format is None,
    }
    &&& (f.default_video_codec matches Some(c) ==> is_codec_of_kind(c, CodecKind::Video))
    &&& (f.default_audio_codec matches Some(c) ==> is_codec_of_kind(c, CodecKind::Audio))
}

proof fn image_formats_well_formed()
    ensures
        forall|i: int| 0 <= i < image_catalog().len() ==> format_is_well_formed(#[trigger] image_catalog()[i]),
{
    let cat = image_catalog();
    let codecs = codec_catalog();
    assert(cat.len() == 7);
    assert forall|i: int| 0 <= i < cat.len() implies format_is_well_formed(#[trigger] cat[i]) by {
        if i == 0 {
            assert(codecs[0].kind == CodecKind::Video && is_codec_of_kind(codecs[0].id, CodecKind::Video));
            assert(format_is_well_formed(cat[0]));
        } else if i == 1 {
            assert(codecs[1].kind == CodecKind::Video && is_codec_of_kind(codecs[1].id, CodecKind::Video));
            assert(format_is_well_formed(cat[1]));
        } else if i == 2 {
            assert(codecs[2].kind == CodecKind::Video && is_codec_of_kind(codecs[2].id, CodecKind::Video));
            assert(format_is_well_formed(cat[2]));
        } else if i == 3 {
            assert(codecs[3].kind == CodecKind::Video && is_codec_of_kind(codecs[3].id, CodecKind::Video));
            assert(format_is_well_formed(cat[3]));
        } else if i == 4 {
            assert(codecs[4].kind == CodecKind::Video && is_codec_of_kind(codecs[4].id, CodecKind::Video));
            assert(format_is_well_formed(cat[4]));
        } else if i == 5 {
            assert(codecs[5].kind == CodecKind::Video && is_codec_of_kind(codecs[5].id, CodecKind::Video));
            assert(format_is_well_formed(cat[5]));
        } else if i == 6 {
            assert(codecs[6].kind == CodecKind::Video && is_codec_of_kind(codecs[6].id, CodecKind::Video));
            assert(format_is_well_formed(cat[6]));
        }
    }
}

proof fn audio_formats_well_formed()
    ensures
        forall|i: int| 0 <= i < audio_catalog().len() ==> format_is_well_formed(#[trigger] audio_catalog()[i]),
{
    let cat = audio_catalog();
    let codecs = codec_catalog();
    assert(cat.len() == 10);
    assert forall|i: int| 0 <= i < cat.len() implies format_is_well_formed(#[trigger] cat[i]) by {
        if i == 0 {
            assert(codecs[12].kind == CodecKind::Audio && is_codec_of_kind(codecs[12].id, CodecKind::Audio));
            assert(format_is_well_formed(cat[0]));
        } else if i == 1 {
            assert(codecs[13].kind == CodecKind::Audio && is_codec_of_kind(codecs[13].id, CodecKind::Audio));
            assert(format_is_well_formed(cat[1]));
        } else if i == 2 {
            assert(codecs[15].kind == CodecKind::Audio && is_codec_of_kind(codecs[15].id, CodecKind::Audio));
            assert(format_is_well_formed(cat[2]));
        } else if i == 3 {
            assert(codecs[16].kind == CodecKind::Audio && is_codec_of_kind(codecs[16].id, CodecKind::Audio));
            assert(format_is_well_formed(cat[3]));
        } else if i == 4 {
            assert(codecs[16].kind == CodecKind::Audio && is_codec_of_kind(codecs[16].id, CodecKind::Audio));
            assert(format_is_well_formed(cat[4]));
        } else if i == 5 {
            assert(codecs[17].kind == CodecKind::Audio && is_codec_of_kind(codecs[17].id, CodecKind::Audio));
            assert(format_is_well_formed(cat[5]));
        } else if i == 6 {
            assert(codecs[18].kind == CodecKind::Audio && is_codec_of_kind(codecs[18].id, CodecKind::Audio));
            assert(format_is_well_formed(cat[6]));
        } else if i == 7 {
            assert(codecs[14].kind == CodecKind::Audio && is_codec_of_kind(codecs[14].id, CodecKind::Audio));
            assert(format_is_well_formed(cat[7]));
        } else if i == 8 {
            assert(codecs[19].kind == CodecKind::Audio && is_codec_of_kind(codecs[19].id, CodecKind::Audio));
            assert(format_is_well_formed(cat[8]));
        } else if i == 9 {
            assert(codecs[20].kind == CodecKind::Audio && is_codec_of_kind(codecs[20].id, CodecKind::Audio));
            assert(format_is_well_formed(cat[9]));
        }
    }
}

proof fn video_formats_well_formed()
    ensures
        forall|i: int| 0 <= i < video_catalog().len() ==> format_is_well_formed(#[trigger] video_catalog()[i]),
{
    let cat = video_catalog();
    let codecs = codec_catalog();
    assert(cat.len() == 9);
    assert forall|i: int| 0 <= i < cat.len() implies format_is_well_formed(#[trigger] cat[i]) by {
        if i == 0 {
            assert(codecs[7].kind == CodecKind::Video && is_codec_of_kind(codecs[7].id, CodecKind::Video));
            assert(codecs[16].kind == CodecKind::Audio && is_codec_of_kind(codecs[16].id, CodecKind::Audio));
            assert(format_is_well_formed(cat[0]));
        } else if i == 1 {
            assert(codecs[7].kind == CodecKind::Video && is_codec_of_kind(codecs[7].id, CodecKind::Video));
            assert(codecs[16].kind == CodecKind::Audio && is_codec_of_kind(codecs[16].id, CodecKind::Audio));
            assert(format_is_well_formed(cat[1]));
        } else if i == 2 {
            assert(codecs[8].kind == CodecKind::Video && is_codec_of_kind(codecs[8].id, CodecKind::Video));
            assert(codecs[18].kind == CodecKind::Audio && is_codec_of_kind(codecs[18].id, CodecKind::Audio));
            assert(format_is_well_formed(cat[2]));
        } else if i == 3 {
            assert(codecs[7].kind == CodecKind::Video && is_codec_of_kind(codecs[7].id, CodecKind::Video));
            assert(codecs[16].kind == CodecKind::Audio && is_codec_of_kind(codecs[16].id, CodecKind::Audio));
            assert(format_is_well_formed(cat[3]));
        } else if i == 4 {
            assert(codecs[9].kind == CodecKind::Video && is_codec_of_kind(codecs[9].id, CodecKind::Video));
            assert(codecs[12].kind == CodecKind::Audio && is_codec_of_kind(codecs[12].id, CodecKind::Audio));
            assert(format_is_well_formed(cat[4]));
        } else if i == 5 {
            assert(codecs[7].kind == CodecKind::Video && is_codec_of_kind(codecs[7].id, CodecKind::Video));
            assert(codecs[16].kind == CodecKind::Audio && is_codec_of_kind(codecs[16].id, CodecKind::Audio));
            assert(format_is_well_formed(cat[5]));
        } else if i == 6 {
            assert(codecs[10].kind == CodecKind::Video && is_codec_of_kind(codecs[10].id, CodecKind::Video));
            assert(codecs[21].kind == CodecKind::Audio && is_codec_of_kind(codecs[21].id, CodecKind::Audio));
            assert(format_is_well_formed(cat[6]));
        } else if i == 7 {
            assert(codecs[11].kind == CodecKind::Video && is_codec_of_kind(codecs[11].id, CodecKind::Video));
            assert(codecs[17].kind == CodecKind::Audio && is_codec_of_kind(codecs[17].id, CodecKind::Audio));
            assert(format_is_well_formed(cat[7]));
        } else if i == 8 {
            assert(codecs[10].kind == CodecKind::Video && is_codec_of_kind(codecs[10].id, CodecKind::Video));
            assert(codecs[21].kind == CodecKind::Audio && is_codec_of_kind(codecs[21].id, CodecKind::Audio));
            assert(format_is_well_formed(cat[8]));
        }
    }
}

proof fn document_formats_well_formed()
    ensures
        forall|i: int| 0 <= i < document_catalog().len() ==> format_is_well_formed(#[trigger] document_catalog()[i]),
{
    let cat = document_catalog();
    let codecs = codec_catalog();
    assert(cat.len() == 17);
    assert forall|i: int| 0 <= i < cat.len() implies format_is_well_formed(#[trigger] cat[i]) by {
        if i == 0 {
            assert(format_is_well_formed(cat[0]));
        } else if i == 1 {
            assert(format_is_well_formed(cat[1]));
        } else if i == 2 {
            assert(format_is_well_formed(cat[2]));
        } else if i == 3 {
            assert(format_is_well_formed(cat[3]));
        } else if i == 4 {
            assert(format_is_well_formed(cat[4]));
        } else if i == 5 {
            assert(format_is_well_formed(cat[5]));
        } else if i == 6 {
            assert(format_is_well_formed(cat[6]));
        } else if i == 7 {
            assert(format_is_well_formed(cat[7]));
        } else if i == 8 {
            assert(format_is_well_formed(cat[8]));
        } else if i == 9 {
            assert(format_is_well_formed(cat[9]));
        } else if i == 10 {
            assert(format_is_well_formed(cat[10]));
        } else if i == 11 {
            assert(format_is_well_formed(cat[11]));
        } else if i == 12 {
            assert(format_is_well_formed(cat[12]));
        } else if i == 13 {
            assert(format_is_well_formed(cat[13]));
        } else if i == 14 {
            assert(format_is_well_formed(cat[14]));
        } else if i == 15 {
            assert(format_is_well_formed(cat[15]));
        } else if i == 16 {
            assert(format_is_well_formed(cat[16]));
        }
    }
}

/// Every catalogue format is well formed: images name a video codec and no
/// container, audio formats an audio codec and a container, video formats
/// both codecs and a container, documents none; every codec named is a
/// catalogue codec of the matching kind.
pub proof fn catalog_formats_are_well_formed()
    ensures
        forall|i: int| 0 <= i < format_catalog().len() ==> format_is_well_formed(#[trigger] format_catalog()[i]),
{
    image_formats_well_formed();
    audio_formats_well_formed();
    video_formats_well_formed();
    document_formats_well_formed();
    let a = image_catalog();
    let b = audio_catalog();
    let c = video_catalog();
    let d = document_catalog();
    assert(a.len() == 7 && b.len() == 10 && c.len() == 9 && d.len() == 17);
    let cat = format_catalog();
    assert forall|i: int| 0 <= i < cat.len() implies format_is_well_formed(#[trigger] cat[i]) by {
        if i < 7 {
            assert(cat[i] == a[i]);
        } else if i < 17 {
            assert(cat[i] == b[i - 7]);
        } else if i < 26 {
            assert(cat[i] == c[i - 17]);
        } else {
            assert(cat[i] == d[i - 26]);
        }
    }
}

/// The ids of a sequence of formats, in order.
pub open spec fn format_ids(c: Seq<FormatView>) -> Seq<Seq<char>> {
    Seq::new(c.len(), |i: int| c[i].id)
}

proof fn lemma_accepted_concat(a: Seq<FormatView>, b: Seq<FormatView>, source: MediaCategory)
    ensures
        accepted_ids(a + b, source) == accepted_ids(a, source) + accepted_ids(b, source),
    decreases b.len(),
{
    if b.len() == 0 {
        assert(a + b =~= a);
        assert(accepted_ids(a, source) + accepted_ids(b, source) =~= accepted_ids(a, source));
    } else {
        lemma_accepted_concat(a, b.drop_last(), source);
        assert((a + b).drop_last() =~= a + b.drop_last());
        assert((a + b).last() == b.last());
        if category_accepts(source, b.last().category) {
            assert(accepted_ids(a, source) + accepted_ids(b, source) =~= (accepted_ids(a, source) + accepted_ids(b.drop_last(), source)).push(b.last().id));
        } else {
            assert(accepted_ids(a, source) + accepted_ids(b, source) =~= accepted_ids(a, source) + accepted_ids(b.drop_last(), source));
        }
    }
}

proof fn lemma_accepted_all(c: Seq<FormatView>, source: MediaCategory, accepted: bool)
    requires
        forall|i: int| 0 <= i < c.len() ==> category_accepts(source, #[trigger] c[i].category) == accepted,
    ensures
        accepted_ids(c, source) == (if accepted { format_ids(c) } else { Seq::empty() }),
    decreases c.len(),
{
    if c.len() > 0 {
        let init = c.drop_last();
        assert forall|i: int| 0 <= i < init.len() implies category_accepts(source, #[trigger] init[i].category) == accepted by {
            assert(init[i] == c[i]);
        }
        lemma_accepted_all(init, source, accepted);
        assert(category_accepts(source, c[c.len() - 1].category) == accepted);
        if accepted {
            assert(format_ids(init).push(c.last().id) =~= format_ids(c));
        }
    } else {
        assert(format_ids(c) =~= Seq::<Seq<char>>::empty());
    }
}

proof fn image_part_facts()
    ensures
        forall|i: int| 0 <= i < image_catalog().len() ==> (#[trigger] image_catalog()[i]).category == MediaCategory::Image,
        format_ids(image_catalog()) == strs_view(seq!["jpg", "png", "webp", "bmp", "tiff", "gif", "avif"]),
{
    let c = image_catalog();
    assert(c.len() == 7);
    assert forall|i: int| 0 <= i < c.len() implies (#[trigger] c[i]).category == MediaCategory::Image by {
        if i == 0 {
            assert(c[0].category == MediaCategory::Image);
        } else if i == 1 {
            assert(c[1].category == MediaCategory::Image);
        } else if i == 2 {
            assert(c[2].category == MediaCategory::Image);
        } else if i == 3 {
            assert(c[3].category == MediaCategory::Image);
        } else if i == 4 {
            assert(c[4].category == MediaCategory::Image);
        } else if i == 5 {
            assert(c[5].category == MediaCategory::Image);
        } else if i == 6 {
            assert(c[6].category == MediaCategory::Image);
        }
    }
    assert(format_ids(c) =~= strs_view(seq!["jpg", "png", "webp", "bmp", "tiff", "gif", "avif"]));
}

proof fn audio_part_facts()
    ensures
        forall|i: int| 0 <= i < audio_catalog().len() ==> (#[trigger] audio_catalog()[i]).category == MediaCategory::Audio,
        format_ids(audio_catalog()) == strs_view(seq!["mp3", "wav", "flac", "aac", "m4a", "ogg", "opus", "aiff", "alac", "ac3"]),
{
    let c = audio_catalog();
    assert(c.len() == 10);
    assert forall|i: int| 0 <= i < c.len() implies (#[trigger] c[i]).category == MediaCategory::Audio by {
        if i == 0 {
            assert(c[0].category == MediaCategory::Audio);
        } else if i == 1 {
            assert(c[1].category == MediaCategory::Audio);
        } else if i == 2 {
            assert(c[2].category == MediaCategory::Audio);
        } else if i == 3 {
            assert(c[3].category == MediaCategory::Audio);
        } else if i == 4 {
            assert(c[4].category == MediaCategory::Audio);
        } else if i == 5 {
            assert(c[5].category == MediaCategory::Audio);
        } else if i == 6 {
            assert(c[6].category == MediaCategory::Audio);
        } else if i == 7 {
            assert(c[7].category == MediaCategory::Audio);
        } else if i == 8 {
            assert(c[8].category == MediaCategory::Audio);
        } else if i == 9 {
            assert(c[9].category == MediaCategory::Audio);
        }
    }
    assert(format_ids(c) =~= strs_view(seq!["mp3", "wav", "flac", "aac", "m4a", "ogg", "opus", "aiff", "alac", "ac3"]));
}

proof fn video_part_facts()
    ensures
        forall|i: int| 0 <= i < video_catalog().len() ==> (#[trigger] video_catalog()[i]).category == MediaCategory::Video,
        format_ids(video_catalog()) == strs_view(seq!["mp4", "mkv", "webm", "mov", "avi", "m4v", "mpeg", "ogv", "ts"]),
{
    let c = video_catalog();
    assert(c.len() == 9);
    assert forall|i: int| 0 <= i < c.len() implies (#[trigger] c[i]).category == MediaCategory::Video by {
        if i == 0 {
            assert(c[0].category == MediaCategory::Video);
        } else if i == 1 {
            assert(c[1].category == MediaCategory::Video);
        } else if i == 2 {
            assert(c[2].category == MediaCategory::Video);
        } else if i == 3 {
            assert(c[3].category == MediaCategory::Video);
        } else if i == 4 {
            assert(c[4].category == MediaCategory::Video);
        } else if i == 5 {
            assert(c[5].category == MediaCategory::Video);
        } else if i == 6 {
            assert(c[6].category == MediaCategory::Video);
        } else if i == 7 {
            assert(c[7].category == MediaCategory::Video);
        } else if i == 8 {
            assert(c[8].category == MediaCategory::Video);
        }
    }
    assert(format_ids(c) =~= strs_view(seq!["mp4", "mkv", "webm", "mov", "avi", "m4v", "mpeg", "ogv", "ts"]));
}

proof fn document_part_facts()
    ensures
        forall|i: int| 0 <= i < document_catalog().len() ==> (#[trigger] document_catalog()[i]).category == MediaCategory::Document,
        format_ids(document_catalog()) == strs_view(seq!["pdf", "odt", "docx", "doc", "rtf", "txt", "md", "html", "epub", "ods", "xlsx", "xls", "csv", "tsv", "odp", "pptx", "ppt"]),
{
    let c = document_catalog();
    assert(c.len() == 17);
    assert forall|i: int| 0 <= i < c.len() implies (#[trigger] c[i]).category == MediaCategory::Document by {
        if i == 0 {
            assert(c[0].category == MediaCategory::Document);
        } else if i == 1 {
            assert(c[1].category == MediaCategory::Document);
        } else if i == 2 {
            assert(c[2].category == MediaCategory::Document);
        } else if i == 3 {
            assert(c[3].category == MediaCategory::Document);
        } else if i == 4 {
            assert(c[4].category == MediaCategory::Document);
        } else if i == 5 {
            assert(c[5].category == MediaCategory::Document);
        } else if i == 6 {
            assert(c[6].category == MediaCategory::Document);
        } else if i == 7 {
            assert(c[7].category == MediaCategory::Document);
        } else if i == 8 {
            assert(c[8].category == MediaCategory::Document);
        } else if i == 9 {
            assert(c[9].category == MediaCategory::Document);
        } else if i == 10 {
            assert(c[10].category == MediaCategory::Document);
        } else if i == 11 {
            assert(c[11].category == MediaCategory::Document);
        } else if i == 12 {
            assert(c[12].category == MediaCategory::Document);
        } else if i == 13 {
            assert(c[13].category == MediaCategory::Document);
        } else if i == 14 {
            assert(c[14].category == MediaCategory::Document);
        } else if i == 15 {
            assert(c[15].category == MediaCategory::Document);
        } else if i == 16 {
            assert(c[16].category == MediaCategory::Document);
        }
    }
    assert(format_ids(c) =~= strs_view(seq!["pdf", "odt", "docx", "doc", "rtf", "txt", "md", "html", "epub", "ods", "xlsx", "xls", "csv", "tsv", "odp", "pptx", "ppt"]));
}

/// The targets offered for each source category, in catalogue order: the
/// image formats for images, the audio formats for audio, the audio formats
/// followed by the video formats for video, the document formats for
/// documents.
pub proof fn category_targets_in_catalogue_order()
    ensures
        spec_targets_for_category(MediaCategory::Image) == strs_view(seq!["jpg", "png", "webp", "bmp", "tiff", "gif", "avif"]),
        spec_targets_for_category(MediaCategory::Audio) == strs_view(seq!["mp3", "wav", "flac", "aac", "m4a", "ogg", "opus", "aiff", "alac", "ac3"]),
        spec_targets_for_category(MediaCategory::Video) == strs_view(seq!["mp3", "wav", "flac", "aac", "m4a", "ogg", "opus", "aiff", "alac", "ac3"])
            + strs_view(seq!["mp4", "mkv", "webm", "mov", "avi", "m4v", "mpeg", "ogv", "ts"]),
        spec_targets_for_category(MediaCategory::Document) == strs_view(seq![
            "pdf", "odt", "docx", "doc", "rtf", "txt", "md", "html", "epub", "ods", "xlsx", "xls", "csv", "tsv", "odp", "pptx", "ppt"
        ]),
{
    image_part_facts();
    audio_part_facts();
    video_part_facts();
    document_part_facts();
    let a = image_catalog();
    let b = audio_catalog();
    let c = video_catalog();
    let d = document_catalog();
    let sources = seq![MediaCategory::Image, MediaCategory::Audio, MediaCategory::Video, MediaCategory::Document];
    assert forall|k: int| 0 <= k < 4 implies ({
        let s = #[trigger] sources[k];
        accepted_ids(format_catalog(), s) == accepted_ids(a, s) + accepted_ids(b, s) + accepted_ids(c, s) + accepted_ids(d, s)
    }) by {
        let s = sources[k];
        lemma_accepted_concat(a + b + c, d, s);
        lemma_accepted_concat(a + b, c, s);
        lemma_accepted_concat(a, b, s);
        lemma_accepted_all(a, s, category_accepts(s, MediaCategory::Image));
        lemma_accepted_all(b, s, category_accepts(s, MediaCategory::Audio));
        lemma_accepted_all(c, s, category_accepts(s, MediaCategory::Video));
        lemma_accepted_all(d, s, category_accepts(s, MediaCategory::Document));
    }
    assert(sources[0] == MediaCategory::Image);
    assert(sources[1] == MediaCategory::Audio);
    assert(sources[2] == MediaCategory::Video);
    assert(sources[3] == MediaCategory::Document);
    lemma_accepted_all(a, MediaCategory::Image, true);
    lemma_accepted_all(b, MediaCategory::Image, false);
    lemma_accepted_all(c, MediaCategory::Image, false);
    lemma_accepted_all(d, MediaCategory::Image, false);
    lemma_accepted_all(a, MediaCategory::Audio, false);
    lemma_accepted_all(b, MediaCategory::Audio, true);
    lemma_accepted_all(c, MediaCategory::Audio, false);
    lemma_accepted_all(d, MediaCategory::Audio, false);
    lemma_accepted_all(a, MediaCategory::Video, false);
    lemma_accepted_all(b, MediaCategory::Video, true);
    lemma_accepted_all(c, MediaCategory::Video, true);
    lemma_accepted_all(d, MediaCategory::Video, false);
    lemma_accepted_all(a, MediaCategory::Document, false);
    lemma_accepted_all(b, MediaCategory::Document, false);
    lemma_accepted_all(c, MediaCategory::Document, false);
    lemma_accepted_all(d, MediaCategory::Document, true);
    let e = Seq::<Seq<char>>::empty();
    assert(format_ids(a) + e + e + e =~= format_ids(a));
    assert(e + format_ids(b) + e + e =~= format_ids(b));
    assert(e + format_ids(b) + format_ids(c) + e =~= format_ids(b) + format_ids(c));
    assert(e + e + e + format_ids(d) =~= format_ids(d));
}

proof fn lemma_text_family_members(t: Seq<char>)
    requires
        text_family().contains(t),
    ensures
        t == "pdf"@ || is_text_name(t) || t == "epub"@,
{
    let l = text_family();
    let k = choose|k: int| 0 <= k < l.len() && l[k] == t;
    if k == 0 {
        assert(t == "pdf"@);
    } else if k == 1 {
        assert(t == "odt"@);
    } else if k == 2 {
        assert(t == "docx"@);
    } else if k == 3 {
        assert(t == "doc"@);
    } else if k == 4 {
        assert(t == "rtf"@);
    } else if k == 5 {
        assert(t == "txt"@);
    } else if k == 6 {
        assert(t == "md"@);
    } else if k == 7 {
        assert(t == "html"@);
    } else if k == 8 {
        assert(t == "epub"@);
    }
}

proof fn lemma_epub_family_members(t: Seq<char>)
    requires
        epub_family().contains(t),
    ensures
        t == "pdf"@ || is_text_name(t) || t == "epub"@,
{
    let l = epub_family();
    let k = choose|k: int| 0 <= k < l.len() && l[k] == t;
    if k == 0 {
        assert(t == "pdf"@);
    } else if k == 1 {
        assert(t == "odt"@);
    } else if k == 2 {
        assert(t == "docx"@);
    } else if k == 3 {
        assert(t == "doc"@);
    } else if k == 4 {
        assert(t == "rtf"@);
    } else if k == 5 {
        assert(t == "txt"@);
    } else if k == 6 {
        assert(t == "html"@);
    }
}

proof fn lemma_sheet_family_members(t: Seq<char>)
    requires
        sheet_family().contains(t),
    ensures
        t == "pdf"@ || is_sheet_name(t),
{
    let l = sheet_family();
    let k = choose|k: int| 0 <= k < l.len() && l[k] == t;
    if k == 0 {
        assert(t == "pdf"@);
    } else if k == 1 {
        assert(t == "ods"@);
    } else if k == 2 {
        assert(t == "xlsx"@);
    } else if k == 3 {
        assert(t == "xls"@);
    } else if k == 4 {
        assert(t == "csv"@);
    } else if k == 5 {
        assert(t == "tsv"@);
    }
}

proof fn lemma_presentation_family_members(t: Seq<char>)
    requires
        presentation_family().contains(t),
    ensures
        t == "pdf"@ || is_presentation_name(t),
{
    let l = presentation_family();
    let k = choose|k: int| 0 <= k < l.len() && l[k] == t;
    if k == 0 {
        assert(t == "pdf"@);
    } else if k == 1 {
        assert(t == "odp"@);
    } else if k == 2 {
        assert(t == "pptx"@);
    } else if k == 3 {
        assert(t == "ppt"@);
    }
}

/// Document families are isolated: a text document, PDF or EPUB is offered
/// only PDF and text formats; a spreadsheet only PDF and spreadsheet
/// formats; a presentation only PDF and presentation formats.
pub proof fn document_families_are_isolated(source: Seq<char>, target: Seq<char>)
    ensures
        spec_document_targets(source).contains(target) ==> ({
            let c = clean_name(source);
            if is_text_name(c) || c == "epub"@ {
                target == "pdf"@ || is_text_name(target) || target == "epub"@
            } else if is_sheet_name(c) {
                target == "pdf"@ || is_sheet_name(target)
            } else {
                target == "pdf"@ || is_presentation_name(target)
            }
        }),
{
    let c = clean_name(source);
    document_targets_stay_in_family(source, target);
    if spec_document_targets(source).contains(target) {
        if is_text_name(c) {
            lemma_text_family_members(target);
        } else if c == "epub"@ {
            lemma_epub_family_members(target);
        } else if is_sheet_name(c) {
            lemma_sheet_family_members(target);
        } else if is_presentation_name(c) {
            lemma_presentation_family_members(target);
        } else {
            assert(document_family(c) =~= Seq::<Seq<char>>::empty());
        }
    }
}

/// A number that tells the catalogue's ids apart: the length, then up to
/// four character codes.
spec fn short_id_code(s: Seq<char>) -> int {
    let c = |k: int| if k < s.len() { s[k] as int } else { 0 };
    s.len() * 268435456 + c(0) * 2097152 + c(1) * 16384 + c(2) * 128 + c(3)
}

/// The position in the catalogue of the id whose code is `n`.
spec fn catalogue_position(n: int) -> int {
    if n == 1029452672 {
        0
    } else if n == 1042002816 {
        1
    } else if n == 1324970352 {
        2
    } else if n == 1012627456 {
        3
    } else if n == 1318744934 {
        4
    } else if n == 1023046400 {
        5
    } else if n == 1279112422 {
        6
    } else if n == 1035737472 {
        7
    } else if n == 1056471808 {
        8
    } else if n == 1289433315 {
        9
    } else if n == 1010332032 {
        10
    } else if n == 1034760320 {
        11
    } else if n == 1039790976 {
        12
    } else if n == 1308375795 {
        13
    } else if n == 1278899046 {
        14
    } else if n == 1278947555 {
        15
    } else if n == 1010358656 {
        16
    } else if n == 1035737600 {
        17
    } else if n == 1035664128 {
        18
    } else if n == 1324970349 {
        19
    } else if n == 1035729664 {
        20
    } else if n == 1010676864 {
        21
    } else if n == 1034763008 {
        22
    } else if n == 1304179431 {
        23
    } else if n == 1039792896 {
        24
    } else if n == 782024704 {
        25
    } else if n == 1041838848 {
        26
    } else if n == 1039743488 {
        27
    } else if n == 1285288440 {
        28
    } else if n == 1016852864 {
        29
    } else if n == 1046295296 {
        30
    } else if n == 1050556928 {
        31
    } else if n == 767098880 {
        32
    } else if n == 1293760236 {
        33
    } else if n == 1287404258 {
        34
    } else if n == 1039743360 {
        35
    } else if n == 1327184376 {
        36
    } else if n == 1058748800 {
        37
    } else if n == 1014823680 {
        38
    } else if n == 1050475264 {
        39
    } else if n == 1039742976 {
        40
    } else if n == 1310472824 {
        41
    } else if n == 1042037248 {
        42
    } else {
        -1
    }
}

/// The catalogue's format ids, in catalogue order.
pub open spec fn catalogue_id_list() -> Seq<Seq<char>> {
    strs_view(seq!["jpg", "png", "webp", "bmp", "tiff", "gif", "avif", "mp3", "wav", "flac", "aac", "m4a", "ogg", "opus", "aiff", "alac", "ac3", "mp4", "mkv", "webm", "mov", "avi", "m4v", "mpeg", "ogv", "ts", "pdf", "odt", "docx", "doc", "rtf", "txt", "md", "html", "epub", "ods", "xlsx", "xls", "csv", "tsv", "odp", "pptx", "ppt"])
}

proof fn lemma_catalogue_positions()
    ensures
        forall|k: int| 0 <= k < catalogue_id_list().len() ==> catalogue_position(short_id_code(#[trigger] catalogue_id_list()[k])) == k,
{
    let l = catalogue_id_list();
    assert(l.len() == 43);
    assert forall|k: int| 0 <= k < l.len() implies catalogue_position(short_id_code(#[trigger] l[k])) == k by {
        if k == 0 {
            reveal_strlit("jpg");
            assert("jpg"@[0] == 'j' && "jpg"@[1] == 'p' && "jpg"@[2] == 'g');
            assert(l[0] == "jpg"@);
            assert(short_id_code("jpg"@) == 1029452672);
        } else if k == 1 {
            reveal_strlit("png");
            assert("png"@[0] == 'p' && "png"@[1] == 'n' && "png"@[2] == 'g');
            assert(l[1] == "png"@);
            assert(short_id_code("png"@) == 1042002816);
        } else if k == 2 {
            reveal_strlit("webp");
            assert("webp"@[0] == 'w' && "webp"@[1] == 'e' && "webp"@[2] == 'b' && "webp"@[3] == 'p');
            assert(l[2] == "webp"@);
            assert(short_id_code("webp"@) == 1324970352);
        } else if k == 3 {
            reveal_strlit("bmp");
            assert("bmp"@[0] == 'b' && "bmp"@[1] == 'm' && "bmp"@[2] == 'p');
            assert(l[3] == "bmp"@);
            assert(short_id_code("bmp"@) == 1012627456);
        } else if k == 4 {
            reveal_strlit("tiff");
            assert("tiff"@[0] == 't' && "tiff"@[1] == 'i' && "tiff"@[2] == 'f' && "tiff"@[3] == 'f');
            assert(l[4] == "tiff"@);
            assert(short_id_code("tiff"@) == 1318744934);
        } else if k == 5 {
            reveal_strlit("gif");
            assert("gif"@[0] == 'g' && "gif"@[1] == 'i' && "gif"@[2] == 'f');
            assert(l[5] == "gif"@);
            assert(short_id_code("gif"@) == 1023046400);
        } else if k == 6 {
            reveal_strlit("avif");
            assert("avif"@[0] == 'a' && "avif"@[1] == 'v' && "avif"@[2] == 'i' && "avif"@[3] == 'f');
            assert(l[6] == "avif"@);
            assert(short_id_code("avif"@) == 1279112422);
        } else if k == 7 {
            reveal_strlit("mp3");
            assert("mp3"@[0] == 'm' && "mp3"@[1] == 'p' && "mp3"@[2] == '3');
            assert(l[7] == "mp3"@);
            assert(short_id_code("mp3"@) == 1035737472);
        } else if k == 8 {
            reveal_strlit("wav");
            assert("wav"@[0] == 'w' && "wav"@[1] == 'a' && "wav"@[2] == 'v');
            assert(l[8] == "wav"@);
            assert(short_id_code("wav"@) == 1056471808);
        } else if k == 9 {
            reveal_strlit("flac");
            assert("flac"@[0] == 'f' && "flac"@[1] == 'l' && "flac"@[2] == 'a' && "flac"@[3] == 'c');
            assert(l[9] == "flac"@);
            assert(short_id_code("flac"@) == 1289433315);
        } else if k == 10 {
            reveal_strlit("aac");
            assert("aac"@[0] == 'a' && "aac"@[1] == 'a' && "aac"@[2] == 'c');
            assert(l[10] == "aac"@);
            assert(short_id_code("aac"@) == 1010332032);
        } else if k == 11 {
            reveal_strlit("m4a");
            assert("m4a"@[0] == 'm' && "m4a"@[1] == '4' && "m4a"@[2] == 'a');
            assert(l[11] == "m4a"@);
            assert(short_id_code("m4a"@) == 1034760320);
        } else if k == 12 {
            reveal_strlit("ogg");
            assert("ogg"@[0] == 'o' && "ogg"@[1] == 'g' && "ogg"@[2] == 'g');
            assert(l[12] == "ogg"@);
            assert(short_id_code("ogg"@) == 1039790976);
        } else if k == 13 {
            reveal_strlit("opus");
            assert("opus"@[0] == 'o' && "opus"@[1] == 'p' && "opus"@[2] == 'u' && "opus"@[3] == 's');
            assert(l[13] == "opus"@);
            assert(short_id_code("opus"@) == 1308375795);
        } else if k == 14 {
            reveal_strlit("aiff");
            assert("aiff"@[0] == 'a' && "aiff"@[1] == 'i' && "aiff"@[2] == 'f' && "aiff"@[3] == 'f');
            assert(l[14] == "aiff"@);
            assert(short_id_code("aiff"@) == 1278899046);
        } else if k == 15 {
            reveal_strlit("alac");
            assert("alac"@[0] == 'a' && "alac"@[1] == 'l' && "alac"@[2] == 'a' && "alac"@[3] == 'c');
            assert(l[15] == "alac"@);
            assert(short_id_code("alac"@) == 1278947555);
        } else if k == 16 {
            reveal_strlit("ac3");
            assert("ac3"@[0] == 'a' && "ac3"@[1] == 'c' && "ac3"@[2] == '3');
            assert(l[16] == "ac3"@);
            assert(short_id_code("ac3"@) == 1010358656);
        } else if k == 17 {
            reveal_strlit("mp4");
            assert("mp4"@[0] == 'm' && "mp4"@[1] == 'p' && "mp4"@[2] == '4');
            assert(l[17] == "mp4"@);
            assert(short_id_code("mp4"@) == 1035737600);
        } else if k == 18 {
            reveal_strlit("mkv");
            assert("mkv"@[0] == 'm' && "mkv"@[1] == 'k' && "mkv"@[2] == 'v');
            assert(l[18] == "mkv"@);
            assert(short_id_code("mkv"@) == 1035664128);
        } else if k == 19 {
            reveal_strlit("webm");
            assert("webm"@[0] == 'w' && "webm"@[1] == 'e' && "webm"@[2] == 'b' && "webm"@[3] == 'm');
            assert(l[19] == "webm"@);
            assert(short_id_code("webm"@) == 1324970349);
        } else if k == 20 {
            reveal_strlit("mov");
            assert("mov"@[0] == 'm' && "mov"@[1] == 'o' && "mov"@[2] == 'v');
            assert(l[20] == "mov"@);
            assert(short_id_code("mov"@) == 1035729664);
        } else if k == 21 {
            reveal_strlit("avi");
            assert("avi"@[0] == 'a' && "avi"@[1] == 'v' && "avi"@[2] == 'i');
            assert(l[21] == "avi"@);
            assert(short_id_code("avi"@) == 1010676864);
        } else if k == 22 {
            reveal_strlit("m4v");
            assert("m4v"@[0] == 'm' && "m4v"@[1] == '4' && "m4v"@[2] == 'v');
            assert(l[22] == "m4v"@);
            assert(short_id_code("m4v"@) == 1034763008);
        } else if k == 23 {
            reveal_strlit("mpeg");
            assert("mpeg"@[0] == 'm' && "mpeg"@[1] == 'p' && "mpeg"@[2] == 'e' && "mpeg"@[3] == 'g');
            assert(l[23] == "mpeg"@);
            assert(short_id_code("mpeg"@) == 1304179431);
        } else if k == 24 {
            reveal_strlit("ogv");
            assert("ogv"@[0] == 'o' && "ogv"@[1] == 'g' && "ogv"@[2] == 'v');
            assert(l[24] == "ogv"@);
            assert(short_id_code("ogv"@) == 1039792896);
        } else if k == 25 {
            reveal_strlit("ts");
            assert("ts"@[0] == 't' && "ts"@[1] == 's');
            assert(l[25] == "ts"@);
            assert(short_id_code("ts"@) == 782024704);
        } else if k == 26 {
            reveal_strlit("pdf");
            assert("pdf"@[0] == 'p' && "pdf"@[1] == 'd' && "pdf"@[2] == 'f');
            assert(l[26] == "pdf"@);
            assert(short_id_code("pdf"@) == 1041838848);
        } else if k == 27 {
            reveal_strlit("odt");
            assert("odt"@[0] == 'o' && "odt"@[1] == 'd' && "odt"@[2] == 't');
            assert(l[27] == "odt"@);
            assert(short_id_code("odt"@) == 1039743488);
        } else if k == 28 {
            reveal_strlit("docx");
            assert("docx"@[0] == 'd' && "docx"@[1] == 'o' && "docx"@[2] == 'c' && "docx"@[3] == 'x');
            assert(l[28] == "docx"@);
            assert(short_id_code("docx"@) == 1285288440);
        } else if k == 29 {
            reveal_strlit("doc");
            assert("doc"@[0] == 'd' && "doc"@[1] == 'o' && "doc"@[2] == 'c');
            assert(l[29] == "doc"@);
            assert(short_id_code("doc"@) == 1016852864);
        } else if k == 30 {
            reveal_strlit("rtf");
            assert("rtf"@[0] == 'r' && "rtf"@[1] == 't' && "rtf"@[2] == 'f');
            assert(l[30] == "rtf"@);
            assert(short_id_code("rtf"@) == 1046295296);
        } else if k == 31 {
            reveal_strlit("txt");
            assert("txt"@[0] == 't' && "txt"@[1] == 'x' && "txt"@[2] == 't');
            assert(l[31] == "txt"@);
            assert(short_id_code("txt"@) == 1050556928);
        } else if k == 32 {
            reveal_strlit("md");
            assert("md"@[0] == 'm' && "md"@[1] == 'd');
            assert(l[32] == "md"@);
            assert(short_id_code("md"@) == 767098880);
        } else if k == 33 {
            reveal_strlit("html");
            assert("html"@[0] == 'h' && "html"@[1] == 't' && "html"@[2] == 'm' && "html"@[3] == 'l');
            assert(l[33] == "html"@);
            assert(short_id_code("html"@) == 1293760236);
        } else if k == 34 {
            reveal_strlit("epub");
            assert("epub"@[0] == 'e' && "epub"@[1] == 'p' && "epub"@[2] == 'u' && "epub"@[3] == 'b');
            assert(l[34] == "epub"@);
            assert(short_id_code("epub"@) == 1287404258);
        } else if k == 35 {
            reveal_strlit("ods");
            assert("ods"@[0] == 'o' && "ods"@[1] == 'd' && "ods"@[2] == 's');
            assert(l[35] == "ods"@);
            assert(short_id_code("ods"@) == 1039743360);
        } else if k == 36 {
            reveal_strlit("xlsx");
            assert("xlsx"@[0] == 'x' && "xlsx"@[1] == 'l' && "xlsx"@[2] == 's' && "xlsx"@[3] == 'x');
            assert(l[36] == "xlsx"@);
            assert(short_id_code("xlsx"@) == 1327184376);
        } else if k == 37 {
            reveal_strlit("xls");
            assert("xls"@[0] == 'x' && "xls"@[1] == 'l' && "xls"@[2] == 's');
            assert(l[37] == "xls"@);
            assert(short_id_code("xls"@) == 1058748800);
        } else if k == 38 {
            reveal_strlit("csv");
            assert("csv"@[0] == 'c' && "csv"@[1] == 's' && "csv"@[2] == 'v');
            assert(l[38] == "csv"@);
            assert(short_id_code("csv"@) == 1014823680);
        } else if k == 39 {
            reveal_strlit("tsv");
            assert("tsv"@[0] == 't' && "tsv"@[1] == 's' && "tsv"@[2] == 'v');
            assert(l[39] == "tsv"@);
            assert(short_id_code("tsv"@) == 1050475264);
        } else if k == 40 {
            reveal_strlit("odp");
            assert("odp"@[0] == 'o' && "odp"@[1] == 'd' && "odp"@[2] == 'p');
            assert(l[40] == "odp"@);
            assert(short_id_code("odp"@) == 1039742976);
        } else if k == 41 {
            reveal_strlit("pptx");
            assert("pptx"@[0] == 'p' && "pptx"@[1] == 'p' && "pptx"@[2] == 't' && "pptx"@[3] == 'x');
            assert(l[41] == "pptx"@);
            assert(short_id_code("pptx"@) == 1310472824);
        } else if k == 42 {
            reveal_strlit("ppt");
            assert("ppt"@[0] == 'p' && "ppt"@[1] == 'p' && "ppt"@[2] == 't');
            assert(l[42] == "ppt"@);
            assert(short_id_code("ppt"@) == 1042037248);
        }
    }
}

/// No two catalogue formats share an id, so a table keyed by format id has
/// each key once.
pub proof fn catalogue_ids_are_distinct()
    ensures
        format_ids(format_catalog()).no_duplicates(),
        format_ids(format_catalog()) == catalogue_id_list(),
{
    image_part_facts();
    audio_part_facts();
    video_part_facts();
    document_part_facts();
    let a = image_catalog();
    let b = audio_catalog();
    let c = video_catalog();
    let d = document_catalog();
    assert(format_ids(a + b + c + d) =~= format_ids(a) + format_ids(b) + format_ids(c) + format_ids(d));
    assert(format_ids(format_catalog()) =~= catalogue_id_list());
    lemma_catalogue_positions();
    let l = catalogue_id_list();
    assert forall|i: int, j: int| 0 <= i < l.len() && 0 <= j < l.len() && i != j implies l[i] != l[j] by {
        assert(catalogue_position(short_id_code(l[i])) == i);
        assert(catalogue_position(short_id_code(l[j])) == j);
    }
}

/// A number that tells the catalogue's extensions apart: the length, then
/// up to eight character codes.
spec fn extension_code(s: Seq<char>) -> int {
    let c = |k: int| if k < s.len() { s[k] as int } else { 0 };
    ((((((((s.len() * 128 + c(0)) * 128 + c(1)) * 128 + c(2)) * 128 + c(3)) * 128 + c(4)) * 128 + c(5)) * 128 + c(6)) * 128) + c(7)
}

/// The catalogue position of the format that lists the extension whose code
/// is `n`.
spec fn extension_owner(n: int) -> int {
    if n == 276341597438738432 {
        0
    } else if n == 348399150406041600 {
        0
    } else if n == 279710501066244096 {
        1
    } else if n == 355669020625600512 {
        2
    } else if n == 271825112909479936 {
        3
    } else if n == 281940276287635456 {
        4
    } else if n == 353997897705979904 {
        4
    } else if n == 274621926893158400 {
        5
    } else if n == 343359126274834432 {
        6
    } else if n == 278028660592607232 {
        7
    } else if n == 283594491531624448 {
        8
    } else if n == 346129619893616640 {
        9
    } else if n == 271208939721326592 {
        10
    } else if n == 277766358349905920 {
        11
    } else if n == 279116764787245056 {
        12
    } else if n == 279116558628814848 {
        12
    } else if n == 351214453150187520 {
        13
    } else if n == 271244227172630528 {
        14
    } else if n == 343301848590974976 {
        14
    } else if n == 343301847785668608 {
        14
    } else if n == 271216086546907136 {
        16
    } else if n == 278028694952345600 {
        17
    } else if n == 278008972462522368 {
        18
    } else if n == 355669019820294144 {
        19
    } else if n == 278026564648566784 {
        20
    } else if n == 271301504856489984 {
        21
    } else if n == 277767079904411648 {
        22
    } else if n == 350088000266305536 {
        23
    } else if n == 278030447299002368 {
        23
    } else if n == 279117280183320576 {
        24
    } else if n == 209923158021505024 {
        25
    } else if n == 278048451801907200 {
        25
    } else if n == 349815839999918080 {
        25
    } else if n == 279666486241394688 {
        26
    } else if n == 279104017324310528 {
        27
    } else if n == 345016988482928640 {
        28
    } else if n == 272959362232745984 {
        29
    } else if n == 280862754892414976 {
        30
    } else if n == 282006728021639168 {
        31
    } else if n == 205916537649889280 {
        32
    } else if n == 638252853682240494 {
        32
    } else if n == 347291118905327616 {
        33
    } else if n == 275233495876370432 {
        33
    } else if n == 428303376652959744 {
        33
    } else if n == 345584949052571648 {
        34
    } else if n == 279103982964572160 {
        35
    } else if n == 356263343167635456 {
        36
    } else if n == 284205716917452800 {
        37
    } else if n == 272414657300398080 {
        38
    } else if n == 281984806508560384 {
        39
    } else if n == 279103879885357056 {
        40
    } else if n == 351777370086047744 {
        41
    } else if n == 279719743835865088 {
        42
    } else {
        -1
    }
}

proof fn image_extension_facts()
    ensures
        forall|i: int, e: int| 0 <= i < image_catalog().len() && 0 <= e < image_catalog()[i].extensions.len() ==> {
            let x = #[trigger] image_catalog()[i].extensions[e];
            &&& extension_owner(extension_code(x)) == i + 0
            &&& clean_name(x) == x
        },
{
    let c = image_catalog();
    assert(c.len() == 7);
    assert forall|i: int, e: int| 0 <= i < c.len() && 0 <= e < c[i].extensions.len() implies ({
        let x = #[trigger] c[i].extensions[e];
        &&& extension_owner(extension_code(x)) == i + 0
        &&& clean_name(x) == x
    }) by {
        if i == 0 {
            if e == 0 {
                reveal_strlit("jpg");
                assert("jpg"@[0] == 'j' && "jpg"@[1] == 'p' && "jpg"@[2] == 'g');
                assert(c[0].extensions[0] == "jpg"@);
                assert(extension_code("jpg"@) == 276341597438738432);
                assert(strip_leading("jpg"@, '.') == "jpg"@);
                assert(clean_name("jpg"@) =~= "jpg"@);
            } else if e == 1 {
                reveal_strlit("jpeg");
                assert("jpeg"@[0] == 'j' && "jpeg"@[1] == 'p' && "jpeg"@[2] == 'e' && "jpeg"@[3] == 'g');
                assert(c[0].extensions[1] == "jpeg"@);
                assert(extension_code("jpeg"@) == 348399150406041600);
                assert(strip_leading("jpeg"@, '.') == "jpeg"@);
                assert(clean_name("jpeg"@) =~= "jpeg"@);
            }
        } else if i == 1 {
            if e == 0 {
                reveal_strlit("png");
                assert("png"@[0] == 'p' && "png"@[1] == 'n' && "png"@[2] == 'g');
                assert(c[1].extensions[0] == "png"@);
                assert(extension_code("png"@) == 279710501066244096);
                assert(strip_leading("png"@, '.') == "png"@);
                assert(clean_name("png"@) =~= "png"@);
            }
        } else if i == 2 {
            if e == 0 {
                reveal_strlit("webp");
                assert("webp"@[0] == 'w' && "webp"@[1] == 'e' && "webp"@[2] == 'b' && "webp"@[3] == 'p');
                assert(c[2].extensions[0] == "webp"@);
                assert(extension_code("webp"@) == 355669020625600512);
                assert(strip_leading("webp"@, '.') == "webp"@);
                assert(clean_name("webp"@) =~= "webp"@);
            }
        } else if i == 3 {
            if e == 0 {
                reveal_strlit("bmp");
                assert("bmp"@[0] == 'b' && "bmp"@[1] == 'm' && "bmp"@[2] == 'p');
                assert(c[3].extensions[0] == "bmp"@);
                assert(extension_code("bmp"@) == 271825112909479936);
                assert(strip_leading("bmp"@, '.') == "bmp"@);
                assert(clean_name("bmp"@) =~= "bmp"@);
            }
        } else if i == 4 {
            if e == 0 {
                reveal_strlit("tif");
                assert("tif"@[0] == 't' && "tif"@[1] == 'i' && "tif"@[2] == 'f');
                assert(c[4].extensions[0] == "tif"@);
                assert(extension_code("tif"@) == 281940276287635456);
                assert(strip_leading("tif"@, '.') == "tif"@);
                assert(clean_name("tif"@) =~= "tif"@);
            } else if e == 1 {
                reveal_strlit("tiff");
                assert("tiff"@[0] == 't' && "tiff"@[1] == 'i' && "tiff"@[2] == 'f' && "tiff"@[3] == 'f');
                assert(c[4].extensions[1] == "tiff"@);
                assert(extension_code("tiff"@) == 353997897705979904);
                assert(strip_leading("tiff"@, '.') == "tiff"@);
                assert(clean_name("tiff"@) =~= "tiff"@);
            }
        } else if i == 5 {
            if e == 0 {
                reveal_strlit("gif");
                assert("gif"@[0] == 'g' && "gif"@[1] == 'i' && "gif"@[2] == 'f');
                assert(c[5].extensions[0] == "gif"@);
                assert(extension_code("gif"@) == 274621926893158400);
                assert(strip_leading("gif"@, '.') == "gif"@);
                assert(clean_name("gif"@) =~= "gif"@);
            }
        } else if i == 6 {
            if e == 0 {
                reveal_strlit("avif");
                assert("avif"@[0] == 'a' && "avif"@[1] == 'v' && "avif"@[2] == 'i' && "avif"@[3] == 'f');
                assert(c[6].extensions[0] == "avif"@);
                assert(extension_code("avif"@) == 343359126274834432);
                assert(strip_leading("avif"@, '.') == "avif"@);
                assert(clean_name("avif"@) =~= "avif"@);
            }
        }
    }
}

proof fn audio_extension_facts()
    ensures
        forall|i: int, e: int| 0 <= i < audio_catalog().len() && 0 <= e < audio_catalog()[i].extensions.len() ==> {
            let x = #[trigger] audio_catalog()[i].extensions[e];
            &&& extension_owner(extension_code(x)) == i + 7
            &&& clean_name(x) == x
        },
{
    let c = audio_catalog();
    assert(c.len() == 10);
    assert forall|i: int, e: int| 0 <= i < c.len() && 0 <= e < c[i].extensions.len() implies ({
        let x = #[trigger] c[i].extensions[e];
        &&& extension_owner(extension_code(x)) == i + 7
        &&& clean_name(x) == x
    }) by {
        if i == 0 {
            if e == 0 {
                reveal_strlit("mp3");
                assert("mp3"@[0] == 'm' && "mp3"@[1] == 'p' && "mp3"@[2] == '3');
                assert(c[0].extensions[0] == "mp3"@);
                assert(extension_code("mp3"@) == 278028660592607232);
                assert(strip_leading("mp3"@, '.') == "mp3"@);
                assert(clean_name("mp3"@) =~= "mp3"@);
            }
        } else if i == 1 {
            if e == 0 {
                reveal_strlit("wav");
                assert("wav"@[0] == 'w' && "wav"@[1] == 'a' && "wav"@[2] == 'v');
                assert(c[1].extensions[0] == "wav"@);
                assert(extension_code("wav"@) == 283594491531624448);
                assert(strip_leading("wav"@, '.') == "wav"@);
                assert(clean_name("wav"@) =~= "wav"@);
            }
        } else if i == 2 {
            if e == 0 {
                reveal_strlit("flac");
                assert("flac"@[0] == 'f' && "flac"@[1] == 'l' && "flac"@[2] == 'a' && "flac"@[3] == 'c');
                assert(c[2].extensions[0] == "flac"@);
                assert(extension_code("flac"@) == 346129619893616640);
                assert(strip_leading("flac"@, '.') == "flac"@);
                assert(clean_name("flac"@) =~= "flac"@);
            }
        } else if i == 3 {
            if e == 0 {
                reveal_strlit("aac");
                assert("aac"@[0] == 'a' && "aac"@[1] == 'a' && "aac"@[2] == 'c');
                assert(c[3].extensions[0] == "aac"@);
                assert(extension_code("aac"@) == 271208939721326592);
                assert(strip_leading("aac"@, '.') == "aac"@);
                assert(clean_name("aac"@) =~= "aac"@);
            }
        } else if i == 4 {
            if e == 0 {
                reveal_strlit("m4a");
                assert("m4a"@[0] == 'm' && "m4a"@[1] == '4' && "m4a"@[2] == 'a');
                assert(c[4].extensions[0] == "m4a"@);
                assert(extension_code("m4a"@) == 277766358349905920);
                assert(strip_leading("m4a"@, '.') == "m4a"@);
                assert(clean_name("m4a"@) =~= "m4a"@);
            }
        } else if i == 5 {
            if e == 0 {
                reveal_strlit("ogg");
                assert("ogg"@[0] == 'o' && "ogg"@[1] == 'g' && "ogg"@[2] == 'g');
                assert(c[5].extensions[0] == "ogg"@);
                assert(extension_code("ogg"@) == 279116764787245056);
                assert(strip_leading("ogg"@, '.') == "ogg"@);
                assert(clean_name("ogg"@) =~= "ogg"@);
            } else if e == 1 {
                reveal_strlit("oga");
                assert("oga"@[0] == 'o' && "oga"@[1] == 'g' && "oga"@[2] == 'a');
                assert(c[5].extensions[1] == "oga"@);
                assert(extension_code("oga"@) == 279116558628814848);
                assert(strip_leading("oga"@, '.') == "oga"@);
                assert(clean_name("oga"@) =~= "oga"@);
            }
        } else if i == 6 {
            if e == 0 {
                reveal_strlit("opus");
                assert("opus"@[0] == 'o' && "opus"@[1] == 'p' && "opus"@[2] == 'u' && "opus"@[3] == 's');
                assert(c[6].extensions[0] == "opus"@);
                assert(extension_code("opus"@) == 351214453150187520);
                assert(strip_leading("opus"@, '.') == "opus"@);
                assert(clean_name("opus"@) =~= "opus"@);
            }
        } else if i == 7 {
            if e == 0 {
                reveal_strlit("aif");
                assert("aif"@[0] == 'a' && "aif"@[1] == 'i' && "aif"@[2] == 'f');
                assert(c[7].extensions[0] == "aif"@);
                assert(extension_code("aif"@) == 271244227172630528);
                assert(strip_leading("aif"@, '.') == "aif"@);
                assert(clean_name("aif"@) =~= "aif"@);
            } else if e == 1 {
                reveal_strlit("aiff");
                assert("aiff"@[0] == 'a' && "aiff"@[1] == 'i' && "aiff"@[2] == 'f' && "aiff"@[3] == 'f');
                assert(c[7].extensions[1] == "aiff"@);
                assert(extension_code("aiff"@) == 343301848590974976);
                assert(strip_leading("aiff"@, '.') == "aiff"@);
                assert(clean_name("aiff"@) =~= "aiff"@);
            } else if e == 2 {
                reveal_strlit("aifc");
                assert("aifc"@[0] == 'a' && "aifc"@[1] == 'i' && "aifc"@[2] == 'f' && "aifc"@[3] == 'c');
                assert(c[7].extensions[2] == "aifc"@);
                assert(extension_code("aifc"@) == 343301847785668608);
                assert(strip_leading("aifc"@, '.') == "aifc"@);
                assert(clean_name("aifc"@) =~= "aifc"@);
            }
        } else if i == 8 {
            assert(c[8].extensions.len() == 0);
        } else if i == 9 {
            if e == 0 {
                reveal_strlit("ac3");
                assert("ac3"@[0] == 'a' && "ac3"@[1] == 'c' && "ac3"@[2] == '3');
                assert(c[9].extensions[0] == "ac3"@);
                assert(extension_code("ac3"@) == 271216086546907136);
                assert(strip_leading("ac3"@, '.') == "ac3"@);
                assert(clean_name("ac3"@) =~= "ac3"@);
            }
        }
    }
}

proof fn video_extension_facts()
    ensures
        forall|i: int, e: int| 0 <= i < video_catalog().len() && 0 <= e < video_catalog()[i].extensions.len() ==> {
            let x = #[trigger] video_catalog()[i].extensions[e];
            &&& extension_owner(extension_code(x)) == i + 17
            &&& clean_name(x) == x
        },
{
    let c = video_catalog();
    assert(c.len() == 9);
    assert forall|i: int, e: int| 0 <= i < c.len() && 0 <= e < c[i].extensions.len() implies ({
        let x = #[trigger] c[i].extensions[e];
        &&& extension_owner(extension_code(x)) == i + 17
        &&& clean_name(x) == x
    }) by {
        if i == 0 {
            if e == 0 {
                reveal_strlit("mp4");
                assert("mp4"@[0] == 'm' && "mp4"@[1] == 'p' && "mp4"@[2] == '4');
                assert(c[0].extensions[0] == "mp4"@);
                assert(extension_code("mp4"@) == 278028694952345600);
                assert(strip_leading("mp4"@, '.') == "mp4"@);
                assert(clean_name("mp4"@) =~= "mp4"@);
            }
        } else if i == 1 {
            if e == 0 {
                reveal_strlit("mkv");
                assert("mkv"@[0] == 'm' && "mkv"@[1] == 'k' && "mkv"@[2] == 'v');
                assert(c[1].extensions[0] == "mkv"@);
                assert(extension_code("mkv"@) == 278008972462522368);
                assert(strip_leading("mkv"@, '.') == "mkv"@);
                assert(clean_name("mkv"@) =~= "mkv"@);
            }
        } else if i == 2 {
            if e == 0 {
                reveal_strlit("webm");
                assert("webm"@[0] == 'w' && "webm"@[1] == 'e' && "webm"@[2] == 'b' && "webm"@[3] == 'm');
                assert(c[2].extensions[0] == "webm"@);
                assert(extension_code("webm"@) == 355669019820294144);
                assert(strip_leading("webm"@, '.') == "webm"@);
                assert(clean_name("webm"@) =~= "webm"@);
            }
        } else if i == 3 {
            if e == 0 {
                reveal_strlit("mov");
                assert("mov"@[0] == 'm' && "mov"@[1] == 'o' && "mov"@[2] == 'v');
                assert(c[3].extensions[0] == "mov"@);
                assert(extension_code("mov"@) == 278026564648566784);
                assert(strip_leading("mov"@, '.') == "mov"@);
                assert(clean_name("mov"@) =~= "mov"@);
            }
        } else if i == 4 {
            if e == 0 {
                reveal_strlit("avi");
                assert("avi"@[0] == 'a' && "avi"@[1] == 'v' && "avi"@[2] == 'i');
                assert(c[4].extensions[0] == "avi"@);
                assert(extension_code("avi"@) == 271301504856489984);
                assert(strip_leading("avi"@, '.') == "avi"@);
                assert(clean_name("avi"@) =~= "avi"@);
            }
        } else if i == 5 {
            if e == 0 {
                reveal_strlit("m4v");
                assert("m4v"@[0] == 'm' && "m4v"@[1] == '4' && "m4v"@[2] == 'v');
                assert(c[5].extensions[0] == "m4v"@);
                assert(extension_code("m4v"@) == 277767079904411648);
                assert(strip_leading("m4v"@, '.') == "m4v"@);
                assert(clean_name("m4v"@) =~= "m4v"@);
            }
        } else if i == 6 {
            if e == 0 {
                reveal_strlit("mpeg");
                assert("mpeg"@[0] == 'm' && "mpeg"@[1] == 'p' && "mpeg"@[2] == 'e' && "mpeg"@[3] == 'g');
                assert(c[6].extensions[0] == "mpeg"@);
                assert(extension_code("mpeg"@) == 350088000266305536);
                assert(strip_leading("mpeg"@, '.') == "mpeg"@);
                assert(clean_name("mpeg"@) =~= "mpeg"@);
            } else if e == 1 {
                reveal_strlit("mpg");
                assert("mpg"@[0] == 'm' && "mpg"@[1] == 'p' && "mpg"@[2] == 'g');
                assert(c[6].extensions[1] == "mpg"@);
                assert(extension_code("mpg"@) == 278030447299002368);
                assert(strip_leading("mpg"@, '.') == "mpg"@);
                assert(clean_name("mpg"@) =~= "mpg"@);
            }
        } else if i == 7 {
            if e == 0 {
                reveal_strlit("ogv");
                assert("ogv"@[0] == 'o' && "ogv"@[1] == 'g' && "ogv"@[2] == 'v');
                assert(c[7].extensions[0] == "ogv"@);
                assert(extension_code("ogv"@) == 279117280183320576);
                assert(strip_leading("ogv"@, '.') == "ogv"@);
                assert(clean_name("ogv"@) =~= "ogv"@);
            }
        } else if i == 8 {
            if e == 0 {
                reveal_strlit("ts");
                assert("ts"@[0] == 't' && "ts"@[1] == 's');
                assert(c[8].extensions[0] == "ts"@);
                assert(extension_code("ts"@) == 209923158021505024);
                assert(strip_leading("ts"@, '.') == "ts"@);
                assert(clean_name("ts"@) =~= "ts"@);
            } else if e == 1 {
                reveal_strlit("mts");
                assert("mts"@[0] == 'm' && "mts"@[1] == 't' && "mts"@[2] == 's');
                assert(c[8].extensions[1] == "mts"@);
                assert(extension_code("mts"@) == 278048451801907200);
                assert(strip_leading("mts"@, '.') == "mts"@);
                assert(clean_name("mts"@) =~= "mts"@);
            } else if e == 2 {
                reveal_strlit("m2ts");
                assert("m2ts"@[0] == 'm' && "m2ts"@[1] == '2' && "m2ts"@[2] == 't' && "m2ts"@[3] == 's');
                assert(c[8].extensions[2] == "m2ts"@);
                assert(extension_code("m2ts"@) == 349815839999918080);
                assert(strip_leading("m2ts"@, '.') == "m2ts"@);
                assert(clean_name("m2ts"@) =~= "m2ts"@);
            }
        }
    }
}

proof fn document_extension_facts()
    ensures
        forall|i: int, e: int| 0 <= i < document_catalog().len() && 0 <= e < document_catalog()[i].extensions.len() ==> {
            let x = #[trigger] document_catalog()[i].extensions[e];
            &&& extension_owner(extension_code(x)) == i + 26
            &&& clean_name(x) == x
        },
{
    let c = document_catalog();
    assert(c.len() == 17);
    assert forall|i: int, e: int| 0 <= i < c.len() && 0 <= e < c[i].extensions.len() implies ({
        let x = #[trigger] c[i].extensions[e];
        &&& extension_owner(extension_code(x)) == i + 26
        &&& clean_name(x) == x
    }) by {
        if i == 0 {
            if e == 0 {
                reveal_strlit("pdf");
                assert("pdf"@[0] == 'p' && "pdf"@[1] == 'd' && "pdf"@[2] == 'f');
                assert(c[0].extensions[0] == "pdf"@);
                assert(extension_code("pdf"@) == 279666486241394688);
                assert(strip_leading("pdf"@, '.') == "pdf"@);
                assert(clean_name("pdf"@) =~= "pdf"@);
            }
        } else if i == 1 {
            if e == 0 {
                reveal_strlit("odt");
                assert("odt"@[0] == 'o' && "odt"@[1] == 'd' && "odt"@[2] == 't');
                assert(c[1].extensions[0] == "odt"@);
                assert(extension_code("odt"@) == 279104017324310528);
                assert(strip_leading("odt"@, '.') == "odt"@);
                assert(clean_name("odt"@) =~= "odt"@);
            }
        } else if i == 2 {
            if e == 0 {
                reveal_strlit("docx");
                assert("docx"@[0] == 'd' && "docx"@[1] == 'o' && "docx"@[2] == 'c' && "docx"@[3] == 'x');
                assert(c[2].extensions[0] == "docx"@);
                assert(extension_code("docx"@) == 345016988482928640);
                assert(strip_leading("docx"@, '.') == "docx"@);
                assert(clean_name("docx"@) =~= "docx"@);
            }
        } else if i == 3 {
            if e == 0 {
                reveal_strlit("doc");
                assert("doc"@[0] == 'd' && "doc"@[1] == 'o' && "doc"@[2] == 'c');
                assert(c[3].extensions[0] == "doc"@);
                assert(extension_code("doc"@) == 272959362232745984);
                assert(strip_leading("doc"@, '.') == "doc"@);
                assert(clean_name("doc"@) =~= "doc"@);
            }
        } else if i == 4 {
            if e == 0 {
                reveal_strlit("rtf");
                assert("rtf"@[0] == 'r' && "rtf"@[1] == 't' && "rtf"@[2] == 'f');
                assert(c[4].extensions[0] == "rtf"@);
                assert(extension_code("rtf"@) == 280862754892414976);
                assert(strip_leading("rtf"@, '.') == "rtf"@);
                assert(clean_name("rtf"@) =~= "rtf"@);
            }
        } else if i == 5 {
            if e == 0 {
                reveal_strlit("txt");
                assert("txt"@[0] == 't' && "txt"@[1] == 'x' && "txt"@[2] == 't');
                assert(c[5].extensions[0] == "txt"@);
                assert(extension_code("txt"@) == 282006728021639168);
                assert(strip_leading("txt"@, '.') == "txt"@);
                assert(clean_name("txt"@) =~= "txt"@);
            }
        } else if i == 6 {
            if e == 0 {
                reveal_strlit("md");
                assert("md"@[0] == 'm' && "md"@[1] == 'd');
                assert(c[6].extensions[0] == "md"@);
                assert(extension_code("md"@) == 205916537649889280);
                assert(strip_leading("md"@, '.') == "md"@);
                assert(clean_name("md"@) =~= "md"@);
            } else if e == 1 {
                reveal_strlit("markdown");
                assert("markdown"@[0] == 'm' && "markdown"@[1] == 'a' && "markdown"@[2] == 'r' && "markdown"@[3] == 'k' && "markdown"@[4] == 'd' && "markdown"@[5] == 'o' && "markdown"@[6] == 'w' && "markdown"@[7] == 'n');
                assert(c[6].extensions[1] == "markdown"@);
                assert(extension_code("markdown"@) == 638252853682240494);
                assert(strip_leading("markdown"@, '.') == "markdown"@);
                assert(clean_name("markdown"@) =~= "markdown"@);
            }
        } else if i == 7 {
            if e == 0 {
                reveal_strlit("html");
                assert("html"@[0] == 'h' && "html"@[1] == 't' && "html"@[2] == 'm' && "html"@[3] == 'l');
                assert(c[7].extensions[0] == "html"@);
                assert(extension_code("html"@) == 347291118905327616);
                assert(strip_leading("html"@, '.') == "html"@);
                assert(clean_name("html"@) =~= "html"@);
            } else if e == 1 {
                reveal_strlit("htm");
                assert("htm"@[0] == 'h' && "htm"@[1] == 't' && "htm"@[2] == 'm');
                assert(c[7].extensions[1] == "htm"@);
                assert(extension_code("htm"@) == 275233495876370432);
                assert(strip_leading("htm"@, '.') == "htm"@);
                assert(clean_name("htm"@) =~= "htm"@);
            } else if e == 2 {
                reveal_strlit("xhtml");
                assert("xhtml"@[0] == 'x' && "xhtml"@[1] == 'h' && "xhtml"@[2] == 't' && "xhtml"@[3] == 'm' && "xhtml"@[4] == 'l');
                assert(c[7].extensions[2] == "xhtml"@);
                assert(extension_code("xhtml"@) == 428303376652959744);
                assert(strip_leading("xhtml"@, '.') == "xhtml"@);
                assert(clean_name("xhtml"@) =~= "xhtml"@);
            }
        } else if i == 8 {
            if e == 0 {
                reveal_strlit("epub");
                assert("epub"@[0] == 'e' && "epub"@[1] == 'p' && "epub"@[2] == 'u' && "epub"@[3] == 'b');
                assert(c[8].extensions[0] == "epub"@);
                assert(extension_code("epub"@) == 345584949052571648);
                assert(strip_leading("epub"@, '.') == "epub"@);
                assert(clean_name("epub"@) =~= "epub"@);
            }
        } else if i == 9 {
            if e == 0 {
                reveal_strlit("ods");
                assert("ods"@[0] == 'o' && "ods"@[1] == 'd' && "ods"@[2] == 's');
                assert(c[9].extensions[0] == "ods"@);
                assert(extension_code("ods"@) == 279103982964572160);
                assert(strip_leading("ods"@, '.') == "ods"@);
                assert(clean_name("ods"@) =~= "ods"@);
            }
        } else if i == 10 {
            if e == 0 {
                reveal_strlit("xlsx");
                assert("xlsx"@[0] == 'x' && "xlsx"@[1] == 'l' && "xlsx"@[2] == 's' && "xlsx"@[3] == 'x');
                assert(c[10].extensions[0] == "xlsx"@);
                assert(extension_code("xlsx"@) == 356263343167635456);
                assert(strip_leading("xlsx"@, '.') == "xlsx"@);
                assert(clean_name("xlsx"@) =~= "xlsx"@);
            }
        } else if i == 11 {
            if e == 0 {
                reveal_strlit("xls");
                assert("xls"@[0] == 'x' && "xls"@[1] == 'l' && "xls"@[2] == 's');
                assert(c[11].extensions[0] == "xls"@);
                assert(extension_code("xls"@) == 284205716917452800);
                assert(strip_leading("xls"@, '.') == "xls"@);
                assert(clean_name("xls"@) =~= "xls"@);
            }
        } else if i == 12 {
            if e == 0 {
                reveal_strlit("csv");
                assert("csv"@[0] == 'c' && "csv"@[1] == 's' && "csv"@[2] == 'v');
                assert(c[12].extensions[0] == "csv"@);
                assert(extension_code("csv"@) == 272414657300398080);
                assert(strip_leading("csv"@, '.') == "csv"@);
                assert(clean_name("csv"@) =~= "csv"@);
            }
        } else if i == 13 {
            if e == 0 {
                reveal_strlit("tsv");
                assert("tsv"@[0] == 't' && "tsv"@[1] == 's' && "tsv"@[2] == 'v');
                assert(c[13].extensions[0] == "tsv"@);
                assert(extension_code("tsv"@) == 281984806508560384);
                assert(strip_leading("tsv"@, '.') == "tsv"@);
                assert(clean_name("tsv"@) =~= "tsv"@);
            }
        } else if i == 14 {
            if e == 0 {
                reveal_strlit("odp");
                assert("odp"@[0] == 'o' && "odp"@[1] == 'd' && "odp"@[2] == 'p');
                assert(c[14].extensions[0] == "odp"@);
                assert(extension_code("odp"@) == 279103879885357056);
                assert(strip_leading("odp"@, '.') == "odp"@);
                assert(clean_name("odp"@) =~= "odp"@);
            }
        } else if i == 15 {
            if e == 0 {
                reveal_strlit("pptx");
                assert("pptx"@[0] == 'p' && "pptx"@[1] == 'p' && "pptx"@[2] == 't' && "pptx"@[3] == 'x');
                assert(c[15].extensions[0] == "pptx"@);
                assert(extension_code("pptx"@) == 351777370086047744);
                assert(strip_leading("pptx"@, '.') == "pptx"@);
                assert(clean_name("pptx"@) =~= "pptx"@);
            }
        } else if i == 16 {
            if e == 0 {
                reveal_strlit("ppt");
                assert("ppt"@[0] == 'p' && "ppt"@[1] == 'p' && "ppt"@[2] == 't');
                assert(c[16].extensions[0] == "ppt"@);
                assert(extension_code("ppt"@) == 279719743835865088);
                assert(strip_leading("ppt"@, '.') == "ppt"@);
                assert(clean_name("ppt"@) =~= "ppt"@);
            }
        }
    }
}

proof fn lemma_first_with_extension_at(cat: Seq<FormatView>, x: Seq<char>, i: int)
    requires
        0 <= i < cat.len(),
        cat[i].extensions.contains(x),
        forall|j: int| 0 <= j < i ==> !(#[trigger] cat[j]).extensions.contains(x),
    ensures
        first_with_extension(cat, x) == Some(cat[i]),
    decreases i,
{
    if i > 0 {
        assert(!cat[0].extensions.contains(x));
        assert forall|j: int| 0 <= j < i - 1 implies !(#[trigger] cat.drop_first()[j]).extensions.contains(x) by {
            assert(cat.drop_first()[j] == cat[j + 1]);
        }
        lemma_first_with_extension_at(cat.drop_first(), x, i - 1);
    }
}

/// Every extension that a catalogue format lists is detected as that format:
/// no two formats share an extension, and the listed extensions are already
/// in the form detection compares (lower case, no leading dot).
pub proof fn catalogue_extensions_detect_their_format()
    ensures
        forall|i: int, e: int| 0 <= i < format_catalog().len() && 0 <= e < format_catalog()[i].extensions.len()
            ==> spec_detect_format(#[trigger] format_catalog()[i].extensions[e]) == Some(format_catalog()[i]),
{
    image_extension_facts();
    audio_extension_facts();
    video_extension_facts();
    document_extension_facts();
    let a = image_catalog();
    let b = audio_catalog();
    let c = video_catalog();
    let d = document_catalog();
    assert(a.len() == 7 && b.len() == 10 && c.len() == 9 && d.len() == 17);
    let cat = format_catalog();
    assert forall|i: int, e: int| 0 <= i < cat.len() && 0 <= e < cat[i].extensions.len() implies ({
        let x = #[trigger] cat[i].extensions[e];
        extension_owner(extension_code(x)) == i && clean_name(x) == x
    }) by {
        if i < 7 {
            assert(cat[i] == a[i]);
            assert(a[i].extensions[e] == cat[i].extensions[e]);
        } else if i < 17 {
            assert(cat[i] == b[i - 7]);
            assert(b[i - 7].extensions[e] == cat[i].extensions[e]);
        } else if i < 26 {
            assert(cat[i] == c[i - 17]);
            assert(c[i - 17].extensions[e] == cat[i].extensions[e]);
        } else {
            assert(cat[i] == d[i - 26]);
            assert(d[i - 26].extensions[e] == cat[i].extensions[e]);
        }
    }
    assert forall|i: int, e: int| 0 <= i < cat.len() && 0 <= e < cat[i].extensions.len()
        implies spec_detect_format(#[trigger] cat[i].extensions[e]) == Some(cat[i]) by {
        let x = cat[i].extensions[e];
        assert(extension_owner(extension_code(x)) == i && clean_name(x) == x);
        assert forall|j: int| 0 <= j < i implies !(#[trigger] cat[j]).extensions.contains(x) by {
            if cat[j].extensions.contains(x) {
                let f = choose|f: int| 0 <= f < cat[j].extensions.len() && cat[j].extensions[f] == x;
                assert(extension_owner(extension_code(cat[j].extensions[f])) == j);
            }
        }
        assert(cat[i].extensions.contains(x));
        lemma_first_with_extension_at(cat, x, i);
    }
}

/// Markdown support grows with the version: 26.2 has it and 26.1 does not,
/// and every release at or after one that has it (ordered by major, then
/// minor) has it too.
pub proof fn markdown_support_grows_with_the_version(major: u32, minor: u32, later_major: u32, later_minor: u32)
    ensures
        spec_supports_markdown(26, 2),
        !spec_supports_markdown(26, 1),
        !spec_supports_markdown(25, u32::MAX),
        spec_supports_markdown(major, minor) && (later_major > major || (later_major == major && later_minor >= minor))
            ==> spec_supports_markdown(later_major, later_minor),
{
}

/// The HTML export filter follows the kind of the source: spreadsheets
/// (ods, fods, ots, xlsx, xls, csv, tsv) are exported with Calc's HTML
/// filter, every other source with Writer's; names are compared without
/// leading dots and letter case.
pub proof fn html_export_filter_follows_the_source(source: Seq<char>, target: Seq<char>)
    ensures
        ({
            let t = clean_name(target);
            let s = clean_name(source);
            t == "html"@ || t == "htm"@ || t == "xhtml"@ ==> spec_filter_for(source, target) == Some(
                if s == "ods"@ || s == "fods"@ || s == "ots"@ || s == "xlsx"@ || s == "xls"@ || s == "csv"@ || s == "tsv"@ {
                    "HTML (StarCalc)"@
                } else {
                    "HTML (StarWriter)"@
                },
            )
        }),
{
    reveal_strlit("html");
    reveal_strlit("htm");
    reveal_strlit("xhtml");
    reveal_strlit("pdf");
    assert("html"@[0] == 'h' && "htm"@[0] == 'h' && "xhtml"@[0] == 'x' && "pdf"@[0] == 'p');
}

proof fn lemma_text_family_exactly(t: Seq<char>)
    ensures
        text_family().contains(t) <==> (t == "pdf"@ || t == "odt"@ || t == "docx"@ || t == "doc"@ || t == "rtf"@ || t == "txt"@ || t == "md"@ || t == "html"@ || t == "epub"@),
{
    let l = text_family();
    if l.contains(t) {
        let k = choose|k: int| 0 <= k < l.len() && l[k] == t;
        if k == 0 {
            assert(t == "pdf"@);
        } else if k == 1 {
            assert(t == "odt"@);
        } else if k == 2 {
            assert(t == "docx"@);
        } else if k == 3 {
            assert(t == "doc"@);
        } else if k == 4 {
            assert(t == "rtf"@);
        } else if k == 5 {
            assert(t == "txt"@);
        } else if k == 6 {
            assert(t == "md"@);
        } else if k == 7 {
            assert(t == "html"@);
        } else if k == 8 {
            assert(t == "epub"@);
        }
    }
    if t == "pdf"@ {
        assert(l[0] == t);
    }
    if t == "odt"@ {
        assert(l[1] == t);
    }
    if t == "docx"@ {
        assert(l[2] == t);
    }
    if t == "doc"@ {
        assert(l[3] == t);
    }
    if t == "rtf"@ {
        assert(l[4] == t);
    }
    if t == "txt"@ {
        assert(l[5] == t);
    }
    if t == "md"@ {
        assert(l[6] == t);
    }
    if t == "html"@ {
        assert(l[7] == t);
    }
    if t == "epub"@ {
        assert(l[8] == t);
    }
}

proof fn lemma_sheet_family_exactly(t: Seq<char>)
    ensures
        sheet_family().contains(t) <==> (t == "pdf"@ || t == "ods"@ || t == "xlsx"@ || t == "xls"@ || t == "csv"@ || t == "tsv"@),
{
    let l = sheet_family();
    if l.contains(t) {
        let k = choose|k: int| 0 <= k < l.len() && l[k] == t;
        if k == 0 {
            assert(t == "pdf"@);
        } else if k == 1 {
            assert(t == "ods"@);
        } else if k == 2 {
            assert(t == "xlsx"@);
        } else if k == 3 {
            assert(t == "xls"@);
        } else if k == 4 {
            assert(t == "csv"@);
        } else if k == 5 {
            assert(t == "tsv"@);
        }
    }
    if t == "pdf"@ {
        assert(l[0] == t);
    }
    if t == "ods"@ {
        assert(l[1] == t);
    }
    if t == "xlsx"@ {
        assert(l[2] == t);
    }
    if t == "xls"@ {
        assert(l[3] == t);
    }
    if t == "csv"@ {
        assert(l[4] == t);
    }
    if t == "tsv"@ {
        assert(l[5] == t);
    }
}

proof fn lemma_presentation_family_exactly(t: Seq<char>)
    ensures
        presentation_family().contains(t) <==> (t == "pdf"@ || t == "odp"@ || t == "pptx"@ || t == "ppt"@),
{
    let l = presentation_family();
    if l.contains(t) {
        let k = choose|k: int| 0 <= k < l.len() && l[k] == t;
        if k == 0 {
            assert(t == "pdf"@);
        } else if k == 1 {
            assert(t == "odp"@);
        } else if k == 2 {
            assert(t == "pptx"@);
        } else if k == 3 {
            assert(t == "ppt"@);
        }
    }
    if t == "pdf"@ {
        assert(l[0] == t);
    }
    if t == "odp"@ {
        assert(l[1] == t);
    }
    if t == "pptx"@ {
        assert(l[2] == t);
    }
    if t == "ppt"@ {
        assert(l[3] == t);
    }
}

/// The targets of each kind of document source, exactly: a text document
/// (or PDF) converts to PDF, ODT, DOCX, DOC, RTF, TXT, Markdown, HTML and
/// EPUB; a spreadsheet to PDF, ODS, XLSX, XLS, CSV and TSV; a presentation
/// to PDF, ODP, PPTX and PPT; in each case except the source's own format.
/// Names are compared without leading dots and letter case.
pub proof fn document_targets_by_kind(source: Seq<char>, target: Seq<char>)
    ensures
        ({
            let c = clean_name(source);
            &&& (c == "pdf"@ || c == "docx"@ || c == "doc"@ || c == "odt"@ || c == "rtf"@ || c == "txt"@ || c == "md"@ || c == "markdown"@ || c == "html"@ || c == "htm"@ || c == "xhtml"@) ==> (spec_document_targets(source).contains(target)
                <==> (target == "pdf"@ || target == "odt"@ || target == "docx"@ || target == "doc"@ || target == "rtf"@ || target == "txt"@ || target == "md"@ || target == "html"@ || target == "epub"@) && target != c)
            &&& (c == "ods"@ || c == "xlsx"@ || c == "xls"@ || c == "csv"@ || c == "tsv"@) ==> (spec_document_targets(source).contains(target)
                <==> (target == "pdf"@ || target == "ods"@ || target == "xlsx"@ || target == "xls"@ || target == "csv"@ || target == "tsv"@) && target != c)
            &&& (c == "odp"@ || c == "pptx"@ || c == "ppt"@) ==> (spec_document_targets(source).contains(target)
                <==> (target == "pdf"@ || target == "odp"@ || target == "pptx"@ || target == "ppt"@) && target != c)
        }),
{
    reveal_strlit("csv");
    reveal_strlit("doc");
    reveal_strlit("docx");
    reveal_strlit("epub");
    reveal_strlit("htm");
    reveal_strlit("html");
    reveal_strlit("markdown");
    reveal_strlit("md");
    reveal_strlit("odp");
    reveal_strlit("ods");
    reveal_strlit("odt");
    reveal_strlit("pdf");
    reveal_strlit("ppt");
    reveal_strlit("pptx");
    reveal_strlit("rtf");
    reveal_strlit("tsv");
    reveal_strlit("txt");
    reveal_strlit("xhtml");
    reveal_strlit("xls");
    reveal_strlit("xlsx");
    assert("csv"@[0] == 'c' && "csv"@[1] == 's' && "csv"@[2] == 'v' && "doc"@[0] == 'd' && "doc"@[1] == 'o' && "doc"@[2] == 'c' && "docx"@[0] == 'd' && "docx"@[1] == 'o' && "docx"@[2] == 'c' && "docx"@[3] == 'x' && "epub"@[0] == 'e' && "epub"@[1] == 'p' && "epub"@[2] == 'u' && "epub"@[3] == 'b' && "htm"@[0] == 'h' && "htm"@[1] == 't' && "htm"@[2] == 'm' && "html"@[0] == 'h' && "html"@[1] == 't' && "html"@[2] == 'm' && "html"@[3] == 'l' && "markdown"@[0] == 'm' && "markdown"@[1] == 'a' && "markdown"@[2] == 'r' && "markdown"@[3] == 'k' && "markdown"@[4] == 'd' && "markdown"@[5] == 'o' && "markdown"@[6] == 'w' && "markdown"@[7] == 'n' && "md"@[0] == 'm' && "md"@[1] == 'd' && "odp"@[0] == 'o' && "odp"@[1] == 'd' && "odp"@[2] == 'p' && "ods"@[0] == 'o' && "ods"@[1] == 'd' && "ods"@[2] == 's' && "odt"@[0] == 'o' && "odt"@[1] == 'd' && "odt"@[2] == 't' && "pdf"@[0] == 'p' && "pdf"@[1] == 'd' && "pdf"@[2] == 'f' && "ppt"@[0] == 'p' && "ppt"@[1] == 'p' && "ppt"@[2] == 't' && "pptx"@[0] == 'p' && "pptx"@[1] == 'p' && "pptx"@[2] == 't' && "pptx"@[3] == 'x' && "rtf"@[0] == 'r' && "rtf"@[1] == 't' && "rtf"@[2] == 'f' && "tsv"@[0] == 't' && "tsv"@[1] == 's' && "tsv"@[2] == 'v' && "txt"@[0] == 't' && "txt"@[1] == 'x' && "txt"@[2] == 't' && "xhtml"@[0] == 'x' && "xhtml"@[1] == 'h' && "xhtml"@[2] == 't' && "xhtml"@[3] == 'm' && "xhtml"@[4] == 'l' && "xls"@[0] == 'x' && "xls"@[1] == 'l' && "xls"@[2] == 's' && "xlsx"@[0] == 'x' && "xlsx"@[1] == 'l' && "xlsx"@[2] == 's' && "xlsx"@[3] == 'x');
    let c = clean_name(source);
    document_targets_stay_in_family(source, target);
    lemma_text_family_exactly(target);
    lemma_sheet_family_exactly(target);
    lemma_presentation_family_exactly(target);
    if c == "ods"@ || c == "xlsx"@ || c == "xls"@ || c == "csv"@ || c == "tsv"@ {
        assert(!is_text_name(c) && c != "epub"@ && is_sheet_name(c));
        assert(document_family(c) == sheet_family());
    }
    if c == "odp"@ || c == "pptx"@ || c == "ppt"@ {
        assert(!is_text_name(c) && c != "epub"@ && !is_sheet_name(c) && is_presentation_name(c));
        assert(document_family(c) == presentation_family());
    }
}

proof fn lemma_first_with_id_is_in(cat: Seq<FormatView>, id: Seq<char>)
    ensures
        first_with_id(cat, id) matches Some(f) ==> exists|m: int| 0 <= m < cat.len() && #[trigger] cat[m] == f && f.id == id,
    decreases cat.len(),
{
    if cat.len() > 0 && cat[0].id != id {
        lemma_first_with_id_is_in(cat.drop_first(), id);
        match first_with_id(cat, id) {
            Some(f) => {
                let m = choose|m: int| 0 <= m < cat.drop_first().len() && #[trigger] cat.drop_first()[m] == f && f.id == id;
                assert(cat[m + 1] == f);
            },
            None => {},
        }
    } else if cat.len() > 0 {
        assert(cat[0] == cat[0]);
    }
}

/// MP4, MOV and M4V outputs are written for fast start: whenever FFmpeg
/// arguments exist for one of these targets, they end with `-movflags
/// +faststart` followed by the container (`-f` and its name).
pub proof fn mp4_family_outputs_start_fast(source: MediaCategory, target: Seq<char>)
    ensures
        (target == "mp4"@ || target == "mov"@ || target == "m4v"@) ==> (spec_ffmpeg_args(source, target) matches Some(a) ==> {
            &&& a.len() >= 4
            &&& a[a.len() - 4] == "-movflags"@
            &&& a[a.len() - 3] == "+faststart"@
            &&& a[a.len() - 2] == "-f"@
        }),
{
    if (target == "mp4"@ || target == "mov"@ || target == "m4v"@) && spec_ffmpeg_args(source, target) is Some {
        let cat = format_catalog();
        let f = spec_format_by_id(target)->0;
        lemma_first_with_id_is_in(cat, target);
        let m = choose|m: int| 0 <= m < cat.len() && #[trigger] cat[m] == f && f.id == target;
        catalogue_ids_are_distinct();
        lemma_catalogue_positions();
        catalog_formats_are_well_formed();
        video_part_facts();
        let l = catalogue_id_list();
        assert(format_ids(cat)[m] == target);
        assert(l[m] == target);
        assert(catalogue_position(short_id_code(l[m])) == m);
        reveal_strlit("mp4");
        reveal_strlit("mov");
        reveal_strlit("m4v");
        assert("mp4"@[0] == 'm' && "mp4"@[1] == 'p' && "mp4"@[2] == '4');
        assert("mov"@[0] == 'm' && "mov"@[1] == 'o' && "mov"@[2] == 'v');
        assert("m4v"@[0] == 'm' && "m4v"@[1] == '4' && "m4v"@[2] == 'v');
        let v = video_catalog();
        let a = image_catalog();
        let b = audio_catalog();
        let d = document_catalog();
        assert(a.len() == 7 && b.len() == 10 && v.len() == 9 && d.len() == 17);
        assert(17 <= m < 26);
        assert(cat[m] == v[m - 17]);
        assert(f.category == MediaCategory::Video);
        assert(format_is_well_formed(cat[m]));
    }
}

proof fn lemma_collision_resolves_to_an_attempt(path: Seq<char>, policy: OverwritePolicy, answers: Seq<bool>, attempt: nat)
    ensures
        spec_collision_run(path, policy, answers, attempt) matches CollisionStepView::Resolved(Ok(p)) ==> exists|k: nat|
            p == #[trigger] spec_attempt_path(path, k),
    decreases max_rename_index() + 1 - attempt,
{
    if attempt < answers.len() && attempt <= max_rename_index() {
        match spec_collision_step(path, policy, attempt, answers[attempt as int]) {
            CollisionStepView::Probe { .. } => {
                lemma_collision_resolves_to_an_attempt(path, policy, answers, attempt + 1);
            },
            CollisionStepView::Resolved(Ok(p)) => {
                if answers[attempt as int] {
                    assert(p == spec_attempt_path(path, 0));
                } else {
                    assert(p == spec_attempt_path(path, attempt));
                }
            },
            _ => {},
        }
    }
}

/// Every planned output is named after its input and the target format's
/// default extension from the catalogue: it is the output directory joined
/// with the input's stem (`output` when it has none), a dot and the default
/// extension, or one of that path's renamed alternatives; the temporary
/// output is that path with the temporary suffix.
pub proof fn planned_outputs_take_the_default_extension(r: RequestView, engines: EngineSetView, input: Seq<char>, obs: ObsView)
    ensures
        spec_plan_input(r, engines, input, obs) matches OutcomeView::Planned(p) ==> {
            &&& spec_format_by_id(r.target_format) is Some
            &&& spec_output_dir(r, input) is Some
            &&& exists|k: nat| p.final_output == #[trigger] spec_attempt_path(
                spec_path_join(
                    spec_output_dir(r, input)->0,
                    or_default(spec_path_file_stem(input), "output"@) + "."@ + spec_format_by_id(r.target_format)->0.default_extension,
                ),
                k,
            )
            &&& p.temp_output == spec_temp_output_path(p.final_output)
        },
{
    match (spec_output_dir(r, input), spec_format_by_id(r.target_format)) {
        (Some(dir), Some(f)) => {
            let requested = spec_path_join(dir, spec_output_name(input, f.default_extension));
            lemma_collision_resolves_to_an_attempt(requested, r.overwrite_policy, obs.exists, 0);
        },
        _ => {},
    }
}

/// The desktop application names its outputs the same way: a conversion it
/// runs writes the output directory joined with the input's stem
/// (`output` when it has none), a dot and the target format's default
/// extension, or one of that path's renamed alternatives.
pub proof fn desktop_outputs_take_the_default_extension(r: RequestView, input: Seq<char>, obs: ObsView)
    ensures
        spec_desktop_step(r, input, obs) matches DesktopStepView::Run { output_path, .. } ==> {
            &&& spec_format_by_id(r.target_format) is Some
            &&& spec_output_dir(r, input) is Some
            &&& exists|k: nat| output_path == #[trigger] spec_attempt_path(
                spec_path_join(
                    spec_output_dir(r, input)->0,
                    or_default(spec_path_file_stem(input), "output"@) + "."@ + spec_format_by_id(r.target_format)->0.default_extension,
                ),
                k,
            )
        },
{
    match (spec_output_dir(r, input), spec_format_by_id(r.target_format)) {
        (Some(dir), Some(f)) => {
            let stem = or_default(spec_path_file_stem(input), "output"@);
            let requested = spec_path_join(dir, stem + "."@ + f.default_extension);
            lemma_collision_resolves_to_an_attempt(requested, r.overwrite_policy, obs.exists, 0);
        },
        _ => {},
    }
}

/// LibreOffice is expected to write the input's stem (`output` when it has
/// none), a dot and the target format's default extension, in the working
/// directory; the extension looked for is that default extension.
pub proof fn document_output_takes_the_default_extension(input: Seq<char>, work_dir: Seq<char>, target: Seq<char>)
    ensures
        spec_expected_output(input, work_dir, target) matches Ok((p, e)) ==> {
            &&& spec_format_by_id(target) is Some
            &&& e == spec_format_by_id(target)->0.default_extension
            &&& p == spec_path_join(work_dir, or_default(spec_path_file_stem(input), "output"@) + "."@ + e)
        },
{
}

} // verus!
