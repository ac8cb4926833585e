//! Format detection, conversion capabilities and FFmpeg argument mapping.
use vstd::prelude::*;
use crate::catalog::{built_in_codecs, built_in_formats, codec_catalog, format_catalog};
use crate::models::{
    CodecDefinition, CodecView, ConversionCapabilities, FormatDefinition, FormatView,
    MediaCategory, codecs_view, formats_view, table_keys, table_view,
};
use crate::text::{
    chars_eq_str, clean_name, clean_name_exec, contains_string, owned, owned_strings,
    string_of, strings_view, strs_view, str_eq, copy_strings,
};

verus! {

/// The value of an optional format.
pub open spec fn opt_format_view(o: Option<FormatDefinition>) -> Option<FormatView> {
    match o {
        Some(f) => Some(f@),
        None => None,
    }
}

/// The first format of `cat` that lists the extension `ext`.
pub open spec fn first_with_extension(cat: Seq<FormatView>, ext: Seq<char>) -> Option<FormatView>
    decreases cat.len(),
{
    if cat.len() == 0 {
        None
    } else if cat[0].extensions.contains(ext) {
        Some(cat[0])
    } else {
        first_with_extension(cat.drop_first(), ext)
    }
}

/// The first format of `cat` whose id is `id`.
pub open spec fn first_with_id(cat: Seq<FormatView>, id: Seq<char>) -> Option<FormatView>
    decreases cat.len(),
{
    if cat.len() == 0 {
        None
    } else if cat[0].id == id {
        Some(cat[0])
    } else {
        first_with_id(cat.drop_first(), id)
    }
}

/// The first codec of `cat` whose id is `id`.
pub open spec fn first_codec_with_id(cat: Seq<CodecView>, id: Seq<char>) -> Option<CodecView>
    decreases cat.len(),
{
    if cat.len() == 0 {
        None
    } else if cat[0].id == id {
        Some(cat[0])
    } else {
        first_codec_with_id(cat.drop_first(), id)
    }
}

/// The format that an extension denotes: the first catalogue format listing
/// the extension, after leading dots are removed and ASCII letters lower-cased.
pub open spec fn spec_detect_format(extension: Seq<char>) -> Option<FormatView> {
    first_with_extension(format_catalog(), clean_name(extension))
}

/// The catalogue format with the given id, compared exactly.
pub open spec fn spec_format_by_id(id: Seq<char>) -> Option<FormatView> {
    first_with_id(format_catalog(), id)
}

/// Which target categories a source category can be converted to: images to
/// images, audio to audio, video to video and audio, documents to documents.
pub open spec fn category_accepts(source: MediaCategory, target: MediaCategory) -> bool {
    match source {
        MediaCategory::Image => target == MediaCategory::Image,
        MediaCategory::Audio => target == MediaCategory::Audio,
        MediaCategory::Video => target == MediaCategory::Video || target == MediaCategory::Audio,
        MediaCategory::Document => target == MediaCategory::Document,
    }
}

/// The ids of the formats of `cat` whose category `source` accepts, in order.
pub open spec fn accepted_ids(cat: Seq<FormatView>, source: MediaCategory) -> Seq<Seq<char>>
    decreases cat.len(),
{
    if cat.len() == 0 {
        Seq::empty()
    } else {
        let rest = accepted_ids(cat.drop_last(), source);
        if category_accepts(source, cat.last().category) {
            rest.push(cat.last().id)
        } else {
            rest
        }
    }
}

/// The target format ids offered for a source category, in catalogue order.
pub open spec fn spec_targets_for_category(source: MediaCategory) -> Seq<Seq<char>> {
    accepted_ids(format_catalog(), source)
}

/// `list` without the occurrences of `x`, order kept.
pub open spec fn without(list: Seq<Seq<char>>, x: Seq<char>) -> Seq<Seq<char>>
    decreases list.len(),
{
    if list.len() == 0 {
        Seq::empty()
    } else {
        let rest = without(list.drop_last(), x);
        if list.last() != x {
            rest.push(list.last())
        } else {
            rest
        }
    }
}

/// Text documents: the formats that text documents (and PDF) convert among.
pub open spec fn text_family() -> Seq<Seq<char>> {
    strs_view(seq!["pdf", "odt", "docx", "doc", "rtf", "txt", "md", "html", "epub"])
}

/// The targets of an EPUB source.
pub open spec fn epub_family() -> Seq<Seq<char>> {
    strs_view(seq!["pdf", "odt", "docx", "doc", "rtf", "txt", "html"])
}

/// Spreadsheets.
pub open spec fn sheet_family() -> Seq<Seq<char>> {
    strs_view(seq!["pdf", "ods", "xlsx", "xls", "csv", "tsv"])
}

/// Presentations.
pub open spec fn presentation_family() -> Seq<Seq<char>> {
    strs_view(seq!["pdf", "odp", "pptx", "ppt"])
}

/// Whether a cleaned document name is a text document (PDF included, which
/// converts to the editable text formats).
pub open spec fn is_text_name(c: Seq<char>) -> bool {
    ||| c == "pdf"@
    ||| c == "docx"@
    ||| c == "doc"@
    ||| c == "odt"@
    ||| c == "rtf"@
    ||| c == "txt"@
    ||| c == "md"@
    ||| c == "markdown"@
    ||| c == "html"@
    ||| c == "htm"@
    ||| c == "xhtml"@
}

/// Whether a cleaned document name is a spreadsheet.
pub open spec fn is_sheet_name(c: Seq<char>) -> bool {
    c == "xlsx"@ || c == "xls"@ || c == "ods"@ || c == "csv"@ || c == "tsv"@
}

/// Whether a cleaned document name is a presentation.
pub open spec fn is_presentation_name(c: Seq<char>) -> bool {
    c == "pptx"@ || c == "ppt"@ || c == "odp"@
}

/// The family list that a cleaned document name converts within.
pub open spec fn document_family(c: Seq<char>) -> Seq<Seq<char>> {
    if is_text_name(c) {
        text_family()
    } else if c == "epub"@ {
        epub_family()
    } else if is_sheet_name(c) {
        sheet_family()
    } else if is_presentation_name(c) {
        presentation_family()
    } else {
        Seq::empty()
    }
}

/// The targets of a document source: its family, without the source itself.
pub open spec fn spec_document_targets(source_id: Seq<char>) -> Seq<Seq<char>> {
    without(document_family(clean_name(source_id)), clean_name(source_id))
}

/// The format a source name denotes: by extension first, then by id.
pub open spec fn spec_source_format(source: Seq<char>) -> Option<FormatView> {
    match spec_detect_format(source) {
        Some(f) => Some(f),
        None => spec_format_by_id(source),
    }
}

/// The targets offered for a source format: documents stay within their
/// family; other media go to every format their category accepts except the
/// source format itself.
pub open spec fn spec_targets_for(source: Seq<char>) -> Seq<Seq<char>> {
    match spec_source_format(source) {
        None => Seq::empty(),
        Some(f) => if f.category == MediaCategory::Document {
            spec_document_targets(f.id)
        } else {
            without(spec_targets_for_category(f.category), f.id)
        },
    }
}

/// The encoder arguments of a codec: the flag, the encoder, its defaults.
pub open spec fn spec_codec_args(flag: Seq<char>, codec_id: Seq<char>) -> Option<Seq<Seq<char>>> {
    match first_codec_with_id(codec_catalog(), codec_id) {
        Some(c) => Some(seq![flag, c.ffmpeg_encoder] + c.default_args),
        None => None,
    }
}

/// The arguments for a format's codecs, before the container.
pub open spec fn spec_codec_part(f: FormatView) -> Option<Seq<Seq<char>>> {
    match f.category {
        MediaCategory::Image => match f.default_video_codec {
            None => None,
            Some(vc) => match spec_codec_args("-c:v"@, vc) {
                None => None,
                Some(a) => Some(seq!["-frames:v"@, "1"@] + a),
            },
        },
        MediaCategory::Audio => match f.default_audio_codec {
            None => None,
            Some(ac) => match spec_codec_args("-c:a"@, ac) {
                None => None,
                Some(a) => Some(seq!["-vn"@] + a),
            },
        },
        MediaCategory::Video => match (f.default_video_codec, f.default_audio_codec) {
            (Some(vc), Some(ac)) => match (spec_codec_args("-c:v"@, vc), spec_codec_args("-c:a"@, ac)) {
                (Some(a), Some(b)) => Some(
                    if f.id == "mp4"@ || f.id == "mov"@ || f.id == "m4v"@ {
                        a + b + seq!["-movflags"@, "+faststart"@]
                    } else {
                        a + b
                    },
                ),
                _ => None,
            },
            _ => None,
        },
        MediaCategory::Document => None,
    }
}

/// The FFmpeg arguments (between the input and the output) that convert a
/// source of the given category to the target format, if the conversion is
/// offered and the format's codecs are known.
pub open spec fn spec_ffmpeg_args(source: MediaCategory, target_id: Seq<char>) -> Option<Seq<Seq<char>>> {
    if source == MediaCategory::Document || !spec_targets_for_category(source).contains(target_id) {
        None
    } else {
        match spec_format_by_id(target_id) {
            None => None,
            Some(f) => match spec_codec_part(f) {
                None => None,
                Some(p) => Some(
                    match f.ffmpeg_format {
                        Some(c) => p + seq!["-f"@, c],
                        None => p,
                    },
                ),
            },
        }
    }
}

/// The lower-case name of a category.
pub open spec fn spec_category_name(c: MediaCategory) -> Seq<char> {
    match c {
        MediaCategory::Image => "image"@,
        MediaCategory::Video => "video"@,
        MediaCategory::Audio => "audio"@,
        MediaCategory::Document => "document"@,
    }
}

proof fn lemma_first_with_extension_skip(cat: Seq<FormatView>, ext: Seq<char>, i: int)
    requires
        0 <= i <= cat.len(),
        forall|j: int| 0 <= j < i ==> !cat[j].extensions.contains(ext),
    ensures
        first_with_extension(cat, ext) == first_with_extension(cat.skip(i), ext),
    decreases i,
{
    if i > 0 {
        lemma_first_with_extension_skip(cat.drop_first(), ext, i - 1);
        assert(cat.drop_first().skip(i - 1) =~= cat.skip(i));
    } else {
        assert(cat.skip(0) =~= cat);
    }
}

proof fn lemma_first_with_id_skip(cat: Seq<FormatView>, id: Seq<char>, i: int)
    requires
        0 <= i <= cat.len(),
        forall|j: int| 0 <= j < i ==> cat[j].id != id,
    ensures
        first_with_id(cat, id) == first_with_id(cat.skip(i), id),
    decreases i,
{
    if i > 0 {
        lemma_first_with_id_skip(cat.drop_first(), id, i - 1);
        assert(cat.drop_first().skip(i - 1) =~= cat.skip(i));
    } else {
        assert(cat.skip(0) =~= cat);
    }
}

proof fn lemma_first_codec_skip(cat: Seq<CodecView>, id: Seq<char>, i: int)
    requires
        0 <= i <= cat.len(),
        forall|j: int| 0 <= j < i ==> cat[j].id != id,
    ensures
        first_codec_with_id(cat, id) == first_codec_with_id(cat.skip(i), id),
    decreases i,
{
    if i > 0 {
        lemma_first_codec_skip(cat.drop_first(), id, i - 1);
        assert(cat.drop_first().skip(i - 1) =~= cat.skip(i));
    } else {
        assert(cat.skip(0) =~= cat);
    }
}

/// The format that an extension denotes, as [`spec_detect_format`] states.
pub fn detect_format(extension: &str) -> (res: Option<FormatDefinition>)
    ensures
        opt_format_view(res) == spec_detect_format(extension@),
{
    let ext = clean_name_exec(extension);
    let ext_s = string_of(&ext);
    let mut formats = built_in_formats();
    let ghost cat = format_catalog();
    let mut i: usize = 0;
    while i < formats.len()
        invariant
            formats_view(formats@) == cat,
            cat == format_catalog(),
            ext_s@ == clean_name(extension@),
            i <= formats@.len(),
            forall|j: int| 0 <= j < i ==> !cat[j].extensions.contains(ext_s@),
        decreases formats@.len() - i,
    {
        if contains_string(&formats[i].extensions, ext_s.as_str()) {
            let ghost fi = formats@[i as int];
            proof {
                assert(cat[i as int] == fi@);
                lemma_first_with_extension_skip(cat, ext_s@, i as int);
                assert(cat.skip(i as int)[0] == cat[i as int]);
                assert(cat.skip(i as int)[0].extensions.contains(ext_s@));
                assert(first_with_extension(cat.skip(i as int), ext_s@) == Some(cat[i as int]));
            }
            let found = formats.remove(i);
            assert(found == fi);
            assert(first_with_extension(cat, ext_s@) == Some(cat[i as int]));
            assert(spec_detect_format(extension@) == first_with_extension(cat, ext_s@));
            assert(spec_detect_format(extension@) == Some(fi@));
            return Some(found);
        }
        assert(cat[i as int] == formats@[i as int]@);
        i = i + 1;
    }
    proof {
        lemma_first_with_extension_skip(cat, ext_s@, i as int);
    }
    None
}

/// The catalogue format with the given id.
pub fn format_by_id(id: &str) -> (res: Option<FormatDefinition>)
    ensures
        opt_format_view(res) == spec_format_by_id(id@),
{
    let mut formats = built_in_formats();
    let ghost cat = format_catalog();
    let mut i: usize = 0;
    while i < formats.len()
        invariant
            formats_view(formats@) == cat,
            cat == format_catalog(),
            i <= formats@.len(),
            forall|j: int| 0 <= j < i ==> cat[j].id != id@,
        decreases formats@.len() - i,
    {
        assert(cat[i as int] == formats@[i as int]@);
        if str_eq(formats[i].id.as_str(), id) {
            let ghost fi = formats@[i as int];
            proof {
                lemma_first_with_id_skip(cat, id@, i as int);
                assert(cat.skip(i as int)[0] == cat[i as int]);
                assert(first_with_id(cat.skip(i as int), id@) == Some(cat[i as int]));
            }
            let found = formats.remove(i);
            assert(found == fi);
            return Some(found);
        }
        i = i + 1;
    }
    proof {
        lemma_first_with_id_skip(cat, id@, i as int);
    }
    None
}

/// Whether `source` accepts `target`.
fn category_accepts_exec(source: MediaCategory, target: MediaCategory) -> (res: bool)
    ensures
        res == category_accepts(source, target),
{
    match source {
        MediaCategory::Image => target == MediaCategory::Image,
        MediaCategory::Audio => target == MediaCategory::Audio,
        MediaCategory::Video => target == MediaCategory::Video || target == MediaCategory::Audio,
        MediaCategory::Document => target == MediaCategory::Document,
    }
}

/// The target format ids offered for a source category: every image format
/// for images, every audio format for audio, every video and audio format for
/// video, every document format for documents.
pub fn target_formats_for_category(category: &MediaCategory) -> (res: Vec<String>)
    ensures
        strings_view(res@) == spec_targets_for_category(*category),
{
    let formats = built_in_formats();
    let ghost cat = format_catalog();
    let mut res: Vec<String> = Vec::new();
    let mut i: usize = 0;
    while i < formats.len()
        invariant
            formats_view(formats@) == cat,
            i <= formats@.len(),
            strings_view(res@) == accepted_ids(cat.take(i as int), *category),
        decreases formats@.len() - i,
    {
        assert(cat.take(i + 1).drop_last() =~= cat.take(i as int));
        assert(cat[i as int] == formats@[i as int]@);
        if category_accepts_exec(*category, formats[i].category) {
            res.push(formats[i].id.clone());
            assert(strings_view(res@) =~= accepted_ids(cat.take(i as int), *category).push(cat[i as int].id));
        }
        i = i + 1;
    }
    assert(cat.take(formats@.len() as int) =~= cat);
    res
}

/// `list` without the entries equal to `x`.
fn without_exec(list: &Vec<String>, x: &str) -> (res: Vec<String>)
    ensures
        strings_view(res@) == without(strings_view(list@), x@),
{
    let ghost l = strings_view(list@);
    let mut res: Vec<String> = Vec::new();
    let mut i: usize = 0;
    while i < list.len()
        invariant
            l == strings_view(list@),
            i <= list@.len(),
            strings_view(res@) == without(l.take(i as int), x@),
        decreases list@.len() - i,
    {
        assert(l.take(i + 1).drop_last() =~= l.take(i as int));
        assert(l[i as int] == list@[i as int]@);
        if !str_eq(list[i].as_str(), x) {
            res.push(list[i].clone());
            assert(strings_view(res@) =~= without(l.take(i as int), x@).push(l[i as int]));
        }
        i = i + 1;
    }
    assert(l.take(list@.len() as int) =~= l);
    res
}

/// The family list of a cleaned document name.
fn document_family_exec(c: &Vec<char>) -> (res: Vec<String>)
    ensures
        strings_view(res@) == document_family(c@),
{
    if chars_eq_str(c, "pdf") || chars_eq_str(c, "docx") || chars_eq_str(c, "doc") || chars_eq_str(c, "odt")
        || chars_eq_str(c, "rtf") || chars_eq_str(c, "txt") || chars_eq_str(c, "md") || chars_eq_str(c, "markdown")
        || chars_eq_str(c, "html") || chars_eq_str(c, "htm") || chars_eq_str(c, "xhtml") {
        let r = owned_strings(&["pdf", "odt", "docx", "doc", "rtf", "txt", "md", "html", "epub"]);
        assert(strings_view(r@) == text_family());
        r
    } else if chars_eq_str(c, "epub") {
        let r = owned_strings(&["pdf", "odt", "docx", "doc", "rtf", "txt", "html"]);
        assert(strings_view(r@) == epub_family());
        r
    } else if chars_eq_str(c, "xlsx") || chars_eq_str(c, "xls") || chars_eq_str(c, "ods") || chars_eq_str(c, "csv")
        || chars_eq_str(c, "tsv") {
        let r = owned_strings(&["pdf", "ods", "xlsx", "xls", "csv", "tsv"]);
        assert(strings_view(r@) == sheet_family());
        r
    } else if chars_eq_str(c, "pptx") || chars_eq_str(c, "ppt") || chars_eq_str(c, "odp") {
        let r = owned_strings(&["pdf", "odp", "pptx", "ppt"]);
        assert(strings_view(r@) == presentation_family());
        r
    } else {
        let r: Vec<String> = Vec::new();
        assert(strings_view(r@) =~= Seq::empty());
        r
    }
}

/// The targets of a document source: the formats of its family (text,
/// spreadsheet or presentation; PDF converts to the text formats), without
/// the source itself.
pub fn target_formats_for_document(source_id: &str) -> (res: Vec<String>)
    ensures
        strings_view(res@) == spec_document_targets(source_id@),
{
    let clean = clean_name_exec(source_id);
    let family = document_family_exec(&clean);
    let clean_s = string_of(&clean);
    without_exec(&family, clean_s.as_str())
}

/// The target format ids offered for a source format, named by extension or
/// by id.
pub fn target_formats_for(source_format: &str) -> (res: Vec<String>)
    ensures
        strings_view(res@) == spec_targets_for(source_format@),
{
    let source = match detect_format(source_format) {
        Some(f) => Some(f),
        None => format_by_id(source_format),
    };
    match source {
        None => {
            let r: Vec<String> = Vec::new();
            assert(strings_view(r@) =~= Seq::empty());
            r
        },
        Some(f) => {
            if f.category == MediaCategory::Document {
                target_formats_for_document(f.id.as_str())
            } else {
                let all = target_formats_for_category(&f.category);
                without_exec(&all, f.id.as_str())
            }
        },
    }
}

/// Whether a target format (leading dots and letter case ignored) is offered
/// for the source format.
pub fn is_format_conversion_supported(source_format: &str, target_format: &str) -> (res: bool)
    ensures
        res == spec_targets_for(source_format@).contains(clean_name(target_format@)),
{
    let clean = clean_name_exec(target_format);
    let clean_s = string_of(&clean);
    let targets = target_formats_for(source_format);
    contains_string(&targets, clean_s.as_str())
}

/// Whether a target id is offered for a source category.
pub fn is_conversion_supported(source: &MediaCategory, target_id: &str) -> (res: bool)
    ensures
        res == spec_targets_for_category(*source).contains(target_id@),
{
    let targets = target_formats_for_category(source);
    contains_string(&targets, target_id)
}

/// The first codec of `codecs` with the given id.
fn find_codec(codecs: &Vec<CodecDefinition>, codec_id: &str) -> (res: Option<usize>)
    ensures
        match res {
            Some(i) => i < codecs@.len() && first_codec_with_id(codecs_view(codecs@), codec_id@) == Some(codecs@[i as int]@),
            None => first_codec_with_id(codecs_view(codecs@), codec_id@) == None::<CodecView>,
        },
{
    let ghost cat = codecs_view(codecs@);
    let mut i: usize = 0;
    while i < codecs.len()
        invariant
            cat == codecs_view(codecs@),
            i <= codecs@.len(),
            forall|j: int| 0 <= j < i ==> cat[j].id != codec_id@,
        decreases codecs@.len() - i,
    {
        assert(cat[i as int] == codecs@[i as int]@);
        if str_eq(codecs[i].id.as_str(), codec_id) {
            proof {
                lemma_first_codec_skip(cat, codec_id@, i as int);
                assert(cat.skip(i as int)[0] == cat[i as int]);
            }
            return Some(i);
        }
        i = i + 1;
    }
    proof {
        lemma_first_codec_skip(cat, codec_id@, i as int);
    }
    None
}

/// Appends the flag, encoder and default arguments of a codec of `codecs`;
/// `None` (and `args` unchanged) when no codec has that id.
pub fn append_codec(args: &mut Vec<String>, flag: &str, codec_id: &str, codecs: &Vec<CodecDefinition>) -> (res: Option<()>)
    ensures
        match first_codec_with_id(codecs_view(codecs@), codec_id@) {
            Some(c) => res is Some && strings_view(final(args)@) == strings_view(old(args)@) + seq![flag@, c.ffmpeg_encoder] + c.default_args,
            None => res is None && final(args)@ == old(args)@,
        },
{
    match find_codec(codecs, codec_id) {
        None => None,
        Some(i) => {
            let ghost before = strings_view(args@);
            let c = &codecs[i];
            args.push(owned(flag));
            args.push(c.ffmpeg_encoder.clone());
            let mut k: usize = 0;
            while k < c.default_args.len()
                invariant
                    k <= c.default_args@.len(),
                    strings_view(args@) == before + seq![flag@, c.ffmpeg_encoder@] + strings_view(c.default_args@).take(k as int),
                decreases c.default_args@.len() - k,
            {
                let ghost prev = strings_view(args@);
                args.push(c.default_args[k].clone());
                assert(strings_view(args@) =~= prev.push(c.default_args@[k as int]@));
                assert(strings_view(c.default_args@).take(k + 1) =~= strings_view(c.default_args@).take(k as int).push(c.default_args@[k as int]@));
                k = k + 1;
            }
            assert(strings_view(c.default_args@).take(c.default_args@.len() as int) =~= strings_view(c.default_args@));
            Some(())
        },
    }
}

/// The codec arguments for the codec `id` of the built-in codec list.
fn codec_args_exec(args: &mut Vec<String>, flag: &str, id: &Option<String>, codecs: &Vec<CodecDefinition>) -> (res: bool)
    requires
        codecs_view(codecs@) == codec_catalog(),
    ensures
        match id {
            None => !res && final(args)@ == old(args)@,
            Some(i) => match spec_codec_args(flag@, i@) {
                Some(a) => res && strings_view(final(args)@) == strings_view(old(args)@) + a,
                None => !res,
            },
        },
{
    match id {
        None => false,
        Some(i) => {
            let r = append_codec(args, flag, i.as_str(), codecs);
            proof {
                match first_codec_with_id(codecs_view(codecs@), i@) {
                    Some(c) => {
                        assert(strings_view(args@) =~= strings_view(old(args)@) + (seq![flag@, c.ffmpeg_encoder] + c.default_args));
                    },
                    None => {},
                }
            }
            r.is_some()
        },
    }
}

/// Appends the two arguments `a` and `b`.
fn push_pair(args: &mut Vec<String>, a: &str, b: &str)
    ensures
        strings_view(final(args)@) == strings_view(old(args)@) + seq![a@, b@],
{
    args.push(owned(a));
    args.push(owned(b));
    assert(strings_view(args@) =~= strings_view(old(args)@) + seq![a@, b@]);
}

/// The FFmpeg arguments that convert a source of the given category to the
/// target format: the target's codecs and container, as
/// [`spec_ffmpeg_args`] states. Documents have no FFmpeg mapping.
pub fn ffmpeg_args_for(source: &MediaCategory, target_id: &str) -> (res: Option<Vec<String>>)
    ensures
        match res {
            Some(a) => spec_ffmpeg_args(*source, target_id@) == Some(strings_view(a@)),
            None => spec_ffmpeg_args(*source, target_id@) is None,
        },
{
    if *source == MediaCategory::Document {
        return None;
    }
    if !is_conversion_supported(source, target_id) {
        return None;
    }
    let format = match format_by_id(target_id) {
        Some(f) => f,
        None => return None,
    };
    let codecs = built_in_codecs();
    let mut args: Vec<String> = Vec::new();
    assert(strings_view(args@) =~= Seq::empty());
    let ghost f = format@;
    match format.category {
        MediaCategory::Image => {
            push_pair(&mut args, "-frames:v", "1");
            if !codec_args_exec(&mut args, "-c:v", &format.default_video_codec, &codecs) {
                return None;
            }
        },
        MediaCategory::Audio => {
            args.push(owned("-vn"));
            assert(strings_view(args@) =~= seq!["-vn"@]);
            if !codec_args_exec(&mut args, "-c:a", &format.default_audio_codec, &codecs) {
                return None;
            }
        },
        MediaCategory::Video => {
            if !codec_args_exec(&mut args, "-c:v", &format.default_video_codec, &codecs) {
                return None;
            }
            if !codec_args_exec(&mut args, "-c:a", &format.default_audio_codec, &codecs) {
                return None;
            }
            if str_eq(format.id.as_str(), "mp4") || str_eq(format.id.as_str(), "mov") || str_eq(format.id.as_str(), "m4v") {
                push_pair(&mut args, "-movflags", "+faststart");
            }
        },
        MediaCategory::Document => {
            return None;
        },
    }
    assert(spec_codec_part(f) == Some(strings_view(args@)));
    match &format.ffmpeg_format {
        Some(container) => {
            push_pair(&mut args, "-f", container.as_str());
        },
        None => {},
    }
    Some(args)
}

/// The lower-case name of a category.
pub fn category_name(category: &MediaCategory) -> (res: &'static str)
    ensures
        res@ == spec_category_name(*category),
{
    match category {
        MediaCategory::Image => "image",
        MediaCategory::Video => "video",
        MediaCategory::Audio => "audio",
        MediaCategory::Document => "document",
    }
}

/// The categories in the order of their names.
pub open spec fn category_order() -> Seq<MediaCategory> {
    seq![MediaCategory::Audio, MediaCategory::Document, MediaCategory::Image, MediaCategory::Video]
}

/// The category table: each category's name with its targets, in the order
/// of the names (audio, document, image, video).
pub open spec fn spec_category_table() -> Seq<(Seq<char>, Seq<Seq<char>>)> {
    Seq::new(4, |i: int| (spec_category_name(category_order()[i]), spec_targets_for_category(category_order()[i])))
}

/// The format table: each catalogue format's id with its targets, in
/// catalogue order.
pub open spec fn spec_format_table() -> Seq<(Seq<char>, Seq<Seq<char>>)> {
    Seq::new(format_catalog().len(), |i: int| (format_catalog()[i].id, spec_targets_for(format_catalog()[i].id)))
}

/// Everything the user interface needs: the formats, the codecs, and the
/// targets offered by source category and by source format.
pub fn conversion_capabilities() -> (res: ConversionCapabilities)
    ensures
        formats_view(res.formats@) == format_catalog(),
        codecs_view(res.codecs@) == codec_catalog(),
        table_view(res.targets_by_source_category@) == spec_category_table(),
        table_view(res.targets_by_source_format@) == spec_format_table(),
        table_keys(table_view(res.targets_by_source_category@)).no_duplicates(),
        table_keys(table_view(res.targets_by_source_format@)).no_duplicates(),
{
    proof {
        crate::laws::catalogue_ids_are_distinct();
        reveal_strlit("audio");
        reveal_strlit("document");
        reveal_strlit("image");
        reveal_strlit("video");
        assert("audio"@[0] == 'a' && "document"@[0] == 'd' && "image"@[0] == 'i' && "video"@[0] == 'v');
        assert(table_keys(spec_category_table()) =~= seq!["audio"@, "document"@, "image"@, "video"@]);
        assert(table_keys(spec_format_table()) =~= crate::laws::format_ids(format_catalog()));
    }
    let mut by_category: Vec<(String, Vec<String>)> = Vec::new();
    let order: [MediaCategory; 4] = [MediaCategory::Audio, MediaCategory::Document, MediaCategory::Image, MediaCategory::Video];
    let mut k: usize = 0;
    while k < 4
        invariant
            k <= 4,
            order@ == category_order(),
            by_category@.len() == k,
            table_view(by_category@) == spec_category_table().take(k as int),
        decreases 4 - k,
    {
        let c = order[k];
        let name = owned(category_name(&c));
        let targets = target_formats_for_category(&c);
        by_category.push((name, targets));
        assert(table_view(by_category@)[k as int] == spec_category_table()[k as int]);
        assert(table_view(by_category@) =~= spec_category_table().take(k + 1));
        k = k + 1;
    }
    let formats = built_in_formats();
    let ghost cat = format_catalog();
    let mut by_format: Vec<(String, Vec<String>)> = Vec::new();
    let mut i: usize = 0;
    while i < formats.len()
        invariant
            formats_view(formats@) == cat,
            cat == format_catalog(),
            i <= formats@.len(),
            by_format@.len() == i,
            table_view(by_format@) == spec_format_table().take(i as int),
        decreases formats@.len() - i,
    {
        assert(cat[i as int] == formats@[i as int]@);
        let id = formats[i].id.clone();
        let targets = target_formats_for(formats[i].id.as_str());
        let ghost before = by_format@;
        let ghost idv = id@;
        let ghost tv = strings_view(targets@);
        assert(idv == cat[i as int].id);
        assert(tv == spec_targets_for(cat[i as int].id));
        by_format.push((id, targets));
        assert(by_format@.len() == i + 1);
        assert(by_format@[i as int].0@ == idv);
        assert(strings_view(by_format@[i as int].1@) == tv);
        assert(table_view(by_format@)[i as int] == spec_format_table()[i as int]);
        assert(table_view(by_format@) =~= spec_format_table().take(i + 1));
        i = i + 1;
    }
    assert(spec_format_table().take(formats@.len() as int) =~= spec_format_table());
    assert(spec_category_table().take(4) =~= spec_category_table());
    ConversionCapabilities {
        formats,
        codecs: built_in_codecs(),
        targets_by_source_category: by_category,
        targets_by_source_format: by_format,
    }
}

} // verus!
