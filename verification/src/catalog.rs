//! The built-in catalogue of formats and codecs.
//!
//! Formats (file types and containers) are modelled separately from their
//! default codecs. Each exec constructor is tied to a spec value of the same
//! shape, and the catalogue functions return exactly the spec catalogue.
use vstd::prelude::*;
use crate::models::{CodecDefinition, CodecKind, CodecView, FormatDefinition, FormatView, MediaCategory, codecs_view, formats_view};
use crate::text::{opt_view, owned, owned_strings, strs_view};

verus! {

/// The character view of an optional string slice.
pub open spec fn opt_str_view(o: Option<&str>) -> Option<Seq<char>> {
    match o {
        Some(s) => Some(s@),
        None => None,
    }
}

/// A catalogue format built from its parts.
pub open spec fn format_spec(
    id: &str,
    display_name: &str,
    category: MediaCategory,
    extensions: Seq<&str>,
    mime_types: Seq<&str>,
    default_extension: &str,
    ffmpeg_format: Option<&str>,
    default_video_codec: Option<&str>,
    default_audio_codec: Option<&str>,
) -> FormatView {
    FormatView {
        id: id@,
        display_name: display_name@,
        category,
        extensions: strs_view(extensions),
        mime_types: strs_view(mime_types),
        default_extension: default_extension@,
        ffmpeg_format: opt_str_view(ffmpeg_format),
        default_video_codec: opt_str_view(default_video_codec),
        default_audio_codec: opt_str_view(default_audio_codec),
    }
}

/// An image format: no container name, a video (still-picture) codec.
pub open spec fn image_spec(
    id: &str,
    display_name: &str,
    extensions: Seq<&str>,
    mime_types: Seq<&str>,
    default_extension: &str,
    video_codec: &str,
) -> FormatView {
    format_spec(id, display_name, MediaCategory::Image, extensions, mime_types, default_extension, None, Some(video_codec), None)
}

/// An audio format: a container name and an audio codec.
pub open spec fn audio_spec(
    id: &str,
    display_name: &str,
    extensions: Seq<&str>,
    mime_types: Seq<&str>,
    default_extension: &str,
    audio_codec: &str,
    ffmpeg_format: Option<&str>,
) -> FormatView {
    format_spec(id, display_name, MediaCategory::Audio, extensions, mime_types, default_extension, ffmpeg_format, None, Some(audio_codec))
}

/// A video format: a container name, a video codec and an audio codec.
pub open spec fn video_spec(
    id: &str,
    display_name: &str,
    extensions: Seq<&str>,
    mime_types: Seq<&str>,
    default_extension: &str,
    video_codec: &str,
    audio_codec: &str,
    ffmpeg_format: Option<&str>,
) -> FormatView {
    format_spec(id, display_name, MediaCategory::Video, extensions, mime_types, default_extension, ffmpeg_format, Some(video_codec), Some(audio_codec))
}

/// A document format: converted by LibreOffice, so no container or codecs.
pub open spec fn document_spec(
    id: &str,
    display_name: &str,
    extensions: Seq<&str>,
    mime_types: Seq<&str>,
    default_extension: &str,
) -> FormatView {
    format_spec(id, display_name, MediaCategory::Document, extensions, mime_types, default_extension, None, None, None)
}

/// A catalogue codec built from its parts.
pub open spec fn codec_spec(id: &str, kind: CodecKind, encoder: &str, args: Seq<&str>) -> CodecView {
    CodecView { id: id@, kind, ffmpeg_encoder: encoder@, default_args: strs_view(args) }
}

/// The whole format catalogue: images, audio, video, then documents.
pub open spec fn format_catalog() -> Seq<FormatView> {
    image_catalog() + audio_catalog() + video_catalog() + document_catalog()
}

fn opt_owned(o: Option<&str>) -> (res: Option<String>)
    ensures
        opt_view(res) == opt_str_view(o),
{
    match o {
        Some(s) => Some(owned(s)),
        None => None,
    }
}

fn codec(id: &str, kind: CodecKind, encoder: &str, args: &[&str]) -> (res: CodecDefinition)
    ensures
        res@ == codec_spec(id, kind, encoder, args@),
{
    CodecDefinition { id: owned(id), kind, ffmpeg_encoder: owned(encoder), default_args: owned_strings(args) }
}

fn video_codec(id: &str, encoder: &str, args: &[&str]) -> (res: CodecDefinition)
    ensures
        res@ == codec_spec(id, CodecKind::Video, encoder, args@),
{
    codec(id, CodecKind::Video, encoder, args)
}

fn audio_codec(id: &str, encoder: &str, args: &[&str]) -> (res: CodecDefinition)
    ensures
        res@ == codec_spec(id, CodecKind::Audio, encoder, args@),
{
    codec(id, CodecKind::Audio, encoder, args)
}

fn format(
    id: &str,
    display_name: &str,
    category: MediaCategory,
    extensions: &[&str],
    mime_types: &[&str],
    default_extension: &str,
    ffmpeg_format: Option<&str>,
    default_video_codec: Option<&str>,
    default_audio_codec: Option<&str>,
) -> (res: FormatDefinition)
    ensures
        res@ == format_spec(id, display_name, category, extensions@, mime_types@, default_extension, ffmpeg_format, default_video_codec, default_audio_codec),
{
    FormatDefinition {
        id: owned(id),
        display_name: owned(display_name),
        category,
        extensions: owned_strings(extensions),
        mime_types: owned_strings(mime_types),
        default_extension: owned(default_extension),
        ffmpeg_format: opt_owned(ffmpeg_format),
        default_video_codec: opt_owned(default_video_codec),
        default_audio_codec: opt_owned(default_audio_codec),
    }
}

fn image_format(
    id: &str,
    display_name: &str,
    extensions: &[&str],
    mime_types: &[&str],
    default_extension: &str,
    video_codec: &str,
) -> (res: FormatDefinition)
    ensures
        res@ == image_spec(id, display_name, extensions@, mime_types@, default_extension, video_codec),
{
    format(id, display_name, MediaCategory::Image, extensions, mime_types, default_extension, None, Some(video_codec), None)
}

fn audio_format(
    id: &str,
    display_name: &str,
    extensions: &[&str],
    mime_types: &[&str],
    default_extension: &str,
    audio_codec: &str,
    ffmpeg_format: Option<&str>,
) -> (res: FormatDefinition)
    ensures
        res@ == audio_spec(id, display_name, extensions@, mime_types@, default_extension, audio_codec, ffmpeg_format),
{
    format(id, display_name, MediaCategory::Audio, extensions, mime_types, default_extension, ffmpeg_format, None, Some(audio_codec))
}

fn video_format(
    id: &str,
    display_name: &str,
    extensions: &[&str],
    mime_types: &[&str],
    default_extension: &str,
    video_codec: &str,
    audio_codec: &str,
    ffmpeg_format: Option<&str>,
) -> (res: FormatDefinition)
    ensures
        res@ == video_spec(id, display_name, extensions@, mime_types@, default_extension, video_codec, audio_codec, ffmpeg_format),
{
    format(id, display_name, MediaCategory::Video, extensions, mime_types, default_extension, ffmpeg_format, Some(video_codec), Some(audio_codec))
}

fn document_format(
    id: &str,
    display_name: &str,
    extensions: &[&str],
    mime_types: &[&str],
    default_extension: &str,
) -> (res: FormatDefinition)
    ensures
        res@ == document_spec(id, display_name, extensions@, mime_types@, default_extension),
{
    format(id, display_name, MediaCategory::Document, extensions, mime_types, default_extension, None, None, None)
}

/// The image formats, in catalogue order.
pub open spec fn image_catalog() -> Seq<FormatView> {
    seq![
        image_spec("jpg", "JPG / JPEG", seq!["jpg", "jpeg"], seq!["image/jpeg"], "jpg", "mjpeg"),
        image_spec("png", "PNG", seq!["png"], seq!["image/png"], "png", "png"),
        image_spec("webp", "WebP", seq!["webp"], seq!["image/webp"], "webp", "webp"),
        image_spec("bmp", "BMP", seq!["bmp"], seq!["image/bmp"], "bmp", "bmp"),
        image_spec("tiff", "TIFF", seq!["tif", "tiff"], seq!["image/tiff"], "tiff", "tiff"),
        image_spec("gif", "GIF", seq!["gif"], seq!["image/gif"], "gif", "gif"),
        image_spec("avif", "AVIF", seq!["avif"], seq!["image/avif"], "avif", "av1"),
    ]
}

/// The audio formats, in catalogue order.
pub open spec fn audio_catalog() -> Seq<FormatView> {
    seq![
        audio_spec("mp3", "MP3", seq!["mp3"], seq!["audio/mpeg"], "mp3", "mp3", Some("mp3")),
        audio_spec("wav", "WAV", seq!["wav"], seq!["audio/wav", "audio/x-wav"], "wav", "pcm-s16le", Some("wav")),
        audio_spec("flac", "FLAC", seq!["flac"], seq!["audio/flac"], "flac", "flac", Some("flac")),
        audio_spec("aac", "AAC", seq!["aac"], seq!["audio/aac"], "aac", "aac", Some("adts")),
        audio_spec("m4a", "M4A", seq!["m4a"], seq!["audio/mp4"], "m4a", "aac", Some("ipod")),
        audio_spec("ogg", "OGG Vorbis", seq!["ogg", "oga"], seq!["audio/ogg"], "ogg", "vorbis", Some("ogg")),
        audio_spec("opus", "Opus", seq!["opus"], seq!["audio/opus", "audio/ogg"], "opus", "opus", Some("ogg")),
        audio_spec("aiff", "AIFF", seq!["aif", "aiff", "aifc"], seq!["audio/aiff", "audio/x-aiff"], "aiff", "pcm-s16be", Some("aiff")),
        audio_spec("alac", "ALAC", seq![], seq!["audio/mp4"], "m4a", "alac", Some("ipod")),
        audio_spec("ac3", "AC3", seq!["ac3"], seq!["audio/ac3"], "ac3", "ac3", Some("ac3")),
    ]
}

/// The video formats, in catalogue order.
pub open spec fn video_catalog() -> Seq<FormatView> {
    seq![
        video_spec("mp4", "MP4", seq!["mp4"], seq!["video/mp4"], "mp4", "h264", "aac", Some("mp4")),
        video_spec("mkv", "MKV", seq!["mkv"], seq!["video/x-matroska"], "mkv", "h264", "aac", Some("matroska")),
        video_spec("webm", "WebM", seq!["webm"], seq!["video/webm"], "webm", "vp9", "opus", Some("webm")),
        video_spec("mov", "MOV", seq!["mov"], seq!["video/quicktime"], "mov", "h264", "aac", Some("mov")),
        video_spec("avi", "AVI", seq!["avi"], seq!["video/x-msvideo"], "avi", "mpeg4", "mp3", Some("avi")),
        video_spec("m4v", "M4V", seq!["m4v"], seq!["video/x-m4v"], "m4v", "h264", "aac", Some("ipod")),
        video_spec("mpeg", "MPEG / MPG", seq!["mpeg", "mpg"], seq!["video/mpeg"], "mpeg", "mpeg2", "mp2", Some("mpeg")),
        video_spec("ogv", "OGV", seq!["ogv"], seq!["video/ogg"], "ogv", "theora", "vorbis", Some("ogg")),
        video_spec("ts", "TS / MTS / M2TS", seq!["ts", "mts", "m2ts"], seq!["video/mp2t"], "ts", "mpeg2", "mp2", Some("mpegts")),
    ]
}

/// The document formats (text, spreadsheet, presentation), in catalogue order.
pub open spec fn document_catalog() -> Seq<FormatView> {
    seq![
        document_spec("pdf", "PDF", seq!["pdf"], seq!["application/pdf"], "pdf"),
        document_spec("odt", "ODT (OpenDocument Text)", seq!["odt"], seq!["application/vnd.oasis.opendocument.text"], "odt"),
        document_spec("docx", "DOCX (Word Document)", seq!["docx"], seq!["application/vnd.openxmlformats-officedocument.wordprocessingml.document"], "docx"),
        document_spec("doc", "DOC (Word 97-2003)", seq!["doc"], seq!["application/msword"], "doc"),
        document_spec("rtf", "RTF (Rich Text)", seq!["rtf"], seq!["application/rtf", "text/rtf"], "rtf"),
        document_spec("txt", "TXT (Plain Text)", seq!["txt"], seq!["text/plain"], "txt"),
        document_spec("md", "Markdown", seq!["md", "markdown"], seq!["text/markdown", "text/x-markdown"], "md"),
        document_spec("html", "HTML", seq!["html", "htm", "xhtml"], seq!["text/html", "application/xhtml+xml"], "html"),
        document_spec("epub", "EPUB", seq!["epub"], seq!["application/epub+zip"], "epub"),
        document_spec("ods", "ODS (OpenDocument Sheet)", seq!["ods"], seq!["application/vnd.oasis.opendocument.spreadsheet"], "ods"),
        document_spec("xlsx", "XLSX (Excel Spreadsheet)", seq!["xlsx"], seq!["application/vnd.openxmlformats-officedocument.spreadsheetml.sheet"], "xlsx"),
        document_spec("xls", "XLS (Excel 97-2003)", seq!["xls"], seq!["application/vnd.ms-excel"], "xls"),
        document_spec("csv", "CSV", seq!["csv"], seq!["text/csv"], "csv"),
        document_spec("tsv", "TSV", seq!["tsv"], seq!["text/tab-separated-values"], "tsv"),
        document_spec("odp", "ODP (OpenDocument Presentation)", seq!["odp"], seq!["application/vnd.oasis.opendocument.presentation"], "odp"),
        document_spec("pptx", "PPTX (PowerPoint Presentation)", seq!["pptx"], seq!["application/vnd.openxmlformats-officedocument.presentationml.presentation"], "pptx"),
        document_spec("ppt", "PPT (PowerPoint 97-2003)", seq!["ppt"], seq!["application/vnd.ms-powerpoint"], "ppt"),
    ]
}

/// The codecs, in catalogue order.
pub open spec fn codec_catalog() -> Seq<CodecView> {
    seq![
        codec_spec("mjpeg", CodecKind::Video, "mjpeg", seq!["-q:v", "2"]),
        codec_spec("png", CodecKind::Video, "png", seq![]),
        codec_spec("webp", CodecKind::Video, "libwebp", seq!["-quality", "82"]),
        codec_spec("bmp", CodecKind::Video, "bmp", seq![]),
        codec_spec("tiff", CodecKind::Video, "tiff", seq![]),
        codec_spec("gif", CodecKind::Video, "gif", seq![]),
        codec_spec("av1", CodecKind::Video, "libaom-av1", seq!["-crf", "30", "-b:v", "0", "-still-picture", "1"]),
        codec_spec("h264", CodecKind::Video, "libx264", seq!["-preset", "medium", "-crf", "23"]),
        codec_spec("vp9", CodecKind::Video, "libvpx-vp9", seq!["-crf", "31", "-b:v", "0"]),
        codec_spec("mpeg4", CodecKind::Video, "mpeg4", seq!["-q:v", "5"]),
        codec_spec("mpeg2", CodecKind::Video, "mpeg2video", seq!["-q:v", "5"]),
        codec_spec("theora", CodecKind::Video, "libtheora", seq!["-q:v", "7"]),
        codec_spec("mp3", CodecKind::Audio, "libmp3lame", seq!["-q:a", "2"]),
        codec_spec("pcm-s16le", CodecKind::Audio, "pcm_s16le", seq![]),
        codec_spec("pcm-s16be", CodecKind::Audio, "pcm_s16be", seq![]),
        codec_spec("flac", CodecKind::Audio, "flac", seq![]),
        codec_spec("aac", CodecKind::Audio, "aac", seq!["-b:a", "192k"]),
        codec_spec("vorbis", CodecKind::Audio, "libvorbis", seq!["-q:a", "5"]),
        codec_spec("opus", CodecKind::Audio, "libopus", seq!["-b:a", "160k"]),
        codec_spec("alac", CodecKind::Audio, "alac", seq![]),
        codec_spec("ac3", CodecKind::Audio, "ac3", seq!["-b:a", "192k"]),
        codec_spec("mp2", CodecKind::Audio, "mp2", seq!["-b:a", "192k"]),
    ]
}

/// The image formats.
pub fn image_formats() -> (res: Vec<FormatDefinition>)
    ensures
        formats_view(res@) == image_catalog(),
{
    let mut v: Vec<FormatDefinition> = Vec::new();
    let f = image_format("jpg", "JPG / JPEG", &["jpg", "jpeg"], &["image/jpeg"], "jpg", "mjpeg");
    assert(f@.extensions == strs_view(seq!["jpg", "jpeg"]));
    assert(f@.mime_types == strs_view(seq!["image/jpeg"]));
    v.push(f);
    assert(formats_view(v@) =~= image_catalog().take(1));
    let f = image_format("png", "PNG", &["png"], &["image/png"], "png", "png");
    assert(f@.extensions == strs_view(seq!["png"]));
    assert(f@.mime_types == strs_view(seq!["image/png"]));
    v.push(f);
    assert(formats_view(v@) =~= image_catalog().take(2));
    let f = image_format("webp", "WebP", &["webp"], &["image/webp"], "webp", "webp");
    assert(f@.extensions == strs_view(seq!["webp"]));
    assert(f@.mime_types == strs_view(seq!["image/webp"]));
    v.push(f);
    assert(formats_view(v@) =~= image_catalog().take(3));
    let f = image_format("bmp", "BMP", &["bmp"], &["image/bmp"], "bmp", "bmp");
    assert(f@.extensions == strs_view(seq!["bmp"]));
    assert(f@.mime_types == strs_view(seq!["image/bmp"]));
    v.push(f);
    assert(formats_view(v@) =~= image_catalog().take(4));
    let f = image_format("tiff", "TIFF", &["tif", "tiff"], &["image/tiff"], "tiff", "tiff");
    assert(f@.extensions == strs_view(seq!["tif", "tiff"]));
    assert(f@.mime_types == strs_view(seq!["image/tiff"]));
    v.push(f);
    assert(formats_view(v@) =~= image_catalog().take(5));
    let f = image_format("gif", "GIF", &["gif"], &["image/gif"], "gif", "gif");
    assert(f@.extensions == strs_view(seq!["gif"]));
    assert(f@.mime_types == strs_view(seq!["image/gif"]));
    v.push(f);
    assert(formats_view(v@) =~= image_catalog().take(6));
    let f = image_format("avif", "AVIF", &["avif"], &["image/avif"], "avif", "av1");
    assert(f@.extensions == strs_view(seq!["avif"]));
    assert(f@.mime_types == strs_view(seq!["image/avif"]));
    v.push(f);
    assert(formats_view(v@) =~= image_catalog().take(7));
    assert(formats_view(v@) =~= image_catalog());
    v
}

/// The audio formats.
pub fn audio_formats() -> (res: Vec<FormatDefinition>)
    ensures
        formats_view(res@) == audio_catalog(),
{
    let mut v: Vec<FormatDefinition> = Vec::new();
    let f = audio_format("mp3", "MP3", &["mp3"], &["audio/mpeg"], "mp3", "mp3", Some("mp3"));
    assert(f@.extensions == strs_view(seq!["mp3"]));
    assert(f@.mime_types == strs_view(seq!["audio/mpeg"]));
    v.push(f);
    assert(formats_view(v@) =~= audio_catalog().take(1));
    let f = audio_format("wav", "WAV", &["wav"], &["audio/wav", "audio/x-wav"], "wav", "pcm-s16le", Some("wav"));
    assert(f@.extensions == strs_view(seq!["wav"]));
    assert(f@.mime_types == strs_view(seq!["audio/wav", "audio/x-wav"]));
    v.push(f);
    assert(formats_view(v@) =~= audio_catalog().take(2));
    let f = audio_format("flac", "FLAC", &["flac"], &["audio/flac"], "flac", "flac", Some("flac"));
    assert(f@.extensions == strs_view(seq!["flac"]));
    assert(f@.mime_types == strs_view(seq!["audio/flac"]));
    v.push(f);
    assert(formats_view(v@) =~= audio_catalog().take(3));
    let f = audio_format("aac", "AAC", &["aac"], &["audio/aac"], "aac", "aac", Some("adts"));
    assert(f@.extensions == strs_view(seq!["aac"]));
    assert(f@.mime_types == strs_view(seq!["audio/aac"]));
    v.push(f);
    assert(formats_view(v@) =~= audio_catalog().take(4));
    let f = audio_format("m4a", "M4A", &["m4a"], &["audio/mp4"], "m4a", "aac", Some("ipod"));
    assert(f@.extensions == strs_view(seq!["m4a"]));
    assert(f@.mime_types == strs_view(seq!["audio/mp4"]));
    v.push(f);
    assert(formats_view(v@) =~= audio_catalog().take(5));
    let f = audio_format("ogg", "OGG Vorbis", &["ogg", "oga"], &["audio/ogg"], "ogg", "vorbis", Some("ogg"));
    assert(f@.extensions == strs_view(seq!["ogg", "oga"]));
    assert(f@.mime_types == strs_view(seq!["audio/ogg"]));
    v.push(f);
    assert(formats_view(v@) =~= audio_catalog().take(6));
    let f = audio_format("opus", "Opus", &["opus"], &["audio/opus", "audio/ogg"], "opus", "opus", Some("ogg"));
    assert(f@.extensions == strs_view(seq!["opus"]));
    assert(f@.mime_types == strs_view(seq!["audio/opus", "audio/ogg"]));
    v.push(f);
    assert(formats_view(v@) =~= audio_catalog().take(7));
    let f = audio_format("aiff", "AIFF", &["aif", "aiff", "aifc"], &["audio/aiff", "audio/x-aiff"], "aiff", "pcm-s16be", Some("aiff"));
    assert(f@.extensions == strs_view(seq!["aif", "aiff", "aifc"]));
    assert(f@.mime_types == strs_view(seq!["audio/aiff", "audio/x-aiff"]));
    v.push(f);
    assert(formats_view(v@) =~= audio_catalog().take(8));
    let f = audio_format("alac", "ALAC", &[], &["audio/mp4"], "m4a", "alac", Some("ipod"));
    assert(f@.extensions == strs_view(seq![]));
    assert(f@.mime_types == strs_view(seq!["audio/mp4"]));
    v.push(f);
    assert(formats_view(v@) =~= audio_catalog().take(9));
    let f = audio_format("ac3", "AC3", &["ac3"], &["audio/ac3"], "ac3", "ac3", Some("ac3"));
    assert(f@.extensions == strs_view(seq!["ac3"]));
    assert(f@.mime_types == strs_view(seq!["audio/ac3"]));
    v.push(f);
    assert(formats_view(v@) =~= audio_catalog().take(10));
    assert(formats_view(v@) =~= audio_catalog());
    v
}

/// The video formats.
pub fn video_formats() -> (res: Vec<FormatDefinition>)
    ensures
        formats_view(res@) == video_catalog(),
{
    let mut v: Vec<FormatDefinition> = Vec::new();
    let f = video_format("mp4", "MP4", &["mp4"], &["video/mp4"], "mp4", "h264", "aac", Some("mp4"));
    assert(f@.extensions == strs_view(seq!["mp4"]));
    assert(f@.mime_types == strs_view(seq!["video/mp4"]));
    v.push(f);
    assert(formats_view(v@) =~= video_catalog().take(1));
    let f = video_format("mkv", "MKV", &["mkv"], &["video/x-matroska"], "mkv", "h264", "aac", Some("matroska"));
    assert(f@.extensions == strs_view(seq!["mkv"]));
    assert(f@.mime_types == strs_view(seq!["video/x-matroska"]));
    v.push(f);
    assert(formats_view(v@) =~= video_catalog().take(2));
    let f = video_format("webm", "WebM", &["webm"], &["video/webm"], "webm", "vp9", "opus", Some("webm"));
    assert(f@.extensions == strs_view(seq!["webm"]));
    assert(f@.mime_types == strs_view(seq!["video/webm"]));
    v.push(f);
    assert(formats_view(v@) =~= video_catalog().take(3));
    let f = video_format("mov", "MOV", &["mov"], &["video/quicktime"], "mov", "h264", "aac", Some("mov"));
    assert(f@.extensions == strs_view(seq!["mov"]));
    assert(f@.mime_types == strs_view(seq!["video/quicktime"]));
    v.push(f);
    assert(formats_view(v@) =~= video_catalog().take(4));
    let f = video_format("avi", "AVI", &["avi"], &["video/x-msvideo"], "avi", "mpeg4", "mp3", Some("avi"));
    assert(f@.extensions == strs_view(seq!["avi"]));
    assert(f@.mime_types == strs_view(seq!["video/x-msvideo"]));
    v.push(f);
    assert(formats_view(v@) =~= video_catalog().take(5));
    let f = video_format("m4v", "M4V", &["m4v"], &["video/x-m4v"], "m4v", "h264", "aac", Some("ipod"));
    assert(f@.extensions == strs_view(seq!["m4v"]));
    assert(f@.mime_types == strs_view(seq!["video/x-m4v"]));
    v.push(f);
    assert(formats_view(v@) =~= video_catalog().take(6));
    let f = video_format("mpeg", "MPEG / MPG", &["mpeg", "mpg"], &["video/mpeg"], "mpeg", "mpeg2", "mp2", Some("mpeg"));
    assert(f@.extensions == strs_view(seq!["mpeg", "mpg"]));
    assert(f@.mime_types == strs_view(seq!["video/mpeg"]));
    v.push(f);
    assert(formats_view(v@) =~= video_catalog().take(7));
    let f = video_format("ogv", "OGV", &["ogv"], &["video/ogg"], "ogv", "theora", "vorbis", Some("ogg"));
    assert(f@.extensions == strs_view(seq!["ogv"]));
    assert(f@.mime_types == strs_view(seq!["video/ogg"]));
    v.push(f);
    assert(formats_view(v@) =~= video_catalog().take(8));
    let f = video_format("ts", "TS / MTS / M2TS", &["ts", "mts", "m2ts"], &["video/mp2t"], "ts", "mpeg2", "mp2", Some("mpegts"));
    assert(f@.extensions == strs_view(seq!["ts", "mts", "m2ts"]));
    assert(f@.mime_types == strs_view(seq!["video/mp2t"]));
    v.push(f);
    assert(formats_view(v@) =~= video_catalog().take(9));
    assert(formats_view(v@) =~= video_catalog());
    v
}

/// The document formats.
pub fn document_formats() -> (res: Vec<FormatDefinition>)
    ensures
        formats_view(res@) == document_catalog(),
{
    let mut v: Vec<FormatDefinition> = Vec::new();
    let f = document_format("pdf", "PDF", &["pdf"], &["application/pdf"], "pdf");
    assert(f@.extensions == strs_view(seq!["pdf"]));
    assert(f@.mime_types == strs_view(seq!["application/pdf"]));
    v.push(f);
    assert(formats_view(v@) =~= document_catalog().take(1));
    let f = document_format("odt", "ODT (OpenDocument Text)", &["odt"], &["application/vnd.oasis.opendocument.text"], "odt");
    assert(f@.extensions == strs_view(seq!["odt"]));
    assert(f@.mime_types == strs_view(seq!["application/vnd.oasis.opendocument.text"]));
    v.push(f);
    assert(formats_view(v@) =~= document_catalog().take(2));
    let f = document_format("docx", "DOCX (Word Document)", &["docx"], &["application/vnd.openxmlformats-officedocument.wordprocessingml.document"], "docx");
    assert(f@.extensions == strs_view(seq!["docx"]));
    assert(f@.mime_types == strs_view(seq!["application/vnd.openxmlformats-officedocument.wordprocessingml.document"]));
    v.push(f);
    assert(formats_view(v@) =~= document_catalog().take(3));
    let f = document_format("doc", "DOC (Word 97-2003)", &["doc"], &["application/msword"], "doc");
    assert(f@.extensions == strs_view(seq!["doc"]));
    assert(f@.mime_types == strs_view(seq!["application/msword"]));
    v.push(f);
    assert(formats_view(v@) =~= document_catalog().take(4));
    let f = document_format("rtf", "RTF (Rich Text)", &["rtf"], &["application/rtf", "text/rtf"], "rtf");
    assert(f@.extensions == strs_view(seq!["rtf"]));
    assert(f@.mime_types == strs_view(seq!["application/rtf", "text/rtf"]));
    v.push(f);
    assert(formats_view(v@) =~= document_catalog().take(5));
    let f = document_format("txt", "TXT (Plain Text)", &["txt"], &["text/plain"], "txt");
    assert(f@.extensions == strs_view(seq!["txt"]));
    assert(f@.mime_types == strs_view(seq!["text/plain"]));
    v.push(f);
    assert(formats_view(v@) =~= document_catalog().take(6));
    let f = document_format("md", "Markdown", &["md", "markdown"], &["text/markdown", "text/x-markdown"], "md");
    assert(f@.extensions == strs_view(seq!["md", "markdown"]));
    assert(f@.mime_types == strs_view(seq!["text/markdown", "text/x-markdown"]));
    v.push(f);
    assert(formats_view(v@) =~= document_catalog().take(7));
    let f = document_format("html", "HTML", &["html", "htm", "xhtml"], &["text/html", "application/xhtml+xml"], "html");
    assert(f@.extensions == strs_view(seq!["html", "htm", "xhtml"]));
    assert(f@.mime_types == strs_view(seq!["text/html", "application/xhtml+xml"]));
    v.push(f);
    assert(formats_view(v@) =~= document_catalog().take(8));
    let f = document_format("epub", "EPUB", &["epub"], &["application/epub+zip"], "epub");
    assert(f@.extensions == strs_view(seq!["epub"]));
    assert(f@.mime_types == strs_view(seq!["application/epub+zip"]));
    v.push(f);
    assert(formats_view(v@) =~= document_catalog().take(9));
    let f = document_format("ods", "ODS (OpenDocument Sheet)", &["ods"], &["application/vnd.oasis.opendocument.spreadsheet"], "ods");
    assert(f@.extensions == strs_view(seq!["ods"]));
    assert(f@.mime_types == strs_view(seq!["application/vnd.oasis.opendocument.spreadsheet"]));
    v.push(f);
    assert(formats_view(v@) =~= document_catalog().take(10));
    let f = document_format("xlsx", "XLSX (Excel Spreadsheet)", &["xlsx"], &["application/vnd.openxmlformats-officedocument.spreadsheetml.sheet"], "xlsx");
    assert(f@.extensions == strs_view(seq!["xlsx"]));
    assert(f@.mime_types == strs_view(seq!["application/vnd.openxmlformats-officedocument.spreadsheetml.sheet"]));
    v.push(f);
    assert(formats_view(v@) =~= document_catalog().take(11));
    let f = document_format("xls", "XLS (Excel 97-2003)", &["xls"], &["application/vnd.ms-excel"], "xls");
    assert(f@.extensions == strs_view(seq!["xls"]));
    assert(f@.mime_types == strs_view(seq!["application/vnd.ms-excel"]));
    v.push(f);
    assert(formats_view(v@) =~= document_catalog().take(12));
    let f = document_format("csv", "CSV", &["csv"], &["text/csv"], "csv");
    assert(f@.extensions == strs_view(seq!["csv"]));
    assert(f@.mime_types == strs_view(seq!["text/csv"]));
    v.push(f);
    assert(formats_view(v@) =~= document_catalog().take(13));
    let f = document_format("tsv", "TSV", &["tsv"], &["text/tab-separated-values"], "tsv");
    assert(f@.extensions == strs_view(seq!["tsv"]));
    assert(f@.mime_types == strs_view(seq!["text/tab-separated-values"]));
    v.push(f);
    assert(formats_view(v@) =~= document_catalog().take(14));
    let f = document_format("odp", "ODP (OpenDocument Presentation)", &["odp"], &["application/vnd.oasis.opendocument.presentation"], "odp");
    assert(f@.extensions == strs_view(seq!["odp"]));
    assert(f@.mime_types == strs_view(seq!["application/vnd.oasis.opendocument.presentation"]));
    v.push(f);
    assert(formats_view(v@) =~= document_catalog().take(15));
    let f = document_format("pptx", "PPTX (PowerPoint Presentation)", &["pptx"], &["application/vnd.openxmlformats-officedocument.presentationml.presentation"], "pptx");
    assert(f@.extensions == strs_view(seq!["pptx"]));
    assert(f@.mime_types == strs_view(seq!["application/vnd.openxmlformats-officedocument.presentationml.presentation"]));
    v.push(f);
    assert(formats_view(v@) =~= document_catalog().take(16));
    let f = document_format("ppt", "PPT (PowerPoint 97-2003)", &["ppt"], &["application/vnd.ms-powerpoint"], "ppt");
    assert(f@.extensions == strs_view(seq!["ppt"]));
    assert(f@.mime_types == strs_view(seq!["application/vnd.ms-powerpoint"]));
    v.push(f);
    assert(formats_view(v@) =~= document_catalog().take(17));
    assert(formats_view(v@) =~= document_catalog());
    v
}

/// The built-in codecs, in catalogue order.
pub fn built_in_codecs() -> (res: Vec<CodecDefinition>)
    ensures
        codecs_view(res@) == codec_catalog(),
{
    let mut v: Vec<CodecDefinition> = Vec::new();
    let c = video_codec("mjpeg", "mjpeg", &["-q:v", "2"]);
    assert(c@.default_args == strs_view(seq!["-q:v", "2"]));
    v.push(c);
    assert(codecs_view(v@) =~= codec_catalog().take(1));
    let c = video_codec("png", "png", &[]);
    assert(c@.default_args == strs_view(seq![]));
    v.push(c);
    assert(codecs_view(v@) =~= codec_catalog().take(2));
    let c = video_codec("webp", "libwebp", &["-quality", "82"]);
    assert(c@.default_args == strs_view(seq!["-quality", "82"]));
    v.push(c);
    assert(codecs_view(v@) =~= codec_catalog().take(3));
    let c = video_codec("bmp", "bmp", &[]);
    assert(c@.default_args == strs_view(seq![]));
    v.push(c);
    assert(codecs_view(v@) =~= codec_catalog().take(4));
    let c = video_codec("tiff", "tiff", &[]);
    assert(c@.default_args == strs_view(seq![]));
    v.push(c);
    assert(codecs_view(v@) =~= codec_catalog().take(5));
    let c = video_codec("gif", "gif", &[]);
    assert(c@.default_args == strs_view(seq![]));
    v.push(c);
    assert(codecs_view(v@) =~= codec_catalog().take(6));
    let c = video_codec("av1", "libaom-av1", &["-crf", "30", "-b:v", "0", "-still-picture", "1"]);
    assert(c@.default_args == strs_view(seq!["-crf", "30", "-b:v", "0", "-still-picture", "1"]));
    v.push(c);
    assert(codecs_view(v@) =~= codec_catalog().take(7));
    let c = video_codec("h264", "libx264", &["-preset", "medium", "-crf", "23"]);
    assert(c@.default_args == strs_view(seq!["-preset", "medium", "-crf", "23"]));
    v.push(c);
    assert(codecs_view(v@) =~= codec_catalog().take(8));
    let c = video_codec("vp9", "libvpx-vp9", &["-crf", "31", "-b:v", "0"]);
    assert(c@.default_args == strs_view(seq!["-crf", "31", "-b:v", "0"]));
    v.push(c);
    assert(codecs_view(v@) =~= codec_catalog().take(9));
    let c = video_codec("mpeg4", "mpeg4", &["-q:v", "5"]);
    assert(c@.default_args == strs_view(seq!["-q:v", "5"]));
    v.push(c);
    assert(codecs_view(v@) =~= codec_catalog().take(10));
    let c = video_codec("mpeg2", "mpeg2video", &["-q:v", "5"]);
    assert(c@.default_args == strs_view(seq!["-q:v", "5"]));
    v.push(c);
    assert(codecs_view(v@) =~= codec_catalog().take(11));
    let c = video_codec("theora", "libtheora", &["-q:v", "7"]);
    assert(c@.default_args == strs_view(seq!["-q:v", "7"]));
    v.push(c);
    assert(codecs_view(v@) =~= codec_catalog().take(12));
    let c = audio_codec("mp3", "libmp3lame", &["-q:a", "2"]);
    assert(c@.default_args == strs_view(seq!["-q:a", "2"]));
    v.push(c);
    assert(codecs_view(v@) =~= codec_catalog().take(13));
    let c = audio_codec("pcm-s16le", "pcm_s16le", &[]);
    assert(c@.default_args == strs_view(seq![]));
    v.push(c);
    assert(codecs_view(v@) =~= codec_catalog().take(14));
    let c = audio_codec("pcm-s16be", "pcm_s16be", &[]);
    assert(c@.default_args == strs_view(seq![]));
    v.push(c);
    assert(codecs_view(v@) =~= codec_catalog().take(15));
    let c = audio_codec("flac", "flac", &[]);
    assert(c@.default_args == strs_view(seq![]));
    v.push(c);
    assert(codecs_view(v@) =~= codec_catalog().take(16));
    let c = audio_codec("aac", "aac", &["-b:a", "192k"]);
    assert(c@.default_args == strs_view(seq!["-b:a", "192k"]));
    v.push(c);
    assert(codecs_view(v@) =~= codec_catalog().take(17));
    let c = audio_codec("vorbis", "libvorbis", &["-q:a", "5"]);
    assert(c@.default_args == strs_view(seq!["-q:a", "5"]));
    v.push(c);
    assert(codecs_view(v@) =~= codec_catalog().take(18));
    let c = audio_codec("opus", "libopus", &["-b:a", "160k"]);
    assert(c@.default_args == strs_view(seq!["-b:a", "160k"]));
    v.push(c);
    assert(codecs_view(v@) =~= codec_catalog().take(19));
    let c = audio_codec("alac", "alac", &[]);
    assert(c@.default_args == strs_view(seq![]));
    v.push(c);
    assert(codecs_view(v@) =~= codec_catalog().take(20));
    let c = audio_codec("ac3", "ac3", &["-b:a", "192k"]);
    assert(c@.default_args == strs_view(seq!["-b:a", "192k"]));
    v.push(c);
    assert(codecs_view(v@) =~= codec_catalog().take(21));
    let c = audio_codec("mp2", "mp2", &["-b:a", "192k"]);
    assert(c@.default_args == strs_view(seq!["-b:a", "192k"]));
    v.push(c);
    assert(codecs_view(v@) =~= codec_catalog().take(22));
    assert(codecs_view(v@) =~= codec_catalog());
    v
}
/// The built-in formats, in catalogue order.
pub fn built_in_formats() -> (res: Vec<FormatDefinition>)
    ensures
        formats_view(res@) == format_catalog(),
{
    let mut v = image_formats();
    let mut a = audio_formats();
    let mut b = video_formats();
    let mut c = document_formats();
    v.append(&mut a);
    v.append(&mut b);
    v.append(&mut c);
    assert(formats_view(v@) =~= format_catalog());
    v
}

} // verus!
