//! What is known of an input file before it is converted.
use vstd::prelude::*;
use crate::errors::{CoreError, CoreErrorView};
use crate::formats::{detect_format, spec_detect_format};
use crate::models::{MediaCategory, MediaInfo};
use crate::requests::{input_extension, input_extension_exec};
use crate::text::owned;

verus! {

/// The facts of an input: its format by extension, and its size as the file
/// system reported it (or the file system's error).
pub open spec fn spec_inspect(path: Seq<char>, metadata: Result<u64, Seq<char>>) -> Result<(MediaCategory, Seq<char>, u64), CoreErrorView> {
    match metadata {
        Err(m) => Err(CoreErrorView::InspectionFailed(m)),
        Ok(size) => match spec_detect_format(input_extension(path)) {
            None => Err(CoreErrorView::UnsupportedInput),
            Some(f) => Ok((f.category, f.id, size)),
        },
    }
}

/// Describes an input from its path and what reading its metadata gave:
/// a metadata error is an `InspectionFailed` error with that text, an
/// extension that names no format is `UnsupportedInput`; otherwise the media
/// category and format of the extension and the file size, with every other
/// fact unknown.
pub fn inspect_path(path: &str, metadata: Result<u64, String>) -> (res: Result<MediaInfo, CoreError>)
    ensures
        match res {
            Ok(info) => {
                &&& spec_inspect(path@, match metadata {
                    Ok(s) => Ok(s),
                    Err(m) => Err(m@),
                }) == Ok::<(MediaCategory, Seq<char>, u64), CoreErrorView>((info.category, info.detected_format@, info.file_size))
                &&& info.path@ == path@
                &&& info.duration_ms is None && info.width is None && info.height is None && info.bitrate is None
                &&& info.video_codec is None && info.audio_codec is None && info.audio_channels is None
            },
            Err(e) => spec_inspect(path@, match metadata {
                Ok(s) => Ok(s),
                Err(m) => Err(m@),
            }) == Err::<(MediaCategory, Seq<char>, u64), CoreErrorView>(e@),
        },
{
    let size = match metadata {
        Ok(s) => s,
        Err(m) => return Err(CoreError::InspectionFailed(m)),
    };
    let ext = input_extension_exec(path);
    let format = match detect_format(ext.as_str()) {
        Some(f) => f,
        None => return Err(CoreError::UnsupportedInput),
    };
    Ok(MediaInfo {
        path: owned(path),
        category: format.category,
        detected_format: format.id,
        duration_ms: None,
        width: None,
        height: None,
        bitrate: None,
        video_codec: None,
        audio_codec: None,
        audio_channels: None,
        file_size: size,
    })
}

} // verus!
