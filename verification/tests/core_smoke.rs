use recast::engines::{EngineBinary, EngineSet};
use recast::errors::CoreError;
use recast::execution::{build_args, build_plan, InputObservations, PlanQuery, PlanStep};
use recast::formats::{
    conversion_capabilities, detect_format, ffmpeg_args_for, format_by_id, is_format_conversion_supported,
    target_formats_for,
};
use recast::libreoffice::LibreOfficeVersion;
use recast::models::{ConversionPlan, ConversionRequest, MediaCategory, OverwritePolicy};
use recast::paths::{resolve_output_collision, temp_output_path, CollisionStep};
use std::collections::BTreeMap;

/// Answers every question of the planner as a file system holding the
/// inputs (7 bytes each), no outputs and LibreOffice 26.2 would.
fn plan_with_fixtures(request: &ConversionRequest, engines: &EngineSet) -> Result<Vec<ConversionPlan>, CoreError> {
    let mut observations: Vec<InputObservations> = Vec::new();
    loop {
        match build_plan(request, engines, &observations) {
            PlanStep::Done(result) => return result,
            PlanStep::Need { input_index, query } => {
                while observations.len() <= input_index {
                    observations.push(InputObservations::new());
                }
                let obs = &mut observations[input_index];
                match query {
                    PlanQuery::Inspect(_) => obs.file_size = Some(Ok(7)),
                    PlanQuery::Exists(_) => obs.exists.push(false),
                    PlanQuery::LibreOfficeVersion(_) => {
                        obs.version = Some(LibreOfficeVersion::parse("LibreOffice 26.2.0.1"))
                    }
                }
            }
        }
    }
}

fn engine(name: &str, path: &str) -> EngineBinary {
    EngineBinary { name: name.to_string(), path: path.to_string(), version_args: vec![] }
}

#[test]
fn png_exposes_expected_targets() {
    let targets = target_formats_for("png");
    assert!(targets.contains(&"jpg".to_string()));
    assert!(targets.contains(&"webp".to_string()));
}

#[test]
fn aliases_are_detected_as_canonical_formats() {
    assert_eq!(detect_format("JPEG").expect("jpeg").id, "jpg");
    assert_eq!(detect_format("tif").expect("tiff").id, "tiff");
    assert_eq!(detect_format("mpg").expect("mpeg").id, "mpeg");
    assert_eq!(detect_format("m2ts").expect("transport stream").id, "ts");
}

#[test]
fn catalog_contains_every_supported_format() {
    let capabilities = conversion_capabilities();
    for expected in [
        "jpg", "png", "webp", "bmp", "tiff", "gif", "avif", "mp3", "wav", "flac", "aac", "m4a",
        "ogg", "opus", "aiff", "alac", "ac3", "mp4", "mkv", "webm", "mov", "avi", "m4v", "mpeg",
        "ogv", "ts",
    ] {
        assert!(
            capabilities.formats.iter().any(|format| format.id == expected),
            "missing {expected}"
        );
    }
}

#[test]
fn formats_reference_separate_known_codecs() {
    let capabilities = conversion_capabilities();
    for format in &capabilities.formats {
        for codec_id in [format.default_video_codec.as_ref(), format.default_audio_codec.as_ref()]
            .into_iter()
            .flatten()
        {
            assert!(
                capabilities.codecs.iter().any(|codec| &codec.id == codec_id),
                "{} references unknown codec {codec_id}",
                format.id
            );
        }
    }
}

#[test]
fn video_targets_include_audio_extraction() {
    let capabilities = conversion_capabilities();
    let targets = &capabilities
        .targets_by_source_category
        .iter()
        .find(|(name, _)| name == "video")
        .expect("video")
        .1;
    assert!(targets.contains(&"mkv".into()));
    assert!(targets.contains(&"mp3".into()));
    assert!(targets.contains(&"alac".into()));
}

#[test]
fn ffmpeg_mappings_keep_container_and_codecs_distinct() {
    let webm = ffmpeg_args_for(&MediaCategory::Video, "webm").expect("webm mapping");
    assert!(webm.windows(2).any(|args| args == ["-c:v", "libvpx-vp9"]));
    assert!(webm.windows(2).any(|args| args == ["-c:a", "libopus"]));
    assert!(webm.windows(2).any(|args| args == ["-f", "webm"]));

    let extracted = ffmpeg_args_for(&MediaCategory::Video, "flac").expect("flac extraction");
    assert!(extracted.contains(&"-vn".into()));
    assert!(extracted.windows(2).any(|args| args == ["-c:a", "flac"]));
}

#[test]
fn plans_use_ffmpeg_for_images_and_target_default_extension() {
    let args = build_args("input.wav", "output.m4a", &MediaCategory::Audio, "alac").expect("alac args");
    assert!(args.windows(2).any(|args| args == ["-c:a", "alac"]));
    assert_eq!(format_by_id("alac").expect("alac format").default_extension, "m4a");
}

#[test]
fn temp_output_suffix_is_appended() {
    let path = temp_output_path("sample.mp4");
    assert_eq!(path, "sample.mp4.recast-temp");
}

#[test]
fn rename_policy_avoids_existing_file() {
    let file = "fixtures/photo.jpg";
    // The requested file exists: renaming probes the first alternative.
    let step = resolve_output_collision(file, &OverwritePolicy::Rename, 0, true);
    let (attempt, candidate) = match step {
        CollisionStep::Probe { attempt, candidate } => (attempt, candidate),
        other => panic!("expected a probe, got {other:?}"),
    };
    assert_eq!(attempt, 1);
    // The alternative is free: it is the path to write.
    let renamed = match resolve_output_collision(file, &OverwritePolicy::Rename, attempt, false) {
        CollisionStep::Resolved(Ok(path)) => path,
        other => panic!("rename path: {other:?}"),
    };
    assert_eq!(renamed, candidate);
    assert_ne!(renamed, file);
}

#[test]
fn document_extensions_and_aliases_are_detected() {
    let docx = detect_format("docx").expect("docx");
    assert_eq!(docx.id, "docx");
    assert_eq!(docx.category, MediaCategory::Document);

    let md_alias = detect_format("markdown").expect("markdown alias");
    assert_eq!(md_alias.id, "md");
    assert_eq!(md_alias.category, MediaCategory::Document);

    let htm_alias = detect_format("htm").expect("htm alias");
    assert_eq!(htm_alias.id, "html");

    let pdf = detect_format("pdf").expect("pdf");
    assert_eq!(pdf.id, "pdf");
    assert_eq!(pdf.category, MediaCategory::Document);

    let odt = detect_format("odt").expect("odt");
    assert_eq!(odt.id, "odt");

    let xlsx = detect_format("xlsx").expect("xlsx");
    assert_eq!(xlsx.id, "xlsx");

    let pptx = detect_format("pptx").expect("pptx");
    assert_eq!(pptx.id, "pptx");
}

#[test]
fn pdf_supports_text_document_targets() {
    let pdf_targets = target_formats_for("pdf");
    assert!(!pdf_targets.is_empty(), "PDF should advertise text document target formats");
    assert!(pdf_targets.contains(&"docx".into()));
    assert!(pdf_targets.contains(&"odt".into()));
    assert!(pdf_targets.contains(&"txt".into()));
    assert!(!pdf_targets.contains(&"xlsx".into()));
    assert!(is_format_conversion_supported("pdf", "docx"));
    assert!(is_format_conversion_supported("pdf", "txt"));
    assert!(!is_format_conversion_supported("pdf", "xlsx"));
}

#[test]
fn document_capabilities_are_family_isolated() {
    // Text documents
    let docx_targets = target_formats_for("docx");
    assert!(docx_targets.contains(&"pdf".into()));
    assert!(docx_targets.contains(&"odt".into()));
    assert!(docx_targets.contains(&"txt".into()));
    assert!(docx_targets.contains(&"md".into()));
    assert!(docx_targets.contains(&"html".into()));
    // Cannot convert docx to spreadsheet or presentation
    assert!(!docx_targets.contains(&"xlsx".into()));
    assert!(!docx_targets.contains(&"pptx".into()));

    // Spreadsheets
    let xlsx_targets = target_formats_for("xlsx");
    assert!(xlsx_targets.contains(&"pdf".into()));
    assert!(xlsx_targets.contains(&"ods".into()));
    assert!(xlsx_targets.contains(&"csv".into()));
    assert!(!xlsx_targets.contains(&"docx".into()));
    assert!(!xlsx_targets.contains(&"pptx".into()));

    // Presentations
    let pptx_targets = target_formats_for("pptx");
    assert!(pptx_targets.contains(&"pdf".into()));
    assert!(pptx_targets.contains(&"odp".into()));
    assert!(pptx_targets.contains(&"ppt".into()));
    assert!(!pptx_targets.contains(&"docx".into()));
    assert!(!pptx_targets.contains(&"xlsx".into()));

    // Cross-category is unsupported
    assert!(!is_format_conversion_supported("docx", "mp4"));
    assert!(!is_format_conversion_supported("mp4", "pdf"));
}

#[test]
fn planning_selects_correct_engine_and_builds_args() {
    let engines = EngineSet {
        ffmpeg: engine("ffmpeg", "fake/ffmpeg.exe"),
        libreoffice: Some(engine("libreoffice", "fake/soffice.exe")),
    };
    let root = "recast-plan-test".to_string();

    let doc_request = ConversionRequest {
        input_paths: vec![format!("{root}/test.docx")],
        target_format: "pdf".into(),
        preset_id: None,
        output_directory: Some(root.clone()),
        overwrite_policy: OverwritePolicy::Overwrite,
        options: BTreeMap::new(),
    };

    let plans = plan_with_fixtures(&doc_request, &engines).expect("document plan");
    assert_eq!(plans.len(), 1);
    assert_eq!(plans[0].category, MediaCategory::Document);
    assert_eq!(plans[0].executable, "fake/soffice.exe");
    assert!(plans[0].args.contains(&"--headless".into()));
    assert!(plans[0].args.contains(&"--convert-to".into()));
    assert!(plans[0].args.contains(&"pdf:writer_pdf_Export".into()));

    let media_request = ConversionRequest {
        input_paths: vec![format!("{root}/test.mp4")],
        target_format: "mp3".into(),
        preset_id: None,
        output_directory: Some(root.clone()),
        overwrite_policy: OverwritePolicy::Overwrite,
        options: BTreeMap::new(),
    };

    let media_plans = plan_with_fixtures(&media_request, &engines).expect("media plan");
    assert_eq!(media_plans.len(), 1);
    assert_eq!(media_plans[0].category, MediaCategory::Video);
    assert_eq!(media_plans[0].executable, "fake/ffmpeg.exe");
}

#[test]
fn planning_rejects_missing_libreoffice_engine() {
    let engines = EngineSet { ffmpeg: engine("ffmpeg", "fake/ffmpeg.exe"), libreoffice: None };
    let root = "recast-plan-test2".to_string();
    let doc_request = ConversionRequest {
        input_paths: vec![format!("{root}/test.docx")],
        target_format: "pdf".into(),
        preset_id: None,
        output_directory: Some(root.clone()),
        overwrite_policy: OverwritePolicy::Overwrite,
        options: BTreeMap::new(),
    };

    let result = plan_with_fixtures(&doc_request, &engines);
    assert!(result.is_err());
    let err = result.unwrap_err();
    assert!(matches!(err, CoreError::EngineNotFound(_)));
}

#[test]
fn planning_rejects_unsupported_document_pair() {
    let engines = EngineSet {
        ffmpeg: engine("ffmpeg", "fake/ffmpeg.exe"),
        libreoffice: Some(engine("libreoffice", "fake/soffice.exe")),
    };

    // PDF -> XLSX is cross-family and not allowed!
    let invalid_request = ConversionRequest {
        input_paths: vec!["test.pdf".to_string()],
        target_format: "xlsx".into(),
        preset_id: None,
        output_directory: Some("out".to_string()),
        overwrite_policy: OverwritePolicy::Overwrite,
        options: BTreeMap::new(),
    };

    let result = plan_with_fixtures(&invalid_request, &engines);
    assert!(result.is_err());
    assert!(matches!(result.unwrap_err(), CoreError::UnsupportedOutput));
}
