use recast::catalog::{built_in_codecs, built_in_formats};
use recast::cli::{document_input_index, engine_directory, format_summary};
use recast::desktop::{
    bundled_ffmpeg_candidates, desktop_conversion_step, ffmpeg_start_failure, finish_desktop_conversion,
    get_launch_request, DesktopStep,
};
use recast::document::{details, expected_output, produced_output, run_failure, DirEntryInfo};
use recast::engines::{EngineBinary, EngineSet, Platform};
use recast::errors::{ConversionErrorCode, CoreError};
use recast::execution::{build_plan, output_name_for, InputObservations, PlanQuery, PlanStep};
use recast::formats::{
    category_name, conversion_capabilities, ffmpeg_args_for, is_conversion_supported, is_format_conversion_supported,
    target_formats_for, target_formats_for_category, target_formats_for_document,
};
use recast::inspection::inspect_path;
use recast::libreoffice::{path_to_file_uri, LibreOfficeVersion};
use recast::models::{CodecKind, ConversionRequest, JobStatus, MediaCategory, OverwritePolicy, Timestamp};
use recast::numbers::{decimal_string, parse_unsigned_range};
use recast::paths::{rename_candidate, resolve_output_collision, temp_output_path, CollisionStep};
use recast::progress::parse_ffmpeg_progress;
use recast::queue::QueueState;
use recast::requests::{input_extension_exec, validate_request};
use recast::shell::{install_windows_context_menu, menu_command, remove_windows_context_menu, RegistryChange, ShellIntegrationError};
use std::collections::BTreeMap;

fn request(inputs: &[&str], target: &str, dir: Option<&str>, policy: OverwritePolicy) -> ConversionRequest {
    ConversionRequest {
        input_paths: inputs.iter().map(|s| s.to_string()).collect(),
        target_format: target.to_string(),
        preset_id: None,
        output_directory: dir.map(|d| d.to_string()),
        overwrite_policy: policy,
        options: BTreeMap::new(),
    }
}

fn engines(with_libreoffice: bool) -> EngineSet {
    EngineSet {
        ffmpeg: EngineBinary { name: "ffmpeg".into(), path: "bin/ffmpeg".into(), version_args: vec![] },
        libreoffice: if with_libreoffice {
            Some(EngineBinary { name: "libreoffice".into(), path: "bin/soffice".into(), version_args: vec![] })
        } else {
            None
        },
    }
}

/// Drives the planner; `existing` lists the paths that exist, `version` is
/// what LibreOffice reports.
fn plan(
    req: &ConversionRequest,
    engines: &EngineSet,
    existing: &[&str],
    version: &str,
) -> Result<Vec<recast::models::ConversionPlan>, CoreError> {
    let mut observations: Vec<InputObservations> = Vec::new();
    for _ in 0..100 {
        match build_plan(req, engines, &observations) {
            PlanStep::Done(r) => return r,
            PlanStep::Need { input_index, query } => {
                while observations.len() <= input_index {
                    observations.push(InputObservations::new());
                }
                let obs = &mut observations[input_index];
                match query {
                    PlanQuery::Inspect(_) => obs.file_size = Some(Ok(42)),
                    PlanQuery::Exists(p) => obs.exists.push(existing.contains(&p.as_str())),
                    PlanQuery::LibreOfficeVersion(_) => obs.version = Some(LibreOfficeVersion::parse(version)),
                }
            }
        }
    }
    panic!("planning did not finish");
}

// Category targets are exactly the accepted formats.
#[test]
fn category_targets_cover_every_accepted_format() {
    let formats = built_in_formats();
    for (source, accepted) in [
        (MediaCategory::Image, vec![MediaCategory::Image]),
        (MediaCategory::Audio, vec![MediaCategory::Audio]),
        (MediaCategory::Video, vec![MediaCategory::Video, MediaCategory::Audio]),
        (MediaCategory::Document, vec![MediaCategory::Document]),
    ] {
        let targets = target_formats_for_category(&source);
        for f in &formats {
            assert_eq!(targets.contains(&f.id), accepted.contains(&f.category), "{:?} -> {}", source, f.id);
        }
    }
}

// Every offered media target has an FFmpeg mapping, and nothing else does.
#[test]
fn ffmpeg_mapping_exists_exactly_for_offered_targets() {
    for source in [MediaCategory::Image, MediaCategory::Audio, MediaCategory::Video, MediaCategory::Document] {
        for f in built_in_formats() {
            let offered = source != MediaCategory::Document && is_conversion_supported(&source, &f.id);
            assert_eq!(ffmpeg_args_for(&source, &f.id).is_some(), offered, "{:?} -> {}", source, f.id);
        }
    }
    assert!(ffmpeg_args_for(&MediaCategory::Image, "mp3").is_none());
    assert!(ffmpeg_args_for(&MediaCategory::Audio, "nope").is_none());
}

#[test]
fn ffmpeg_mappings_have_exact_arguments() {
    assert_eq!(
        ffmpeg_args_for(&MediaCategory::Image, "jpg").unwrap(),
        vec!["-frames:v", "1", "-c:v", "mjpeg", "-q:v", "2"]
    );
    assert_eq!(
        ffmpeg_args_for(&MediaCategory::Video, "mp3").unwrap(),
        vec!["-vn", "-c:a", "libmp3lame", "-q:a", "2", "-f", "mp3"]
    );
    assert_eq!(
        ffmpeg_args_for(&MediaCategory::Video, "mp4").unwrap(),
        vec!["-c:v", "libx264", "-preset", "medium", "-crf", "23", "-c:a", "aac", "-b:a", "192k", "-movflags", "+faststart", "-f", "mp4"]
    );
    assert!(ffmpeg_args_for(&MediaCategory::Document, "pdf").is_none());
}

#[test]
fn catalogue_formats_reference_catalogue_codecs() {
    let codecs = built_in_codecs();
    for f in built_in_formats() {
        if f.category == MediaCategory::Document {
            assert!(f.default_video_codec.is_none() && f.default_audio_codec.is_none());
        }
        for c in [&f.default_video_codec, &f.default_audio_codec].into_iter().flatten() {
            assert!(codecs.iter().any(|k| &k.id == c), "{} -> {}", f.id, c);
        }
    }
}

// Targets never include the source itself; document targets stay in family.
#[test]
fn targets_exclude_the_source_and_stay_in_family() {
    for f in built_in_formats() {
        assert!(!target_formats_for(&f.id).contains(&f.id), "{}", f.id);
    }
    let sheet = ["pdf", "ods", "xlsx", "xls", "csv", "tsv"];
    for t in target_formats_for_document("xlsx") {
        assert!(sheet.contains(&t.as_str()));
    }
    assert_eq!(target_formats_for_document("xlsx"), vec!["pdf", "ods", "xls", "csv", "tsv"]);
    assert_eq!(target_formats_for_document(".ODP"), vec!["pdf", "pptx", "ppt"]);
    assert_eq!(target_formats_for_document("csv"), vec!["pdf", "ods", "xlsx", "xls", "tsv"]);
    assert_eq!(target_formats_for_document("epub"), vec!["pdf", "odt", "docx", "doc", "rtf", "txt", "html"]);
    assert!(target_formats_for_document("zip").is_empty());
    assert!(target_formats_for("unknown").is_empty());
    assert!(is_format_conversion_supported("png", ".JPG"));
}

#[test]
fn capabilities_tables_are_complete() {
    let caps = conversion_capabilities();
    let names: Vec<&str> = caps.targets_by_source_category.iter().map(|(n, _)| n.as_str()).collect();
    assert_eq!(names, vec!["audio", "document", "image", "video"]);
    assert_eq!(caps.targets_by_source_format.len(), caps.formats.len());
    let mut keys: Vec<&String> = caps.targets_by_source_format.iter().map(|(k, _)| k).collect();
    keys.sort();
    keys.dedup();
    assert_eq!(keys.len(), caps.formats.len());
    for ((id, targets), f) in caps.targets_by_source_format.iter().zip(caps.formats.iter()) {
        assert_eq!(id, &f.id);
        assert_eq!(targets, &target_formats_for(&f.id));
    }
    assert_eq!(category_name(&MediaCategory::Document), "document");
}

// The profile URI is well formed for every path.
#[test]
fn file_uris_have_the_scheme_and_no_backslash() {
    for p in [r"C:\a\b", r"\\?\C:\x y", "/abs/path", "rel/path", "", r"\\server\share"] {
        let uri = path_to_file_uri(p);
        assert!(uri.starts_with("file:///"), "{uri}");
        assert!(!uri.contains('\\'), "{uri}");
    }
    assert_eq!(path_to_file_uri(r"\\?\C:\x y"), "file:///C:/x y");
    assert_eq!(path_to_file_uri("rel/path"), "file:///rel/path");
}

// Overwrite writes to the path, Skip refuses it, Rename takes the first free alternative.
#[test]
fn collision_policies_resolve_as_documented() {
    match resolve_output_collision("out/a.mp4", &OverwritePolicy::Overwrite, 0, true) {
        CollisionStep::Resolved(Ok(p)) => assert_eq!(p, "out/a.mp4"),
        other => panic!("{other:?}"),
    }
    for policy in [OverwritePolicy::Skip, OverwritePolicy::Ask] {
        assert!(matches!(
            resolve_output_collision("out/a.mp4", &policy, 0, true),
            CollisionStep::Resolved(Err(CoreError::OutputExists))
        ));
    }
    match resolve_output_collision("out/a.mp4", &OverwritePolicy::Skip, 0, false) {
        CollisionStep::Resolved(Ok(p)) => assert_eq!(p, "out/a.mp4"),
        other => panic!("{other:?}"),
    }
    match resolve_output_collision("out/a.mp4", &OverwritePolicy::Rename, 2, true) {
        CollisionStep::Probe { attempt, candidate } => {
            assert_eq!(attempt, 3);
            assert_eq!(candidate, "out/a (3).mp4");
        }
        other => panic!("{other:?}"),
    }
    assert!(matches!(
        resolve_output_collision("out/a.mp4", &OverwritePolicy::Rename, 9999, true),
        CollisionStep::Resolved(Err(CoreError::OutputExists))
    ));
    // Through the planner: the first two names are taken.
    let req = request(&["in/a.wav"], "mp3", Some("out"), OverwritePolicy::Rename);
    let plans = plan(&req, &engines(false), &["out/a.mp3", "out/a (1).mp3"], "").expect("plan");
    assert_eq!(plans[0].final_output, "out/a (2).mp3");
    assert_eq!(plans[0].temp_output, "out/a (2).mp3.recast-temp");
    let skip = request(&["in/a.wav"], "mp3", Some("out"), OverwritePolicy::Skip);
    assert!(matches!(plan(&skip, &engines(false), &["out/a.mp3"], ""), Err(CoreError::OutputExists)));
}

#[test]
fn path_helpers_name_outputs() {
    assert_eq!(temp_output_path("dir/movie.mkv"), "dir/movie.mkv.recast-temp");
    assert_eq!(rename_candidate("dir/photo.jpg", 2), "dir/photo (2).jpg");
    assert_eq!(rename_candidate("dir/README", 1), "dir/README (1)");
    assert_eq!(output_name_for("dir/movie.mkv", "mp3"), "movie.mp3");
    assert_eq!(input_extension_exec("a/B.JPeG"), "jpeg");
    assert_eq!(input_extension_exec("noext"), "");
}

// Markdown needs LibreOffice 26.2; other documents plan on any version; documents need LibreOffice.
#[test]
fn documents_need_libreoffice_and_markdown_needs_a_recent_one() {
    let md = request(&["in/notes.docx"], "md", Some("out"), OverwritePolicy::Overwrite);
    match plan(&md, &engines(true), &[], "LibreOffice 24.8.2.1") {
        Err(CoreError::ProcessFailed(m)) => {
            assert_eq!(m, "Markdown conversion requires LibreOffice 26.2 or newer (detected version: 24.8.2)")
        }
        other => panic!("{other:?}"),
    }
    let ok = plan(&md, &engines(true), &[], "LibreOffice 26.2.0").expect("md plan");
    assert_eq!(ok[0].args.last().unwrap(), "in/notes.docx");
    assert!(ok[0].args.contains(&"md:Markdown".to_string()));
    let pdf = request(&["in/notes.docx"], "pdf", Some("out"), OverwritePolicy::Overwrite);
    let plans = plan(&pdf, &engines(true), &[], "LibreOffice 7.6").expect("pdf plan");
    assert_eq!(plans[0].executable, "bin/soffice");
    assert_eq!(plans[0].final_output, "out/notes.pdf");
    assert_eq!(
        plans[0].args,
        vec!["--headless", "--convert-to", "pdf:writer_pdf_Export", "--outdir", "out", "in/notes.docx"]
    );
    match plan(&pdf, &engines(false), &[], "") {
        Err(CoreError::EngineNotFound(m)) => assert!(m.starts_with("LibreOffice document engine is unavailable")),
        other => panic!("{other:?}"),
    }
}

// One plan per input, in input order.
#[test]
fn plans_follow_the_inputs() {
    let req = request(&["a/one.wav", "b/two.flac", "c/three.mp4"], "mp3", None, OverwritePolicy::Overwrite);
    let plans = plan(&req, &engines(false), &[], "").expect("plans");
    let outputs: Vec<&str> = plans.iter().map(|p| p.final_output.as_str()).collect();
    assert_eq!(outputs, vec!["a/one.mp3", "b/two.mp3", "c/three.mp3"]);
    assert_eq!(plans[2].category, MediaCategory::Video);
    assert_eq!(
        plans[0].args,
        vec!["-i", "a/one.wav", "-vn", "-c:a", "libmp3lame", "-q:a", "2", "-f", "mp3", "a/one.mp3"]
    );
}

#[test]
fn validation_errors() {
    assert!(matches!(validate_request(&request(&[], "mp3", None, OverwritePolicy::Rename)), Err(CoreError::UnsupportedInput)));
    assert!(matches!(validate_request(&request(&["a.wav"], "  ", None, OverwritePolicy::Rename)), Err(CoreError::UnsupportedOutput)));
    assert!(matches!(validate_request(&request(&["a.xyz"], "mp3", None, OverwritePolicy::Rename)), Err(CoreError::UnsupportedInput)));
    assert!(matches!(validate_request(&request(&["a.wav"], "png", None, OverwritePolicy::Rename)), Err(CoreError::UnsupportedOutput)));
    assert!(validate_request(&request(&["a.WAV", "b.mp4"], "MP3", None, OverwritePolicy::Rename)).is_ok());
    // The planner refuses a request that fails validation before asking anything.
    match build_plan(&request(&["a.wav"], "png", None, OverwritePolicy::Rename), &engines(false), &vec![]) {
        PlanStep::Done(Err(CoreError::UnsupportedOutput)) => {}
        other => panic!("{other:?}"),
    }
}

#[test]
fn inspection_reports_format_and_errors() {
    let info = inspect_path("media/clip.MKV", Ok(1234)).expect("info");
    assert_eq!(info.category, MediaCategory::Video);
    assert_eq!(info.detected_format, "mkv");
    assert_eq!(info.file_size, 1234);
    assert!(info.duration_ms.is_none());
    match inspect_path("media/clip.mkv", Err("denied".to_string())) {
        Err(CoreError::InspectionFailed(m)) => assert_eq!(m, "denied"),
        other => panic!("{other:?}"),
    }
    assert!(matches!(inspect_path("media/clip.xyz", Ok(1)), Err(CoreError::UnsupportedInput)));
}

#[test]
fn errors_have_codes_messages_and_public_form() {
    let e = CoreError::EngineNotFound("ffmpeg".to_string());
    assert_eq!(e.message(), "engine not found: ffmpeg");
    assert_eq!(e.code(), ConversionErrorCode::EngineNotFound);
    let public = e.to_public_error();
    assert_eq!(public.code, "EngineNotFound");
    assert_eq!(public.message, "engine not found: ffmpeg");
    assert!(!public.recoverable);
    let exists = CoreError::OutputExists.to_public_error();
    assert_eq!(exists.code, "OutputExists");
    assert_eq!(exists.message, "output already exists");
    assert!(exists.recoverable);
    assert_eq!(CoreError::Unknown("x".into()).message(), "unknown error: x");
}

#[test]
fn progress_reports_become_events() {
    let id = uuid::Uuid::nil();
    let event = parse_ffmpeg_progress(id, "frame=12\nspeed= 1.5x \nprogress=continue").expect("event");
    assert_eq!(event.job_id, id);
    assert_eq!(event.current_frame, Some(12));
    assert_eq!(event.speed.as_deref(), Some("1.5x"));
    assert_eq!(event.message.as_deref(), Some("continue"));
    assert!(parse_ffmpeg_progress(id, "frame=3\nspeed=2x").is_none());
    let bad_frame = parse_ffmpeg_progress(id, "frame=abc\nprogress=end").expect("event");
    assert_eq!(bad_frame.current_frame, None);
    assert_eq!(bad_frame.message.as_deref(), Some("end"));
}

#[test]
fn queue_keeps_jobs_in_order() {
    let mut q = QueueState::new();
    assert!(q.list_jobs().is_empty());
    let t = Timestamp { secs: 1_700_000_000, nanos: 5 };
    let id_a = uuid::Uuid::from_u128(1);
    let id_b = uuid::Uuid::from_u128(2);
    let a = q.add_job(id_a, t, "a.wav".into(), "mp3".into(), None);
    let b = q.add_job(id_b, t, "b.png".into(), "jpg".into(), Some("web".into()));
    assert_eq!(a.id, id_a);
    assert_eq!(b.id, id_b);
    assert_eq!(a.created_at, t);
    assert_eq!(a.status, JobStatus::Pending);
    let jobs = q.list_jobs();
    assert_eq!(jobs.len(), 2);
    assert_eq!(jobs[0].id, a.id);
    assert_eq!(jobs[1].id, b.id);
    assert_eq!(jobs[1].input_path, "b.png");
    assert_eq!(jobs[1].preset_id.as_deref(), Some("web"));
    assert!(jobs[0].output_path.is_none() && jobs[0].error.is_none());

    let req = request(&["x.wav", "y.mp4"], "mp3", None, OverwritePolicy::Rename);
    let ids = vec![uuid::Uuid::from_u128(3), uuid::Uuid::from_u128(4)];
    let queued = q.queue_request(&req, &ids, t);
    assert_eq!(queued.len(), 2);
    assert_eq!(queued[1].id, ids[1]);
    assert_eq!(queued[1].input_path, "y.mp4");
    assert_eq!(queued[0].target_format, "mp3");
    assert!(queued.iter().all(|j| j.status == JobStatus::Pending && j.output_path.is_none() && j.started_at.is_none()));
    let all = q.list_jobs();
    assert_eq!(all.len(), 4);
    assert_eq!(all[2].id, ids[0]);
}

#[test]
fn written_versions_and_numbers_read_back() {
    for (a, b, c) in [(0u32, 0u32, 0u32), (26, 2, 0), (7, 6, 4), (4294967295, 10, 99)] {
        let v = LibreOfficeVersion::parse(&format!("LibreOffice {a}.{b}.{c}")).expect("version");
        assert_eq!((v.major, v.minor, v.patch), (a, b, c));
    }
    for n in [0u64, 7, 10, 12345, 18446744073709551615] {
        let digits: Vec<char> = decimal_string(n).chars().collect();
        assert_eq!(parse_unsigned_range(&digits, 0, digits.len(), 18446744073709551615), Some(n));
    }
}

#[test]
fn numbers_print_and_parse() {
    assert_eq!(decimal_string(0), "0");
    assert_eq!(decimal_string(18446744073709551615), "18446744073709551615");
    let digits: Vec<char> = "x+123y".chars().collect();
    assert_eq!(parse_unsigned_range(&digits, 1, 5, 1000), Some(123));
    assert_eq!(parse_unsigned_range(&digits, 2, 5, 100), None);
    assert_eq!(parse_unsigned_range(&digits, 0, 5, 1000), None);
    assert_eq!(parse_unsigned_range(&digits, 1, 1, 1000), None);
}

#[test]
fn windows_context_menu_edits() {
    let changes = install_windows_context_menu("C:/Recast/recast.exe", Platform::Windows).expect("changes");
    assert!(!changes.is_empty());
    assert!(changes.iter().any(|c| matches!(c, RegistryChange::SetValue { value, .. }
        if value == "\"C:/Recast/recast.exe\" --quick-convert jpg \"%1\"")));
    assert!(matches!(
        install_windows_context_menu("x", Platform::Linux),
        Err(ShellIntegrationError::UnsupportedPlatform)
    ));
    let removed = remove_windows_context_menu(Platform::Windows).expect("removal");
    assert_eq!(removed.len(), 1);
    assert!(matches!(&removed[0], RegistryChange::DeleteTree { .. }));
    assert!(remove_windows_context_menu(Platform::MacOs).is_err());
    assert_eq!(menu_command("r.exe", None), "\"r.exe\" --open \"%1\"");
    assert_eq!(
        ShellIntegrationError::Registry("denied".into()).message(),
        "failed to update the Windows context menu: denied"
    );
}

#[test]
fn document_runs_find_their_output() {
    assert_eq!(details("", "out", "fb"), "out");
    assert_eq!(details("err", "out", "fb"), "err");
    assert_eq!(details("", "", "fb"), "fb");
    match run_failure("", "", "1") {
        CoreError::ProcessFailed(m) => assert_eq!(m, "LibreOffice conversion failed: Exit status: 1"),
        other => panic!("{other:?}"),
    }
    let (path, ext) = expected_output("docs/report.docx", "work", "pdf").expect("expected");
    assert_eq!(path, "work/report.pdf");
    assert_eq!(ext, "pdf");
    assert!(matches!(expected_output("docs/report.docx", "work", "zzz"), Err(CoreError::UnsupportedOutput)));
    let entries = vec![
        DirEntryInfo { path: "work/dir.PDF".into(), is_file: false },
        DirEntryInfo { path: "work/other.txt".into(), is_file: true },
        DirEntryInfo { path: "work/Report.PDF".into(), is_file: true },
    ];
    assert_eq!(produced_output("work/report.pdf", true, &entries, "pdf", "", "").unwrap(), "work/report.pdf");
    assert_eq!(produced_output("work/report.pdf", false, &entries, "pdf", "", "").unwrap(), "work/Report.PDF");
    match produced_output("work/report.pdf", false, &entries[..2].to_vec(), "pdf", "", "") {
        Err(CoreError::ProcessFailed(m)) => {
            assert_eq!(m, "LibreOffice completed but no output file was generated: Unknown error")
        }
        other => panic!("{other:?}"),
    }
}

#[test]
fn desktop_launch_and_conversion_steps() {
    let args: Vec<String> = vec!["--quick-convert".into(), "mp3".into(), "a.wav".into(), "b.wav".into()];
    let launch = get_launch_request(&args);
    assert_eq!(launch.target_format.as_deref(), Some("mp3"));
    assert_eq!(launch.paths, vec!["a.wav", "b.wav"]);
    assert!(launch.auto_start);
    let open = get_launch_request(&vec!["--open".into(), "x.png".into()]);
    assert_eq!(open.paths, vec!["x.png"]);
    assert!(!open.auto_start);
    assert!(get_launch_request(&vec!["other".into()]).paths.is_empty());

    let places = bundled_ffmpeg_candidates(Some("res"), None, Platform::Windows);
    assert_eq!(places.len(), 2);
    assert_eq!(places[0].path, "res/resources/engines/ffmpeg.exe");
    assert_eq!(places[1].path, "res/engines/ffmpeg.exe");

    let req = request(&["in/song.flac"], "mp3", Some("out"), OverwritePolicy::Rename);
    let mut obs = InputObservations::new();
    assert!(matches!(desktop_conversion_step(&req, "in/song.flac", &obs), DesktopStep::Need(PlanQuery::Inspect(_))));
    obs.file_size = Some(Ok(10));
    match desktop_conversion_step(&req, "in/song.flac", &obs) {
        DesktopStep::Need(PlanQuery::Exists(p)) => assert_eq!(p, "out/song.mp3"),
        other => panic!("{other:?}"),
    }
    obs.exists.push(false);
    match desktop_conversion_step(&req, "in/song.flac", &obs) {
        DesktopStep::Run { args, output_path } => {
            assert_eq!(output_path, "out/song.mp3");
            assert_eq!(&args[..6], &["-hide_banner", "-loglevel", "error", "-n", "-i", "in/song.flac"]);
            assert_eq!(args.last().unwrap(), "out/song.mp3");
        }
        other => panic!("{other:?}"),
    }
    let wrong = request(&["in/song.flac"], "png", Some("out"), OverwritePolicy::Rename);
    match desktop_conversion_step(&wrong, "in/song.flac", &obs) {
        DesktopStep::Finished(r) => {
            assert!(!r.success);
            assert_eq!(r.error.as_deref(), Some("audio files cannot be converted to png"));
        }
        other => panic!("{other:?}"),
    }
    let done = finish_desktop_conversion("a", "b", false, "  boom \n", "1");
    assert_eq!(done.error.as_deref(), Some("boom"));
    let quiet = finish_desktop_conversion("a", "b", false, "  ", "exit status: 1");
    assert_eq!(quiet.error.as_deref(), Some("FFmpeg exited with status exit status: 1"));
    let good = finish_desktop_conversion("a", "b", true, "", "");
    assert!(good.success);
    assert_eq!(good.output_path.as_deref(), Some("b"));
    let failed = ffmpeg_start_failure("a", "ffmpeg", "not found");
    assert!(!failed.success);
    assert_eq!(failed.error.as_deref(), Some("FFmpeg could not be started at 'ffmpeg': not found"));
}

#[test]
fn command_line_helpers() {
    assert_eq!(engine_directory(Platform::Windows), "binaries/windows");
    assert_eq!(engine_directory(Platform::MacOs), "binaries/macos");
    assert_eq!(engine_directory(Platform::Linux), "binaries/linux");
    let formats = built_in_formats();
    let mp4 = formats.iter().find(|f| f.id == "mp4").unwrap();
    assert_eq!(format_summary(mp4), "MP4 (Video) [h264 + aac]");
    let png = formats.iter().find(|f| f.id == "png").unwrap();
    assert_eq!(format_summary(png), "PNG (Image) [png]");
    let pdf = formats.iter().find(|f| f.id == "pdf").unwrap();
    assert_eq!(format_summary(pdf), "PDF (Document) []");
    let inputs: Vec<String> = vec!["a/first.docx".into(), "b/second.odt".into()];
    assert_eq!(document_input_index(&inputs, "out/second.pdf"), 1);
    assert_eq!(document_input_index(&inputs, "out/none.pdf"), 0);
}

#[test]
fn document_families_are_isolated() {
    let text = ["odt", "docx", "doc", "rtf", "txt", "md", "html", "epub"];
    let sheet = ["ods", "xlsx", "xls", "csv", "tsv"];
    let pres = ["odp", "pptx", "ppt"];
    for family in [&text[..], &sheet[..], &pres[..]] {
        for s in family {
            let r = target_formats_for_document(s);
            assert!(r.contains(&"pdf".to_string()), "{s}");
            assert!(!r.contains(&s.to_string()), "{s}");
            for (i, t) in r.iter().enumerate() {
                assert!(t == "pdf" || family.contains(&t.as_str()), "{s} -> {t}");
                assert!(!r[i + 1..].contains(t), "{s} repeats {t}");
            }
        }
    }
}

#[test]
fn detection_finds_each_extension_and_nothing_else() {
    for f in built_in_formats() {
        for x in &f.extensions {
            assert_eq!(recast::formats::detect_format(x).expect("detected").id, f.id, "{x}");
            assert_eq!(recast::formats::detect_format(&format!(".{}", x.to_uppercase())).expect("detected").id, f.id);
        }
    }
    assert_eq!(
        recast::formats::detect_format(".JPG").map(|f| f.id),
        recast::formats::detect_format("jpg").map(|f| f.id)
    );
    assert!(recast::formats::detect_format("alac").is_none());
    assert!(recast::formats::detect_format("").is_none());
    assert!(recast::formats::detect_format("xyz").is_none());
    assert!(!is_format_conversion_supported("png", "JPEG"));
    assert!(is_format_conversion_supported("png", ".JPG"));
    assert!(!is_format_conversion_supported("mp4", "mp4"));
}

#[test]
fn category_targets_come_in_catalogue_order() {
    assert_eq!(
        target_formats_for_category(&MediaCategory::Image),
        vec!["jpg", "png", "webp", "bmp", "tiff", "gif", "avif"]
    );
    assert_eq!(
        target_formats_for_category(&MediaCategory::Video),
        vec![
            "mp3", "wav", "flac", "aac", "m4a", "ogg", "opus", "aiff", "alac", "ac3", "mp4", "mkv", "webm", "mov", "avi",
            "m4v", "mpeg", "ogv", "ts"
        ]
    );
    assert_eq!(target_formats_for_category(&MediaCategory::Document).len(), 17);
}

#[test]
fn formats_name_what_their_category_needs() {
    let codecs = built_in_codecs();
    let kind_of = |id: &String| codecs.iter().find(|c| &c.id == id).map(|c| c.kind);
    for f in built_in_formats() {
        let (v, a, c) = (&f.default_video_codec, &f.default_audio_codec, &f.ffmpeg_format);
        match f.category {
            MediaCategory::Image => assert!(v.is_some() && a.is_none() && c.is_none(), "{}", f.id),
            MediaCategory::Audio => assert!(v.is_none() && a.is_some() && c.is_some(), "{}", f.id),
            MediaCategory::Video => assert!(v.is_some() && a.is_some() && c.is_some(), "{}", f.id),
            MediaCategory::Document => assert!(v.is_none() && a.is_none() && c.is_none(), "{}", f.id),
        }
        if let Some(v) = v {
            assert_eq!(kind_of(v), Some(CodecKind::Video), "{}", f.id);
        }
        if let Some(a) = a {
            assert_eq!(kind_of(a), Some(CodecKind::Audio), "{}", f.id);
        }
    }
}
