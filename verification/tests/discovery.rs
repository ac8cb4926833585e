use recast::engines::{
    ffmpeg_candidates, ffmpeg_executable, first_present, EngineDiscoveryError, EngineSet, Platform, ProbeKind,
};

#[test]
fn discovery_requires_only_ffmpeg() {
    let root = "recast-engine-test";
    let executable = ffmpeg_executable(Platform::Linux);
    assert_eq!(executable, "ffmpeg");
    let candidates = ffmpeg_candidates(root, Platform::Linux, &vec![]);
    assert_eq!(candidates.len(), 1);
    assert_eq!(candidates[0].path, "recast-engine-test/ffmpeg");
    assert_eq!(candidates[0].kind, ProbeKind::Exists);
    // The fixture exists; LibreOffice is absent.
    let found = first_present(&candidates, &vec![true]);
    let engines = EngineSet::discover(found, None).expect("FFmpeg-only engine set");
    assert_eq!(engines.ffmpeg.name, "ffmpeg");
    assert_eq!(engines.ffmpeg.path, "recast-engine-test/ffmpeg");
    assert!(engines.libreoffice.is_none());
}

#[test]
fn discovery_without_ffmpeg_reports_the_missing_binary() {
    let candidates = ffmpeg_candidates("engines", Platform::Windows, &vec!["C:/tools".to_string()]);
    assert_eq!(candidates.len(), 2);
    assert_eq!(candidates[0].path, "engines/ffmpeg.exe");
    assert_eq!(candidates[1].path, "C:/tools/ffmpeg.exe");
    assert_eq!(candidates[1].kind, ProbeKind::IsFile);
    let found = first_present(&candidates, &vec![false, false]);
    assert!(found.is_none());
    match EngineSet::discover(found, Some("soffice".to_string())) {
        Err(EngineDiscoveryError::MissingBinary(name)) => assert_eq!(name, "ffmpeg"),
        other => panic!("expected a missing binary, got {other:?}"),
    }
    let second = first_present(&candidates, &vec![false, true]);
    assert_eq!(second.as_deref(), Some("C:/tools/ffmpeg.exe"));
}

#[test]
fn discovery_keeps_libreoffice_when_found() {
    let engines = EngineSet::discover(Some("bin/ffmpeg".to_string()), Some("lo/soffice".to_string())).expect("engines");
    let lo = engines.libreoffice.expect("libreoffice");
    assert_eq!(lo.name, "libreoffice");
    assert_eq!(lo.path, "lo/soffice");
    assert_eq!(lo.version_args, vec!["--version".to_string()]);
    assert_eq!(engines.ffmpeg.version_args, vec!["-version".to_string()]);
    let message = EngineDiscoveryError::MissingBinary("ffmpeg".to_string()).message();
    assert_eq!(message, "required engine binary missing: ffmpeg");
}
