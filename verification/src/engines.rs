//! Conversion engines: the FFmpeg and LibreOffice executables and where
//! they are looked for.
use vstd::prelude::*;
use crate::paths::{path_join, path_parent, spec_path_join, spec_path_parent};
use crate::text::{opt_view, owned, owned_strings, push_str, strings_view, strs_view};

verus! {

/// An engine executable with the arguments that print its version.
#[derive(Debug, Clone)]
pub struct EngineBinary {
    pub name: String,
    pub path: String,
    pub version_args: Vec<String>,
}

/// The value of an [`EngineBinary`].
pub struct EngineBinaryView {
    pub name: Seq<char>,
    pub path: Seq<char>,
    pub version_args: Seq<Seq<char>>,
}

impl View for EngineBinary {
    type V = EngineBinaryView;

    open spec fn view(&self) -> EngineBinaryView {
        EngineBinaryView { name: self.name@, path: self.path@, version_args: strings_view(self.version_args@) }
    }
}

/// The engines available for planning: FFmpeg always, LibreOffice when it
/// was found.
#[derive(Debug, Clone)]
pub struct EngineSet {
    pub ffmpeg: EngineBinary,
    pub libreoffice: Option<EngineBinary>,
}

/// The value of an [`EngineSet`].
pub struct EngineSetView {
    pub ffmpeg: EngineBinaryView,
    pub libreoffice: Option<EngineBinaryView>,
}

impl View for EngineSet {
    type V = EngineSetView;

    open spec fn view(&self) -> EngineSetView {
        EngineSetView {
            ffmpeg: self.ffmpeg@,
            libreoffice: match self.libreoffice {
                Some(b) => Some(b@),
                None => None,
            },
        }
    }
}

/// Why the engines could not be assembled.
#[derive(Debug, Clone)]
pub enum EngineDiscoveryError {
    MissingBinary(String),
    UnsupportedVersion(String),
}

/// The message of a discovery error, as its `Display` text reads.
pub open spec fn spec_discovery_message(e: EngineDiscoveryError) -> Seq<char> {
    match e {
        EngineDiscoveryError::MissingBinary(m) => "required engine binary missing: "@ + m@,
        EngineDiscoveryError::UnsupportedVersion(m) => "unsupported engine version: "@ + m@,
    }
}

impl EngineDiscoveryError {
    /// The message of the error, as [`spec_discovery_message`] states.
    pub fn message(&self) -> (res: String)
        ensures
            res@ == spec_discovery_message(*self),
    {
        match self {
            EngineDiscoveryError::MissingBinary(m) => {
                let mut s = owned("required engine binary missing: ");
                push_str(&mut s, m.as_str());
                s
            },
            EngineDiscoveryError::UnsupportedVersion(m) => {
                let mut s = owned("unsupported engine version: ");
                push_str(&mut s, m.as_str());
                s
            },
        }
    }
}

/// The operating system family that the engines are looked for on.
#[derive(Debug, Clone, Copy, PartialEq, Eq, Structural)]
pub enum Platform {
    Windows,
    MacOs,
    Linux,
    Other,
}

/// How a candidate path is checked: that something exists there, or that it
/// is a regular file.
#[derive(Debug, Clone, Copy, PartialEq, Eq, Structural)]
pub enum ProbeKind {
    Exists,
    IsFile,
}

/// A place where an executable may be, and how to check it.
#[derive(Debug, Clone)]
pub struct PathProbe {
    pub path: String,
    pub kind: ProbeKind,
}

/// The values of a sequence of probes.
pub open spec fn probes_view(v: Seq<PathProbe>) -> Seq<(Seq<char>, ProbeKind)> {
    Seq::new(v.len(), |i: int| (v[i].path@, v[i].kind))
}

/// The FFmpeg executable's file name on a platform.
pub open spec fn spec_ffmpeg_executable(platform: Platform) -> Seq<char> {
    if platform == Platform::Windows {
        "ffmpeg.exe"@
    } else {
        "ffmpeg"@
    }
}

/// The FFmpeg executable's file name on a platform.
pub fn ffmpeg_executable(platform: Platform) -> (res: &'static str)
    ensures
        res@ == spec_ffmpeg_executable(platform),
{
    if platform == Platform::Windows {
        "ffmpeg.exe"
    } else {
        "ffmpeg"
    }
}

/// Each directory of `dirs` joined with `name`, checked as a file.
pub open spec fn dir_probes(dirs: Seq<Seq<char>>, name: Seq<char>) -> Seq<(Seq<char>, ProbeKind)> {
    Seq::new(dirs.len(), |i: int| (spec_path_join(dirs[i], name), ProbeKind::IsFile))
}

/// Where FFmpeg is looked for, in order: the executable in the bundled
/// engine directory (anything existing there counts), then in each
/// directory of the search path (a file is needed).
pub open spec fn spec_ffmpeg_candidates(base_dir: Seq<char>, platform: Platform, search_path: Seq<Seq<char>>) -> Seq<(Seq<char>, ProbeKind)> {
    seq![(spec_path_join(base_dir, spec_ffmpeg_executable(platform)), ProbeKind::Exists)]
        + dir_probes(search_path, spec_ffmpeg_executable(platform))
}

/// Appends one probe.
fn push_probe(v: &mut Vec<PathProbe>, path: String, kind: ProbeKind)
    ensures
        probes_view(final(v)@) == probes_view(old(v)@).push((path@, kind)),
{
    v.push(PathProbe { path, kind });
    assert(probes_view(v@) =~= probes_view(old(v)@).push((path@, kind)));
}

/// Appends each directory joined with `name`, checked as a file.
fn push_dir_probes(v: &mut Vec<PathProbe>, dirs: &Vec<String>, name: &str)
    ensures
        probes_view(final(v)@) == probes_view(old(v)@) + dir_probes(strings_view(dirs@), name@),
{
    let ghost start = probes_view(v@);
    let ghost d = strings_view(dirs@);
    let mut i: usize = 0;
    while i < dirs.len()
        invariant
            d == strings_view(dirs@),
            i <= dirs@.len(),
            probes_view(v@) == start + dir_probes(d, name@).take(i as int),
        decreases dirs@.len() - i,
    {
        assert(d[i as int] == dirs@[i as int]@);
        push_probe(v, path_join(dirs[i].as_str(), name), ProbeKind::IsFile);
        assert(dir_probes(d, name@).take(i + 1) =~= dir_probes(d, name@).take(i as int).push((spec_path_join(d[i as int], name@), ProbeKind::IsFile)));
        assert(probes_view(v@) =~= start + dir_probes(d, name@).take(i + 1));
        i = i + 1;
    }
    assert(dir_probes(d, name@).take(dirs@.len() as int) =~= dir_probes(d, name@));
}

/// Where FFmpeg is looked for, as [`spec_ffmpeg_candidates`] states.
pub fn ffmpeg_candidates(base_dir: &str, platform: Platform, search_path: &Vec<String>) -> (res: Vec<PathProbe>)
    ensures
        probes_view(res@) == spec_ffmpeg_candidates(base_dir@, platform, strings_view(search_path@)),
{
    let exe = ffmpeg_executable(platform);
    let mut v: Vec<PathProbe> = Vec::new();
    push_probe(&mut v, path_join(base_dir, exe), ProbeKind::Exists);
    push_dir_probes(&mut v, search_path, exe);
    assert(probes_view(v@) =~= spec_ffmpeg_candidates(base_dir@, platform, strings_view(search_path@)));
    v
}

/// The environment that LibreOffice discovery reads: the `LIBREOFFICE_PATH`
/// override, the Windows program and application-data directories, the home
/// directory, and the directories of the search path.
#[derive(Debug, Clone)]
pub struct LibreOfficeSearch {
    pub override_path: Option<String>,
    pub program_files: Option<String>,
    pub program_files_x86: Option<String>,
    pub local_app_data: Option<String>,
    pub home: Option<String>,
    pub search_path: Vec<String>,
}

/// The LibreOffice executable's file name on a platform.
pub open spec fn spec_soffice_executable(platform: Platform) -> Seq<char> {
    if platform == Platform::Windows {
        "soffice.exe"@
    } else {
        "soffice"@
    }
}

/// `Some` path joined with `part`, as a file probe; nothing for `None`.
pub open spec fn opt_probe(dir: Option<Seq<char>>, part: Seq<char>) -> Seq<(Seq<char>, ProbeKind)> {
    match dir {
        Some(d) => seq![(spec_path_join(d, part), ProbeKind::IsFile)],
        None => Seq::empty(),
    }
}

/// A directory's executable and its `program` subdirectory's executable.
pub open spec fn install_probes(dir: Seq<char>, exe: Seq<char>) -> Seq<(Seq<char>, ProbeKind)> {
    seq![
        (spec_path_join(dir, exe), ProbeKind::IsFile),
        (spec_path_join(spec_path_join(dir, "program"@), exe), ProbeKind::IsFile),
    ]
}

/// The platform's usual installation places.
pub open spec fn platform_probes(env: LibreOfficeSearch, platform: Platform) -> Seq<(Seq<char>, ProbeKind)> {
    match platform {
        Platform::Windows => seq![
            ("C:\\Program Files\\LibreOffice\\program\\soffice.exe"@, ProbeKind::IsFile),
            ("C:\\Program Files (x86)\\LibreOffice\\program\\soffice.exe"@, ProbeKind::IsFile),
        ] + opt_probe(opt_view(env.program_files), "LibreOffice\\program\\soffice.exe"@)
            + opt_probe(opt_view(env.program_files_x86), "LibreOffice\\program\\soffice.exe"@)
            + opt_probe(opt_view(env.local_app_data), "Programs\\LibreOffice\\program\\soffice.exe"@),
        Platform::MacOs => seq![("/Applications/LibreOffice.app/Contents/MacOS/soffice"@, ProbeKind::IsFile)]
            + opt_probe(opt_view(env.home), "Applications/LibreOffice.app/Contents/MacOS/soffice"@),
        Platform::Linux => seq![
            ("/usr/bin/soffice"@, ProbeKind::IsFile),
            ("/usr/local/bin/soffice"@, ProbeKind::IsFile),
            ("/usr/bin/libreoffice"@, ProbeKind::IsFile),
            ("/usr/local/bin/libreoffice"@, ProbeKind::IsFile),
        ],
        Platform::Other => Seq::empty(),
    }
}

/// The search-path directories joined with each executable name.
pub open spec fn search_probes(dirs: Seq<Seq<char>>, names: Seq<Seq<char>>) -> Seq<(Seq<char>, ProbeKind)>
    decreases dirs.len(),
{
    if dirs.len() == 0 {
        Seq::empty()
    } else {
        search_probes(dirs.drop_last(), names) + dir_probes_by_name(dirs.last(), names)
    }
}

/// One directory joined with each of `names`.
pub open spec fn dir_probes_by_name(dir: Seq<char>, names: Seq<Seq<char>>) -> Seq<(Seq<char>, ProbeKind)> {
    Seq::new(names.len(), |i: int| (spec_path_join(dir, names[i]), ProbeKind::IsFile))
}

/// The executable names looked for on the search path.
pub open spec fn search_names(platform: Platform) -> Seq<Seq<char>> {
    if platform == Platform::Windows {
        strs_view(seq!["soffice.exe", "soffice.com"])
    } else {
        strs_view(seq!["soffice", "libreoffice"])
    }
}

/// Where LibreOffice is looked for, in order, each checked as a file: the
/// `LIBREOFFICE_PATH` override itself, its executable and its `program`
/// executable; the bundled engine directory's executable and `program`
/// executable; the platform's usual installation places; then each
/// search-path directory with each executable name.
pub open spec fn spec_libreoffice_candidates(env: LibreOfficeSearch, base_dir: Option<Seq<char>>, platform: Platform) -> Seq<(Seq<char>, ProbeKind)> {
    let exe = spec_soffice_executable(platform);
    (match opt_view(env.override_path) {
        Some(p) => seq![(p, ProbeKind::IsFile)] + install_probes(p, exe),
        None => Seq::empty(),
    }) + (match base_dir {
        Some(b) => install_probes(b, exe),
        None => Seq::empty(),
    }) + platform_probes(env, platform) + search_probes(strings_view(env.search_path@), search_names(platform))
}

/// Appends a directory's executable and its `program` executable.
fn push_install_probes(v: &mut Vec<PathProbe>, dir: &str, exe: &str)
    ensures
        probes_view(final(v)@) == probes_view(old(v)@) + install_probes(dir@, exe@),
{
    push_probe(v, path_join(dir, exe), ProbeKind::IsFile);
    let program = path_join(dir, "program");
    push_probe(v, path_join(program.as_str(), exe), ProbeKind::IsFile);
    assert(probes_view(v@) =~= probes_view(old(v)@) + install_probes(dir@, exe@));
}

/// Appends `dir` joined with `part` when `dir` is present.
fn push_opt_probe(v: &mut Vec<PathProbe>, dir: &Option<String>, part: &str)
    ensures
        probes_view(final(v)@) == probes_view(old(v)@) + opt_probe(opt_view(*dir), part@),
{
    match dir {
        Some(d) => {
            push_probe(v, path_join(d.as_str(), part), ProbeKind::IsFile);
        },
        None => {},
    }
    assert(probes_view(v@) =~= probes_view(old(v)@) + opt_probe(opt_view(*dir), part@));
}

/// Appends fixed file probes.
fn push_fixed_probes(v: &mut Vec<PathProbe>, paths: &[&str])
    ensures
        probes_view(final(v)@) == probes_view(old(v)@) + Seq::new(paths@.len(), |i: int| (paths@[i]@, ProbeKind::IsFile)),
{
    let ghost start = probes_view(v@);
    let ghost fixed = Seq::new(paths@.len(), |i: int| (paths@[i]@, ProbeKind::IsFile));
    let mut i: usize = 0;
    while i < paths.len()
        invariant
            fixed == Seq::new(paths@.len(), |i: int| (paths@[i]@, ProbeKind::IsFile)),
            i <= paths@.len(),
            probes_view(v@) == start + fixed.take(i as int),
        decreases paths@.len() - i,
    {
        push_probe(v, owned(paths[i]), ProbeKind::IsFile);
        assert(probes_view(v@) =~= start + fixed.take(i + 1));
        i = i + 1;
    }
    assert(fixed.take(paths@.len() as int) =~= fixed);
}

/// Where LibreOffice is looked for, as [`spec_libreoffice_candidates`]
/// states.
pub fn libreoffice_candidates(env: &LibreOfficeSearch, base_dir: Option<&str>, platform: Platform) -> (res: Vec<PathProbe>)
    ensures
        probes_view(res@) == spec_libreoffice_candidates(*env, match base_dir {
            Some(b) => Some(b@),
            None => None,
        }, platform),
{
    let exe = if platform == Platform::Windows { "soffice.exe" } else { "soffice" };
    let mut v: Vec<PathProbe> = Vec::new();
    assert(probes_view(v@) =~= Seq::empty());
    match &env.override_path {
        Some(p) => {
            push_probe(&mut v, p.clone(), ProbeKind::IsFile);
            push_install_probes(&mut v, p.as_str(), exe);
        },
        None => {},
    }
    let ghost after_override = probes_view(v@);
    match base_dir {
        Some(b) => {
            push_install_probes(&mut v, b, exe);
        },
        None => {},
    }
    let ghost after_base = probes_view(v@);
    match platform {
        Platform::Windows => {
            push_fixed_probes(&mut v, &["C:\\Program Files\\LibreOffice\\program\\soffice.exe", "C:\\Program Files (x86)\\LibreOffice\\program\\soffice.exe"]);
            push_opt_probe(&mut v, &env.program_files, "LibreOffice\\program\\soffice.exe");
            push_opt_probe(&mut v, &env.program_files_x86, "LibreOffice\\program\\soffice.exe");
            push_opt_probe(&mut v, &env.local_app_data, "Programs\\LibreOffice\\program\\soffice.exe");
        },
        Platform::MacOs => {
            push_fixed_probes(&mut v, &["/Applications/LibreOffice.app/Contents/MacOS/soffice"]);
            push_opt_probe(&mut v, &env.home, "Applications/LibreOffice.app/Contents/MacOS/soffice");
        },
        Platform::Linux => {
            push_fixed_probes(&mut v, &["/usr/bin/soffice", "/usr/local/bin/soffice", "/usr/bin/libreoffice", "/usr/local/bin/libreoffice"]);
        },
        Platform::Other => {},
    }
    assert(probes_view(v@) =~= after_base + platform_probes(*env, platform));
    let ghost after_platform = probes_view(v@);
    let names = if platform == Platform::Windows {
        owned_strings(&["soffice.exe", "soffice.com"])
    } else {
        owned_strings(&["soffice", "libreoffice"])
    };
    assert(strings_view(names@) == search_names(platform));
    let ghost dirs = strings_view(env.search_path@);
    let mut i: usize = 0;
    while i < env.search_path.len()
        invariant
            dirs == strings_view(env.search_path@),
            strings_view(names@) == search_names(platform),
            i <= dirs.len(),
            probes_view(v@) == after_platform + search_probes(dirs.take(i as int), search_names(platform)),
        decreases dirs.len() - i,
    {
        let ghost before = probes_view(v@);
        let mut k: usize = 0;
        while k < names.len()
            invariant
                k <= names@.len(),
                strings_view(names@) == search_names(platform),
                i < dirs.len(),
                dirs == strings_view(env.search_path@),
                probes_view(v@) == before + dir_probes_by_name(dirs[i as int], search_names(platform)).take(k as int),
            decreases names@.len() - k,
        {
            assert(env.search_path@[i as int]@ == dirs[i as int]);
            push_probe(&mut v, path_join(env.search_path[i].as_str(), names[k].as_str()), ProbeKind::IsFile);
            assert(dir_probes_by_name(dirs[i as int], search_names(platform)).take(k + 1) =~= dir_probes_by_name(dirs[i as int], search_names(platform)).take(k as int).push((spec_path_join(dirs[i as int], names@[k as int]@), ProbeKind::IsFile)));
            assert(probes_view(v@) =~= before + dir_probes_by_name(dirs[i as int], search_names(platform)).take(k + 1));
            k = k + 1;
        }
        assert(dir_probes_by_name(dirs[i as int], search_names(platform)).take(names@.len() as int) =~= dir_probes_by_name(dirs[i as int], search_names(platform)));
        assert(dirs.take(i + 1).drop_last() =~= dirs.take(i as int));
        assert(probes_view(v@) =~= after_platform + search_probes(dirs.take(i + 1), search_names(platform)));
        i = i + 1;
    }
    assert(dirs.take(dirs.len() as int) =~= dirs);
    v
}

/// The first candidate that the probes found present.
pub open spec fn spec_first_present(candidates: Seq<(Seq<char>, ProbeKind)>, present: Seq<bool>) -> Option<Seq<char>>
    decreases candidates.len(),
{
    if candidates.len() == 0 || present.len() == 0 {
        None
    } else if present[0] {
        Some(candidates[0].0)
    } else {
        spec_first_present(candidates.drop_first(), present.drop_first())
    }
}

proof fn lemma_first_present_skip(c: Seq<(Seq<char>, ProbeKind)>, p: Seq<bool>, i: int)
    requires
        0 <= i <= c.len(),
        i <= p.len(),
        forall|j: int| 0 <= j < i ==> !p[j],
    ensures
        spec_first_present(c, p) == spec_first_present(c.skip(i), p.skip(i)),
    decreases i,
{
    if i > 0 {
        lemma_first_present_skip(c.drop_first(), p.drop_first(), i - 1);
        assert(c.drop_first().skip(i - 1) =~= c.skip(i));
        assert(p.drop_first().skip(i - 1) =~= p.skip(i));
    } else {
        assert(c.skip(0) =~= c);
        assert(p.skip(0) =~= p);
    }
}

/// The first candidate whose probe succeeded (`present[i]` answers the
/// `i`-th probe); `None` when none did or the answers run out first.
pub fn first_present(candidates: &Vec<PathProbe>, present: &Vec<bool>) -> (res: Option<String>)
    ensures
        opt_view(res) == spec_first_present(probes_view(candidates@), present@),
{
    let ghost c = probes_view(candidates@);
    let mut i: usize = 0;
    while i < candidates.len() && i < present.len()
        invariant
            c == probes_view(candidates@),
            i <= candidates@.len(),
            i <= present@.len(),
            forall|j: int| 0 <= j < i ==> !present@[j],
        decreases candidates@.len() - i,
    {
        if present[i] {
            proof {
                lemma_first_present_skip(c, present@, i as int);
            }
            return Some(candidates[i].path.clone());
        }
        i = i + 1;
    }
    proof {
        lemma_first_present_skip(c, present@, i as int);
    }
    None
}

/// Where a LibreOffice installation keeps its `bootstrap.ini`: beside the
/// executable.
pub open spec fn spec_bootstrap_ini_path(executable: Seq<char>) -> Option<Seq<char>> {
    match spec_path_parent(executable) {
        Some(p) => Some(spec_path_join(p, "bootstrap.ini"@)),
        None => None,
    }
}

/// Where the `bootstrap.ini` of a LibreOffice executable is, as
/// [`spec_bootstrap_ini_path`] states.
pub fn bootstrap_ini_path(executable: &str) -> (res: Option<String>)
    ensures
        opt_view(res) == spec_bootstrap_ini_path(executable@),
{
    match path_parent(executable) {
        Some(p) => Some(path_join(p.as_str(), "bootstrap.ini")),
        None => None,
    }
}

/// The console launcher that answers `--version` on Windows: `soffice.com`
/// beside the executable; on other platforms the executable itself answers.
pub open spec fn spec_version_launcher(executable: Seq<char>, platform: Platform) -> Option<Seq<char>> {
    if platform == Platform::Windows {
        match spec_path_parent(executable) {
            Some(p) => Some(spec_path_join(p, "soffice.com"@)),
            None => None,
        }
    } else {
        None
    }
}

/// The console launcher to try first for `--version`, as
/// [`spec_version_launcher`] states; when it is not a file, the executable
/// is run.
pub fn version_launcher(executable: &str, platform: Platform) -> (res: Option<String>)
    ensures
        opt_view(res) == spec_version_launcher(executable@, platform),
{
    if platform == Platform::Windows {
        match path_parent(executable) {
            Some(p) => Some(path_join(p.as_str(), "soffice.com")),
            None => None,
        }
    } else {
        None
    }
}

impl EngineSet {
    /// Assembles the engines from what discovery found: FFmpeg is required
    /// (`MissingBinary("ffmpeg")` without it), LibreOffice is optional. Each
    /// engine carries its name and the arguments that print its version.
    pub fn discover(ffmpeg: Option<String>, libreoffice: Option<String>) -> (res: Result<EngineSet, EngineDiscoveryError>)
        ensures
            match ffmpeg {
                None => res matches Err(EngineDiscoveryError::MissingBinary(m)) && m@ == "ffmpeg"@,
                Some(f) => res matches Ok(set) && set@ == (EngineSetView {
                    ffmpeg: EngineBinaryView { name: "ffmpeg"@, path: f@, version_args: seq!["-version"@] },
                    libreoffice: match libreoffice {
                        Some(l) => Some(EngineBinaryView { name: "libreoffice"@, path: l@, version_args: seq!["--version"@] }),
                        None => None,
                    },
                }),
            },
    {
        match ffmpeg {
            None => Err(EngineDiscoveryError::MissingBinary(owned("ffmpeg"))),
            Some(path) => {
                let lo = match libreoffice {
                    Some(l) => {
                        let args = owned_strings(&["--version"]);
                        assert(strings_view(args@) =~= seq!["--version"@]);
                        Some(EngineBinary { name: owned("libreoffice"), path: l, version_args: args })
                    },
                    None => None,
                };
                let args = owned_strings(&["-version"]);
                assert(strings_view(args@) =~= seq!["-version"@]);
                Ok(EngineSet { ffmpeg: EngineBinary { name: owned("ffmpeg"), path, version_args: args }, libreoffice: lo })
            },
        }
    }
}

} // verus!
