//! Running a document conversion: the decisions around one LibreOffice run
//! in an isolated working directory.
use vstd::prelude::*;
use crate::errors::{CoreError, CoreErrorView};
use crate::execution::{output_name_for, spec_output_name};
use crate::formats::{format_by_id, spec_format_by_id};
use crate::paths::{path_extension, path_join, spec_path_extension, spec_path_join};
use crate::text::{chars_of, chars_eq, lower, lowercase, owned, push_str, string_of, trim, trim_exec};

verus! {

/// What LibreOffice printed that best explains a result: its standard error
/// trimmed when that is not empty, else its standard output trimmed when
/// that is not empty, else `fallback`.
pub open spec fn spec_details(stderr: Seq<char>, stdout: Seq<char>, fallback: Seq<char>) -> Seq<char> {
    if trim(stderr).len() > 0 {
        trim(stderr)
    } else if trim(stdout).len() > 0 {
        trim(stdout)
    } else {
        fallback
    }
}

/// The details text, as [`spec_details`] states.
pub fn details(stderr: &str, stdout: &str, fallback: &str) -> (res: String)
    ensures
        res@ == spec_details(stderr@, stdout@, fallback@),
{
    let err = trim_exec(&chars_of(stderr));
    if err.len() > 0 {
        return string_of(&err);
    }
    let out = trim_exec(&chars_of(stdout));
    if out.len() > 0 {
        string_of(&out)
    } else {
        owned(fallback)
    }
}

/// The error for a LibreOffice run that exited unsuccessfully; `status` is
/// the exit status as the caller describes it.
pub open spec fn spec_run_failure(stderr: Seq<char>, stdout: Seq<char>, status: Seq<char>) -> CoreErrorView {
    CoreErrorView::ProcessFailed("LibreOffice conversion failed: "@ + spec_details(stderr, stdout, "Exit status: "@ + status))
}

/// The error for a LibreOffice run that exited unsuccessfully, as
/// [`spec_run_failure`] states.
pub fn run_failure(stderr: &str, stdout: &str, status: &str) -> (res: CoreError)
    ensures
        res@ == spec_run_failure(stderr@, stdout@, status@),
{
    let mut fallback = owned("Exit status: ");
    push_str(&mut fallback, status);
    let d = details(stderr, stdout, fallback.as_str());
    let mut m = owned("LibreOffice conversion failed: ");
    push_str(&mut m, d.as_str());
    CoreError::ProcessFailed(m)
}

/// Where LibreOffice is expected to write: the input's stem with the target's
/// default extension, in the working directory; and that extension.
/// `UnsupportedOutput` when the target is not a catalogue format.
pub open spec fn spec_expected_output(input: Seq<char>, work_dir: Seq<char>, target: Seq<char>) -> Result<(Seq<char>, Seq<char>), CoreErrorView> {
    match spec_format_by_id(target) {
        None => Err(CoreErrorView::UnsupportedOutput),
        Some(f) => Ok((spec_path_join(work_dir, spec_output_name(input, f.default_extension)), f.default_extension)),
    }
}

/// Where LibreOffice is expected to write, as [`spec_expected_output`]
/// states.
pub fn expected_output(input: &str, work_dir: &str, target_format: &str) -> (res: Result<(String, String), CoreError>)
    ensures
        match res {
            Ok((p, e)) => spec_expected_output(input@, work_dir@, target_format@) == Ok::<(Seq<char>, Seq<char>), CoreErrorView>((p@, e@)),
            Err(e) => spec_expected_output(input@, work_dir@, target_format@) == Err::<(Seq<char>, Seq<char>), CoreErrorView>(e@),
        },
{
    let target = match format_by_id(target_format) {
        Some(t) => t,
        None => return Err(CoreError::UnsupportedOutput),
    };
    let name = output_name_for(input, target.default_extension.as_str());
    let path = path_join(work_dir, name.as_str());
    Ok((path, target.default_extension))
}

/// An entry of the working directory.
#[derive(Debug, Clone)]
pub struct DirEntryInfo {
    pub path: String,
    pub is_file: bool,
}

/// Whether an entry is a file whose extension is `ext` up to ASCII case.
pub open spec fn entry_matches(e: DirEntryInfo, ext: Seq<char>) -> bool {
    e.is_file && (spec_path_extension(e.path@) matches Some(x) && lower(x) == lower(ext))
}

/// The first entry that matches.
pub open spec fn first_matching_entry(entries: Seq<DirEntryInfo>, ext: Seq<char>) -> Option<Seq<char>>
    decreases entries.len(),
{
    if entries.len() == 0 {
        None
    } else if entry_matches(entries[0], ext) {
        Some(entries[0].path@)
    } else {
        first_matching_entry(entries.drop_first(), ext)
    }
}

/// Which file LibreOffice produced: the expected file when it is a file,
/// else the first working-directory entry (in listing order) that is a file
/// with the expected extension up to ASCII case; else the error that no
/// output was generated, with LibreOffice's output as details.
pub open spec fn spec_produced_output(
    expected: Seq<char>,
    expected_is_file: bool,
    entries: Seq<DirEntryInfo>,
    extension: Seq<char>,
    stderr: Seq<char>,
    stdout: Seq<char>,
) -> Result<Seq<char>, CoreErrorView> {
    if expected_is_file {
        Ok(expected)
    } else {
        match first_matching_entry(entries, extension) {
            Some(p) => Ok(p),
            None => Err(CoreErrorView::ProcessFailed(
                "LibreOffice completed but no output file was generated: "@ + spec_details(stderr, stdout, "Unknown error"@),
            )),
        }
    }
}

proof fn lemma_first_matching_skip(entries: Seq<DirEntryInfo>, ext: Seq<char>, i: int)
    requires
        0 <= i <= entries.len(),
        forall|j: int| 0 <= j < i ==> !entry_matches(#[trigger] entries[j], ext),
    ensures
        first_matching_entry(entries, ext) == first_matching_entry(entries.skip(i), ext),
    decreases i,
{
    if i > 0 {
        assert(!entry_matches(entries[0], ext));
        lemma_first_matching_skip(entries.drop_first(), ext, i - 1);
        assert(entries.drop_first().skip(i - 1) =~= entries.skip(i));
    } else {
        assert(entries.skip(0) =~= entries);
    }
}

/// Which file LibreOffice produced, as [`spec_produced_output`] states.
pub fn produced_output(
    expected: &str,
    expected_is_file: bool,
    entries: &Vec<DirEntryInfo>,
    extension: &str,
    stderr: &str,
    stdout: &str,
) -> (res: Result<String, CoreError>)
    ensures
        match res {
            Ok(p) => spec_produced_output(expected@, expected_is_file, entries@, extension@, stderr@, stdout@) == Ok::<Seq<char>, CoreErrorView>(p@),
            Err(e) => spec_produced_output(expected@, expected_is_file, entries@, extension@, stderr@, stdout@) == Err::<Seq<char>, CoreErrorView>(e@),
        },
{
    if expected_is_file {
        return Ok(owned(expected));
    }
    let want = lowercase(&chars_of(extension));
    let mut i: usize = 0;
    while i < entries.len()
        invariant
            i <= entries@.len(),
            !expected_is_file,
            want@ == lower(extension@),
            forall|j: int| 0 <= j < i ==> !entry_matches(#[trigger] entries@[j], extension@),
        decreases entries@.len() - i,
    {
        let e = &entries[i];
        let mut hit = false;
        if e.is_file {
            match path_extension(e.path.as_str()) {
                Some(x) => {
                    let got = lowercase(&chars_of(x.as_str()));
                    hit = chars_eq(&got, &want);
                },
                None => {},
            }
        }
        assert(hit == entry_matches(entries@[i as int], extension@));
        if hit {
            proof {
                lemma_first_matching_skip(entries@, extension@, i as int);
                assert(entries@.skip(i as int)[0] == entries@[i as int]);
                assert(entry_matches(entries@.skip(i as int)[0], extension@));
                assert(first_matching_entry(entries@.skip(i as int), extension@) == Some(entries@[i as int].path@));
            }
            let found = e.path.clone();
            assert(found@ == entries@[i as int].path@);
            return Ok(found);
        }
        i = i + 1;
    }
    proof {
        lemma_first_matching_skip(entries@, extension@, i as int);
    }
    let d = details(stderr, stdout, "Unknown error");
    let mut m = owned("LibreOffice completed but no output file was generated: ");
    push_str(&mut m, d.as_str());
    Err(CoreError::ProcessFailed(m))
}

} // verus!
