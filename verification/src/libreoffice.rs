//! The LibreOffice engine: version parsing, export filters and the headless
//! command line.
use vstd::prelude::*;
use crate::numbers::{parse_unsigned, parse_unsigned_range};
use crate::text::{
    chars_eq, chars_eq_str, chars_of, chars_range, clean_name, clean_name_exec, has_prefix,
    has_prefix_exec, owned, push_char, push_str, string_of, string_of_range, strip_leading,
    strip_leading_exec, strings_view, trim, trim_exec,
};

verus! {

/// A LibreOffice release number, with the text it was read from.
#[derive(Debug, Clone, PartialEq, Eq)]
pub struct LibreOfficeVersion {
    pub major: u32,
    pub minor: u32,
    pub patch: u32,
    pub raw: String,
}

/// The value of a [`LibreOfficeVersion`].
pub struct VersionView {
    pub major: u32,
    pub minor: u32,
    pub patch: u32,
    pub raw: Seq<char>,
}

impl View for LibreOfficeVersion {
    type V = VersionView;

    open spec fn view(&self) -> VersionView {
        VersionView { major: self.major, minor: self.minor, patch: self.patch, raw: self.raw@ }
    }
}

/// The value of an optional version.
pub open spec fn opt_version_view(o: Option<LibreOfficeVersion>) -> Option<VersionView> {
    match o {
        Some(v) => Some(v@),
        None => None,
    }
}

/// Whether `p` occurs in `s` at position `i`.
pub open spec fn occurs_at(s: Seq<char>, p: Seq<char>, i: int) -> bool {
    0 <= i && i + p.len() <= s.len() && s.subrange(i, i + p.len()) == p
}

/// The first position at or after `i` where `p` occurs in `s`.
pub open spec fn find_from(s: Seq<char>, p: Seq<char>, i: int) -> Option<int>
    decreases s.len() - i,
{
    if i < 0 || i + p.len() > s.len() {
        None
    } else if occurs_at(s, p, i) {
        Some(i)
    } else if i >= s.len() {
        None
    } else {
        find_from(s, p, i + 1)
    }
}

/// Characters that can belong to a version number: digits and dots.
pub open spec fn is_version_char(c: char) -> bool {
    ('0' <= c && c <= '9') || c == '.'
}

/// The length of the leading run of version characters of `s`.
pub open spec fn run_len(s: Seq<char>) -> nat
    decreases s.len(),
{
    if s.len() > 0 && is_version_char(s[0]) {
        1 + run_len(s.drop_first())
    } else {
        0
    }
}

/// The position of the first dot of `s`, or its length when it has none.
pub open spec fn dot_index(s: Seq<char>) -> nat
    decreases s.len(),
{
    if s.len() == 0 || s[0] == '.' {
        0
    } else {
        1 + dot_index(s.drop_first())
    }
}

/// The leading run of version characters lies within the string.
pub proof fn lemma_run_len_bound(s: Seq<char>)
    ensures
        run_len(s) <= s.len(),
    decreases s.len(),
{
    if s.len() > 0 && is_version_char(s[0]) {
        lemma_run_len_bound(s.drop_first());
    }
}

/// The first dot lies within the string.
pub proof fn lemma_dot_index_bound(s: Seq<char>)
    ensures
        dot_index(s) <= s.len(),
    decreases s.len(),
{
    if s.len() > 0 && s[0] != '.' {
        lemma_dot_index_bound(s.drop_first());
    }
}

/// The leading numbers of a run split at its dots: each part is read as a
/// `u32`, and reading stops at the first part that is not one.
pub open spec fn part_numbers(r: Seq<char>) -> Seq<u32>
    decreases r.len(),
{
    let k = dot_index(r);
    match parse_unsigned(r.take(k as int), u32::MAX as int) {
        None => Seq::empty(),
        Some(n) => if k < r.len() {
            seq![n as u32] + part_numbers(r.skip(k as int + 1))
        } else {
            seq![n as u32]
        },
    }
}

/// The numbers of the first run of digits and dots in `s` that yields at
/// least one number, as splitting `s` at the other characters and reading
/// each piece's parts in turn finds them.
pub open spec fn version_numbers(s: Seq<char>) -> Seq<u32>
    decreases s.len(),
{
    if s.len() == 0 {
        Seq::empty()
    } else if !is_version_char(s[0]) {
        version_numbers(s.drop_first())
    } else {
        let k = run_len(s);
        let nums = part_numbers(s.take(k as int));
        if nums.len() > 0 {
            nums
        } else {
            proof {
                lemma_run_len_bound(s);
            }
            version_numbers(s.skip(k as int))
        }
    }
}

/// The text that follows the product name (or the whole trimmed text when the
/// name does not occur), trimmed, without leading `=`, trimmed again.
pub open spec fn version_candidate(text: Seq<char>) -> Seq<char> {
    let after = match find_from(text, "LibreOffice"@, 0) {
        Some(i) => text.skip(i + "LibreOffice"@.len()),
        None => text,
    };
    trim(strip_leading(trim(after), '='))
}

/// The version a `--version` output or a `ProductKey=` line names: the first
/// numbers after the product name give major, minor and patch (missing ones
/// are zero); `raw` is the trimmed text.
pub open spec fn spec_parse_version(output: Seq<char>) -> Option<VersionView> {
    let text = trim(output);
    let nums = version_numbers(version_candidate(text));
    if nums.len() == 0 {
        None
    } else {
        Some(VersionView {
            major: nums[0],
            minor: if nums.len() > 1 { nums[1] } else { 0 },
            patch: if nums.len() > 2 { nums[2] } else { 0 },
            raw: text,
        })
    }
}

/// Markdown import and export need LibreOffice 26.2 or newer.
pub open spec fn spec_supports_markdown(major: u32, minor: u32) -> bool {
    major > 26 || (major == 26 && minor >= 2)
}

/// Whether `v[from..]` begins with `p`.
fn occurs_at_exec(v: &Vec<char>, p: &Vec<char>, from: usize) -> (res: bool)
    ensures
        res == occurs_at(v@, p@, from as int),
{
    let n = v.len();
    if from > n || p.len() > n - from {
        return false;
    }
    let mut i: usize = 0;
    while i < p.len()
        invariant
            n == v@.len(),
            from + p@.len() <= v@.len(),
            i <= p@.len(),
            forall|j: int| 0 <= j < i ==> v@[from + j] == p@[j],
        decreases p@.len() - i,
    {
        assert(from + i < v@.len());
        let k: usize = from + i;
        if v[k] != p[i] {
            assert(v@.subrange(from as int, from + p@.len())[i as int] != p@[i as int]);
            return false;
        }
        i = i + 1;
    }
    assert(v@.subrange(from as int, from + p@.len()) =~= p@);
    true
}

/// The first position where `p` occurs in `v`.
pub(crate) fn find_exec(v: &Vec<char>, p: &Vec<char>) -> (res: Option<usize>)
    ensures
        match res {
            Some(i) => find_from(v@, p@, 0) == Some(i as int),
            None => find_from(v@, p@, 0) is None,
        },
{
    let mut i: usize = 0;
    loop
        invariant
            find_from(v@, p@, 0) == find_from(v@, p@, i as int),
            i <= v@.len(),
        decreases v@.len() - i,
    {
        if p.len() > v.len() - i {
            return None;
        }
        if occurs_at_exec(v, p, i) {
            return Some(i);
        }
        if i == v.len() {
            return None;
        }
        i = i + 1;
    }
}

/// A position that the search finds is an occurrence.
proof fn lemma_find_from_occurs(s: Seq<char>, p: Seq<char>, i: int, k: int)
    requires
        find_from(s, p, i) == Some(k),
    ensures
        occurs_at(s, p, k),
        i <= k,
    decreases s.len() - i,
{
    if !(i < 0 || i + p.len() > s.len()) && !occurs_at(s, p, i) && i < s.len() {
        lemma_find_from_occurs(s, p, i + 1, k);
    }
}

proof fn lemma_run_len_exact(s: Seq<char>, k: int)
    requires
        0 <= k <= s.len(),
        forall|j: int| 0 <= j < k ==> is_version_char(s[j]),
        k == s.len() || !is_version_char(s[k]),
    ensures
        run_len(s) == k,
    decreases k,
{
    if k > 0 {
        lemma_run_len_exact(s.drop_first(), k - 1);
    }
}

proof fn lemma_dot_index_exact(s: Seq<char>, k: int)
    requires
        0 <= k <= s.len(),
        forall|j: int| 0 <= j < k ==> s[j] != '.',
        k == s.len() || s[k] == '.',
    ensures
        dot_index(s) == k,
    decreases k,
{
    if k > 0 {
        lemma_dot_index_exact(s.drop_first(), k - 1);
    }
}

/// The numbers of the run `v[from..to]`, as [`part_numbers`] reads them.
fn part_numbers_exec(v: &Vec<char>, from: usize, to: usize) -> (res: Vec<u32>)
    requires
        from <= to <= v@.len(),
    ensures
        res@ == part_numbers(v@.subrange(from as int, to as int)),
{
    let ghost whole = v@.subrange(from as int, to as int);
    let mut nums: Vec<u32> = Vec::new();
    let mut p: usize = from;
    loop
        invariant
            from <= p <= to <= v@.len(),
            whole == v@.subrange(from as int, to as int),
            part_numbers(whole) == nums@ + part_numbers(v@.subrange(p as int, to as int)),
        decreases to - p,
    {
        let ghost r = v@.subrange(p as int, to as int);
        let mut q: usize = p;
        while q < to && v[q] != '.'
            invariant
                p <= q <= to <= v@.len(),
                forall|j: int| p <= j < q ==> v@[j] != '.',
            decreases to - q,
        {
            q = q + 1;
        }
        proof {
            lemma_dot_index_exact(r, q - p);
            assert(r.take(q - p) =~= v@.subrange(p as int, q as int));
        }
        match parse_unsigned_range(v, p, q, 4294967295u64) {
            None => {
                assert(part_numbers(r) =~= Seq::<u32>::empty());
                assert(nums@ + part_numbers(r) =~= nums@);
                return nums;
            },
            Some(n) => {
                let ghost before = nums@;
                nums.push(n as u32);
                if q < to {
                    proof {
                        assert(r.skip(q - p + 1) =~= v@.subrange(q + 1, to as int));
                        assert(part_numbers(r) == seq![n as u32] + part_numbers(r.skip(q - p + 1)));
                        assert(before + (seq![n as u32] + part_numbers(v@.subrange(q + 1, to as int))) =~= nums@ + part_numbers(v@.subrange(q + 1, to as int)));
                    }
                    p = q + 1;
                } else {
                    assert(part_numbers(r) == seq![n as u32]);
                    assert(before + seq![n as u32] =~= nums@);
                    return nums;
                }
            },
        }
    }
}

/// Whether `c` is a digit or a dot.
fn is_version_char_exec(c: char) -> (res: bool)
    ensures
        res == is_version_char(c),
{
    ('0' <= c && c <= '9') || c == '.'
}

/// The numbers of the first run of `v` that yields any, as
/// [`version_numbers`] reads them.
fn version_numbers_exec(v: &Vec<char>) -> (res: Vec<u32>)
    ensures
        res@ == version_numbers(v@),
{
    let mut pos: usize = 0;
    assert(v@.skip(0) =~= v@);
    loop
        invariant
            pos <= v@.len(),
            version_numbers(v@) == version_numbers(v@.skip(pos as int)),
        decreases v@.len() - pos,
    {
        let ghost s = v@.skip(pos as int);
        if pos == v.len() {
            assert(s =~= Seq::<char>::empty());
            assert(s.len() == 0);
            return Vec::new();
        }
        assert(s[0] == v@[pos as int]);
        if !is_version_char_exec(v[pos]) {
            assert(s.drop_first() =~= v@.skip(pos + 1));
            pos = pos + 1;
        } else {
            let mut end: usize = pos;
            while end < v.len() && is_version_char_exec(v[end])
                invariant
                    pos <= end <= v@.len(),
                    forall|j: int| pos <= j < end ==> is_version_char(v@[j]),
                decreases v@.len() - end,
            {
                end = end + 1;
            }
            proof {
                lemma_run_len_exact(s, end - pos);
                assert(s.take(end - pos) =~= v@.subrange(pos as int, end as int));
            }
            let nums = part_numbers_exec(v, pos, end);
            if nums.len() > 0 {
                return nums;
            }
            assert(s.skip(end - pos) =~= v@.skip(end as int));
            pos = end;
        }
    }
}

impl LibreOfficeVersion {
    /// Reads a version from `soffice --version` output or from a
    /// `ProductKey=LibreOffice 26.2` line, as [`spec_parse_version`] states.
    pub fn parse(output: &str) -> (res: Option<LibreOfficeVersion>)
        ensures
            opt_version_view(res) == spec_parse_version(output@),
    {
        let all = chars_of(output);
        let text = trim_exec(&all);
        let name = chars_of("LibreOffice");
        let tn = text.len();
        let after = match find_exec(&text, &name) {
            Some(i) => {
                proof {
                    lemma_find_from_occurs(text@, name@, 0, i as int);
                }
                assert(i + name@.len() <= tn);
                chars_range(&text, i + name.len(), tn)
            },
            None => chars_range(&text, 0, text.len()),
        };
        assert(after@ == match find_from(text@, "LibreOffice"@, 0) {
            Some(i) => text@.skip(i + "LibreOffice"@.len()),
            None => text@,
        }) by {
            assert(text@.subrange(0, text@.len() as int) =~= text@);
            match find_from(text@, "LibreOffice"@, 0) {
                Some(i) => {
                    assert(text@.skip(i + "LibreOffice"@.len()) =~= text@.subrange(i + name@.len(), text@.len() as int));
                },
                None => {},
            }
        }
        let t1 = trim_exec(&after);
        let t2 = strip_leading_exec(&t1, '=');
        let candidate = trim_exec(&t2);
        let nums = version_numbers_exec(&candidate);
        if nums.len() == 0 {
            return None;
        }
        let minor = if nums.len() > 1 { nums[1] } else { 0 };
        let patch = if nums.len() > 2 { nums[2] } else { 0 };
        Some(LibreOfficeVersion { major: nums[0], minor, patch, raw: string_of(&text) })
    }

    /// Whether this release reads and writes Markdown (26.2 or newer).
    pub fn supports_markdown(&self) -> (res: bool)
        ensures
            res == spec_supports_markdown(self.major, self.minor),
    {
        self.major > 26 || (self.major == 26 && self.minor >= 2)
    }
}

/// The first version that a `ProductKey=` line of a `bootstrap.ini` file
/// names, reading its lines in order.
pub open spec fn spec_bootstrap_version(lines: Seq<Seq<char>>) -> Option<VersionView>
    decreases lines.len(),
{
    if lines.len() == 0 {
        None
    } else {
        let t = trim(lines[0]);
        if has_prefix(t, "ProductKey="@) && spec_parse_version(t) is Some {
            spec_parse_version(t)
        } else {
            spec_bootstrap_version(lines.drop_first())
        }
    }
}

/// The lines of `s` that begin at `start`, scanning from `i`.
pub open spec fn spec_lines_from(s: Seq<char>, start: int, i: int) -> Seq<Seq<char>>
    decreases s.len() - i,
{
    if i >= s.len() {
        if start < s.len() {
            seq![line_body(s.subrange(start, s.len() as int))]
        } else {
            Seq::empty()
        }
    } else if s[i] == '\n' {
        seq![line_body(s.subrange(start, i))] + spec_lines_from(s, i + 1, i + 1)
    } else {
        spec_lines_from(s, start, i + 1)
    }
}

/// A line without its trailing carriage return.
pub open spec fn line_body(l: Seq<char>) -> Seq<char> {
    if l.len() > 0 && l.last() == '\r' {
        l.drop_last()
    } else {
        l
    }
}

/// The lines of a text, as `str::lines` gives them: split at `\n`, a
/// trailing `\r` removed from each, no final empty line.
pub open spec fn spec_lines(s: Seq<char>) -> Seq<Seq<char>> {
    spec_lines_from(s, 0, 0)
}

/// The version a `bootstrap.ini` file names in a `ProductKey=` line.
pub fn version_from_bootstrap_ini(content: &str) -> (res: Option<LibreOfficeVersion>)
    ensures
        opt_version_view(res) == spec_bootstrap_version(spec_lines(content@)),
{
    let v = chars_of(content);
    let mut start: usize = 0;
    let mut i: usize = 0;
    loop
        invariant
            start <= i <= v@.len(),
            v@ == content@,
            spec_bootstrap_version(spec_lines(v@)) == spec_bootstrap_version(spec_lines_from(v@, start as int, i as int)),
        decreases v@.len() - i,
    {
        if i == v.len() || v[i] == '\n' {
            if i == v.len() && start == v.len() {
                assert(spec_lines_from(v@, start as int, i as int) =~= Seq::<Seq<char>>::empty());
                return None;
            }
            let mut end = i;
            if end > start && v[end - 1] == '\r' {
                end = end - 1;
            }
            let line = string_of_range(&v, start, end);
            assert(line@ == line_body(v@.subrange(start as int, i as int))) by {
                if i > start && v@[i - 1] == '\r' {
                    assert(v@.subrange(start as int, i as int).drop_last() =~= v@.subrange(start as int, end as int));
                } else {
                    assert(v@.subrange(start as int, i as int) =~= v@.subrange(start as int, end as int));
                }
            }
            let ghost rest = if i == v.len() { Seq::<Seq<char>>::empty() } else { spec_lines_from(v@, i + 1, i + 1) };
            assert(spec_lines_from(v@, start as int, i as int) == seq![line@] + rest);
            assert((seq![line@] + rest)[0] == line@);
            assert((seq![line@] + rest).drop_first() =~= rest);
            let lc = chars_of(line.as_str());
            let t = trim_exec(&lc);
            let ghost found = has_prefix(trim(line@), "ProductKey="@) && spec_parse_version(trim(line@)) is Some;
            assert(spec_bootstrap_version(seq![line@] + rest) == if found {
                spec_parse_version(trim(line@))
            } else {
                spec_bootstrap_version(rest)
            });
            if has_prefix_exec(&t, "ProductKey=") {
                let ts = string_of(&t);
                let parsed = LibreOfficeVersion::parse(ts.as_str());
                if parsed.is_some() {
                    return parsed;
                }
            }
            if i == v.len() {
                assert(rest =~= Seq::<Seq<char>>::empty());
                return None;
            }
            start = i + 1;
        }
        i = i + 1;
    }
}

/// The version a `soffice --version` run reports: read from its standard
/// output, else from its standard error.
pub fn version_from_command_output(stdout: &str, stderr: &str) -> (res: Option<LibreOfficeVersion>)
    ensures
        opt_version_view(res) == match spec_parse_version(stdout@) {
            Some(v) => Some(v),
            None => spec_parse_version(stderr@),
        },
{
    match LibreOfficeVersion::parse(stdout) {
        Some(v) => Some(v),
        None => LibreOfficeVersion::parse(stderr),
    }
}

/// `s` with backslashes turned into forward slashes.
pub open spec fn forward_slashes(s: Seq<char>) -> Seq<char> {
    Seq::new(s.len(), |i: int| if s[i] == '\\' { '/' } else { s[i] })
}

/// `s` without every leading repetition of the non-empty `p`, as
/// `str::trim_start_matches(p)`.
pub open spec fn strip_prefix_repeated(s: Seq<char>, p: Seq<char>) -> Seq<char>
    decreases s.len(),
{
    if p.len() > 0 && has_prefix(s, p) {
        strip_prefix_repeated(s.skip(p.len() as int), p)
    } else {
        s
    }
}

/// The `file:` URI of a path, as LibreOffice's `-env:UserInstallation`
/// expects it: backslashes become slashes, a `//?/` verbatim prefix is
/// dropped, and the path follows `file://` (absolute) or `file:///`.
pub open spec fn spec_file_uri(path: Seq<char>) -> Seq<char> {
    let t = strip_prefix_repeated(forward_slashes(path), "//?/"@);
    if t.len() > 0 && t[0] == '/' {
        "file://"@ + t
    } else {
        "file:///"@ + t
    }
}

/// The `file:` URI of a path, as [`spec_file_uri`] states.
pub fn path_to_file_uri(path: &str) -> (res: String)
    ensures
        res@ == spec_file_uri(path@),
{
    let v = chars_of(path);
    let mut s: Vec<char> = Vec::new();
    let mut i: usize = 0;
    while i < v.len()
        invariant
            i <= v@.len(),
            s@.len() == i,
            forall|j: int| 0 <= j < i ==> #[trigger] s@[j] == (if v@[j] == '\\' { '/' } else { v@[j] }),
        decreases v@.len() - i,
    {
        if v[i] == '\\' {
            s.push('/');
        } else {
            s.push(v[i]);
        }
        i = i + 1;
    }
    assert(s@ =~= forward_slashes(path@));
    let pat = chars_of("//?/");
    let mut pos: usize = 0;
    let n = s.len();
    assert(s@.skip(0) =~= s@);
    loop
        invariant
            n == s@.len(),
            pos <= s@.len(),
            s@ == forward_slashes(path@),
            pat@ == "//?/"@,
            strip_prefix_repeated(s@, pat@) == strip_prefix_repeated(s@.skip(pos as int), pat@),
        ensures
            pos <= s@.len(),
            strip_prefix_repeated(s@, pat@) == s@.skip(pos as int),
        decreases s@.len() - pos,
    {
        let ghost t = s@.skip(pos as int);
        if pat.len() > 0 && occurs_at_exec(&s, &pat, pos) {
            proof {
                assert(t.subrange(0, pat@.len() as int) =~= s@.subrange(pos as int, pos + pat@.len()));
                assert(t.skip(pat@.len() as int) =~= s@.skip(pos + pat@.len()));
            }
            pos = pos + pat.len();
        } else {
            proof {
                if pat@.len() > 0 && has_prefix(t, pat@) {
                    assert(t.subrange(0, pat@.len() as int) =~= s@.subrange(pos as int, pos + pat@.len()));
                }
            }
            break;
        }
    }
    let tail = chars_range(&s, pos, s.len());
    assert(tail@ =~= s@.skip(pos as int));
    let mut out = if tail.len() > 0 && tail[0] == '/' { owned("file://") } else { owned("file:///") };
    let tail_s = string_of(&tail);
    push_str(&mut out, tail_s.as_str());
    out
}

/// Whether a cleaned source name is a spreadsheet for LibreOffice's filters.
pub open spec fn is_calc_source(s: Seq<char>) -> bool {
    s == "ods"@ || s == "fods"@ || s == "ots"@ || s == "xlsx"@ || s == "xls"@ || s == "csv"@ || s == "tsv"@
}

/// Whether a cleaned source name is a presentation for LibreOffice's filters.
pub open spec fn is_impress_source(s: Seq<char>) -> bool {
    s == "odp"@ || s == "fodp"@ || s == "otp"@ || s == "pptx"@ || s == "ppt"@
}

/// The export filter for a target name (cleaned), given the cleaned source.
pub open spec fn filter_for_clean(s: Seq<char>, t: Seq<char>) -> Option<Seq<char>> {
    if t == "pdf"@ {
        Some(if is_calc_source(s) { "calc_pdf_Export"@ } else if is_impress_source(s) { "impress_pdf_Export"@ } else { "writer_pdf_Export"@ })
    } else if t == "html"@ || t == "htm"@ || t == "xhtml"@ {
        Some(if is_calc_source(s) { "HTML (StarCalc)"@ } else { "HTML (StarWriter)"@ })
    } else if t == "odt"@ {
        Some("writer8"@)
    } else if t == "ott"@ {
        Some("writer8_template"@)
    } else if t == "fodt"@ {
        Some("OpenDocument Text Flat XML"@)
    } else if t == "docx"@ {
        Some("MS Word 2007 XML"@)
    } else if t == "doc"@ {
        Some("MS Word 97"@)
    } else if t == "rtf"@ {
        Some("Rich Text Format"@)
    } else if t == "txt"@ {
        Some("Text"@)
    } else if t == "md"@ || t == "markdown"@ {
        Some("Markdown"@)
    } else if t == "epub"@ {
        Some("EPUB"@)
    } else if t == "ods"@ {
        Some("calc8"@)
    } else if t == "fods"@ {
        Some("OpenDocument Spreadsheet Flat XML"@)
    } else if t == "ots"@ {
        Some("calc8_template"@)
    } else if t == "xlsx"@ {
        Some("Calc MS Excel 2007 XML"@)
    } else if t == "xls"@ {
        Some("MS Excel 97"@)
    } else if t == "csv"@ || t == "tsv"@ {
        Some("Text - txt - csv (StarCalc)"@)
    } else if t == "odp"@ {
        Some("impress8"@)
    } else if t == "fodp"@ {
        Some("OpenDocument Presentation Flat XML"@)
    } else if t == "otp"@ {
        Some("impress8_template"@)
    } else if t == "pptx"@ {
        Some("Impress MS PowerPoint 2007 XML"@)
    } else if t == "ppt"@ {
        Some("MS PowerPoint 97"@)
    } else {
        None
    }
}

/// The LibreOffice export filter for a conversion; names are compared
/// without leading dots and without letter case.
pub open spec fn spec_filter_for(source: Seq<char>, target: Seq<char>) -> Option<Seq<char>> {
    filter_for_clean(clean_name(source), clean_name(target))
}

/// The value of an optional string slice.
pub open spec fn opt_static_view(o: Option<&str>) -> Option<Seq<char>> {
    match o {
        Some(s) => Some(s@),
        None => None,
    }
}

fn is_calc_exec(s: &Vec<char>) -> (res: bool)
    ensures
        res == is_calc_source(s@),
{
    chars_eq_str(s, "ods") || chars_eq_str(s, "fods") || chars_eq_str(s, "ots") || chars_eq_str(s, "xlsx")
        || chars_eq_str(s, "xls") || chars_eq_str(s, "csv") || chars_eq_str(s, "tsv")
}

fn is_impress_exec(s: &Vec<char>) -> (res: bool)
    ensures
        res == is_impress_source(s@),
{
    chars_eq_str(s, "odp") || chars_eq_str(s, "fodp") || chars_eq_str(s, "otp") || chars_eq_str(s, "pptx")
        || chars_eq_str(s, "ppt")
}

/// The LibreOffice export filter for converting `source_format` to
/// `target_format`, as [`spec_filter_for`] states.
pub fn libreoffice_filter_for(source_format: &str, target_format: &str) -> (res: Option<&'static str>)
    ensures
        opt_static_view(res) == spec_filter_for(source_format@, target_format@),
{
    let t = clean_name_exec(target_format);
    let s = clean_name_exec(source_format);
    if chars_eq_str(&t, "pdf") {
        if is_calc_exec(&s) {
            Some("calc_pdf_Export")
        } else if is_impress_exec(&s) {
            Some("impress_pdf_Export")
        } else {
            Some("writer_pdf_Export")
        }
    } else if chars_eq_str(&t, "html") || chars_eq_str(&t, "htm") || chars_eq_str(&t, "xhtml") {
        if is_calc_exec(&s) {
            Some("HTML (StarCalc)")
        } else {
            Some("HTML (StarWriter)")
        }
    } else if chars_eq_str(&t, "odt") {
        Some("writer8")
    } else if chars_eq_str(&t, "ott") {
        Some("writer8_template")
    } else if chars_eq_str(&t, "fodt") {
        Some("OpenDocument Text Flat XML")
    } else if chars_eq_str(&t, "docx") {
        Some("MS Word 2007 XML")
    } else if chars_eq_str(&t, "doc") {
        Some("MS Word 97")
    } else if chars_eq_str(&t, "rtf") {
        Some("Rich Text Format")
    } else if chars_eq_str(&t, "txt") {
        Some("Text")
    } else if chars_eq_str(&t, "md") || chars_eq_str(&t, "markdown") {
        Some("Markdown")
    } else if chars_eq_str(&t, "epub") {
        Some("EPUB")
    } else if chars_eq_str(&t, "ods") {
        Some("calc8")
    } else if chars_eq_str(&t, "fods") {
        Some("OpenDocument Spreadsheet Flat XML")
    } else if chars_eq_str(&t, "ots") {
        Some("calc8_template")
    } else if chars_eq_str(&t, "xlsx") {
        Some("Calc MS Excel 2007 XML")
    } else if chars_eq_str(&t, "xls") {
        Some("MS Excel 97")
    } else if chars_eq_str(&t, "csv") || chars_eq_str(&t, "tsv") {
        Some("Text - txt - csv (StarCalc)")
    } else if chars_eq_str(&t, "odp") {
        Some("impress8")
    } else if chars_eq_str(&t, "fodp") {
        Some("OpenDocument Presentation Flat XML")
    } else if chars_eq_str(&t, "otp") {
        Some("impress8_template")
    } else if chars_eq_str(&t, "pptx") {
        Some("Impress MS PowerPoint 2007 XML")
    } else if chars_eq_str(&t, "ppt") {
        Some("MS PowerPoint 97")
    } else {
        None
    }
}

/// The `--convert-to` argument: the cleaned target, then `:` and the export
/// filter when there is one.
pub open spec fn spec_convert_arg(source: Seq<char>, target: Seq<char>) -> Seq<char> {
    let ct = clean_name(target);
    match spec_filter_for(source, ct) {
        Some(f) => ct + ":"@ + f,
        None => ct,
    }
}

/// The `--convert-to` argument, as [`spec_convert_arg`] states.
pub fn libreoffice_convert_arg(source_format: &str, target_format: &str) -> (res: String)
    ensures
        res@ == spec_convert_arg(source_format@, target_format@),
{
    let ct = clean_name_exec(target_format);
    let mut out = string_of(&ct);
    match libreoffice_filter_for(source_format, out.as_str()) {
        Some(f) => {
            push_str(&mut out, ":");
            push_str(&mut out, f);
        },
        None => {},
    }
    out
}

/// The headless LibreOffice command line that converts `input` into
/// `outdir`: an isolated profile when one is given, the PDF import filter for
/// PDF sources, then the conversion target, the output directory and the
/// input.
pub open spec fn spec_libreoffice_args(
    input: Seq<char>,
    outdir: Seq<char>,
    source: Seq<char>,
    target: Seq<char>,
    profile: Option<Seq<char>>,
) -> Seq<Seq<char>> {
    seq!["--headless"@] + (match profile {
        Some(p) => seq!["-env:UserInstallation="@ + spec_file_uri(p)],
        None => Seq::empty(),
    }) + (if clean_name(source) == "pdf"@ {
        seq!["--infilter=writer_pdf_import"@]
    } else {
        Seq::empty()
    }) + seq!["--convert-to"@, spec_convert_arg(source, target), "--outdir"@, outdir, input]
}

/// The headless LibreOffice command line, as [`spec_libreoffice_args`]
/// states. Paths are passed as written.
pub fn build_libreoffice_args(
    input: &str,
    outdir: &str,
    source_format: &str,
    target_format: &str,
    profile_dir: Option<&str>,
) -> (res: Vec<String>)
    ensures
        strings_view(res@) == spec_libreoffice_args(input@, outdir@, source_format@, target_format@, opt_static_view(profile_dir)),
{
    let mut args: Vec<String> = Vec::new();
    args.push(owned("--headless"));
    let ghost a1 = strings_view(args@);
    assert(a1 =~= seq!["--headless"@]);
    match profile_dir {
        Some(profile) => {
            let uri = path_to_file_uri(profile);
            let mut arg = owned("-env:UserInstallation=");
            push_str(&mut arg, uri.as_str());
            args.push(arg);
        },
        None => {},
    }
    let ghost a2 = strings_view(args@);
    assert(a2 =~= a1 + (match opt_static_view(profile_dir) {
        Some(p) => seq!["-env:UserInstallation="@ + spec_file_uri(p)],
        None => Seq::<Seq<char>>::empty(),
    }));
    let clean_source = clean_name_exec(source_format);
    if chars_eq_str(&clean_source, "pdf") {
        args.push(owned("--infilter=writer_pdf_import"));
    }
    let ghost a3 = strings_view(args@);
    assert(a3 =~= a2 + (if clean_name(source_format@) == "pdf"@ {
        seq!["--infilter=writer_pdf_import"@]
    } else {
        Seq::<Seq<char>>::empty()
    }));
    args.push(owned("--convert-to"));
    args.push(libreoffice_convert_arg(source_format, target_format));
    args.push(owned("--outdir"));
    args.push(owned(outdir));
    args.push(owned(input));
    assert(strings_view(args@) =~= a3 + seq!["--convert-to"@, spec_convert_arg(source_format@, target_format@), "--outdir"@, outdir@, input@]);
    args
}

} // verus!
