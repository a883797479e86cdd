//! The file pipeline's decisions and its aggregation.
//!
//! Everything here is a pure function of the classified paths and the read
//! results: which files are skipped, what is written where, what the
//! summary entries and error lines say.  The surrounding process performs
//! the reads and writes and hands the outcomes back as plain values; the
//! outputs here are its complete instructions.

use vstd::prelude::*;
use rand::Rng;
use crate::lang::classify_spec;
use crate::lang::classify;
use crate::lang::segment_spec;
use crate::lang::segment;
use crate::text::push_chars;
use crate::text::push_str;
use crate::text::clone_chars;
use crate::text::str_chars;
use crate::text::chars_to_string;

verus! {

/// The fixed separator line of the summary document.
pub open spec fn separator() -> Seq<char> {
    "\n.................................................................\n"@
}

/// One file's summary section: a blank line, the relative path, a blank
/// line, the simplified text, and the separator.
pub open spec fn summary_entry_spec(rel: Seq<char>, simplified: Seq<char>) -> Seq<char> {
    "\n"@ + rel + "\n\n"@ + simplified + separator()
}

pub fn summary_entry(rel: &Vec<char>, simplified: &Vec<char>) -> (r: Vec<char>)
    ensures
        r@ == summary_entry_spec(rel@, simplified@),
{
    let mut r: Vec<char> = Vec::new();
    push_str(&mut r, "\n");
    push_chars(&mut r, rel);
    push_str(&mut r, "\n\n");
    push_chars(&mut r, simplified);
    push_str(&mut r, "\n.................................................................\n");
    r
}

/// The error log line for a file that could not be read.
pub open spec fn read_error_line_spec(path: Seq<char>, cause: Seq<char>) -> Seq<char> {
    "Error reading file "@ + path + ": "@ + cause + "\n"@
}

pub fn read_error_line(path: &Vec<char>, cause: &Vec<char>) -> (r: Vec<char>)
    ensures
        r@ == read_error_line_spec(path@, cause@),
{
    let mut r: Vec<char> = Vec::new();
    push_str(&mut r, "Error reading file ");
    push_chars(&mut r, path);
    push_str(&mut r, ": ");
    push_chars(&mut r, cause);
    push_str(&mut r, "\n");
    r
}

/// The error log line for a file whose text its language's grammar could
/// not parse.
pub open spec fn parse_error_line_spec(path: Seq<char>) -> Seq<char> {
    "Error parsing file "@ + path + "\n"@
}

pub fn parse_error_line(path: &Vec<char>) -> (r: Vec<char>)
    ensures
        r@ == parse_error_line_spec(path@),
{
    let mut r: Vec<char> = Vec::new();
    push_str(&mut r, "Error parsing file ");
    push_chars(&mut r, path);
    push_str(&mut r, "\n");
    r
}

/// The error log line for a mirrored write that failed.
pub open spec fn write_error_line_spec(path: Seq<char>, cause: Seq<char>) -> Seq<char> {
    "Error writing file "@ + path + ": "@ + cause + "\n"@
}

pub fn write_error_line(path: &Vec<char>, cause: &Vec<char>) -> (r: Vec<char>)
    ensures
        r@ == write_error_line_spec(path@, cause@),
{
    let mut r: Vec<char> = Vec::new();
    push_str(&mut r, "Error writing file ");
    push_chars(&mut r, path);
    push_str(&mut r, ": ");
    push_chars(&mut r, cause);
    push_str(&mut r, "\n");
    r
}

/// The error log line for a parent directory that could not be created.
pub open spec fn dir_error_line_spec(cause: Seq<char>) -> Seq<char> {
    "Error creating directory: "@ + cause + "\n"@
}

pub fn dir_error_line(cause: &Vec<char>) -> (r: Vec<char>)
    ensures
        r@ == dir_error_line_spec(cause@),
{
    let mut r: Vec<char> = Vec::new();
    push_str(&mut r, "Error creating directory: ");
    push_chars(&mut r, cause);
    push_str(&mut r, "\n");
    r
}

/// A path relative to the input root: the part after the root and its
/// separator, or the path unchanged when it does not lie under the root.
pub open spec fn rel_path_spec(root: Seq<char>, path: Seq<char>) -> Seq<char> {
    if path.len() > root.len() && path.subrange(0, root.len() as int) == root && path[root.len() as int]
        == '/' {
        path.subrange(root.len() + 1 as int, path.len() as int)
    } else {
        path
    }
}

pub fn rel_path(root: &Vec<char>, path: &Vec<char>) -> (r: Vec<char>)
    ensures
        r@ == rel_path_spec(root@, path@),
{
    if path.len() > root.len() {
        let mut i: usize = 0;
        let mut same: bool = true;
        while i < root.len()
            invariant
                i <= root@.len() < path@.len(),
                same ==> forall|k: int| 0 <= k < i ==> path@[k] == root@[k],
                !same ==> path@.subrange(0, root@.len() as int) != root@,
            decreases root@.len() - i,
        {
            if path[i] != root[i] {
                proof {
                    assert(path@.subrange(0, root@.len() as int)[i as int] == path@[i as int]);
                }
                same = false;
                i = root.len();
            } else {
                i += 1;
            }
        }
        if same && path[root.len()] == '/' {
            proof {
                assert(path@.subrange(0, root@.len() as int) =~= root@);
            }
            crate::text::copy_range(path, root.len() + 1, path.len())
        } else {
            clone_chars(path)
        }
    } else {
        clone_chars(path)
    }
}

/// The mirrored location of a file under the output root.
pub open spec fn save_path_spec(arch: Seq<char>, root: Seq<char>, path: Seq<char>) -> Seq<char> {
    arch + "/"@ + rel_path_spec(root, path)
}

pub fn save_path(arch: &Vec<char>, root: &Vec<char>, path: &Vec<char>) -> (r: Vec<char>)
    ensures
        r@ == save_path_spec(arch@, root@, path@),
{
    let mut r = clone_chars(arch);
    push_str(&mut r, "/");
    let rel = rel_path(root, path);
    push_chars(&mut r, &rel);
    r
}

/// An alphanumeric ASCII character.
pub open spec fn is_alnum(c: char) -> bool {
    (48 <= c as u32 && c as u32 <= 57) || (65 <= c as u32 && c as u32 <= 90) || (97 <= c as u32
        && c as u32 <= 122)
}

/// Relies on `rand`'s `Alphanumeric` distribution: sampled bytes are
/// uniformly drawn from ASCII letters and digits, so any six samples are
/// six alphanumeric characters.  Nothing else is promised of them.
#[verifier::external_body]
fn random_suffix() -> (r: Vec<char>)
    ensures
        r@.len() == 6,
        forall|i: int| 0 <= i < 6 ==> is_alnum(r@[i]),
{
    rand::thread_rng().sample_iter(&rand::distributions::Alphanumeric).take(6).map(
        char::from,
    ).collect()
}

/// The output root's name: a fixed stem and a random six-character suffix
/// to avoid colliding with existing content.
pub fn make_arch_dir_name() -> (r: String)
    ensures
        r@.len() == "_arch_"@.len() + 6,
        r@.subrange(0, "_arch_"@.len() as int) == "_arch_"@,
        forall|i: int| "_arch_"@.len() <= i < r@.len() ==> is_alnum(r@[i]),
{
    let mut v = str_chars("_arch_");
    let suffix = random_suffix();
    push_chars(&mut v, &suffix);
    proof {
        assert(v@.subrange(0, "_arch_"@.len() as int) =~= "_arch_"@);
    }
    chars_to_string(&v)
}

/// The canonical form of an input path: what canonicalization resolved,
/// or the path itself where canonicalization failed.
pub fn normalize_path(path: &str, resolved: Option<&str>) -> (r: String)
    ensures
        r@ == (match resolved {
            Some(c) => c@,
            None => path@,
        }),
{
    match resolved {
        Some(c) => {
            let v = str_chars(c);
            chars_to_string(&v)
        },
        None => {
            let v = str_chars(path);
            chars_to_string(&v)
        },
    }
}

/// One discovered file, as the pipeline sees it: its full path and what
/// reading it produced.
pub struct FileRecord {
    pub path: Vec<char>,
    pub read: Result<Vec<char>, Vec<char>>,
}

/// What the pipeline decides for one file.
pub enum Outcome {
    /// Unknown extension or unregistered language: silence everywhere.
    Skip,
    /// Simplified successfully: a mirrored write and a summary entry.
    Written { save: Seq<char>, content: Seq<char>, entry: Seq<char> },
    /// Read or parse failure: one error log line, nothing else.
    Failed { line: Seq<char> },
}

/// The pipeline's decision for one file record.
pub open spec fn outcome_of(root: Seq<char>, arch: Seq<char>, rec: FileRecord) -> Outcome {
    match classify_spec(rec.path@) {
        None => Outcome::Skip,
        Some(lang) => match rec.read {
            Result::Err(cause) => Outcome::Failed { line: read_error_line_spec(rec.path@, cause@) },
            Result::Ok(code) => match segment_spec(lang, code@) {
                None => Outcome::Failed { line: parse_error_line_spec(rec.path@) },
                Some(simp) => Outcome::Written {
                    save: save_path_spec(arch, root, rec.path@),
                    content: simp,
                    entry: summary_entry_spec(rel_path_spec(root, rec.path@), simp),
                },
            },
        },
    }
}

pub open spec fn saves_of(root: Seq<char>, arch: Seq<char>, recs: Seq<FileRecord>, i: int) -> Seq<
    Seq<char>,
>
    decreases recs.len() - i,
{
    if !(0 <= i < recs.len()) {
        Seq::empty()
    } else {
        (match outcome_of(root, arch, recs[i]) {
            Outcome::Written { save, .. } => seq![save],
            _ => Seq::empty(),
        }) + saves_of(root, arch, recs, i + 1)
    }
}

pub open spec fn contents_of(root: Seq<char>, arch: Seq<char>, recs: Seq<FileRecord>, i: int) -> Seq<
    Seq<char>,
>
    decreases recs.len() - i,
{
    if !(0 <= i < recs.len()) {
        Seq::empty()
    } else {
        (match outcome_of(root, arch, recs[i]) {
            Outcome::Written { content, .. } => seq![content],
            _ => Seq::empty(),
        }) + contents_of(root, arch, recs, i + 1)
    }
}

pub open spec fn entries_of(root: Seq<char>, arch: Seq<char>, recs: Seq<FileRecord>, i: int) -> Seq<
    Seq<char>,
>
    decreases recs.len() - i,
{
    if !(0 <= i < recs.len()) {
        Seq::empty()
    } else {
        (match outcome_of(root, arch, recs[i]) {
            Outcome::Written { entry, .. } => seq![entry],
            _ => Seq::empty(),
        }) + entries_of(root, arch, recs, i + 1)
    }
}

pub open spec fn errors_of(root: Seq<char>, arch: Seq<char>, recs: Seq<FileRecord>, i: int) -> Seq<
    Seq<char>,
>
    decreases recs.len() - i,
{
    if !(0 <= i < recs.len()) {
        Seq::empty()
    } else {
        (match outcome_of(root, arch, recs[i]) {
            Outcome::Failed { line } => seq![line],
            _ => Seq::empty(),
        }) + errors_of(root, arch, recs, i + 1)
    }
}

/// The pipeline's decision for one file, as executable data: what the
/// surrounding process must do for it.
pub enum FileAction {
    /// Unknown extension or unregistered language: do nothing, log nothing.
    Skip,
    /// Write `content` to `save` and append `entry` to the summary.
    Write { save: Vec<char>, content: Vec<char>, entry: Vec<char> },
    /// Append `line` to the error log, nothing else.
    Fail { line: Vec<char> },
}

/// Decide one file: classification, segmentation, the mirrored location,
/// the summary entry and the error line all come from here; the caller
/// only performs the filesystem work the action names.
pub fn plan_file(root: &Vec<char>, arch: &Vec<char>, rec: &FileRecord) -> (r: FileAction)
    ensures
        match r {
            FileAction::Skip => outcome_of(root@, arch@, *rec) is Skip,
            FileAction::Write { save, content, entry } => outcome_of(root@, arch@, *rec)
                == (Outcome::Written { save: save@, content: content@, entry: entry@ }),
            FileAction::Fail { line } => outcome_of(root@, arch@, *rec) == (Outcome::Failed {
                line: line@,
            }),
        },
{
    match classify(&rec.path) {
        None => FileAction::Skip,
        Some(lang) => {
            match &rec.read {
                Result::Err(cause) => FileAction::Fail { line: read_error_line(&rec.path, cause) },
                Result::Ok(code) => {
                    let code_s = chars_to_string(code);
                    match segment(lang, code_s.as_str()) {
                        None => FileAction::Fail { line: parse_error_line(&rec.path) },
                        Some(simplified) => {
                            let simp = str_chars(simplified.as_str());
                            let save = save_path(arch, root, &rec.path);
                            let rel = rel_path(root, &rec.path);
                            let entry = summary_entry(&rel, &simp);
                            FileAction::Write { save, content: simp, entry }
                        },
                    }
                },
            }
        },
    }
}

/// Everything one run writes: mirrored files (paths and contents, aligned),
/// summary entries in completion order, and error log lines.
pub struct RunOutput {
    pub save_paths: Vec<Vec<char>>,
    pub contents: Vec<Vec<char>>,
    pub entries: Vec<Vec<char>>,
    pub errors: Vec<Vec<char>>,
}

/// Decide every record of a run: which files are mirrored where and with
/// what content, which summary entries appear, and which error lines;
/// records in the order their reads completed.
pub fn run_pipeline(root: &Vec<char>, arch: &Vec<char>, records: &Vec<FileRecord>) -> (r:
    RunOutput)
    ensures
        r.save_paths.deep_view() == saves_of(root@, arch@, records@, 0),
        r.contents.deep_view() == contents_of(root@, arch@, records@, 0),
        r.entries.deep_view() == entries_of(root@, arch@, records@, 0),
        r.errors.deep_view() == errors_of(root@, arch@, records@, 0),
{
    let mut save_paths: Vec<Vec<char>> = Vec::new();
    let mut contents: Vec<Vec<char>> = Vec::new();
    let mut entries: Vec<Vec<char>> = Vec::new();
    let mut errors: Vec<Vec<char>> = Vec::new();
    let mut i: usize = 0;
    while i < records.len()
        invariant
            i <= records@.len(),
            saves_of(root@, arch@, records@, 0) == save_paths.deep_view() + saves_of(
                root@,
                arch@,
                records@,
                i as int,
            ),
            contents_of(root@, arch@, records@, 0) == contents.deep_view() + contents_of(
                root@,
                arch@,
                records@,
                i as int,
            ),
            entries_of(root@, arch@, records@, 0) == entries.deep_view() + entries_of(
                root@,
                arch@,
                records@,
                i as int,
            ),
            errors_of(root@, arch@, records@, 0) == errors.deep_view() + errors_of(
                root@,
                arch@,
                records@,
                i as int,
            ),
        decreases records@.len() - i,
    {
        let rec = &records[i];
        let ghost sp0 = save_paths.deep_view();
        let ghost co0 = contents.deep_view();
        let ghost en0 = entries.deep_view();
        let ghost er0 = errors.deep_view();
        match plan_file(root, arch, rec) {
            FileAction::Skip => {},
            FileAction::Write { save, content, entry } => {
                save_paths.push(save);
                contents.push(content);
                entries.push(entry);
            },
            FileAction::Fail { line } => {
                errors.push(line);
            },
        }
        proof {
            let oc = outcome_of(root@, arch@, records@[i as int]);
            match oc {
                Outcome::Skip => {
                    assert(sp0 + (Seq::<Seq<char>>::empty() + saves_of(
                        root@,
                        arch@,
                        records@,
                        i + 1,
                    )) =~= sp0 + saves_of(root@, arch@, records@, i + 1));
                    assert(co0 + (Seq::<Seq<char>>::empty() + contents_of(
                        root@,
                        arch@,
                        records@,
                        i + 1,
                    )) =~= co0 + contents_of(root@, arch@, records@, i + 1));
                    assert(en0 + (Seq::<Seq<char>>::empty() + entries_of(
                        root@,
                        arch@,
                        records@,
                        i + 1,
                    )) =~= en0 + entries_of(root@, arch@, records@, i + 1));
                    assert(er0 + (Seq::<Seq<char>>::empty() + errors_of(
                        root@,
                        arch@,
                        records@,
                        i + 1,
                    )) =~= er0 + errors_of(root@, arch@, records@, i + 1));
                },
                Outcome::Written { save, content, entry } => {
                    assert(save_paths.deep_view() =~~= sp0.push(save));
                    assert(contents.deep_view() =~~= co0.push(content));
                    assert(entries.deep_view() =~~= en0.push(entry));
                    assert(sp0 + (seq![save] + saves_of(root@, arch@, records@, i + 1)) =~= sp0.push(
                        save,
                    ) + saves_of(root@, arch@, records@, i + 1));
                    assert(co0 + (seq![content] + contents_of(root@, arch@, records@, i + 1))
                        =~= co0.push(content) + contents_of(root@, arch@, records@, i + 1));
                    assert(en0 + (seq![entry] + entries_of(root@, arch@, records@, i + 1))
                        =~= en0.push(entry) + entries_of(root@, arch@, records@, i + 1));
                    assert(er0 + (Seq::<Seq<char>>::empty() + errors_of(
                        root@,
                        arch@,
                        records@,
                        i + 1,
                    )) =~= er0 + errors_of(root@, arch@, records@, i + 1));
                },
                Outcome::Failed { line } => {
                    assert(errors.deep_view() =~~= er0.push(line));
                    assert(er0 + (seq![line] + errors_of(root@, arch@, records@, i + 1))
                        =~= er0.push(line) + errors_of(root@, arch@, records@, i + 1));
                    assert(sp0 + (Seq::<Seq<char>>::empty() + saves_of(
                        root@,
                        arch@,
                        records@,
                        i + 1,
                    )) =~= sp0 + saves_of(root@, arch@, records@, i + 1));
                    assert(co0 + (Seq::<Seq<char>>::empty() + contents_of(
                        root@,
                        arch@,
                        records@,
                        i + 1,
                    )) =~= co0 + contents_of(root@, arch@, records@, i + 1));
                    assert(en0 + (Seq::<Seq<char>>::empty() + entries_of(
                        root@,
                        arch@,
                        records@,
                        i + 1,
                    )) =~= en0 + entries_of(root@, arch@, records@, i + 1));
                },
            }
        }
        i += 1;
    }
    proof {
        assert(save_paths.deep_view() + Seq::<Seq<char>>::empty() =~= save_paths.deep_view());
        assert(contents.deep_view() + Seq::<Seq<char>>::empty() =~= contents.deep_view());
        assert(entries.deep_view() + Seq::<Seq<char>>::empty() =~= entries.deep_view());
        assert(errors.deep_view() + Seq::<Seq<char>>::empty() =~= errors.deep_view());
    }
    RunOutput { save_paths, contents, entries, errors }
}

proof fn lemma_outputs_shift(
    root: Seq<char>,
    arch: Seq<char>,
    recs: Seq<FileRecord>,
    i: int,
    k: int,
)
    requires
        0 <= i < recs.len(),
        i <= k <= recs.len() - 1,
    ensures
        saves_of(root, arch, recs.remove(i), k) == saves_of(root, arch, recs, k + 1),
        contents_of(root, arch, recs.remove(i), k) == contents_of(root, arch, recs, k + 1),
        entries_of(root, arch, recs.remove(i), k) == entries_of(root, arch, recs, k + 1),
        errors_of(root, arch, recs.remove(i), k) == errors_of(root, arch, recs, k + 1),
    decreases recs.len() - k,
{
    let rem = recs.remove(i);
    assert(rem.len() == recs.len() - 1);
    if k < recs.len() - 1 {
        assert(rem[k] == recs[k + 1]);
        lemma_outputs_shift(root, arch, recs, i, k + 1);
    }
}

proof fn lemma_outputs_remove_skip(
    root: Seq<char>,
    arch: Seq<char>,
    recs: Seq<FileRecord>,
    i: int,
    j: int,
)
    requires
        0 <= j <= i < recs.len(),
        outcome_of(root, arch, recs[i]) is Skip,
    ensures
        saves_of(root, arch, recs, j) == saves_of(root, arch, recs.remove(i), j),
        contents_of(root, arch, recs, j) == contents_of(root, arch, recs.remove(i), j),
        entries_of(root, arch, recs, j) == entries_of(root, arch, recs.remove(i), j),
        errors_of(root, arch, recs, j) == errors_of(root, arch, recs.remove(i), j),
    decreases i - j,
{
    let rem = recs.remove(i);
    if j == i {
        lemma_outputs_shift(root, arch, recs, i, j);
        assert(Seq::<Seq<char>>::empty() + saves_of(root, arch, recs, i + 1) =~= saves_of(
            root,
            arch,
            recs,
            i + 1,
        ));
        assert(Seq::<Seq<char>>::empty() + contents_of(root, arch, recs, i + 1) =~= contents_of(
            root,
            arch,
            recs,
            i + 1,
        ));
        assert(Seq::<Seq<char>>::empty() + entries_of(root, arch, recs, i + 1) =~= entries_of(
            root,
            arch,
            recs,
            i + 1,
        ));
        assert(Seq::<Seq<char>>::empty() + errors_of(root, arch, recs, i + 1) =~= errors_of(
            root,
            arch,
            recs,
            i + 1,
        ));
    } else {
        assert(rem[j] == recs[j]);
        lemma_outputs_remove_skip(root, arch, recs, i, j + 1);
    }
}

/// Skip silence: a record whose path classifies as nothing contributes no
/// mirrored file, no summary entry and no error line; every output of the
/// run is exactly what the run without that record produces.
pub proof fn lemma_skip_silence(root: Seq<char>, arch: Seq<char>, recs: Seq<FileRecord>, i: int)
    requires
        0 <= i < recs.len(),
        classify_spec(recs[i].path@) is None,
    ensures
        saves_of(root, arch, recs, 0) == saves_of(root, arch, recs.remove(i), 0),
        contents_of(root, arch, recs, 0) == contents_of(root, arch, recs.remove(i), 0),
        entries_of(root, arch, recs, 0) == entries_of(root, arch, recs.remove(i), 0),
        errors_of(root, arch, recs, 0) == errors_of(root, arch, recs.remove(i), 0),
{
    lemma_outputs_remove_skip(root, arch, recs, i, 0);
}

proof fn lemma_outputs_contains(
    root: Seq<char>,
    arch: Seq<char>,
    recs: Seq<FileRecord>,
    k: int,
    j: int,
)
    requires
        0 <= k <= j < recs.len(),
    ensures
        outcome_of(root, arch, recs[j]) matches Outcome::Written { save, content, entry } ==> {
            &&& saves_of(root, arch, recs, k).contains(save)
            &&& contents_of(root, arch, recs, k).contains(content)
            &&& entries_of(root, arch, recs, k).contains(entry)
        },
        outcome_of(root, arch, recs[j]) matches Outcome::Failed { line } ==> errors_of(
            root,
            arch,
            recs,
            k,
        ).contains(line),
    decreases j - k,
{
    if k == j {
        match outcome_of(root, arch, recs[j]) {
            Outcome::Written { save, content, entry } => {
                assert(saves_of(root, arch, recs, k)[0] == save);
                assert(contents_of(root, arch, recs, k)[0] == content);
                assert(entries_of(root, arch, recs, k)[0] == entry);
            },
            Outcome::Failed { line } => {
                assert(errors_of(root, arch, recs, k)[0] == line);
            },
            Outcome::Skip => {},
        }
    } else {
        lemma_outputs_contains(root, arch, recs, k + 1, j);
        match outcome_of(root, arch, recs[j]) {
            Outcome::Written { save, content, entry } => {
                let ps = saves_of(root, arch, recs, k + 1);
                let pc = contents_of(root, arch, recs, k + 1);
                let pe = entries_of(root, arch, recs, k + 1);
                let is = choose|m: int| 0 <= m < ps.len() && ps[m] == save;
                let ic = choose|m: int| 0 <= m < pc.len() && pc[m] == content;
                let ie = choose|m: int| 0 <= m < pe.len() && pe[m] == entry;
                assert(saves_of(root, arch, recs, k)[saves_of(root, arch, recs, k).len() - ps.len()
                    + is] == save);
                assert(contents_of(root, arch, recs, k)[contents_of(root, arch, recs, k).len()
                    - pc.len() + ic] == content);
                assert(entries_of(root, arch, recs, k)[entries_of(root, arch, recs, k).len()
                    - pe.len() + ie] == entry);
            },
            Outcome::Failed { line } => {
                let pr = errors_of(root, arch, recs, k + 1);
                let ir = choose|m: int| 0 <= m < pr.len() && pr[m] == line;
                assert(errors_of(root, arch, recs, k)[errors_of(root, arch, recs, k).len()
                    - pr.len() + ir] == line);
            },
            Outcome::Skip => {},
        }
    }
}

/// Error isolation: whatever happens to the other files of a run, a record
/// that reads and parses cleanly keeps its mirrored file, its content and
/// its summary entry among the outputs, and a record that fails keeps its
/// line in the error log.
pub proof fn lemma_error_isolation(
    root: Seq<char>,
    arch: Seq<char>,
    recs: Seq<FileRecord>,
    j: int,
)
    requires
        0 <= j < recs.len(),
    ensures
        outcome_of(root, arch, recs[j]) matches Outcome::Written { save, content, entry } ==> {
            &&& saves_of(root, arch, recs, 0).contains(save)
            &&& contents_of(root, arch, recs, 0).contains(content)
            &&& entries_of(root, arch, recs, 0).contains(entry)
        },
        outcome_of(root, arch, recs[j]) matches Outcome::Failed { line } ==> errors_of(
            root,
            arch,
            recs,
            0,
        ).contains(line),
{
    lemma_outputs_contains(root, arch, recs, 0, j);
}

} // verus!
