//! The dispatch table: extension to language to segmenter.
//!
//! Extensions map to language identifiers; a language with a registered
//! segmenter is a `Lang` variant.  An extension outside the table, or a
//! language without a segmenter, classifies as nothing at all: such files
//! are skipped silently.

use vstd::prelude::*;
use crate::text::chars_eq_str;
use crate::text::str_chars;

verus! {

/// The closed set of languages with a registered segmenter.
pub enum Lang {
    Python,
    JavaScript,
    TypeScript,
    Rust,
    Java,
    Kotlin,
}

/// Index of the last `c` in `s`, or `-1` when absent.
pub open spec fn last_idx_of(s: Seq<char>, c: char) -> int
    decreases s.len(),
{
    if s.len() == 0 {
        -1
    } else if s.last() == c {
        s.len() - 1
    } else {
        last_idx_of(s.drop_last(), c)
    }
}

/// The file name part of a `/`-separated path: what follows the last
/// separator.
pub open spec fn file_name_of(path: Seq<char>) -> Seq<char> {
    path.subrange(last_idx_of(path, '/') + 1, path.len() as int)
}

/// The extension of a path: what follows the last dot of the file name,
/// unless the only dot is the leading one of a hidden file.
pub open spec fn extension_of(path: Seq<char>) -> Option<Seq<char>> {
    let name = file_name_of(path);
    let d = last_idx_of(name, '.');
    if d <= 0 {
        None
    } else {
        Some(name.subrange(d + 1, name.len() as int))
    }
}

/// The fixed extension table: extension to language identifier.
pub open spec fn ext_to_language(ext: Seq<char>) -> Option<Seq<char>> {
    if ext == "py"@ {
        Some("python"@)
    } else if ext == "js"@ {
        Some("js"@)
    } else if ext == "cobol"@ {
        Some("cobol"@)
    } else if ext == "c"@ {
        Some("c"@)
    } else if ext == "cpp"@ {
        Some("cpp"@)
    } else if ext == "cs"@ {
        Some("csharp"@)
    } else if ext == "rb"@ {
        Some("ruby"@)
    } else if ext == "scala"@ {
        Some("scala"@)
    } else if ext == "rs"@ {
        Some("rust"@)
    } else if ext == "go"@ {
        Some("go"@)
    } else if ext == "kt"@ {
        Some("kotlin"@)
    } else if ext == "lua"@ {
        Some("lua"@)
    } else if ext == "pl"@ {
        Some("perl"@)
    } else if ext == "ts"@ {
        Some("ts"@)
    } else if ext == "java"@ {
        Some("java"@)
    } else if ext == "php"@ {
        Some("php"@)
    } else if ext == "ex"@ {
        Some("elixir"@)
    } else if ext == "exs"@ {
        Some("elixir"@)
    } else {
        None
    }
}

/// The registered segmenters, by language identifier.  The other table
/// languages have none and are skipped exactly like unknown extensions.
pub open spec fn lang_for(id: Seq<char>) -> Option<Lang> {
    if id == "python"@ {
        Some(Lang::Python)
    } else if id == "js"@ {
        Some(Lang::JavaScript)
    } else if id == "ts"@ {
        Some(Lang::TypeScript)
    } else if id == "rust"@ {
        Some(Lang::Rust)
    } else if id == "java"@ {
        Some(Lang::Java)
    } else if id == "kotlin"@ {
        Some(Lang::Kotlin)
    } else {
        None
    }
}

/// How a path classifies: through its extension to a language that has a
/// segmenter, or not at all.
pub open spec fn classify_spec(path: Seq<char>) -> Option<Lang> {
    match extension_of(path) {
        None => None,
        Some(e) => match ext_to_language(e) {
            None => None,
            Some(id) => lang_for(id),
        },
    }
}

fn find_last(s: &Vec<char>, c: char) -> (r: Option<usize>)
    ensures
        match r {
            Some(i) => i == last_idx_of(s@, c) && i < s@.len(),
            None => last_idx_of(s@, c) == -1,
        },
{
    let mut e: usize = s.len();
    proof {
        assert(s@.subrange(0, s@.len() as int) =~= s@);
    }
    while e > 0 && s[e - 1] != c
        invariant
            e <= s@.len(),
            last_idx_of(s@, c) == last_idx_of(s@.subrange(0, e as int), c),
        decreases e,
    {
        proof {
            assert(s@.subrange(0, e as int).drop_last() =~= s@.subrange(0, e - 1 as int));
        }
        e -= 1;
    }
    if e == 0 {
        proof {
            assert(s@.subrange(0, 0) =~= Seq::<char>::empty());
        }
        None
    } else {
        proof {
            assert(s@.subrange(0, e as int).last() == s@[e - 1 as int]);
        }
        Some(e - 1)
    }
}

/// The extension of a path, as the table looks it up.
pub fn extension(path: &Vec<char>) -> (r: Option<Vec<char>>)
    ensures
        match r {
            Some(v) => extension_of(path@) == Some(v@),
            None => extension_of(path@) is None,
        },
{
    let _n = path.len();
    let start: usize = match find_last(path, '/') {
        Some(i) => i + 1,
        None => 0,
    };
    let name = crate::text::copy_range(path, start, path.len());
    proof {
        assert(name@ == file_name_of(path@));
    }
    match find_last(&name, '.') {
        Some(d) => {
            if d == 0 {
                None
            } else {
                Some(crate::text::copy_range(&name, d + 1, name.len()))
            }
        },
        None => None,
    }
}

/// Look an extension up in the extension table.
pub fn language_of_extension(e: &Vec<char>) -> (r: Option<Vec<char>>)
    ensures
        match r {
            Some(id) => ext_to_language(e@) == Some(id@),
            None => ext_to_language(e@) is None,
        },
{
    if chars_eq_str(e, "py") {
        Some(str_chars("python"))
    } else if chars_eq_str(e, "js") {
        Some(str_chars("js"))
    } else if chars_eq_str(e, "cobol") {
        Some(str_chars("cobol"))
    } else if chars_eq_str(e, "c") {
        Some(str_chars("c"))
    } else if chars_eq_str(e, "cpp") {
        Some(str_chars("cpp"))
    } else if chars_eq_str(e, "cs") {
        Some(str_chars("csharp"))
    } else if chars_eq_str(e, "rb") {
        Some(str_chars("ruby"))
    } else if chars_eq_str(e, "scala") {
        Some(str_chars("scala"))
    } else if chars_eq_str(e, "rs") {
        Some(str_chars("rust"))
    } else if chars_eq_str(e, "go") {
        Some(str_chars("go"))
    } else if chars_eq_str(e, "kt") {
        Some(str_chars("kotlin"))
    } else if chars_eq_str(e, "lua") {
        Some(str_chars("lua"))
    } else if chars_eq_str(e, "pl") {
        Some(str_chars("perl"))
    } else if chars_eq_str(e, "ts") {
        Some(str_chars("ts"))
    } else if chars_eq_str(e, "java") {
        Some(str_chars("java"))
    } else if chars_eq_str(e, "php") {
        Some(str_chars("php"))
    } else if chars_eq_str(e, "ex") {
        Some(str_chars("elixir"))
    } else if chars_eq_str(e, "exs") {
        Some(str_chars("elixir"))
    } else {
        None
    }
}

/// Look a language identifier up among the registered segmenters.
pub fn segmenter_for(id: &Vec<char>) -> (r: Option<Lang>)
    ensures
        r == lang_for(id@),
{
    if chars_eq_str(id, "python") {
        Some(Lang::Python)
    } else if chars_eq_str(id, "js") {
        Some(Lang::JavaScript)
    } else if chars_eq_str(id, "ts") {
        Some(Lang::TypeScript)
    } else if chars_eq_str(id, "rust") {
        Some(Lang::Rust)
    } else if chars_eq_str(id, "java") {
        Some(Lang::Java)
    } else if chars_eq_str(id, "kotlin") {
        Some(Lang::Kotlin)
    } else {
        None
    }
}

/// Classify a path through the dispatch table.
pub fn classify(path: &Vec<char>) -> (r: Option<Lang>)
    ensures
        r == classify_spec(path@),
{
    match extension(path) {
        None => None,
        Some(e) => {
            match language_of_extension(&e) {
                None => None,
                Some(id) => segmenter_for(&id),
            }
        },
    }
}

/// What simplification yields for a classified source text, per language.
pub open spec fn segment_spec(lang: Lang, code: Seq<char>) -> Option<Seq<char>> {
    match lang {
        Lang::Python => crate::python::py_simplify_spec(code),
        Lang::JavaScript => crate::javascript::js_simplify_spec(code),
        Lang::TypeScript => crate::typescript::ts_simplify_spec(code),
        Lang::Rust => crate::rust::rs_simplify_spec(code),
        Lang::Java => crate::java::java_simplify_spec(code),
        Lang::Kotlin => crate::kotlin::kt_simplify_spec(code),
    }
}

/// Run the language's segmenter on a source text: the simplified text, or
/// nothing on a parse failure.  The result is a pure function of language
/// and text.
pub fn segment(lang: Lang, code: &str) -> (r: Option<String>)
    ensures
        match r {
            Some(s) => segment_spec(lang, code@) == Some(s@),
            None => segment_spec(lang, code@) is None,
        },
{
    match lang {
        Lang::Python => {
            match crate::python::PythonSegmenter::new(code) {
                Some(s) => Some(s.simplify_code()),
                None => None,
            }
        },
        Lang::JavaScript => {
            match crate::javascript::JavaScriptSegmenter::new(code) {
                Some(s) => Some(s.simplify_code()),
                None => None,
            }
        },
        Lang::TypeScript => {
            match crate::typescript::TypeScriptSegmenter::new(code) {
                Some(s) => Some(s.simplify_code()),
                None => None,
            }
        },
        Lang::Rust => {
            match crate::rust::RustSegmenter::new(code) {
                Some(s) => Some(s.simplify_code()),
                None => None,
            }
        },
        Lang::Java => {
            match crate::java::JavaSegmenter::new(code) {
                Some(s) => Some(s.simplify_code()),
                None => None,
            }
        },
        Lang::Kotlin => {
            match crate::kotlin::KotlinSegmenter::new(code) {
                Some(s) => Some(s.simplify_code()),
                None => None,
            }
        },
    }
}

/// Determinism: simplification is a pure function of language and source
/// text; two results for the same input are byte-identical.
pub proof fn lemma_segment_deterministic(lang: Lang, code: Seq<char>, a: Seq<char>, b: Seq<char>)
    requires
        segment_spec(lang, code) == Some(a),
        segment_spec(lang, code) == Some(b),
    ensures
        a == b,
{
}

} // verus!
