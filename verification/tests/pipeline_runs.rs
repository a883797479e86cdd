use code_skim::lang::{classify, Lang};
use code_skim::pipeline::{
    make_arch_dir_name, normalize_path, plan_file, read_error_line, rel_path, run_pipeline,
    save_path, summary_entry, FileAction, FileRecord, RunOutput,
};
use code_skim::text::str_chars;

fn cv(s: &str) -> Vec<char> {
    str_chars(s)
}

fn sv(v: &Vec<char>) -> String {
    v.iter().collect()
}

#[test]
fn classify_known_extensions() {
    assert!(matches!(classify(&cv("/r/a.py")), Some(Lang::Python)));
    assert!(matches!(classify(&cv("/r/a.js")), Some(Lang::JavaScript)));
    assert!(matches!(classify(&cv("/r/a.ts")), Some(Lang::TypeScript)));
    assert!(matches!(classify(&cv("/r/a.rs")), Some(Lang::Rust)));
    assert!(matches!(classify(&cv("/r/a.java")), Some(Lang::Java)));
    assert!(matches!(classify(&cv("/r/a.kt")), Some(Lang::Kotlin)));
}

#[test]
fn classify_unknown_extension_is_none() {
    assert!(classify(&cv("/r/notes.txt")).is_none());
    assert!(classify(&cv("/r/no_extension")).is_none());
    assert!(classify(&cv("/r/.gitignore")).is_none());
}

#[test]
fn classify_language_without_segmenter_is_none() {
    // in the table, but no segmenter registered
    assert!(classify(&cv("/r/a.cobol")).is_none());
    assert!(classify(&cv("/r/a.go")).is_none());
    assert!(classify(&cv("/r/a.rb")).is_none());
}

#[test]
fn txt_file_appears_nowhere() {
    let records = vec![FileRecord {
        path: cv("/r/notes.txt"),
        read: Ok(cv("just some text")),
    }];
    let out: RunOutput = run_pipeline(&cv("/r"), &cv("/out"), &records);
    assert_eq!(out.save_paths.len(), 0);
    assert_eq!(out.contents.len(), 0);
    assert_eq!(out.entries.len(), 0);
    assert_eq!(out.errors.len(), 0);
}

#[test]
fn unreadable_file_logged_siblings_processed() {
    let records = vec![
        FileRecord {
            path: cv("/r/x.rs"),
            read: Err(cv("permission denied")),
        },
        FileRecord {
            path: cv("/r/y.py"),
            read: Ok(cv("def f():\n    return 1\n")),
        },
    ];
    let out = run_pipeline(&cv("/r"), &cv("/out"), &records);
    assert_eq!(out.errors.len(), 1);
    assert_eq!(
        sv(&out.errors[0]),
        "Error reading file /r/x.rs: permission denied\n"
    );
    assert_eq!(out.save_paths.len(), 1);
    assert_eq!(sv(&out.save_paths[0]), "/out/y.py");
    assert_eq!(sv(&out.contents[0]), "def f():\n    pass\n");
    assert_eq!(
        sv(&out.entries[0]),
        "\ny.py\n\ndef f():\n    pass\n\n.................................................................\n"
    );
}

#[test]
fn parse_failure_logged_and_skipped() {
    let records = vec![FileRecord {
        path: cv("/r/bad.py"),
        read: Ok(cv("def def def (((")),
    }];
    let out = run_pipeline(&cv("/r"), &cv("/out"), &records);
    assert_eq!(out.save_paths.len(), 0);
    assert_eq!(out.entries.len(), 0);
    assert_eq!(out.errors.len(), 1);
    assert_eq!(sv(&out.errors[0]), "Error parsing file /r/bad.py\n");
}

#[test]
fn plan_file_matches_run_pipeline() {
    let rec = FileRecord {
        path: cv("/r/y.py"),
        read: Ok(cv("def f():\n    return 1\n")),
    };
    match plan_file(&cv("/r"), &cv("/out"), &rec) {
        FileAction::Write {
            save,
            content,
            entry,
        } => {
            assert_eq!(sv(&save), "/out/y.py");
            assert_eq!(sv(&content), "def f():\n    pass\n");
            assert!(sv(&entry).starts_with("\ny.py\n\n"));
        }
        _ => panic!("expected a write action"),
    }
}

#[test]
fn rel_path_strips_root() {
    assert_eq!(sv(&rel_path(&cv("/r"), &cv("/r/sub/a.py"))), "sub/a.py");
    assert_eq!(sv(&rel_path(&cv("/r"), &cv("/elsewhere/a.py"))), "/elsewhere/a.py");
    assert_eq!(sv(&rel_path(&cv("/r"), &cv("/r"))), "/r");
}

#[test]
fn save_path_joins_arch_and_relative() {
    assert_eq!(
        sv(&save_path(&cv("/out"), &cv("/r"), &cv("/r/sub/a.py"))),
        "/out/sub/a.py"
    );
}

#[test]
fn summary_entry_format() {
    assert_eq!(
        sv(&summary_entry(&cv("a.py"), &cv("def f():\n    pass"))),
        "\na.py\n\ndef f():\n    pass\n.................................................................\n"
    );
}

#[test]
fn read_error_line_format() {
    assert_eq!(
        sv(&read_error_line(&cv("/r/a.py"), &cv("boom"))),
        "Error reading file /r/a.py: boom\n"
    );
}

#[test]
fn arch_dir_name_shape() {
    let name = make_arch_dir_name();
    assert_eq!(name.len(), 12);
    assert!(name.starts_with("_arch_"));
    for c in name[6..].chars() {
        assert!(c.is_ascii_alphanumeric());
    }
}

#[test]
fn arch_dir_names_are_random_suffixes() {
    // two draws agreeing 10 times in a row would be astonishing
    let mut all_equal = true;
    for _ in 0..10 {
        if make_arch_dir_name() != make_arch_dir_name() {
            all_equal = false;
        }
    }
    assert!(!all_equal);
}

#[test]
fn normalize_path_prefers_resolved() {
    assert_eq!(normalize_path("a/../b", Some("/abs/b")), "/abs/b");
    assert_eq!(normalize_path("a/../b", None), "a/../b");
}
