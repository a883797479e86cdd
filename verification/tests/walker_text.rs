use code_skim::lang::extension;
use code_skim::text::{indent4, is_blank, split_lines, str_chars, trim, trim_end};
use code_skim::walker::{collect_files, name_excluded, render_tree, FsTree};

fn cv(s: &str) -> Vec<char> {
    str_chars(s)
}

fn sv(v: &Vec<char>) -> String {
    v.iter().collect()
}

fn file(name: &str) -> FsTree {
    FsTree {
        name: cv(name),
        is_dir: false,
        children: Vec::new(),
    }
}

fn dir(name: &str, children: Vec<FsTree>) -> FsTree {
    FsTree {
        name: cv(name),
        is_dir: true,
        children,
    }
}

#[test]
fn trim_end_removes_trailing_whitespace() {
    assert_eq!(sv(&trim_end(&cv("abc \n\t "))), "abc");
    assert_eq!(sv(&trim_end(&cv(""))), "");
    assert_eq!(sv(&trim_end(&cv("  a"))), "  a");
}

#[test]
fn trim_removes_both_ends() {
    assert_eq!(sv(&trim(&cv("  abc  "))), "abc");
    assert_eq!(sv(&trim(&cv("\t\n"))), "");
}

#[test]
fn is_blank_on_whitespace_only() {
    assert!(is_blank(&cv(" \t\n")));
    assert!(!is_blank(&cv(" x ")));
    assert!(is_blank(&cv("")));
}

#[test]
fn split_lines_like_line_iterator() {
    let ls = split_lines(&cv("a\nb\r\nc"));
    let got: Vec<String> = ls.iter().map(sv).collect();
    assert_eq!(got, vec!["a".to_string(), "b".to_string(), "c".to_string()]);
    let ls2 = split_lines(&cv("a\n\n"));
    let got2: Vec<String> = ls2.iter().map(sv).collect();
    assert_eq!(got2, vec!["a".to_string(), "".to_string()]);
}

#[test]
fn indent4_prefixes_every_line() {
    assert_eq!(sv(&indent4(&cv("a\nb"))), "    a\n    b\n");
    assert_eq!(sv(&indent4(&cv(""))), "");
}

#[test]
fn extension_rules() {
    assert_eq!(extension(&cv("/r/a.py")).map(|v| sv(&v)), Some("py".to_string()));
    assert_eq!(extension(&cv("/r/a.tar.gz")).map(|v| sv(&v)), Some("gz".to_string()));
    assert_eq!(extension(&cv("/r/.gitignore")).map(|v| sv(&v)), None);
    assert_eq!(extension(&cv("/r/none")).map(|v| sv(&v)), None);
}

#[test]
fn excluded_names_recognized() {
    assert!(name_excluded(&cv("node_modules")));
    assert!(name_excluded(&cv("__pycache__")));
    assert!(name_excluded(&cv(".git")));
    assert!(!name_excluded(&cv("src")));
    assert!(!name_excluded(&cv("a.py")));
}

#[test]
fn rendered_tree_sorted_and_pruned() {
    let root = dir(
        "root",
        vec![
            dir("node_modules", vec![file("x.js")]),
            dir("src", vec![file("a.py")]),
            dir(".git", vec![]),
            file("b.txt"),
        ],
    );
    let out = sv(&render_tree(&root, &Vec::new(), true));
    assert_eq!(
        out,
        "└── root\n    ├── b.txt\n    └── src\n        └── a.py\n"
    );
    assert!(!out.contains("node_modules"));
    assert!(!out.contains(".git"));
}

#[test]
fn collection_ignores_no_directory() {
    // the pruning applies to the rendering only: files under noise
    // directories are still collected for processing
    let root = dir(
        "root",
        vec![
            dir("node_modules", vec![file("x.js")]),
            dir("src", vec![file("a.py")]),
            file("b.txt"),
        ],
    );
    let files = collect_files(&root, &Vec::new());
    let got: Vec<String> = files.iter().map(sv).collect();
    assert_eq!(
        got,
        vec![
            "root/node_modules/x.js".to_string(),
            "root/src/a.py".to_string(),
            "root/b.txt".to_string(),
        ]
    );
}

#[test]
fn rendering_orders_names_lexicographically() {
    let root = dir("r", vec![file("zeta"), file("alpha"), file("mid")]);
    let out = sv(&render_tree(&root, &Vec::new(), true));
    assert_eq!(out, "└── r\n    ├── alpha\n    ├── mid\n    └── zeta\n");
}

#[test]
fn rendering_single_file_root() {
    let out = sv(&render_tree(&file("only.txt"), &Vec::new(), true));
    assert_eq!(out, "└── only.txt\n");
}
