use code_skim::python::PythonSegmenter;
use code_skim::javascript::JavaScriptSegmenter;
use code_skim::typescript::TypeScriptSegmenter;
use code_skim::rust::RustSegmenter;
use code_skim::java::JavaSegmenter;
use code_skim::kotlin::KotlinSegmenter;
use code_skim::lang::{segment, Lang};

#[test]
fn python_class_with_init_and_method() {
    let code = "class Foo:\n    def __init__(self, x):\n        self.x = x\n    def bar(self):\n        return self.x * 2\n";
    let seg = PythonSegmenter::new(code).expect("parse");
    let out = seg.simplify_code();
    assert_eq!(
        out,
        "class Foo:\n    def __init__(self, x):\n        self.x = x\n    def bar(self):\n        pass\n"
    );
}

#[test]
fn python_top_level_function_stubbed() {
    let seg = PythonSegmenter::new("def f(a, b):\n    return a + b\n").expect("parse");
    assert_eq!(seg.simplify_code(), "def f(a, b):\n    pass\n");
}

#[test]
fn python_async_function_keeps_async_keyword() {
    let seg = PythonSegmenter::new("async def go():\n    return 1\n").expect("parse");
    assert_eq!(seg.simplify_code(), "async def go():\n    pass\n");
}

#[test]
fn python_decorated_function_keeps_decorator() {
    let seg = PythonSegmenter::new("@deco\ndef f():\n    return 1\n").expect("parse");
    assert_eq!(seg.simplify_code(), "@deco\ndef f():\n    pass\n");
}

#[test]
fn python_imports_kept_verbatim() {
    let seg = PythonSegmenter::new("import os\n\ndef f():\n    return os\n").expect("parse");
    assert_eq!(seg.simplify_code(), "import os\ndef f():\n    pass\n");
}

#[test]
fn python_parse_failure_reported_not_panicking() {
    assert!(PythonSegmenter::new("def def def (((").is_none());
}

#[test]
fn python_simplify_is_deterministic() {
    let code = "class A:\n    def m(self):\n        return 3\n";
    let a = PythonSegmenter::new(code).expect("parse").simplify_code();
    let b = PythonSegmenter::new(code).expect("parse").simplify_code();
    assert_eq!(a, b);
}

#[test]
fn python_body_statements_absent_from_stub() {
    let code = "def f():\n    secret_marker_value = 42\n    return secret_marker_value\n";
    let out = PythonSegmenter::new(code).expect("parse").simplify_code();
    assert!(!out.contains("secret_marker_value"));
    assert!(out.contains("def f():"));
}

#[test]
fn javascript_function_stubbed() {
    let seg = JavaScriptSegmenter::new("function add(a, b) { return a + b; }\n").expect("parse");
    assert_eq!(
        seg.simplify_code(),
        "function add(a, b)  {\n    // implementation\n}"
    );
}

#[test]
fn javascript_class_methods_stubbed() {
    let code = "class C {\n  m(x) { return x; }\n}\n";
    let out = JavaScriptSegmenter::new(code).expect("parse").simplify_code();
    assert!(out.starts_with("class C {\n"));
    assert!(out.contains("function m(x)"));
    assert!(!out.contains("return x"));
}

#[test]
fn javascript_parse_failure_reported() {
    assert!(JavaScriptSegmenter::new("function ((((").is_none());
}

#[test]
fn typescript_constructor_body_kept() {
    let code = "class C {\n  constructor(x: number) { this.x = x; }\n  get(): number { return this.x; }\n}\n";
    let out = TypeScriptSegmenter::new(code).expect("parse").simplify_code();
    assert!(out.contains("{ this.x = x; }"));
    assert!(!out.contains("return this.x"));
}

#[test]
fn typescript_function_stubbed() {
    let out = TypeScriptSegmenter::new("function f(a: number): number { return a; }\n")
        .expect("parse")
        .simplify_code();
    assert_eq!(out, "function f(a: number){ }");
}

#[test]
fn rust_function_signature_kept_body_gone() {
    let seg = RustSegmenter::new("fn add(a: i32, b: i32) -> i32 { a + b }\n").expect("parse");
    assert_eq!(seg.simplify_code(), "fn add(a: i32, b: i32) -> i32;");
}

#[test]
fn rust_struct_fields_kept() {
    let seg = RustSegmenter::new("struct P {\n    x: i32,\n}\n").expect("parse");
    assert_eq!(seg.simplify_code(), "struct P {\n    x: i32,\n}");
}

#[test]
fn rust_impl_methods_stubbed() {
    let seg =
        RustSegmenter::new("impl P {\n    fn get(&self) -> i32 { self.x }\n}\n").expect("parse");
    assert_eq!(seg.simplify_code(), "impl P {\n    fn get(&self) -> i32;\n}");
}

#[test]
fn rust_mod_reduced_to_declaration() {
    let seg = RustSegmenter::new("mod foo;\n").expect("parse");
    assert_eq!(seg.simplify_code(), "mod foo;");
}

#[test]
fn java_class_field_kept_method_stubbed() {
    let code = "class A { int x; int get() { return x; } }";
    let out = JavaSegmenter::new(code).expect("parse").simplify_code();
    assert!(out.starts_with("class A {\n"));
    assert!(out.contains("int x;"));
    assert!(out.contains("int get();"));
    assert!(!out.contains("return x"));
}

#[test]
fn java_constructor_kept_verbatim() {
    let code = "class A { A() { } }";
    let out = JavaSegmenter::new(code).expect("parse").simplify_code();
    assert!(out.contains("// Constructor implementation"));
    assert!(out.contains("A() { }"));
}

#[test]
fn kotlin_function_reduced_to_header() {
    let code = "class A {\n    fun f(x: Int): Int { return x }\n}\n";
    let out = KotlinSegmenter::new(code).expect("parse").simplify_code();
    assert!(out.starts_with("class A {\n"));
    assert!(out.contains("f(x: Int);"));
    assert!(!out.contains("return x"));
}

#[test]
fn segment_dispatch_matches_segmenters() {
    let code = "def f():\n    return 1\n";
    let via_dispatch = segment(Lang::Python, code).expect("parse");
    let direct = PythonSegmenter::new(code).expect("parse").simplify_code();
    assert_eq!(via_dispatch, direct);
}

#[test]
fn segment_dispatch_is_deterministic() {
    let code = "function f() { return 1; }\n";
    let a = segment(Lang::JavaScript, code).expect("parse");
    let b = segment(Lang::JavaScript, code).expect("parse");
    assert_eq!(a, b);
}

#[test]
fn kotlin_secondary_constructor_kept_verbatim() {
    let code = "class A {\n    var x: Int = 0\n    constructor(y: Int) { x = y }\n}\n";
    match KotlinSegmenter::new(code) {
        Some(seg) => {
            let out = seg.simplify_code();
            assert!(out.contains("// Constructor implementation"));
            assert!(out.contains("constructor(y: Int) { x = y }"));
            assert!(out.contains("var x: Int = 0"));
        }
        None => panic!("expected a clean parse"),
    }
}

#[test]
fn javascript_export_unwrapped() {
    let out = JavaScriptSegmenter::new("export function f() { return 1; }\n")
        .expect("parse")
        .simplify_code();
    assert!(out.contains("export function f()"));
    assert!(!out.contains("return 1"));
}

#[test]
fn javascript_lexical_declaration_elided() {
    let out = JavaScriptSegmenter::new("const x = 5;\n").expect("parse").simplify_code();
    assert_eq!(out, ";");
}

#[test]
fn typescript_var_declaration_without_declarators_field_is_empty() {
    let out = TypeScriptSegmenter::new("var x = 5;\n").expect("parse").simplify_code();
    assert_eq!(out, "");
}

#[test]
fn java_package_and_imports_kept() {
    let code = "package a.b;\nimport c.d;\nclass A { }";
    let out = JavaSegmenter::new(code).expect("parse").simplify_code();
    assert!(out.contains("package a.b;"));
    assert!(out.contains("import c.d;"));
}

#[test]
fn javascript_class_constructor_kept_verbatim() {
    let code = "class C {\n  constructor(x) { this.x = x; }\n  m() { return 2; }\n}\n";
    let out = JavaScriptSegmenter::new(code).expect("parse").simplify_code();
    assert!(out.contains("constructor(x) { this.x = x; }"));
    assert!(!out.contains("return 2"));
}

#[test]
fn javascript_default_export_function_stubbed() {
    let out = JavaScriptSegmenter::new("export default function f() { return 1; }\n")
        .expect("parse")
        .simplify_code();
    assert!(out.contains("export default function f()"));
    assert!(!out.contains("return 1"));
}

#[test]
fn javascript_default_export_identifier_kept() {
    let out = JavaScriptSegmenter::new("export default g;\n").expect("parse").simplify_code();
    assert!(out.contains("export default g"));
}
