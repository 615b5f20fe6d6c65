use tali::language::Language;

#[test]
fn language_test_from_extension() {
    assert_eq!(Language::from_extension("rs"), Language::Rust);
    assert_eq!(Language::from_extension("cpp"), Language::CPP);
    assert_eq!(Language::from_extension("py"), Language::Python);
    assert_eq!(
        Language::from_extension("unknown_ext"),
        Language::Unknown("unknown_ext".to_string())
    );
}

#[test]
fn language_test_from_path() {
    assert_eq!(Language::from_path("main.rs"), Language::Rust);
    assert_eq!(Language::from_path("script.py"), Language::Python);
    assert_eq!(Language::from_path("index.html"), Language::HTML);
    assert_eq!(Language::from_path("/no_extension"), Language::Text);
}

#[test]
fn extensions_fold_case_before_lookup() {
    assert_eq!(Language::from_extension("RS"), Language::Rust);
    assert_eq!(Language::from_extension("Md"), Language::Markdown);
    assert_eq!(Language::from_path("UPPER.TXT"), Language::Text);
}

#[test]
fn hidden_files_and_trailing_dots() {
    assert_eq!(Language::from_path(".gitignore"), Language::Text);
    assert_eq!(Language::from_path("dir/.hidden"), Language::Text);
    assert_eq!(Language::from_path("odd."), Language::Unknown("".to_string()));
}

#[test]
fn names_and_colors_come_from_the_table() {
    assert_eq!(Language::Rust.color(), (255, 165, 0));
    assert_eq!(Language::Unknown("zig".to_string()).color(), (127, 127, 127));
    assert_eq!(Language::CPP.name(), "C++");
    assert_eq!(Language::CSharp.name(), "C#");
    assert_eq!(Language::Unknown("zig".to_string()).name(), ".zig");
    assert_eq!(Language::Rust.name(), "Rust");
}
