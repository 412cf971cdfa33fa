use vscode_generator::gen_unique_name;

#[test]
fn unique_name_has_the_asked_length() {
    for len in [0usize, 1, 6, 16, 32] {
        let name = gen_unique_name(len);
        assert_eq!(name.chars().count(), len);
    }
}

#[test]
fn unique_name_is_lowercase_hex() {
    let name = gen_unique_name(32);
    assert!(name.chars().all(|c| c.is_ascii_hexdigit() && !c.is_ascii_uppercase()));
}

#[test]
fn readme_accumulates_sections() {
    let mut readme = vscode_generator::Readme::new("Title", "Descr");
    assert_eq!(readme.value, "# Title\n## Descr");
    readme.add_line("first section");
    readme.add_line("second section");
    assert_eq!(readme.value, "# Title\n## Descr\n\nfirst section\n\nsecond section");
}

#[test]
fn contributes_collects_registered_entries() {
    let mut c = vscode_generator::Contributes::new();
    assert!(c.snippets.is_empty());
    c.reg_snippets(vscode_generator::SnippetsContribute::new("rust", "text.code-snippets"));
    assert_eq!(c.snippets.len(), 1);
    assert_eq!(c.snippets[0].language, "rust");
    assert_eq!(c.snippets[0].path, "snippets/text.code-snippets");
}

#[test]
fn engines_default_constraint() {
    let e = vscode_generator::Engines::default();
    assert_eq!(e.vscode.as_str(), "^1.90.0");
    let v = vscode_generator::Version::parse("1.0.0").unwrap();
    let e = vscode_generator::Engines::new(v);
    assert_eq!(e.vscode.as_str(), "1.0.0");
}

#[test]
fn repository_defaults_to_git() {
    let r = vscode_generator::Repository::from_url("https://example.invalid/r");
    assert_eq!(r.kind, "git");
    assert_eq!(r.url, "https://example.invalid/r");
}

#[test]
fn license_text_substitutes_the_author() {
    let l = vscode_generator::License::mit("Jane Doe");
    let text = l.text();
    assert!(text.starts_with("MIT License\n\nCopyright (c) "));
    assert!(text.contains(" Jane Doe\n\nPermission is hereby granted"));
    // a year stands between the template head and the author
    let rest = &text["MIT License\n\nCopyright (c) ".len()..];
    let year: String = rest.chars().take_while(|c| c.is_ascii_digit()).collect();
    assert!(!year.is_empty());
}
