use vscode_generator::{License, Package, Snippet, Snippets, Version};

fn sample_package(repository: Option<&str>) -> Package {
    Package::snippets(
        "pkg_id",
        "Pkg Name",
        "Pkg description",
        Version::parse("0.0.1").unwrap(),
        "images/icon.png",
        repository,
        vec![
            Snippets::new("rust", "Text", "text snippets", vec![
                Snippet::text("hello", "hello", "println!();"),
            ]),
            Snippets::new("toml", "Config", "config snippets", vec![]),
        ],
        License::mit("An Author"),
    )
}

#[test]
fn manifest_holds_all_fields() {
    let pkg = sample_package(Some("https://example.invalid/repo"));
    let json = pkg.to_json().unwrap();
    let v: serde_json::Value = serde_json::from_str(&json).unwrap();
    assert_eq!(v["name"].as_str().unwrap(), "pkg_id");
    assert_eq!(v["displayName"].as_str().unwrap(), "Pkg Name");
    assert_eq!(v["description"].as_str().unwrap(), "Pkg description");
    assert_eq!(v["version"].as_str().unwrap(), "0.0.1");
    assert_eq!(v["categories"][0].as_str().unwrap(), "Snippets");
    assert_eq!(v["categories"].as_array().unwrap().len(), 1);
    assert_eq!(v["icon"].as_str().unwrap(), "images/icon.png");
    assert_eq!(v["repository"]["type"].as_str().unwrap(), "git");
    assert_eq!(
        v["repository"]["url"].as_str().unwrap(),
        "https://example.invalid/repo"
    );
    assert_eq!(v["engines"]["vscode"].as_str().unwrap(), "^1.90.0");
}

#[test]
fn manifest_omits_an_absent_repository() {
    let pkg = sample_package(None);
    let json = pkg.to_json().unwrap();
    let v: serde_json::Value = serde_json::from_str(&json).unwrap();
    assert!(v.get("repository").is_none());
    assert!(v.get("icon").is_some());
}

#[test]
fn manifest_contributes_match_the_groups() {
    let pkg = sample_package(None);
    let json = pkg.to_json().unwrap();
    let v: serde_json::Value = serde_json::from_str(&json).unwrap();
    let entries = v["contributes"]["snippets"].as_array().unwrap();
    assert_eq!(entries.len(), 2);
    assert_eq!(entries[0]["language"].as_str().unwrap(), "rust");
    assert_eq!(entries[0]["path"].as_str().unwrap(), "snippets/text.code-snippets");
    assert_eq!(entries[1]["language"].as_str().unwrap(), "toml");
    assert_eq!(entries[1]["path"].as_str().unwrap(), "snippets/config.code-snippets");
}

#[test]
fn rendered_manifest_round_trips_the_contributes() {
    // reading the written manifest back reproduces the contributes list
    // derived from the in-memory groups, with no extra or missing entries
    let pkg = sample_package(Some("https://example.invalid/repo"));
    let files = pkg.render_files();
    let manifest = files
        .iter()
        .find(|(path, _)| path == "package.json")
        .map(|(_, contents)| contents.clone())
        .unwrap();
    let v: serde_json::Value = serde_json::from_str(&manifest).unwrap();
    let entries = v["contributes"]["snippets"].as_array().unwrap();
    let group_paths: Vec<String> = files
        .iter()
        .filter(|(path, _)| path.starts_with("snippets/"))
        .map(|(path, _)| path.clone())
        .collect();
    assert_eq!(entries.len(), group_paths.len());
    for (entry, path) in entries.iter().zip(group_paths.iter()) {
        assert_eq!(entry["path"].as_str().unwrap(), path);
    }
    assert_eq!(entries[0]["language"].as_str().unwrap(), "rust");
    assert_eq!(entries[1]["language"].as_str().unwrap(), "toml");
}

#[test]
fn manifest_exact_text_for_a_small_package() {
    let pkg = Package::snippets(
        "i",
        "n",
        "d",
        Version::parse("1").unwrap(),
        "ic.png",
        None,
        vec![],
        License::mit("a"),
    );
    let expected = "{\n  \"name\": \"i\",\n  \"displayName\": \"n\",\n  \"description\": \"d\",\n  \"version\": \"1\",\n  \"categories\": [\n    \"Snippets\"\n  ],\n  \"icon\": \"ic.png\",\n  \"engines\": {\n    \"vscode\": \"^1.90.0\"\n  },\n  \"contributes\": {\n    \"snippets\": []\n  }\n}";
    assert_eq!(pkg.to_json().unwrap(), expected);
}

#[test]
fn group_file_exact_text_for_one_snippet() {
    let g = Snippets::new("rust", "G", "d", vec![Snippet::text("n", "hi", "line")]);
    let json = g.to_json().unwrap();
    let v: serde_json::Value = serde_json::from_str(&json).unwrap();
    let key = v.as_object().unwrap().keys().next().unwrap().clone();
    let expected = format!(
        "{{\n  \"{}\": {{\n    \"scope\": \"rust\",\n    \"description\": \"line\",\n    \"prefix\": \"hi\",\n    \"body\": [\n      \"line\"\n    ]\n  }}\n}}",
        key
    );
    assert_eq!(json, expected);
}

#[test]
fn rendered_files_come_in_write_order() {
    let pkg = sample_package(None);
    let files = pkg.render_files();
    let paths: Vec<&str> = files.iter().map(|(p, _)| p.as_str()).collect();
    assert_eq!(
        paths,
        vec![
            "package.json",
            "snippets/text.code-snippets",
            "snippets/config.code-snippets",
            "README.md",
            "LICENSE.md",
        ]
    );
}

#[test]
fn rendered_snippet_files_hold_the_group_json() {
    let pkg = sample_package(None);
    let files = pkg.render_files();
    let text_file = &files[1].1;
    let v: serde_json::Value = serde_json::from_str(text_file).unwrap();
    assert_eq!(v.as_object().unwrap().len(), 1);
    let config_file = &files[2].1;
    assert_eq!(config_file, "{}");
}

#[test]
fn rendered_readme_aggregates_the_documentation() {
    let pkg = sample_package(None);
    let files = pkg.render_files();
    let readme = &files[3].1;
    assert!(readme.starts_with("# Pkg Name\n## Pkg description"));
    assert!(readme.contains("# Text [rust]:\n## text snippets"));
    assert!(readme.contains("# Config [toml]:\n## config snippets"));
    assert!(readme.contains("| hello"));
}

#[test]
fn rendered_license_carries_author_and_year() {
    let pkg = sample_package(None);
    let files = pkg.render_files();
    let license = &files[4].1;
    assert!(license.starts_with("MIT License\n\nCopyright (c) "));
    assert!(license.contains("An Author"));
    assert!(license.contains("Permission is hereby granted"));
}
