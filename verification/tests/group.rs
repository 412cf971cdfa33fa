use vscode_generator::{Snippet, Snippets};

#[test]
fn group_derives_its_file_name() {
    let g = Snippets::new("rust", "Text", "The simple text snippets", vec![]);
    assert_eq!(g.file_name, "text.code-snippets");
    assert_eq!(g.name, "Text");
    assert_eq!(g.language, "rust");

    let g = Snippets::new("rust", "My Fancy Blocks!", "d", vec![]);
    assert_eq!(g.file_name, "my-fancy-blocks.code-snippets");
    assert_eq!(g.name, "My-Fancy-Blocks");
}

#[test]
fn group_emits_one_entry_per_snippet_with_distinct_keys() {
    let mut snippets = Vec::new();
    for i in 0..10 {
        snippets.push(Snippet::text(&format!("snip-{}", i), &format!("p{}", i), "body"));
    }
    // two snippets sharing one name still get distinct keys
    snippets.push(Snippet::text("snip-0", "p-again", "body"));
    let g = Snippets::new("rust", "G", "d", snippets);
    let json = g.to_json().unwrap();
    let v: serde_json::Value = serde_json::from_str(&json).unwrap();
    let map = v.as_object().unwrap();
    assert_eq!(map.len(), 11);
    let keys: Vec<&String> = map.keys().collect();
    for i in 0..keys.len() {
        for j in (i + 1)..keys.len() {
            assert_ne!(keys[i], keys[j]);
        }
    }
}

#[test]
fn group_keys_start_with_the_normalized_snippet_name() {
    let g = Snippets::new(
        "rust",
        "G",
        "d",
        vec![Snippet::text("Print  Hello!", "hello", "body")],
    );
    let json = g.to_json().unwrap();
    let v: serde_json::Value = serde_json::from_str(&json).unwrap();
    let map = v.as_object().unwrap();
    let key = map.keys().next().unwrap();
    assert!(key.starts_with("Print-Hello-"));
    // the uniqueness suffix: six lowercase hex characters
    let suffix = &key["Print-Hello-".len()..];
    assert_eq!(suffix.len(), 6);
    assert!(suffix.chars().all(|c| c.is_ascii_hexdigit() && !c.is_ascii_uppercase()));
}

#[test]
fn group_substitutes_its_language_for_empty_scopes() {
    let own = Snippet::text("own", "p1", "b1").set_lang("toml");
    let inherits = Snippet::text("inherits", "p2", "b2");
    let g = Snippets::new("rust", "G", "d", vec![own, inherits]);
    let json = g.to_json().unwrap();
    let v: serde_json::Value = serde_json::from_str(&json).unwrap();
    let map = v.as_object().unwrap();
    for (key, entry) in map.iter() {
        if key.starts_with("own-") {
            assert_eq!(entry["scope"].as_str().unwrap(), "toml");
        } else {
            assert_eq!(entry["scope"].as_str().unwrap(), "rust");
        }
    }
    // the substitution is only in the emitted text; the documentation and
    // the group fields are untouched
    assert_eq!(g.language, "rust");
}

#[test]
fn group_emits_exactly_the_added_text_snippet() {
    let g = Snippets::new(
        "rust",
        "G",
        "d",
        vec![Snippet::text("n", "hello", "println(...)")],
    );
    let json = g.to_json().unwrap();
    let v: serde_json::Value = serde_json::from_str(&json).unwrap();
    let map = v.as_object().unwrap();
    assert_eq!(map.len(), 1);
    let entry = map.values().next().unwrap();
    assert_eq!(entry["scope"].as_str().unwrap(), "rust");
    assert_eq!(entry["prefix"].as_str().unwrap(), "hello");
    let body: Vec<&str> = entry["body"]
        .as_array()
        .unwrap()
        .iter()
        .map(|l| l.as_str().unwrap())
        .collect();
    assert_eq!(body, vec!["println(...)"]);
    // the original snippet name is never emitted
    assert!(entry.get("name").is_none());
    assert!(entry.get("key").is_none());
}

#[test]
fn group_documentation_grows_with_each_added_snippet() {
    let mut g = Snippets::new("rust", "G", "descr", vec![]);
    assert_eq!(g.documentation().body.len(), 0);
    g.add_snippet(Snippet::text("a", "pa", "1"));
    g.add_snippet(Snippet::text("b", "pb", "2"));
    g.add_snippet(Snippet::text("c", "pc", "3"));
    let doc = g.documentation();
    assert_eq!(doc.body.len(), 3);
    assert_eq!(doc.body[0], ("pa".to_string(), "1".to_string()));
    assert_eq!(doc.body[1], ("pb".to_string(), "2".to_string()));
    assert_eq!(doc.body[2], ("pc".to_string(), "3".to_string()));
    // the rendered table has one row per added snippet
    assert_eq!(doc.to_string().lines().count(), 4 + 3);
}

#[test]
fn group_builders_edit_fields() {
    let g = Snippets::new("rust", "G", "d", vec![])
        .set_lang("toml")
        .set_name("G2")
        .set_descr("d2")
        .set_file_name("custom.code-snippets");
    assert_eq!(g.language, "toml");
    assert_eq!(g.name, "G2");
    assert_eq!(g.description, "d2");
    assert_eq!(g.file_name, "custom.code-snippets");
}

#[test]
fn empty_group_emits_an_empty_object() {
    let g = Snippets::new("rust", "G", "d", vec![]);
    assert_eq!(g.to_json().unwrap(), "{}");
}
