use vscode_generator::Snippet;

#[test]
fn text_snippet_shape() {
    let s = Snippet::text("print-hello", "hello", "println!(\"Hello, world!\");");
    assert_eq!(s.language, "");
    assert_eq!(s.name, "print-hello");
    assert_eq!(s.description, "println!(\"Hello, world!\");");
    assert_eq!(s.prefix, "hello");
    assert_eq!(s.body, vec!["println!(\"Hello, world!\");"]);
}

#[test]
fn comment_snippet_shape() {
    let s = Snippet::comment("comment-todo", "TODO");
    assert_eq!(s.description, "// TODO: ...");
    assert_eq!(s.prefix, "/TODO");
    assert_eq!(s.body, vec!["// TODO: ${1:...}"]);
}

#[test]
fn attribute_snippet_shapes() {
    let s = Snippet::attribute("attr-derive", "derive", Some(vec!["Debug", "Clone"]));
    assert_eq!(s.description, "#[derive(...)]");
    assert_eq!(s.prefix, "#[derive()]");
    assert_eq!(s.body, vec!["#[derive(${1|Debug,Clone|})]"]);

    let s = Snippet::attribute("attr-cfg", "cfg", Some(vec![]));
    assert_eq!(s.body, vec!["#[cfg($1)]"]);

    let s = Snippet::attribute("attr-test", "test", None);
    assert_eq!(s.description, "#[test]");
    assert_eq!(s.prefix, "#[test]");
    assert_eq!(s.body, vec!["#[test]"]);
}

#[test]
fn block_snippet_shapes() {
    let s = Snippet::block("block-struct", "struct");
    assert_eq!(s.description, "struct ... { ... }");
    assert_eq!(s.prefix, "struct {}");
    assert_eq!(s.body, vec!["struct $1 {\n    $2\n}"]);

    let s = Snippet::double_block("block-struct-impl", "struct", "impl");
    assert_eq!(s.description, "struct ... { ... }  impl ... { ... }");
    assert_eq!(s.prefix, "struct {} impl {}");
    assert_eq!(
        s.body,
        vec!["struct $1 {\n    $2\n}", "", "impl $1 {\n    $3\n}"]
    );

    let s = Snippet::simple_block("block-loop", "loop");
    assert_eq!(s.description, "loop { ... }");
    assert_eq!(s.prefix, "loop {}");
    assert_eq!(s.body, vec!["loop {\n    $1\n}"]);

    let s = Snippet::function_block("block-fn", "fn");
    assert_eq!(s.description, "fn ...() { ... }");
    assert_eq!(s.prefix, "fn() {}");
    assert_eq!(s.body, vec!["fn $1($2) {\n    $3\n}"]);
}

#[test]
fn operator_snippet_shapes() {
    let s = Snippet::operator("operator-return", "return", Some(""));
    assert_eq!(s.description, "return ...;");
    assert_eq!(s.prefix, "return ");
    assert_eq!(s.body, vec!["return ${1:};"]);

    let s = Snippet::operator("operator-continue", "continue", None);
    assert_eq!(s.description, "continue;");
    assert_eq!(s.prefix, "continue");
    assert_eq!(s.body, vec!["continue;"]);
}

#[test]
fn function_snippet_shapes() {
    let s = Snippet::function("fn-map_err", ".map_err", None, Some("Error::from"));
    assert_eq!(s.description, ".map_err(...)");
    assert_eq!(s.prefix, ".map_err()");
    assert_eq!(s.body, vec![".map_err(${1:Error::from})"]);

    let s = Snippet::function("fn-read_to_string", "read_to_string", None, None);
    assert_eq!(s.description, "read_to_string()");
    assert_eq!(s.prefix, "read_to_string()");
    assert_eq!(s.body, vec!["read_to_string()"]);

    let s = Snippet::function("macro-vec", "vec!", Some(("[", "]")), Some(""));
    assert_eq!(s.description, "vec![...]");
    assert_eq!(s.prefix, "vec![]");
    assert_eq!(s.body, vec!["vec![${1:}]"]);
}

#[test]
fn builder_methods_edit_fields() {
    let s = Snippet::new("n", "d", "p", vec!["one", "two"])
        .set_lang("rust")
        .set_name("n2")
        .set_descr("d2")
        .add_descr(" more")
        .set_prefix("p2")
        .add_line("three");
    assert_eq!(s.language, "rust");
    assert_eq!(s.name, "n2");
    assert_eq!(s.description, "d2 more");
    assert_eq!(s.prefix, "p2");
    assert_eq!(s.body, vec!["one", "two", "three"]);

    let s = s.set_body(vec!["a", "b"]);
    assert_eq!(s.body, vec!["a", "b"]);

    let s = s.replace_line(1, "B");
    assert_eq!(s.body, vec!["a", "B"]);
    // out-of-range edits change nothing
    let s = s.replace_line(2, "C");
    assert_eq!(s.body, vec!["a", "B"]);
    let s = s.remove_line(5);
    assert_eq!(s.body, vec!["a", "B"]);
    let s = s.remove_line(0);
    assert_eq!(s.body, vec!["B"]);
    let s = s.clear_body();
    assert!(s.body.is_empty());
}

#[test]
fn snippet_to_json_exact_text() {
    let s = Snippet::text("n", "hi", "line").set_lang("rust");
    let expected = "{\n  \"scope\": \"rust\",\n  \"description\": \"line\",\n  \"prefix\": \"hi\",\n  \"body\": [\n    \"line\"\n  ]\n}";
    assert_eq!(s.to_json().unwrap(), expected);
}

#[test]
fn snippet_json_escapes_special_characters() {
    let s = Snippet::new("n", "say \"hi\"\nnow", "p\ttab", vec!["back\\slash", "ctrl\u{1}char"]);
    let json = s.to_json().unwrap();
    let v: serde_json::Value = serde_json::from_str(&json).unwrap();
    assert_eq!(v["description"].as_str().unwrap(), "say \"hi\"\nnow");
    assert_eq!(v["prefix"].as_str().unwrap(), "p\ttab");
    assert_eq!(v["body"][0].as_str().unwrap(), "back\\slash");
    assert_eq!(v["body"][1].as_str().unwrap(), "ctrl\u{1}char");
}

#[test]
fn snippet_json_empty_body_is_empty_array() {
    let s = Snippet::new("n", "d", "p", vec![]).set_lang("rust");
    let json = s.to_json().unwrap();
    let v: serde_json::Value = serde_json::from_str(&json).unwrap();
    assert!(v["body"].as_array().unwrap().is_empty());
}
