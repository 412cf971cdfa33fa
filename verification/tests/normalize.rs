use vscode_generator::to_latin_text;

#[test]
fn normalize_example() {
    // the documented example
    assert_eq!(to_latin_text("Hello, World!! ", true), "Hello-World");
}

#[test]
fn normalize_is_idempotent_on_samples() {
    let samples = [
        "",
        "Hello, World!! ",
        "-a-",
        "__trim__",
        "  spaced  words  ",
        "already-safe_token",
        "!!!",
        "a!!b??c",
        "Mixed CASE 123",
        "tab\tand\nnewline",
    ];
    for s in samples.iter() {
        for rm in [true, false] {
            let once = to_latin_text(s, rm);
            let twice = to_latin_text(&once, rm);
            assert_eq!(twice, once);
        }
    }
}

#[test]
fn normalize_collapses_runs() {
    assert_eq!(to_latin_text("a!!b??c", true), "a-b-c");
    assert_eq!(to_latin_text("a b c", true), "a-b-c");
    assert_eq!(to_latin_text("a b c", false), "a b c");
    assert_eq!(to_latin_text("a,,,b", false), "a-b");
}

#[test]
fn normalize_trims_edges() {
    assert_eq!(to_latin_text("-a-", true), "a");
    assert_eq!(to_latin_text("__a__", true), "a");
    assert_eq!(to_latin_text("  a  ", true), "a");
    assert_eq!(to_latin_text("!!!", true), "");
    assert_eq!(to_latin_text("", true), "");
}

#[test]
fn normalize_keeps_inner_casing_and_marks() {
    assert_eq!(to_latin_text("Mixed CASE_12-3", true), "Mixed-CASE_12-3");
}
