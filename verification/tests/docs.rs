use vscode_generator::SnippetsDoc;

#[test]
fn doc_renders_exact_table() {
    let mut doc = SnippetsDoc::new("rust", "T", "D");
    doc.write_line("hello", "Says hello");
    let expected = "# T [rust]:\n## D\n\
                    | Prefix: | Description: |\n\
                    | ------- | ------------ |\n\
                    | hello   | Says hello   |\n";
    assert_eq!(doc.to_string(), expected);
}

#[test]
fn doc_widens_columns_to_longest_cell() {
    let mut doc = SnippetsDoc::new("rust", "T", "D");
    doc.write_line("a-very-long-prefix", "x");
    doc.write_line("b", "a somewhat longer description");
    let text = doc.to_string();
    let lines: Vec<&str> = text.lines().collect();
    assert_eq!(lines.len(), 4 + 2);
    // all table lines share one width
    let widths: Vec<usize> = lines[2..].iter().map(|l| l.chars().count()).collect();
    assert!(widths.iter().all(|w| *w == widths[0]));
}

#[test]
fn doc_row_count_matches_added_lines() {
    let mut doc = SnippetsDoc::new("lang", "Title", "Descr");
    for i in 0..7 {
        doc.write_line(&format!("p{}", i), &format!("d{}", i));
    }
    let text = doc.to_string();
    // a title line, a description line, a header row, a dash row, one row
    // per recorded pair
    assert_eq!(text.lines().count(), 4 + 7);
    assert_eq!(doc.body.len(), 7);
}

#[test]
fn doc_rows_keep_addition_order() {
    let mut doc = SnippetsDoc::new("lang", "Title", "Descr");
    doc.write_line("zz", "last letter");
    doc.write_line("aa", "first letter");
    let text = doc.to_string();
    let zz = text.find("| zz").unwrap();
    let aa = text.find("| aa").unwrap();
    assert!(zz < aa);
}

#[test]
fn doc_clear_body_empties_the_table() {
    let mut doc = SnippetsDoc::new("lang", "Title", "Descr");
    doc.write_line("p", "d");
    doc.clear_body();
    assert_eq!(doc.body.len(), 0);
    assert_eq!(doc.to_string(), "# Title [lang]:\n## Descr\n| Prefix: | Description: |\n|  |  |\n");
}

#[test]
fn doc_empty_table_renders_deterministically() {
    let a = SnippetsDoc::new("l", "t", "d").to_string();
    let b = SnippetsDoc::new("l", "t", "d").to_string();
    assert_eq!(a, b);
}
