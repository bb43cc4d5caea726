use brewinget::table::{col_str, parse_table, table_is_parsable, TableRow};

fn row(name: &str, id: &str, version: &str, available: &str, source: &str) -> TableRow {
    TableRow {
        name: name.to_string(),
        id: id.to_string(),
        version: version.to_string(),
        available: available.to_string(),
        source: source.to_string(),
    }
}

const LIST: &str = "Name               Id                          Version   Available Source\n-------------------------------------------------------------------------\nVisual Studio Code Microsoft.VisualStudioCode  1.85.0    1.86.0    winget\nGit                Git.Git                     2.43.0              winget\n";

#[test]
fn parses_full_table() {
    assert!(table_is_parsable(LIST));
    let rows = parse_table(LIST);
    assert_eq!(
        rows,
        vec![
            row("Visual Studio Code", "Microsoft.VisualStudioCode", "1.85.0", "1.86.0", "winget"),
            row("Git", "Git.Git", "2.43.0", "", "winget"),
        ]
    );
}

#[test]
fn spinner_frames_bom_and_crlf() {
    let out = "\u{feff}   -\r   \\\rName   Id       Version\n\r\n------------------------\r\n7-Zip  7zip.7zip 23.01\r\n";
    let rows = parse_table(out);
    // Without Available / Source columns those cells run over the whole line.
    assert_eq!(
        rows,
        vec![row(
            "7-Zip",
            "7zip.7zip",
            "23.01",
            "7-Zip  7zip.7zip 23.01",
            "7-Zip  7zip.7zip 23.01"
        )]
    );
}

#[test]
fn header_offsets_are_bytes() {
    // 'å' takes two bytes: the Id column is found at byte 6, then used as
    // character position 6 of the data line.
    let out = "Nåme Id     Version\n---------------\nabcdef  x.y 1.0\n";
    let rows = parse_table(out);
    assert_eq!(rows.len(), 1);
    assert_eq!(rows[0].name, "abcdef");
    assert_eq!(rows[0].id, "x.y 1");
    assert_eq!(rows[0].version, ".0");
}

#[test]
fn no_separator_no_rows() {
    assert!(parse_table("Name Id Version\nFoo  Bar 1\n").is_empty());
    assert!(parse_table("").is_empty());
    // A separator needs more than five dashes.
    assert!(parse_table("Name Id Version\n-----\nFoo  Bar 1\n").is_empty());
}

#[test]
fn rows_without_id_are_dropped() {
    let out = "Name  Id   Version\n------------------\nshort\nA     B    1\nC          2\n";
    let rows = parse_table(out);
    assert_eq!(rows, vec![row("A", "B", "1", "A     B    1", "A     B    1")]);
}

#[test]
fn out_of_order_header_is_not_parsable() {
    // "Name" after "Id": the name cell would be cut backwards.
    assert!(!table_is_parsable("Id Name\n------\nabc def\n"));
    assert!(table_is_parsable("Id Name\n------\nab\n"));
}

#[test]
fn header_after_separator_is_data() {
    let out = "Name Id Version\n----------------\nName Id Version\n";
    let rows = parse_table(out);
    assert_eq!(rows.len(), 1);
    assert_eq!(rows[0].id, "Id");
    assert_eq!(rows[0].name, "Name");
}

#[test]
fn col_str_cuts_and_trims() {
    let chars: Vec<char> = "  ab  cd ".chars().collect();
    let n = chars.len();
    assert_eq!(col_str(&chars, n, 0, 4), "ab");
    assert_eq!(col_str(&chars, n, 4, 100), "cd");
    assert_eq!(col_str(&chars, n, 9, 3), "");
    assert_eq!(col_str(&chars, n, 20, 30), "");
}

#[test]
fn byte_order_mark_changes_no_row() {
    let with_bom = format!("\u{feff}{LIST}");
    assert_eq!(parse_table(&with_bom), parse_table(LIST));
    assert_eq!(parse_table("\u{feff}"), parse_table(""));
}

#[test]
fn crlf_endings_change_no_row() {
    let crlf = LIST.replace('\n', "\r\n");
    assert_eq!(parse_table(&crlf), parse_table(LIST));
    assert_eq!(parse_table(&crlf).len(), 2);
}
