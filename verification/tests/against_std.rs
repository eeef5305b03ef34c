use mdb::query::compiler::{compile, resolve_field};
use mdb::query::output::{output_list, output_table};
use mdb::query::parser::AstNode;
use mdb::scanner::link_target;

const FILE: [&str; 7] = ["path", "folder", "name", "ext", "size", "ctime", "mtime"];
const NOTE: [&str; 6] = ["content", "tags", "links", "backlinks", "embeds", "properties"];

const NAMES: [&str; 40] = [
    "", ".", "..", "a", "name", "tags", "file", "note", "file.", "note.", ".name", ".tags",
    "file.name", "file.tags", "file.x", "note.tags", "note.name", "note.x", "x.name", "x.tags",
    "file.name.", "file..name", "note..tags", "note.tags.x", "a.b", "a.b.c", "File.name",
    "file.Name", " file.name", "file.name ", "file .name", "properties", "note.properties",
    "file.properties", "content", "file.size", "note.content", "it's", "caf\u{e9}.x", "note.caf\u{e9}",
];

fn lookup(key: &str) -> String {
    format!("json_extract_string(properties, '$.{}')", key)
}

/// The resolution written with std's `split` and `contains`.
fn resolved_by_split(field: &str) -> String {
    if field.contains('.') {
        let parts: Vec<&str> = field.split('.').collect();
        if parts.len() == 2 {
            if parts[0] == "file" && FILE.contains(&parts[1]) {
                return parts[1].to_string();
            }
            if parts[0] == "note" {
                if NOTE.contains(&parts[1]) {
                    return parts[1].to_string();
                }
                return lookup(parts[1]);
            }
        }
        return field.to_string();
    }
    if FILE.contains(&field) || NOTE.contains(&field) {
        return field.to_string();
    }
    lookup(field)
}

#[test]
fn resolution_agrees_with_std_split() {
    for name in NAMES {
        assert_eq!(resolve_field(name), resolved_by_split(name), "{:?}", name);
    }
}

#[test]
fn quoting_agrees_with_std_replace() {
    for value in ["", "a", "'", "''", "it's", "'a'", "a''b", "\"", "x'y'z'", "\u{e9}'\u{e9}"] {
        let node = AstNode::StringLiteral(value.to_string());
        assert_eq!(compile(&node), format!("'{}'", value.replace('\'', "''")));
    }
}

#[test]
fn has_quotes_its_literal_as_std_replace_does() {
    for value in ["", "a", "'", "''", "it's", "'a'", "a''b", "'a'b'", "''x", "x''", "a'"] {
        let node = AstNode::FunctionCall {
            name: "has".to_string(),
            args: vec![
                AstNode::Field("tags".to_string()),
                AstNode::StringLiteral(value.to_string()),
            ],
        };
        assert_eq!(
            compile(&node),
            format!("'{}' = ANY(tags)", value.replace('\'', "''"))
        );
    }
}

#[test]
fn has_strips_other_values_as_std_trim_matches_does() {
    for value in ["5", "1.5", "", "007"] {
        let node = AstNode::FunctionCall {
            name: "has".to_string(),
            args: vec![
                AstNode::Field("tags".to_string()),
                AstNode::NumberLiteral(value.to_string()),
            ],
        };
        assert_eq!(
            compile(&node),
            format!("'{}' = ANY(tags)", value.trim_matches('\''))
        );
    }
    // A group around a literal is no literal: its text is taken as a string.
    let node = AstNode::FunctionCall {
        name: "has".to_string(),
        args: vec![
            AstNode::Field("tags".to_string()),
            AstNode::Grouping(Box::new(AstNode::StringLiteral("a".to_string()))),
        ],
    };
    assert_eq!(compile(&node), "'('a')' = ANY(tags)");
}

#[test]
fn link_target_agrees_with_std_trim_end_matches() {
    for link in ["", "a", "a|", "a#", "a|#", "a|b", "a#b", "|", "#", "|a|", "a||##", "#|a"] {
        assert_eq!(
            link_target(link),
            link.trim_end_matches(|c: char| c == '|' || c == '#')
        );
    }
}

fn name_by_std(field_names: &[String], i: usize) -> String {
    field_names
        .get(i)
        .map_or_else(|| format!("col{}", i), |name| name.clone())
}

/// The table written with std's formatting.
fn table_by_format(results: &[Vec<String>], field_names: &[String]) -> String {
    let col_count = results[0].len();
    let widths: Vec<usize> = (0..col_count)
        .map(|i| {
            let data = results
                .iter()
                .map(|row| row.get(i).map_or(0, |s| s.len()))
                .max()
                .unwrap_or(0);
            name_by_std(field_names, i).len().max(data).max(10)
        })
        .collect();
    let header: Vec<String> = (0..col_count)
        .map(|i| format!("{:<width$}", name_by_std(field_names, i), width = widths[i]))
        .collect();
    let rule: Vec<String> = widths.iter().map(|w| "-".repeat(*w)).collect();
    let mut text = format!("{}\n{}\n", header.join(" | "), rule.join("-+-"));
    for row in results {
        let cells: Vec<String> = row
            .iter()
            .enumerate()
            .map(|(i, cell)| {
                if i < widths.len() {
                    format!("{:<width$}", cell, width = widths[i])
                } else {
                    cell.clone()
                }
            })
            .collect();
        text.push_str(&cells.join(" | "));
        text.push('\n');
    }
    text
}

fn list_by_format(results: &[Vec<String>], field_names: &[String]) -> String {
    let mut text = String::new();
    for row in results {
        for (i, cell) in row.iter().enumerate() {
            text.push_str(&format!("{}: {}\n", name_by_std(field_names, i), cell));
        }
        text.push_str("---\n");
    }
    text
}

fn tables() -> Vec<(Vec<Vec<String>>, Vec<String>)> {
    let grid = |cells: &[&[&str]]| -> Vec<Vec<String>> {
        cells
            .iter()
            .map(|row| row.iter().map(|cell| cell.to_string()).collect())
            .collect()
    };
    let names = |list: &[&str]| -> Vec<String> { list.iter().map(|n| n.to_string()).collect() };
    vec![
        (grid(&[&["a"]]), names(&[])),
        (grid(&[&["a", "b"], &["c", "d"]]), names(&["x", "y"])),
        (grid(&[&["a", "b"], &["c"], &["d", "e", "f", "g"]]), names(&["x"])),
        (grid(&[&[], &["a"]]), names(&["x", "y"])),
        (
            grid(&[&["\u{e9}\u{e9}\u{e9}\u{e9}\u{e9}\u{e9}\u{e9}\u{e9}", "0123456789012"]]),
            names(&["a very long name of a column", "\u{4e2d}\u{6587}\u{4e2d}\u{6587}"]),
        ),
        (
            grid(&[
                &["1", "2", "3", "4", "5", "6", "7", "8", "9", "10", "11", "12"],
                &["a", "", "ccccccccccccccccc", "", "", "", "", "", "", "", "", "x"],
            ]),
            names(&["one", "two"]),
        ),
    ]
}

#[test]
fn table_agrees_with_std_formatting() {
    for (results, field_names) in tables() {
        assert_eq!(
            output_table(&results, &field_names).unwrap(),
            table_by_format(&results, &field_names)
        );
    }
}

#[test]
fn list_agrees_with_std_formatting() {
    for (results, field_names) in tables() {
        assert_eq!(
            output_list(&results, &field_names).unwrap(),
            list_by_format(&results, &field_names)
        );
    }
}
