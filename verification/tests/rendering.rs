use mdb::query::output::{
    field_names, finish_json, json_rows, output_json, output_list, output_results, output_table,
    OutputError,
};

fn rows(cells: &[&[&str]]) -> Vec<Vec<String>> {
    cells
        .iter()
        .map(|row| row.iter().map(|cell| cell.to_string()).collect())
        .collect()
}

fn names(list: &[&str]) -> Vec<String> {
    list.iter().map(|name| name.to_string()).collect()
}

#[test]
fn no_rows_say_so_in_every_format() {
    let none: Vec<Vec<String>> = Vec::new();
    for format in ["table", "json", "list", "Json", "List", "", "anything"] {
        for fields in [names(&[]), names(&["path"]), names(&["a", "b"])] {
            let text = output_results(&none, format, &fields).unwrap();
            assert_eq!(text, "No results found.\n");
        }
    }
}

#[test]
fn table_of_two_rows() {
    let text = output_results(
        &rows(&[&["path1", "name1"], &["path2", "name2"]]),
        "table",
        &names(&["path", "name"]),
    )
    .unwrap();
    assert_eq!(
        text,
        "path       | name      \n\
         -----------+-----------\n\
         path1      | name1     \n\
         path2      | name2     \n"
    );
}

#[test]
fn table_columns_are_as_wide_as_their_widest_content() {
    let text = output_table(
        &rows(&[&["short", "longer_value_here"], &["a", "b"]]),
        &names(&["a_long_column_name", "c2"]),
    )
    .unwrap();
    assert_eq!(
        text,
        "a_long_column_name | c2               \n\
         -------------------+------------------\n\
         short              | longer_value_here\n\
         a                  | b                \n"
    );
}

#[test]
fn table_width_is_at_least_ten() {
    let text = output_table(&rows(&[&["x"]]), &names(&["n"])).unwrap();
    assert_eq!(text, "n         \n----------\nx         \n");
    let text = output_table(&rows(&[&["0123456789"]]), &names(&["n"])).unwrap();
    assert_eq!(text, "n         \n----------\n0123456789\n");
    let text = output_table(&rows(&[&["0123456789a"]]), &names(&["n"])).unwrap();
    assert_eq!(text, "n          \n-----------\n0123456789a\n");
}

#[test]
fn table_names_missing_columns() {
    let text = output_table(&rows(&[&["a", "b", "c"]]), &names(&["first"])).unwrap();
    assert_eq!(
        text,
        "first      | col1       | col2      \n\
         -----------+------------+-----------\n\
         a          | b          | c         \n"
    );
}

#[test]
fn table_takes_its_columns_from_the_first_row() {
    // The second row has a cell more, the third a cell less.
    let text = output_table(
        &rows(&[&["a", "b"], &["c", "d", "extra"], &["e"]]),
        &names(&["x", "y", "z"]),
    )
    .unwrap();
    assert_eq!(
        text,
        "x          | y         \n\
         -----------+-----------\n\
         a          | b         \n\
         c          | d          | extra\n\
         e         \n"
    );
}

#[test]
fn table_width_counts_cells_of_every_row() {
    let text = output_table(
        &rows(&[&["a"], &["this is the widest"], &["b"]]),
        &names(&["x"]),
    )
    .unwrap();
    assert_eq!(
        text,
        "x                 \n\
         ------------------\n\
         a                 \n\
         this is the widest\n\
         b                 \n"
    );
}

#[test]
fn table_measures_bytes_and_pads_characters() {
    // Six letters of two bytes each: twelve bytes wide, padded by characters.
    let text = output_table(
        &rows(&[&["\u{e9}\u{e9}\u{e9}\u{e9}\u{e9}\u{e9}"], &["abc"]]),
        &names(&["n"]),
    )
    .unwrap();
    assert_eq!(
        text,
        "n           \n\
         ------------\n\
         \u{e9}\u{e9}\u{e9}\u{e9}\u{e9}\u{e9}      \n\
         abc         \n"
    );
}

#[test]
fn table_of_rows_without_cells() {
    let text = output_table(&rows(&[&[], &[]]), &names(&["a"])).unwrap();
    assert_eq!(text, "\n\n\n\n");
}

#[test]
fn table_without_rows() {
    let none: Vec<Vec<String>> = Vec::new();
    assert_eq!(output_table(&none, &names(&["a"])).unwrap(), "\n\n");
}

#[test]
fn unknown_format_is_a_table() {
    let data = rows(&[&["test"]]);
    let fields = names(&["col0"]);
    let table = output_table(&data, &fields).unwrap();
    for format in ["unknown_format", "", "TABLE", "JSON", "LIST", "json ", "Table"] {
        assert_eq!(output_results(&data, format, &fields).unwrap(), table);
    }
    assert_eq!(table, "col0      \n----------\ntest      \n");
}

#[test]
fn list_of_two_rows() {
    let text = output_results(
        &rows(&[&["path1", "name1"], &["path2", "name2"]]),
        "list",
        &names(&["path", "name"]),
    )
    .unwrap();
    assert_eq!(
        text,
        "path: path1\nname: name1\n---\npath: path2\nname: name2\n---\n"
    );
}

#[test]
fn list_names_missing_columns() {
    let text = output_list(&rows(&[&["a", "b", "c"], &[], &["d"]]), &names(&["x"])).unwrap();
    assert_eq!(text, "x: a\ncol1: b\ncol2: c\n---\n---\nx: d\n---\n");
}

#[test]
fn list_by_its_other_spelling() {
    let data = rows(&[&["a"]]);
    let fields = names(&["x"]);
    assert_eq!(output_results(&data, "List", &fields).unwrap(), "x: a\n---\n");
}

#[test]
fn json_of_two_rows() {
    let text = output_results(
        &rows(&[&["path1", "name1"], &["path2", "name2"]]),
        "json",
        &names(&["path", "name"]),
    )
    .unwrap();
    assert_eq!(
        text,
        "[\n  {\n    \"name\": \"name1\",\n    \"path\": \"path1\"\n  },\n  {\n    \"name\": \"name2\",\n    \"path\": \"path2\"\n  }\n]\n"
    );
}

#[test]
fn json_values_stay_strings() {
    let text = output_json(
        &rows(&[&["42", "true", "say \"hi\"\n"]]),
        &names(&["n", "b"]),
    )
    .unwrap();
    assert_eq!(
        text,
        "[\n  {\n    \"b\": \"true\",\n    \"col2\": \"say \\\"hi\\\"\\n\",\n    \"n\": \"42\"\n  }\n]\n"
    );
}

#[test]
fn json_is_read_back_by_the_parser() {
    let data = rows(&[&["a", "b"], &["c"], &[]]);
    let text = output_json(&data, &names(&["x"])).unwrap();
    let value: serde_json::Value = serde_json::from_str(&text).unwrap();
    let array = value.as_array().unwrap();
    assert_eq!(array.len(), 3);
    assert_eq!(array[0]["x"], "a");
    assert_eq!(array[0]["col1"], "b");
    assert_eq!(array[0].as_object().unwrap().len(), 2);
    assert_eq!(array[1]["x"], "c");
    assert_eq!(array[1].as_object().unwrap().len(), 1);
    assert_eq!(array[2].as_object().unwrap().len(), 0);
}

#[test]
fn json_key_given_twice_keeps_the_later_value() {
    let text = output_json(&rows(&[&["first", "second"]]), &names(&["k", "k"])).unwrap();
    assert_eq!(text, "[\n  {\n    \"k\": \"second\"\n  }\n]\n");
}

#[test]
fn json_by_its_other_spelling() {
    let data = rows(&[&["a"]]);
    let fields = names(&["x"]);
    assert_eq!(
        output_results(&data, "Json", &fields).unwrap(),
        "[\n  {\n    \"x\": \"a\"\n  }\n]\n"
    );
}

#[test]
fn json_rows_pair_names_and_cells() {
    let pairs = json_rows(&rows(&[&["a", "b"], &["c"]]), &names(&["x"]));
    assert_eq!(
        pairs,
        vec![
            vec![
                ("x".to_string(), "a".to_string()),
                ("col1".to_string(), "b".to_string())
            ],
            vec![("x".to_string(), "c".to_string())],
        ]
    );
}

#[test]
fn finish_json_adds_the_line_end() {
    let done = finish_json(Ok("[]".to_string())).unwrap();
    assert_eq!(done, "[]\n");
    let done = finish_json(Ok(String::new())).unwrap();
    assert_eq!(done, "\n");
}

#[test]
fn finish_json_hands_the_error_on() {
    let error = serde_json::from_str::<serde_json::Value>("{").unwrap_err();
    let message = error.to_string();
    match finish_json(Err(error)) {
        Err(OutputError::Json(inner)) => assert_eq!(inner.to_string(), message),
        Ok(text) => panic!("expected an error, got {:?}", text),
    }
}

#[test]
fn rendering_is_repeatable() {
    let data = rows(&[&["a", "b"], &["c", "d"]]);
    let fields = names(&["x"]);
    for format in ["table", "json", "list"] {
        assert_eq!(
            output_results(&data, format, &fields).unwrap(),
            output_results(&data, format, &fields).unwrap()
        );
    }
}

#[test]
fn table_lines_have_the_same_length() {
    let data = rows(&[
        &["a", "\u{e9}\u{e9}\u{e9}", "third column value"],
        &["longer than ten", "", "x"],
        &["\u{4e2d}\u{6587}\u{4e2d}\u{6587}\u{4e2d}", "b", "c"],
    ]);
    let text = output_table(&data, &names(&["one", "a name of some length"])).unwrap();
    let lengths: Vec<usize> = text.lines().map(|line| line.chars().count()).collect();
    assert_eq!(lengths.len(), 5);
    for length in &lengths {
        assert_eq!(*length, lengths[0]);
    }
    // 15 bytes in the first column, 21 in the second, 18 in the third.
    assert_eq!(lengths[0], 15 + 3 + 21 + 3 + 18);
}

#[test]
fn names_of_a_field_list() {
    assert_eq!(field_names("file.path, file.mtime"), names(&["file.path", "file.mtime"]));
    assert_eq!(field_names(" a ,b,\tc d "), names(&["a", "b", "c d"]));
    assert_eq!(field_names("*"), names(&["*"]));
    assert_eq!(field_names(""), names(&[""]));
    assert_eq!(field_names("a,,b,"), names(&["a", "", "b", ""]));
}

#[test]
fn result_of_a_query_is_shown_under_its_field_names() {
    let fields = "file.path, file.mtime";
    let text = output_results(
        &rows(&[&["/notes/a.md", "2024-01-01"]]),
        "list",
        &field_names(fields),
    )
    .unwrap();
    assert_eq!(text, "file.path: /notes/a.md\nfile.mtime: 2024-01-01\n---\n");
}
