use mdb::query::output::{output_json, output_list, output_results, output_table};

#[test]
fn test_output_results_table() {
    let results = vec![
        vec!["path1".to_string(), "name1".to_string()],
        vec!["path2".to_string(), "name2".to_string()],
    ];
    let fields = vec!["path".to_string(), "name".to_string()];
    let result = output_results(&results, "table", &fields);
    assert!(result.is_ok());
}

#[test]
fn test_output_results_json() {
    let results = vec![
        vec!["path1".to_string(), "name1".to_string()],
        vec!["path2".to_string(), "name2".to_string()],
    ];
    let fields = vec!["path".to_string(), "name".to_string()];
    let result = output_results(&results, "json", &fields);
    assert!(result.is_ok());
}

#[test]
fn test_output_results_list() {
    let results = vec![
        vec!["path1".to_string(), "name1".to_string()],
        vec!["path2".to_string(), "name2".to_string()],
    ];
    let fields = vec!["path".to_string(), "name".to_string()];
    let result = output_results(&results, "list", &fields);
    assert!(result.is_ok());
}

#[test]
fn test_output_results_empty() {
    let results: Vec<Vec<String>> = vec![];
    let fields = vec!["path".to_string()];
    let result = output_results(&results, "table", &fields);
    assert!(result.is_ok());
}

#[test]
fn test_output_results_default_to_table() {
    let results = vec![vec!["test".to_string()]];
    let fields = vec!["col0".to_string()];
    let result = output_results(&results, "unknown_format", &fields);
    assert!(result.is_ok());
}

#[test]
fn test_output_json_structure() {
    let results = vec![vec!["val1".to_string(), "val2".to_string()]];
    let fields = vec!["field1".to_string(), "field2".to_string()];
    let result = output_json(&results, &fields);
    assert!(result.is_ok());
}

#[test]
fn test_output_list_structure() {
    let results = vec![vec!["path".to_string(), "name".to_string()]];
    let fields = vec!["path".to_string(), "name".to_string()];
    let result = output_list(&results, &fields);
    assert!(result.is_ok());
}

#[test]
fn test_output_table_calculates_widths() {
    let results = vec![
        vec!["short".to_string(), "longer_value".to_string()],
        vec!["a".to_string(), "b".to_string()],
    ];
    let fields = vec!["col1".to_string(), "col2".to_string()];
    let result = output_table(&results, &fields);
    assert!(result.is_ok());
}

#[test]
fn test_output_table_empty_results() {
    let results: Vec<Vec<String>> = vec![];
    let fields = vec!["path".to_string()];
    let result = output_table(&results, &fields);
    assert!(result.is_ok());
}

#[test]
fn test_output_multiple_rows() {
    let results = vec![
        vec![
            "path1".to_string(),
            "name1".to_string(),
            "content1".to_string(),
        ],
        vec![
            "path2".to_string(),
            "name2".to_string(),
            "content2".to_string(),
        ],
        vec![
            "path3".to_string(),
            "name3".to_string(),
            "content3".to_string(),
        ],
    ];
    let fields = vec![
        "path".to_string(),
        "name".to_string(),
        "content".to_string(),
    ];

    for format in &["table", "json", "list"] {
        let result = output_results(&results, format, &fields);
        assert!(result.is_ok(), "Failed for format: {}", format);
    }
}
