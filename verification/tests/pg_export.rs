use sqlite_tools::pg2sqlite::{
    collect_columns, create_table_statement, export_statements, insert_statement, literal_text, quote_text,
    select_all_query, sql_type_name, Cell, ColumnType, Table,
};

#[test]
fn quoting_doubles_quotes() {
    assert_eq!(quote_text("O'Reilly"), "'O''Reilly'");
    assert_eq!(quote_text(""), "''");
    assert_eq!(quote_text("''"), "''''''");
}

#[test]
fn literals() {
    assert_eq!(literal_text(&Cell::Int64(-42)), "-42");
    assert_eq!(literal_text(&Cell::Float64(1.5f64.to_string())), "1.5");
    assert_eq!(literal_text(&Cell::Text("a'b".to_string())), "'a''b'");
    assert_eq!(literal_text(&Cell::Boolean(true)), "1");
    assert_eq!(literal_text(&Cell::Boolean(false)), "0");
    assert_eq!(literal_text(&Cell::Other), "NULL");
}

#[test]
fn type_names() {
    assert_eq!(sql_type_name(ColumnType::Int64), "INTEGER");
    assert_eq!(sql_type_name(ColumnType::Int32), "INTEGER");
    assert_eq!(sql_type_name(ColumnType::Float32), "REAL");
    assert_eq!(sql_type_name(ColumnType::Text), "TEXT");
    assert_eq!(sql_type_name(ColumnType::Boolean), "BOOLEAN");
    assert_eq!(sql_type_name(ColumnType::Other), "BLOB");
}

fn sample() -> Table {
    Table::new(
        vec!["id".to_string(), "name".to_string()],
        vec![ColumnType::Int64, ColumnType::Text],
        vec![
            vec![Cell::Int64(1), Cell::Int64(2)],
            vec![Cell::Text("x".to_string()), Cell::Text("it's".to_string())],
        ],
    )
    .expect("same heights")
}

#[test]
fn statements_for_a_table() {
    let t = sample();
    assert_eq!(t.height(), 2);
    assert_eq!(create_table_statement("people", &t), "CREATE TABLE IF NOT EXISTS people (id INTEGER, name TEXT)");
    assert_eq!(insert_statement("people", &t, 1), "INSERT INTO people (id, name) VALUES (2, 'it''s')");
    let all = export_statements("people", &t);
    assert_eq!(all.len(), 3);
    assert_eq!(all[1], "INSERT INTO people (id, name) VALUES (1, 'x')");
}

#[test]
fn table_shapes() {
    assert!(Table::new(vec!["a".to_string()], vec![], vec![vec![]]).is_none());
    assert!(Table::new(
        vec!["a".to_string(), "b".to_string()],
        vec![ColumnType::Text, ColumnType::Text],
        vec![vec![Cell::Other], vec![]],
    )
    .is_none());
    let empty = Table::new(vec![], vec![], vec![]).unwrap();
    assert_eq!(empty.height(), 0);
    assert_eq!(export_statements("t", &empty), vec!["CREATE TABLE IF NOT EXISTS t ()".to_string()]);
}

#[test]
fn columns_from_rows() {
    let names = vec!["a".to_string(), "b".to_string()];
    let rows = vec![vec!["1".to_string(), "2".to_string()], vec!["3".to_string(), "4".to_string()]];
    let (n, cols) = collect_columns(&names, &rows);
    assert_eq!(n, names);
    assert_eq!(cols, vec![vec!["1".to_string(), "3".to_string()], vec!["2".to_string(), "4".to_string()]]);
    let (n, cols) = collect_columns(&names, &Vec::new());
    assert_eq!(n, names);
    assert_eq!(cols, vec![Vec::<String>::new(), Vec::new()]);
}

#[test]
fn empty_result_still_exported() {
    let names = vec!["a".to_string(), "b".to_string()];
    let (n, cols) = collect_columns(&names, &Vec::new());
    let cells: Vec<Vec<Cell>> = cols.into_iter().map(|c| c.into_iter().map(Cell::Text).collect()).collect();
    let t = Table::new(n, vec![ColumnType::Text, ColumnType::Text], cells).unwrap();
    assert_eq!(t.height(), 0);
    assert_eq!(export_statements("t", &t), vec!["CREATE TABLE IF NOT EXISTS t (a TEXT, b TEXT)".to_string()]);
}

#[test]
fn select_query() {
    assert_eq!(select_all_query("weather"), "SELECT * FROM weather");
}
