use trabalho_r::aggregate::add_csv_columns_and_output;
use trabalho_r::error::PipelineError;
use trabalho_r::merge::{merge, merge_csv, merge_rows};
use trabalho_r::table::Table;

fn row(fields: &[&str]) -> Vec<String> {
    fields.iter().map(|field| field.to_string()).collect()
}

fn rows(list: &[&[&str]]) -> Vec<Vec<String>> {
    list.iter().map(|fields| row(fields)).collect()
}

fn table(header: &[&str], body: &[&[&str]]) -> Table {
    Table::new(Some(row(header)), rows(body)).unwrap()
}

#[test]
fn merge_on_the_primary_rank_writes_both_headers() {
    let a = table(&["h1", "h2"], &[&["1", "2"]]);
    let b = table(&["h3", "h4"], &[&["3", "4"]]);
    let out = merge(a, b, true);
    assert_eq!(out.headers, rows(&[&["h1", "h2"], &["h3", "h4"]]));
    assert_eq!(out.body, rows(&[&["1", "2"], &["3", "4"]]));
}

#[test]
fn merge_on_another_rank_writes_the_first_header_only() {
    let a = table(&["h1", "h2"], &[&["1", "2"]]);
    let b = table(&["h3", "h4"], &[&["3", "4"]]);
    let out = merge(a, b, false);
    assert_eq!(out.headers, rows(&[&["h1", "h2"]]));
    assert_eq!(out.body, rows(&[&["1", "2"], &["3", "4"]]));
}

#[test]
fn merge_puts_the_second_body_after_the_first() {
    let a = table(&["k", "v"], &[&["a1", "x"], &["a2", "x"], &["a3", "x"]]);
    let b = table(&["k", "v"], &[&["b1", "y"], &["b2", "y"]]);
    let out = merge(a, b, false);
    assert_eq!(
        out.body,
        rows(&[&["a1", "x"], &["a2", "x"], &["a3", "x"], &["b1", "y"], &["b2", "y"]])
    );
    assert_eq!(
        out.into_rows(),
        rows(&[&["k", "v"], &["a1", "x"], &["a2", "x"], &["a3", "x"], &["b1", "y"], &["b2", "y"]])
    );
}

#[test]
fn merge_keeps_the_order_of_many_rows() {
    let mut first: Vec<Vec<String>> = Vec::new();
    let mut second: Vec<Vec<String>> = Vec::new();
    let mut expected: Vec<Vec<String>> = Vec::new();
    let mut i: usize = 0;
    while i < 15000 {
        first.push(vec![format!("a{}", i)]);
        i += 1;
    }
    i = 0;
    while i < 12000 {
        second.push(vec![format!("b{}", i)]);
        i += 1;
    }
    expected.extend(first.iter().cloned());
    expected.extend(second.iter().cloned());
    let out = merge_rows(row(&["h"]), first, None, second);
    assert_eq!(out.headers, rows(&[&["h"]]));
    assert_eq!(out.body, expected);
}

#[test]
fn merge_takes_empty_bodies() {
    let out = merge(table(&["h1"], &[]), table(&["h2"], &[&["x"]]), true);
    assert_eq!(out.headers, rows(&[&["h1"], &["h2"]]));
    assert_eq!(out.body, rows(&[&["x"]]));
    let out = merge(table(&["h1"], &[&["x"]]), table(&["h2"], &[]), false);
    assert_eq!(out.body, rows(&[&["x"]]));
    let out = merge(table(&["h1"], &[]), table(&["h2"], &[]), false);
    assert_eq!(out.body, Vec::<Vec<String>>::new());
}

#[test]
fn merge_writes_a_row_without_fields_for_a_missing_header() {
    let a = Table::new(None, rows(&[&["1", "2"]])).unwrap();
    let b = Table::new(None, rows(&[&["3", "4"]])).unwrap();
    let out = merge(a, b, true);
    assert_eq!(out.headers, rows(&[&[], &[]]));
    assert_eq!(out.body, rows(&[&["1", "2"], &["3", "4"]]));
}

#[test]
fn merge_of_tables_of_different_width_keeps_every_row() {
    let a = table(&["h1", "h2"], &[&["1", "2"]]);
    let b = table(&["h3"], &[&["3"]]);
    let out = merge(a, b, true);
    assert_eq!(out.into_rows(), rows(&[&["h1", "h2"], &["h3"], &["1", "2"], &["3"]]));
}

#[test]
fn merge_rows_writes_the_second_header_where_it_is_given() {
    let out = merge_rows(row(&["a"]), rows(&[&["1"]]), Some(row(&["b"])), rows(&[&["2"]]));
    assert_eq!(out.headers, rows(&[&["a"], &["b"]]));
    assert_eq!(out.body, rows(&[&["1"], &["2"]]));
    let out = merge_rows(row(&["a"]), rows(&[&["1"]]), None, rows(&[&["2"]]));
    assert_eq!(out.headers, rows(&[&["a"]]));
}

#[test]
fn merged_text_on_the_primary_rank() {
    let file = merge_csv(b"h1,h2\n1,2\n", b"h3,h4\n3,4\n", 0).unwrap();
    assert_eq!(file.name, "merged_0.csv");
    assert_eq!(file.bytes, b"h1,h2\nh3,h4\n1,2\n3,4\n".to_vec());
}

#[test]
fn merged_text_on_another_rank() {
    let file = merge_csv(b"h1,h2\n1,2\n", b"h3,h4\n3,4\n", 1).unwrap();
    assert_eq!(file.name, "merged_1.csv");
    assert_eq!(file.bytes, b"h1,h2\n1,2\n3,4\n".to_vec());
    let file = merge_csv(b"h1,h2\n1,2\n", b"h3,h4\n3,4\n", 5).unwrap();
    assert_eq!(file.name, "merged_5.csv");
    assert_eq!(file.bytes, b"h1,h2\n1,2\n3,4\n".to_vec());
}

#[test]
fn merging_twice_gives_the_same_bytes() {
    let first: &[u8] = b"h1,h2\n1,2\n\"a,b\",4\n";
    let second: &[u8] = b"h3,h4\n5,6\n7,\"x\"\"y\"\n";
    let once = merge_csv(first, second, 0).unwrap();
    let again = merge_csv(first, second, 0).unwrap();
    assert_eq!(once.bytes, again.bytes);
    assert_eq!(once.name, again.name);
    assert_eq!(once.bytes, b"h1,h2\nh3,h4\n1,2\n\"a,b\",4\n5,6\n7,\"x\"\"y\"\n".to_vec());
    let once = merge_csv(first, second, 2).unwrap();
    let again = merge_csv(first, second, 2).unwrap();
    assert_eq!(once.bytes, again.bytes);
}

#[test]
fn merging_tables_twice_gives_the_same_table() {
    let once = merge(table(&["h"], &[&["1"]]), table(&["g"], &[&["2"]]), true);
    let again = merge(table(&["h"], &[&["1"]]), table(&["g"], &[&["2"]]), true);
    assert_eq!(once.headers, again.headers);
    assert_eq!(once.body, again.body);
}

#[test]
fn merged_text_of_inputs_of_different_width_is_an_io_error() {
    let failed = merge_csv(b"h1,h2\n1,2\n", b"h3\n3\n", 0);
    assert_eq!(failed.unwrap_err(), PipelineError::Io);
    let failed = merge_csv(b"h1,h2\n1,2\n", b"h3\n3\n", 1);
    assert_eq!(failed.unwrap_err(), PipelineError::Io);
}

#[test]
fn merged_text_of_an_unreadable_input_is_an_io_error() {
    assert_eq!(merge_csv(b"h1,h2\n1\n", b"h3,h4\n3,4\n", 0).unwrap_err(), PipelineError::Io);
    assert_eq!(merge_csv(b"h1,h2\n1,2\n", b"h3,h4\n3\n", 0).unwrap_err(), PipelineError::Io);
    assert_eq!(merge_csv(b"\xff,h2\n1,2\n", b"h3,h4\n3,4\n", 1).unwrap_err(), PipelineError::Io);
    assert_eq!(merge_csv(b"h1,h2\n1,2\n", b"\xff,h4\n3,4\n", 0).unwrap_err(), PipelineError::Io);
}

#[test]
fn second_header_is_not_read_off_the_primary_rank() {
    let file = merge_csv(b"h1,h2\n1,2\n", b"\xff,h4\n3,4\n", 1).unwrap();
    assert_eq!(file.bytes, b"h1,h2\n1,2\n3,4\n".to_vec());
}

#[test]
fn merged_text_of_empty_inputs() {
    let file = merge_csv(b"", b"", 0).unwrap();
    assert_eq!(file.bytes, b"\"\"\n\"\"\n".to_vec());
    let file = merge_csv(b"", b"", 1).unwrap();
    assert_eq!(file.bytes, b"\"\"\n".to_vec());
    assert_eq!(merge_csv(b"", b"h3,h4\n3,4\n", 0).unwrap_err(), PipelineError::Io);
}

#[test]
fn sums_are_merged_with_their_first_rows_as_headers() {
    let first = add_csv_columns_and_output(b"a,b\n1,2\n3,4\n", b"c,d\n5,6\n7,8\n", 0).unwrap();
    let second = add_csv_columns_and_output(b"a,b\n10,20\n30,40\n", b"c,d\n50,60\n70,80\n", 1).unwrap();
    assert_eq!(first.bytes, b"3,11\n7,15\n".to_vec());
    assert_eq!(second.bytes, b"30,110\n70,150\n".to_vec());
    let merged = merge_csv(&first.bytes, &second.bytes, 0).unwrap();
    assert_eq!(merged.name, "merged_0.csv");
    assert_eq!(merged.bytes, b"3,11\n30,110\n7,15\n70,150\n".to_vec());
}
