use trabalho_r::codec::{
    read_body, read_header, read_table, table_from_records, write_rows, write_table,
};
use trabalho_r::error::PipelineError;
use trabalho_r::schema::{all_equal, check_counts, checa_size, column_counts};
use trabalho_r::table::{all_rows_have_width, clone_row, column_count, Table};

fn row(fields: &[&str]) -> Vec<String> {
    fields.iter().map(|field| field.to_string()).collect()
}

fn rows(list: &[&[&str]]) -> Vec<Vec<String>> {
    list.iter().map(|fields| row(fields)).collect()
}

#[test]
fn table_keeps_header_and_body() {
    let table = Table::new(Some(row(&["h1", "h2"])), rows(&[&["1", "2"], &["3", "4"]])).unwrap();
    assert_eq!(table.header(), &Some(row(&["h1", "h2"])));
    assert_eq!(table.body(), &rows(&[&["1", "2"], &["3", "4"]]));
    assert_eq!(table.row_count(), 2);
    assert_eq!(table.column_count(), Ok(2));
    assert_eq!(table.header_row(), row(&["h1", "h2"]));
    assert_eq!(table.rows(), rows(&[&["h1", "h2"], &["1", "2"], &["3", "4"]]));
}

#[test]
fn table_without_header_has_no_column_count() {
    let table = Table::new(None, rows(&[&["1", "2"], &["3", "4"]])).unwrap();
    assert_eq!(table.header(), &None);
    assert_eq!(table.column_count(), Err(PipelineError::Schema));
    assert_eq!(table.header_row(), Vec::<String>::new());
    assert_eq!(table.rows(), rows(&[&["1", "2"], &["3", "4"]]));
}

#[test]
fn table_refuses_rows_of_other_width_than_the_header() {
    let built = Table::new(Some(row(&["h1", "h2"])), rows(&[&["1", "2"], &["3"]]));
    assert_eq!(built.unwrap_err(), PipelineError::Schema);
    let built = Table::new(Some(row(&["h1", "h2"])), rows(&[&["1", "2", "3"]]));
    assert_eq!(built.unwrap_err(), PipelineError::Schema);
}

#[test]
fn table_refuses_ragged_rows_without_header() {
    let built = Table::new(None, rows(&[&["1", "2"], &["3", "4", "5"]]));
    assert_eq!(built.unwrap_err(), PipelineError::Schema);
}

#[test]
fn table_takes_an_empty_body() {
    let table = Table::new(Some(row(&["a", "b", "c"])), Vec::new()).unwrap();
    assert_eq!(table.row_count(), 0);
    assert_eq!(table.column_count(), Ok(3));
    let table = Table::new(None, Vec::new()).unwrap();
    assert_eq!(table.row_count(), 0);
    assert_eq!(table.rows(), Vec::<Vec<String>>::new());
}

#[test]
fn table_comes_apart_into_its_parts() {
    let table = Table::new(Some(row(&["x", "y"])), rows(&[&["1", "2"]])).unwrap();
    let (header, body) = table.into_parts();
    assert_eq!(header, Some(row(&["x", "y"])));
    assert_eq!(body, rows(&[&["1", "2"]]));
}

#[test]
fn widths_are_compared_row_by_row() {
    assert!(all_rows_have_width(&rows(&[&["1", "2"], &["3", "4"]]), 2));
    assert!(!all_rows_have_width(&rows(&[&["1", "2"], &["3", "4"]]), 3));
    assert!(!all_rows_have_width(&rows(&[&["1", "2"], &["3"]]), 2));
    assert!(all_rows_have_width(&Vec::new(), 5));
}

#[test]
fn rows_are_copied_field_by_field() {
    assert_eq!(clone_row(&row(&["a", "", "c"])), row(&["a", "", "c"]));
    assert_eq!(clone_row(&Vec::new()), Vec::<String>::new());
}

#[test]
fn column_count_is_the_length_of_the_header() {
    assert_eq!(column_count(&row(&["a"])), Ok(1));
    assert_eq!(column_count(&row(&["a", "b", "c", "d"])), Ok(4));
    assert_eq!(column_count(&Vec::new()), Err(PipelineError::Schema));
}

#[test]
fn all_equal_compares_every_count() {
    assert!(all_equal(&[]));
    assert!(all_equal(&[2]));
    assert!(all_equal(&[2, 2]));
    assert!(all_equal(&[2, 2, 2, 2]));
    assert!(!all_equal(&[2, 3]));
    assert!(!all_equal(&[3, 2, 2, 2]));
    assert!(!all_equal(&[2, 2, 3, 2]));
    assert!(!all_equal(&[2, 2, 2, 3]));
}

#[test]
fn schema_guard_reports_a_mismatch() {
    assert_eq!(check_counts(&[2, 2, 2, 2]), Ok(()));
    assert_eq!(check_counts(&[2, 2, 2, 3]), Err(PipelineError::Schema));
    assert_eq!(check_counts(&[]), Ok(()));
}

#[test]
fn checa_size_counts_the_header_fields() {
    assert_eq!(checa_size(b"h1,h2\n1,2\n3,4\n"), Ok(2));
    assert_eq!(checa_size(b"a,b,c\n"), Ok(3));
    assert_eq!(checa_size(b"single"), Ok(1));
    assert_eq!(checa_size(b"\"a,b\",c\n"), Ok(2));
}

#[test]
fn checa_size_looks_at_the_header_only() {
    assert_eq!(checa_size(b"h1,h2\n1,2,3\n"), Ok(2));
    assert_eq!(checa_size(b"h1,h2\n\xff\xfe,2\n"), Ok(2));
}

#[test]
fn checa_size_of_an_empty_text_is_a_schema_error() {
    assert_eq!(checa_size(b""), Err(PipelineError::Schema));
    assert_eq!(checa_size(b"\n\n"), Err(PipelineError::Schema));
}

#[test]
fn checa_size_of_an_unreadable_header_is_an_io_error() {
    assert_eq!(checa_size(b"h1,\xff\xfe\n1,2\n"), Err(PipelineError::Io));
}

#[test]
fn header_is_the_first_record() {
    assert_eq!(read_header(b"h1,h2\n1,2\n"), Ok(row(&["h1", "h2"])));
    assert_eq!(read_header(b""), Ok(Vec::new()));
    assert_eq!(read_header(b"\xff\n"), Err(PipelineError::Io));
}

#[test]
fn body_is_every_record_but_the_first() {
    assert_eq!(read_body(b"h1,h2\n1,2\n3,4\n"), Ok(rows(&[&["1", "2"], &["3", "4"]])));
    assert_eq!(read_body(b"h1,h2\n"), Ok(Vec::new()));
    assert_eq!(read_body(b""), Ok(Vec::new()));
    assert_eq!(read_body(b"h1,h2\n\"a,b\",\"c\"\"d\"\n"), Ok(rows(&[&["a,b", "c\"d"]])));
}

#[test]
fn body_of_a_ragged_text_is_an_io_error() {
    assert_eq!(read_body(b"h1,h2\n1,2,3\n"), Err(PipelineError::Io));
    assert_eq!(read_body(b"h1,h2\n1,2\n3\n"), Err(PipelineError::Io));
}

#[test]
fn body_that_is_not_utf8_is_an_io_error() {
    assert_eq!(read_body(b"h1,h2\n\xff\xfe,2\n"), Err(PipelineError::Io));
}

#[test]
fn body_is_read_under_a_header_that_is_not_utf8() {
    assert_eq!(read_body(b"\xff,h2\n1,2\n"), Ok(rows(&[&["1", "2"]])));
}

#[test]
fn table_is_read_from_text() {
    let table = read_table(b"h1,h2\n1,2\n3,4\n").unwrap();
    assert_eq!(table.header(), &Some(row(&["h1", "h2"])));
    assert_eq!(table.body(), &rows(&[&["1", "2"], &["3", "4"]]));
}

#[test]
fn table_of_an_empty_text_has_no_header() {
    let table = read_table(b"").unwrap();
    assert_eq!(table.header(), &None);
    assert_eq!(table.row_count(), 0);
}

#[test]
fn table_of_an_unreadable_text_is_an_io_error() {
    assert_eq!(read_table(b"h1,h2\n1\n").unwrap_err(), PipelineError::Io);
    assert_eq!(read_table(b"h1,\xff\n1,2\n").unwrap_err(), PipelineError::Io);
}

#[test]
fn table_from_records_checks_the_widths() {
    let table = table_from_records(row(&["a", "b"]), rows(&[&["1", "2"]])).unwrap();
    assert_eq!(table.column_count(), Ok(2));
    let table = table_from_records(Vec::new(), Vec::new()).unwrap();
    assert_eq!(table.header(), &None);
    let built = table_from_records(row(&["a", "b"]), rows(&[&["1"]]));
    assert_eq!(built.unwrap_err(), PipelineError::Schema);
}

#[test]
fn rows_are_written_one_per_line() {
    assert_eq!(write_rows(&rows(&[&["a", "b"], &["1", "2"]])), Ok(b"a,b\n1,2\n".to_vec()));
    assert_eq!(write_rows(&Vec::new()), Ok(Vec::new()));
}

#[test]
fn fields_are_quoted_where_they_must_be() {
    assert_eq!(write_rows(&rows(&[&["a,b", "c\"d"]])), Ok(b"\"a,b\",\"c\"\"d\"\n".to_vec()));
    assert_eq!(write_rows(&rows(&[&["line\nbreak", "x"]])), Ok(b"\"line\nbreak\",x\n".to_vec()));
}

#[test]
fn a_row_without_fields_is_written_as_an_empty_field() {
    assert_eq!(write_rows(&rows(&[&[]])), Ok(b"\"\"\n".to_vec()));
    assert_eq!(write_rows(&rows(&[&[], &[]])), Ok(b"\"\"\n\"\"\n".to_vec()));
    assert_eq!(write_rows(&rows(&[&[""]])), Ok(b"\"\"\n".to_vec()));
}

#[test]
fn ragged_rows_are_not_written() {
    assert_eq!(write_rows(&rows(&[&["a", "b"], &["1"]])), Err(PipelineError::Io));
    assert_eq!(write_rows(&rows(&[&["a"], &["1", "2"]])), Err(PipelineError::Io));
    assert_eq!(write_rows(&rows(&[&[], &["1", "2"]])), Err(PipelineError::Io));
    assert_eq!(write_rows(&rows(&[&["1", "2"], &["3", "4"], &["5", "6", "7"]])), Err(PipelineError::Io));
}

#[test]
fn table_is_written_header_first() {
    let table = Table::new(Some(row(&["h1", "h2"])), rows(&[&["1", "2"]])).unwrap();
    assert_eq!(write_table(&table), Ok(b"h1,h2\n1,2\n".to_vec()));
    let table = Table::new(None, rows(&[&["1", "2"]])).unwrap();
    assert_eq!(write_table(&table), Ok(b"1,2\n".to_vec()));
}

#[test]
fn what_is_written_is_read_back() {
    let header = row(&["name", "note"]);
    let body = rows(&[&["a,b", "say \"hi\""], &["", "two\nlines"], &["é", " spaced "]]);
    let table = Table::new(Some(header.clone()), body.clone()).unwrap();
    let text = write_table(&table).unwrap();
    let back = read_table(&text).unwrap();
    assert_eq!(back.header(), &Some(header));
    assert_eq!(back.body(), &body);
}

#[test]
fn columns_of_every_input_are_counted() {
    let inputs = vec![
        b"a,b\n1,2\n".to_vec(),
        b"c,d\n".to_vec(),
        b"e,f\n5,6\n7,8\n".to_vec(),
        b"g,h,i\n".to_vec(),
    ];
    assert_eq!(column_counts(&inputs), Ok(vec![2, 2, 2, 3]));
    assert_eq!(column_counts(&Vec::new()), Ok(Vec::new()));
}

#[test]
fn first_input_without_count_fails_the_counting() {
    let inputs = vec![b"a,b\n".to_vec(), b"".to_vec(), b"\xff\n".to_vec()];
    assert_eq!(column_counts(&inputs), Err(PipelineError::Schema));
    let inputs = vec![b"a,b\n".to_vec(), b"\xff\n".to_vec(), b"".to_vec()];
    assert_eq!(column_counts(&inputs), Err(PipelineError::Io));
}
