use combat_tracker::table::Table;

fn strings(cells: &[&str]) -> Vec<String> {
    cells.iter().map(|c| c.to_string()).collect()
}

#[test]
fn columns_are_as_wide_as_their_widest_cell() {
    let mut table = Table::new(strings(&["id", "name", ""]));
    table.add_row(strings(&["1", "alpha", "x"]));
    table.add_row(strings(&["1000", "b", ""]));
    assert_eq!(table.get_column_widths(), vec![4, 5, 1]);
}

#[test]
fn a_header_can_be_the_widest() {
    let mut table = Table::new(strings(&["identifier", "n"]));
    table.add_row(strings(&["1", "22"]));
    assert_eq!(table.get_column_widths(), vec![10, 2]);
}

#[test]
fn without_rows_the_headers_set_the_widths() {
    let table = Table::new(strings(&["a", "bcd", ""]));
    assert_eq!(table.get_column_widths(), vec![1, 3, 0]);
    assert_eq!(table.print(), "a bcd  \n");
}

#[test]
fn a_table_without_columns_prints_empty_lines() {
    let mut table = Table::new(Vec::new());
    assert_eq!(table.get_column_widths(), Vec::<usize>::new());
    assert_eq!(table.print(), "\n");
    table.add_row(Vec::new());
    table.add_row(Vec::new());
    assert_eq!(table.print(), "\n\n\n");
}

#[test]
fn cells_are_left_aligned_and_followed_by_a_blank() {
    let mut table = Table::new(strings(&["id", "name"]));
    table.add_row(strings(&["1", "alpha"]));
    table.add_row(strings(&["1000", "b"]));
    assert_eq!(table.print(), "id   name  \n1    alpha \n1000 b     \n");
}

#[test]
fn print_agrees_with_std_formatting() {
    let headers = strings(&["", "NAME", "INITIATIVE", "HP"]);
    let rows = vec![
        strings(&["*", "Goblin King", "17", "3/40"]),
        strings(&["", "Al", "4", ""]),
        strings(&["", "Brünnhilde", "12", "101/101"]),
    ];
    let mut table = Table::new(headers.clone());
    for row in &rows {
        table.add_row(row.clone());
    }
    let widths: Vec<usize> = (0..headers.len())
        .map(|c| rows.iter().map(|r| r[c].len()).max().unwrap().max(headers[c].len()))
        .collect();
    assert_eq!(table.get_column_widths(), widths);
    let mut expected = String::new();
    for (c, h) in headers.iter().enumerate() {
        expected.push_str(&format!("{:<width$} ", h, width = widths[c]));
    }
    expected.push('\n');
    for row in &rows {
        for (c, cell) in row.iter().enumerate() {
            expected.push_str(&format!("{:<width$} ", cell, width = widths[c]));
        }
        expected.push('\n');
    }
    assert_eq!(table.print(), expected);
}

#[test]
fn widths_count_bytes_and_padding_counts_characters() {
    let mut table = Table::new(strings(&["n"]));
    table.add_row(strings(&["é"]));
    table.add_row(strings(&["ab"]));
    assert_eq!(table.get_column_widths(), vec![2]);
    assert_eq!(table.print(), "n  \né  \nab \n");
}

#[test]
fn rows_print_in_the_order_they_were_added() {
    let mut table = Table::new(strings(&["k"]));
    for k in ["3", "1", "2"] {
        table.add_row(strings(&[k]));
    }
    assert_eq!(table.print(), "k \n3 \n1 \n2 \n");
}
