use invoice_mapping::task_list::CellError;
use invoice_mapping::task_list::TaskList;
use invoice_mapping::value::Value;

fn column_of_len(name: &str, len: usize) -> (String, Vec<Value>) {
    (
        String::from(name),
        (0..len).map(|i| Value::Number(i.to_string())).collect(),
    )
}

#[test]
fn placeholder() {
    assert_eq!(2, 1 + 1);
}

#[test]
fn len_is_minimum_over_columns() {
    let even = TaskList::from(vec![
        column_of_len("a", 5),
        column_of_len("b", 5),
        column_of_len("c", 5),
    ]);
    assert_eq!(even.len(), Some(5));

    let ragged = TaskList::from(vec![
        column_of_len("a", 5),
        column_of_len("b", 3),
        column_of_len("c", 5),
    ]);
    assert_eq!(ragged.len(), Some(3));
}

#[test]
fn len_of_empty_store_is_undefined() {
    let empty = TaskList::from(Vec::new());
    assert_eq!(empty.len(), None);
}

#[test]
fn get_returns_the_addressed_cell() {
    let store = TaskList::from(vec![
        (
            String::from("words"),
            vec![
                Value::Text(String::from("aa")),
                Value::Text(String::from("bb")),
            ],
        ),
        (String::from("nums"), vec![Value::Number(String::from("7"))]),
    ]);
    assert_eq!(store.get("words", 1).unwrap().to_string(), "bb");
    assert_eq!(store.get("nums", 0).unwrap().to_string(), "7");
}

#[test]
fn get_unknown_column_fails() {
    let store = TaskList::from(vec![column_of_len("a", 2)]);
    assert_eq!(store.get("b", 0).unwrap_err(), CellError::UnknownColumn);
}

#[test]
fn get_past_the_end_fails() {
    let store = TaskList::from(vec![column_of_len("a", 2)]);
    // The bound is strict: with two cells, index 2 is already out of range.
    assert_eq!(store.get("a", 2).unwrap_err(), CellError::IndexOutOfRange);
    assert_eq!(store.get("a", 999).unwrap_err(), CellError::IndexOutOfRange);
    assert!(store.get("a", 1).is_ok());
}

#[test]
fn value_printable_text() {
    assert_eq!(Value::Text(String::from("hi")).to_string(), "hi");
    assert_eq!(Value::Number(2.5f64.to_string()).to_string(), "2.5");
    assert_eq!(Value::Number(2.0f64.to_string()).to_string(), "2");
    assert_eq!(Value::Empty.to_string(), "");
}
