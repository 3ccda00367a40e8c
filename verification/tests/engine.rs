use invoice_mapping::task_list::TaskList;
use invoice_mapping::template_mapping::ComputedMappingOutput;
use invoice_mapping::template_mapping::TemplateMapping;
use invoice_mapping::template_mapping::TemplateMappingError;
use invoice_mapping::template_mapping::TemplateMappingOutputs;
use invoice_mapping::value::Value;

fn text_column(name: &str, cells: &[&str]) -> (String, Vec<Value>) {
    (
        String::from(name),
        cells.iter().map(|c| Value::Text(String::from(*c))).collect(),
    )
}

fn number_column(name: &str, cells: &[f64]) -> (String, Vec<Value>) {
    (
        String::from(name),
        cells.iter().map(|c| Value::Number(c.to_string())).collect(),
    )
}

fn get_fake_task_list() -> TaskList {
    TaskList::from(vec![
        text_column("Test composé", &["some", "things", "in", "an", "array"]),
        text_column("Test Encore", &["yet", "other", "things", "in", "there"]),
        number_column("Test Floats", &[1.1, 2.0, 3.3, 9.2, 10.0]),
        (
            String::from("Test Ints"),
            [1i64, 2, 3, 9, 10]
                .iter()
                .map(|i| Value::Number(i.to_string()))
                .collect(),
        ),
    ])
}

fn get_fake_mapping() -> TemplateMapping {
    TemplateMapping {
        template_name: String::from("test template"),
        invoice_name: String::from("test invoice"),
        inputs: vec![
            (String::from("tc"), String::from("Test composé")),
            (String::from("te"), String::from("Test Encore")),
            (String::from("tf"), String::from("Test Floats")),
            (String::from("ti"), String::from("Test Ints")),
        ],
        outputs: TemplateMappingOutputs {
            name: String::from("$nom ${tc}"),
            quantity: String::from("${ti}"),
            price: String::from("${tf}"),
            description: String::from("${tc} ${te}"),
            sub_total: String::from("${tf}"),
            total: String::from("${tf}"),
            unit_name: String::from("${te}${tc}"),
        },
    }
}

fn as_f64(s: &str) -> f64 {
    s.parse::<f64>().unwrap()
}

#[test]
fn apply_line_str() {
    let mapping = get_fake_mapping();
    let task_list = get_fake_task_list();

    let line_1 = mapping.apply_line_str("${tc}", &task_list, 3).unwrap();
    assert_eq!(line_1, "an");

    let line_2 = mapping.apply_line_str("${tc} aaa", &task_list, 3).unwrap();
    assert_eq!(line_2, "an aaa");

    let line_3 = mapping
        .apply_line_str("${tc} ${te}", &task_list, 3)
        .unwrap();
    assert_eq!(line_3, "an in");

    let line_4 = mapping
        .apply_line_str(" some ${te} where ${tc} the ", &task_list, 3)
        .unwrap();
    assert_eq!(line_4, " some in where an the ");

    let line_5 = mapping.apply_line_str("yo", &task_list, 3).unwrap();
    assert_eq!(line_5, "yo");

    let line_6 = mapping
        .apply_line_str("yo ${te} yo ${te} yo ${te}", &task_list, 3)
        .unwrap();
    assert_eq!(line_6, "yo in yo in yo in");

    let line_7 = mapping.apply_line_str("yo", &task_list, 999).unwrap();
    assert_eq!(line_7, "yo");

    let line_8 = mapping.apply_line_str("", &task_list, 999).unwrap();
    assert_eq!(line_8, "");
}

#[test]
fn apply_line_number() {
    let mapping = get_fake_mapping();
    let task_list = get_fake_task_list();

    let line_1 = mapping
        .apply_line_number_text("${tf} a", &task_list, 3)
        .unwrap();
    assert_eq!(as_f64(&line_1), 9.2);

    let line_2 = mapping.apply_line_number_text("${tf} ${ti}", &task_list, 3);
    assert!(line_2.is_err());

    let line_3 = mapping
        .apply_line_number_text("${tf}", &task_list, 2)
        .unwrap();
    assert_eq!(as_f64(&line_3), 3.3);

    let line_4 = mapping.apply_line_i64("${ti}", &task_list, 3).unwrap();
    assert_eq!(line_4, 9);

    let line_5 = mapping.apply_line_number_text("yo", &task_list, 3);
    assert!(line_5.is_err());

    let line_6 = mapping.apply_line_number_text("", &task_list, 3);
    assert!(line_6.is_err());
}

#[test]
fn apply() {
    let mapping = get_fake_mapping();
    let task_list = get_fake_task_list();

    let items: Vec<ComputedMappingOutput> = mapping.apply(&task_list).unwrap();

    assert_eq!(items[0].name, "$nom some");
    assert_eq!(items[0].description, "some yet");
    assert_eq!(items[0].unit_name, "yetsome");
    assert_eq!(as_f64(&items[0].price), 1.1);
    assert_eq!(as_f64(&items[0].total), 1.1);
    assert_eq!(items[0].quantity, 1);
    assert_eq!(as_f64(&items[0].sub_total), 1.1);

    assert_eq!(items[1].name, "$nom things");
    assert_eq!(items[1].description, "things other");
    assert_eq!(items[1].unit_name, "otherthings");
    assert_eq!(as_f64(&items[1].price), 2.0);
    assert_eq!(as_f64(&items[1].total), 2.0);
    assert_eq!(items[1].quantity, 2);
    assert_eq!(as_f64(&items[1].sub_total), 2.0);

    assert_eq!(items[2].name, "$nom in");
    assert_eq!(items[2].description, "in things");
    assert_eq!(items[2].unit_name, "thingsin");
    assert_eq!(as_f64(&items[2].price), 3.3);
    assert_eq!(as_f64(&items[2].total), 3.3);
    assert_eq!(items[2].quantity, 3);
    assert_eq!(as_f64(&items[2].sub_total), 3.3);

    assert_eq!(items[3].name, "$nom an");
    assert_eq!(items[3].description, "an in");
    assert_eq!(items[3].unit_name, "inan");
    assert_eq!(as_f64(&items[3].price), 9.2);
    assert_eq!(as_f64(&items[3].total), 9.2);
    assert_eq!(items[3].quantity, 9);
    assert_eq!(as_f64(&items[3].sub_total), 9.2);

    assert_eq!(items[4].name, "$nom array");
    assert_eq!(items[4].description, "array there");
    assert_eq!(items[4].unit_name, "therearray");
    assert_eq!(as_f64(&items[4].price), 10.0);
    assert_eq!(as_f64(&items[4].total), 10.0);
    assert_eq!(items[4].quantity, 10);
    assert_eq!(as_f64(&items[4].sub_total), 10.0);
}

#[test]
fn end_to_end_scenario() {
    let store = TaskList::from(vec![
        text_column("Task", &["some", "things", "in", "an", "array"]),
        number_column("Duration", &[1.1, 2.0, 3.3, 9.2, 10.0]),
    ]);
    let mapping = TemplateMapping {
        template_name: String::from("t"),
        invoice_name: String::from("i"),
        inputs: vec![
            (String::from("tc"), String::from("Task")),
            (String::from("tf"), String::from("Duration")),
        ],
        outputs: TemplateMappingOutputs {
            name: String::from("${tc}"),
            quantity: String::from("1"),
            price: String::from("${tf}"),
            description: String::from(""),
            sub_total: String::from("0"),
            total: String::from("0"),
            unit_name: String::from(""),
        },
    };
    let records = mapping.apply(&store).unwrap();
    assert_eq!(records.len(), 5);
    assert_eq!(records[3].name, "an");
    assert_eq!(as_f64(&records[3].price), 9.2);
}

#[test]
fn unbound_alias_scenario() {
    let task_list = get_fake_task_list();
    let mut mapping = get_fake_mapping();

    // The binding table has no entry for `x`.
    for row in [0usize, 3, 999] {
        let r = mapping.apply_line_str("${x}", &task_list, row);
        assert_eq!(
            r.unwrap_err(),
            TemplateMappingError::UnboundAlias(String::from("x"))
        );
    }

    // The whole batch aborts at the first field using it: no records.
    mapping.outputs.name = String::from("${x}");
    let r = mapping.apply(&task_list);
    assert_eq!(
        r.unwrap_err(),
        TemplateMappingError::UnboundAlias(String::from("x"))
    );
}

#[test]
fn failure_isolation_scenario() {
    // Row 2 of 5 holds a cell that does not parse as a number: the batch
    // returns only that failure, never the four otherwise-valid records.
    let store = TaskList::from(vec![(
        String::from("Num"),
        vec![
            Value::Number(String::from("1")),
            Value::Number(String::from("2")),
            Value::Text(String::from("abc")),
            Value::Number(String::from("4")),
            Value::Number(String::from("5")),
        ],
    )]);
    let mapping = TemplateMapping {
        template_name: String::from("t"),
        invoice_name: String::from("i"),
        inputs: vec![(String::from("n"), String::from("Num"))],
        outputs: TemplateMappingOutputs {
            name: String::from("row"),
            quantity: String::from("1"),
            price: String::from("${n}"),
            description: String::from(""),
            sub_total: String::from("0"),
            total: String::from("0"),
            unit_name: String::from(""),
        },
    };
    let r = mapping.apply(&store);
    assert_eq!(
        r.unwrap_err(),
        TemplateMappingError::NumberParseFailure(String::from("abc"))
    );
}

#[test]
fn multi_placeholder_numeric_fails() {
    let mapping = get_fake_mapping();
    let task_list = get_fake_task_list();
    for line in ["${tf} ${ti}", "${tf}${tf}", "a ${tc} b ${te} c"] {
        for row in [0usize, 4, 999] {
            let r = mapping.apply_line_i64(line, &task_list, row);
            assert_eq!(
                r.unwrap_err(),
                TemplateMappingError::UnsupportedMultiPlaceholderNumeric
            );
            let r = mapping.apply_line_number_text(line, &task_list, row);
            assert_eq!(
                r.unwrap_err(),
                TemplateMappingError::UnsupportedMultiPlaceholderNumeric
            );
        }
    }
}

#[test]
fn cell_lookup_failure_carries_column() {
    let task_list = get_fake_task_list();
    let mapping = TemplateMapping {
        template_name: String::from("t"),
        invoice_name: String::from("i"),
        inputs: vec![(String::from("gone"), String::from("No Such Column"))],
        outputs: TemplateMappingOutputs {
            name: String::from("${gone}"),
            quantity: String::from("1"),
            price: String::from("0"),
            description: String::from(""),
            sub_total: String::from("0"),
            total: String::from("0"),
            unit_name: String::from(""),
        },
    };
    let r = mapping.apply_line_str("${gone}", &task_list, 0);
    assert_eq!(
        r.unwrap_err(),
        TemplateMappingError::CellLookupFailed(String::from("No Such Column"))
    );
    // A row index past the bound column's end fails the same way.
    let r = mapping.apply(&task_list);
    assert_eq!(
        r.unwrap_err(),
        TemplateMappingError::CellLookupFailed(String::from("No Such Column"))
    );
}

#[test]
fn row_out_of_range_fails_lookup() {
    let task_list = get_fake_task_list();
    let mapping = get_fake_mapping();
    // Row 5 does not exist: the columns hold five cells, rows 0 through 4.
    let r = mapping.apply_line_str("${tc}", &task_list, 5);
    assert_eq!(
        r.unwrap_err(),
        TemplateMappingError::CellLookupFailed(String::from("Test composé"))
    );
}

#[test]
fn empty_table_fails() {
    let store = TaskList::from(Vec::new());
    let mapping = get_fake_mapping();
    let r = mapping.apply(&store);
    assert_eq!(r.unwrap_err(), TemplateMappingError::EmptyTable);
}

#[test]
fn no_placeholder_numeric_parses_literal() {
    let mapping = get_fake_mapping();
    let task_list = get_fake_task_list();
    assert_eq!(
        mapping.apply_line_i64("42", &task_list, 999).unwrap(),
        42i64
    );
    assert_eq!(
        mapping.apply_line_i64("-7", &task_list, 0).unwrap(),
        -7i64
    );
    let p = mapping
        .apply_line_number_text("2.5", &task_list, 999)
        .unwrap();
    assert_eq!(as_f64(&p), 2.5);
}
