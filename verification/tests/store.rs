use lcsc_scrape::jlc::{
    jlc_item_pairs, jlc_part_info, JlcComponentLibraryType, JlcComponentPrice, JlcPager,
    JlcPartInfo, JlcSmtCompListData, JlcSmtCompListItem, JlcSmtCompListResult,
};
use lcsc_scrape::postprocess::{
    basic_flag_value, number_text, post_process_plan, pp_column, resistance_suffix,
    select_column_statement, update_pp_statement, voltage_unit, NumericColumn, PostProcessKind,
    ResistanceSuffix, VoltageUnit,
};
use lcsc_scrape::query::{csv_line, query_table, QueryValue};
use lcsc_scrape::sql::{
    add_column, add_column_type, new_columns, record_column, save_pairs_statement, DbType,
};

fn s(x: &str) -> String {
    x.to_string()
}

fn pair(k: &str, v: &str) -> (String, String) {
    (s(k), s(v))
}

fn item(code: &str, kind: JlcComponentLibraryType, stock: isize) -> JlcSmtCompListItem {
    JlcSmtCompListItem {
        stock_count: stock,
        component_code: s(code),
        component_library_type: kind,
        component_prices: vec![],
        describe: None,
        data_manual_url: None,
    }
}

fn result(code: isize, total: isize, list: Vec<JlcSmtCompListItem>, msg: Option<&str>) -> JlcSmtCompListResult {
    JlcSmtCompListResult {
        code,
        data: JlcSmtCompListData { total, list },
        message: msg.map(s),
    }
}

fn codes(r: &JlcSmtCompListResult) -> Vec<String> {
    r.data.list.iter().map(|i| i.component_code.clone()).collect()
}

#[test]
fn library_type() {
    assert!(!JlcComponentLibraryType::Expand.is_basic());
    assert!(JlcComponentLibraryType::Basic.is_basic());
    assert!(JlcComponentLibraryType::Base.is_basic());
    assert_eq!(JlcComponentLibraryType::default(), JlcComponentLibraryType::Basic);
}

#[test]
fn merge_combines_pages() {
    let mut a = result(200, 3, vec![item("C1", JlcComponentLibraryType::Basic, 1)], Some("one"));
    a.merge(result(201, 2, vec![item("C2", JlcComponentLibraryType::Expand, 2)], Some("two")));
    assert_eq!(a.code, 201);
    assert_eq!(a.data.total, 3);
    assert_eq!(codes(&a), vec![s("C1"), s("C2")]);
    assert_eq!(a.message, Some(s("one\ntwo")));
    a.merge(result(200, 7, vec![], None));
    assert_eq!(a.data.total, 7);
    assert_eq!(a.message, Some(s("one\ntwo")));
    let mut b = JlcSmtCompListResult::default();
    b.merge(result(200, 1, vec![], Some("m")));
    assert_eq!(b.message, Some(s("m")));
}

#[test]
fn merge_is_associative_on_examples() {
    let page = |n: &str, t: isize, m: Option<&str>| result(200, t, vec![item(n, JlcComponentLibraryType::Basic, 0)], m);
    let mut left = page("A", 1, Some("a"));
    left.merge(page("B", 5, None));
    left.merge(page("C", 2, Some("c")));
    let mut right_tail = page("B", 5, None);
    right_tail.merge(page("C", 2, Some("c")));
    let mut right = page("A", 1, Some("a"));
    right.merge(right_tail);
    assert_eq!(codes(&left), codes(&right));
    assert_eq!(left.data.total, right.data.total);
    assert_eq!(left.message, right.message);
    assert_eq!(left.code, right.code);
}

#[test]
fn pager_requests_and_stops() {
    let mut p = JlcPager::new();
    assert_eq!(
        p.request_form("C25804"),
        vec![
            pair("pageSize", "10"),
            pair("searchSource", "search"),
            pair("keyword", "C25804"),
            pair("currentPage", "1"),
        ]
    );
    assert_eq!(p.accept_page(result(200, 2, vec![item("A", JlcComponentLibraryType::Basic, 0)], None)), Ok(true));
    assert_eq!(p.current_page, 2);
    assert_eq!(p.request_form("x")[3], pair("currentPage", "2"));
    assert_eq!(p.accept_page(result(500, 2, vec![], None)), Err(500));
    assert_eq!(p.current_page, 2);
    assert_eq!(p.accept_page(result(200, 2, vec![item("B", JlcComponentLibraryType::Basic, 0)], None)), Ok(false));
    assert_eq!(codes(&p.merged), vec![s("A"), s("B")]);
    let mut q = JlcPager::new();
    assert_eq!(q.accept_page(result(200, 0, vec![], None)), Ok(false));
}

#[test]
fn item_pairs() {
    let mut it = item("C1", JlcComponentLibraryType::Basic, 1500);
    it.describe = Some(s("10k resistor"));
    it.component_prices = vec![
        JlcComponentPrice { product_price: s("0.0012"), start_number: 20, end_number: 199 },
        JlcComponentPrice { product_price: s("0.001"), start_number: 200, end_number: -1 },
    ];
    assert_eq!(
        jlc_item_pairs(&it),
        vec![
            pair("JLC_Stock", "1500"),
            pair("JLC_Description", "10k resistor"),
            pair("Price JLC 20+", "0.0012"),
            pair("Price JLC 200+", "0.001"),
        ]
    );
    let mut it = item("C2", JlcComponentLibraryType::Expand, -3);
    it.data_manual_url = Some(s("http://x/d.pdf"));
    assert_eq!(
        jlc_item_pairs(&it),
        vec![pair("JLC_Stock", "-3"), pair("JLC_Datasheet", "http://x/d.pdf")]
    );
}

#[test]
fn part_info_outcomes() {
    let r = result(
        200,
        3,
        vec![
            item("C9", JlcComponentLibraryType::Basic, 1),
            item("C1", JlcComponentLibraryType::Expand, 2),
            item("C1", JlcComponentLibraryType::Basic, 3),
        ],
        None,
    );
    match jlc_part_info(&r, "C1") {
        JlcPartInfo::Found { basic, pairs } => {
            assert!(!basic);
            assert_eq!(pairs, vec![pair("JLC_Stock", "2")]);
        }
        _ => panic!("part C1 is in the result"),
    }
    assert!(matches!(jlc_part_info(&r, "C5"), JlcPartInfo::Missing));
    let bad = result(404, 0, vec![item("C1", JlcComponentLibraryType::Basic, 1)], None);
    assert!(matches!(jlc_part_info(&bad, "C1"), JlcPartInfo::BadCode(404)));
}

#[test]
fn column_statements() {
    assert_eq!(DbType::Text.type_string(), "text");
    assert_eq!(DbType::Integer.type_string(), "integer");
    assert_eq!(DbType::Real.type_string(), "real");
    let mut cols = vec![s("Package")];
    assert_eq!(add_column(&cols, "Package"), None);
    assert_eq!(
        add_column_type(&cols, "pp_Basic", DbType::Integer),
        Some((
            s("alter table parts add column \"pp_Basic\" integer"),
            s("insert into keys (key) values (\"pp_Basic\")")
        ))
    );
    assert_eq!(cols, vec![s("Package")]);
    record_column(&mut cols, s("pp_Basic"));
    assert_eq!(cols, vec![s("Package"), s("pp_Basic")]);
    record_column(&mut cols, s("pp_Basic"));
    assert_eq!(cols, vec![s("Package"), s("pp_Basic")]);
    assert_eq!(add_column_type(&cols, "pp_Basic", DbType::Integer), None);
}

#[test]
fn missing_columns() {
    let cols = vec![s("A")];
    assert_eq!(new_columns(&cols, &vec![pair("A", "1"), pair("B", "2"), pair("C", "3")]), vec![s("B"), s("C")]);
}

#[test]
fn save_statements() {
    assert_eq!(save_pairs_statement("C1", &vec![], true), None);
    let pairs = vec![pair("Package", "0603"), pair("Note", "say \"hi\"")];
    assert_eq!(
        save_pairs_statement("C1", &pairs, true).unwrap(),
        "UPDATE parts SET \"Package\"=\"0603\" , \"Note\"=\"say hi\"  WHERE part_number = \"C1\""
    );
    assert_eq!(
        save_pairs_statement("C1", &pairs, false).unwrap(),
        "INSERT INTO parts (part_number, \"Package\", \"Note\") values (\"C1\", \"0603\", \"say hi\")"
    );
}

#[test]
fn plan_of_post_processing() {
    let cols = vec![s("Price 10+"), s("pp_Price 10+"), s("Voltage - Input"), s("Package"), s("Price JLC 1+")];
    let plan: Vec<(String, PostProcessKind)> =
        post_process_plan(&cols).into_iter().map(|st| (st.column, st.kind)).collect();
    assert_eq!(
        plan,
        vec![
            (s("Basic"), PostProcessKind::Basic),
            (s("Resistance (Ohms)"), PostProcessKind::Numeric(NumericColumn::Resistance)),
            (s("Price 10+"), PostProcessKind::Numeric(NumericColumn::Price)),
            (s("Price JLC 1+"), PostProcessKind::Numeric(NumericColumn::Price)),
            (s("Voltage - Input"), PostProcessKind::Numeric(NumericColumn::Voltage)),
        ]
    );
    assert_eq!(PostProcessKind::Basic.db_type(), DbType::Integer);
    assert_eq!(PostProcessKind::Numeric(NumericColumn::Price).db_type(), DbType::Real);
}

#[test]
fn post_process_statements() {
    assert_eq!(pp_column("Basic"), "pp_Basic");
    assert_eq!(select_column_statement("Basic"), "SELECT part_number, \"Basic\" FROM parts");
    assert_eq!(
        update_pp_statement("pp_Basic", "1", "C1"),
        "\n                UPDATE parts SET \"pp_Basic\" = 1\n                WHERE part_number = \"C1\""
    );
}

#[test]
fn basic_flags() {
    assert_eq!(basic_flag_value(Some(s("true"))), Some(s("1")));
    assert_eq!(basic_flag_value(Some(s("false"))), Some(s("0")));
    assert_eq!(basic_flag_value(Some(s("True"))), None);
    assert_eq!(basic_flag_value(None), None);
}

#[test]
fn numbers_are_found() {
    assert_eq!(number_text(NumericColumn::Price, "US$0.0123"), Some(s("0.0123")));
    assert_eq!(number_text(NumericColumn::Price, "12"), Some(s("12")));
    assert_eq!(number_text(NumericColumn::Price, "US$1.2.3"), None);
    assert_eq!(number_text(NumericColumn::Voltage, "3.3V"), Some(s("3.3")));
    assert_eq!(number_text(NumericColumn::Voltage, "-5Vin~5V"), Some(s("-5")));
    assert_eq!(number_text(NumericColumn::Voltage, "500mV"), Some(s("500")));
    assert_eq!(number_text(NumericColumn::Voltage, "V"), None);
    assert_eq!(number_text(NumericColumn::Resistance, "4.7K"), Some(s("4.7")));
    assert_eq!(number_text(NumericColumn::Resistance, "10"), Some(s("10")));
    assert_eq!(number_text(NumericColumn::Resistance, "10 Ohm"), None);
}

#[test]
fn resistance_suffixes() {
    assert_eq!(resistance_suffix("4.7K"), Some(ResistanceSuffix::Kilo));
    assert_eq!(resistance_suffix("1M"), Some(ResistanceSuffix::Mega));
    assert_eq!(resistance_suffix("5m"), Some(ResistanceSuffix::Milli));
    assert_eq!(resistance_suffix("5u"), Some(ResistanceSuffix::Micro));
    assert_eq!(resistance_suffix("5n"), Some(ResistanceSuffix::Nano));
    assert_eq!(resistance_suffix("100"), None);
}

#[test]
fn voltage_units() {
    assert_eq!(voltage_unit("500mV"), VoltageUnit::Millivolt);
    assert_eq!(voltage_unit("3.3V"), VoltageUnit::Volt);
    assert_eq!(voltage_unit("5Vin"), VoltageUnit::Volt);
    assert_eq!(voltage_unit("-1.5mV~2V"), VoltageUnit::Millivolt);
    assert_eq!(voltage_unit("mV"), VoltageUnit::Volt);
}

#[test]
fn csv_lines() {
    assert_eq!(csv_line(&vec![]), "");
    assert_eq!(csv_line(&vec![s("a")]), "a");
    assert_eq!(csv_line(&vec![s("a"), s(""), s("c")]), "a, , c");
}

fn cell(name: &str, v: QueryValue) -> (String, QueryValue) {
    (s(name), v)
}

#[test]
fn query_tables() {
    let rows = vec![
        vec![
            cell("part_number", QueryValue::Text(b"C1".to_vec())),
            cell("note", QueryValue::Null),
            cell("stock", QueryValue::Integer(-5)),
        ],
        vec![
            cell("part_number", QueryValue::Text(b"C2".to_vec())),
            cell("note", QueryValue::Null),
            cell("stock", QueryValue::Real(s("2.5"))),
        ],
    ];
    let t = query_table(&rows, true).unwrap();
    assert_eq!(t.columns, vec![s("part_number"), s("stock")]);
    assert_eq!(t.rows, vec![vec![s("C1"), s("-5")], vec![s("C2"), s("2.5")]]);
    let t = query_table(&rows, false).unwrap();
    assert_eq!(t.columns, vec![s("part_number"), s("note"), s("stock")]);
    assert_eq!(t.rows[1], vec![s("C2"), s(""), s("2.5")]);
    let blob = vec![vec![cell("d", QueryValue::Blob), cell("t", QueryValue::Text("µ".as_bytes().to_vec()))]];
    let t = query_table(&blob, true).unwrap();
    assert_eq!(t.rows, vec![vec![s("[BLOB]"), s("µ")]]);
    let bad = vec![vec![cell("t", QueryValue::Text(vec![0xff, 0xfe]))]];
    assert!(query_table(&bad, false).is_err());
    assert!(query_table(&vec![], false).unwrap().columns.is_empty());
}

#[test]
fn query_columns_shown_once() {
    let rows = vec![
        vec![cell("a", QueryValue::Integer(1)), cell("a", QueryValue::Integer(2)), cell("b", QueryValue::Null)],
        vec![cell("a", QueryValue::Integer(3)), cell("a", QueryValue::Null), cell("b", QueryValue::Null)],
    ];
    let t = query_table(&rows, true).unwrap();
    assert_eq!(t.columns, vec![s("a")]);
    assert_eq!(t.rows, vec![vec![s("2")], vec![s("")]]);
    let t = query_table(&rows, false).unwrap();
    assert_eq!(t.columns, vec![s("a"), s("b")]);
}

#[test]
fn every_key_gets_a_column() {
    let mut cols = vec![s("A")];
    let pairs = vec![pair("A", "1"), pair("B", "2"), pair("B", "3")];
    for c in new_columns(&cols, &pairs) {
        if add_column(&cols, &c).is_some() {
            record_column(&mut cols, c);
        }
    }
    assert_eq!(cols, vec![s("A"), s("B")]);
    assert!(pairs.iter().all(|p| cols.contains(&p.0)));
}

#[test]
fn missing_columns_are_recorded_once_in_order() {
    let mut cols = vec![s("A"), s("C")];
    let pairs = vec![pair("B", "1"), pair("A", "2"), pair("D", "3"), pair("B", "4")];
    let mut statements = Vec::new();
    for c in new_columns(&cols, &pairs) {
        if let Some(st) = add_column(&cols, &c) {
            statements.push(st);
            record_column(&mut cols, c);
        }
    }
    assert_eq!(cols, vec![s("A"), s("C"), s("B"), s("D")]);
    assert_eq!(
        statements,
        vec![
            (
                s("alter table parts add column \"B\" text"),
                s("insert into keys (key) values (\"B\")")
            ),
            (
                s("alter table parts add column \"D\" text"),
                s("insert into keys (key) values (\"D\")")
            ),
        ]
    );
    assert!(new_columns(&cols, &pairs).is_empty());
}

#[test]
fn second_post_processing_has_the_same_plan() {
    let cols = vec![s("Basic"), s("Price 10+"), s("Voltage - Input"), s("Package")];
    let first: Vec<(String, PostProcessKind)> =
        post_process_plan(&cols).into_iter().map(|st| (st.column, st.kind)).collect();
    let mut after = cols.clone();
    for (c, _) in first.iter() {
        after.push(pp_column(c));
    }
    let second: Vec<(String, PostProcessKind)> =
        post_process_plan(&after).into_iter().map(|st| (st.column, st.kind)).collect();
    assert_eq!(first, second);
    assert!(!second.iter().any(|(c, _)| c.starts_with("pp_")));
}
