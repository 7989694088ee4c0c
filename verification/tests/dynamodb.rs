use awsm::app::Action;
use awsm::aws::dynamodb::{
    billing_mode_text, build_scan_result, collect_columns, format_attribute_value, format_aws_error, format_size,
    key_attributes, key_condition_expression, make_item, AttrValue, IndexInfo, TableDetail, TableInfo,
};
use awsm::input::{KeyCode, KeyEvent, KeyModifiers};
use awsm::ui::services::dynamodb::{column_layout, DdbFilter, DdbScreen, DynamoDbView, QbField};
use awsm::aws::dynamodb::{filter_expression, filter_name, filter_value_name};

fn ddb_key(code: KeyCode) -> KeyEvent {
    KeyEvent {
        code,
        modifiers: KeyModifiers { shift: false, control: false, alt: false, super_key: false, hyper: false, meta: false },
    }
}

fn ddb_char(c: char) -> KeyEvent {
    ddb_key(KeyCode::Char(c))
}

fn table(name: &str, status: &str, items: i64, size: i64) -> TableInfo {
    TableInfo { name: name.to_string(), status: status.to_string(), item_count: items, size_bytes: size }
}

fn detail_with_index() -> TableDetail {
    TableDetail {
        name: "orders".to_string(),
        status: "ACTIVE".to_string(),
        partition_key: "pk".to_string(),
        partition_key_type: "S".to_string(),
        sort_key: Some("sk".to_string()),
        sort_key_type: Some("S".to_string()),
        item_count: 1000,
        size_bytes: 2048,
        billing_mode: "PAY_PER_REQUEST".to_string(),
        indexes: vec![IndexInfo {
            name: "by_user".to_string(),
            partition_key: "user".to_string(),
            partition_key_type: "S".to_string(),
            sort_key: Some("created".to_string()),
            sort_key_type: Some("S".to_string()),
            item_count: 10,
        }],
    }
}

fn pairs(names: &[&str]) -> Vec<(String, AttrValue)> {
    names.iter().map(|n| (n.to_string(), AttrValue::S(format!("{}-v", n)))).collect()
}

#[test]
fn attribute_values_are_shown_by_kind() {
    assert_eq!(format_attribute_value(&AttrValue::S("x".into())), "x");
    assert_eq!(format_attribute_value(&AttrValue::N("12.5".into())), "12.5");
    assert_eq!(format_attribute_value(&AttrValue::Bool(true)), "true");
    assert_eq!(format_attribute_value(&AttrValue::Null), "null");
    assert_eq!(format_attribute_value(&AttrValue::Ss(vec!["a".into(), "b".into()])), "[a, b]");
    assert_eq!(format_attribute_value(&AttrValue::Ns(vec![])), "[]");
    assert_eq!(format_attribute_value(&AttrValue::L(vec![])), "[]");
    assert_eq!(format_attribute_value(&AttrValue::L(vec![AttrValue::Null, AttrValue::Null])), "[2 items]");
    assert_eq!(format_attribute_value(&AttrValue::M(vec![])), "{}");
    assert_eq!(format_attribute_value(&AttrValue::M(vec![("a".into(), AttrValue::Null)])), "{1 keys}");
    assert_eq!(format_attribute_value(&AttrValue::B(vec![1, 2])), "<binary>");
    assert_eq!(format_attribute_value(&AttrValue::Bs(vec![])), "<binary set>");
    assert_eq!(format_attribute_value(&AttrValue::Unknown), "<unknown>");
}

#[test]
fn dynamodb_error_messages() {
    assert_eq!(
        format_aws_error("scan table", "dispatch failure: timeout"),
        "AWS credentials expired or missing. Run: aws sso login --profile <your-profile> (r to retry)"
    );
    assert_eq!(
        format_aws_error("scan table", "AccessDeniedException"),
        "Access denied for scan table. Check your IAM permissions."
    );
    assert_eq!(format_aws_error("scan table", "boom"), "Failed to scan table: boom");
}

#[test]
fn table_size_is_human() {
    assert_eq!(format_size(512), "512 B");
    assert_eq!(format_size(2048), "2.0 KB");
}

#[test]
fn columns_are_sorted_and_unique() {
    let items = vec![make_item(pairs(&["b", "a"])), make_item(pairs(&["c", "a"]))];
    assert_eq!(collect_columns(&items), vec!["a".to_string(), "b".to_string(), "c".to_string()]);
    let result = build_scan_result(vec![pairs(&["z", "y"]), pairs(&["y"])], None, 7);
    assert_eq!(result.columns, vec!["y".to_string(), "z".to_string()]);
    assert_eq!(result.items.len(), 2);
    assert_eq!(result.items[0].attributes[0], ("z".to_string(), "z-v".to_string()));
    assert_eq!(result.scanned_count, 7);
}

#[test]
fn item_attribute_lookup_takes_the_last_pair() {
    let item = make_item(vec![("a".into(), AttrValue::S("1".into())), ("a".into(), AttrValue::S("2".into()))]);
    assert_eq!(item.attribute("a").map(|s| s.as_str()), Some("2"));
    assert_eq!(item.attribute("b"), None);
}

#[test]
fn key_schema_is_read() {
    let schema = vec![("id".to_string(), "HASH".to_string()), ("ts".to_string(), "RANGE".to_string())];
    let defs = vec![("ts".to_string(), "N".to_string()), ("id".to_string(), "S".to_string())];
    let k = key_attributes(&schema, &defs);
    assert_eq!(k.partition_key, "id");
    assert_eq!(k.partition_key_type, "S");
    assert_eq!(k.sort_key.as_deref(), Some("ts"));
    assert_eq!(k.sort_key_type.as_deref(), Some("N"));
    let only_hash = key_attributes(&vec![("id".to_string(), "HASH".to_string())], &Vec::new());
    assert_eq!(only_hash.partition_key_type, "");
    assert_eq!(only_hash.sort_key, None);
}

#[test]
fn billing_mode_defaults_to_provisioned() {
    assert_eq!(billing_mode_text(None), "PROVISIONED");
    assert_eq!(billing_mode_text(Some("PAY_PER_REQUEST".into())), "PAY_PER_REQUEST");
}

#[test]
fn key_conditions_by_sort_key_condition() {
    assert_eq!(key_condition_expression(None), "#pk = :pkval");
    assert_eq!(key_condition_expression(Some("begins_with")), "#pk = :pkval AND begins_with(#sk, :skval)");
    assert_eq!(key_condition_expression(Some("<=")), "#pk = :pkval AND #sk <= :skval");
    assert_eq!(key_condition_expression(Some("bogus")), "#pk = :pkval AND #sk = :skval");
}

#[test]
fn tables_sort_cycle_and_filter() {
    let mut v = DynamoDbView::default();
    v.set_tables(vec![table("beta", "ACTIVE", 5, 10), table("Alpha", "CREATING", 9, 1), table("gamma", "ACTIVE", 1, 99)]);
    assert_eq!(v.filtered_tables(), vec![0, 1, 2]);
    assert_eq!(v.handle_key(ddb_char('s')), Some(Action::NoOp));
    assert_eq!(v.sort_col_idx, Some(0));
    assert_eq!(v.filtered_tables(), vec![1, 0, 2]);
    v.handle_key(ddb_char('x'));
    assert_eq!(v.filtered_tables(), vec![2, 0, 1]);
    v.handle_key(ddb_char('s'));
    v.handle_key(ddb_char('s'));
    assert_eq!(v.sort_col_idx, Some(2));
    v.handle_key(ddb_char('s'));
    v.handle_key(ddb_char('s'));
    assert_eq!(v.sort_col_idx, None);
    v.handle_key(ddb_char('S'));
    assert_eq!(v.sort_col_idx, Some(3));
    v.handle_key(ddb_char('/'));
    v.handle_key(ddb_char('A'));
    assert_eq!(v.filter, "A");
    assert_eq!(v.filtered_tables(), vec![1, 0, 2]);
    v.handle_key(ddb_char('l'));
    assert_eq!(v.filtered_tables(), vec![1]);
    assert_eq!(v.selected_table().map(|t| t.name.as_str()), Some("Alpha"));
}

#[test]
fn cursor_moves_within_rows() {
    let mut v = DynamoDbView::default();
    v.set_tables(vec![table("a", "", 0, 0), table("b", "", 0, 0), table("c", "", 0, 0)]);
    v.handle_key(ddb_char('G'));
    assert_eq!(v.selected, 2);
    v.handle_key(ddb_char('j'));
    assert_eq!(v.selected, 2);
    v.handle_key(ddb_char('g'));
    assert!(v.pending_g);
    v.handle_key(ddb_char('g'));
    assert_eq!(v.selected, 0);
    assert!(!v.pending_g);
    assert_eq!(v.handle_key(ddb_key(KeyCode::Enter)), Some(Action::ServiceEnter));
    assert_eq!(v.handle_key(ddb_key(KeyCode::Esc)), None);
}

#[test]
fn items_pages_and_back_from_item() {
    let mut v = DynamoDbView::default();
    v.enter_table("orders".to_string());
    assert_eq!(v.screen_type(), "items");
    assert!(v.needs_items_load());
    v.set_table_detail(detail_with_index());
    let page1 = build_scan_result(vec![pairs(&["sk", "pk", "other"])], Some(vec![("pk".into(), AttrValue::S("x".into()))]), 1);
    v.set_items(page1);
    assert_eq!(v.visible_columns, vec!["pk".to_string(), "sk".to_string(), "other".to_string()]);
    assert!(v.has_next_page());
    assert!(v.needs_fetch_next_page());
    assert_eq!(v.handle_key(ddb_char('n')), Some(Action::DdbNextPage));
    assert!(v.loading);
    let page2 = build_scan_result(vec![pairs(&["pk", "extra"])], None, 1);
    v.add_page(page2);
    assert_eq!(v.current_page, 1);
    assert_eq!(v.visible_columns, vec!["pk".to_string(), "sk".to_string(), "other".to_string(), "extra".to_string()]);
    assert_eq!(v.page_info(), (2, 1000));
    v.handle_key(ddb_char('N'));
    assert_eq!(v.current_page, 0);
    v.handle_key(ddb_char('n'));
    assert_eq!(v.current_page, 1);
    let order = v.filtered_items();
    assert_eq!(order, vec![0]);
    assert!(v.selected_item_in(&order).is_some());
    v.enter_detail("{}".to_string());
    assert_eq!(v.breadcrumb(), "DynamoDB > orders > Item");
    v.handle_key(ddb_char('h'));
    assert_eq!(v.screen_type(), "items");
    assert_eq!(v.detail_json, None);
    assert_eq!(v.breadcrumb(), "DynamoDB > orders (Primary)");
}

#[test]
fn index_picker_switches_index() {
    let mut v = DynamoDbView::default();
    v.enter_table("orders".to_string());
    v.set_table_detail(detail_with_index());
    v.set_items(build_scan_result(vec![pairs(&["pk"])], None, 1));
    v.handle_key(ddb_char('i'));
    assert!(v.has_overlay());
    assert_eq!(v.index_picker_selected, 0);
    v.handle_key(ddb_char('j'));
    v.handle_key(ddb_char('j'));
    assert_eq!(v.index_picker_selected, 1);
    assert_eq!(v.handle_key(ddb_key(KeyCode::Enter)), Some(Action::DdbSwitchIndex));
    assert_eq!(v.active_index.as_deref(), Some("by_user"));
    assert!(v.loading);
    assert!(v.all_pages.is_empty());
    assert_eq!(v.breadcrumb(), "DynamoDB > orders (by_user)");
}

#[test]
fn query_builder_add_then_delete_filter() {
    let mut v = DynamoDbView::default();
    v.enter_table("orders".to_string());
    v.set_table_detail(detail_with_index());
    v.set_items(build_scan_result(vec![pairs(&["pk"])], None, 1));
    v.handle_key(ddb_char('q'));
    assert!(v.query_builder_open);
    v.handle_key(ddb_char('a'));
    assert_eq!(v.query_filters.len(), 1);
    assert!(v.query_builder_editing);
    assert_eq!(v.query_builder_field, 4);
    v.handle_key(ddb_key(KeyCode::Esc));
    v.handle_key(ddb_char('d'));
    assert_eq!(v.query_filters.len(), 0);
    assert_eq!(v.query_builder_field, 4);
}

#[test]
fn query_builder_runs_a_query() {
    let mut v = DynamoDbView::default();
    v.enter_table("orders".to_string());
    v.set_table_detail(detail_with_index());
    v.set_items(build_scan_result(vec![pairs(&["pk"])], None, 1));
    v.handle_key(ddb_char('q'));
    v.handle_key(ddb_char('j'));
    v.handle_key(ddb_char('i'));
    for c in "u1".chars() {
        v.handle_key(ddb_char(c));
    }
    v.handle_key(ddb_key(KeyCode::Enter));
    assert_eq!(v.query_pk_value, "u1");
    v.handle_key(ddb_char('j'));
    v.handle_key(ddb_key(KeyCode::Enter));
    assert_eq!(v.query_sk_condition, "begins_with");
    v.handle_key(ddb_char('j'));
    v.handle_key(ddb_char('i'));
    v.handle_key(ddb_char('2'));
    v.handle_key(ddb_key(KeyCode::Esc));
    v.query_filters.push(DdbFilter { attribute: "status".into(), condition: "=".into(), value: "open".into() });
    v.query_filters.push(DdbFilter { attribute: "".into(), condition: "=".into(), value: "x".into() });
    let req = v.run_query_request().expect("request");
    let q = req.query.expect("query");
    assert_eq!(q.pk_name, "pk");
    assert_eq!(q.sk, Some(("sk".to_string(), "begins_with".to_string(), "2".to_string())));
    assert!(q.forward);
    assert_eq!(req.filters.len(), 1);
    assert_eq!(req.summary.as_deref(), Some("pk = \"u1\" | sk begins_with \"2\" | status = \"open\""));
    assert_eq!(v.handle_key(ddb_char('r')), Some(Action::DdbRunQuery));
    assert!(!v.query_builder_open);
}

#[test]
fn scan_request_summary_joins_filters() {
    let mut v = DynamoDbView::default();
    v.query_mode = false;
    v.query_filters.push(DdbFilter { attribute: "a".into(), condition: "<>".into(), value: "1".into() });
    v.query_filters.push(DdbFilter { attribute: "b".into(), condition: "contains".into(), value: "x".into() });
    let req = v.run_query_request().expect("request");
    assert!(req.query.is_none());
    assert_eq!(req.summary.as_deref(), Some("a <> \"1\" | b contains \"x\""));
    let mut empty = DynamoDbView::default();
    empty.query_mode = false;
    assert_eq!(empty.run_query_request().expect("request").summary, None);
    let mut no_detail = DynamoDbView::default();
    no_detail.query_pk_value = "k".into();
    assert!(no_detail.run_query_request().is_none());
}

#[test]
fn column_widths_keys() {
    let mut v = DynamoDbView::default();
    v.enter_table("t".to_string());
    v.set_items(build_scan_result(vec![pairs(&["a", "b", "c", "d"])], None, 1));
    v.handle_key(ddb_char('+'));
    assert_eq!(v.col_width_override, 20);
    for _ in 0..20 {
        v.handle_key(ddb_char('='));
    }
    assert_eq!(v.col_width_override, 60);
    v.handle_key(ddb_char('0'));
    v.handle_key(ddb_char('-'));
    assert_eq!(v.col_width_override, 12);
    v.handle_key(ddb_char('l'));
    v.handle_key(ddb_char('l'));
    v.handle_key(ddb_char('l'));
    assert_eq!(v.col_offset, 2);
    v.handle_key(ddb_key(KeyCode::Left));
    assert_eq!(v.col_offset, 1);
}

#[test]
fn column_layout_fits_the_screen() {
    let l = column_layout(80, 5, 0, 0);
    assert_eq!(l.remaining, 63);
    assert_eq!(l.scroll_start, 1);
    assert_eq!(l.scroll_end, 5);
    assert_eq!(l.col_width, 14);
    assert_eq!(l.last_col_extra, 3);
    let w = column_layout(80, 5, 0, 20);
    assert_eq!(w.scroll_end, 4);
    let narrow = column_layout(10, 3, 5, 0);
    assert_eq!(narrow.scroll_start, 3);
    assert_eq!(narrow.scroll_end, 3);
}

#[test]
fn filter_expressions_join_clauses() {
    let fs = vec![
        ("age".to_string(), ">=".to_string(), "30".to_string()),
        ("name".to_string(), "begins_with".to_string(), "Al".to_string()),
        ("tags".to_string(), "contains".to_string(), "x".to_string()),
    ];
    assert_eq!(filter_expression(&fs), "#f0 >= :f0 AND begins_with(#f1, :f1) AND contains(#f2, :f2)");
    assert_eq!(filter_expression(&Vec::new()), "");
    assert_eq!(filter_name(12), "#f12");
    assert_eq!(filter_value_name(3), ":f3");
}

#[test]
fn query_builder_fields_by_position() {
    let mut v = DynamoDbView::default();
    v.set_tables(vec![table("orders", "ACTIVE", 1, 1)]);
    v.enter_table("orders".to_string());
    v.set_table_detail(detail_with_index());
    assert!(v.qb_has_sk());
    v.query_filters.push(DdbFilter { attribute: "a".to_string(), condition: "=".to_string(), value: "b".to_string() });
    assert!(matches!(v.qb_field_type(0), QbField::Mode));
    assert!(matches!(v.qb_field_type(1), QbField::PkValue));
    assert!(matches!(v.qb_field_type(2), QbField::SkCondition));
    assert!(matches!(v.qb_field_type(3), QbField::SkValue));
    assert!(matches!(v.qb_field_type(5), QbField::Filter(0, 1)));
    assert!(matches!(v.qb_field_type(7), QbField::AddFilter));
    v.active_index = Some("missing".to_string());
    assert!(!v.qb_has_sk());
    assert!(matches!(v.qb_field_type(2), QbField::Filter(0, 0)));
}

#[test]
fn item_detail_extent_clamps_scroll() {
    let mut v = DynamoDbView::default();
    v.detail_scroll = 50;
    v.set_detail_extent(12);
    assert_eq!(v.detail_total_lines, 12);
    assert_eq!(v.detail_scroll, 12);
    v.set_detail_extent(40);
    assert_eq!(v.detail_scroll, 12);
}

#[test]
fn pages_step_back_and_forth() {
    let mut v = DynamoDbView::default();
    v.set_items(build_scan_result(vec![pairs(&["a"])], Some(pairs(&["a"])), 1));
    v.add_page(build_scan_result(vec![pairs(&["b"])], None, 1));
    assert_eq!(v.current_page, 1);
    v.next_page();
    assert_eq!(v.current_page, 1);
    v.prev_page();
    assert_eq!(v.current_page, 0);
    v.prev_page();
    assert_eq!(v.current_page, 0);
    v.next_page();
    assert_eq!(v.current_page, 1);
    assert!(v.showing_page);
}

#[test]
fn cursor_keys_stay_on_the_rows() {
    let mut v = DynamoDbView::default();
    v.set_tables(vec![table("a", "", 0, 0), table("b", "", 0, 0), table("c", "", 0, 0)]);
    for key in [ddb_char('k'), ddb_key(KeyCode::Up), ddb_char('j'), ddb_key(KeyCode::Down), ddb_char('j'), ddb_char('j'), ddb_char('G'), ddb_char('g'), ddb_char('g'), ddb_char('G')] {
        assert_eq!(v.handle_key(key), Some(Action::NoOp));
        assert!(v.selected_table().is_some());
    }
    assert_eq!(v.selected_table().map(|t| t.name.as_str()), Some("c"));
    v.handle_key(ddb_char('g'));
    v.handle_key(ddb_char('g'));
    v.handle_key(ddb_char('k'));
    assert_eq!(v.selected, 0);
}

#[test]
fn next_page_key_fetches_shows_or_stays() {
    let mut v = DynamoDbView::default();
    v.enter_table("orders".to_string());
    v.set_table_detail(detail_with_index());
    v.set_items(build_scan_result(vec![pairs(&["pk"])], None, 1));
    assert!(!v.has_next_page());
    assert_eq!(v.handle_key(ddb_char('n')), Some(Action::NoOp));
    assert_eq!(v.page_info().0, 1);
    let mut w = DynamoDbView::default();
    w.enter_table("orders".to_string());
    w.set_table_detail(detail_with_index());
    w.set_items(build_scan_result(vec![pairs(&["pk"])], Some(vec![("pk".into(), AttrValue::S("x".into()))]), 1));
    assert!(w.needs_fetch_next_page());
    assert_eq!(w.handle_key(ddb_char('n')), Some(Action::DdbNextPage));
    assert!(w.needs_items_load());
    assert_eq!(w.page_info().0, 1);
}

#[test]
fn paging_back_and_forth_selects_first_items() {
    let mut v = DynamoDbView::default();
    v.enter_table("orders".to_string());
    v.set_items(build_scan_result(vec![pairs(&["a"]), pairs(&["b"])], Some(pairs(&["a"])), 2));
    v.add_page(build_scan_result(vec![pairs(&["c"])], None, 1));
    assert!(!v.has_next_page());
    v.prev_page();
    assert_eq!(v.current_page, 0);
    let order = v.filtered_items();
    assert_eq!(order, vec![0, 1]);
    assert_eq!(v.selected_item_in(&order).map(|i| i.attributes[0].0.as_str()), Some("a"));
    v.prev_page();
    assert_eq!(v.current_page, 0);
    v.next_page();
    assert_eq!(v.current_page, 1);
    let order = v.filtered_items();
    assert_eq!(v.selected_item_in(&order).map(|i| i.attributes[0].0.as_str()), Some("c"));
    v.next_page();
    assert_eq!(v.current_page, 1);
}

