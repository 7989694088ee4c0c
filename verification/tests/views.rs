use awsm::app::Action;
use awsm::aws::lambda::FunctionInfo;
use awsm::aws::s3::{BucketInfo, ObjectInfo};
use awsm::aws::secrets::{SecretDetail, SecretInfo};
use awsm::ui::services::secret_detail::{secret_detail_rows, DetailRow, Tone};
use awsm::input::{KeyCode, KeyEvent, KeyModifiers};
use awsm::ui::services::lambda::{LambdaScreen, LambdaView, SortColumn as LambdaSort};
use awsm::ui::services::s3::{S3Screen, S3View};
use awsm::ui::services::secrets::{secret_value_lines, SecretsManagerView};
use awsm::ui::services::SortDir;

fn k(code: KeyCode) -> KeyEvent {
    KeyEvent {
        code,
        modifiers: KeyModifiers { shift: false, control: false, alt: false, super_key: false, hyper: false, meta: false },
    }
}

fn c(ch: char) -> KeyEvent {
    k(KeyCode::Char(ch))
}

fn function(name: &str, runtime: &str, memory: i32) -> FunctionInfo {
    FunctionInfo {
        name: name.to_string(),
        runtime: runtime.to_string(),
        last_modified: String::new(),
        memory,
        timeout: 3,
        description: String::new(),
    }
}

fn bucket(name: &str) -> BucketInfo {
    BucketInfo { name: name.to_string(), region: None, created: None }
}

fn object(name: &str, is_prefix: bool, size: Option<i64>) -> ObjectInfo {
    ObjectInfo {
        key: name.to_string(),
        display_name: name.to_string(),
        is_prefix,
        size,
        last_modified: None,
        storage_class: None,
    }
}

fn secret(name: &str, description: &str) -> SecretInfo {
    SecretInfo {
        name: name.to_string(),
        arn: String::new(),
        description: description.to_string(),
        last_accessed: String::new(),
        last_changed: String::new(),
        created: String::new(),
    }
}

#[test]
fn sort_dir_toggle_and_arrow() {
    assert_eq!(SortDir::Asc.toggle(), SortDir::Desc);
    assert_eq!(SortDir::Asc.toggle().toggle(), SortDir::Asc);
    assert_ne!(SortDir::Asc.arrow(), SortDir::Desc.arrow());
}

#[test]
fn lambda_sorts_by_name_then_memory() {
    let mut v = LambdaView::default();
    v.set_functions(vec![function("Beta", "python3.12", 512), function("alpha", "nodejs20.x", 128), function("gamma", "java21", 256)]);
    assert_eq!(v.filtered_functions(), vec![1, 0, 2]);
    v.handle_key(c('x'));
    assert_eq!(v.filtered_functions(), vec![2, 0, 1]);
    v.handle_key(c('x'));
    v.handle_key(c('s'));
    v.handle_key(c('s'));
    v.handle_key(c('s'));
    assert_eq!(v.sort_column, LambdaSort::Memory);
    assert_eq!(v.filtered_functions(), vec![1, 2, 0]);
    v.handle_key(c('S'));
    v.handle_key(c('S'));
    v.handle_key(c('S'));
    assert_eq!(v.sort_column, LambdaSort::Name);
}

#[test]
fn lambda_filter_and_escape() {
    let mut v = LambdaView::default();
    v.set_functions(vec![function("api", "python3.12", 128), function("worker", "nodejs20.x", 128)]);
    v.handle_key(c('/'));
    assert!(v.is_editing());
    v.handle_key(c('N'));
    v.handle_key(c('o'));
    assert_eq!(v.filtered_functions(), vec![1]);
    assert_eq!(v.item_count(), 1);
    assert_eq!(v.handle_key(k(KeyCode::Esc)), Some(Action::NoOp));
    assert!(!v.is_editing());
    assert!(v.filter.is_empty());
    assert_eq!(v.item_count(), 2);
}

#[test]
fn lambda_cursor_and_detail() {
    let mut v = LambdaView::default();
    v.set_functions(vec![function("a", "r", 1), function("b", "r", 1), function("c", "r", 1)]);
    v.handle_key(c('G'));
    assert_eq!(v.selected, 2);
    v.handle_key(c('j'));
    assert_eq!(v.selected, 2);
    v.handle_key(c('g'));
    v.handle_key(c('g'));
    assert_eq!(v.selected, 0);
    assert_eq!(v.handle_key(k(KeyCode::Enter)), Some(Action::ServiceEnter));
    v.enter_detail();
    assert_eq!(v.screen, LambdaScreen::Detail);
    assert_eq!(v.breadcrumb(), "Lambda > ...");
    assert_eq!(v.handle_key(k(KeyCode::Esc)), Some(Action::NoOp));
    assert_eq!(v.screen, LambdaScreen::Functions);
    assert_eq!(v.breadcrumb(), "Lambda > Functions");
    assert_eq!(v.handle_key(k(KeyCode::Esc)), None);
}

#[test]
fn lambda_detail_extent_clamps_scroll() {
    let mut v = LambdaView::default();
    v.detail_scroll = 40;
    v.set_detail_extent(30, 10);
    assert_eq!(v.detail_total_lines, 20);
    assert_eq!(v.detail_scroll, 20);
    v.set_detail_extent(5, 10);
    assert_eq!(v.detail_total_lines, 0);
    assert_eq!(v.detail_scroll, 0);
}

#[test]
fn lambda_refresh_after_error() {
    let mut v = LambdaView::default();
    v.set_functions(Vec::new());
    assert_eq!(v.handle_key(c('r')), Some(Action::NoOp));
    v.set_error("denied".to_string());
    assert_eq!(v.handle_key(c('r')), Some(Action::ServiceBack));
    assert!(v.loading);
    assert!(v.error.is_none());
}

#[test]
fn s3_folders_first_and_navigation() {
    let mut v = S3View::default();
    v.set_buckets(vec![bucket("logs"), bucket("assets")]);
    assert_eq!(v.filtered_buckets(), vec![1, 0]);
    v.enter_bucket("assets".to_string());
    assert_eq!(v.screen, S3Screen::Objects);
    v.set_objects(vec![object("b.txt", false, Some(10)), object("img/", true, None), object("a.txt", false, Some(20))]);
    assert_eq!(v.filtered_objects(), vec![1, 2, 0]);
    assert_eq!(v.breadcrumb(), "S3 > assets");
    v.enter_prefix("img/".to_string());
    assert_eq!(v.breadcrumb(), "S3 > assets > img/");
    assert!(v.go_back());
    assert_eq!(v.current_prefix(), "");
    assert!(v.go_back());
    assert_eq!(v.screen, S3Screen::Buckets);
    assert!(!v.go_back());
}

#[test]
fn s3_sort_columns_cycle() {
    let mut v = S3View::default();
    v.enter_bucket("b".to_string());
    v.set_objects(vec![object("small", false, Some(1)), object("big", false, Some(100))]);
    v.handle_key(c('s'));
    assert_eq!(v.filtered_objects(), vec![0, 1]);
    v.handle_key(c('x'));
    assert_eq!(v.filtered_objects(), vec![1, 0]);
    v.handle_key(c('S'));
    v.handle_key(c('s'));
    assert_eq!(v.sort_dir, SortDir::Desc);
}

#[test]
fn s3_detail_download_key() {
    let mut v = S3View::default();
    v.enter_bucket("b".to_string());
    v.enter_detail();
    assert_eq!(v.handle_key(c('d')), Some(Action::S3Download));
    assert_eq!(v.handle_key(k(KeyCode::Esc)), Some(Action::NoOp));
    assert_eq!(v.screen, S3Screen::Objects);
}

#[test]
fn secrets_filter_matches_description() {
    let mut v = SecretsManagerView::default();
    v.set_secrets(vec![secret("db/password", "Main DB"), secret("api/key", "partner token")]);
    v.handle_key(c('/'));
    for ch in "TOKEN".chars() {
        v.handle_key(c(ch));
    }
    v.handle_key(k(KeyCode::Enter));
    assert!(!v.is_editing());
    assert_eq!(v.filtered_secrets(), vec![1]);
    assert_eq!(v.handle_key(k(KeyCode::Esc)), None);
    assert_eq!(v.item_count(), 2);
}

#[test]
fn s3_object_filter_shows_each_match_once() {
    let mut v = S3View::default();
    v.enter_bucket("b".to_string());
    v.set_objects(vec![
        object("Report.csv", false, Some(3)),
        object("reports/", true, None),
        object("image.png", false, Some(9)),
    ]);
    v.handle_key(c('/'));
    for ch in "REP".chars() {
        v.handle_key(c(ch));
    }
    let mut shown = v.filtered_objects();
    assert_eq!(shown, vec![1, 0]);
    shown.sort();
    shown.dedup();
    assert_eq!(shown.len(), 2);
}

#[test]
fn lambda_typed_filter_then_enter_keeps_it() {
    let mut v = LambdaView::default();
    v.set_functions(vec![function("api", "python3.12", 128), function("worker", "nodejs20.x", 128), function("Apiary", "java21", 128)]);
    v.handle_key(c('j'));
    assert_eq!(v.handle_key(c('/')), Some(Action::NoOp));
    for ch in "API".chars() {
        assert_eq!(v.handle_key(c(ch)), Some(Action::NoOp));
        assert!(v.is_editing());
        assert_eq!(v.selected, 0);
    }
    assert_eq!(v.filter, "API");
    assert_eq!(v.filtered_functions(), vec![0, 2]);
    assert_eq!(v.selected_function().map(|f| f.name.as_str()), Some("api"));
    assert_eq!(v.handle_key(k(KeyCode::Enter)), Some(Action::NoOp));
    assert!(!v.is_editing());
    assert_eq!(v.filter, "API");
    assert_eq!(v.item_count(), 2);
}

#[test]
fn secret_values_are_pretty_printed_when_json() {
    assert_eq!(secret_value_lines("{\"a\":1,\"b\":[true]}"), vec!["{", "  \"a\": 1,", "  \"b\": [", "    true", "  ]", "}"]);
    assert_eq!(secret_value_lines("not json"), vec!["not json"]);
    assert_eq!(secret_value_lines("\"s\""), vec!["\"s\""]);
}

fn secret_detail(value: Option<&str>) -> SecretDetail {
    SecretDetail {
        name: "db".to_string(),
        arn: "arn:db".to_string(),
        description: String::new(),
        kms_key_id: None,
        rotation_enabled: true,
        rotation_lambda_arn: None,
        rotation_days: Some(30),
        last_rotated: None,
        last_accessed: Some("2026-03-01".to_string()),
        last_changed: None,
        created: None,
        deleted_date: None,
        tags: Vec::new(),
        version_ids: vec![("v1".to_string(), vec!["AWSCURRENT".to_string(), "AWSPENDING".to_string()]), ("v0".to_string(), Vec::new())],
        secret_value: value.map(|v| v.to_string()),
        secret_binary: false,
    }
}

fn row_text(r: &DetailRow) -> String {
    match r {
        DetailRow::Blank => String::new(),
        DetailRow::Heading(t) | DetailRow::Muted(t) | DetailRow::SecretLine(t) | DetailRow::Toggle(t) => t.clone(),
        DetailRow::Field(l, v, _) => format!("{}={}", l, v),
        DetailRow::Version(i, s) => format!("{}{}", i, s),
    }
}

#[test]
fn secret_detail_rows_hide_the_value_until_revealed() {
    let d = secret_detail(Some("{\"pw\":\"hunter2\"}"));
    let hidden: Vec<String> = secret_detail_rows(&d, false).iter().map(row_text).collect();
    assert!(hidden.iter().all(|t| !t.contains("hunter2")));
    assert!(hidden.contains(&"••••••••••••••••••••••••••••••••".to_string()));
    assert!(hidden.contains(&" Reveal secret value".to_string()));
    let shown: Vec<String> = secret_detail_rows(&d, true).iter().map(row_text).collect();
    assert!(shown.contains(&"  \"pw\": \"hunter2\"".to_string()));
    assert!(shown.contains(&" Hide secret value".to_string()));
    assert!(!shown.contains(&"••••••••••••••••••••••••••••••••".to_string()));
}

#[test]
fn secret_detail_rows_list_the_fields_that_are_set() {
    let d = secret_detail(None);
    let rows = secret_detail_rows(&d, true);
    let texts: Vec<String> = rows.iter().map(row_text).collect();
    assert_eq!(
        texts,
        vec![
            "", "Secret Details", "", "Name=db", "ARN=arn:db", "Last Accessed=2026-03-01",
            "", "Rotation", "", "Rotation=Enabled", "Rotation Interval=30 days",
            "", "Secret Value", "", "(no value available)",
            "", "Versions (2)", "", "v1  [AWSCURRENT, AWSPENDING]", "v0",
        ]
    );
    assert!(matches!(rows[4], DetailRow::Field(_, _, Tone::Link)));
    assert!(matches!(rows[9], DetailRow::Field(_, _, Tone::Good)));
    let mut binary = secret_detail(Some("x"));
    binary.secret_binary = true;
    let texts: Vec<String> = secret_detail_rows(&binary, true).iter().map(row_text).collect();
    assert!(texts.contains(&"(binary secret — preview not available)".to_string()));
    assert!(!texts.contains(&"x".to_string()));
}

