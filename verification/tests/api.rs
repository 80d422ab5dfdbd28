use pqcas::routes::cavp::example_case;
use pqcas::api::{ApiError, Config};
use pqcas::routes::catalog::{check_algorithm_kind, check_endpoint, default_true, NewEndpoint};
use pqcas::routes::health::{append_signed, metrics_body};
use pqcas::routes::kem::{check_run, NewKemRun};
use pqcas::routes::subtasks::{drawer_position, drawer_title};
use pqcas::models::Test;
use pqcas::routes::tests::{
    adapter_for, check_known, dedupe, default_limit, default_path, matrix_axes, plan_test,
    target_label, ListQuery, NewTest,
};
use pqcas::status::TaskStatus;
use pqcas::status::KemRunMode;

fn s(items: &[&str]) -> Vec<String> {
    items.iter().map(|x| x.to_string()).collect()
}

fn bad_request(result: Result<(), ApiError>) -> String {
    match result {
        Err(ApiError::BadRequest(m)) => m,
        other => panic!("expected a bad request, got {other:?}"),
    }
}

fn new_test() -> NewTest {
    NewTest {
        host: " tls-good ".into(),
        port: 11000,
        http_path: "/".into(),
        tool: "pq-dsa".into(),
        plugin: "open3x".into(),
        groups: s(&["X25519MLKEM768", "MLKEM768", " X25519MLKEM768"]),
        sig_algs: s(&["mldsa65", "mldsa44", ""]),
    }
}

fn plan_refusal(body: &NewTest, max: usize) -> String {
    match plan_test(body, max) {
        Err(ApiError::BadRequest(m)) => m,
        Err(other) => panic!("unexpected error {other:?}"),
        Ok(_) => panic!("expected a refusal"),
    }
}

#[test]
fn plugin_prefixes_pick_the_stack() {
    assert_eq!(adapter_for("pq-dsa", "bq2606", "openssl"), "boringssl");
    assert_eq!(adapter_for("pq-dsa", "open3x", "openssl"), "openssl");
    assert_eq!(adapter_for("pq-dsa", "mystery", "openssl"), "openssl");
}

#[test]
fn remaining_plugin_prefixes_and_the_default() {
    assert_eq!(adapter_for("t", "boring", "x"), "boringssl");
    assert_eq!(adapter_for("t", "wolf5", "x"), "wolfssl");
    assert_eq!(adapter_for("t", "go1.24", "x"), "go");
    assert_eq!(adapter_for("t", "ope", "x"), "x");
    assert_eq!(adapter_for("t", "", "fallback"), "fallback");
}

#[test]
fn duplicate_selections_collapse() {
    let input = vec!["mldsa65".into(), " mldsa65 ".into(), "mldsa44".into(), "".into()];
    assert_eq!(dedupe(&input), vec!["mldsa65".to_string(), "mldsa44".to_string()]);
}

#[test]
fn dedupe_is_idempotent() {
    let once = dedupe(&s(&[" b", "a", "b ", "  ", "a", "c"]));
    assert_eq!(once, s(&["b", "a", "c"]));
    assert_eq!(dedupe(&once), once);
}

#[test]
fn a_plan_is_row_major_over_the_collapsed_axes() {
    let plan = match plan_test(&new_test(), 100) {
        Ok(plan) => plan,
        Err(e) => panic!("plan refused: {e:?}"),
    };
    assert_eq!(plan.host, "tls-good");
    assert_eq!(plan.groups, s(&["X25519MLKEM768", "MLKEM768"]));
    assert_eq!(plan.sig_algs, s(&["mldsa65", "mldsa44"]));
    assert_eq!(plan.cells.len(), 4);
    let cells: Vec<(usize, &str, &str)> = plan
        .cells
        .iter()
        .map(|c| (c.ordinal, c.group_name.as_str(), c.sig_alg.as_str()))
        .collect();
    assert_eq!(
        cells,
        vec![
            (0, "X25519MLKEM768", "mldsa65"),
            (1, "X25519MLKEM768", "mldsa44"),
            (2, "MLKEM768", "mldsa65"),
            (3, "MLKEM768", "mldsa44"),
        ]
    );
}

#[test]
fn plans_are_refused_in_order() {
    let mut body = new_test();
    body.host = "  ".into();
    body.port = 0;
    assert_eq!(plan_refusal(&body, 100), "host is required");
    body.host = "h".into();
    assert_eq!(plan_refusal(&body, 100), "port must be 1-65535");
    body.port = 65536;
    assert_eq!(plan_refusal(&body, 100), "port must be 1-65535");
    body.port = 65535;
    body.sig_algs.clear();
    assert_eq!(plan_refusal(&body, 100), "select at least one group and one signature algorithm");
    body.sig_algs = s(&["mldsa65"]);
    body.http_path = "index.html".into();
    assert_eq!(plan_refusal(&body, 100), "http path must start with /");
    body.http_path = "/index.html".into();
    body.sig_algs = s(&["mldsa65", "mldsa44"]);
    assert_eq!(plan_refusal(&body, 3), "4 subtasks exceeds the limit of 3; narrow the selection");
    assert!(plan_test(&body, 4).is_ok());
}

#[test]
fn matrix_axes_keep_first_appearance() {
    let rows = vec![
        ("g1".to_string(), "s1".to_string()),
        ("g1".to_string(), "s2".to_string()),
        ("g2".to_string(), "s1".to_string()),
        ("g2".to_string(), "s2".to_string()),
    ];
    let (groups, algs) = matrix_axes(&rows);
    assert_eq!(groups, s(&["g1", "g2"]));
    assert_eq!(algs, s(&["s1", "s2"]));
    let (g, a) = matrix_axes(&[]);
    assert!(g.is_empty() && a.is_empty());
}

#[test]
fn small_task_helpers() {
    assert_eq!(target_label("tls-good", 11000), "tls-good:11000");
    assert_eq!(target_label("h", -5), "h:-5");
    assert_eq!(default_path(), "/");
    assert_eq!(default_limit(), 50);
    assert_eq!(ListQuery { limit: 0 }.effective_limit(), 1);
    assert_eq!(ListQuery { limit: 500 }.effective_limit(), 200);
    assert_eq!(ListQuery { limit: 7 }.effective_limit(), 7);
    assert_eq!(pqcas::routes::kem::default_limit(), 25);
    assert_eq!(pqcas::routes::kem::ListQuery { limit: 101 }.effective_limit(), 100);
    assert_eq!(pqcas::routes::kem::ListQuery { limit: -3 }.effective_limit(), 1);
    assert_eq!(drawer_title("X25519MLKEM768", "mldsa65"), "X25519MLKEM768 × mldsa65");
    assert_eq!(drawer_position(0), 1);
    assert_eq!(drawer_position(i32::MAX), 2147483648);
    assert!(default_true());
}

#[test]
fn catalog_checks() {
    assert!(check_algorithm_kind(&None).is_ok());
    assert!(check_algorithm_kind(&Some("kem_group".into())).is_ok());
    assert!(check_algorithm_kind(&Some("sig_alg".into())).is_ok());
    assert_eq!(bad_request(check_algorithm_kind(&Some("hash".into()))), "unknown algorithm kind hash");
    let mut endpoint = NewEndpoint {
        slug: " ".into(),
        label: "Good".into(),
        label_zh: "好".into(),
        host: "tls-good".into(),
        port: 0,
        notes: None,
    };
    assert_eq!(bad_request(check_endpoint(&endpoint)), "slug is required");
    endpoint.slug = "good".into();
    assert_eq!(bad_request(check_endpoint(&endpoint)), "port must be 1-65535");
    endpoint.port = 443;
    assert!(check_endpoint(&endpoint).is_ok());
}

#[test]
fn kem_runs_need_an_enabled_endpoint_and_groups() {
    let mut body = NewKemRun { mode: KemRunMode::GroupCompat, endpoint: "b".into(), kem_groups: vec![] };
    match check_run(&body, "lab-b", false) {
        Err(ApiError::Conflict(m)) => assert_eq!(m, "endpoint lab-b is disabled"),
        other => panic!("expected a conflict, got {other:?}"),
    }
    assert_eq!(bad_request(check_run(&body, "lab-b", true)), "select at least one key_share group");
    body.mode = KemRunMode::Priority;
    assert!(check_run(&body, "lab-b", true).is_ok());
    body.mode = KemRunMode::GroupCompat;
    body.kem_groups = s(&["MLKEM768"]);
    assert!(check_run(&body, "lab-b", true).is_ok());
}

#[test]
fn metrics_are_in_prometheus_text_format() {
    let body = metrics_body(&[("finished".to_string(), 3), ("failed".to_string(), 0)], -1);
    assert_eq!(
        body,
        "# HELP pqcas_tests_total Tests by status\n# TYPE pqcas_tests_total gauge\n\
pqcas_tests_total{status=\"finished\"} 3\n\
pqcas_tests_total{status=\"failed\"} 0\n\
# HELP pqcas_subtasks_queued Subtasks waiting for a worker\n# TYPE pqcas_subtasks_queued gauge\n\
pqcas_subtasks_queued -1\n"
    );
    let mut out = String::from("n=");
    append_signed(&mut out, i64::MIN);
    assert_eq!(out, "n=-9223372036854775808");
}

#[test]
fn api_requests_time_out_after_thirty_seconds() {
    let config = Config {
        database_url: "postgres://".into(),
        redis_url: "redis://".into(),
        bind: "0.0.0.0:8080".into(),
        db_max_connections: 10,
        max_subtasks_per_test: 400,
        probe_timeout_ms: 15000,
        default_adapter: "openssl".into(),
        cors_allow_origin: "*".into(),
        seed_dir: "seed".into(),
    };
    assert_eq!(config.request_timeout(), std::time::Duration::from_secs(30));
}

#[test]
fn unknown_catalog_names_are_listed_in_selection_order() {
    assert!(check_known("kem_group", &s(&["MLKEM768"]), &s(&["MLKEM768"])).is_ok());
    assert!(check_known("kem_group", &[], &[]).is_ok());
    assert_eq!(
        bad_request(check_known("sig_alg", &s(&["typo2", "mldsa65", "typo1"]), &s(&["mldsa65"]))),
        "unknown sig_alg: typo2, typo1"
    );
}

#[test]
fn a_test_displays_as_host_and_port() {
    let test = Test {
        id: 1,
        host: "tls-good".into(),
        port: 11000,
        http_path: "/".into(),
        method: "GET".into(),
        tool: "pq-dsa".into(),
        plugin: "open3x".into(),
        status: TaskStatus::Pending,
        group_count: 1,
        sig_alg_count: 1,
        subtask_count: 1,
        created_at: "2025-01-01T00:00:00+00:00".into(),
        started_at: None,
        finished_at: None,
    };
    assert_eq!(test.display_target(), "tls-good:11000");
}

#[test]
fn the_worked_example_is_the_first_case_one() {
    assert_eq!(example_case(&[Some(3), None, Some(1), Some(1)]), Some(2));
    assert_eq!(example_case(&[Some(2)]), None);
    assert_eq!(example_case(&[]), None);
}
