use newral_core::bpsw::chunk_ranges;
use newral_core::bpsw::default_main_odds_start;
use newral_core::bpsw::estimate_bpsw_chunks;
use newral_core::bpsw::parse_bpsw_bound;
use newral_core::bpsw::BpswBound;
use newral_core::demo::fold_status_counts;
use newral_core::demo::generate_demo_text;
use newral_core::demo::merge_word_counts;
use newral_core::demo::plan_demo_chunk_payloads;
use newral_core::demo::plan_demo_group_payload;
use newral_core::demo::split_text;
use newral_core::demo::top_word_counts;
use newral_core::demo::WordCount;
use newral_core::bpsw::default_step_for;
use newral_core::bpsw::plan_bpsw_args;
use newral_core::models::merge_bucket_totals;
use newral_core::models::sum_bucket_values;
use newral_core::models::DashboardPoint;
use newral_core::sandbox::check_input_names;
use newral_core::sandbox::exceeded_limits;
use newral_core::sandbox::hash_bytes;
use newral_core::sandbox::is_safe_filename;
use newral_core::sandbox::resolve_script_bytes;
use newral_core::sandbox::to_hex;
use newral_core::sandbox::MetricsSample;
use newral_core::sandbox::OutputAccumulator;
use newral_core::sandbox::ResourceCaps;
use newral_core::sandbox::RunOutcome;
use newral_core::sandbox::SandboxError;
use newral_core::sandbox::ThrottleMonitor;
use newral_core::sql::is_safe_schema_name;
use newral_core::sql::task_insert_sql;
use newral_core::sql::task_recent_sql;
use newral_core::sql::task_select_next_sql;
use newral_core::sql::task_stop_sql;
use newral_core::text::str_contains;
use newral_core::text::str_eq;
use newral_core::text::trim_ascii;

#[test]
fn rejects_path_traversal() {
    assert!(!is_safe_filename("../secret.txt"));
    assert!(!is_safe_filename("..\\secret.txt"));
    assert!(is_safe_filename("input.txt"));
}

#[test]
fn rejects_empty_and_slashed_filenames() {
    assert!(!is_safe_filename(""));
    assert!(!is_safe_filename("a/b.txt"));
    assert!(!is_safe_filename("name with space"));
    assert!(is_safe_filename("ok_file-1.txt"));
}

#[test]
fn input_names_are_screened_before_any_write() {
    let good = vec![("summary.json".to_string(), "{}".to_string())];
    assert!(check_input_names(&good).is_ok());
    let bad = vec![
        ("summary.json".to_string(), "{}".to_string()),
        ("../escape".to_string(), "x".to_string()),
    ];
    assert!(matches!(check_input_names(&bad), Err(SandboxError::InvalidInputFilename)));
}

#[test]
fn hash_bytes_matches_sha256() {
    assert_eq!(
        hash_bytes(b""),
        "e3b0c44298fc1c149afbf4c8996fb92427ae41e4649b934ca495991b7852b855"
    );
    assert_eq!(
        hash_bytes(b"abc"),
        "ba7816bf8f01cfea414140de5dae2223b00361a396177a9cb410ff61f20015ad"
    );
    assert_eq!(to_hex(&[0xbe, 0xef]), "beef");
}

#[test]
fn downloaded_script_must_match_its_hash() {
    let body = b"print(42)".to_vec();
    let good = hash_bytes(&body);
    let resolved = resolve_script_bytes(None, Some(body.clone()), Some(&good));
    assert_eq!(resolved.expect("verified script"), body);

    let wrong = "0".repeat(64);
    let refused = resolve_script_bytes(None, Some(body.clone()), Some(&wrong));
    assert!(matches!(refused, Err(SandboxError::ScriptHashMismatch)));

    let inline = resolve_script_bytes(Some(b"x".to_vec()), Some(body), Some(&wrong));
    assert_eq!(inline.expect("inline wins"), b"x".to_vec());

    assert!(matches!(resolve_script_bytes(None, None, None), Err(SandboxError::MissingScript)));
}

#[test]
fn output_cap_is_enforced() {
    let mut acc = OutputAccumulator::new(10);
    assert!(acc.push_chunk(&[1, 2, 3, 4, 5, 6]));
    assert!(acc.push_chunk(&[7, 8, 9, 10]));
    assert!(!acc.push_chunk(&[11]));
    assert!(acc.byte_len() as u64 <= 10);
}

#[test]
fn throttle_kills_after_three_consecutive_breaches() {
    let mut monitor = ThrottleMonitor::new();
    assert!(!monitor.observe(true));
    assert!(!monitor.observe(true));
    assert!(!monitor.observe(false));
    assert!(!monitor.observe(true));
    assert!(!monitor.observe(true));
    assert!(monitor.observe(true));
}

#[test]
fn exceeded_limits_names_dimensions() {
    let caps = ResourceCaps {
        cpu_percent: Some(50),
        gpu_percent: None,
        ram_percent: Some(80),
    };
    let sample = MetricsSample {
        cpu_load_pct: Some(75),
        ram_used_kb: Some(900),
        ram_total_kb: Some(1000),
        gpu_load_pct: Some(99),
    };
    let over = exceeded_limits(&sample, &caps);
    assert_eq!(over, vec!["cpu", "ram"]);

    let idle = MetricsSample {
        cpu_load_pct: Some(10),
        ram_used_kb: Some(100),
        ram_total_kb: Some(1000),
        gpu_load_pct: None,
    };
    assert!(exceeded_limits(&idle, &caps).is_empty());
}

#[test]
fn run_outcomes_report_their_status() {
    assert_eq!(RunOutcome::KilledTimeout.status_str(), "timeout");
    assert_eq!(RunOutcome::KilledThrottled.status_str(), "throttled");
    assert_eq!(RunOutcome::ExitedOk.status_str(), "ok");
    assert_eq!(RunOutcome::KilledWorkspaceLimit.status_str(), "error");
    assert_eq!(SandboxError::WorkspaceLimitExceeded.as_str(), "workspace size limit exceeded");
}

#[test]
fn splits_text_into_chunks() {
    let text = "one two three four five";
    let chunks = split_text(text, 2);
    assert_eq!(chunks.len(), 2);
}

#[test]
fn split_keeps_every_word_once() {
    let chunks = split_text("one two three four five", 2);
    assert_eq!(chunks[0], "one two three");
    assert_eq!(chunks[1], "four five");
    let empty = split_text("   ", 3);
    assert_eq!(empty, vec![String::new()]);
}

#[test]
fn demo_text_repeats_the_seed() {
    let text = generate_demo_text();
    let seed = "Newral orchestrates distributed compute with trust and verification.";
    assert_eq!(text.len(), 400 * (seed.len() + 1));
    assert!(text.starts_with(seed));
}

#[test]
fn demo_plan_carries_chunks_as_inputs() {
    let chunks = vec!["alpha beta".to_string(), "gamma".to_string()];
    let group = plan_demo_group_payload("demo-1");
    assert_eq!(group.kind.as_deref(), Some("group"));
    assert_eq!(group.group_id.as_deref(), Some("demo-1"));

    let plans = plan_demo_chunk_payloads(chunks, "demo-1", 9);
    assert_eq!(plans.len(), 2);
    assert_eq!(plans[0].kind.as_deref(), Some("python_script"));
    assert_eq!(plans[0].parent_task_id, Some(9));
    let inputs = plans[1].inputs.as_ref().expect("inputs");
    assert_eq!(inputs.len(), 1);
    assert_eq!(inputs[0].0, "input.txt");
    assert_eq!(inputs[0].1, "gamma");
    let script = plans[0].script.as_deref().expect("script");
    assert!(script.contains("json.dumps"));
}

#[test]
fn status_fold_counts_only_live_states() {
    let rows = vec![
        ("done".to_string(), 3usize),
        ("running".to_string(), 1usize),
        ("queued".to_string(), 2usize),
        ("stopped".to_string(), 9usize),
    ];
    let status = fold_status_counts(&rows);
    assert_eq!(status.completed, 3);
    assert_eq!(status.running, 1);
    assert_eq!(status.queued, 2);
    assert_eq!(status.total, 6);
}

#[test]
fn word_counts_merge_and_rank() {
    let rows = vec![
        vec![
            WordCount { word: "alpha".to_string(), count: 2 },
            WordCount { word: "beta".to_string(), count: 1 },
        ],
        vec![
            WordCount { word: "alpha".to_string(), count: 3 },
            WordCount { word: "gamma".to_string(), count: 7 },
        ],
    ];
    let merged = merge_word_counts(&rows);
    assert_eq!(merged.len(), 3);
    let top = top_word_counts(merged);
    assert_eq!(top[0].word, "gamma");
    assert_eq!(top[0].count, 7);
    assert_eq!(top[1].word, "alpha");
    assert_eq!(top[1].count, 5);
    assert_eq!(top[2].word, "beta");
    assert_eq!(top[2].count, 1);
}

#[test]
fn sql_builders_qualify_the_schema() {
    assert_eq!(
        task_insert_sql("prj_demo"),
        "INSERT INTO prj_demo.tasks (status, task_type, payload) VALUES ($1, $2, $3) RETURNING id"
    );
    assert_eq!(
        task_select_next_sql("prj_demo"),
        "SELECT id, payload FROM prj_demo.tasks WHERE status = 'queued' ORDER BY id LIMIT 1 FOR UPDATE SKIP LOCKED"
    );
    assert_eq!(
        task_stop_sql("prj_demo"),
        "UPDATE prj_demo.tasks SET status = 'stopped', updated_at = NOW() WHERE status IN ('queued', 'running')"
    );
}

#[test]
fn recent_tasks_query_is_pinned() {
    assert_eq!(
        task_recent_sql("prj_demo"),
        "SELECT id, status, to_char(updated_at, 'YYYY-MM-DD HH24:MI:SS') AS updated_at \
         FROM prj_demo.tasks ORDER BY updated_at DESC, id DESC LIMIT 6"
    );
}

#[test]
fn schema_names_are_screened() {
    assert!(is_safe_schema_name("prj_demo_1"));
    assert!(!is_safe_schema_name("prj_Demo"));
    assert!(!is_safe_schema_name("public; drop table"));
    assert!(!is_safe_schema_name("demo"));
}

#[test]
fn trim_removes_only_outer_whitespace() {
    assert_eq!(trim_ascii("  hello world \n"), "hello world");
    assert_eq!(trim_ascii("\t\r\n "), "");
    assert_eq!(trim_ascii("plain"), "plain");
    assert_eq!(trim_ascii("a  b"), "a  b");
}

#[test]
fn text_helpers_compare_and_search() {
    assert!(str_eq("abc", "abc"));
    assert!(!str_eq("abc", "abd"));
    assert!(str_contains("import os\nprint(1)", "import os"));
    assert!(!str_contains("import sys", "import os"));
    assert!(str_contains("anything", ""));
}

#[test]
fn bpsw_bounds_parse_and_default() {
    let from_int = parse_bpsw_bound(Some(&BpswBound::Int(7))).expect("int bound");
    let ranges = chunk_ranges(&from_int, &from_int, 1, 1);
    assert_eq!(ranges, vec![("7".to_string(), "7".to_string())]);

    let start = default_main_odds_start();
    let echo = chunk_ranges(&start, &start, 1, 1);
    assert_eq!(echo[0].0, "100000000000000000001");
}

#[test]
fn chunk_ranges_cover_the_span() {
    let start = parse_bpsw_bound(Some(&BpswBound::Int(1))).expect("start");
    let end = parse_bpsw_bound(Some(&BpswBound::Str("10".to_string()))).expect("end");
    let ranges = chunk_ranges(&start, &end, 3, 1);
    assert_eq!(
        ranges,
        vec![
            ("1".to_string(), "3".to_string()),
            ("4".to_string(), "6".to_string()),
            ("7".to_string(), "9".to_string()),
            ("10".to_string(), "10".to_string()),
        ]
    );
}

#[test]
fn chunk_estimates_clamp_and_fail_cleanly() {
    let start = parse_bpsw_bound(Some(&BpswBound::Int(1))).expect("start");
    let end = parse_bpsw_bound(Some(&BpswBound::Int(10000))).expect("end");
    assert_eq!(estimate_bpsw_chunks(&start, &end, 1000, 1), Ok(10));
    assert_eq!(estimate_bpsw_chunks(&start, &start, 1000, 1), Ok(1));
    assert!(estimate_bpsw_chunks(&end, &start, 1000, 1).is_err());
    assert!(estimate_bpsw_chunks(&start, &end, 0, 1).is_err());
}

#[test]
fn bpsw_args_follow_the_task_type() {
    let ranged = plan_bpsw_args("chernick", "100", "200", None);
    assert_eq!(
        ranged,
        vec![
            "--task-type".to_string(),
            "chernick".to_string(),
            "--start".to_string(),
            "100".to_string(),
            "--end".to_string(),
            "200".to_string(),
            "--require-prime-factors".to_string(),
        ]
    );
    let generated = plan_bpsw_args("lambda_plus_one", "1", "9", Some((22, 7)));
    assert_eq!(
        generated,
        vec![
            "--task-type".to_string(),
            "lambda_plus_one".to_string(),
            "--seed-start".to_string(),
            "1".to_string(),
            "--seed-end".to_string(),
            "9".to_string(),
            "--target-digits".to_string(),
            "22".to_string(),
            "--prime-digits".to_string(),
            "7".to_string(),
            "--max-steps".to_string(),
            "5000".to_string(),
            "--require-prime".to_string(),
        ]
    );
}

#[test]
fn bucket_totals_merge_pointwise() {
    let mut totals = vec![
        DashboardPoint { label: "-4h".to_string(), value: 1 },
        DashboardPoint { label: "-0h".to_string(), value: 2 },
    ];
    let buckets = vec![
        DashboardPoint { label: "-4h".to_string(), value: 10 },
        DashboardPoint { label: "-0h".to_string(), value: 20 },
    ];
    merge_bucket_totals(&mut totals, &buckets);
    assert_eq!(totals[0].value, 11);
    assert_eq!(totals[1].value, 22);
    assert_eq!(totals[0].label, "-4h");
}

#[test]
fn step_defaults_follow_the_task_type() {
    assert_eq!(default_step_for("main_odds"), 2);
    assert_eq!(default_step_for("large_numbers"), 2);
    assert_eq!(default_step_for("chernick"), 1);
    assert_eq!(default_step_for("pomerance_lite"), 1);
}

#[test]
fn bucket_values_sum_for_the_dashboard() {
    let buckets = vec![
        DashboardPoint { label: "-8h".to_string(), value: 3 },
        DashboardPoint { label: "-4h".to_string(), value: 4 },
        DashboardPoint { label: "-0h".to_string(), value: 5 },
    ];
    assert_eq!(sum_bucket_values(&buckets), 12);
}
