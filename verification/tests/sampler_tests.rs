use uprof_exporter::exposition::scrape;
use uprof_exporter::identity::resolve_nodename;
use uprof_exporter::registry::{Metrics, SharedMetrics};
use uprof_exporter::sampler::{run_cycle, CycleError};

fn csv_row(from: u64) -> String {
    (0..29).map(|i| (from + i).to_string()).collect::<Vec<_>>().join(",")
}

#[test]
fn cycle_applies_fresh_sample() {
    // End to end: the tool succeeded and wrote a header plus a full row;
    // the cycle applies all twenty-nine values and the endpoint serves them.
    let mut m = Metrics::new("h".to_string()).expect("registration succeeds");
    let content = format!("h1,h2\n{}\n", csv_row(1)).into_bytes();
    let r = run_cycle(&mut m, true, &Some(content));
    assert_eq!(r, Ok(()));
    let snap = m.snapshot();
    for (i, v) in snap.iter().enumerate() {
        assert_eq!(f64::from_bits(*v), (i + 1) as f64);
    }
    let shared = SharedMetrics::new(m);
    let resp = scrape(&shared).expect("a well-formed table encodes");
    assert_eq!(resp.status, 200);
    assert!(resp.body.contains("amd_dc_access_pti{nodename=\"h\"} 5"));
}

#[test]
fn cycle_tool_failure_keeps_previous_values() {
    // The tool exited non-zero: the cycle reports it and the previously
    // published values stay; the endpoint still answers 200 with them.
    let mut m = Metrics::new("h".to_string()).expect("registration succeeds");
    let good = format!("{}\n", csv_row(10)).into_bytes();
    assert_eq!(run_cycle(&mut m, true, &Some(good)), Ok(()));
    let before = m.snapshot();

    let r = run_cycle(&mut m, false, &None);
    assert_eq!(r, Err(CycleError::ToolFailed));
    assert_eq!(m.snapshot(), before);

    let shared = SharedMetrics::new(m);
    let resp = scrape(&shared).expect("a well-formed table encodes");
    assert_eq!(resp.status, 200);
    assert!(resp.body.contains("amd_ic_fetch_miss_ratio{nodename=\"h\"} 10"));
}

#[test]
fn cycle_read_failure_keeps_previous_values() {
    let mut m = Metrics::new("h".to_string()).expect("registration succeeds");
    let good = format!("{}\n", csv_row(10)).into_bytes();
    assert_eq!(run_cycle(&mut m, true, &Some(good)), Ok(()));
    let before = m.snapshot();
    assert_eq!(run_cycle(&mut m, true, &None), Err(CycleError::ReadFailed));
    assert_eq!(m.snapshot(), before);
}

#[test]
fn cycle_unparsable_output_keeps_previous_values() {
    let mut m = Metrics::new("h".to_string()).expect("registration succeeds");
    let good = format!("{}\n", csv_row(10)).into_bytes();
    assert_eq!(run_cycle(&mut m, true, &Some(good)), Ok(()));
    let before = m.snapshot();
    let junk = b"System,only\nheaders,here\n".to_vec();
    assert_eq!(run_cycle(&mut m, true, &Some(junk)), Err(CycleError::NoData));
    assert_eq!(m.snapshot(), before);
}

#[test]
fn cycle_failure_before_first_sample_keeps_defaults() {
    let mut m = Metrics::new("h".to_string()).expect("registration succeeds");
    assert_eq!(run_cycle(&mut m, false, &None), Err(CycleError::ToolFailed));
    assert!(m.snapshot().iter().all(|v| f64::from_bits(*v) == 0.0));
}

#[test]
fn nodename_environment_override_wins() {
    let r = resolve_nodename(
        Some("from-env".to_string()),
        Some("from-file".to_string()),
        Some("from-etc".to_string()),
        Some("from-cmd".to_string()),
    );
    assert_eq!(r, "from-env");
}

#[test]
fn nodename_falls_through_the_chain() {
    assert_eq!(
        resolve_nodename(None, Some("from-file".to_string()), None, None),
        "from-file"
    );
    assert_eq!(
        resolve_nodename(None, None, Some("from-etc".to_string()), None),
        "from-etc"
    );
    assert_eq!(
        resolve_nodename(None, None, None, Some("from-cmd".to_string())),
        "from-cmd"
    );
}

#[test]
fn nodename_defaults_to_unknown() {
    assert_eq!(resolve_nodename(None, None, None, None), "unknown");
}
