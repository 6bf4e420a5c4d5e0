use uprof_exporter::catalog::{metric_name, MEASUREMENT_COUNT};
use uprof_exporter::exposition::scrape;
use uprof_exporter::registry::{Metrics, SharedMetrics};

fn record(from: u64) -> Vec<Vec<u8>> {
    (0..MEASUREMENT_COUNT as u64).map(|i| (from + i).to_string().into_bytes()).collect()
}

#[test]
fn new_registry_is_zeroed() {
    // Pre-sample default: every entry exists with value zero.
    let m = Metrics::new("node-a".to_string()).expect("registration succeeds");
    let snap = m.snapshot();
    assert_eq!(snap.len(), MEASUREMENT_COUNT);
    for v in snap {
        assert_eq!(f64::from_bits(v), 0.0);
    }
    assert_eq!(m.nodename(), "node-a");
}

#[test]
fn new_registry_renders_all_entries() {
    // Before any sample, the rendering names every catalogue entry with the
    // configured label and a zero value.
    let m = Metrics::new("node-b".to_string()).expect("registration succeeds");
    let text = m.render().expect("a well-formed table encodes");
    for i in 0..MEASUREMENT_COUNT {
        let line = format!("{}{{nodename=\"node-b\"}} 0", metric_name(i));
        assert!(text.contains(&line), "missing {:?} in {:?}", line, text);
    }
}

#[test]
fn update_applies_whole_record() {
    let mut m = Metrics::new("n".to_string()).expect("registration succeeds");
    m.update(&record(1));
    let snap = m.snapshot();
    for (i, v) in snap.iter().enumerate() {
        assert_eq!(f64::from_bits(*v), (i + 1) as f64);
    }
}

#[test]
fn update_overwrites_previous_record() {
    let mut m = Metrics::new("n".to_string()).expect("registration succeeds");
    m.update(&record(1));
    m.update(&record(100));
    let snap = m.snapshot();
    for (i, v) in snap.iter().enumerate() {
        assert_eq!(f64::from_bits(*v), (100 + i) as f64);
    }
}

#[test]
fn short_record_is_ignored() {
    // Stale-on-failure: a record one field short leaves the previous values.
    let mut m = Metrics::new("n".to_string()).expect("registration succeeds");
    m.update(&record(1));
    let before = m.snapshot();
    let mut short = record(500);
    short.pop();
    m.update(&short);
    assert_eq!(m.snapshot(), before);
}

#[test]
fn update_zeroes_bad_fields_only() {
    let mut m = Metrics::new("n".to_string()).expect("registration succeeds");
    let mut rec = record(1);
    rec[7] = b"broken".to_vec();
    m.update(&rec);
    let snap = m.snapshot();
    for (i, v) in snap.iter().enumerate() {
        if i == 7 {
            assert_eq!(f64::from_bits(*v), 0.0);
        } else {
            assert_eq!(f64::from_bits(*v), (i + 1) as f64);
        }
    }
}

#[test]
fn shared_registry_apply_then_snapshot() {
    // Every snapshot is one complete value table: after an apply, all
    // twenty-nine slots come from that apply together.
    let m = Metrics::new("n".to_string()).expect("registration succeeds");
    let shared = SharedMetrics::new(m);
    let zeroed = shared.snapshot();
    assert!(zeroed.iter().all(|v| f64::from_bits(*v) == 0.0));
    shared.apply(&record(1));
    let snap = shared.snapshot();
    assert_eq!(snap.len(), MEASUREMENT_COUNT);
    for (i, v) in snap.iter().enumerate() {
        assert_eq!(f64::from_bits(*v), (i + 1) as f64);
    }
}

#[test]
fn scrape_reports_status_and_content_type() {
    let m = Metrics::new("host-1".to_string()).expect("registration succeeds");
    let shared = SharedMetrics::new(m);
    shared.apply(&record(1));
    let resp = scrape(&shared).expect("a well-formed table encodes");
    assert_eq!(resp.status, 200);
    assert_eq!(resp.content_type, "text/plain; version=0.0.4");
    assert!(resp.body.contains("amd_ic_fetch_miss_ratio{nodename=\"host-1\"} 1"));
    assert!(resp.body.contains("amd_total_mem_wrbw_gbps{nodename=\"host-1\"} 29"));
}
