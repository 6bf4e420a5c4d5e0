use uprof_exporter::parser::{extract_data_row, is_data_row, parse_data_row, parse_field, parse_uprof_output, trim_bytes};

fn row_of(values: &[&str]) -> String {
    values.join(",")
}

fn numbers(from: u64, count: usize) -> Vec<String> {
    (0..count).map(|i| (from + i as u64).to_string()).collect()
}

fn bits(v: f64) -> u64 {
    v.to_bits()
}

#[test]
fn parser_returns_none_on_empty_input() {
    assert_eq!(parse_uprof_output(b""), None);
}

#[test]
fn parser_returns_none_without_qualifying_row() {
    let content = "just some text\nand,a,short,row\n";
    assert_eq!(parse_uprof_output(content.as_bytes()), None);
}

#[test]
fn parser_requires_minimum_field_count() {
    // 28 fields is one short of the expected 29.
    let fields = numbers(1, 28);
    let refs: Vec<&str> = fields.iter().map(|s| s.as_str()).collect();
    let content = format!("{}\n", row_of(&refs));
    assert_eq!(parse_uprof_output(content.as_bytes()), None);
}

#[test]
fn parser_skips_sentinel_rows() {
    // A row holding "System" qualifies structurally but is a header.
    let mut fields = numbers(1, 29);
    fields[0] = "System".to_string();
    let refs: Vec<&str> = fields.iter().map(|s| s.as_str()).collect();
    let content = format!("{}\n", row_of(&refs));
    assert_eq!(parse_uprof_output(content.as_bytes()), None);

    let mut fields = numbers(1, 29);
    fields[3] = "METRICS".to_string();
    let refs: Vec<&str> = fields.iter().map(|s| s.as_str()).collect();
    let content = format!("{}\n", row_of(&refs));
    assert_eq!(parse_uprof_output(content.as_bytes()), None);
}

#[test]
fn parser_selects_last_qualifying_row() {
    // Header rows, one stale sample, one fresh sample: the fresh one wins.
    let stale = numbers(100, 29);
    let fresh = numbers(1, 29);
    let stale_refs: Vec<&str> = stale.iter().map(|s| s.as_str()).collect();
    let fresh_refs: Vec<&str> = fresh.iter().map(|s| s.as_str()).collect();
    let content = format!(
        "METRICS,section\nSystem,header,row\n{}\n{}\ntrailing,short\n",
        row_of(&stale_refs),
        row_of(&fresh_refs),
    );
    let got = parse_uprof_output(content.as_bytes()).expect("a qualifying row exists");
    let want: Vec<u64> = (1..=29).map(|i| bits(i as f64)).collect();
    assert_eq!(got, want);
}

#[test]
fn parser_row_selection_single_qualifying_row() {
    // Only the last row satisfies the structural criteria; its values come
    // back exactly.
    let fields = numbers(1, 29);
    let refs: Vec<&str> = fields.iter().map(|s| s.as_str()).collect();
    let content = format!("METRICS\nshort,row\n{}\n", row_of(&refs));
    let got = parse_uprof_output(content.as_bytes()).expect("the last row qualifies");
    let want: Vec<u64> = (1..=29).map(|i| bits(i as f64)).collect();
    assert_eq!(got, want);
}

#[test]
fn parser_field_tolerance() {
    // A non-numeric field yields the bit pattern of zero in its own slot
    // and leaves every other slot untouched.
    let mut fields = numbers(1, 29);
    fields[4] = "not-a-number".to_string();
    let refs: Vec<&str> = fields.iter().map(|s| s.as_str()).collect();
    let content = format!("{}\n", row_of(&refs));
    let got = parse_uprof_output(content.as_bytes()).expect("the row qualifies");
    for (i, slot) in got.iter().enumerate() {
        if i == 4 {
            assert_eq!(f64::from_bits(*slot), 0.0);
        } else {
            assert_eq!(f64::from_bits(*slot), (i + 1) as f64);
        }
    }
}

#[test]
fn parser_tolerates_field_whitespace() {
    let fields: Vec<String> = (1..=29).map(|i| format!(" {}.5 ", i)).collect();
    let refs: Vec<&str> = fields.iter().map(|s| s.as_str()).collect();
    let content = format!("{}\n", row_of(&refs));
    let got = parse_uprof_output(content.as_bytes()).expect("the row qualifies");
    for (i, slot) in got.iter().enumerate() {
        assert_eq!(f64::from_bits(*slot), (i + 1) as f64 + 0.5);
    }
}

#[test]
fn parser_handles_crlf_lines() {
    let fields = numbers(1, 29);
    let refs: Vec<&str> = fields.iter().map(|s| s.as_str()).collect();
    let content = format!("header line\r\n{}\r\n", row_of(&refs));
    let got = parse_uprof_output(content.as_bytes()).expect("the row qualifies");
    assert_eq!(f64::from_bits(got[28]), 29.0);
}

#[test]
fn extract_returns_raw_fields() {
    let content = "not,data\n1, 2 ,x,4,5,6,7,8,9,10,11,12,13,14,15,16,17,18,19,20,21,22,23,24,25,26,27,28,29\n";
    let fields = extract_data_row(content.as_bytes()).expect("the row qualifies");
    assert_eq!(fields.len(), 29);
    assert_eq!(fields[0], b"1".to_vec());
    assert_eq!(fields[1], b" 2 ".to_vec());
    assert_eq!(fields[2], b"x".to_vec());
}

#[test]
fn field_parsing_substitutes_zero() {
    assert_eq!(f64::from_bits(parse_field(b"2.25")), 2.25);
    assert_eq!(f64::from_bits(parse_field(b"  3 ")), 3.0);
    assert_eq!(f64::from_bits(parse_field(b"oops")), 0.0);
    assert_eq!(f64::from_bits(parse_field(b"")), 0.0);
    assert_eq!(f64::from_bits(parse_field(b"-1.5")), -1.5);
}

#[test]
fn trimming_strips_ascii_whitespace() {
    assert_eq!(trim_bytes(b"  a b \t"), b"a b".to_vec());
    assert_eq!(trim_bytes(b"\r\n1.5\r\n"), b"1.5".to_vec());
    assert_eq!(trim_bytes(b"   "), Vec::<u8>::new());
}

#[test]
fn single_row_parses_to_its_values() {
    let fields: Vec<String> = (1..=29).map(|i| format!("{}.25", i)).collect();
    let refs: Vec<&str> = fields.iter().map(|s| s.as_str()).collect();
    let row = row_of(&refs);
    assert!(is_data_row(row.as_bytes()));
    let vals = parse_data_row(row.as_bytes());
    assert_eq!(vals.len(), 29);
    for (i, v) in vals.iter().enumerate() {
        assert_eq!(f64::from_bits(*v), (i + 1) as f64 + 0.25);
    }
}
