use cfip::artifact::{input_artifact, latency_above_zero, parse_rows};

fn row(fields: &[&str]) -> Vec<String> {
    fields.iter().map(|f| f.to_string()).collect()
}

fn valid(s: &str) -> bool {
    latency_above_zero(&s.chars().collect())
}

#[test]
fn filters_rows_by_latency() {
    let rows = parse_rows("header\nA,1.5\nB,0\nC,-2\nD,abc\nE,3.0\n");
    assert_eq!(rows, vec![row(&["A", "1.5"]), row(&["E", "3.0"])]);
}

#[test]
fn header_only_gives_no_rows() {
    assert!(parse_rows("ip,latency\n").is_empty());
    assert!(parse_rows("ip,latency").is_empty());
}

#[test]
fn empty_text_gives_no_rows() {
    assert!(parse_rows("").is_empty());
}

#[test]
fn scenario_result_table() {
    let rows = parse_rows("ip,latency\n1.1.1.1,23.4\n1.0.0.1,0\n");
    assert_eq!(rows, vec![row(&["1.1.1.1", "23.4"])]);
}

#[test]
fn keeps_every_field_of_a_row() {
    let rows = parse_rows("IP,Sent,Recv,Loss,Latency\n104.16.1.1,4,4,0.00,120.55\n104.16.1.2,4,0,1.00,0.00\n");
    assert_eq!(rows, vec![row(&["104.16.1.1", "4", "4", "0.00", "120.55"])]);
}

#[test]
fn crlf_line_endings() {
    let rows = parse_rows("h\r\nA,2\r\nB,0\r\n");
    assert_eq!(rows, vec![row(&["A", "2"])]);
}

#[test]
fn empty_lines_and_trailing_comma_are_dropped() {
    let rows = parse_rows("h\n\nA,\nB,,7\n");
    assert_eq!(rows, vec![row(&["B", "", "7"])]);
}

#[test]
fn single_field_row() {
    let rows = parse_rows("h\n5\nx\n");
    assert_eq!(rows, vec![row(&["5"])]);
}

#[test]
fn latency_forms_accepted() {
    for s in ["1", "1.5", "+3", ".5", "5.", "0.001", "1e3", "2E-1", "1e+2", "007"] {
        assert!(valid(s), "{s}");
    }
}

#[test]
fn latency_forms_refused() {
    for s in [
        "", "0", "0.0", "-2", "-0.5", "abc", "inf", "NaN", ".", "1.2.3", "e5", "1e", "1e+", "0e5",
        "+", "++1", " 1", "1 ", "1,5",
    ] {
        assert!(!valid(s), "{s}");
    }
}

#[test]
fn input_artifact_one_address_per_line() {
    let a = vec!["1.1.1.1".to_string(), "1.0.0.1".to_string()];
    assert_eq!(input_artifact(&a), "1.1.1.1\n1.0.0.1");
}

#[test]
fn input_artifact_edges() {
    assert_eq!(input_artifact(&vec![]), "");
    assert_eq!(input_artifact(&vec!["10.0.0.0/8".to_string()]), "10.0.0.0/8");
    assert_eq!(input_artifact(&vec![String::new(), String::new()]), "\n");
}
