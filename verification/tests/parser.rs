use llama_hud::parser::parse_prompt_expected_total;
use regex::Regex;

#[test]
fn test_parse_print_timing() {
    let line = "slot print_timing: id  1 | task 162 | prompt processing, n_tokens =  44032, progress = 0.91, t =  73.95 s / 595.46 tokens per second";
    let total = parse_prompt_expected_total(line).expect("should parse");
    assert_eq!(total, 48386); // 44032 / 0.91 = 48386.81
}

#[test]
fn test_ignores_non_matching_lines() {
    assert!(parse_prompt_expected_total("some random log line").is_none());
}

#[test]
fn test_ignores_progress_at_1() {
    let line = "prompt processing, n_tokens = 1000, progress = 1.0";
    assert!(parse_prompt_expected_total(line).is_none());
}

#[test]
fn progress_zero_is_ignored() {
    assert_eq!(parse_prompt_expected_total("prompt processing, n_tokens = 10, progress = 0.0"), None);
    assert_eq!(parse_prompt_expected_total("prompt processing, n_tokens = 10, progress = 0"), None);
}

#[test]
fn progress_above_one_is_ignored() {
    assert_eq!(parse_prompt_expected_total("prompt processing, n_tokens = 10, progress = 2.5"), None);
}

#[test]
fn half_progress_doubles() {
    assert_eq!(parse_prompt_expected_total("prompt processing, n_tokens = 1000, progress = 0.5"), Some(2000));
    assert_eq!(parse_prompt_expected_total("prompt processing, n_tokens = 1000, progress = .5"), Some(2000));
}

#[test]
fn flexible_spacing_is_accepted() {
    assert_eq!(
        parse_prompt_expected_total("prompt processing,n_tokens=300,progress=0.25"),
        Some(1200)
    );
    assert_eq!(
        parse_prompt_expected_total("xx prompt processing,\t n_tokens \t=\t 300 ,progress = 0.25"),
        None
    );
}

#[test]
fn malformed_progress_is_ignored() {
    assert_eq!(parse_prompt_expected_total("prompt processing, n_tokens = 10, progress = 0.5.1"), None);
    assert_eq!(parse_prompt_expected_total("prompt processing, n_tokens = 10, progress = ."), None);
}

#[test]
fn token_count_overflow_is_ignored() {
    assert_eq!(
        parse_prompt_expected_total("prompt processing, n_tokens = 99999999999999999999, progress = 0.5"),
        None
    );
}

#[test]
fn huge_quotient_saturates() {
    assert_eq!(
        parse_prompt_expected_total("prompt processing, n_tokens = 18446744073709551615, progress = 0.5"),
        Some(u64::MAX)
    );
}

#[test]
fn tiny_progress_keeps_all_digits() {
    assert_eq!(
        parse_prompt_expected_total("prompt processing, n_tokens = 3, progress = 0.000000000000000000000000000003"),
        Some(u64::MAX)
    );
    assert_eq!(
        parse_prompt_expected_total("prompt processing, n_tokens = 7, progress = 0.70000000000000000000000000000"),
        Some(10)
    );
}

#[test]
fn leftmost_occurrence_counts() {
    let line = "prompt processing, n_tokens = 100, progress = 0.5 | prompt processing, n_tokens = 100, progress = 0.25";
    assert_eq!(parse_prompt_expected_total(line), Some(200));
}

#[test]
fn non_ascii_digits_stop_the_match() {
    // U+0663 is ARABIC-INDIC DIGIT THREE: a decimal digit that does not parse.
    assert_eq!(parse_prompt_expected_total("prompt processing, n_tokens = \u{663}, progress = 0.5"), None);
    assert_eq!(parse_prompt_expected_total("prompt processing, n_tokens = 10, progress = 0.5\u{663}"), None);
}

#[test]
fn agrees_with_regex_on_match_spans() {
    let re = Regex::new(r"prompt processing,\s*n_tokens\s*=\s*(\d+),\s*progress\s*=\s*([\d.]+)").unwrap();
    let lines = [
        "slot print_timing: id  1 | task 162 | prompt processing, n_tokens =  44032, progress = 0.91, t =  73.95 s",
        "prompt processing, n_tokens = 1000, progress = 0.5",
        "prompt processing,n_tokens=300,progress=0.25",
        "prompt processing, n_tokens = 12, progress = 0.125 tail",
        "prompt processing, n_tokens = 17, progress = 0.3333333333",
        "nothing here",
        "prompt processing, n_tokens = , progress = 0.5",
    ];
    for line in lines {
        let expected = re.captures(line).and_then(|c| {
            let n: u64 = c.get(1)?.as_str().parse().ok()?;
            let p: f64 = c.get(2)?.as_str().parse().ok()?;
            if p > 0.0 && p < 1.0 { Some((n as f64 / p) as u64) } else { None }
        });
        assert_eq!(parse_prompt_expected_total(line), expected, "line: {}", line);
    }
}
