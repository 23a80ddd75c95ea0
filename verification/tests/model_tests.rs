use halo2_json_regex::gate::row_satisfied;
use halo2_json_regex::pattern::{split_regex, PatternSyntaxError};
use halo2_json_regex::plan::{check_plan, plan_assignment, SynthesisError};
use halo2_json_regex::segment::convert_input_to_verify_format;
use halo2_json_regex::set_regex_check_config_params;

fn lower_class() -> Vec<u8> {
    let mut class: Vec<u8> = Vec::new();
    let mut b = b'a';
    while b <= b'z' {
        class.push(b);
        b += 1;
    }
    class
}

#[test]
fn set_params_keeps_regex() {
    let params = set_regex_check_config_params(String::from("{\"[a-z]+\"}"));
    assert_eq!(params.regex, "{\"[a-z]+\"}");
}

#[test]
fn split_simple_pattern() {
    let sections = split_regex(String::from("{\"[a-z]+\"}")).unwrap();
    let expected: Vec<Vec<u8>> =
        vec![vec![b'{'], vec![b'"'], lower_class(), vec![b'"'], vec![b'}']];
    assert_eq!(sections, expected);
}

#[test]
fn split_empty_pattern_gives_no_sections() {
    let sections = split_regex(String::new()).unwrap();
    assert!(sections.is_empty());
}

#[test]
fn split_is_deterministic() {
    let a = split_regex(String::from("{\"[a-z]+\":\"[a-zA-Z0-9]+\"}"));
    let b = split_regex(String::from("{\"[a-z]+\":\"[a-zA-Z0-9]+\"}"));
    assert_eq!(a, b);
}

#[test]
fn split_range_is_exclusive_of_bounds() {
    // The `-` contributes the bytes strictly between its neighbours; the
    // lower bound is already in the buffer and the upper bound is appended
    // afterwards as a plain byte.
    let sections = split_regex(String::from("[a-d]")).unwrap();
    assert_eq!(sections, vec![vec![b'a', b'b', b'c', b'd']]);
}

#[test]
fn split_rejects_dash_at_start() {
    assert_eq!(
        split_regex(String::from("-abc")),
        Err(PatternSyntaxError::DanglingDash)
    );
}

#[test]
fn split_rejects_dash_at_end() {
    assert_eq!(
        split_regex(String::from("abc-")),
        Err(PatternSyntaxError::DanglingDash)
    );
}

#[test]
fn split_rejects_empty_class() {
    assert_eq!(
        split_regex(String::from("[]")),
        Err(PatternSyntaxError::EmptyClass)
    );
}

#[test]
fn split_rejects_unclosed_class() {
    assert_eq!(
        split_regex(String::from("{\"[ab")),
        Err(PatternSyntaxError::UnmatchedBracket)
    );
}

#[test]
fn split_rejects_stray_close_bracket() {
    assert_eq!(
        split_regex(String::from("]x")),
        Err(PatternSyntaxError::UnmatchedBracket)
    );
}

#[test]
fn split_rejects_nested_class() {
    assert_eq!(
        split_regex(String::from("[[a]]")),
        Err(PatternSyntaxError::UnmatchedBracket)
    );
}

#[test]
fn convert_input_groups_runs() {
    let segments = convert_input_to_verify_format(String::from("{\"abc\"}"));
    let expected: Vec<Vec<u64>> = vec![
        vec![b'{' as u64],
        vec![b'"' as u64],
        vec![b'a' as u64, b'b' as u64, b'c' as u64],
        vec![b'"' as u64],
        vec![b'}' as u64],
    ];
    assert_eq!(segments, expected);
}

#[test]
fn default_mode_gives_one_zero_row_per_section() {
    let sections = split_regex(String::from("{\"[a-z]+\"}")).unwrap();
    let plan = plan_assignment(sections.len(), &Vec::new()).unwrap();
    assert_eq!(plan.len(), 5);
    for (i, region) in plan.iter().enumerate() {
        assert_eq!(region.section_index, i);
        assert_eq!(region.offset, i);
        assert_eq!(region.values, vec![0u64]);
    }
    // The sentinel zero satisfies every gate.
    assert!(check_plan(&sections, &plan));
}

#[test]
fn default_mode_without_sections_fails() {
    assert!(matches!(
        plan_assignment(0, &Vec::new()),
        Err(SynthesisError::Synthesis)
    ));
}

#[test]
fn fill_mode_rows_are_contiguous() {
    let segments = convert_input_to_verify_format(String::from("{\"abc\"}"));
    let plan = plan_assignment(5, &segments).unwrap();
    assert_eq!(plan.len(), 5);
    let offsets: Vec<usize> = plan.iter().map(|r| r.offset).collect();
    assert_eq!(offsets, vec![0, 1, 2, 5, 6]);
    assert_eq!(plan[2].values, vec![b'a' as u64, b'b' as u64, b'c' as u64]);
}

#[test]
fn excess_segments_are_ignored() {
    let mut segments = convert_input_to_verify_format(String::from("{\"abc\"}"));
    segments.push(vec![1u64, 2, 3]);
    segments.push(vec![4u64]);
    let truncated = plan_assignment(5, &convert_input_to_verify_format(String::from("{\"abc\"}")))
        .unwrap();
    let full = plan_assignment(5, &segments).unwrap();
    assert_eq!(full.len(), truncated.len());
    for (a, b) in full.iter().zip(truncated.iter()) {
        assert_eq!(a.section_index, b.section_index);
        assert_eq!(a.offset, b.offset);
        assert_eq!(a.values, b.values);
    }
    let sections = split_regex(String::from("{\"[a-z]+\"}")).unwrap();
    assert!(check_plan(&sections, &full));
}

#[test]
fn empty_last_segment_fails_synthesis() {
    let segments: Vec<Vec<u64>> = vec![vec![b'{' as u64], Vec::new()];
    assert!(matches!(
        plan_assignment(2, &segments),
        Err(SynthesisError::Synthesis)
    ));
}

#[test]
fn row_accepts_members_and_sentinel_only() {
    let allowed = lower_class();
    assert!(row_satisfied(&allowed, b'a' as u64));
    assert!(row_satisfied(&allowed, b'z' as u64));
    assert!(row_satisfied(&allowed, 0));
    assert!(!row_satisfied(&allowed, b'7' as u64));
    assert!(!row_satisfied(&allowed, b'A' as u64));
}

#[test]
fn matching_input_satisfies_model() {
    let sections = split_regex(String::from("{\"[a-z]+\"}")).unwrap();
    let segments = convert_input_to_verify_format(String::from("{\"abc\"}"));
    let plan = plan_assignment(sections.len(), &segments).unwrap();
    assert!(check_plan(&sections, &plan));
}

#[test]
fn duplicated_literal_violates_model() {
    let sections = split_regex(String::from("{\"[a-z]+\"}")).unwrap();
    let segments = convert_input_to_verify_format(String::from("{{\"abc\"}"));
    let plan = plan_assignment(sections.len(), &segments).unwrap();
    assert!(!check_plan(&sections, &plan));
}

#[test]
fn key_value_input_satisfies_model() {
    let sections = split_regex(String::from("{\"[a-z]+\":\"[a-zA-Z0-9]+\"}")).unwrap();
    let segments = convert_input_to_verify_format(String::from("{\"abc\":\"abcDZ123\"}"));
    let plan = plan_assignment(sections.len(), &segments).unwrap();
    assert!(check_plan(&sections, &plan));
}

#[test]
fn digit_in_lowercase_key_violates_model() {
    let sections = split_regex(String::from("{\"[a-z]+\":\"[a-zA-Z0-9]+\"}")).unwrap();
    let segments = convert_input_to_verify_format(String::from("{\"abc7\":\"abc\"}"));
    let plan = plan_assignment(sections.len(), &segments).unwrap();
    assert!(!check_plan(&sections, &plan));
}
