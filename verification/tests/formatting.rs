use jacobi::env_args::EnvArgs;
use jacobi::formating::{display_precision, is_zero};

fn precision_of(value: f64) -> usize {
    let rendered = value.abs().fract().to_string();
    display_precision(&rendered.chars().collect())
}

#[test]
fn is_zero_accepts_only_the_zero_digit() {
    assert!(is_zero('0'));
    assert!(!is_zero('1'));
    assert!(!is_zero('9'));
    assert!(!is_zero('.'));
}

#[test]
fn precision_reaches_one_digit_past_the_first_nonzero() {
    // 0.5 renders as "0.5": the first fractional digit is nonzero, so two
    // decimals are shown.
    assert_eq!(precision_of(0.5), 2);
    assert_eq!(precision_of(-12.25), 2);
    // 0.01 renders as "0.01": one leading zero, then the nonzero digit.
    assert_eq!(precision_of(0.01), 3);
    assert_eq!(precision_of(0.001953125), 4);
}

#[test]
fn precision_of_an_integral_value_is_zero() {
    // The fractional part renders as the single character "0".
    assert_eq!(precision_of(3.0), 0);
    assert_eq!(precision_of(-7.0), 0);
}

#[test]
fn precision_of_an_all_zero_tail_spans_the_digits() {
    let chars: Vec<char> = "0.000".chars().collect();
    assert_eq!(display_precision(&chars), 3);
}

#[test]
fn file_path_is_the_argument_after_the_program_name() {
    let args = vec!["solver".to_string(), "system.json".to_string()];
    let parsed = EnvArgs::from(args);
    assert_eq!(parsed.file_path, Some("system.json".to_string()));
}

#[test]
fn file_path_is_absent_without_a_second_argument() {
    let args = vec!["solver".to_string()];
    let parsed = EnvArgs::from(args);
    assert_eq!(parsed.file_path, None);
}
