use vecsim::security_utils::SecurityUtils;
use vecsim::util::calculate_sum;
use vecsim::util::compare_strings;
use vecsim::util::divide;
use vecsim::util::factorial;
use vecsim::util::process_data;

#[test]
fn sanitize_replaces_dangerous_characters() {
    let s = SecurityUtils::new();
    assert_eq!(s.sanitize_filename("file/name.txt".to_string()), "file_name.txt");
    assert_eq!(s.sanitize_filename("a:b*c?d\"e<f>g|h\\i".to_string()), "a_b_c_d_e_f_g_h_i");
}

#[test]
fn sanitize_trims_dots_then_spaces() {
    let s = SecurityUtils::new();
    assert_eq!(s.sanitize_filename("..hidden..".to_string()), "hidden");
    assert_eq!(s.sanitize_filename("  name  ".to_string()), "name");
    // dots are trimmed before spaces, so an inner dot guarded by a space stays
    assert_eq!(s.sanitize_filename(" . x".to_string()), ". x");
}

#[test]
fn sanitize_falls_back_to_a_placeholder() {
    let s = SecurityUtils::new();
    assert_eq!(s.sanitize_filename(String::new()), "unnamed");
    assert_eq!(s.sanitize_filename("...".to_string()), "unnamed");
    assert_eq!(s.sanitize_filename(". .".to_string()), "unnamed");
}

#[test]
fn divide_truncates_toward_zero() {
    assert_eq!(divide(10, 3), 3);
    assert_eq!(divide(-10, 3), -3);
    assert_eq!(divide(10, -3), -3);
    assert_eq!(divide(-10, -3), 3);
    assert_eq!(divide(0, 5), 0);
    assert_eq!(divide(i32::MIN, 2), -1073741824);
}

#[test]
fn factorial_has_exact_values() {
    assert_eq!(factorial(0), 1);
    assert_eq!(factorial(1), 1);
    assert_eq!(factorial(5), 120);
    assert_eq!(factorial(20), 2432902008176640000);
}

#[test]
fn compare_strings_returns_the_longer() {
    assert_eq!(compare_strings("abc", "de"), "abc");
    assert_eq!(compare_strings("ab", "cde"), "cde");
    assert_eq!(compare_strings("ab", "cd"), "cd");
}

#[test]
fn sample_checks_report_nothing() {
    assert_eq!(process_data(), None);
    assert_eq!(calculate_sum(), None);
}
