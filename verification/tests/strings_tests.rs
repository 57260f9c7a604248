use as_witx::idents::{to_as_name, to_camel, to_shouty, to_snake};
use as_witx::strings::{dec_str, intersperse_join, join_strings};

#[test]
fn decimal_rendering() {
    assert_eq!(dec_str(0), "0");
    assert_eq!(dec_str(7), "7");
    assert_eq!(dec_str(300), "300");
    assert_eq!(dec_str(18446744073709551615), "18446744073709551615");
}

#[test]
fn join_with_separator() {
    let v = vec!["a".to_string(), "b".to_string(), "c".to_string()];
    assert_eq!(join_strings(&v, ", "), "a, b, c");
    let empty: Vec<String> = Vec::new();
    assert_eq!(join_strings(&empty, ", "), "");
    let one = vec!["x".to_string()];
    assert_eq!(join_strings(&one, ", "), "x");
}

#[test]
fn intersperse_matches_plain_join() {
    let v = vec!["x".to_string(), "y".to_string()];
    assert_eq!(intersperse_join(&v, ", "), "x, y");
    assert_eq!(intersperse_join(&v, ", "), join_strings(&v, ", "));
}

#[test]
fn numeric_names_gain_underscore() {
    assert_eq!(to_as_name("2"), "_2");
    assert_eq!(to_as_name("307"), "_307");
    assert_eq!(to_as_name("2big"), "2big");
    assert_eq!(to_as_name(""), "");
    assert_eq!(to_as_name("fd_read"), "fd_read");
    // one past the machine's range: left unchanged
    assert_eq!(to_as_name("18446744073709551616"), "18446744073709551616");
}

#[test]
fn case_transforms_change_their_input() {
    assert_eq!(to_camel("wasi_string"), "WasiString");
    assert_eq!(to_snake("fdRead"), "fd_read");
    assert_eq!(to_shouty("errno"), "ERRNO");
}
