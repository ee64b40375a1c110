use lambda_calculus::text::trim_in_place;

fn check_trimmed(original: &str, trimmed: &str) {
    let mut s = original.to_string();
    trim_in_place(&mut s);
    assert_eq!(s, trimmed);
}

#[test]
fn nothing_to_trim() {
    check_trimmed("such content wow", "such content wow");
}

#[test]
fn trim_left() {
    check_trimmed(" \n\tsuch content wow", "such content wow");
}

#[test]
fn trim_right() {
    check_trimmed("such content wow \r\n \t", "such content wow");
}

#[test]
fn trim_both() {
    check_trimmed(" \n\tsuch content wow \r\n \t", "such content wow");
}

#[test]
fn trim_all_whitespace_and_empty() {
    check_trimmed(" \u{a0}\u{3000} ", "");
    check_trimmed("", "");
    check_trimmed("a b", "a b");
}
