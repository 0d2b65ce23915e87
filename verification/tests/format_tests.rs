use dollgen::format::FormatErrorKind;
use dollgen::format::format as expand;
use dollgen::ErrorKind;

fn caps(items: &[&str]) -> Vec<String> {
    items.iter().map(|s| s.to_string()).collect()
}

#[test]
fn expands_two_captures() {
    let r = expand("dist/{0}/{1}.html", &caps(&["a", "b"])).unwrap();
    assert_eq!(r, "dist/a/b.html");
}

#[test]
fn key_out_of_range_fails() {
    let r = expand("dist/{2}.html", &caps(&["a"]));
    assert!(matches!(
        r,
        Err(ErrorKind::Format(FormatErrorKind::KeyOutOfRange(k))) if k == "2"
    ));
}

#[test]
fn non_numeric_key_fails() {
    let r = expand("dist/{x}.html", &caps(&[]));
    assert!(matches!(
        r,
        Err(ErrorKind::Format(FormatErrorKind::NonNumericKey(k))) if k == "x"
    ));
}

#[test]
fn empty_key_is_non_numeric() {
    let r = expand("a{}b", &caps(&["a"]));
    assert!(matches!(
        r,
        Err(ErrorKind::Format(FormatErrorKind::NonNumericKey(k))) if k.is_empty()
    ));
}

#[test]
fn plain_text_is_copied() {
    let r = expand("no placeholders here", &caps(&[])).unwrap();
    assert_eq!(r, "no placeholders here");
}

#[test]
fn empty_format_string() {
    let r = expand("", &caps(&["a"])).unwrap();
    assert_eq!(r, "");
}

#[test]
fn adjacent_placeholders() {
    let r = expand("{1}{0}", &caps(&["a", "b"])).unwrap();
    assert_eq!(r, "ba");
}

#[test]
fn repeated_placeholder() {
    let r = expand("{0}-{0}", &caps(&["x"])).unwrap();
    assert_eq!(r, "x-x");
}

#[test]
fn unterminated_placeholder_fails() {
    let r = expand("dist/{0", &caps(&["a"]));
    assert!(matches!(
        r,
        Err(ErrorKind::Format(FormatErrorKind::UnmatchedBrace))
    ));
}

#[test]
fn bare_closing_brace_fails() {
    let r = expand("dist/}x", &caps(&["a"]));
    assert!(matches!(
        r,
        Err(ErrorKind::Format(FormatErrorKind::UnmatchedBrace))
    ));
}

#[test]
fn huge_numeric_key_is_out_of_range() {
    let r = expand("{99999999999999999999999999}", &caps(&["a"]));
    assert!(matches!(
        r,
        Err(ErrorKind::Format(FormatErrorKind::KeyOutOfRange(k))) if k == "99999999999999999999999999"
    ));
}

#[test]
fn key_with_format_spec_is_non_numeric() {
    let r = expand("{0:>5}", &caps(&["a"]));
    assert!(matches!(
        r,
        Err(ErrorKind::Format(FormatErrorKind::NonNumericKey(k))) if k == "0:>5"
    ));
}

#[test]
fn empty_capture_substitutes_empty() {
    let r = expand("a{0}b", &caps(&[""])).unwrap();
    assert_eq!(r, "ab");
}
