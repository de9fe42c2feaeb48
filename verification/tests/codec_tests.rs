use ook_bridge::codec::normalize_frame;

#[test]
fn normalize_appends_newline() {
    assert_eq!(normalize_frame(String::from("{\"ok\":1}")), "{\"ok\":1}\n");
}

#[test]
fn normalize_keeps_existing_newline() {
    assert_eq!(normalize_frame(String::from("abc\n")), "abc\n");
}

#[test]
fn normalize_is_idempotent_on_terminated_frame() {
    let once = normalize_frame(String::from("abc"));
    let twice = normalize_frame(once.clone());
    assert_eq!(once, "abc\n");
    assert_eq!(twice, "abc\n");
}

#[test]
fn normalize_empty_frame_is_one_empty_line() {
    assert_eq!(normalize_frame(String::new()), "\n");
}
